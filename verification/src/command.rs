//! The command language: the closed set of command kinds, the parsed command
//! with its optional argument, a builder for programmatic construction, and
//! the text parser with its grammar.
//!
//! Grammar: `KEYWORD [ARGUMENT]`, tokens split on runs of ASCII whitespace,
//! where `KEYWORD` is one of `EXIT`, `HELP`, `UPLOAD`, `RECEIVE`, `CATALOG`.
//! An argument is mandatory for `UPLOAD` and `RECEIVE` and forbidden for the
//! other three. Only the first two tokens are significant; anything beyond
//! the second token is ignored.

use vstd::prelude::*;
use vstd::string::StrSliceExecFns;
use vstd::string::StringExecFns;

verus! {

/// The kind of a command. `Exit` and `Help` run on the client; `Upload`,
/// `Receive` and `Catalog` are executed by the server.
#[derive(Debug, PartialEq, Eq, Structural, Clone, Copy)]
pub enum CommandType {
    Exit,
    Help,
    Upload,
    Receive,
    Catalog,
}

impl CommandType {
    /// Whether this kind of command carries an argument (a file name).
    pub open spec fn spec_has_arg(self) -> bool {
        self == CommandType::Upload || self == CommandType::Receive
    }

    /// Whether this kind of command is executed on the client side only.
    pub open spec fn spec_is_client(self) -> bool {
        self == CommandType::Exit || self == CommandType::Help
    }

    /// Returns true if the command kind takes an argument.
    pub fn has_arg(&self) -> (r: bool)
        ensures
            r == self.spec_has_arg(),
    {
        if *self == CommandType::Exit || *self == CommandType::Help || *self
            == CommandType::Catalog {
            false
        } else {
            true
        }
    }

    /// Returns true if the command runs on the client side.
    pub fn is_client(&self) -> (r: bool)
        ensures
            r == self.spec_is_client(),
    {
        if *self == CommandType::Exit || *self == CommandType::Help {
            true
        } else {
            false
        }
    }
}

/// Why a command text was rejected.
#[derive(Debug, PartialEq, Eq, Structural, Clone, Copy)]
pub enum ParseError {
    /// The text was empty, or held nothing but whitespace.
    EmptyCommand,
    /// The first token was none of the five keywords.
    UnknownCommand,
    /// An argument was supplied for a kind that takes none.
    UnexpectedArgument,
    /// No argument was supplied for a kind that requires one.
    MissingArgument,
}

/// The whitespace characters that separate tokens.
pub open spec fn is_wspace(c: char) -> bool {
    c == ' ' || c == '\t' || c == '\n' || c == '\r' || c == '\u{b}' || c == '\u{c}'
}

/// The first position at or after `i` holding a non-whitespace character
/// (`s.len()` if there is none).
pub open spec fn first_non_ws(s: Seq<char>, i: int) -> int
    recommends
        0 <= i <= s.len(),
    decreases s.len() - i when 0 <= i <= s.len()
{
    if i >= s.len() {
        s.len() as int
    } else if !is_wspace(s[i]) {
        i
    } else {
        first_non_ws(s, i + 1)
    }
}

/// The first position at or after `i` holding a whitespace character
/// (`s.len()` if there is none).
pub open spec fn first_ws(s: Seq<char>, i: int) -> int
    recommends
        0 <= i <= s.len(),
    decreases s.len() - i when 0 <= i <= s.len()
{
    if i >= s.len() {
        s.len() as int
    } else if is_wspace(s[i]) {
        i
    } else {
        first_ws(s, i + 1)
    }
}

/// A scan that stopped at `i` after seeing only whitespace is exactly
/// `first_non_ws`.
proof fn lemma_first_non_ws_at(s: Seq<char>, start: int, i: int)
    requires
        0 <= start <= i <= s.len(),
        forall|j: int| start <= j < i ==> is_wspace(s[j]),
        i == s.len() || !is_wspace(s[i]),
    ensures
        first_non_ws(s, start) == i,
    decreases i - start,
{
    if start < i {
        lemma_first_non_ws_at(s, start + 1, i);
    }
}

/// A scan that stopped at `i` after seeing only non-whitespace is exactly
/// `first_ws`.
proof fn lemma_first_ws_at(s: Seq<char>, start: int, i: int)
    requires
        0 <= start <= i <= s.len(),
        forall|j: int| start <= j < i ==> !is_wspace(s[j]),
        i == s.len() || is_wspace(s[i]),
    ensures
        first_ws(s, start) == i,
    decreases i - start,
{
    if start < i {
        lemma_first_ws_at(s, start + 1, i);
    }
}

/// Bounds of the scan functions.
pub proof fn lemma_scan_bounds(s: Seq<char>, i: int)
    requires
        0 <= i <= s.len(),
    ensures
        i <= first_non_ws(s, i) <= s.len(),
        i <= first_ws(s, i) <= s.len(),
    decreases s.len() - i,
{
    if i < s.len() {
        lemma_scan_bounds(s, i + 1);
    }
}

/// The keyword, if any, that a token names.
pub open spec fn spec_keyword(t: Seq<char>) -> Option<CommandType> {
    if t == "EXIT"@ {
        Some(CommandType::Exit)
    } else if t == "HELP"@ {
        Some(CommandType::Help)
    } else if t == "UPLOAD"@ {
        Some(CommandType::Upload)
    } else if t == "RECEIVE"@ {
        Some(CommandType::Receive)
    } else if t == "CATALOG"@ {
        Some(CommandType::Catalog)
    } else {
        None
    }
}

/// What parsing a command text yields: the keyword and the argument token,
/// or the error. The first token picks the kind; a second token is the
/// argument; later tokens are ignored.
pub open spec fn spec_parse(s: Seq<char>) -> Result<(CommandType, Option<Seq<char>>), ParseError> {
    let a = first_non_ws(s, 0);
    if a == s.len() {
        Err(ParseError::EmptyCommand)
    } else {
        let b = first_ws(s, a);
        match spec_keyword(s.subrange(a, b)) {
            None => Err(ParseError::UnknownCommand),
            Some(k) => {
                let c = first_non_ws(s, b);
                if c < s.len() {
                    if k.spec_has_arg() {
                        Ok((k, Some(s.subrange(c, first_ws(s, c)))))
                    } else {
                        Err(ParseError::UnexpectedArgument)
                    }
                } else {
                    if k.spec_has_arg() {
                        Err(ParseError::MissingArgument)
                    } else {
                        Ok((k, None))
                    }
                }
            },
        }
    }
}

/// A requested operation: its kind and, for the kinds that take one, the
/// argument. The intended invariant (`wf`) is that an argument is present
/// exactly when the kind requires one; `parse` establishes it, while the
/// builder leaves it to its caller.
#[derive(Debug, Clone)]
pub struct ShareCommand {
    pub command_type: CommandType,
    pub arg: Option<String>,
}

impl ShareCommand {
    /// Argument presence matches the kind's argument rule.
    pub open spec fn wf(self) -> bool {
        self.arg is Some <==> self.command_type.spec_has_arg()
    }

    /// Parse a command text. Succeeds exactly when `spec_parse` does, with
    /// the kind and argument `spec_parse` names; the result then satisfies
    /// the argument-presence invariant.
    pub fn parse(command: &str) -> (r: Result<ShareCommand, ParseError>)
        ensures
            ({
                let sp = spec_parse(command@);
                match r {
                    Ok(cmd) => {
                        &&& sp is Ok
                        &&& cmd.command_type == sp->Ok_0.0
                        &&& (cmd.arg is Some <==> sp->Ok_0.1 is Some)
                        &&& (cmd.arg is Some ==> cmd.arg->0@ == sp->Ok_0.1->0)
                        &&& cmd.wf()
                    },
                    Err(e) => sp is Err && e == sp->Err_0,
                }
            }),
    {
        let ghost s = command@;
        let n = command.unicode_len();
        let a = scan_non_ws(command, 0);
        if a == n {
            return Err(ParseError::EmptyCommand);
        }
        let b = scan_ws(command, a);
        proof {
            lemma_scan_bounds(s, a as int);
        }
        let tok = command.substring_char(a, b);
        let kind: Option<CommandType> = if str_eq(tok, "EXIT") {
            Some(CommandType::Exit)
        } else if str_eq(tok, "HELP") {
            Some(CommandType::Help)
        } else if str_eq(tok, "UPLOAD") {
            Some(CommandType::Upload)
        } else if str_eq(tok, "RECEIVE") {
            Some(CommandType::Receive)
        } else if str_eq(tok, "CATALOG") {
            Some(CommandType::Catalog)
        } else {
            None
        };
        match kind {
            None => Err(ParseError::UnknownCommand),
            Some(k) => {
                let c = scan_non_ws(command, b);
                if c < n {
                    if k.has_arg() {
                        let d = scan_ws(command, c);
                        proof {
                            lemma_scan_bounds(s, c as int);
                        }
                        let arg = String::from_str(command.substring_char(c, d));
                        Ok(ShareCommand { command_type: k, arg: Some(arg) })
                    } else {
                        Err(ParseError::UnexpectedArgument)
                    }
                } else {
                    if k.has_arg() {
                        Err(ParseError::MissingArgument)
                    } else {
                        Ok(ShareCommand { command_type: k, arg: None })
                    }
                }
            },
        }
    }

    /// The kind of this command.
    pub fn command_type(&self) -> (r: CommandType)
        ensures
            r == self.command_type,
    {
        self.command_type
    }

    /// Whether this command is of the given kind.
    pub fn command_type_is(&mut self, cmp: CommandType) -> (r: bool)
        ensures
            r == (old(self).command_type == cmp),
            *final(self) == *old(self),
    {
        self.command_type == cmp
    }

    /// The argument, if the command carries one.
    pub fn arg(&self) -> (r: &Option<String>)
        ensures
            r == self.arg,
    {
        &self.arg
    }
}

/// Builds a `ShareCommand` without going through text parsing, for
/// programmatic callers (catalog probes, click-driven receive requests).
/// It does not re-validate the argument-presence rule: callers uphold it.
#[derive(Debug)]
pub struct ShareCommandBuilder {
    pub command_type: Option<CommandType>,
    pub arg: Option<String>,
}

impl ShareCommandBuilder {
    /// A builder with nothing set yet.
    pub fn new() -> (r: ShareCommandBuilder)
        ensures
            r.command_type is None,
            r.arg is None,
    {
        ShareCommandBuilder { command_type: None, arg: None }
    }

    /// Set the kind.
    pub fn command_type(self, command_type: CommandType) -> (r: ShareCommandBuilder)
        ensures
            r.command_type == Some(command_type),
            r.arg == self.arg,
    {
        ShareCommandBuilder { command_type: Some(command_type), arg: self.arg }
    }

    /// Set the argument.
    pub fn arg(self, arg: String) -> (r: ShareCommandBuilder)
        ensures
            r.command_type == self.command_type,
            r.arg == Some(arg),
    {
        ShareCommandBuilder { command_type: self.command_type, arg: Some(arg) }
    }

    /// Finish the build. A command cannot exist without a kind, so one must
    /// have been set.
    pub fn build(self) -> (r: ShareCommand)
        requires
            self.command_type is Some,
        ensures
            r.command_type == self.command_type->0,
            r.arg == self.arg,
    {
        ShareCommand { command_type: self.command_type.unwrap(), arg: self.arg }
    }
}

/// Scan forward from `start` to the first non-whitespace character.
fn scan_non_ws(s: &str, start: usize) -> (r: usize)
    requires
        start <= s@.len(),
    ensures
        r == first_non_ws(s@, start as int),
        start <= r <= s@.len(),
{
    let n = s.unicode_len();
    let mut i = start;
    while i < n
        invariant
            start <= i <= n,
            n == s@.len(),
            forall|j: int| start <= j < i ==> is_wspace(s@[j]),
        decreases n - i,
    {
        let c = s.get_char(i);
        if !(c == ' ' || c == '\t' || c == '\n' || c == '\r' || c == '\u{b}' || c == '\u{c}') {
            proof {
                lemma_first_non_ws_at(s@, start as int, i as int);
            }
            return i;
        }
        i = i + 1;
    }
    proof {
        lemma_first_non_ws_at(s@, start as int, i as int);
    }
    i
}

/// Scan forward from `start` to the first whitespace character.
fn scan_ws(s: &str, start: usize) -> (r: usize)
    requires
        start <= s@.len(),
    ensures
        r == first_ws(s@, start as int),
        start <= r <= s@.len(),
{
    let n = s.unicode_len();
    let mut i = start;
    while i < n
        invariant
            start <= i <= n,
            n == s@.len(),
            forall|j: int| start <= j < i ==> !is_wspace(s@[j]),
        decreases n - i,
    {
        let c = s.get_char(i);
        if c == ' ' || c == '\t' || c == '\n' || c == '\r' || c == '\u{b}' || c == '\u{c}' {
            proof {
                lemma_first_ws_at(s@, start as int, i as int);
            }
            return i;
        }
        i = i + 1;
    }
    proof {
        lemma_first_ws_at(s@, start as int, i as int);
    }
    i
}

/// Character-for-character string comparison.
pub fn str_eq(a: &str, b: &str) -> (r: bool)
    ensures
        r == (a@ == b@),
{
    let na = a.unicode_len();
    let nb = b.unicode_len();
    if na != nb {
        return false;
    }
    let mut i: usize = 0;
    while i < na
        invariant
            i <= na,
            na == a@.len(),
            nb == b@.len(),
            na == nb,
            forall|j: int| 0 <= j < i ==> a@[j] == b@[j],
        decreases na - i,
    {
        if a.get_char(i) != b.get_char(i) {
            return false;
        }
        i = i + 1;
    }
    proof {
        assert(a@ =~= b@);
    }
    true
}

/// Every text whose first token names one of the five keywords parses
/// successfully exactly when the presence of a second token matches the
/// keyword's argument rule; on success the kind is that keyword and the
/// argument, when present, is the second token.
pub proof fn lemma_parse_grammar(s: Seq<char>)
    requires
        first_non_ws(s, 0) < s.len(),
        spec_keyword(s.subrange(first_non_ws(s, 0), first_ws(s, first_non_ws(s, 0)))) is Some,
    ensures
        ({
            let a = first_non_ws(s, 0);
            let b = first_ws(s, a);
            let k = spec_keyword(s.subrange(a, b))->0;
            let has_second = first_non_ws(s, b) < s.len();
            &&& (spec_parse(s) is Ok <==> has_second == k.spec_has_arg())
            &&& (spec_parse(s) is Ok ==> spec_parse(s)->Ok_0.0 == k)
            &&& (spec_parse(s) is Ok ==> spec_parse(s)->Ok_0.1 == (if has_second {
                let c = first_non_ws(s, b);
                Some(s.subrange(c, first_ws(s, c)))
            } else {
                None::<Seq<char>>
            }))
        }),
{
    lemma_scan_bounds(s, 0);
}

/// Every text with no token at all, and every text whose first token names
/// no keyword, is rejected.
pub proof fn lemma_parse_rejects(s: Seq<char>)
    requires
        first_non_ws(s, 0) == s.len() || spec_keyword(
            s.subrange(first_non_ws(s, 0), first_ws(s, first_non_ws(s, 0))),
        ) is None,
    ensures
        spec_parse(s) is Err,
{
}

} // verus!
