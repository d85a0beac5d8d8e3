//! The wire codec: a deterministic binary serialization of the envelope and
//! the length-prefixed framing around it.
//!
//! A frame is `<decimal ASCII length>\n<exactly length bytes of serialized
//! envelope>`, applied identically in both directions. The serialized bytes
//! hold the command (one tag byte), the optional argument, file and text
//! payloads (one presence byte each; present payloads carry an eight-byte
//! little-endian length and then their bytes, text as UTF-8), the response
//! status (one byte) and the response text. The location tag is never part
//! of the bytes: the receiver overwrites it with its own identity.
//!
//! The codec performs no compression, no checksum and no multiplexing: one
//! frame is one logical request or response.

use vstd::prelude::*;
use vstd::bytes::*;
use vstd::slice::*;
use vstd::utf8::*;
use vstd::string::StrSliceExecFns;
use vstd::arithmetic::div_mod::lemma_fundamental_div_mod;
use crate::command::CommandType;
use crate::command::ShareCommand;
use crate::share::ExecuteAction;
use crate::share::Location;
use crate::share::PrepareAction;
use crate::share::ServerResponse;
use crate::share::ServerResponseStatus;
use crate::share::Share;
use crate::share::spec_execute_action;
use crate::share::spec_prepare_action;

verus! {

/// A frame-level failure.
#[derive(Debug, PartialEq, Eq, Structural, Clone, Copy)]
pub enum ProtocolError {
    /// The header line is not parseable as an unsigned integer.
    BadHeader,
    /// The stream closed before the declared number of payload bytes.
    ShortRead,
    /// The payload bytes are not a structurally valid envelope.
    Malformed,
}

/// Everything of an envelope that crosses the wire: every field but the
/// location tag, with payloads as plain sequences.
#[verifier::ext_equal]
pub ghost struct ShareModel {
    pub command_type: CommandType,
    pub arg: Option<Seq<char>>,
    pub file: Option<Seq<u8>>,
    pub text: Option<Seq<char>>,
    pub status: ServerResponseStatus,
    pub response_text: Option<Seq<char>>,
}

/// The payload bytes of an optional string, seen abstractly.
pub open spec fn opt_str_view(o: Option<String>) -> Option<Seq<char>> {
    match o {
        None => None,
        Some(s) => Some(s@),
    }
}

/// The payload bytes of an optional byte vector, seen abstractly.
pub open spec fn opt_bytes_view(o: Option<Vec<u8>>) -> Option<Seq<u8>> {
    match o {
        None => None,
        Some(v) => Some(v@),
    }
}

impl Share {
    /// What this envelope looks like on the wire: all fields but the
    /// location tag.
    pub open spec fn wire_model(self) -> ShareModel {
        ShareModel {
            command_type: self.command.command_type,
            arg: opt_str_view(self.command.arg),
            file: opt_bytes_view(self.file),
            text: opt_str_view(self.text_data),
            status: self.server_response.status,
            response_text: opt_str_view(self.server_response.text),
        }
    }
}

/// The tag byte of a command kind.
pub open spec fn tag_of(k: CommandType) -> u8 {
    match k {
        CommandType::Exit => 0u8,
        CommandType::Help => 1u8,
        CommandType::Upload => 2u8,
        CommandType::Receive => 3u8,
        CommandType::Catalog => 4u8,
    }
}

/// The command kind a tag byte names, if any.
pub open spec fn kind_of_tag(t: u8) -> Option<CommandType> {
    if t == 0u8 {
        Some(CommandType::Exit)
    } else if t == 1u8 {
        Some(CommandType::Help)
    } else if t == 2u8 {
        Some(CommandType::Upload)
    } else if t == 3u8 {
        Some(CommandType::Receive)
    } else if t == 4u8 {
        Some(CommandType::Catalog)
    } else {
        None
    }
}

/// The status byte: 1 for `Error`, 0 for `Success`.
pub open spec fn status_byte(s: ServerResponseStatus) -> u8 {
    if s == ServerResponseStatus::Error {
        1u8
    } else {
        0u8
    }
}

/// An optional byte payload on the wire: a presence byte, then for a present
/// payload its length as eight little-endian bytes and the bytes themselves.
pub open spec fn enc_opt_bytes(o: Option<Seq<u8>>) -> Seq<u8> {
    match o {
        None => seq![0u8],
        Some(b) => seq![1u8] + spec_u64_to_le_bytes(b.len() as u64) + b,
    }
}

/// An optional text payload on the wire: its UTF-8 bytes as a byte payload.
pub open spec fn enc_opt_str(o: Option<Seq<char>>) -> Seq<u8> {
    match o {
        None => enc_opt_bytes(None),
        Some(t) => enc_opt_bytes(Some(encode_utf8(t))),
    }
}

/// The serialized envelope.
pub open spec fn encode_model(m: ShareModel) -> Seq<u8> {
    seq![tag_of(m.command_type)] + enc_opt_str(m.arg) + enc_opt_bytes(m.file) + enc_opt_str(m.text)
        + seq![status_byte(m.status)] + enc_opt_str(m.response_text)
}

/// Every payload's length is representable in the eight length bytes. Every
/// envelope that exists in a running program satisfies this.
pub open spec fn model_fits(m: ShareModel) -> bool {
    &&& (m.arg is Some ==> encode_utf8(m.arg->0).len() <= u64::MAX)
    &&& (m.file is Some ==> m.file->0.len() <= u64::MAX)
    &&& (m.text is Some ==> encode_utf8(m.text->0).len() <= u64::MAX)
    &&& (m.response_text is Some ==> encode_utf8(m.response_text->0).len() <= u64::MAX)
}

/// Read an optional byte payload at offset `i`: the payload and the offset
/// after it, or `None` on a structural mismatch.
pub open spec fn dec_opt_bytes(b: Seq<u8>, i: int) -> Option<(Option<Seq<u8>>, int)> {
    if !(0 <= i < b.len()) {
        None
    } else if b[i] == 0u8 {
        Some((None, i + 1))
    } else if b[i] == 1u8 {
        if i + 9 <= b.len() {
            let len = spec_u64_from_le_bytes(b.subrange(i + 1, i + 9)) as int;
            if i + 9 + len <= b.len() {
                Some((Some(b.subrange(i + 9, i + 9 + len)), i + 9 + len))
            } else {
                None
            }
        } else {
            None
        }
    } else {
        None
    }
}

/// Read an optional text payload at offset `i`: a byte payload that must be
/// valid UTF-8.
pub open spec fn dec_opt_str(b: Seq<u8>, i: int) -> Option<(Option<Seq<char>>, int)> {
    match dec_opt_bytes(b, i) {
        None => None,
        Some((o, j)) => match o {
            None => Some((None, j)),
            Some(bytes) => if valid_utf8(bytes) {
                Some((Some(decode_utf8(bytes)), j))
            } else {
                None
            },
        },
    }
}

/// Deserialize an envelope: the exact inverse of `encode_model` on its
/// range, `None` on any structural mismatch, trailing bytes included.
pub open spec fn decode_model(b: Seq<u8>) -> Option<ShareModel> {
    if b.len() < 1 {
        None
    } else {
        match kind_of_tag(b[0]) {
            None => None,
            Some(k) => match dec_opt_str(b, 1) {
                None => None,
                Some((arg, i2)) => match dec_opt_bytes(b, i2) {
                    None => None,
                    Some((file, i3)) => match dec_opt_str(b, i3) {
                        None => None,
                        Some((text, i4)) => if !(0 <= i4 < b.len()) {
                            None
                        } else if b[i4] != 0u8 && b[i4] != 1u8 {
                            None
                        } else {
                            let status = if b[i4] == 1u8 {
                                ServerResponseStatus::Error
                            } else {
                                ServerResponseStatus::Success
                            };
                            match dec_opt_str(b, i4 + 1) {
                                None => None,
                                Some((response_text, i5)) => if i5 == b.len() {
                                    Some(
                                        ShareModel {
                                            command_type: k,
                                            arg,
                                            file,
                                            text,
                                            status,
                                            response_text,
                                        },
                                    )
                                } else {
                                    None
                                },
                            }
                        },
                    },
                },
            },
        }
    }
}

/// Decoding reads back exactly the optional byte payload that encoding laid
/// down at offset `i`.
proof fn lemma_dec_opt_bytes_enc(b: Seq<u8>, i: int, o: Option<Seq<u8>>)
    requires
        0 <= i,
        i + enc_opt_bytes(o).len() <= b.len(),
        b.subrange(i, i + enc_opt_bytes(o).len()) == enc_opt_bytes(o),
        o is Some ==> o->0.len() <= u64::MAX,
    ensures
        dec_opt_bytes(b, i) == Some((o, i + enc_opt_bytes(o).len())),
{
    let e = enc_opt_bytes(o);
    match o {
        None => {
            assert(b[i] == e[0]) by {
                assert(b.subrange(i, i + 1)[0] == b[i]);
            }
        },
        Some(data) => {
            lemma_auto_spec_u64_to_from_le_bytes();
            let lenb = spec_u64_to_le_bytes(data.len() as u64);
            assert(lenb.len() == 8);
            assert(e.len() == 9 + data.len());
            assert(forall|k: int| 0 <= k < e.len() ==> b[i + k] == #[trigger] e[k]) by {
                assert(forall|k: int|
                    0 <= k < e.len() ==> #[trigger] b.subrange(i, i + e.len())[k] == b[i + k]);
            }
            assert(b[i] == e[0]);
            assert(e[0] == 1u8);
            assert(b.subrange(i + 1, i + 9) =~= lenb) by {
                assert(forall|k: int| 0 <= k < 8 ==> b[i + 1 + k] == e[1 + k] && e[1 + k] == lenb[k]);
            }
            assert(spec_u64_from_le_bytes(b.subrange(i + 1, i + 9)) == data.len() as u64);
            assert(b.subrange(i + 9, i + 9 + data.len()) =~= data) by {
                assert(forall|k: int|
                    0 <= k < data.len() ==> b[i + 9 + k] == e[9 + k] && e[9 + k] == data[k]);
            }
        },
    }
}

/// Decoding reads back exactly the optional text payload that encoding laid
/// down at offset `i`.
proof fn lemma_dec_opt_str_enc(b: Seq<u8>, i: int, o: Option<Seq<char>>)
    requires
        0 <= i,
        i + enc_opt_str(o).len() <= b.len(),
        b.subrange(i, i + enc_opt_str(o).len()) == enc_opt_str(o),
        o is Some ==> encode_utf8(o->0).len() <= u64::MAX,
    ensures
        dec_opt_str(b, i) == Some((o, i + enc_opt_str(o).len())),
{
    match o {
        None => {
            lemma_dec_opt_bytes_enc(b, i, None);
        },
        Some(t) => {
            lemma_dec_opt_bytes_enc(b, i, Some(encode_utf8(t)));
            encode_utf8_valid_utf8(t);
            encode_utf8_decode_utf8(t);
        },
    }
}

/// Round trip: decoding the bytes produced by encoding restores every field
/// of the wire model — the whole envelope but the location tag.
#[verifier::rlimit(60)]
pub proof fn lemma_codec_round_trip(m: ShareModel)
    requires
        model_fits(m),
    ensures
        decode_model(encode_model(m)) == Some(m),
{
    let b = encode_model(m);
    let e1 = enc_opt_str(m.arg);
    let e2 = enc_opt_bytes(m.file);
    let e3 = enc_opt_str(m.text);
    let e4 = enc_opt_str(m.response_text);
    let i1 = 1int;
    let i2 = i1 + e1.len();
    let i3 = i2 + e2.len();
    let i4 = i3 + e3.len();
    let i5 = i4 + 1;
    assert(b.len() == i5 + e4.len());
    assert(b[0] == tag_of(m.command_type));
    assert(kind_of_tag(tag_of(m.command_type)) == Some(m.command_type));
    assert(b.subrange(i1, i1 + e1.len()) =~= e1);
    lemma_dec_opt_str_enc(b, i1, m.arg);
    assert(b.subrange(i2, i2 + e2.len()) =~= e2);
    lemma_dec_opt_bytes_enc(b, i2, m.file);
    assert(b.subrange(i3, i3 + e3.len()) =~= e3);
    lemma_dec_opt_str_enc(b, i3, m.text);
    assert(b[i4] == status_byte(m.status));
    assert(b.subrange(i5, i5 + e4.len()) =~= e4);
    lemma_dec_opt_str_enc(b, i5, m.response_text);
    assert(decode_model(b) == Some(m)) by {
        assert(decode_model(b)->0 =~= m);
    }
}

/// Append an optional byte payload in wire form.
fn push_opt_bytes(out: &mut Vec<u8>, o: &Option<Vec<u8>>)
    ensures
        final(out)@ == old(out)@ + enc_opt_bytes(opt_bytes_view(*o)),
{
    match o {
        None => {
            out.push(0u8);
            assert(final(out)@ =~= old(out)@ + enc_opt_bytes(None));
        },
        Some(v) => {
            out.push(1u8);
            let mut lenb = u64_to_le_bytes(v.len() as u64);
            out.append(&mut lenb);
            out.extend_from_slice(v.as_slice());
            assert(final(out)@ =~= old(out)@ + enc_opt_bytes(Some(v@)));
        },
    }
}

/// Append an optional text payload in wire form: its UTF-8 bytes.
fn push_opt_str(out: &mut Vec<u8>, o: &Option<String>)
    ensures
        final(out)@ == old(out)@ + enc_opt_str(opt_str_view(*o)),
{
    match o {
        None => {
            out.push(0u8);
            assert(final(out)@ =~= old(out)@ + enc_opt_str(None));
        },
        Some(s) => {
            let bytes = s.as_str().as_bytes_vec();
            out.push(1u8);
            let mut lenb = u64_to_le_bytes(bytes.len() as u64);
            out.append(&mut lenb);
            out.extend_from_slice(bytes.as_slice());
            assert(final(out)@ =~= old(out)@ + enc_opt_str(Some(s@)));
        },
    }
}

/// Serialize an envelope to its wire bytes. The location tag is not part of
/// them.
pub fn encode_share(share: &Share) -> (r: Vec<u8>)
    ensures
        r@ == encode_model(share.wire_model()),
{
    let mut out: Vec<u8> = Vec::new();
    let tag: u8 = match share.command.command_type {
        CommandType::Exit => 0u8,
        CommandType::Help => 1u8,
        CommandType::Upload => 2u8,
        CommandType::Receive => 3u8,
        CommandType::Catalog => 4u8,
    };
    out.push(tag);
    push_opt_str(&mut out, &share.command.arg);
    push_opt_bytes(&mut out, &share.file);
    push_opt_str(&mut out, &share.text_data);
    let sb: u8 = if share.server_response.status == ServerResponseStatus::Error {
        1u8
    } else {
        0u8
    };
    out.push(sb);
    push_opt_str(&mut out, &share.server_response.text);
    proof {
        assert(out@ =~= encode_model(share.wire_model()));
    }
    out
}

/// Relies on `String::from_utf8`: it succeeds exactly on valid UTF-8 input
/// and returns the string whose byte representation is that input.
#[verifier::external_body]
fn bytes_to_string(bytes: Vec<u8>) -> (r: Option<String>)
    ensures
        r is Some <==> valid_utf8(bytes@),
        r is Some ==> encode_utf8(r->0@) == bytes@,
{
    String::from_utf8(bytes).ok()
}

/// Read an optional byte payload at offset `i`, exactly as `dec_opt_bytes`
/// describes.
fn read_opt_bytes(bytes: &[u8], i: usize) -> (r: Option<(Option<Vec<u8>>, usize)>)
    requires
        i <= bytes@.len(),
    ensures
        ({
            let d = dec_opt_bytes(bytes@, i as int);
            match r {
                Some(p) => {
                    let dp = d->0;
                    &&& d is Some
                    &&& opt_bytes_view(p.0) == dp.0
                    &&& p.1 as int == dp.1
                    &&& i <= p.1 <= bytes@.len()
                },
                None => d is None,
            }
        }),
{
    let n = bytes.len();
    if i >= n {
        return None;
    }
    let flag = *slice_index_get(bytes, i);
    if flag == 0u8 {
        Some((None, i + 1))
    } else if flag == 1u8 {
        if n - i < 9 {
            return None;
        }
        let lenslice = slice_subrange(bytes, i + 1, i + 9);
        let len64 = u64_from_le_bytes(lenslice);
        let remaining = n - (i + 9);
        if len64 > remaining as u64 {
            return None;
        }
        let len = len64 as usize;
        let data = slice_to_vec(slice_subrange(bytes, i + 9, i + 9 + len));
        Some((Some(data), i + 9 + len))
    } else {
        None
    }
}

/// Read an optional text payload at offset `i`, exactly as `dec_opt_str`
/// describes.
fn read_opt_str(bytes: &[u8], i: usize) -> (r: Option<(Option<String>, usize)>)
    requires
        i <= bytes@.len(),
    ensures
        ({
            let d = dec_opt_str(bytes@, i as int);
            match r {
                Some(p) => {
                    let dp = d->0;
                    &&& d is Some
                    &&& opt_str_view(p.0) == dp.0
                    &&& p.1 as int == dp.1
                    &&& i <= p.1 <= bytes@.len()
                },
                None => d is None,
            }
        }),
{
    match read_opt_bytes(bytes, i) {
        None => None,
        Some((o, j)) => match o {
            None => Some((None, j)),
            Some(data) => {
                let ghost data_view = data@;
                match bytes_to_string(data) {
                    None => None,
                    Some(s) => {
                        proof {
                            encode_utf8_valid_utf8(s@);
                            encode_utf8_decode_utf8(s@);
                        }
                        Some((Some(s), j))
                    },
                }
            },
        },
    }
}

/// Deserialize an envelope from its wire bytes, handing it to the given
/// party. Succeeds exactly when the bytes are a structurally valid
/// serialized envelope with nothing trailing; every other shape is
/// `Malformed`.
pub fn decode_share(bytes: &[u8], location: Location) -> (r: Result<Share, ProtocolError>)
    ensures
        r is Ok <==> decode_model(bytes@) is Some,
        r is Ok ==> r->Ok_0.wire_model() == decode_model(bytes@)->0,
        r is Ok ==> r->Ok_0.current_location == location,
        r is Err ==> r->Err_0 == ProtocolError::Malformed,
{
    let n = bytes.len();
    if n < 1 {
        return Err(ProtocolError::Malformed);
    }
    let tag = *slice_index_get(bytes, 0);
    let kind: CommandType = if tag == 0u8 {
        CommandType::Exit
    } else if tag == 1u8 {
        CommandType::Help
    } else if tag == 2u8 {
        CommandType::Upload
    } else if tag == 3u8 {
        CommandType::Receive
    } else if tag == 4u8 {
        CommandType::Catalog
    } else {
        return Err(ProtocolError::Malformed);
    };
    let (arg, i2) = match read_opt_str(bytes, 1) {
        None => {
            return Err(ProtocolError::Malformed);
        },
        Some(p) => p,
    };
    let (file, i3) = match read_opt_bytes(bytes, i2) {
        None => {
            return Err(ProtocolError::Malformed);
        },
        Some(p) => p,
    };
    let (text, i4) = match read_opt_str(bytes, i3) {
        None => {
            return Err(ProtocolError::Malformed);
        },
        Some(p) => p,
    };
    if i4 >= n {
        return Err(ProtocolError::Malformed);
    }
    let sb = *slice_index_get(bytes, i4);
    if sb != 0u8 && sb != 1u8 {
        return Err(ProtocolError::Malformed);
    }
    let status = if sb == 1u8 {
        ServerResponseStatus::Error
    } else {
        ServerResponseStatus::Success
    };
    let (response_text, i5) = match read_opt_str(bytes, i4 + 1) {
        None => {
            return Err(ProtocolError::Malformed);
        },
        Some(p) => p,
    };
    if i5 != n {
        return Err(ProtocolError::Malformed);
    }
    let share = Share {
        command: ShareCommand { command_type: kind, arg },
        file,
        text_data: text,
        server_response: ServerResponse { status, text: response_text },
        current_location: location,
    };
    proof {
        assert(share.wire_model() =~= decode_model(bytes@)->0);
    }
    Ok(share)
}

/// An ASCII decimal digit.
pub open spec fn is_digit(b: u8) -> bool {
    48 <= b <= 57
}

/// The value of an ASCII decimal digit.
pub open spec fn digit_val(b: u8) -> nat {
    (b - 48) as nat
}

/// Every byte is an ASCII decimal digit.
pub open spec fn all_digits(s: Seq<u8>) -> bool {
    forall|k: int| 0 <= k < s.len() ==> is_digit(#[trigger] s[k])
}

/// The number a sequence of ASCII digits denotes.
pub open spec fn dec_value(s: Seq<u8>) -> nat
    decreases s.len(),
{
    if s.len() == 0 {
        0
    } else {
        dec_value(s.drop_last()) * 10 + digit_val(s.last())
    }
}

/// The canonical ASCII decimal digits of a number: no leading zeros, at
/// least one digit.
pub open spec fn dec_digits(n: nat) -> Seq<u8>
    decreases n,
{
    if n < 10 {
        seq![(48 + n) as u8]
    } else {
        dec_digits(n / 10) + seq![(48 + n % 10) as u8]
    }
}

/// The canonical digits denote the number they were made from, and they are
/// digits: neither whitespace nor a newline.
pub proof fn lemma_dec_digits(n: nat)
    ensures
        dec_digits(n).len() >= 1,
        all_digits(dec_digits(n)),
        dec_value(dec_digits(n)) == n,
    decreases n,
{
    if n < 10 {
        assert(dec_digits(n).drop_last() =~= Seq::<u8>::empty());
        assert(dec_digits(n).last() == (48 + n) as u8);
        assert(dec_value(Seq::<u8>::empty()) == 0);
        assert(digit_val((48 + n) as u8) == n);
        assert(dec_value(dec_digits(n)) == n);
    } else {
        lemma_dec_digits(n / 10);
        lemma_fundamental_div_mod(n as int, 10);
        assert(dec_digits(n).drop_last() =~= dec_digits(n / 10));
        assert(dec_digits(n).last() == (48 + n % 10) as u8);
        assert(n % 10 < 10);
        assert(digit_val((48 + n % 10) as u8) == n % 10);
        assert(dec_value(dec_digits(n)) == (n / 10) * 10 + n % 10);
        assert(n == (n / 10) * 10 + n % 10) by (nonlinear_arith);
    }
}

/// A digit prefix never denotes more than the whole digit string.
proof fn lemma_dec_value_mono(s: Seq<u8>, i: int)
    requires
        0 <= i <= s.len(),
    ensures
        dec_value(s.take(i)) <= dec_value(s),
    decreases s.len() - i,
{
    if i == s.len() {
        assert(s.take(i) =~= s);
    } else {
        lemma_dec_value_mono(s, i + 1);
        assert(s.take(i + 1).drop_last() =~= s.take(i));
        assert(dec_value(s.take(i + 1)) == dec_value(s.take(i)) * 10 + digit_val(
            s.take(i + 1).last(),
        ));
    }
}

/// Whitespace bytes trimmed from a header line.
pub open spec fn is_ws_byte(b: u8) -> bool {
    b == 32 || b == 9 || b == 10 || b == 13
}

/// The first position at or after `i` holding a non-whitespace byte.
pub open spec fn ws_start(s: Seq<u8>, i: int) -> int
    recommends
        0 <= i <= s.len(),
    decreases s.len() - i when 0 <= i <= s.len()
{
    if i >= s.len() {
        s.len() as int
    } else if !is_ws_byte(s[i]) {
        i
    } else {
        ws_start(s, i + 1)
    }
}

/// The position after the last non-whitespace byte before `i`.
pub open spec fn ws_end(s: Seq<u8>, i: int) -> int
    recommends
        0 <= i <= s.len(),
    decreases i when 0 <= i <= s.len()
{
    if i <= 0 {
        0
    } else if !is_ws_byte(s[i - 1]) {
        i
    } else {
        ws_end(s, i - 1)
    }
}

/// A header line with leading and trailing whitespace removed.
pub open spec fn spec_trim(s: Seq<u8>) -> Seq<u8> {
    let a = ws_start(s, 0);
    let b = ws_end(s, s.len() as int);
    if a <= b {
        s.subrange(a, b)
    } else {
        Seq::empty()
    }
}

/// What a frame header line denotes: the payload length, if the trimmed
/// line is one or more ASCII digits and nothing else.
pub open spec fn spec_parse_header(line: Seq<u8>) -> Option<nat> {
    let t = spec_trim(line);
    if t.len() > 0 && all_digits(t) {
        Some(dec_value(t))
    } else {
        None
    }
}

/// Scan for the first non-whitespace byte at or after `i`.
fn scan_ws_start(line: &[u8], i: usize) -> (r: usize)
    requires
        i <= line@.len(),
    ensures
        r as int == ws_start(line@, i as int),
        i <= r <= line@.len(),
    decreases line@.len() - i,
{
    let n = line.len();
    if i >= n {
        n
    } else {
        let c = *slice_index_get(line, i);
        if !(c == 32 || c == 9 || c == 10 || c == 13) {
            i
        } else {
            scan_ws_start(line, i + 1)
        }
    }
}

/// Scan backward from `i` for the position after the last non-whitespace
/// byte.
fn scan_ws_end(line: &[u8], i: usize) -> (r: usize)
    requires
        i <= line@.len(),
    ensures
        r as int == ws_end(line@, i as int),
        r <= i,
    decreases i,
{
    if i == 0 {
        0
    } else {
        let c = *slice_index_get(line, i - 1);
        if !(c == 32 || c == 9 || c == 10 || c == 13) {
            i
        } else {
            scan_ws_end(line, i - 1)
        }
    }
}

/// Parse a frame header line as a payload length. Fails with `BadHeader`
/// exactly when the trimmed line is not a run of ASCII digits, or the value
/// does not fit the platform's sizes.
pub fn parse_header(line: &[u8]) -> (r: Result<usize, ProtocolError>)
    ensures
        ({
            let sp = spec_parse_header(line@);
            match r {
                Ok(v) => sp is Some && v as nat == sp->0,
                Err(e) => e == ProtocolError::BadHeader && (sp is None || sp->0 > usize::MAX),
            }
        }),
{
    let n = line.len();
    let a = scan_ws_start(line, 0);
    let b = scan_ws_end(line, n);
    if a >= b {
        return Err(ProtocolError::BadHeader);
    }
    let ghost t = spec_trim(line@);
    proof {
        assert(t =~= line@.subrange(a as int, b as int));
    }
    let mut acc: usize = 0;
    let mut i = a;
    proof {
        assert(line@.subrange(a as int, a as int) =~= t.take(0));
    }
    while i < b
        invariant
            a <= i <= b <= line@.len(),
            t == spec_trim(line@),
            t.len() == b - a,
            forall|k: int| 0 <= k < t.len() ==> t[k] == line@[a + k],
            all_digits(t.take(i - a)),
            acc as nat == dec_value(t.take(i - a)),
        decreases b - i,
    {
        let c = *slice_index_get(line, i);
        if !(48 <= c && c <= 57) {
            assert(!is_digit(t[i - a]));
            return Err(ProtocolError::BadHeader);
        }
        let d = (c - 48) as usize;
        proof {
            assert(t.take(i - a + 1).drop_last() =~= t.take(i - a));
            assert(t.take(i - a + 1).last() == t[i - a]);
        }
        acc = match acc.checked_mul(10) {
            None => {
                proof {
                    lemma_dec_value_mono(t, i - a + 1);
                }
                return Err(ProtocolError::BadHeader);
            },
            Some(v) => match v.checked_add(d) {
                None => {
                    proof {
                        lemma_dec_value_mono(t, i - a + 1);
                    }
                    return Err(ProtocolError::BadHeader);
                },
                Some(v2) => v2,
            },
        };
        i = i + 1;
    }
    proof {
        assert(t.take(b - a) =~= t);
    }
    Ok(acc)
}

/// Turn a payload length into its canonical ASCII decimal digits.
fn usize_to_decimal(n: usize) -> (r: Vec<u8>)
    ensures
        r@ == dec_digits(n as nat),
    decreases n,
{
    if n < 10 {
        let mut v: Vec<u8> = Vec::new();
        v.push(48 + (n as u8));
        proof {
            assert(v@ =~= dec_digits(n as nat));
        }
        v
    } else {
        let mut v = usize_to_decimal(n / 10);
        v.push(48 + ((n % 10) as u8));
        proof {
            assert(v@ =~= dec_digits(n as nat));
        }
        v
    }
}

/// A whole frame: the payload's byte length in decimal ASCII, a newline,
/// then the payload.
pub open spec fn spec_frame(m: ShareModel) -> Seq<u8> {
    dec_digits(encode_model(m).len()) + seq![10u8] + encode_model(m)
}

/// Serialize an envelope into one frame, ready to be written to the stream.
/// The caller is responsible for flushing after writing.
pub fn encode_frame(share: &Share) -> (r: Vec<u8>)
    ensures
        r@ == spec_frame(share.wire_model()),
{
    let payload = encode_share(share);
    let mut out = usize_to_decimal(payload.len());
    out.push(10u8);
    out.extend_from_slice(payload.as_slice());
    proof {
        assert(out@ =~= spec_frame(share.wire_model()));
    }
    out
}

/// The position of the first newline byte at or after `i`.
pub open spec fn first_nl(s: Seq<u8>, i: int) -> int
    recommends
        0 <= i <= s.len(),
    decreases s.len() - i when 0 <= i <= s.len()
{
    if i >= s.len() {
        s.len() as int
    } else if s[i] == 10u8 {
        i
    } else {
        first_nl(s, i + 1)
    }
}

/// Scan for the first newline byte at or after `i`.
fn scan_nl(data: &[u8], i: usize) -> (r: usize)
    requires
        i <= data@.len(),
    ensures
        r as int == first_nl(data@, i as int),
        i <= r <= data@.len(),
    decreases data@.len() - i,
{
    let n = data.len();
    if i >= n {
        n
    } else {
        let c = *slice_index_get(data, i);
        if c == 10u8 {
            i
        } else {
            scan_nl(data, i + 1)
        }
    }
}

/// What reading one frame from the bytes available before the stream closed
/// yields: the envelope's wire model and how many bytes the frame took, or
/// the error. The header line runs to the first newline (or to the close);
/// an unparseable header is `BadHeader`, a close before the declared payload
/// length is `ShortRead`, and payload bytes that are no envelope are
/// `Malformed`.
pub open spec fn spec_read_frame(data: Seq<u8>) -> Result<(ShareModel, int), ProtocolError> {
    let nl = first_nl(data, 0);
    let hv = spec_parse_header(data.subrange(0, nl));
    if hv is None || hv->0 > usize::MAX {
        Err(ProtocolError::BadHeader)
    } else {
        let len = hv->0 as int;
        let start = if nl < data.len() {
            nl + 1
        } else {
            nl
        };
        if start + len > data.len() {
            Err(ProtocolError::ShortRead)
        } else {
            match decode_model(data.subrange(start, start + len)) {
                None => Err(ProtocolError::Malformed),
                Some(m) => Ok((m, start + len)),
            }
        }
    }
}

/// Read one frame out of the bytes that arrived before the stream closed,
/// handing the envelope to the given party. Returns the envelope and the
/// number of bytes the frame occupied, or fails exactly as `spec_read_frame`
/// says: `BadHeader`, `ShortRead` or `Malformed`.
pub fn read_frame(data: &[u8], location: Location) -> (r: Result<(Share, usize), ProtocolError>)
    ensures
        ({
            let sp = spec_read_frame(data@);
            match r {
                Ok(p) => {
                    let q = sp->Ok_0;
                    &&& sp is Ok
                    &&& p.0.wire_model() == q.0
                    &&& p.0.current_location == location
                    &&& p.1 as int == q.1
                },
                Err(e) => sp is Err && e == sp->Err_0,
            }
        }),
{
    let n = data.len();
    let nl = scan_nl(data, 0);
    let header = slice_subrange(data, 0, nl);
    let len = match parse_header(header) {
        Err(_) => {
            return Err(ProtocolError::BadHeader);
        },
        Ok(v) => v,
    };
    let start = if nl < n {
        nl + 1
    } else {
        nl
    };
    if len > n - start {
        return Err(ProtocolError::ShortRead);
    }
    let payload = slice_subrange(data, start, start + len);
    match decode_share(payload, location) {
        Err(_) => Err(ProtocolError::Malformed),
        Ok(share) => Ok((share, start + len)),
    }
}

/// Reading back the frame produced for an envelope yields that envelope's
/// wire model, consuming the whole frame.
pub proof fn lemma_frame_round_trip(m: ShareModel)
    requires
        model_fits(m),
        encode_model(m).len() <= usize::MAX,
    ensures
        spec_read_frame(spec_frame(m)) == Ok::<(ShareModel, int), ProtocolError>(
            (m, spec_frame(m).len() as int),
        ),
{
    let payload = encode_model(m);
    let hdr = dec_digits(payload.len());
    let b = spec_frame(m);
    lemma_dec_digits(payload.len());
    assert(b.len() == hdr.len() + 1 + payload.len());
    assert(forall|k: int| 0 <= k < hdr.len() ==> b[k] == #[trigger] hdr[k]);
    lemma_first_nl_at(b, 0, hdr.len() as int);
    assert(b.subrange(0, hdr.len() as int) =~= hdr);
    assert(ws_start(hdr, 0) == 0);
    assert(ws_end(hdr, hdr.len() as int) == hdr.len());
    assert(spec_trim(hdr) =~= hdr);
    assert(spec_parse_header(hdr) == Some(payload.len() as nat));
    assert(b.subrange(hdr.len() as int + 1, hdr.len() + 1 + payload.len() as int) =~= payload);
    lemma_codec_round_trip(m);
}

/// A scan that stopped at `i` after seeing no newline is exactly `first_nl`.
proof fn lemma_first_nl_at(s: Seq<u8>, start: int, i: int)
    requires
        0 <= start <= i <= s.len(),
        forall|j: int| start <= j < i ==> s[j] != 10u8,
        i == s.len() || s[i] == 10u8,
    ensures
        first_nl(s, start) == i,
    decreases i - start,
{
    if start < i {
        lemma_first_nl_at(s, start + 1, i);
    }
}

/// An `Upload` envelope is prepared on the client by loading the named local
/// file; sent and decoded by the server, it arrives with every field intact,
/// and execution there is a write of exactly the bytes the client loaded.
pub proof fn lemma_upload_pipeline(m: ShareModel)
    requires
        model_fits(m),
        m.command_type == CommandType::Upload,
        m.status == ServerResponseStatus::Success,
        m.file is Some,
    ensures
        spec_prepare_action(CommandType::Upload, Location::Client) == PrepareAction::LoadLocalFile,
        decode_model(encode_model(m)) == Some(m),
        spec_execute_action(m.command_type, Location::Server, m.status)
            == ExecuteAction::WriteLocalFile,
{
    lemma_codec_round_trip(m);
}

/// A `Receive` command is executed on the server by loading the named local
/// file into the envelope; after the reply crosses the wire intact, the
/// client's execution is a write of exactly those bytes.
pub proof fn lemma_receive_pipeline(m: ShareModel)
    requires
        model_fits(m),
        m.command_type == CommandType::Receive,
        m.status == ServerResponseStatus::Success,
    ensures
        spec_execute_action(CommandType::Receive, Location::Server, ServerResponseStatus::Success)
            == ExecuteAction::LoadLocalFile,
        decode_model(encode_model(m)) == Some(m),
        spec_execute_action(m.command_type, Location::Client, m.status)
            == ExecuteAction::WriteLocalFile,
{
    lemma_codec_round_trip(m);
}

} // verus!
