//! The envelope exchanged between client and server, and the command/side
//! execution state machine.
//!
//! The envelope (`Share`) carries a command, an optional file payload, an
//! optional text payload, and the server's response. Which party currently
//! holds it is local bookkeeping (`current_location`) and is never part of
//! the wire representation.
//!
//! Execution is split into pure decisions and their application: `prepare_action`
//! and `execute_action` say, from `(command kind, side, response status)` alone,
//! what the surrounding program must do (load a file, write a file, list the
//! working directory, nothing); `set_file`, `set_catalog` and
//! `set_error_response` apply the outcome to the envelope. The filesystem work
//! itself happens outside this crate, on values handed in and out as bytes.
//!
//! Concurrent uploads or receives of the same file name from different
//! connections race on the filesystem with no locking; that is an accepted,
//! documented limitation of the protocol, not something this crate arbitrates.

use vstd::prelude::*;
use vstd::string::StringExecFns;
use crate::command::CommandType;
use crate::command::ShareCommand;

verus! {

/// Which party currently holds the data. Local bookkeeping only: never
/// transmitted.
#[derive(Debug, PartialEq, Eq, Structural, Clone, Copy)]
pub enum Location {
    Client,
    Server,
}

/// Whether the server executed the request or failed.
#[derive(Debug, PartialEq, Eq, Structural, Clone, Copy)]
pub enum ServerResponseStatus {
    Error,
    Success,
}

/// The server's status and its optional message.
#[derive(Debug, Clone)]
pub struct ServerResponse {
    pub status: ServerResponseStatus,
    pub text: Option<String>,
}

impl ServerResponse {
    /// A fresh response: `Success` with text `"OK"`.
    pub fn new() -> (r: ServerResponse)
        ensures
            r.status == ServerResponseStatus::Success,
            r.text is Some,
            r.text->0@ == "OK"@,
    {
        ServerResponse { status: ServerResponseStatus::Success, text: Some(String::from_str("OK")) }
    }
}

/// The unit of exchange between client and server: a command, its payloads,
/// and the response travelling back.
#[derive(Debug)]
pub struct Share {
    /// The command in execution.
    pub command: ShareCommand,
    /// File contents carried for `Upload` (client to server) or `Receive`
    /// (server to client).
    pub file: Option<Vec<u8>>,
    /// Text carried back to the client; for `Catalog` it holds the listing.
    pub text_data: Option<String>,
    /// The server's response.
    pub server_response: ServerResponse,
    /// Which party holds this envelope now. Never serialized.
    pub current_location: Location,
}

/// What a sender must do before the envelope goes out.
#[derive(Debug, PartialEq, Eq, Structural, Clone, Copy)]
pub enum PrepareAction {
    /// Stop the client; the command never reaches the peer.
    Terminate,
    /// Show the usage text locally.
    ShowHelp,
    /// Read the named local file and hand its bytes to `set_file`.
    LoadLocalFile,
    /// Nothing to stage.
    Nothing,
}

/// What a receiver must do to act on the envelope.
#[derive(Debug, PartialEq, Eq, Structural, Clone, Copy)]
pub enum ExecuteAction {
    /// Write the carried file contents to the named local path.
    WriteLocalFile,
    /// Read the named local file and hand its bytes to `set_file`.
    LoadLocalFile,
    /// Enumerate the working directory and hand the entries to `set_catalog`.
    ListCatalog,
    /// Nothing to do.
    Nothing,
}

/// The prepare half of the state machine, as a function of kind and side.
pub open spec fn spec_prepare_action(kind: CommandType, side: Location) -> PrepareAction {
    if kind == CommandType::Exit && side == Location::Client {
        PrepareAction::Terminate
    } else if kind == CommandType::Help {
        PrepareAction::ShowHelp
    } else if kind == CommandType::Upload && side == Location::Client {
        PrepareAction::LoadLocalFile
    } else {
        PrepareAction::Nothing
    }
}

/// The execute half of the state machine, as a function of kind, side and
/// response status. An error response is never an execution trigger.
pub open spec fn spec_execute_action(
    kind: CommandType,
    side: Location,
    status: ServerResponseStatus,
) -> ExecuteAction {
    if status == ServerResponseStatus::Error {
        ExecuteAction::Nothing
    } else if kind == CommandType::Receive && side == Location::Client {
        ExecuteAction::WriteLocalFile
    } else if kind == CommandType::Receive && side == Location::Server {
        ExecuteAction::LoadLocalFile
    } else if kind == CommandType::Upload && side == Location::Server {
        ExecuteAction::WriteLocalFile
    } else if kind == CommandType::Catalog && side == Location::Server {
        ExecuteAction::ListCatalog
    } else {
        ExecuteAction::Nothing
    }
}

/// The catalog text: every entry followed by a newline, in order.
pub open spec fn catalog_text(entries: Seq<Seq<char>>) -> Seq<char>
    decreases entries.len(),
{
    if entries.len() == 0 {
        Seq::empty()
    } else {
        catalog_text(entries.drop_last()) + entries.last() + seq!['\n']
    }
}

impl Share {
    /// A fresh envelope around a command: no payloads yet, a `Success`/`"OK"`
    /// response, held by the given party.
    pub fn new(command: ShareCommand, current_location: Location) -> (r: Share)
        ensures
            r.command == command,
            r.file is None,
            r.text_data is None,
            r.server_response.status == ServerResponseStatus::Success,
            r.server_response.text is Some,
            r.server_response.text->0@ == "OK"@,
            r.current_location == current_location,
    {
        Share {
            command,
            file: None,
            text_data: None,
            server_response: ServerResponse::new(),
            current_location,
        }
    }

    /// What the holder must stage before sending this envelope.
    pub fn prepare_action(&self) -> (r: PrepareAction)
        ensures
            r == spec_prepare_action(self.command.command_type, self.current_location),
    {
        match self.command.command_type {
            CommandType::Exit => if self.current_location == Location::Client {
                PrepareAction::Terminate
            } else {
                PrepareAction::Nothing
            },
            CommandType::Help => PrepareAction::ShowHelp,
            CommandType::Upload => if self.current_location == Location::Client {
                PrepareAction::LoadLocalFile
            } else {
                PrepareAction::Nothing
            },
            _ => PrepareAction::Nothing,
        }
    }

    /// What the holder must do to act on this envelope. If the response
    /// status is `Error`, the answer is always `Nothing`: no filesystem
    /// effect and no envelope change follow, whatever the command kind.
    pub fn execute_action(&self) -> (r: ExecuteAction)
        ensures
            r == spec_execute_action(
                self.command.command_type,
                self.current_location,
                self.server_response.status,
            ),
            self.server_response.status == ServerResponseStatus::Error ==> r
                == ExecuteAction::Nothing,
    {
        if self.server_response.status == ServerResponseStatus::Error {
            return ExecuteAction::Nothing;
        }
        match self.command.command_type {
            CommandType::Receive => if self.current_location == Location::Client {
                ExecuteAction::WriteLocalFile
            } else {
                ExecuteAction::LoadLocalFile
            },
            CommandType::Upload => if self.current_location == Location::Server {
                ExecuteAction::WriteLocalFile
            } else {
                ExecuteAction::Nothing
            },
            CommandType::Catalog => if self.current_location == Location::Server {
                ExecuteAction::ListCatalog
            } else {
                ExecuteAction::Nothing
            },
            _ => ExecuteAction::Nothing,
        }
    }

    /// Stage file contents in the envelope (a `LoadLocalFile` outcome).
    /// Nothing else changes.
    pub fn set_file(&mut self, contents: Vec<u8>)
        ensures
            final(self).file is Some,
            final(self).file->0 == contents,
            final(self).command == old(self).command,
            final(self).text_data == old(self).text_data,
            final(self).server_response == old(self).server_response,
            final(self).current_location == old(self).current_location,
    {
        self.file = Some(contents);
    }

    /// Fill the text payload with the catalog: the given directory entries,
    /// each followed by a newline, in the given order. The file payload and
    /// everything else stay untouched.
    pub fn set_catalog(&mut self, entries: &Vec<String>)
        ensures
            final(self).text_data is Some,
            final(self).text_data->0@ == catalog_text(entries.deep_view()),
            final(self).file == old(self).file,
            final(self).command == old(self).command,
            final(self).server_response == old(self).server_response,
            final(self).current_location == old(self).current_location,
    {
        let ghost all = entries.deep_view();
        let mut text = String::new();
        let mut i: usize = 0;
        proof {
            assert(all.take(0) =~= Seq::<Seq<char>>::empty());
        }
        while i < entries.len()
            invariant
                i <= entries.len(),
                all == entries.deep_view(),
                all.len() == entries@.len(),
                forall|j: int| 0 <= j < all.len() ==> all[j] == entries@[j]@,
                text@ == catalog_text(all.take(i as int)),
            decreases entries.len() - i,
        {
            text.append(entries[i].as_str());
            text.append("\n");
            proof {
                reveal_strlit("\n");
                assert("\n"@ =~= seq!['\n']);
                assert(all.take(i + 1).drop_last() =~= all.take(i as int));
                assert(all.take(i + 1).last() == all[i as int]);
            }
            i = i + 1;
        }
        proof {
            assert(all.take(entries@.len() as int) =~= all);
        }
        self.text_data = Some(text);
    }

    /// Record a server-side failure: status becomes `Error` and the message
    /// becomes the response text. The file payload is not cleared.
    pub fn set_error_response(&mut self, error: String)
        ensures
            final(self).server_response.status == ServerResponseStatus::Error,
            final(self).server_response.text == Some(error),
            final(self).command == old(self).command,
            final(self).file == old(self).file,
            final(self).text_data == old(self).text_data,
            final(self).current_location == old(self).current_location,
    {
        self.server_response = ServerResponse {
            status: ServerResponseStatus::Error,
            text: Some(error),
        };
    }

    /// Overwrite the location tag after a send or a receive, to say which
    /// party now holds the envelope.
    pub fn set_location(&mut self, current_location: Location)
        ensures
            final(self).current_location == current_location,
            final(self).command == old(self).command,
            final(self).file == old(self).file,
            final(self).text_data == old(self).text_data,
            final(self).server_response == old(self).server_response,
    {
        self.current_location = current_location;
    }
}

} // verus!
