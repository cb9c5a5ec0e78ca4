//! The scoped file accessor.  Reading or writing a text file is a
//! short session against the host: resolve the path to a capability,
//! open a descriptor relative to it, transfer the text, and close the
//! descriptor unconditionally — on every exit path, success or
//! failure.  The session is a verified state machine; the unverified
//! driver performs each emitted host call and feeds the reply back in.

use vstd::prelude::*;
use crate::caps::{AccessibleDirectory, has_candidate, best_choice, owning_index, relative_path};
use crate::text::{lossy_decode, trim_nuls, utf8_lossy, trim_nul_bytes, lemma_trim_nuls_noop};

verus! {

use vstd::utf8::{valid_utf8, decode_utf8, encode_utf8};
use vstd::utf8::{encode_utf8_valid_utf8, encode_utf8_decode_utf8};
use vstd::string::StringExecFns;

/// How many bytes one read can hold; content past this bound is
/// reported as `Truncated` rather than silently cut.
pub const READ_CAPACITY: usize = 10240;

/// Why a file operation failed.
#[derive(Debug)]
pub enum ErrorKind {
    /// The path matches no pre-opened directory prefix.
    NoCapability,
    /// A capability matched but the host rejected the open; carries the
    /// host's diagnostic text.
    OpenFailed(String),
    /// A boundary call signalled failure.
    HostCallFailed,
    /// The content did not fit the read buffer.
    Truncated,
}

/// A host call the session asks the driver to perform.  An open names
/// its intent: a write session creates the file and truncates what is
/// there; a read session must do neither.
pub enum HostCall {
    OpenFile { dir_fd: u32, relative_path: String, create: bool, truncate: bool },
    ReadFile { fd: u32 },
    WriteFile { fd: u32, data: String },
    CloseFile { fd: u32 },
}

/// What the driver reports back for the call it performed.
pub enum HostReply {
    Opened(u32),
    OpenDenied(String),
    DataRead(Vec<u8>),
    Written,
    Closed,
    CallFailed,
}

/// How a finished session ended.
pub enum Outcome {
    TextRead(String),
    Written,
    Failed(ErrorKind),
}

/// What the session asks for next: another host call, or its outcome.
pub enum SessionStep {
    Call(HostCall),
    Finished(Outcome),
}

/// Whether the session transfers text out of or into the file.
pub enum FileAction {
    ReadFile,
    WriteFile { data: String },
}

/// Where the session stands: which reply it waits for.
pub enum SessionState {
    AwaitOpen { action: FileAction },
    AwaitData { fd: u32 },
    AwaitWritten { fd: u32 },
    AwaitClose { outcome: Outcome },
    Done,
}

/// One file-access session in progress.
pub struct FileSession {
    pub state: SessionState,
}

/// The descriptor the session has opened and not yet asked to close,
/// if any.  Once the close call is emitted the descriptor is no longer
/// held.
pub open spec fn unreleased_descriptor(s: SessionState) -> Option<u32> {
    match s {
        SessionState::AwaitData { fd } => Some(fd),
        SessionState::AwaitWritten { fd } => Some(fd),
        _ => None,
    }
}

/// Whether `c` opens the capability that `path` resolves to in `dirs`,
/// with the path remainder relative to it.
pub open spec fn resolved_open(
    path: Seq<char>,
    dirs: Seq<AccessibleDirectory>,
    c: HostCall,
) -> bool {
    exists|i: int|
        {
            &&& #[trigger] best_choice(path, dirs, i)
            &&& c matches HostCall::OpenFile { dir_fd, relative_path, .. }
            &&& dir_fd == dirs[i].fd
            &&& relative_path@ == path.skip(dirs[i].path@.len() as int)
        }
}

/// What a read must yield from the raw bytes the host handed back:
/// `Truncated` when they fill the whole buffer, else the decoded text
/// with the zero padding removed — exact wherever the bytes are valid
/// UTF-8.
pub open spec fn read_outcome_ok(o: Outcome, raw: Seq<u8>) -> bool {
    if raw.len() >= READ_CAPACITY {
        o matches Outcome::Failed(ErrorKind::Truncated)
    } else {
        o matches Outcome::TextRead(s) && s@ == lossy_decode(trim_nuls(raw)) && (valid_utf8(
            trim_nuls(raw),
        ) ==> s@ == decode_utf8(trim_nuls(raw)))
    }
}

/// Starts a read session for `path`.  Returns `NoCapability`, with no
/// host call made, exactly when no capability matches; otherwise the
/// session's first call opens the resolved capability without creating
/// or truncating anything.
pub fn read_text(path: &str, dirs: &Vec<AccessibleDirectory>) -> (r: Result<
    (FileSession, HostCall),
    ErrorKind,
>)
    ensures
        r is Ok <==> has_candidate(path@, dirs@),
        r matches Err(e) ==> e is NoCapability,
        r matches Ok(p) ==> {
            &&& p.0.state matches SessionState::AwaitOpen { action } && action is ReadFile
            &&& unreleased_descriptor(p.0.state) is None
            &&& resolved_open(path@, dirs@, p.1)
            &&& p.1 matches HostCall::OpenFile { create, truncate, .. } && !create && !truncate
        },
{
    match owning_index(path, dirs) {
        Some(i) => {
            let d = &dirs[i];
            let rel = relative_path(d.path.as_str(), path);
            let call = HostCall::OpenFile {
                dir_fd: d.fd,
                relative_path: rel,
                create: false,
                truncate: false,
            };
            assert(best_choice(path@, dirs@, i as int));
            Ok((FileSession { state: SessionState::AwaitOpen { action: FileAction::ReadFile } }, call))
        },
        None => Err(ErrorKind::NoCapability),
    }
}

/// Starts a write session that will store `data` at `path`.  Returns
/// `NoCapability`, with no host call made, exactly when no capability
/// matches; otherwise the session's first call opens the resolved
/// capability, creating the file and truncating whatever it held.
pub fn write_text(path: &str, data: &str, dirs: &Vec<AccessibleDirectory>) -> (r: Result<
    (FileSession, HostCall),
    ErrorKind,
>)
    ensures
        r is Ok <==> has_candidate(path@, dirs@),
        r matches Err(e) ==> e is NoCapability,
        r matches Ok(p) ==> {
            &&& p.0.state matches SessionState::AwaitOpen { action }
            &&& action matches FileAction::WriteFile { data: d } && d@ == data@
            &&& unreleased_descriptor(p.0.state) is None
            &&& resolved_open(path@, dirs@, p.1)
            &&& p.1 matches HostCall::OpenFile { create, truncate, .. } && create && truncate
        },
{
    match owning_index(path, dirs) {
        Some(i) => {
            let d = &dirs[i];
            let rel = relative_path(d.path.as_str(), path);
            let call = HostCall::OpenFile {
                dir_fd: d.fd,
                relative_path: rel,
                create: true,
                truncate: true,
            };
            assert(best_choice(path@, dirs@, i as int));
            let action = FileAction::WriteFile { data: String::from_str(data) };
            Ok((FileSession { state: SessionState::AwaitOpen { action } }, call))
        },
        None => Err(ErrorKind::NoCapability),
    }
}

/// Turns the raw bytes of a completed read into its outcome.
fn decode_read(raw: Vec<u8>) -> (o: Outcome)
    ensures
        read_outcome_ok(o, raw@),
{
    if raw.len() >= READ_CAPACITY {
        Outcome::Failed(ErrorKind::Truncated)
    } else {
        let trimmed = trim_nul_bytes(&raw);
        Outcome::TextRead(utf8_lossy(&trimmed))
    }
}

impl FileSession {
    /// Advances the session with the driver's reply to its last call.
    /// A session holding an open descriptor always asks next for that
    /// descriptor's close, whatever the reply was, and no session
    /// finishes while a descriptor it opened is still unreleased.
    pub fn step(self, reply: HostReply) -> (r: (FileSession, SessionStep))
        ensures
            r.1 matches SessionStep::Finished(_) ==> unreleased_descriptor(self.state) is None
                && unreleased_descriptor(r.0.state) is None,
            unreleased_descriptor(self.state) matches Some(fd) ==> {
                &&& r.1 matches SessionStep::Call(c)
                &&& c matches HostCall::CloseFile { fd: cf } && cf == fd
                &&& unreleased_descriptor(r.0.state) is None
            },
            self.state matches SessionState::AwaitOpen { action } ==> reply matches
                HostReply::Opened(fd) ==> {
                &&& action is ReadFile ==> {
                    &&& r.0.state matches SessionState::AwaitData { fd: f } && f == fd
                    &&& r.1 matches SessionStep::Call(c) && c matches HostCall::ReadFile { fd: g }
                        && g == fd
                }
                &&& action matches FileAction::WriteFile { data } ==> {
                    &&& r.0.state matches SessionState::AwaitWritten { fd: f } && f == fd
                    &&& r.1 matches SessionStep::Call(c) && c matches HostCall::WriteFile {
                        fd: g,
                        data: d,
                    } && g == fd && d == data
                }
            },
            self.state matches SessionState::AwaitOpen { action } ==> reply matches
                HostReply::OpenDenied(diag) ==> {
                &&& r.0.state is Done
                &&& r.1 matches SessionStep::Finished(o) && o matches Outcome::Failed(e)
                    && e matches ErrorKind::OpenFailed(d) && d == diag
            },
            self.state matches SessionState::AwaitOpen { action } ==> !(reply matches
                HostReply::Opened(_)) && !(reply matches HostReply::OpenDenied(_)) ==> {
                &&& r.0.state is Done
                &&& r.1 matches SessionStep::Finished(
                    Outcome::Failed(ErrorKind::HostCallFailed),
                )
            },
            self.state matches SessionState::AwaitData { fd } ==> r.0.state matches
                SessionState::AwaitClose { outcome } && {
                &&& reply matches HostReply::DataRead(raw) ==> read_outcome_ok(outcome, raw@)
                &&& !(reply matches HostReply::DataRead(_)) ==> outcome matches Outcome::Failed(
                    ErrorKind::HostCallFailed,
                )
            },
            self.state matches SessionState::AwaitWritten { fd } ==> r.0.state matches
                SessionState::AwaitClose { outcome } && {
                &&& reply matches HostReply::Written ==> outcome is Written
                &&& !(reply matches HostReply::Written) ==> outcome matches Outcome::Failed(
                    ErrorKind::HostCallFailed,
                )
            },
            self.state matches SessionState::AwaitClose { outcome } ==> {
                &&& r.0.state is Done
                &&& r.1 matches SessionStep::Finished(o) && o == outcome
            },
            self.state is Done ==> r.0.state is Done && r.1 matches SessionStep::Finished(
                Outcome::Failed(ErrorKind::HostCallFailed),
            ),
    {
        match self.state {
            SessionState::AwaitOpen { action } => match reply {
                HostReply::Opened(fd) => match action {
                    FileAction::ReadFile => (
                        FileSession { state: SessionState::AwaitData { fd } },
                        SessionStep::Call(HostCall::ReadFile { fd }),
                    ),
                    FileAction::WriteFile { data } => (
                        FileSession { state: SessionState::AwaitWritten { fd } },
                        SessionStep::Call(HostCall::WriteFile { fd, data }),
                    ),
                },
                HostReply::OpenDenied(diag) => (
                    FileSession { state: SessionState::Done },
                    SessionStep::Finished(Outcome::Failed(ErrorKind::OpenFailed(diag))),
                ),
                _ => (
                    FileSession { state: SessionState::Done },
                    SessionStep::Finished(Outcome::Failed(ErrorKind::HostCallFailed)),
                ),
            },
            SessionState::AwaitData { fd } => {
                let outcome = match reply {
                    HostReply::DataRead(raw) => decode_read(raw),
                    _ => Outcome::Failed(ErrorKind::HostCallFailed),
                };
                (
                    FileSession { state: SessionState::AwaitClose { outcome } },
                    SessionStep::Call(HostCall::CloseFile { fd }),
                )
            },
            SessionState::AwaitWritten { fd } => {
                let outcome = match reply {
                    HostReply::Written => Outcome::Written,
                    _ => Outcome::Failed(ErrorKind::HostCallFailed),
                };
                (
                    FileSession { state: SessionState::AwaitClose { outcome } },
                    SessionStep::Call(HostCall::CloseFile { fd }),
                )
            },
            SessionState::AwaitClose { outcome } => (
                FileSession { state: SessionState::Done },
                SessionStep::Finished(outcome),
            ),
            SessionState::Done => (
                FileSession { state: SessionState::Done },
                SessionStep::Finished(Outcome::Failed(ErrorKind::HostCallFailed)),
            ),
        }
    }
}

/// The write/read round-trip law: when the host hands a later read
/// exactly the bytes that encode the text written earlier — within
/// capacity and without trailing zero bytes — the read's outcome is
/// that text, character for character.
pub proof fn lemma_write_read_round_trip(text: Seq<char>, raw: Seq<u8>, o: Outcome)
    requires
        raw == encode_utf8(text),
        raw.len() < READ_CAPACITY,
        raw.len() == 0 || raw.last() != 0u8,
        read_outcome_ok(o, raw),
    ensures
        o matches Outcome::TextRead(s) && s@ == text,
{
    lemma_trim_nuls_noop(raw);
    encode_utf8_valid_utf8(text);
    encode_utf8_decode_utf8(text);
}

} // verus!
