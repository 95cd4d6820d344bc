//! The client's side of the wire: what it sends for what was typed, and how
//! a session ends.

use vstd::prelude::*;
use vstd::string::StringExecFns;
use crate::text::trimmed;

verus! {

/// Whether a line of `read_len` bytes, the line feed included, is accepted
/// as the display name: it must hold more than three bytes.
pub fn name_accepted(read_len: usize) -> (ok: bool)
    ensures
        ok == (read_len > 3),
{
    read_len > 3
}

/// The line that the client sends for what was typed: the text without the
/// white space around it, and a line feed.
pub fn outgoing_line(typed: &str) -> (line: String)
    ensures
        line@ == trimmed(typed@).push('\n'),
{
    proof {
        reveal_strlit("\n");
    }
    let mut line = String::from_str(typed.trim());
    line.append("\n");
    assert("\n"@ =~= seq!['\n']);
    assert(trimmed(typed@) + seq!['\n'] =~= trimmed(typed@).push('\n'));
    line
}

/// How a client's session ended.
#[derive(Clone, Copy, Debug, PartialEq, Eq, Structural)]
pub enum SessionEnd {
    /// The relay closed the stream.
    Disconnected,
    /// Connecting or sending failed.
    SendFailed,
    /// Receiving failed.
    ReceiveFailed,
}

/// The status with which the client's process exits: 0 when the relay
/// closed the stream, 1 when sending failed, 2 when receiving failed.
pub fn exit_code(end: SessionEnd) -> (code: i32)
    ensures
        code == match end {
            SessionEnd::Disconnected => 0i32,
            SessionEnd::SendFailed => 1i32,
            SessionEnd::ReceiveFailed => 2i32,
        },
{
    match end {
        SessionEnd::Disconnected => 0,
        SessionEnd::SendFailed => 1,
        SessionEnd::ReceiveFailed => 2,
    }
}

/// What one read from the relay means for the session: a read of nothing
/// ends it, anything else is text to show.
pub fn session_over(read_len: usize) -> (over: Option<SessionEnd>)
    ensures
        over == if read_len == 0 {
            Some(SessionEnd::Disconnected)
        } else {
            None::<SessionEnd>
        },
{
    if read_len == 0 {
        Some(SessionEnd::Disconnected)
    } else {
        None
    }
}

} // verus!
