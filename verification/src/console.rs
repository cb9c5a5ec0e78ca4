//! Console text framing: which host channel a message goes to and the
//! exact bytes sent there, plus the decoding of a line read from the
//! input channel.  The unverified driver performs the host write or
//! read and hands the payloads back and forth as plain values.

use vstd::prelude::*;
use crate::text::{lossy_decode, trim_nuls, utf8_lossy, trim_nul_bytes};

verus! {

use vstd::string::StrSliceExecFns;
use vstd::string::StringExecFns;

/// The two output channels the host offers.
#[derive(PartialEq, Eq, Structural, Clone, Copy, Debug)]
pub enum Channel {
    Stdout,
    Stderr,
}

/// A fully framed console write: the channel and the exact text to send.
pub struct WriteRequest {
    pub channel: Channel,
    pub data: String,
}

/// Frames `message` for the output channel, unchanged.
pub fn print(message: &str) -> (r: WriteRequest)
    ensures
        r.channel == Channel::Stdout,
        r.data@ == message@,
{
    WriteRequest { channel: Channel::Stdout, data: String::from_str(message) }
}

/// Frames `message` followed by a newline for the output channel.
pub fn println(message: &str) -> (r: WriteRequest)
    ensures
        r.channel == Channel::Stdout,
        r.data@ == message@ + "\n"@,
{
    let mut m = String::from_str(message);
    m.append("\n");
    WriteRequest { channel: Channel::Stdout, data: m }
}

/// Frames `message` followed by a newline for the error channel.
pub fn error(message: &str) -> (r: WriteRequest)
    ensures
        r.channel == Channel::Stderr,
        r.data@ == message@ + "\n"@,
{
    let mut m = String::from_str(message);
    m.append("\n");
    WriteRequest { channel: Channel::Stderr, data: m }
}

/// The line held in a raw input buffer: the decoded text with the
/// host's zero padding removed and the trailing terminator dropped.
pub open spec fn line_of(bytes: Seq<u8>) -> Seq<char> {
    let s = lossy_decode(trim_nuls(bytes));
    if s.len() > 0 {
        s.drop_last()
    } else {
        s
    }
}

/// Decodes one line from the raw buffer the host filled from the input
/// channel, dropping the padding and the line terminator.
pub fn read_line(raw: &Vec<u8>) -> (r: String)
    ensures
        r@ == line_of(raw@),
{
    let trimmed = trim_nul_bytes(raw);
    let s = utf8_lossy(&trimmed);
    let n = s.as_str().unicode_len();
    if n > 0 {
        String::from_str(s.as_str().substring_char(0, n - 1))
    } else {
        s
    }
}

} // verus!
