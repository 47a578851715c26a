//! Line-protocol codec: frames the raw byte stream into text lines and
//! terminates outbound command lines.
//!
//! The target's replies are newline-delimited: a line ends at a line feed,
//! and a carriage return just before it belongs to the terminator, not to
//! the line. Outbound commands are terminated with CRLF if they do not
//! already end in one.

use crate::verdict::ProbeError;
use vstd::prelude::*;
use vstd::string::StrSliceExecFns;
use vstd::string::StringExecFns;
use vstd::utf8::decode_utf8;
use vstd::utf8::valid_utf8;

verus! {

/// Index of the first line feed in `s`, if any.
pub open spec fn first_newline(s: Seq<u8>) -> Option<int>
    decreases s.len(),
{
    if s.len() == 0 {
        None
    } else if s[0] == 10 {
        Some(0)
    } else {
        match first_newline(s.drop_first()) {
            None => None,
            Some(i) => Some(i + 1),
        }
    }
}

/// `s` without a single trailing carriage return, if it has one.
pub open spec fn strip_cr(s: Seq<u8>) -> Seq<u8> {
    if s.len() > 0 && s.last() == 13 {
        s.drop_last()
    } else {
        s
    }
}

/// The first line framed out of `s`: the bytes before the first line
/// feed, without a carriage return just before it.
pub open spec fn framed_line(s: Seq<u8>) -> Seq<u8>
    recommends
        first_newline(s) is Some,
{
    strip_cr(s.take(first_newline(s).unwrap()))
}

/// `first_newline` names the position of the first line feed: the byte
/// there is one and no byte before it is.
proof fn lemma_first_newline_at(s: Seq<u8>, i: int)
    requires
        0 <= i < s.len(),
        s[i] == 10,
        forall|j: int| 0 <= j < i ==> s[j] != 10,
    ensures
        first_newline(s) == Some(i),
    decreases i,
{
    if i > 0 {
        lemma_first_newline_at(s.drop_first(), i - 1);
    }
}

/// A buffer without a line feed frames no line.
proof fn lemma_first_newline_none(s: Seq<u8>)
    requires
        forall|j: int| 0 <= j < s.len() ==> s[j] != 10,
    ensures
        first_newline(s) is None,
    decreases s.len(),
{
    if s.len() > 0 {
        lemma_first_newline_none(s.drop_first());
    }
}

/// The receive side of the codec: bytes read from the stream go in,
/// complete lines come out. Bytes after the last line feed wait for the
/// rest of their line.
pub struct LineBuffer {
    buf: Vec<u8>,
}

impl View for LineBuffer {
    type V = Seq<u8>;

    closed spec fn view(&self) -> Seq<u8> {
        self.buf@
    }
}

/// Relies on `String::from_utf8`: it returns the string decoded from the
/// bytes exactly when they are valid UTF-8, and an error otherwise.
#[verifier::external_body]
fn bytes_to_string(v: Vec<u8>) -> (r: Option<String>)
    ensures
        r matches Some(s) ==> valid_utf8(v@) && s@ == decode_utf8(v@),
        r is None ==> !valid_utf8(v@),
{
    String::from_utf8(v).ok()
}

impl LineBuffer {
    /// An empty buffer: nothing received yet.
    pub fn new() -> (r: LineBuffer)
        ensures
            r@ == Seq::<u8>::empty(),
    {
        LineBuffer { buf: Vec::new() }
    }

    /// Appends a chunk read from the stream to the buffer.
    pub fn push_chunk(&mut self, chunk: &[u8])
        ensures
            final (self)@ == old(self)@ + chunk@,
    {
        self.buf.extend_from_slice(chunk);
    }

    /// Takes the first complete line out of the buffer: the bytes up to
    /// the first line feed, with a carriage return just before it
    /// stripped. Returns `None`, leaving the buffer as it is, while no
    /// complete line has arrived.
    pub fn next_line(&mut self) -> (r: Option<Vec<u8>>)
        ensures
            match first_newline(old(self)@) {
                Some(i) => r matches Some(line) && line@ == framed_line(old(self)@) && final (
                self)@ == old(self)@.skip(i + 1),
                None => r is None && final (self)@ == old(self)@,
            },
    {
        let n = self.buf.len();
        let mut i: usize = 0;
        while i < n && self.buf[i] != 10
            invariant
                0 <= i <= n == self.buf@.len(),
                forall|j: int| 0 <= j < i ==> self.buf@[j] != 10,
            decreases n - i,
        {
            i = i + 1;
        }
        if i == n {
            proof {
                lemma_first_newline_none(self.buf@);
            }
            return None;
        }
        proof {
            lemma_first_newline_at(self.buf@, i as int);
        }
        let mut line: Vec<u8> = Vec::new();
        let mut j: usize = 0;
        while j < i
            invariant
                0 <= j <= i < self.buf@.len(),
                line@ == self.buf@.take(j as int),
            decreases i - j,
        {
            proof {
                assert(self.buf@.take(j + 1).drop_last() == self.buf@.take(j as int));
                assert(self.buf@.take(j + 1).last() == self.buf@[j as int]);
            }
            line.push(self.buf[j]);
            j = j + 1;
        }
        if line.len() > 0 && line[line.len() - 1] == 13 {
            line.pop();
            proof {
                assert(line@ == strip_cr(self.buf@.take(i as int)));
            }
        }
        let mut rest: Vec<u8> = Vec::new();
        let mut k: usize = i + 1;
        while k < n
            invariant
                i < k <= n == self.buf@.len(),
                rest@ == self.buf@.subrange(i + 1, k as int),
            decreases n - k,
        {
            proof {
                assert(self.buf@.subrange(i + 1, k + 1).drop_last() == self.buf@.subrange(
                    i + 1,
                    k as int,
                ));
                assert(self.buf@.subrange(i + 1, k + 1).last() == self.buf@[k as int]);
            }
            rest.push(self.buf[k]);
            k = k + 1;
        }
        proof {
            assert(rest@ == self.buf@.skip(i + 1));
        }
        self.buf = rest;
        Some(line)
    }

    /// Takes the first complete line out of the buffer and decodes it as
    /// text. A line that is not valid UTF-8 is a protocol error; the
    /// malformed line is consumed either way.
    pub fn next_text_line(&mut self) -> (r: Result<Option<String>, ProbeError>)
        ensures
            match first_newline(old(self)@) {
                Some(i) => {
                    &&& final (self)@ == old(self)@.skip(i + 1)
                    &&& valid_utf8(framed_line(old(self)@)) ==> (r matches Ok(Some(line))
                        && line@ == decode_utf8(framed_line(old(self)@)))
                    &&& !valid_utf8(framed_line(old(self)@)) ==> r == Err::<
                        Option<String>,
                        ProbeError,
                    >(ProbeError::ProtocolError)
                },
                None => r matches Ok(None) && final (self)@ == old(self)@,
            },
    {
        match self.next_line() {
            None => Ok(None),
            Some(bytes) => match bytes_to_string(bytes) {
                Some(line) => Ok(Some(line)),
                None => Err(ProbeError::ProtocolError),
            },
        }
    }
}

/// A command line already ends with CRLF.
pub open spec fn ends_with_crlf(s: Seq<char>) -> bool {
    s.len() >= 2 && s[s.len() - 2] == '\r' && s[s.len() - 1] == '\n'
}

/// The wire form of an outbound command: the command itself, CRLF
/// terminated, the terminator appended if it was not already there.
pub open spec fn spec_encode_command(s: Seq<char>) -> Seq<char> {
    if ends_with_crlf(s) {
        s
    } else {
        s + seq!['\r', '\n']
    }
}

/// Terminates an outbound command line with CRLF if it does not already
/// end in one. The caller writes the result to the stream, then awaits
/// the reply.
pub fn encode_command(cmd: &str) -> (r: String)
    ensures
        r@ == spec_encode_command(cmd@),
{
    let n = cmd.unicode_len();
    if n >= 2 && cmd.get_char(n - 2) == '\r' && cmd.get_char(n - 1) == '\n' {
        cmd.to_owned()
    } else {
        let mut r = cmd.to_owned();
        r.append("\r\n");
        proof {
            reveal_strlit("\r\n");
            assert(r@ =~= cmd@ + seq!['\r', '\n']);
        }
        r
    }
}

} // verus!
