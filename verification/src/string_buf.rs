//! An in-memory byte buffer that collects text written into it.

use vstd::prelude::*;

verus! {

use vstd::utf8::{encode_utf8, valid_utf8};

/// Relies on `String::from_utf8`: succeeds exactly on valid UTF-8, and the
/// decoded text re-encodes to the given bytes.
#[verifier::external_body]
fn bytes_to_string(v: Vec<u8>) -> (r: Option<String>)
    ensures
        (r matches Some(s) ==> valid_utf8(v@) && encode_utf8(s@) == v@),
        r is None ==> !valid_utf8(v@),
{
    String::from_utf8(v).ok()
}

/// Relies on `core::str::from_utf8`: succeeds exactly on valid UTF-8, and
/// the decoded text re-encodes to the given bytes.
#[verifier::external_body]
fn bytes_as_str(v: &Vec<u8>) -> (r: Option<&str>)
    ensures
        (r matches Some(s) ==> valid_utf8(v@) && encode_utf8(s@) == v@),
        r is None ==> !valid_utf8(v@),
{
    core::str::from_utf8(v.as_slice()).ok()
}

/// A growable buffer of written bytes, read back as text.
pub struct StringBuf {
    /// The bytes written so far.
    pub buffer: Vec<u8>,
}

impl StringBuf {
    /// An empty buffer.
    pub fn new() -> (b: Self)
        ensures
            b.buffer@.len() == 0,
    {
        Self { buffer: Vec::new() }
    }

    /// Appends `buf` to the buffer and reports how much was taken, which
    /// is always all of it.
    pub fn write_bytes(&mut self, buf: &[u8]) -> (n: usize)
        ensures
            final(self).buffer@ == old(self).buffer@ + buf@,
            n == buf@.len(),
    {
        self.buffer.extend_from_slice(buf);
        buf.len()
    }

    /// The collected bytes as owned text; nothing when they are not valid
    /// UTF-8.
    pub fn into_string(self) -> (r: Option<String>)
        ensures
            (r matches Some(s) ==> valid_utf8(self.buffer@) && encode_utf8(s@) == self.buffer@),
            r is None ==> !valid_utf8(self.buffer@),
    {
        bytes_to_string(self.buffer)
    }

    /// The collected bytes as borrowed text; nothing when they are not
    /// valid UTF-8.
    pub fn as_string(&self) -> (r: Option<&str>)
        ensures
            (r matches Some(s) ==> valid_utf8(self.buffer@) && encode_utf8(s@) == self.buffer@),
            r is None ==> !valid_utf8(self.buffer@),
    {
        bytes_as_str(&self.buffer)
    }
}

} // verus!
