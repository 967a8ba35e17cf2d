//! A fixed-capacity byte buffer for one short line of text.

use vstd::prelude::*;
use vstd::string::*;
use vstd::utf8::*;

verus! {

/// The error type of `core::fmt`; it carries no information.
#[verifier::external_type_specification]
#[verifier::external_body]
pub struct ExFmtError(core::fmt::Error);

/// The reason `core::str::from_utf8` gives for turning a byte slice down.
#[verifier::external_type_specification]
#[verifier::external_body]
pub struct ExUtf8Error(core::str::Utf8Error);

/// `core::str::from_utf8` succeeds on exactly the byte slices that are
/// well-formed UTF-8, and the string slice it returns has the bytes of its
/// argument.
pub assume_specification[ core::str::from_utf8 ](v: &[u8]) -> (r: Result<
    &str,
    core::str::Utf8Error,
>)
    ensures
        r is Ok <==> valid_utf8(v@),
        r matches Ok(s) ==> s.spec_bytes() == v@,
;

/// Number of bytes a [`FmtBuf`] holds at most.
pub const CAPACITY: usize = 64;

/// What is left of `bytes` once everything past [`CAPACITY`] is dropped.
pub open spec fn clipped(bytes: Seq<u8>) -> Seq<u8> {
    if bytes.len() <= CAPACITY {
        bytes
    } else {
        bytes.subrange(0, CAPACITY as int)
    }
}

/// Clipping keeps the front of the bytes and drops the back: what is left is
/// a prefix of the bytes, all of them where they fit and the first
/// [`CAPACITY`] where they do not.
pub proof fn lemma_clipped_is_prefix(bytes: Seq<u8>)
    ensures
        clipped(bytes).is_prefix_of(bytes),
        clipped(bytes).len() <= CAPACITY,
        bytes.len() <= CAPACITY ==> clipped(bytes) == bytes,
        bytes.len() > CAPACITY ==> clipped(bytes).len() == CAPACITY,
{
    assert(clipped(bytes) =~= bytes.subrange(0, clipped(bytes).len() as int));
}

/// Clipping after each of two appends leaves what clipping once after both
/// leaves.
pub proof fn lemma_clipped_twice(a: Seq<u8>, b: Seq<u8>, c: Seq<u8>)
    ensures
        clipped(clipped(a + b) + c) == clipped(a + (b + c)),
{
    assert((a + b) + c =~= a + (b + c));
    if (a + b).len() > CAPACITY {
        assert(clipped(clipped(a + b) + c) =~= clipped(a + (b + c)));
    }
}

/// A line of text of at most [`CAPACITY`] bytes. Writes past the end are
/// dropped without notice.
pub struct FmtBuf {
    buf: [u8; CAPACITY],
    ptr: usize,
}

impl View for FmtBuf {
    type V = Seq<u8>;

    /// The bytes written since the last reset, oldest first.
    closed spec fn view(&self) -> Seq<u8> {
        self.buf@.subrange(0, self.ptr as int)
    }
}

impl FmtBuf {
    #[verifier::type_invariant]
    spec fn within_capacity(self) -> bool {
        self.ptr <= CAPACITY
    }

    /// An empty buffer.
    pub fn new() -> (r: Self)
        ensures
            r@ == Seq::<u8>::empty(),
    {
        FmtBuf { buf: [0; CAPACITY], ptr: 0 }
    }

    /// Forgets everything written so far.
    pub fn reset(&mut self)
        ensures
            final(self)@ == Seq::<u8>::empty(),
    {
        self.ptr = 0;
    }

    /// Number of bytes held.
    pub fn len(&self) -> (n: usize)
        ensures
            n == self@.len(),
            n <= CAPACITY,
    {
        proof {
            use_type_invariant(self);
        }
        self.ptr
    }

    /// The bytes held.
    pub fn as_bytes(&self) -> (bytes: &[u8])
        ensures
            bytes@ == self@,
    {
        proof {
            use_type_invariant(self);
        }
        &self.buf[0..self.ptr]
    }

    /// The text held, where the bytes held are well-formed UTF-8; `None`
    /// where a write was cut off inside a character.
    pub fn try_as_str(&self) -> (r: Option<&str>)
        ensures
            r is Some <==> valid_utf8(self@),
            r matches Some(s) ==> s.spec_bytes() == self@ && s@ == decode_utf8(self@),
    {
        match core::str::from_utf8(self.as_bytes()) {
            Ok(s) => {
                proof {
                    encode_utf8_decode_utf8(s@);
                }
                Some(s)
            },
            Err(_) => None,
        }
    }

    /// The text held. The bytes held must be well-formed UTF-8, which they
    /// are unless a write was cut off inside a character.
    pub fn as_str(&self) -> (s: &str)
        requires
            valid_utf8(self@),
        ensures
            s.spec_bytes() == self@,
            s@ == decode_utf8(self@),
    {
        match self.try_as_str() {
            Some(s) => s,
            None => vstd::pervasive::unreached(),
        }
    }

    /// Appends `bytes` as far as they fit; the rest is dropped.
    pub fn write_bytes(&mut self, bytes: &[u8])
        ensures
            final(self)@ == clipped(old(self)@ + bytes@),
            final(self)@.len() <= CAPACITY,
            old(self)@.is_prefix_of(final(self)@),
    {
        proof {
            use_type_invariant(&*self);
        }
        let rest_len: usize = CAPACITY - self.ptr;
        let len: usize = if rest_len < bytes.len() {
            rest_len
        } else {
            bytes.len()
        };
        let start: usize = self.ptr;
        let mut i: usize = 0;
        while i < len
            invariant
                i <= len,
                start + len <= CAPACITY,
                len <= bytes@.len(),
                self.ptr == start,
                self.buf@.subrange(0, start as int) == old(self)@,
                forall|k: int| 0 <= k < i ==> self.buf@[start + k] == bytes@[k],
            decreases len - i,
        {
            self.buf[start + i] = bytes[i];
            i += 1;
        }
        self.ptr = start + len;
    }

    /// Appends the bytes of `s` as far as they fit; the rest is dropped.
    /// Always succeeds.
    pub fn write_str(&mut self, s: &str) -> (r: Result<(), core::fmt::Error>)
        ensures
            r is Ok,
            final(self)@ == clipped(old(self)@ + s.spec_bytes()),
            final(self)@.len() <= CAPACITY,
            old(self)@.is_prefix_of(final(self)@),
    {
        self.write_bytes(s.as_bytes());
        Ok(())
    }
}

} // verus!
