//! The buffer requests are serialized into, and the policy for writing them
//! atomically to the pipe.
use bytes::{Bytes, BytesMut};

use crate::bytes_ext::{
    bytes_contents, bytes_mut_contents, bytes_mut_extend_from_slice, bytes_mut_freeze, bytes_mut_len,
    bytes_mut_put_u8, bytes_mut_reserve, bytes_mut_split, bytes_mut_truncate, bytes_mut_with_capacity,
    bytes_mut_first_4, max_buffer_len,
};

use vstd::prelude::*;

verus! {

/// The four bytes that stand in front of a packet until its length is known.
pub open spec fn header_placeholder() -> Seq<u8> {
    seq![0u8, 0u8, 0u8, 0u8]
}

/// A buffer that always starts with room for the 4-byte length of the
/// packet being serialized into it.
#[derive(Debug)]
pub struct WriteBuffer(BytesMut);

impl View for WriteBuffer {
    type V = Seq<u8>;

    closed spec fn view(&self) -> Seq<u8> {
        bytes_mut_contents(self.0)
    }
}

impl WriteBuffer {
    /// A buffer holding the four placeholder bytes of a packet header.
    pub fn new() -> (r: Self)
        ensures
            r@ == header_placeholder(),
    {
        let mut bytes = bytes_mut_with_capacity(4);
        bytes_mut_extend_from_slice(&mut bytes, &[0u8, 0u8, 0u8, 0u8]);
        let r = WriteBuffer(bytes);
        assert(r@ =~= header_placeholder());
        r
    }

    /// Split out everything serialized so far; the buffer starts over with
    /// the four placeholder bytes.
    pub fn split(&mut self) -> (r: Bytes)
        ensures
            bytes_contents(r) == old(self)@,
            final(self)@ == header_placeholder(),
    {
        let ret = bytes_mut_freeze(bytes_mut_split(&mut self.0));
        bytes_mut_extend_from_slice(&mut self.0, &[0u8, 0u8, 0u8, 0u8]);
        assert(self@ =~= header_placeholder());
        ret
    }

    /// The number of bytes held, the placeholder included.
    pub fn len(&self) -> (n: usize)
        ensures
            n == self@.len(),
    {
        bytes_mut_len(&self.0)
    }

    /// The first four bytes, where the length of the packet goes; what is
    /// written through the reference replaces them.
    pub fn get_first_4byte_slice(&mut self) -> (r: &mut [u8; 4])
        requires
            old(self)@.len() >= 4,
        ensures
            r@ == old(self)@.take(4),
            final(self)@ == final(r)@ + old(self)@.skip(4),
    {
        bytes_mut_first_4(&mut self.0)
    }

    /// Append `other`.
    pub fn extend_from_slice(&mut self, other: &[u8])
        requires
            old(self)@.len() + other@.len() <= max_buffer_len(),
        ensures
            final(self)@ == old(self)@ + other@,
    {
        bytes_mut_extend_from_slice(&mut self.0, other)
    }

    /// Make room for `additional` more bytes; the contents stay.
    pub fn reserve(&mut self, additional: usize)
        requires
            old(self)@.len() + additional <= max_buffer_len(),
        ensures
            final(self)@ == old(self)@,
    {
        bytes_mut_reserve(&mut self.0, additional)
    }

    /// Append one byte.
    pub fn push(&mut self, byte: u8)
        requires
            old(self)@.len() + 1 <= max_buffer_len(),
        ensures
            final(self)@ == old(self)@.push(byte),
    {
        bytes_mut_put_u8(&mut self.0, byte)
    }

    /// Keep only the first `len` bytes.
    pub fn truncate(&mut self, len: usize)
        ensures
            final(self)@ == if len < old(self)@.len() {
                old(self)@.take(len as int)
            } else {
                old(self)@
            },
    {
        bytes_mut_truncate(&mut self.0, len)
    }
}

/// The least number of attempts at writing a packet atomically.
pub const MAX_ATOMIC_ATTEMPT: u16 = 50;

/// How many times to try an atomic write of `len` bytes into a pipe whose
/// atomic write size is `pipe_buf`.
pub open spec fn atomic_attempt_limit_spec(pipe_buf: usize, len: usize) -> u16 {
    let by_size = (pipe_buf / len) as u16;
    if by_size > MAX_ATOMIC_ATTEMPT {
        by_size
    } else {
        MAX_ATOMIC_ATTEMPT
    }
}

/// `max(pipe_buf / len, MAX_ATOMIC_ATTEMPT)`, the quotient taken as a `u16`.
pub fn atomic_attempt_limit(pipe_buf: usize, len: usize) -> (r: u16)
    requires
        len > 0,
    ensures
        r == atomic_attempt_limit_spec(pipe_buf, len),
        r >= MAX_ATOMIC_ATTEMPT,
{
    let by_size = (pipe_buf / len) as u16;
    if by_size > MAX_ATOMIC_ATTEMPT {
        by_size
    } else {
        MAX_ATOMIC_ATTEMPT
    }
}

/// The least atomic write size of a pipe that POSIX allows.
pub const MIN_PIPE_BUF: usize = 512;

/// The largest atomic write size of a pipe on any unix target of `libc`.
pub const MAX_PIPE_BUF: usize = 32768;

/// `tokio_pipe::PIPE_BUF`, which is `libc::PIPE_BUF`: the largest write that
/// the pipe performs atomically. Its value depends on the target; on every
/// unix target of `libc` it lies between 512 (the least POSIX allows) and
/// 32768; which value it takes is left unsaid.
#[verifier::external_body]
fn pipe_buf() -> (r: usize)
    ensures
        MIN_PIPE_BUF <= r <= MAX_PIPE_BUF,
{
    tokio_pipe::PIPE_BUF
}

/// The state of an atomic write: how many attempts were made, and how many
/// may be.
pub struct AtomicWriteAttempts {
    attempted: u16,
    limit: u16,
}

impl AtomicWriteAttempts {
    /// No more attempts are made than allowed.
    #[verifier::type_invariant]
    spec fn inv(self) -> bool {
        self.attempted <= self.limit
    }

    /// Attempts made so far.
    pub closed spec fn attempted_spec(&self) -> u16 {
        self.attempted
    }

    /// Attempts allowed.
    pub closed spec fn limit_spec(&self) -> u16 {
        self.limit
    }

    /// Attempts at writing `len` bytes into a pipe of atomic size `pipe_buf`.
    pub fn with_pipe_buf(pipe_buf: usize, len: usize) -> (r: Self)
        requires
            len > 0,
        ensures
            r.attempted_spec() == 0,
            r.limit_spec() == atomic_attempt_limit_spec(pipe_buf, len),
    {
        AtomicWriteAttempts { attempted: 0, limit: atomic_attempt_limit(pipe_buf, len) }
    }

    /// Attempts at writing `len` bytes into the pipe, whose atomic write size
    /// is `tokio_pipe::PIPE_BUF`.
    pub fn new(len: usize) -> (r: Self)
        requires
            len > 0,
        ensures
            r.attempted_spec() == 0,
            exists|pipe_buf: usize|
                MIN_PIPE_BUF <= pipe_buf <= MAX_PIPE_BUF && r.limit_spec()
                    == atomic_attempt_limit_spec(pipe_buf, len),
            r.limit_spec() >= MAX_ATOMIC_ATTEMPT,
    {
        let p = pipe_buf();
        let r = Self::with_pipe_buf(p, len);
        assert(MIN_PIPE_BUF <= p <= MAX_PIPE_BUF && r.limit_spec() == atomic_attempt_limit_spec(
            p,
            len,
        ));
        r
    }

    /// Start one more attempt, if the limit allows; `false` once every attempt
    /// has been used up.
    pub fn begin_attempt(&mut self) -> (started: bool)
        ensures
            started == (old(self).attempted_spec() < old(self).limit_spec()),
            final(self).limit_spec() == old(self).limit_spec(),
            final(self).attempted_spec() <= final(self).limit_spec(),
            final(self).attempted_spec() == if started {
                (old(self).attempted_spec() + 1) as u16
            } else {
                old(self).attempted_spec()
            },
    {
        proof {
            use_type_invariant(&*self);
        }
        if self.attempted >= self.limit {
            false
        } else {
            self.attempted = self.attempted + 1;
            true
        }
    }
}

} // verus!
