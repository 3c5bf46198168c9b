//! The wire encoding of the sftp protocol's fields: integers in big endian,
//! strings and byte strings as a `u32` length followed by their bytes.
use crate::bytes_ext::max_buffer_len;
use crate::writer::WriteBuffer;

use vstd::string::StringSliceAdditionalSpecFns;

use vstd::prelude::*;

verus! {

/// A `u32` in big endian.
pub open spec fn be_u32(n: u32) -> Seq<u8> {
    seq![
        (n / 0x1000000) as u8,
        ((n / 0x10000) % 0x100) as u8,
        ((n / 0x100) % 0x100) as u8,
        (n % 0x100) as u8,
    ]
}

/// A `u64` in big endian.
pub open spec fn be_u64(n: u64) -> Seq<u8> {
    be_u32((n / 0x1_0000_0000) as u32) + be_u32((n % 0x1_0000_0000) as u32)
}

/// A byte string: its length as a `u32`, then its bytes.
pub open spec fn enc_bytes(b: Seq<u8>) -> Seq<u8> {
    be_u32(b.len() as u32) + b
}

/// The bytes of `s` without its NUL bytes.
pub open spec fn strip_nul(s: Seq<u8>) -> Seq<u8>
    decreases s.len(),
{
    if s.len() == 0 {
        s
    } else if s.last() == 0 {
        strip_nul(s.drop_last())
    } else {
        strip_nul(s.drop_last()).push(s.last())
    }
}

/// A string (given by its UTF-8 bytes): NUL bytes are left out, and what is
/// left is encoded as a byte string.
pub open spec fn enc_str(s: Seq<u8>) -> Seq<u8> {
    enc_bytes(strip_nul(s))
}

/// A byte string can be encoded when its length fits in a `u32`.
pub open spec fn bytes_fit(b: Seq<u8>) -> bool {
    b.len() <= u32::MAX
}

/// A string can be encoded when its length, NUL bytes left out, fits in a `u32`.
pub open spec fn str_fits(s: Seq<u8>) -> bool {
    strip_nul(s).len() <= u32::MAX
}

/// Leaving out NUL bytes never makes a string longer.
pub proof fn lemma_strip_nul_len(s: Seq<u8>)
    ensures
        strip_nul(s).len() <= s.len(),
    decreases s.len(),
{
    if s.len() > 0 {
        lemma_strip_nul_len(s.drop_last());
    }
}

/// Leaving out NUL bytes of one more byte.
proof fn lemma_strip_nul_take(s: Seq<u8>, i: int)
    requires
        0 <= i < s.len(),
    ensures
        strip_nul(s.take(i + 1)) == if s[i] == 0 {
            strip_nul(s.take(i))
        } else {
            strip_nul(s.take(i)).push(s[i])
        },
{
    assert(s.take(i + 1).drop_last() =~= s.take(i));
}

/// Leaving out NUL bytes of a prefix gives no more than of the whole.
proof fn lemma_strip_nul_prefix_len(s: Seq<u8>, i: int)
    requires
        0 <= i <= s.len(),
    ensures
        strip_nul(s.take(i)).len() <= strip_nul(s).len(),
    decreases s.len() - i,
{
    if i == s.len() {
        assert(s.take(i) =~= s);
    } else {
        lemma_strip_nul_take(s, i);
        lemma_strip_nul_prefix_len(s, i + 1);
    }
}

/// The big endian bytes of a `u32`.
pub fn u32_to_be_bytes(n: u32) -> (r: [u8; 4])
    ensures
        r@ == be_u32(n),
{
    let bytes: [u8; 4] = [
        (n / 0x1000000) as u8,
        ((n / 0x10000) % 0x100) as u8,
        ((n / 0x100) % 0x100) as u8,
        (n % 0x100) as u8,
    ];
    assert(bytes@ =~= be_u32(n));
    bytes
}

/// Append a `u32` in big endian.
pub fn put_u32(buf: &mut WriteBuffer, n: u32)
    requires
        old(buf)@.len() + 4 <= max_buffer_len(),
    ensures
        final(buf)@ == old(buf)@ + be_u32(n),
{
    let bytes = u32_to_be_bytes(n);
    buf.extend_from_slice(&bytes);
}

/// Append a `u64` in big endian.
pub fn put_u64(buf: &mut WriteBuffer, n: u64)
    requires
        old(buf)@.len() + 8 <= max_buffer_len(),
    ensures
        final(buf)@ == old(buf)@ + be_u64(n),
{
    put_u32(buf, (n / 0x1_0000_0000) as u32);
    put_u32(buf, (n % 0x1_0000_0000) as u32);
    assert(final(buf)@ =~= old(buf)@ + be_u64(n));
}

/// Append a byte string, which must fit.
pub fn put_bytes(buf: &mut WriteBuffer, b: &[u8])
    requires
        bytes_fit(b@),
        old(buf)@.len() + 4 + b@.len() <= max_buffer_len(),
    ensures
        final(buf)@ == old(buf)@ + enc_bytes(b@),
{
    put_u32(buf, b.len() as u32);
    buf.extend_from_slice(b);
    assert(final(buf)@ =~= old(buf)@ + enc_bytes(b@));
}

/// Whether a string fits the `u32` length of the encoding.
pub fn str_fits_exec(s: &str) -> (r: bool)
    ensures
        r == str_fits(s.spec_bytes()),
{
    stripped_len(s) <= u32::MAX as usize
}

/// Whether a byte string fits the `u32` length of the encoding.
pub fn bytes_fit_exec(b: &[u8]) -> (r: bool)
    ensures
        r == bytes_fit(b@),
{
    b.len() <= u32::MAX as usize
}

/// The length of a string once its NUL bytes are left out.
pub fn stripped_len(s: &str) -> (n: usize)
    ensures
        n == strip_nul(s.spec_bytes()).len(),
{
    let bytes = s.as_bytes();
    let mut n: usize = 0;
    let mut i: usize = 0;
    while i < bytes.len()
        invariant
            bytes@ == s.spec_bytes(),
            i <= bytes@.len(),
            n == strip_nul(bytes@.take(i as int)).len(),
            n <= i,
        decreases bytes@.len() - i,
    {
        proof {
            lemma_strip_nul_take(bytes@, i as int);
        }
        if bytes[i] != 0 {
            n = n + 1;
        }
        i = i + 1;
    }
    assert(bytes@.take(i as int) =~= bytes@);
    n
}

/// Append a string, which must fit: its bytes, NUL bytes left out.
pub fn put_str(buf: &mut WriteBuffer, s: &str)
    requires
        str_fits(s.spec_bytes()),
        old(buf)@.len() + 4 + strip_nul(s.spec_bytes()).len() <= max_buffer_len(),
    ensures
        final(buf)@ == old(buf)@ + enc_str(s.spec_bytes()),
{
    let bytes = s.as_bytes();
    let n = stripped_len(s);
    put_u32(buf, n as u32);
    let ghost start = buf@;
    let mut i: usize = 0;
    while i < bytes.len()
        invariant
            bytes@ == s.spec_bytes(),
            i <= bytes@.len(),
            buf@ == start + strip_nul(bytes@.take(i as int)),
            start.len() + strip_nul(bytes@).len() <= max_buffer_len(),
        decreases bytes@.len() - i,
    {
        proof {
            lemma_strip_nul_take(bytes@, i as int);
            lemma_strip_nul_prefix_len(bytes@, i as int + 1);
        }
        if bytes[i] != 0 {
            buf.push(bytes[i]);
        }
        i = i + 1;
        assert(buf@ =~= start + strip_nul(bytes@.take(i as int)));
    }
    assert(bytes@.take(i as int) =~= bytes@);
    assert(final(buf)@ =~= old(buf)@ + enc_str(s.spec_bytes()));
}


/// Whether a byte is not NUL.
pub open spec fn not_nul() -> spec_fn(u8) -> bool {
    |b: u8| b != 0
}

/// Leaving out NUL bytes keeps every other byte, in order: it is the string
/// filtered by "is not NUL", and no NUL is left in it.
pub proof fn law_strip_nul_keeps_the_rest(s: Seq<u8>)
    ensures
        strip_nul(s) == s.filter(not_nul()),
        forall|i: int| 0 <= i < strip_nul(s).len() ==> #[trigger] strip_nul(s)[i] != 0,
    decreases s.len(),
{
    if s.len() > 0 {
        law_strip_nul_keeps_the_rest(s.drop_last());
        reveal(Seq::filter);
        assert(strip_nul(s) =~= s.filter(not_nul()));
    } else {
        reveal(Seq::filter);
        assert(strip_nul(s) =~= s.filter(not_nul()));
    }
}

/// A big-endian `u32` is four bytes, most significant first, that add up to it.
pub proof fn law_be_u32_value(n: u32)
    ensures
        be_u32(n).len() == 4,
        n == be_u32(n)[0] as int * 0x1000000 + be_u32(n)[1] as int * 0x10000 + be_u32(n)[2] as int
            * 0x100 + be_u32(n)[3] as int,
{
    let b = be_u32(n);
    assert(b[0] == n / 0x1000000);
    assert(b[1] == (n / 0x10000) % 0x100);
    assert(b[2] == (n / 0x100) % 0x100);
    assert(b[3] == n % 0x100);
    assert(n == (n / 0x1000000) * 0x1000000 + ((n / 0x10000) % 0x100) * 0x10000 + ((n / 0x100)
        % 0x100) * 0x100 + n % 0x100) by (nonlinear_arith);
}

/// A big-endian `u64` is its high half then its low half, each a big-endian
/// `u32`.
pub proof fn law_be_u64_halves(n: u64)
    ensures
        be_u64(n).len() == 8,
        be_u64(n).take(4) == be_u32((n / 0x1_0000_0000) as u32),
        be_u64(n).skip(4) == be_u32((n % 0x1_0000_0000) as u32),
        n == (n / 0x1_0000_0000) * 0x1_0000_0000 + n % 0x1_0000_0000,
{
    assert(be_u64(n).take(4) =~= be_u32((n / 0x1_0000_0000) as u32));
    assert(be_u64(n).skip(4) =~= be_u32((n % 0x1_0000_0000) as u32));
}

} // verus!
