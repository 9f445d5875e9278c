//! Byte-level building blocks: little-endian integer fields, fixed-size byte
//! fields, and word sequences, each with its exact byte image in specs.

use vstd::prelude::*;

verus! {

use vstd::bytes::{
    lemma_auto_spec_u16_to_from_le_bytes, lemma_auto_spec_u32_to_from_le_bytes,
    lemma_auto_spec_u64_to_from_le_bytes, spec_u16_from_le_bytes, spec_u16_to_le_bytes,
    spec_u32_from_le_bytes, spec_u32_to_le_bytes, spec_u64_from_le_bytes, spec_u64_to_le_bytes,
    u16_from_le_bytes, u16_to_le_bytes, u32_from_le_bytes, u32_to_le_bytes, u64_from_le_bytes,
    u64_to_le_bytes,
};
use vstd::slice::{slice_index_get, slice_subrange};

/// A 32-byte account address, held as plain bytes.
pub type Pubkey = [u8; 32];

/// Little-endian byte image of an `i64`: the bytes of its two's-complement
/// reinterpretation as a `u64`.
pub open spec fn spec_i64_to_le_bytes(x: i64) -> Seq<u8> {
    spec_u64_to_le_bytes(x as u64)
}

/// The `i64` whose two's-complement bits are the given 8 little-endian bytes.
pub open spec fn spec_i64_from_le_bytes(s: Seq<u8>) -> i64 {
    spec_u64_from_le_bytes(s) as i64
}

/// Little-endian byte image of an `i32`.
pub open spec fn spec_i32_to_le_bytes(x: i32) -> Seq<u8> {
    spec_u32_to_le_bytes(x as u32)
}

/// The `i32` whose two's-complement bits are the given 4 little-endian bytes.
pub open spec fn spec_i32_from_le_bytes(s: Seq<u8>) -> i32 {
    spec_u32_from_le_bytes(s) as i32
}

/// `i64` little-endian bytes round-trip in both directions.
pub proof fn lemma_i64_le_bytes()
    ensures
        forall|x: i64|
            {
                &&& (#[trigger] spec_i64_to_le_bytes(x)).len() == 8
                &&& spec_i64_from_le_bytes(spec_i64_to_le_bytes(x)) == x
            },
        forall|s: Seq<u8>|
            s.len() == 8 ==> #[trigger] spec_i64_to_le_bytes(spec_i64_from_le_bytes(s)) == s,
{
    lemma_auto_spec_u64_to_from_le_bytes();
    assert forall|x: i64|
        {
            &&& (#[trigger] spec_i64_to_le_bytes(x)).len() == 8
            &&& spec_i64_from_le_bytes(spec_i64_to_le_bytes(x)) == x
        } by {
        assert(((x as u64) as i64) == x) by (bit_vector);
    };
    assert forall|s: Seq<u8>| s.len() == 8 implies #[trigger] spec_i64_to_le_bytes(
        spec_i64_from_le_bytes(s),
    ) == s by {
        let u = spec_u64_from_le_bytes(s);
        assert(((u as i64) as u64) == u) by (bit_vector);
    };
}

/// `i32` little-endian bytes round-trip in both directions.
pub proof fn lemma_i32_le_bytes()
    ensures
        forall|x: i32|
            {
                &&& (#[trigger] spec_i32_to_le_bytes(x)).len() == 4
                &&& spec_i32_from_le_bytes(spec_i32_to_le_bytes(x)) == x
            },
        forall|s: Seq<u8>|
            s.len() == 4 ==> #[trigger] spec_i32_to_le_bytes(spec_i32_from_le_bytes(s)) == s,
{
    lemma_auto_spec_u32_to_from_le_bytes();
    assert forall|x: i32|
        {
            &&& (#[trigger] spec_i32_to_le_bytes(x)).len() == 4
            &&& spec_i32_from_le_bytes(spec_i32_to_le_bytes(x)) == x
        } by {
        assert(((x as u32) as i32) == x) by (bit_vector);
    };
    assert forall|s: Seq<u8>| s.len() == 4 implies #[trigger] spec_i32_to_le_bytes(
        spec_i32_from_le_bytes(s),
    ) == s by {
        let u = spec_u32_from_le_bytes(s);
        assert(((u as i32) as u32) == u) by (bit_vector);
    };
}

/// Byte image of a sequence of 64-bit words, each little endian, in order.
pub open spec fn words_le_bytes(ws: Seq<u64>) -> Seq<u8>
    decreases ws.len(),
{
    if ws.len() == 0 {
        Seq::empty()
    } else {
        words_le_bytes(ws.drop_last()) + spec_u64_to_le_bytes(ws.last())
    }
}

pub proof fn lemma_words_le_bytes_len(ws: Seq<u64>)
    ensures
        words_le_bytes(ws).len() == 8 * ws.len(),
    decreases ws.len(),
{
    lemma_auto_spec_u64_to_from_le_bytes();
    if ws.len() > 0 {
        lemma_words_le_bytes_len(ws.drop_last());
    }
}

/// A word sequence whose members each read back the matching 8-byte slice of
/// `b` has `b` as its byte image.
pub proof fn lemma_words_le_bytes_of_slices(ws: Seq<u64>, b: Seq<u8>)
    requires
        b.len() == 8 * ws.len(),
        forall|j: int|
            0 <= j < ws.len() ==> ws[j] == spec_u64_from_le_bytes(
                #[trigger] b.subrange(8 * j, 8 * j + 8),
            ),
    ensures
        words_le_bytes(ws) == b,
    decreases ws.len(),
{
    lemma_auto_spec_u64_to_from_le_bytes();
    if ws.len() == 0 {
        assert(words_le_bytes(ws) =~= b);
    } else {
        let n = ws.len() - 1;
        let prefix = b.subrange(0, 8 * n);
        assert forall|j: int| 0 <= j < n implies ws.drop_last()[j] == spec_u64_from_le_bytes(
            #[trigger] prefix.subrange(8 * j, 8 * j + 8),
        ) by {
            assert(prefix.subrange(8 * j, 8 * j + 8) =~= b.subrange(8 * j, 8 * j + 8));
        };
        lemma_words_le_bytes_of_slices(ws.drop_last(), prefix);
        let tail = b.subrange(8 * n, 8 * n + 8);
        assert(ws.last() == spec_u64_from_le_bytes(tail));
        assert(spec_u64_to_le_bytes(spec_u64_from_le_bytes(tail)) == tail);
        assert(words_le_bytes(ws) =~= b);
    }
}

/// Word sequences of equal length with the same byte image are equal.
pub proof fn lemma_words_le_bytes_injective(s1: Seq<u64>, s2: Seq<u64>)
    requires
        s1.len() == s2.len(),
        words_le_bytes(s1) == words_le_bytes(s2),
    ensures
        s1 == s2,
    decreases s1.len(),
{
    lemma_auto_spec_u64_to_from_le_bytes();
    if s1.len() == 0 {
        assert(s1 =~= s2);
    } else {
        let n = s1.len() - 1;
        lemma_words_le_bytes_len(s1.drop_last());
        lemma_words_le_bytes_len(s2.drop_last());
        let w = words_le_bytes(s1);
        assert(words_le_bytes(s1.drop_last()) =~= w.subrange(0, 8 * n));
        assert(words_le_bytes(s2.drop_last()) =~= w.subrange(0, 8 * n));
        lemma_words_le_bytes_injective(s1.drop_last(), s2.drop_last());
        assert(spec_u64_to_le_bytes(s1.last()) =~= w.subrange(8 * n, 8 * n + 8));
        assert(spec_u64_to_le_bytes(s2.last()) =~= w.subrange(8 * n, 8 * n + 8));
        assert(s1.last() == spec_u64_from_le_bytes(spec_u64_to_le_bytes(s1.last())));
        assert(s2.last() == spec_u64_from_le_bytes(spec_u64_to_le_bytes(s2.last())));
        assert forall|i: int| 0 <= i < s1.len() implies s1[i] == s2[i] by {
            if i < n {
                assert(s1[i] == s1.drop_last()[i]);
                assert(s2[i] == s2.drop_last()[i]);
            } else {
                assert(s1[i] == s1.last());
                assert(s2[i] == s2.last());
            }
        };
        assert(s1 =~= s2);
    }
}

/// Appends a byte slice verbatim.
pub fn put_bytes(out: &mut Vec<u8>, bytes: &[u8])
    ensures
        final(out)@ == old(out)@ + bytes@,
{
    let ghost start = out@;
    let mut i: usize = 0;
    while i < bytes.len()
        invariant
            i <= bytes@.len(),
            out@ == start + bytes@.subrange(0, i as int),
        decreases bytes@.len() - i,
    {
        out.push(*slice_index_get(bytes, i));
        proof {
            assert((start + bytes@.subrange(0, i as int)).push(bytes@[i as int]) =~= start
                + bytes@.subrange(0, i as int + 1));
        }
        i = i + 1;
    }
    proof {
        assert(bytes@.subrange(0, bytes@.len() as int) =~= bytes@);
    }
}

/// Appends a single byte.
pub fn put_u8(out: &mut Vec<u8>, x: u8)
    ensures
        final(out)@ == old(out)@ + seq![x],
{
    out.push(x);
    proof {
        assert(old(out)@.push(x) =~= old(out)@ + seq![x]);
    }
}

/// Appends a `u16` as 2 little-endian bytes.
pub fn put_u16(out: &mut Vec<u8>, x: u16)
    ensures
        final(out)@ == old(out)@ + spec_u16_to_le_bytes(x),
{
    let mut b = u16_to_le_bytes(x);
    out.append(&mut b);
}

/// Appends a `u32` as 4 little-endian bytes.
pub fn put_u32(out: &mut Vec<u8>, x: u32)
    ensures
        final(out)@ == old(out)@ + spec_u32_to_le_bytes(x),
{
    let mut b = u32_to_le_bytes(x);
    out.append(&mut b);
}

/// Appends a `u64` as 8 little-endian bytes.
pub fn put_u64(out: &mut Vec<u8>, x: u64)
    ensures
        final(out)@ == old(out)@ + spec_u64_to_le_bytes(x),
{
    let mut b = u64_to_le_bytes(x);
    out.append(&mut b);
}

/// Appends an `i32` as 4 little-endian two's-complement bytes.
pub fn put_i32(out: &mut Vec<u8>, x: i32)
    ensures
        final(out)@ == old(out)@ + spec_i32_to_le_bytes(x),
{
    put_u32(out, #[verifier::truncate] (x as u32));
}

/// Appends an `i64` as 8 little-endian two's-complement bytes.
pub fn put_i64(out: &mut Vec<u8>, x: i64)
    ensures
        final(out)@ == old(out)@ + spec_i64_to_le_bytes(x),
{
    put_u64(out, #[verifier::truncate] (x as u64));
}

/// Reads a `u16` from 2 little-endian bytes at `off`.
pub fn get_u16(buf: &[u8], off: usize) -> (x: u16)
    requires
        off + 2 <= buf@.len(),
    ensures
        x == spec_u16_from_le_bytes(buf@.subrange(off as int, off as int + 2)),
{
    let len = buf.len();
    u16_from_le_bytes(slice_subrange(buf, off, off + 2))
}

/// Reads a `u32` from 4 little-endian bytes at `off`.
pub fn get_u32(buf: &[u8], off: usize) -> (x: u32)
    requires
        off + 4 <= buf@.len(),
    ensures
        x == spec_u32_from_le_bytes(buf@.subrange(off as int, off as int + 4)),
{
    let len = buf.len();
    u32_from_le_bytes(slice_subrange(buf, off, off + 4))
}

/// Reads a `u64` from 8 little-endian bytes at `off`.
pub fn get_u64(buf: &[u8], off: usize) -> (x: u64)
    requires
        off + 8 <= buf@.len(),
    ensures
        x == spec_u64_from_le_bytes(buf@.subrange(off as int, off as int + 8)),
{
    let len = buf.len();
    u64_from_le_bytes(slice_subrange(buf, off, off + 8))
}

/// Reads an `i32` from 4 little-endian two's-complement bytes at `off`.
pub fn get_i32(buf: &[u8], off: usize) -> (x: i32)
    requires
        off + 4 <= buf@.len(),
    ensures
        x == spec_i32_from_le_bytes(buf@.subrange(off as int, off as int + 4)),
{
    #[verifier::truncate] (get_u32(buf, off) as i32)
}

/// Reads an `i64` from 8 little-endian two's-complement bytes at `off`.
pub fn get_i64(buf: &[u8], off: usize) -> (x: i64)
    requires
        off + 8 <= buf@.len(),
    ensures
        x == spec_i64_from_le_bytes(buf@.subrange(off as int, off as int + 8)),
{
    #[verifier::truncate] (get_u64(buf, off) as i64)
}

/// Reads a single byte at `off`.
pub fn get_u8(buf: &[u8], off: usize) -> (x: u8)
    requires
        off < buf@.len(),
    ensures
        x == buf@[off as int],
{
    *slice_index_get(buf, off)
}


/// Reads a fixed run of 1 byte at `off` into an owned array.
pub fn get_bytes1(buf: &[u8], off: usize) -> (a: [u8; 1])
    requires
        off + 1 <= buf@.len(),
    ensures
        a@ == buf@.subrange(off as int, off as int + 1),
{
    let len = buf.len();
    let mut a: [u8; 1] = [0u8; 1];
    let mut i: usize = 0;
    while i < 1
        invariant
            i <= 1,
            off + 1 <= len,
            len == buf@.len(),
            forall|j: int| 0 <= j < i ==> a@[j] == buf@[off + j],
        decreases 1 - i,
    {
        a[i] = *slice_index_get(buf, off + i);
        i = i + 1;
    }
    proof {
        assert(a@ =~= buf@.subrange(off as int, off as int + 1));
    }
    a
}

/// Reads a fixed run of 2 bytes at `off` into an owned array.
pub fn get_bytes2(buf: &[u8], off: usize) -> (a: [u8; 2])
    requires
        off + 2 <= buf@.len(),
    ensures
        a@ == buf@.subrange(off as int, off as int + 2),
{
    let len = buf.len();
    let mut a: [u8; 2] = [0u8; 2];
    let mut i: usize = 0;
    while i < 2
        invariant
            i <= 2,
            off + 2 <= len,
            len == buf@.len(),
            forall|j: int| 0 <= j < i ==> a@[j] == buf@[off + j],
        decreases 2 - i,
    {
        a[i] = *slice_index_get(buf, off + i);
        i = i + 1;
    }
    proof {
        assert(a@ =~= buf@.subrange(off as int, off as int + 2));
    }
    a
}

/// Reads a fixed run of 7 bytes at `off` into an owned array.
pub fn get_bytes7(buf: &[u8], off: usize) -> (a: [u8; 7])
    requires
        off + 7 <= buf@.len(),
    ensures
        a@ == buf@.subrange(off as int, off as int + 7),
{
    let len = buf.len();
    let mut a: [u8; 7] = [0u8; 7];
    let mut i: usize = 0;
    while i < 7
        invariant
            i <= 7,
            off + 7 <= len,
            len == buf@.len(),
            forall|j: int| 0 <= j < i ==> a@[j] == buf@[off + j],
        decreases 7 - i,
    {
        a[i] = *slice_index_get(buf, off + i);
        i = i + 1;
    }
    proof {
        assert(a@ =~= buf@.subrange(off as int, off as int + 7));
    }
    a
}

/// Reads a fixed run of 8 bytes at `off` into an owned array.
pub fn get_bytes8(buf: &[u8], off: usize) -> (a: [u8; 8])
    requires
        off + 8 <= buf@.len(),
    ensures
        a@ == buf@.subrange(off as int, off as int + 8),
{
    let len = buf.len();
    let mut a: [u8; 8] = [0u8; 8];
    let mut i: usize = 0;
    while i < 8
        invariant
            i <= 8,
            off + 8 <= len,
            len == buf@.len(),
            forall|j: int| 0 <= j < i ==> a@[j] == buf@[off + j],
        decreases 8 - i,
    {
        a[i] = *slice_index_get(buf, off + i);
        i = i + 1;
    }
    proof {
        assert(a@ =~= buf@.subrange(off as int, off as int + 8));
    }
    a
}

/// Reads a fixed run of 16 bytes at `off` into an owned array.
pub fn get_bytes16(buf: &[u8], off: usize) -> (a: [u8; 16])
    requires
        off + 16 <= buf@.len(),
    ensures
        a@ == buf@.subrange(off as int, off as int + 16),
{
    let len = buf.len();
    let mut a: [u8; 16] = [0u8; 16];
    let mut i: usize = 0;
    while i < 16
        invariant
            i <= 16,
            off + 16 <= len,
            len == buf@.len(),
            forall|j: int| 0 <= j < i ==> a@[j] == buf@[off + j],
        decreases 16 - i,
    {
        a[i] = *slice_index_get(buf, off + i);
        i = i + 1;
    }
    proof {
        assert(a@ =~= buf@.subrange(off as int, off as int + 16));
    }
    a
}

/// Reads a fixed run of 22 bytes at `off` into an owned array.
pub fn get_bytes22(buf: &[u8], off: usize) -> (a: [u8; 22])
    requires
        off + 22 <= buf@.len(),
    ensures
        a@ == buf@.subrange(off as int, off as int + 22),
{
    let len = buf.len();
    let mut a: [u8; 22] = [0u8; 22];
    let mut i: usize = 0;
    while i < 22
        invariant
            i <= 22,
            off + 22 <= len,
            len == buf@.len(),
            forall|j: int| 0 <= j < i ==> a@[j] == buf@[off + j],
        decreases 22 - i,
    {
        a[i] = *slice_index_get(buf, off + i);
        i = i + 1;
    }
    proof {
        assert(a@ =~= buf@.subrange(off as int, off as int + 22));
    }
    a
}

/// Reads a fixed run of 32 bytes at `off` into an owned array.
pub fn get_bytes32(buf: &[u8], off: usize) -> (a: [u8; 32])
    requires
        off + 32 <= buf@.len(),
    ensures
        a@ == buf@.subrange(off as int, off as int + 32),
{
    let len = buf.len();
    let mut a: [u8; 32] = [0u8; 32];
    let mut i: usize = 0;
    while i < 32
        invariant
            i <= 32,
            off + 32 <= len,
            len == buf@.len(),
            forall|j: int| 0 <= j < i ==> a@[j] == buf@[off + j],
        decreases 32 - i,
    {
        a[i] = *slice_index_get(buf, off + i);
        i = i + 1;
    }
    proof {
        assert(a@ =~= buf@.subrange(off as int, off as int + 32));
    }
    a
}

/// Reads a fixed run of 144 bytes at `off` into an owned array.
pub fn get_bytes144(buf: &[u8], off: usize) -> (a: [u8; 144])
    requires
        off + 144 <= buf@.len(),
    ensures
        a@ == buf@.subrange(off as int, off as int + 144),
{
    let len = buf.len();
    let mut a: [u8; 144] = [0u8; 144];
    let mut i: usize = 0;
    while i < 144
        invariant
            i <= 144,
            off + 144 <= len,
            len == buf@.len(),
            forall|j: int| 0 <= j < i ==> a@[j] == buf@[off + j],
        decreases 144 - i,
    {
        a[i] = *slice_index_get(buf, off + i);
        i = i + 1;
    }
    proof {
        assert(a@ =~= buf@.subrange(off as int, off as int + 144));
    }
    a
}

} // verus!
