//! The bitmap-extension record kind: a 32-byte identifier plus two fixed
//! 12-row-by-8-word grids of 64-bit range bitmaps.

use vstd::prelude::*;

verus! {

use vstd::bytes::{spec_u64_from_le_bytes, spec_u64_to_le_bytes};
use crate::record::{read_checked, read_unchecked, to_vec, CodecError, Record};
use crate::wire::{
    get_bytes32, get_u64, lemma_words_le_bytes_injective, lemma_words_le_bytes_len,
    lemma_words_le_bytes_of_slices, put_bytes, put_u64, words_le_bytes, Pubkey,
};

/// Discriminator tag of the bitmap-extension record kind.
pub const BIN_ARRAY_BITMAP_EXTENSION_ACCOUNT_DISCM: [u8; 8] = [80, 111, 124, 113, 55, 237, 18, 5];

/// Byte image of a grid of 8-word rows: each row's words little endian, rows
/// in order.
pub open spec fn grid_bytes(rows: Seq<[u64; 8]>) -> Seq<u8>
    decreases rows.len(),
{
    if rows.len() == 0 {
        Seq::empty()
    } else {
        grid_bytes(rows.drop_last()) + words_le_bytes(rows.last()@)
    }
}

pub proof fn lemma_grid_bytes_len(rows: Seq<[u64; 8]>)
    ensures
        grid_bytes(rows).len() == 64 * rows.len(),
    decreases rows.len(),
{
    if rows.len() > 0 {
        lemma_grid_bytes_len(rows.drop_last());
        lemma_words_le_bytes_len(rows.last()@);
    }
}

/// A grid whose rows each image the matching 64-byte slice of `b` has `b` as
/// its byte image.
pub proof fn lemma_grid_bytes_of_slices(rows: Seq<[u64; 8]>, b: Seq<u8>)
    requires
        b.len() == 64 * rows.len(),
        forall|r: int|
            0 <= r < rows.len() ==> words_le_bytes(rows[r]@) == #[trigger] b.subrange(
                64 * r,
                64 * r + 64,
            ),
    ensures
        grid_bytes(rows) == b,
    decreases rows.len(),
{
    if rows.len() == 0 {
        assert(grid_bytes(rows) =~= b);
    } else {
        let n = rows.len() - 1;
        let prefix = b.subrange(0, 64 * n);
        assert forall|r: int| 0 <= r < n implies words_le_bytes(rows.drop_last()[r]@)
            == #[trigger] prefix.subrange(64 * r, 64 * r + 64) by {
            assert(prefix.subrange(64 * r, 64 * r + 64) =~= b.subrange(64 * r, 64 * r + 64));
        };
        lemma_grid_bytes_of_slices(rows.drop_last(), prefix);
        assert(words_le_bytes(rows.last()@) == b.subrange(64 * n, 64 * n + 64));
        assert(grid_bytes(rows) =~= b);
    }
}

/// Grids of equal row count with the same byte image are equal.
pub proof fn lemma_grid_bytes_injective(s1: Seq<[u64; 8]>, s2: Seq<[u64; 8]>)
    requires
        s1.len() == s2.len(),
        grid_bytes(s1) == grid_bytes(s2),
    ensures
        s1 == s2,
    decreases s1.len(),
{
    if s1.len() == 0 {
        assert(s1 =~= s2);
    } else {
        let n = s1.len() - 1;
        lemma_grid_bytes_len(s1.drop_last());
        lemma_grid_bytes_len(s2.drop_last());
        lemma_words_le_bytes_len(s1.last()@);
        lemma_words_le_bytes_len(s2.last()@);
        let w = grid_bytes(s1);
        assert(grid_bytes(s1.drop_last()) =~= w.subrange(0, 64 * n));
        assert(grid_bytes(s2.drop_last()) =~= w.subrange(0, 64 * n));
        lemma_grid_bytes_injective(s1.drop_last(), s2.drop_last());
        assert(words_le_bytes(s1.last()@) =~= w.subrange(64 * n, 64 * n + 64));
        assert(words_le_bytes(s2.last()@) =~= w.subrange(64 * n, 64 * n + 64));
        lemma_words_le_bytes_injective(s1.last()@, s2.last()@);
        assert(s1.last() =~= s2.last());
        assert forall|i: int| 0 <= i < s1.len() implies s1[i] == s2[i] by {
            if i < n {
                assert(s1[i] == s1.drop_last()[i]);
                assert(s2[i] == s2.drop_last()[i]);
            } else {
                assert(s1[i] == s1.last());
                assert(s2[i] == s2.last());
            }
        };
        assert(s1 =~= s2);
    }
}

/// Reads a 12-row grid of 8 little-endian words starting at `off`.
fn read_grid(bytes: &[u8], off: usize) -> (g: [[u64; 8]; 12])
    requires
        off + 768 <= bytes@.len(),
    ensures
        grid_bytes(g@) == bytes@.subrange(off as int, off as int + 768),
{
    let len = bytes.len();
    let mut g: [[u64; 8]; 12] = [[0u64; 8]; 12];
    let mut i: usize = 0;
    while i < 12
        invariant
            i <= 12,
            off + 768 <= len,
            len == bytes@.len(),
            forall|r: int|
                0 <= r < i ==> words_le_bytes(g@[r]@) == #[trigger] bytes@.subrange(
                    off + 64 * r,
                    off + 64 * r + 64,
                ),
        decreases 12 - i,
    {
        let mut row: [u64; 8] = [0u64; 8];
        let mut k: usize = 0;
        while k < 8
            invariant
                k <= 8,
                i < 12,
                off + 768 <= len,
                len == bytes@.len(),
                forall|j: int|
                    0 <= j < k ==> row@[j] == spec_u64_from_le_bytes(
                        #[trigger] bytes@.subrange(
                            off + 64 * i + 8 * j,
                            off + 64 * i + 8 * j + 8,
                        ),
                    ),
            decreases 8 - k,
        {
            row[k] = get_u64(bytes, off + 64 * i + 8 * k);
            k = k + 1;
        }
        proof {
            let sub = bytes@.subrange(off + 64 * i, off + 64 * i + 64);
            assert forall|j: int| 0 <= j < 8 implies row@[j] == spec_u64_from_le_bytes(
                #[trigger] sub.subrange(8 * j, 8 * j + 8),
            ) by {
                assert(sub.subrange(8 * j, 8 * j + 8) =~= bytes@.subrange(
                    off + 64 * (i as int) + 8 * j,
                    off + 64 * (i as int) + 8 * j + 8,
                ));
            };
            lemma_words_le_bytes_of_slices(row@, sub);
        }
        g[i] = row;
        i = i + 1;
    }
    proof {
        let all = bytes@.subrange(off as int, off as int + 768);
        assert forall|r: int| 0 <= r < 12 implies words_le_bytes(g@[r]@) == #[trigger] all.subrange(
            64 * r,
            64 * r + 64,
        ) by {
            assert(all.subrange(64 * r, 64 * r + 64) =~= bytes@.subrange(
                off + 64 * r,
                off + 64 * r + 64,
            ));
        };
        lemma_grid_bytes_of_slices(g@, all);
    }
    g
}

/// Appends a 12-row grid of 8 little-endian words.
fn write_grid(g: &[[u64; 8]; 12], out: &mut Vec<u8>)
    ensures
        final(out)@ == old(out)@ + grid_bytes(g@),
{
    let ghost pre = out@;
    let mut i: usize = 0;
    while i < 12
        invariant
            i <= 12,
            out@ == pre + grid_bytes(g@.take(i as int)),
        decreases 12 - i,
    {
        let row = g[i];
        let ghost rowpre = out@;
        let mut k: usize = 0;
        while k < 8
            invariant
                k <= 8,
                i < 12,
                row == g@[i as int],
                out@ == rowpre + words_le_bytes(row@.take(k as int)),
            decreases 8 - k,
        {
            put_u64(out, row[k]);
            proof {
                let t = row@.take(k as int + 1);
                assert(t.drop_last() =~= row@.take(k as int));
                assert(t.last() == row@[k as int]);
                assert(rowpre + words_le_bytes(row@.take(k as int)) + spec_u64_to_le_bytes(
                    row@[k as int],
                ) =~= rowpre + words_le_bytes(t));
            }
            k = k + 1;
        }
        proof {
            assert(row@.take(8) =~= row@);
            let t = g@.take(i as int + 1);
            assert(t.drop_last() =~= g@.take(i as int));
            assert(t.last() == g@[i as int]);
            assert(out@ =~= pre + grid_bytes(t));
        }
        i = i + 1;
    }
    proof {
        assert(g@.take(12) =~= g@);
    }
}

/// A bitmap-extension record body: a 32-byte identifier, then the positive
/// and negative range bitmap grids of 768 bytes each — 1568 bytes in all.
#[verifier::ext_equal]
#[derive(Clone, Copy, Debug, PartialEq, Eq)]
pub struct BinArrayBitmapExtension {
    pub lb_pair: Pubkey,
    pub positive_bin_array_bitmap: [[u64; 8]; 12],
    pub negative_bin_array_bitmap: [[u64; 8]; 12],
}

impl Record for BinArrayBitmapExtension {
    open spec fn spec_size() -> nat {
        1568
    }

    open spec fn spec_discriminator() -> Seq<u8> {
        seq![80u8, 111u8, 124u8, 113u8, 55u8, 237u8, 18u8, 5u8]
    }

    open spec fn body(self) -> Seq<u8> {
        self.lb_pair@ + grid_bytes(self.positive_bin_array_bitmap@) + grid_bytes(
            self.negative_bin_array_bitmap@,
        )
    }

    proof fn lemma_discriminator_len() {
    }

    proof fn lemma_body_len(self) {
        lemma_grid_bytes_len(self.positive_bin_array_bitmap@);
        lemma_grid_bytes_len(self.negative_bin_array_bitmap@);
    }

    proof fn lemma_body_injective(self, other: Self) {
        lemma_grid_bytes_len(self.positive_bin_array_bitmap@);
        lemma_grid_bytes_len(self.negative_bin_array_bitmap@);
        lemma_grid_bytes_len(other.positive_bin_array_bitmap@);
        lemma_grid_bytes_len(other.negative_bin_array_bitmap@);
        let b = self.body();
        assert(self.lb_pair@ =~= b.subrange(0, 32));
        assert(other.lb_pair@ =~= b.subrange(0, 32));
        assert(self.lb_pair =~= other.lb_pair);
        assert(grid_bytes(self.positive_bin_array_bitmap@) =~= b.subrange(32, 800));
        assert(grid_bytes(other.positive_bin_array_bitmap@) =~= b.subrange(32, 800));
        lemma_grid_bytes_injective(
            self.positive_bin_array_bitmap@,
            other.positive_bin_array_bitmap@,
        );
        assert(self.positive_bin_array_bitmap =~= other.positive_bin_array_bitmap);
        assert(grid_bytes(self.negative_bin_array_bitmap@) =~= b.subrange(800, 1568));
        assert(grid_bytes(other.negative_bin_array_bitmap@) =~= b.subrange(800, 1568));
        lemma_grid_bytes_injective(
            self.negative_bin_array_bitmap@,
            other.negative_bin_array_bitmap@,
        );
        assert(self.negative_bin_array_bitmap =~= other.negative_bin_array_bitmap);
        assert(self =~= other);
    }

    fn size() -> (n: usize) {
        1568
    }

    fn discriminator() -> (d: [u8; 8]) {
        let d: [u8; 8] = [80, 111, 124, 113, 55, 237, 18, 5];
        proof {
            assert(d@ =~= Self::spec_discriminator());
        }
        d
    }

    fn read_body(bytes: &[u8]) -> (r: Self) {
        let lb_pair = get_bytes32(bytes, 0);
        let positive = read_grid(bytes, 32);
        let negative = read_grid(bytes, 800);
        let r = BinArrayBitmapExtension {
            lb_pair,
            positive_bin_array_bitmap: positive,
            negative_bin_array_bitmap: negative,
        };
        proof {
            assert(r.body() =~= bytes@);
        }
        r
    }

    fn write_body(&self, out: &mut Vec<u8>) {
        put_bytes(out, self.lb_pair.as_slice());
        write_grid(&self.positive_bin_array_bitmap, out);
        write_grid(&self.negative_bin_array_bitmap, out);
        proof {
            assert(out@ =~= old(out)@ + self.body());
        }
    }
}

/// A decoded bitmap-extension account: the record behind its discriminator.
#[derive(Clone, Debug)]
pub struct BinArrayBitmapExtensionAccount(pub BinArrayBitmapExtension);

impl BinArrayBitmapExtensionAccount {
    /// Unchecked fast-path decode: skips the 8-byte discriminator prefix and
    /// reinterprets the next 1568 bytes. Performs no bounds check beyond its
    /// precondition and never inspects the discriminator.
    pub fn deserialize(buf: &[u8]) -> (acc: Self)
        requires
            buf@.len() >= 8 + BinArrayBitmapExtension::spec_size(),
        ensures
            acc.0.body() == buf@.subrange(8, 8 + BinArrayBitmapExtension::spec_size() as int),
    {
        BinArrayBitmapExtensionAccount(read_unchecked(buf))
    }

    /// Checked decode: reports `BufferTooShort` on a buffer under `8 + 1568`
    /// bytes instead of demanding a precondition.
    pub fn deserialize_checked(buf: &[u8]) -> (r: Result<Self, CodecError>)
        ensures
            buf@.len() >= 8 + BinArrayBitmapExtension::spec_size() ==> (r matches Ok(acc)
                && acc.0.body() == buf@.subrange(
                8,
                8 + BinArrayBitmapExtension::spec_size() as int,
            )),
            buf@.len() < 8 + BinArrayBitmapExtension::spec_size() ==> (r matches Err(e) && e
                == CodecError::BufferTooShort),
    {
        match read_checked::<BinArrayBitmapExtension>(buf) {
            Ok(rec) => Ok(BinArrayBitmapExtensionAccount(rec)),
            Err(e) => Err(e),
        }
    }

    /// Explicit discriminator verification for this kind.
    pub fn verify_discriminator(buf: &[u8]) -> (r: Result<(), CodecError>)
        ensures
            r is Ok <==> buf@.len() >= 8 && buf@.subrange(0, 8)
                == BinArrayBitmapExtension::spec_discriminator(),
            buf@.len() < 8 ==> (r matches Err(e) && e == CodecError::BufferTooShort),
            buf@.len() >= 8 && buf@.subrange(0, 8)
                != BinArrayBitmapExtension::spec_discriminator() ==> (r matches Err(e) && e
                == CodecError::DiscriminatorMismatch),
    {
        crate::record::verify_discriminator::<BinArrayBitmapExtension>(buf)
    }

    /// Serializes the account as discriminator tag plus body bytes. Never
    /// fails for the in-memory sink.
    pub fn try_to_vec(&self) -> (out: Vec<u8>)
        ensures
            out@ == BinArrayBitmapExtension::spec_discriminator() + self.0.body(),
            out@.len() == 8 + BinArrayBitmapExtension::spec_size(),
    {
        to_vec(&self.0)
    }
}

} // verus!
