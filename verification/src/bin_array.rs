//! The bin-array record kind: a signed 64-bit index, a version byte, 7 bytes
//! of explicit padding, a 32-byte identifier, and 70 fixed-size bin entries.

use vstd::prelude::*;

verus! {

use crate::record::{read_checked, read_unchecked, to_vec, CodecError, Record};
use crate::wire::{
    get_bytes144, get_bytes32, get_bytes7, get_i64, get_u8, lemma_i64_le_bytes, put_bytes, put_i64,
    put_u8, spec_i64_from_le_bytes, spec_i64_to_le_bytes, Pubkey,
};

/// Discriminator tag of the bin-array record kind.
pub const BIN_ARRAY_ACCOUNT_DISCM: [u8; 8] = [92, 142, 92, 220, 5, 148, 70, 181];

/// One bin entry. Bin internals are defined by the external program and are
/// opaque to this codec: each entry is carried as a fixed 144-byte block.
#[verifier::ext_equal]
#[derive(Clone, Copy, Debug, PartialEq, Eq)]
pub struct Bin {
    pub data: [u8; 144],
}

/// Byte image of a sequence of bin entries, in order.
pub open spec fn bins_bytes(bins: Seq<Bin>) -> Seq<u8>
    decreases bins.len(),
{
    if bins.len() == 0 {
        Seq::empty()
    } else {
        bins_bytes(bins.drop_last()) + bins.last().data@
    }
}

pub proof fn lemma_bins_bytes_len(bins: Seq<Bin>)
    ensures
        bins_bytes(bins).len() == 144 * bins.len(),
    decreases bins.len(),
{
    if bins.len() > 0 {
        lemma_bins_bytes_len(bins.drop_last());
    }
}

/// A bin sequence whose entries each hold the matching 144-byte slice of `b`
/// has `b` as its byte image.
pub proof fn lemma_bins_bytes_of_slices(bins: Seq<Bin>, b: Seq<u8>)
    requires
        b.len() == 144 * bins.len(),
        forall|j: int|
            0 <= j < bins.len() ==> bins[j].data@ == #[trigger] b.subrange(
                144 * j,
                144 * j + 144,
            ),
    ensures
        bins_bytes(bins) == b,
    decreases bins.len(),
{
    if bins.len() == 0 {
        assert(bins_bytes(bins) =~= b);
    } else {
        let n = bins.len() - 1;
        let prefix = b.subrange(0, 144 * n);
        assert forall|j: int| 0 <= j < n implies bins.drop_last()[j].data@ == #[trigger] prefix
            .subrange(144 * j, 144 * j + 144) by {
            assert(prefix.subrange(144 * j, 144 * j + 144) =~= b.subrange(144 * j, 144 * j + 144));
        };
        lemma_bins_bytes_of_slices(bins.drop_last(), prefix);
        assert(bins.last().data@ == b.subrange(144 * n, 144 * n + 144));
        assert(bins_bytes(bins) =~= b);
    }
}

/// Bin sequences of equal length with the same byte image are equal.
pub proof fn lemma_bins_bytes_injective(s1: Seq<Bin>, s2: Seq<Bin>)
    requires
        s1.len() == s2.len(),
        bins_bytes(s1) == bins_bytes(s2),
    ensures
        s1 == s2,
    decreases s1.len(),
{
    if s1.len() == 0 {
        assert(s1 =~= s2);
    } else {
        let n = s1.len() - 1;
        lemma_bins_bytes_len(s1.drop_last());
        lemma_bins_bytes_len(s2.drop_last());
        let w = bins_bytes(s1);
        assert(bins_bytes(s1.drop_last()) =~= w.subrange(0, 144 * n));
        assert(bins_bytes(s2.drop_last()) =~= w.subrange(0, 144 * n));
        lemma_bins_bytes_injective(s1.drop_last(), s2.drop_last());
        assert(s1.last().data@ =~= w.subrange(144 * n, 144 * n + 144));
        assert(s2.last().data@ =~= w.subrange(144 * n, 144 * n + 144));
        assert(s1.last() =~= s2.last());
        assert forall|i: int| 0 <= i < s1.len() implies s1[i] == s2[i] by {
            if i < n {
                assert(s1[i] == s1.drop_last()[i]);
                assert(s2[i] == s2.drop_last()[i]);
            } else {
                assert(s1[i] == s1.last());
                assert(s2[i] == s2.last());
            }
        };
        assert(s1 =~= s2);
    }
}

/// A bin-array record body: 8-byte index, version byte, 7 explicit padding
/// bytes, 32-byte identifier, then 70 bins of 144 bytes — 10128 bytes in all.
#[verifier::ext_equal]
#[derive(Clone, Copy, Debug, PartialEq, Eq)]
pub struct BinArray {
    pub index: i64,
    pub version: u8,
    pub _padding: [u8; 7],
    pub lb_pair: Pubkey,
    pub bins: [Bin; 70],
}

impl Record for BinArray {
    open spec fn spec_size() -> nat {
        10128
    }

    open spec fn spec_discriminator() -> Seq<u8> {
        seq![92u8, 142u8, 92u8, 220u8, 5u8, 148u8, 70u8, 181u8]
    }

    open spec fn body(self) -> Seq<u8> {
        spec_i64_to_le_bytes(self.index) + seq![self.version] + self._padding@ + self.lb_pair@
            + bins_bytes(self.bins@)
    }

    proof fn lemma_discriminator_len() {
    }

    proof fn lemma_body_len(self) {
        lemma_i64_le_bytes();
        lemma_bins_bytes_len(self.bins@);
    }

    proof fn lemma_body_injective(self, other: Self) {
        lemma_i64_le_bytes();
        lemma_bins_bytes_len(self.bins@);
        lemma_bins_bytes_len(other.bins@);
        let b = self.body();
        assert(spec_i64_to_le_bytes(self.index) =~= b.subrange(0, 8));
        assert(spec_i64_to_le_bytes(other.index) =~= b.subrange(0, 8));
        assert(self.index == spec_i64_from_le_bytes(spec_i64_to_le_bytes(self.index)));
        assert(other.index == spec_i64_from_le_bytes(spec_i64_to_le_bytes(other.index)));
        assert(self.version == b[8] && other.version == b[8]);
        assert(self._padding@ =~= b.subrange(9, 16));
        assert(other._padding@ =~= b.subrange(9, 16));
        assert(self._padding =~= other._padding);
        assert(self.lb_pair@ =~= b.subrange(16, 48));
        assert(other.lb_pair@ =~= b.subrange(16, 48));
        assert(self.lb_pair =~= other.lb_pair);
        assert(bins_bytes(self.bins@) =~= b.subrange(48, 10128));
        assert(bins_bytes(other.bins@) =~= b.subrange(48, 10128));
        lemma_bins_bytes_injective(self.bins@, other.bins@);
        assert(self.bins =~= other.bins);
        assert(self =~= other);
    }

    fn size() -> (n: usize) {
        10128
    }

    fn discriminator() -> (d: [u8; 8]) {
        let d: [u8; 8] = [92, 142, 92, 220, 5, 148, 70, 181];
        proof {
            assert(d@ =~= Self::spec_discriminator());
        }
        d
    }

    fn read_body(bytes: &[u8]) -> (r: Self) {
        let index = get_i64(bytes, 0);
        let version = get_u8(bytes, 8);
        let padding = get_bytes7(bytes, 9);
        let lb_pair = get_bytes32(bytes, 16);
        let mut bins: [Bin; 70] = [Bin { data: [0u8; 144] }; 70];
        let mut i: usize = 0;
        while i < 70
            invariant
                i <= 70,
                bytes@.len() == 10128,
                forall|j: int|
                    0 <= j < i ==> bins@[j].data@ == #[trigger] bytes@.subrange(
                        48 + 144 * j,
                        48 + 144 * j + 144,
                    ),
            decreases 70 - i,
        {
            let d = get_bytes144(bytes, 48 + 144 * i);
            bins[i] = Bin { data: d };
            i = i + 1;
        }
        let r = BinArray { index, version, _padding: padding, lb_pair, bins };
        proof {
            lemma_i64_le_bytes();
            let tail = bytes@.subrange(48, 10128);
            assert forall|j: int| 0 <= j < 70 implies r.bins@[j].data@ == #[trigger] tail.subrange(
                144 * j,
                144 * j + 144,
            ) by {
                assert(tail.subrange(144 * j, 144 * j + 144) =~= bytes@.subrange(
                    48 + 144 * j,
                    48 + 144 * j + 144,
                ));
            };
            lemma_bins_bytes_of_slices(r.bins@, tail);
            assert(r.body() =~= bytes@);
        }
        r
    }

    fn write_body(&self, out: &mut Vec<u8>) {
        put_i64(out, self.index);
        put_u8(out, self.version);
        put_bytes(out, self._padding.as_slice());
        put_bytes(out, self.lb_pair.as_slice());
        let ghost pre = out@;
        let mut i: usize = 0;
        while i < 70
            invariant
                i <= 70,
                out@ == pre + bins_bytes(self.bins@.take(i as int)),
            decreases 70 - i,
        {
            put_bytes(out, self.bins[i].data.as_slice());
            proof {
                let t = self.bins@.take(i as int + 1);
                assert(t.drop_last() =~= self.bins@.take(i as int));
                assert(t.last() == self.bins@[i as int]);
                assert(pre + bins_bytes(self.bins@.take(i as int)) + self.bins@[i as int].data@
                    =~= pre + bins_bytes(t));
            }
            i = i + 1;
        }
        proof {
            lemma_i64_le_bytes();
            assert(self.bins@.take(70) =~= self.bins@);
            assert(out@ =~= old(out)@ + self.body());
        }
    }
}

/// A decoded bin-array account: the record behind its discriminator tag.
#[derive(Clone, Debug)]
pub struct BinArrayAccount(pub BinArray);

impl BinArrayAccount {
    /// Unchecked fast-path decode: skips the 8-byte discriminator prefix and
    /// reinterprets the next 10128 bytes. Performs no bounds check beyond its
    /// precondition and never inspects the discriminator.
    pub fn deserialize(buf: &[u8]) -> (acc: Self)
        requires
            buf@.len() >= 8 + BinArray::spec_size(),
        ensures
            acc.0.body() == buf@.subrange(8, 8 + BinArray::spec_size() as int),
    {
        BinArrayAccount(read_unchecked(buf))
    }

    /// Checked decode: reports `BufferTooShort` on a buffer under
    /// `8 + 10128` bytes instead of demanding a precondition.
    pub fn deserialize_checked(buf: &[u8]) -> (r: Result<Self, CodecError>)
        ensures
            buf@.len() >= 8 + BinArray::spec_size() ==> (r matches Ok(acc) && acc.0.body()
                == buf@.subrange(8, 8 + BinArray::spec_size() as int)),
            buf@.len() < 8 + BinArray::spec_size() ==> (r matches Err(e) && e
                == CodecError::BufferTooShort),
    {
        match read_checked::<BinArray>(buf) {
            Ok(rec) => Ok(BinArrayAccount(rec)),
            Err(e) => Err(e),
        }
    }

    /// Explicit discriminator verification for this kind.
    pub fn verify_discriminator(buf: &[u8]) -> (r: Result<(), CodecError>)
        ensures
            r is Ok <==> buf@.len() >= 8 && buf@.subrange(0, 8)
                == BinArray::spec_discriminator(),
            buf@.len() < 8 ==> (r matches Err(e) && e == CodecError::BufferTooShort),
            buf@.len() >= 8 && buf@.subrange(0, 8) != BinArray::spec_discriminator() ==> (
            r matches Err(e) && e == CodecError::DiscriminatorMismatch),
    {
        crate::record::verify_discriminator::<BinArray>(buf)
    }

    /// Serializes the account as discriminator tag plus body bytes. Never
    /// fails for the in-memory sink.
    pub fn try_to_vec(&self) -> (out: Vec<u8>)
        ensures
            out@ == BinArray::spec_discriminator() + self.0.body(),
            out@.len() == 8 + BinArray::spec_size(),
    {
        to_vec(&self.0)
    }
}

} // verus!
