//! The record model: a record kind is a fixed-layout value type tagged by an
//! 8-byte discriminator, and its serialized form is the discriminator followed
//! by exactly `spec_size()` body bytes.

use vstd::prelude::*;

verus! {

use vstd::slice::slice_subrange;
use crate::wire::{get_bytes8, put_bytes};

/// Errors reported by the checked codec entry points. The unchecked fast path
/// reports nothing: its length precondition is the caller's responsibility.
#[derive(Clone, Copy, Debug, PartialEq, Eq, Structural)]
pub enum CodecError {
    /// The buffer is shorter than the 8-byte discriminator plus the kind's
    /// fixed body size.
    BufferTooShort,
    /// The buffer's leading 8 bytes differ from the kind's discriminator.
    DiscriminatorMismatch,
}

/// A fixed-layout record kind.
///
/// `body(self)` is the exact byte image of a value's body: every field in
/// declared order, integers little endian, explicit padding included verbatim.
/// The serialized form of a value is `spec_discriminator() + body(self)`.
pub trait Record: Sized {
    /// Exact byte length of a record body (the discriminator excluded).
    spec fn spec_size() -> nat;

    /// The kind's 8-byte discriminator tag.
    spec fn spec_discriminator() -> Seq<u8>;

    /// The exact byte image of this record's body.
    spec fn body(self) -> Seq<u8>;

    /// The discriminator is 8 bytes long.
    proof fn lemma_discriminator_len()
        ensures
            Self::spec_discriminator().len() == 8,
    ;

    /// The body is exactly `spec_size()` bytes: the field widths, explicit
    /// padding included, sum to the declared size.
    proof fn lemma_body_len(self)
        ensures
            self.body().len() == Self::spec_size(),
    ;

    /// Two records with the same body bytes are the same record.
    proof fn lemma_body_injective(self, other: Self)
        requires
            self.body() == other.body(),
        ensures
            self == other,
    ;

    /// The kind's fixed body size.
    exec fn size() -> (n: usize)
        ensures
            n == Self::spec_size(),
    ;

    /// The kind's discriminator tag as owned bytes.
    exec fn discriminator() -> (d: [u8; 8])
        ensures
            d@ == Self::spec_discriminator(),
    ;

    /// Reinterprets exactly `spec_size()` body bytes as a record.
    exec fn read_body(bytes: &[u8]) -> (r: Self)
        requires
            bytes@.len() == Self::spec_size(),
        ensures
            r.body() == bytes@,
    ;

    /// Appends this record's body bytes to `out`.
    exec fn write_body(&self, out: &mut Vec<u8>)
        ensures
            final(out)@ == old(out)@ + self.body(),
    ;
}

/// Unchecked fast-path decode: skips the 8-byte discriminator prefix and
/// reinterprets the following `spec_size()` bytes as a record of kind `T`.
/// It checks neither bounds (the length precondition is the caller's
/// responsibility) nor the discriminator (callers wanting that guarantee run
/// [`verify_discriminator`] or use [`read_verified`]). The returned record is
/// an owned copy, independent of the buffer.
pub fn read_unchecked<T: Record>(buf: &[u8]) -> (r: T)
    requires
        buf@.len() >= 8 + T::spec_size(),
    ensures
        r.body() == buf@.subrange(8, 8 + T::spec_size() as int),
{
    let len = buf.len();
    let size = T::size();
    T::read_body(slice_subrange(buf, 8, 8 + size))
}

/// Checked decode: like [`read_unchecked`], but reports `BufferTooShort`
/// instead of demanding a length precondition. Succeeds on every buffer of at
/// least `8 + spec_size()` bytes; the discriminator is still not inspected.
pub fn read_checked<T: Record>(buf: &[u8]) -> (r: Result<T, CodecError>)
    ensures
        buf@.len() >= 8 + T::spec_size() ==> (r matches Ok(t) && t.body() == buf@.subrange(
            8,
            8 + T::spec_size() as int,
        )),
        buf@.len() < 8 + T::spec_size() ==> (r matches Err(e) && e == CodecError::BufferTooShort),
{
    let size = T::size();
    if buf.len() < 8 || buf.len() - 8 < size {
        Err(CodecError::BufferTooShort)
    } else {
        Ok(read_unchecked(buf))
    }
}

/// Explicit discriminator verification: succeeds exactly when the buffer holds
/// at least 8 bytes and they equal kind `T`'s discriminator tag. A mismatch is
/// reported as a value, never checked silently by the decode paths.
pub fn verify_discriminator<T: Record>(buf: &[u8]) -> (r: Result<(), CodecError>)
    ensures
        r is Ok <==> buf@.len() >= 8 && buf@.subrange(0, 8) == T::spec_discriminator(),
        buf@.len() < 8 ==> (r matches Err(e) && e == CodecError::BufferTooShort),
        buf@.len() >= 8 && buf@.subrange(0, 8) != T::spec_discriminator() ==> (r matches Err(e)
            && e == CodecError::DiscriminatorMismatch),
{
    proof {
        T::lemma_discriminator_len();
    }
    if buf.len() < 8 {
        return Err(CodecError::BufferTooShort);
    }
    let expected = T::discriminator();
    let prefix = get_bytes8(buf, 0);
    let mut i: usize = 0;
    while i < 8
        invariant
            i <= 8,
            buf@.len() >= 8,
            prefix@ == buf@.subrange(0, 8),
            expected@ == T::spec_discriminator(),
            forall|j: int| 0 <= j < i ==> prefix@[j] == expected@[j],
        decreases 8 - i,
    {
        if prefix[i] != expected[i] {
            proof {
                assert(buf@.subrange(0, 8)[i as int] != T::spec_discriminator()[i as int]);
            }
            return Err(CodecError::DiscriminatorMismatch);
        }
        i = i + 1;
    }
    proof {
        assert(buf@.subrange(0, 8) =~= T::spec_discriminator());
    }
    Ok(())
}

/// Checked and tagged decode: verifies the length, then the discriminator,
/// then decodes. Succeeds exactly on buffers of at least `8 + spec_size()`
/// bytes whose leading 8 bytes equal kind `T`'s discriminator.
pub fn read_verified<T: Record>(buf: &[u8]) -> (r: Result<T, CodecError>)
    ensures
        buf@.len() < 8 + T::spec_size() ==> (r matches Err(e) && e == CodecError::BufferTooShort),
        buf@.len() >= 8 + T::spec_size() && buf@.subrange(0, 8) != T::spec_discriminator()
            ==> (r matches Err(e) && e == CodecError::DiscriminatorMismatch),
        buf@.len() >= 8 + T::spec_size() && buf@.subrange(0, 8) == T::spec_discriminator()
            ==> (r matches Ok(t) && t.body() == buf@.subrange(8, 8 + T::spec_size() as int)),
{
    let size = T::size();
    if buf.len() < 8 || buf.len() - 8 < size {
        return Err(CodecError::BufferTooShort);
    }
    match verify_discriminator::<T>(buf) {
        Ok(_) => Ok(read_unchecked(buf)),
        Err(e) => Err(e),
    }
}

/// Serializes a record into owned bytes: the kind's 8-byte discriminator tag,
/// then exactly `spec_size()` body bytes, field by field in declared order
/// with padding bytes written verbatim. Never fails for an in-memory sink.
pub fn to_vec<T: Record>(r: &T) -> (out: Vec<u8>)
    ensures
        out@ == T::spec_discriminator() + r.body(),
        out@.len() == 8 + T::spec_size(),
{
    proof {
        T::lemma_discriminator_len();
        r.lemma_body_len();
    }
    let mut out: Vec<u8> = Vec::new();
    let d = T::discriminator();
    put_bytes(&mut out, d.as_slice());
    r.write_body(&mut out);
    proof {
        assert(Seq::<u8>::empty() + T::spec_discriminator() =~= T::spec_discriminator());
    }
    out
}

/// Round trip: a record decoded from the serialized form of `r` is `r` itself.
/// `decoded`'s body is what any decode path returns on a buffer that begins
/// with `spec_discriminator() + r.body()`, so decoding an encoding (with or
/// without the discriminator check) reproduces the original record exactly,
/// padding bytes included.
pub proof fn lemma_round_trip<T: Record>(r: T, decoded: T)
    requires
        decoded.body() == (T::spec_discriminator() + r.body()).subrange(
            8,
            8 + T::spec_size() as int,
        ),
    ensures
        decoded == r,
{
    T::lemma_discriminator_len();
    r.lemma_body_len();
    assert((T::spec_discriminator() + r.body()).subrange(8, 8 + T::spec_size() as int)
        =~= r.body());
    decoded.lemma_body_injective(r);
}

} // verus!
