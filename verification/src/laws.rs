//! Laws that relate the codec's record kinds to one another.

use vstd::prelude::*;

verus! {

use crate::bin_array::{BinArray, BIN_ARRAY_ACCOUNT_DISCM};
use crate::bitmap_ext::{BinArrayBitmapExtension, BIN_ARRAY_BITMAP_EXTENSION_ACCOUNT_DISCM};
use crate::lb_pair::{LbPair, LB_PAIR_ACCOUNT_DISCM};
use crate::record::Record;

/// Discriminator uniqueness: no two distinct record kinds known to this codec
/// share an 8-byte discriminator tag, so a verified tag identifies its kind.
pub proof fn lemma_discriminators_unique()
    ensures
        BinArrayBitmapExtension::spec_discriminator() != BinArray::spec_discriminator(),
        BinArrayBitmapExtension::spec_discriminator() != LbPair::spec_discriminator(),
        BinArray::spec_discriminator() != LbPair::spec_discriminator(),
{
    assert(BinArrayBitmapExtension::spec_discriminator()[0] == 80);
    assert(BinArray::spec_discriminator()[0] == 92);
    assert(LbPair::spec_discriminator()[0] == 33);
}

/// The public discriminator constants are exactly the kinds' tags.
pub proof fn lemma_discriminator_constants()
    ensures
        BIN_ARRAY_BITMAP_EXTENSION_ACCOUNT_DISCM@
            == BinArrayBitmapExtension::spec_discriminator(),
        BIN_ARRAY_ACCOUNT_DISCM@ == BinArray::spec_discriminator(),
        LB_PAIR_ACCOUNT_DISCM@ == LbPair::spec_discriminator(),
{
    assert(BIN_ARRAY_BITMAP_EXTENSION_ACCOUNT_DISCM@
        =~= BinArrayBitmapExtension::spec_discriminator());
    assert(BIN_ARRAY_ACCOUNT_DISCM@ =~= BinArray::spec_discriminator());
    assert(LB_PAIR_ACCOUNT_DISCM@ =~= LbPair::spec_discriminator());
}

} // verus!
