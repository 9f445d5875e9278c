//! A binary account codec: fixed-layout records, each stored as an 8-byte
//! discriminator tag followed by a fixed-size body, are decoded from raw byte
//! buffers into typed values and encoded back to the exact same byte layout.
//!
//! Every record kind implements [`record::Record`], which fixes the kind's
//! discriminator tag, its body size, and the exact byte image of a value's
//! body: fields in declared order, integers little endian, every padding
//! region an explicit field written verbatim. Decoding pins the returned
//! value down completely — its body bytes equal the buffer's body bytes, and
//! two records with equal bodies are equal — so decoding an encoding returns
//! the original record ([`record::lemma_round_trip`]).

pub mod bin_array;
pub mod bitmap_ext;
pub mod laws;
pub mod lb_pair;
pub mod record;
pub mod wire;

pub use bin_array::{Bin, BinArray, BinArrayAccount, BIN_ARRAY_ACCOUNT_DISCM};
pub use bitmap_ext::{
    BinArrayBitmapExtension, BinArrayBitmapExtensionAccount,
    BIN_ARRAY_BITMAP_EXTENSION_ACCOUNT_DISCM,
};
pub use lb_pair::{
    LbPair, LbPairAccount, ProtocolFee, RewardInfo, StaticParameters, VariableParameters,
    LB_PAIR_ACCOUNT_DISCM,
};
pub use record::{read_unchecked, CodecError, Record};
pub use wire::Pubkey;
