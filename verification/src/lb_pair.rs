//! The pool-state record kind: nested fixed-size parameter blocks, several
//! 32-byte identifiers, scalar fields, explicit padding regions, and two
//! reward-info blocks — 896 body bytes, 904 with the discriminator tag.

use vstd::prelude::*;

verus! {

use vstd::bytes::{
    lemma_auto_spec_u16_to_from_le_bytes, lemma_auto_spec_u64_to_from_le_bytes,
    spec_u16_from_le_bytes, spec_u16_to_le_bytes, spec_u64_from_le_bytes, spec_u64_to_le_bytes,
};
use crate::record::{read_checked, read_unchecked, to_vec, CodecError, Record};
use crate::wire::{
    get_bytes1, get_bytes144, get_bytes16, get_bytes2, get_bytes22, get_bytes32, get_bytes8,
    get_i32, get_i64, get_u16, get_u64, get_u8, lemma_i32_le_bytes, lemma_i64_le_bytes,
    lemma_words_le_bytes_injective, lemma_words_le_bytes_len, lemma_words_le_bytes_of_slices,
    put_bytes, put_i32, put_i64, put_u16, put_u64, put_u8, spec_i32_from_le_bytes,
    spec_i32_to_le_bytes, spec_i64_from_le_bytes, spec_i64_to_le_bytes, words_le_bytes, Pubkey,
};

/// Discriminator tag of the pool-state record kind.
pub const LB_PAIR_ACCOUNT_DISCM: [u8; 8] = [33, 11, 49, 98, 181, 101, 177, 13];

/// The pool's static parameter block. Its internals are defined by the
/// external program and are opaque to this codec: a fixed 32-byte block.
#[verifier::ext_equal]
#[derive(Clone, Copy, Debug, PartialEq, Eq)]
pub struct StaticParameters {
    pub data: [u8; 32],
}

/// The pool's variable parameter block, carried as a fixed 32-byte block.
#[verifier::ext_equal]
#[derive(Clone, Copy, Debug, PartialEq, Eq)]
pub struct VariableParameters {
    pub data: [u8; 32],
}

/// The accrued protocol fee block, carried as a fixed 16-byte block.
#[verifier::ext_equal]
#[derive(Clone, Copy, Debug, PartialEq, Eq)]
pub struct ProtocolFee {
    pub data: [u8; 16],
}

/// One reward-info block, carried as a fixed 144-byte block.
#[verifier::ext_equal]
#[derive(Clone, Copy, Debug, PartialEq, Eq)]
pub struct RewardInfo {
    pub data: [u8; 144],
}

/// A pool-state record body of exactly 896 bytes; every padding region is an
/// explicit field written verbatim.
#[verifier::ext_equal]
#[derive(Clone, Copy, Debug, PartialEq, Eq)]
pub struct LbPair {
    pub parameters: StaticParameters,
    pub v_parameters: VariableParameters,
    pub bump_seed: [u8; 1],
    pub bin_step_seed: [u8; 2],
    pub pair_type: u8,
    pub active_id: i32,
    pub bin_step: u16,
    pub status: u8,
    pub require_base_factor_seed: u8,
    pub base_factor_seed: [u8; 2],
    pub activation_type: u8,
    pub creator_pool_on_off_control: u8,
    pub token_x_mint: Pubkey,
    pub token_y_mint: Pubkey,
    pub reserve_x: Pubkey,
    pub reserve_y: Pubkey,
    pub protocol_fee: ProtocolFee,
    pub _padding_1: [u8; 32],
    pub reward_infos: [RewardInfo; 2],
    pub oracle: Pubkey,
    pub bin_array_bitmap: [u64; 16],
    pub last_updated_at: i64,
    pub _padding_2: [u8; 32],
    pub pre_activation_swap_address: Pubkey,
    pub base_key: Pubkey,
    pub activation_point: u64,
    pub pre_activation_duration: u64,
    pub _padding_3: [u8; 8],
    pub _padding_4: u64,
    pub creator: Pubkey,
    pub token_mint_x_program_flag: u8,
    pub token_mint_y_program_flag: u8,
    pub _reserved: [u8; 22],
}

impl LbPair {
    /// Bytes 0..80 of the body: the parameter blocks and the scalar pair
    /// configuration fields.
    pub open spec fn params_bytes(self) -> Seq<u8> {
        self.parameters.data@ + self.v_parameters.data@ + self.bump_seed@ + self.bin_step_seed@
            + seq![self.pair_type] + spec_i32_to_le_bytes(self.active_id) + spec_u16_to_le_bytes(
            self.bin_step,
        ) + seq![self.status] + seq![self.require_base_factor_seed] + self.base_factor_seed@
            + seq![self.activation_type] + seq![self.creator_pool_on_off_control]
    }

    /// Bytes 80..256 of the body: the mint and reserve identifiers, the
    /// protocol fee block, and the first padding region.
    pub open spec fn vault_bytes(self) -> Seq<u8> {
        self.token_x_mint@ + self.token_y_mint@ + self.reserve_x@ + self.reserve_y@
            + self.protocol_fee.data@ + self._padding_1@
    }

    /// Bytes 256..704 of the body: the two reward-info blocks, the oracle
    /// identifier, and the 16-word bitmap.
    pub open spec fn reward_bytes(self) -> Seq<u8> {
        self.reward_infos@[0].data@ + self.reward_infos@[1].data@ + self.oracle@ + words_le_bytes(
            self.bin_array_bitmap@,
        )
    }

    /// Bytes 704..840 of the body: the activation fields and their padding.
    pub open spec fn activation_bytes(self) -> Seq<u8> {
        spec_i64_to_le_bytes(self.last_updated_at) + self._padding_2@
            + self.pre_activation_swap_address@ + self.base_key@ + spec_u64_to_le_bytes(
            self.activation_point,
        ) + spec_u64_to_le_bytes(self.pre_activation_duration) + self._padding_3@
            + spec_u64_to_le_bytes(self._padding_4)
    }

    /// Bytes 840..896 of the body: the creator, the token program flags, and
    /// the reserved tail.
    pub open spec fn creator_bytes(self) -> Seq<u8> {
        self.creator@ + seq![self.token_mint_x_program_flag]
            + seq![self.token_mint_y_program_flag] + self._reserved@
    }

    proof fn lemma_sections_len(self)
        ensures
            self.params_bytes().len() == 80,
            self.vault_bytes().len() == 176,
            self.reward_bytes().len() == 448,
            self.activation_bytes().len() == 136,
            self.creator_bytes().len() == 56,
    {
        lemma_i32_le_bytes();
        lemma_i64_le_bytes();
        lemma_auto_spec_u16_to_from_le_bytes();
        lemma_auto_spec_u64_to_from_le_bytes();
        lemma_words_le_bytes_len(self.bin_array_bitmap@);
    }
}

impl Record for LbPair {
    open spec fn spec_size() -> nat {
        896
    }

    open spec fn spec_discriminator() -> Seq<u8> {
        seq![33u8, 11u8, 49u8, 98u8, 181u8, 101u8, 177u8, 13u8]
    }

    open spec fn body(self) -> Seq<u8> {
        self.params_bytes() + self.vault_bytes() + self.reward_bytes() + self.activation_bytes()
            + self.creator_bytes()
    }

    proof fn lemma_discriminator_len() {
    }

    proof fn lemma_body_len(self) {
        self.lemma_sections_len();
    }

    proof fn lemma_body_injective(self, other: Self) {
        lemma_i32_le_bytes();
        lemma_i64_le_bytes();
        lemma_auto_spec_u16_to_from_le_bytes();
        lemma_auto_spec_u64_to_from_le_bytes();
        self.lemma_sections_len();
        other.lemma_sections_len();
        let b = self.body();
        assert(self.params_bytes() =~= b.subrange(0, 80));
        assert(other.params_bytes() =~= b.subrange(0, 80));
        assert(self.vault_bytes() =~= b.subrange(80, 256));
        assert(other.vault_bytes() =~= b.subrange(80, 256));
        assert(self.reward_bytes() =~= b.subrange(256, 704));
        assert(other.reward_bytes() =~= b.subrange(256, 704));
        assert(self.activation_bytes() =~= b.subrange(704, 840));
        assert(other.activation_bytes() =~= b.subrange(704, 840));
        assert(self.creator_bytes() =~= b.subrange(840, 896));
        assert(other.creator_bytes() =~= b.subrange(840, 896));
        let s1 = b.subrange(0, 80);
        assert(self.parameters.data@ =~= s1.subrange(0, 32));
        assert(other.parameters.data@ =~= s1.subrange(0, 32));
        assert(self.parameters =~= other.parameters);
        assert(self.v_parameters.data@ =~= s1.subrange(32, 64));
        assert(other.v_parameters.data@ =~= s1.subrange(32, 64));
        assert(self.v_parameters =~= other.v_parameters);
        assert(self.bump_seed@ =~= s1.subrange(64, 65));
        assert(other.bump_seed@ =~= s1.subrange(64, 65));
        assert(self.bump_seed =~= other.bump_seed);
        assert(self.bin_step_seed@ =~= s1.subrange(65, 67));
        assert(other.bin_step_seed@ =~= s1.subrange(65, 67));
        assert(self.bin_step_seed =~= other.bin_step_seed);
        assert(self.pair_type == s1[67] && other.pair_type == s1[67]);
        assert(spec_i32_to_le_bytes(self.active_id) =~= s1.subrange(68, 72));
        assert(spec_i32_to_le_bytes(other.active_id) =~= s1.subrange(68, 72));
        assert(self.active_id == spec_i32_from_le_bytes(spec_i32_to_le_bytes(self.active_id)));
        assert(other.active_id == spec_i32_from_le_bytes(spec_i32_to_le_bytes(other.active_id)));
        assert(spec_u16_to_le_bytes(self.bin_step) =~= s1.subrange(72, 74));
        assert(spec_u16_to_le_bytes(other.bin_step) =~= s1.subrange(72, 74));
        assert(self.bin_step == spec_u16_from_le_bytes(spec_u16_to_le_bytes(self.bin_step)));
        assert(other.bin_step == spec_u16_from_le_bytes(spec_u16_to_le_bytes(other.bin_step)));
        assert(self.status == s1[74] && other.status == s1[74]);
        assert(self.require_base_factor_seed == s1[75] && other.require_base_factor_seed
            == s1[75]);
        assert(self.base_factor_seed@ =~= s1.subrange(76, 78));
        assert(other.base_factor_seed@ =~= s1.subrange(76, 78));
        assert(self.base_factor_seed =~= other.base_factor_seed);
        assert(self.activation_type == s1[78] && other.activation_type == s1[78]);
        assert(self.creator_pool_on_off_control == s1[79] && other.creator_pool_on_off_control
            == s1[79]);
        let s2 = b.subrange(80, 256);
        assert(self.token_x_mint@ =~= s2.subrange(0, 32));
        assert(other.token_x_mint@ =~= s2.subrange(0, 32));
        assert(self.token_x_mint =~= other.token_x_mint);
        assert(self.token_y_mint@ =~= s2.subrange(32, 64));
        assert(other.token_y_mint@ =~= s2.subrange(32, 64));
        assert(self.token_y_mint =~= other.token_y_mint);
        assert(self.reserve_x@ =~= s2.subrange(64, 96));
        assert(other.reserve_x@ =~= s2.subrange(64, 96));
        assert(self.reserve_x =~= other.reserve_x);
        assert(self.reserve_y@ =~= s2.subrange(96, 128));
        assert(other.reserve_y@ =~= s2.subrange(96, 128));
        assert(self.reserve_y =~= other.reserve_y);
        assert(self.protocol_fee.data@ =~= s2.subrange(128, 144));
        assert(other.protocol_fee.data@ =~= s2.subrange(128, 144));
        assert(self.protocol_fee =~= other.protocol_fee);
        assert(self._padding_1@ =~= s2.subrange(144, 176));
        assert(other._padding_1@ =~= s2.subrange(144, 176));
        assert(self._padding_1 =~= other._padding_1);
        let s3 = b.subrange(256, 704);
        assert(self.reward_infos@[0].data@ =~= s3.subrange(0, 144));
        assert(other.reward_infos@[0].data@ =~= s3.subrange(0, 144));
        assert(self.reward_infos@[0] =~= other.reward_infos@[0]);
        assert(self.reward_infos@[1].data@ =~= s3.subrange(144, 288));
        assert(other.reward_infos@[1].data@ =~= s3.subrange(144, 288));
        assert(self.reward_infos@[1] =~= other.reward_infos@[1]);
        assert(self.reward_infos =~= other.reward_infos);
        assert(self.oracle@ =~= s3.subrange(288, 320));
        assert(other.oracle@ =~= s3.subrange(288, 320));
        assert(self.oracle =~= other.oracle);
        lemma_words_le_bytes_len(self.bin_array_bitmap@);
        lemma_words_le_bytes_len(other.bin_array_bitmap@);
        assert(words_le_bytes(self.bin_array_bitmap@) =~= s3.subrange(320, 448));
        assert(words_le_bytes(other.bin_array_bitmap@) =~= s3.subrange(320, 448));
        lemma_words_le_bytes_injective(self.bin_array_bitmap@, other.bin_array_bitmap@);
        assert(self.bin_array_bitmap =~= other.bin_array_bitmap);
        let s4 = b.subrange(704, 840);
        assert(spec_i64_to_le_bytes(self.last_updated_at) =~= s4.subrange(0, 8));
        assert(spec_i64_to_le_bytes(other.last_updated_at) =~= s4.subrange(0, 8));
        assert(self.last_updated_at == spec_i64_from_le_bytes(
            spec_i64_to_le_bytes(self.last_updated_at),
        ));
        assert(other.last_updated_at == spec_i64_from_le_bytes(
            spec_i64_to_le_bytes(other.last_updated_at),
        ));
        assert(self._padding_2@ =~= s4.subrange(8, 40));
        assert(other._padding_2@ =~= s4.subrange(8, 40));
        assert(self._padding_2 =~= other._padding_2);
        assert(self.pre_activation_swap_address@ =~= s4.subrange(40, 72));
        assert(other.pre_activation_swap_address@ =~= s4.subrange(40, 72));
        assert(self.pre_activation_swap_address =~= other.pre_activation_swap_address);
        assert(self.base_key@ =~= s4.subrange(72, 104));
        assert(other.base_key@ =~= s4.subrange(72, 104));
        assert(self.base_key =~= other.base_key);
        assert(spec_u64_to_le_bytes(self.activation_point) =~= s4.subrange(104, 112));
        assert(spec_u64_to_le_bytes(other.activation_point) =~= s4.subrange(104, 112));
        assert(self.activation_point == spec_u64_from_le_bytes(
            spec_u64_to_le_bytes(self.activation_point),
        ));
        assert(other.activation_point == spec_u64_from_le_bytes(
            spec_u64_to_le_bytes(other.activation_point),
        ));
        assert(spec_u64_to_le_bytes(self.pre_activation_duration) =~= s4.subrange(112, 120));
        assert(spec_u64_to_le_bytes(other.pre_activation_duration) =~= s4.subrange(112, 120));
        assert(self.pre_activation_duration == spec_u64_from_le_bytes(
            spec_u64_to_le_bytes(self.pre_activation_duration),
        ));
        assert(other.pre_activation_duration == spec_u64_from_le_bytes(
            spec_u64_to_le_bytes(other.pre_activation_duration),
        ));
        assert(self._padding_3@ =~= s4.subrange(120, 128));
        assert(other._padding_3@ =~= s4.subrange(120, 128));
        assert(self._padding_3 =~= other._padding_3);
        assert(spec_u64_to_le_bytes(self._padding_4) =~= s4.subrange(128, 136));
        assert(spec_u64_to_le_bytes(other._padding_4) =~= s4.subrange(128, 136));
        assert(self._padding_4 == spec_u64_from_le_bytes(spec_u64_to_le_bytes(self._padding_4)));
        assert(other._padding_4 == spec_u64_from_le_bytes(spec_u64_to_le_bytes(other._padding_4)));
        let s5 = b.subrange(840, 896);
        assert(self.creator@ =~= s5.subrange(0, 32));
        assert(other.creator@ =~= s5.subrange(0, 32));
        assert(self.creator =~= other.creator);
        assert(self.token_mint_x_program_flag == s5[32] && other.token_mint_x_program_flag
            == s5[32]);
        assert(self.token_mint_y_program_flag == s5[33] && other.token_mint_y_program_flag
            == s5[33]);
        assert(self._reserved@ =~= s5.subrange(34, 56));
        assert(other._reserved@ =~= s5.subrange(34, 56));
        assert(self._reserved =~= other._reserved);
        assert(self =~= other);
    }

    fn size() -> (n: usize) {
        896
    }

    fn discriminator() -> (d: [u8; 8]) {
        let d: [u8; 8] = [33, 11, 49, 98, 181, 101, 177, 13];
        proof {
            assert(d@ =~= Self::spec_discriminator());
        }
        d
    }

    fn read_body(bytes: &[u8]) -> (r: Self) {
        let len = bytes.len();
        let parameters = StaticParameters { data: get_bytes32(bytes, 0) };
        let v_parameters = VariableParameters { data: get_bytes32(bytes, 32) };
        let bump_seed = get_bytes1(bytes, 64);
        let bin_step_seed = get_bytes2(bytes, 65);
        let pair_type = get_u8(bytes, 67);
        let active_id = get_i32(bytes, 68);
        let bin_step = get_u16(bytes, 72);
        let status = get_u8(bytes, 74);
        let require_base_factor_seed = get_u8(bytes, 75);
        let base_factor_seed = get_bytes2(bytes, 76);
        let activation_type = get_u8(bytes, 78);
        let creator_pool_on_off_control = get_u8(bytes, 79);
        let token_x_mint = get_bytes32(bytes, 80);
        let token_y_mint = get_bytes32(bytes, 112);
        let reserve_x = get_bytes32(bytes, 144);
        let reserve_y = get_bytes32(bytes, 176);
        let protocol_fee = ProtocolFee { data: get_bytes16(bytes, 208) };
        let padding_1 = get_bytes32(bytes, 224);
        let reward_0 = RewardInfo { data: get_bytes144(bytes, 256) };
        let reward_1 = RewardInfo { data: get_bytes144(bytes, 400) };
        let oracle = get_bytes32(bytes, 544);
        let mut bitmap: [u64; 16] = [0u64; 16];
        let mut i: usize = 0;
        while i < 16
            invariant
                i <= 16,
                bytes@.len() == 896,
                forall|j: int|
                    0 <= j < i ==> bitmap@[j] == spec_u64_from_le_bytes(
                        #[trigger] bytes@.subrange(576 + 8 * j, 576 + 8 * j + 8),
                    ),
            decreases 16 - i,
        {
            bitmap[i] = get_u64(bytes, 576 + 8 * i);
            i = i + 1;
        }
        let last_updated_at = get_i64(bytes, 704);
        let padding_2 = get_bytes32(bytes, 712);
        let pre_activation_swap_address = get_bytes32(bytes, 744);
        let base_key = get_bytes32(bytes, 776);
        let activation_point = get_u64(bytes, 808);
        let pre_activation_duration = get_u64(bytes, 816);
        let padding_3 = get_bytes8(bytes, 824);
        let padding_4 = get_u64(bytes, 832);
        let creator = get_bytes32(bytes, 840);
        let token_mint_x_program_flag = get_u8(bytes, 872);
        let token_mint_y_program_flag = get_u8(bytes, 873);
        let reserved = get_bytes22(bytes, 874);
        let r = LbPair {
            parameters,
            v_parameters,
            bump_seed,
            bin_step_seed,
            pair_type,
            active_id,
            bin_step,
            status,
            require_base_factor_seed,
            base_factor_seed,
            activation_type,
            creator_pool_on_off_control,
            token_x_mint,
            token_y_mint,
            reserve_x,
            reserve_y,
            protocol_fee,
            _padding_1: padding_1,
            reward_infos: [reward_0, reward_1],
            oracle,
            bin_array_bitmap: bitmap,
            last_updated_at,
            _padding_2: padding_2,
            pre_activation_swap_address,
            base_key,
            activation_point,
            pre_activation_duration,
            _padding_3: padding_3,
            _padding_4: padding_4,
            creator,
            token_mint_x_program_flag,
            token_mint_y_program_flag,
            _reserved: reserved,
        };
        proof {
            lemma_i32_le_bytes();
            lemma_i64_le_bytes();
            lemma_auto_spec_u16_to_from_le_bytes();
            lemma_auto_spec_u64_to_from_le_bytes();
            let wsub = bytes@.subrange(576, 704);
            assert forall|j: int| 0 <= j < 16 implies r.bin_array_bitmap@[j]
                == spec_u64_from_le_bytes(#[trigger] wsub.subrange(8 * j, 8 * j + 8)) by {
                assert(wsub.subrange(8 * j, 8 * j + 8) =~= bytes@.subrange(
                    576 + 8 * j,
                    576 + 8 * j + 8,
                ));
            };
            lemma_words_le_bytes_of_slices(r.bin_array_bitmap@, wsub);
            assert(r.params_bytes() =~= bytes@.subrange(0, 80));
            assert(r.vault_bytes() =~= bytes@.subrange(80, 256));
            assert(r.reward_bytes() =~= bytes@.subrange(256, 704));
            assert(r.activation_bytes() =~= bytes@.subrange(704, 840));
            assert(r.creator_bytes() =~= bytes@.subrange(840, 896));
            r.lemma_sections_len();
            assert(r.body() =~= bytes@);
        }
        r
    }

    fn write_body(&self, out: &mut Vec<u8>) {
        let ghost c0 = out@;
        put_bytes(out, self.parameters.data.as_slice());
        put_bytes(out, self.v_parameters.data.as_slice());
        put_bytes(out, self.bump_seed.as_slice());
        put_bytes(out, self.bin_step_seed.as_slice());
        put_u8(out, self.pair_type);
        put_i32(out, self.active_id);
        put_u16(out, self.bin_step);
        put_u8(out, self.status);
        put_u8(out, self.require_base_factor_seed);
        put_bytes(out, self.base_factor_seed.as_slice());
        put_u8(out, self.activation_type);
        put_u8(out, self.creator_pool_on_off_control);
        proof {
            assert(out@ =~= c0 + self.params_bytes());
        }
        let ghost c1 = out@;
        put_bytes(out, self.token_x_mint.as_slice());
        put_bytes(out, self.token_y_mint.as_slice());
        put_bytes(out, self.reserve_x.as_slice());
        put_bytes(out, self.reserve_y.as_slice());
        put_bytes(out, self.protocol_fee.data.as_slice());
        put_bytes(out, self._padding_1.as_slice());
        proof {
            assert(out@ =~= c1 + self.vault_bytes());
        }
        let ghost c2 = out@;
        put_bytes(out, self.reward_infos[0].data.as_slice());
        put_bytes(out, self.reward_infos[1].data.as_slice());
        put_bytes(out, self.oracle.as_slice());
        let ghost wpre = out@;
        let mut i: usize = 0;
        while i < 16
            invariant
                i <= 16,
                out@ == wpre + words_le_bytes(self.bin_array_bitmap@.take(i as int)),
            decreases 16 - i,
        {
            put_u64(out, self.bin_array_bitmap[i]);
            proof {
                let t = self.bin_array_bitmap@.take(i as int + 1);
                assert(t.drop_last() =~= self.bin_array_bitmap@.take(i as int));
                assert(t.last() == self.bin_array_bitmap@[i as int]);
                assert(wpre + words_le_bytes(self.bin_array_bitmap@.take(i as int))
                    + spec_u64_to_le_bytes(self.bin_array_bitmap@[i as int]) =~= wpre
                    + words_le_bytes(t));
            }
            i = i + 1;
        }
        proof {
            assert(self.bin_array_bitmap@.take(16) =~= self.bin_array_bitmap@);
            assert(out@ =~= c2 + self.reward_bytes());
        }
        let ghost c3 = out@;
        put_i64(out, self.last_updated_at);
        put_bytes(out, self._padding_2.as_slice());
        put_bytes(out, self.pre_activation_swap_address.as_slice());
        put_bytes(out, self.base_key.as_slice());
        put_u64(out, self.activation_point);
        put_u64(out, self.pre_activation_duration);
        put_bytes(out, self._padding_3.as_slice());
        put_u64(out, self._padding_4);
        proof {
            assert(out@ =~= c3 + self.activation_bytes());
        }
        let ghost c4 = out@;
        put_bytes(out, self.creator.as_slice());
        put_u8(out, self.token_mint_x_program_flag);
        put_u8(out, self.token_mint_y_program_flag);
        put_bytes(out, self._reserved.as_slice());
        proof {
            assert(out@ =~= c4 + self.creator_bytes());
            assert(out@ =~= old(out)@ + self.body());
        }
    }
}

/// A decoded pool-state account: the record behind its discriminator tag.
#[derive(Clone, Debug)]
pub struct LbPairAccount(pub LbPair);

impl LbPairAccount {
    /// Total serialized length of a pool-state account: the 8-byte
    /// discriminator tag plus the 896-byte body.
    pub const LEN: usize = 904;

    /// Unchecked fast-path decode: skips the 8-byte discriminator prefix and
    /// reinterprets the next 896 bytes. Performs no bounds check beyond its
    /// precondition and never inspects the discriminator.
    pub fn deserialize(buf: &[u8]) -> (acc: Self)
        requires
            buf@.len() >= 8 + LbPair::spec_size(),
        ensures
            acc.0.body() == buf@.subrange(8, 8 + LbPair::spec_size() as int),
    {
        LbPairAccount(read_unchecked(buf))
    }

    /// Checked decode: reports `BufferTooShort` on a buffer under 904 bytes
    /// instead of demanding a precondition.
    pub fn deserialize_checked(buf: &[u8]) -> (r: Result<Self, CodecError>)
        ensures
            buf@.len() >= 8 + LbPair::spec_size() ==> (r matches Ok(acc) && acc.0.body()
                == buf@.subrange(8, 8 + LbPair::spec_size() as int)),
            buf@.len() < 8 + LbPair::spec_size() ==> (r matches Err(e) && e
                == CodecError::BufferTooShort),
    {
        match read_checked::<LbPair>(buf) {
            Ok(rec) => Ok(LbPairAccount(rec)),
            Err(e) => Err(e),
        }
    }

    /// Explicit discriminator verification for this kind.
    pub fn verify_discriminator(buf: &[u8]) -> (r: Result<(), CodecError>)
        ensures
            r is Ok <==> buf@.len() >= 8 && buf@.subrange(0, 8) == LbPair::spec_discriminator(),
            buf@.len() < 8 ==> (r matches Err(e) && e == CodecError::BufferTooShort),
            buf@.len() >= 8 && buf@.subrange(0, 8) != LbPair::spec_discriminator() ==> (
            r matches Err(e) && e == CodecError::DiscriminatorMismatch),
    {
        crate::record::verify_discriminator::<LbPair>(buf)
    }

    /// Serializes the account as discriminator tag plus body bytes: exactly
    /// 904 bytes. Never fails for the in-memory sink.
    pub fn try_to_vec(&self) -> (out: Vec<u8>)
        ensures
            out@ == LbPair::spec_discriminator() + self.0.body(),
            out@.len() == 904,
    {
        to_vec(&self.0)
    }
}

} // verus!
