use account_codec::{
    Bin, BinArray, BinArrayAccount, BinArrayBitmapExtension, BinArrayBitmapExtensionAccount,
    CodecError, LbPair, LbPairAccount, ProtocolFee, RewardInfo, StaticParameters,
    VariableParameters, BIN_ARRAY_ACCOUNT_DISCM, BIN_ARRAY_BITMAP_EXTENSION_ACCOUNT_DISCM,
    LB_PAIR_ACCOUNT_DISCM,
};

fn sample_bin_array() -> BinArray {
    let mut bins = [Bin { data: [0u8; 144] }; 70];
    for (i, bin) in bins.iter_mut().enumerate() {
        for (j, b) in bin.data.iter_mut().enumerate() {
            *b = (i as u8).wrapping_mul(3).wrapping_add(j as u8);
        }
    }
    BinArray {
        index: -123456789,
        version: 2,
        _padding: [1, 2, 3, 4, 5, 6, 7],
        lb_pair: [0x5A; 32],
        bins,
    }
}

fn sample_bitmap_extension() -> BinArrayBitmapExtension {
    let mut positive = [[0u64; 8]; 12];
    let mut negative = [[0u64; 8]; 12];
    for r in 0..12 {
        for k in 0..8 {
            positive[r][k] = (r as u64) << 32 | (k as u64) | 0x0102_0304_0000_0000;
            negative[r][k] = u64::MAX - (r as u64 * 8 + k as u64);
        }
    }
    BinArrayBitmapExtension {
        lb_pair: [0xC3; 32],
        positive_bin_array_bitmap: positive,
        negative_bin_array_bitmap: negative,
    }
}

fn sample_lb_pair() -> LbPair {
    let mut parameters = [0u8; 32];
    let mut v_parameters = [0u8; 32];
    for i in 0..32 {
        parameters[i] = i as u8;
        v_parameters[i] = 0xF0 - i as u8;
    }
    let mut reward_0 = [0u8; 144];
    let mut reward_1 = [0u8; 144];
    for i in 0..144 {
        reward_0[i] = i as u8;
        reward_1[i] = 0xFF - i as u8;
    }
    let mut bitmap = [0u64; 16];
    for (i, w) in bitmap.iter_mut().enumerate() {
        *w = 0x8000_0000_0000_0001u64.rotate_left(i as u32);
    }
    LbPair {
        parameters: StaticParameters { data: parameters },
        v_parameters: VariableParameters { data: v_parameters },
        bump_seed: [254],
        bin_step_seed: [0x34, 0x12],
        pair_type: 1,
        active_id: -417,
        bin_step: 25,
        status: 0,
        require_base_factor_seed: 1,
        base_factor_seed: [0xAA, 0x55],
        activation_type: 2,
        creator_pool_on_off_control: 1,
        token_x_mint: [0x11; 32],
        token_y_mint: [0x22; 32],
        reserve_x: [0x33; 32],
        reserve_y: [0x44; 32],
        protocol_fee: ProtocolFee { data: [0x66; 16] },
        _padding_1: [0x77; 32],
        reward_infos: [RewardInfo { data: reward_0 }, RewardInfo { data: reward_1 }],
        oracle: [0x88; 32],
        bin_array_bitmap: bitmap,
        last_updated_at: -1_700_000_000,
        _padding_2: [0x99; 32],
        pre_activation_swap_address: [0xAB; 32],
        base_key: [0xCD; 32],
        activation_point: 987654321,
        pre_activation_duration: 86400,
        _padding_3: [9, 8, 7, 6, 5, 4, 3, 2],
        _padding_4: 0xDEAD_BEEF_0BAD_F00D,
        creator: [0xEF; 32],
        token_mint_x_program_flag: 1,
        token_mint_y_program_flag: 0,
        _reserved: [0x42; 22],
    }
}

#[test]
fn bin_array_round_trip() {
    let rec = sample_bin_array();
    let acc = BinArrayAccount(rec);
    let bytes = acc.try_to_vec();
    assert_eq!(bytes.len(), 8 + 10128);
    let back = BinArrayAccount::deserialize(&bytes);
    assert_eq!(back.0, rec);
    assert_eq!(back.try_to_vec(), bytes);
}

#[test]
fn bitmap_extension_round_trip() {
    let rec = sample_bitmap_extension();
    let acc = BinArrayBitmapExtensionAccount(rec);
    let bytes = acc.try_to_vec();
    assert_eq!(bytes.len(), 8 + 1568);
    let back = BinArrayBitmapExtensionAccount::deserialize(&bytes);
    assert_eq!(back.0, rec);
    assert_eq!(back.try_to_vec(), bytes);
}

#[test]
fn lb_pair_round_trip() {
    let rec = sample_lb_pair();
    let acc = LbPairAccount(rec);
    let bytes = acc.try_to_vec();
    assert_eq!(bytes.len(), 904);
    assert_eq!(bytes.len(), LbPairAccount::LEN);
    let back = LbPairAccount::deserialize(&bytes);
    assert_eq!(back.0, rec);
    assert_eq!(back.try_to_vec(), bytes);
}

#[test]
fn sizes_match_declared_field_widths() {
    // Sum of declared field widths, explicit padding included, per kind.
    let bitmap_ext_body = 32 + 12 * 8 * 8 + 12 * 8 * 8;
    let bin_array_body = 8 + 1 + 7 + 32 + 70 * 144;
    let lb_pair_body = 32 + 32 + 1 + 2 + 1 + 4 + 2 + 1 + 1 + 2 + 1 + 1  // parameters section
        + 32 + 32 + 32 + 32 + 16 + 32                                   // vaults section
        + 2 * 144 + 32 + 16 * 8                                         // rewards section
        + 8 + 32 + 32 + 32 + 8 + 8 + 8 + 8                              // activation section
        + 32 + 1 + 1 + 22;                                              // creator section
    let ext = BinArrayBitmapExtensionAccount(sample_bitmap_extension()).try_to_vec();
    assert_eq!(ext.len(), 8 + bitmap_ext_body);
    let arr = BinArrayAccount(sample_bin_array()).try_to_vec();
    assert_eq!(arr.len(), 8 + bin_array_body);
    let pair = LbPairAccount(sample_lb_pair()).try_to_vec();
    assert_eq!(pair.len(), 8 + lb_pair_body);
    assert_eq!(8 + lb_pair_body, 904);
}

#[test]
fn discriminators_are_unique_and_prefix_encodings() {
    assert_ne!(
        BIN_ARRAY_BITMAP_EXTENSION_ACCOUNT_DISCM,
        BIN_ARRAY_ACCOUNT_DISCM
    );
    assert_ne!(BIN_ARRAY_BITMAP_EXTENSION_ACCOUNT_DISCM, LB_PAIR_ACCOUNT_DISCM);
    assert_ne!(BIN_ARRAY_ACCOUNT_DISCM, LB_PAIR_ACCOUNT_DISCM);
    let ext = BinArrayBitmapExtensionAccount(sample_bitmap_extension()).try_to_vec();
    assert_eq!(&ext[..8], &BIN_ARRAY_BITMAP_EXTENSION_ACCOUNT_DISCM);
    let arr = BinArrayAccount(sample_bin_array()).try_to_vec();
    assert_eq!(&arr[..8], &BIN_ARRAY_ACCOUNT_DISCM);
    let pair = LbPairAccount(sample_lb_pair()).try_to_vec();
    assert_eq!(&pair[..8], &LB_PAIR_ACCOUNT_DISCM);
}

#[test]
fn boundary_exact_length_succeeds() {
    let bytes = BinArrayAccount(sample_bin_array()).try_to_vec();
    assert_eq!(bytes.len(), 8 + 10128);
    let r = BinArrayAccount::deserialize_checked(&bytes);
    assert!(r.is_ok());
    assert_eq!(r.unwrap().0, sample_bin_array());
    let pair_bytes = LbPairAccount(sample_lb_pair()).try_to_vec();
    let r = LbPairAccount::deserialize_checked(&pair_bytes);
    assert!(r.is_ok());
}

#[test]
fn boundary_one_byte_short_reports_buffer_too_short() {
    let mut bytes = BinArrayAccount(sample_bin_array()).try_to_vec();
    bytes.pop();
    let r = BinArrayAccount::deserialize_checked(&bytes);
    assert_eq!(r.unwrap_err(), CodecError::BufferTooShort);
    let mut pair_bytes = LbPairAccount(sample_lb_pair()).try_to_vec();
    pair_bytes.pop();
    let r = LbPairAccount::deserialize_checked(&pair_bytes);
    assert_eq!(r.unwrap_err(), CodecError::BufferTooShort);
    let r = BinArrayBitmapExtensionAccount::deserialize_checked(&[]);
    assert_eq!(r.unwrap_err(), CodecError::BufferTooShort);
}

#[test]
fn longer_buffer_decodes_the_same_record() {
    let rec = sample_bitmap_extension();
    let mut bytes = BinArrayBitmapExtensionAccount(rec).try_to_vec();
    bytes.extend_from_slice(&[0xEE; 9]);
    let back = BinArrayBitmapExtensionAccount::deserialize(&bytes);
    assert_eq!(back.0, rec);
}

#[test]
fn bin_array_scenario() {
    // Exact wire image: tag, index -5, version 1, 7 zero padding bytes, an
    // all-0xAB identifier, and 70 zeroed bins.
    let mut buf = Vec::new();
    buf.extend_from_slice(&[92, 142, 92, 220, 5, 148, 70, 181]);
    buf.extend_from_slice(&(-5i64).to_le_bytes());
    buf.push(1);
    buf.extend_from_slice(&[0u8; 7]);
    buf.extend_from_slice(&[0xAB; 32]);
    buf.extend_from_slice(&[0u8; 70 * 144]);
    assert_eq!(buf.len(), 8 + 10128);
    let acc = BinArrayAccount::deserialize(&buf);
    assert_eq!(acc.0.index, -5);
    assert_eq!(acc.0.version, 1);
    assert_eq!(acc.0._padding, [0u8; 7]);
    assert_eq!(acc.0.lb_pair, [0xAB; 32]);
    for bin in acc.0.bins.iter() {
        assert_eq!(bin.data, [0u8; 144]);
    }
    assert_eq!(acc.try_to_vec(), buf);
}

#[test]
fn lb_pair_scenario_904_bytes() {
    let rec = sample_lb_pair();
    let bytes = LbPairAccount(rec).try_to_vec();
    assert_eq!(bytes.len(), 904);
    let back = LbPairAccount::deserialize(&bytes);
    assert_eq!(back.0.parameters, rec.parameters);
    assert_eq!(back.0.v_parameters, rec.v_parameters);
    assert_eq!(back.0.active_id, -417);
    assert_eq!(back.0.bin_step, 25);
    assert_eq!(back.0.reward_infos[0], rec.reward_infos[0]);
    assert_eq!(back.0.reward_infos[1], rec.reward_infos[1]);
    assert_eq!(back.0.bin_array_bitmap, rec.bin_array_bitmap);
    assert_eq!(back.0.last_updated_at, -1_700_000_000);
    assert_eq!(back.0._padding_1, rec._padding_1);
    assert_eq!(back.0._padding_2, rec._padding_2);
    assert_eq!(back.0._padding_3, rec._padding_3);
    assert_eq!(back.0._padding_4, rec._padding_4);
    assert_eq!(back.0._reserved, rec._reserved);
    assert_eq!(back.0, rec);
}

#[test]
fn mismatched_discriminator_still_decodes_unchecked() {
    let rec = sample_bin_array();
    let mut bytes = BinArrayAccount(rec).try_to_vec();
    // Overwrite the tag with the pool-state tag: the fast path ignores it.
    bytes[..8].copy_from_slice(&LB_PAIR_ACCOUNT_DISCM);
    let back = BinArrayAccount::deserialize(&bytes);
    assert_eq!(back.0, rec);
    // The explicit verification step reports the mismatch.
    let r = BinArrayAccount::verify_discriminator(&bytes);
    assert_eq!(r.unwrap_err(), CodecError::DiscriminatorMismatch);
}

#[test]
fn verify_discriminator_accepts_matching_prefix() {
    let bytes = BinArrayAccount(sample_bin_array()).try_to_vec();
    assert!(BinArrayAccount::verify_discriminator(&bytes).is_ok());
    let ext = BinArrayBitmapExtensionAccount(sample_bitmap_extension()).try_to_vec();
    assert!(BinArrayBitmapExtensionAccount::verify_discriminator(&ext).is_ok());
    assert_eq!(
        BinArrayAccount::verify_discriminator(&ext).unwrap_err(),
        CodecError::DiscriminatorMismatch
    );
    let pair = LbPairAccount(sample_lb_pair()).try_to_vec();
    assert!(LbPairAccount::verify_discriminator(&pair).is_ok());
}

#[test]
fn verify_discriminator_short_buffer() {
    let r = BinArrayAccount::verify_discriminator(&[92, 142, 92]);
    assert_eq!(r.unwrap_err(), CodecError::BufferTooShort);
}

#[test]
fn padding_bytes_are_kept_verbatim() {
    let mut rec = sample_bin_array();
    rec._padding = [0xA1, 0xB2, 0xC3, 0xD4, 0xE5, 0xF6, 0x07];
    let bytes = BinArrayAccount(rec).try_to_vec();
    assert_eq!(&bytes[8 + 9..8 + 16], &[0xA1, 0xB2, 0xC3, 0xD4, 0xE5, 0xF6, 0x07]);
    let back = BinArrayAccount::deserialize(&bytes);
    assert_eq!(back.0._padding, rec._padding);
}

#[test]
fn little_endian_field_layout() {
    let rec = sample_lb_pair();
    let bytes = LbPairAccount(rec).try_to_vec();
    // active_id at body offset 68, little endian two's complement.
    let mut active = [0u8; 4];
    active.copy_from_slice(&bytes[8 + 68..8 + 72]);
    assert_eq!(i32::from_le_bytes(active), -417);
    // bin_step at body offset 72.
    let mut step = [0u8; 2];
    step.copy_from_slice(&bytes[8 + 72..8 + 74]);
    assert_eq!(u16::from_le_bytes(step), 25);
    // activation_point at body offset 808.
    let mut point = [0u8; 8];
    point.copy_from_slice(&bytes[8 + 808..8 + 816]);
    assert_eq!(u64::from_le_bytes(point), 987654321);
}

#[test]
fn generic_read_unchecked_matches_methods() {
    let rec = sample_bin_array();
    let bytes = BinArrayAccount(rec).try_to_vec();
    let direct: BinArray = account_codec::read_unchecked(&bytes);
    assert_eq!(direct, rec);
}

#[test]
fn read_verified_checks_length_then_tag() {
    let rec = sample_bitmap_extension();
    let mut bytes = BinArrayBitmapExtensionAccount(rec).try_to_vec();
    let ok: Result<BinArrayBitmapExtension, CodecError> =
        account_codec::record::read_verified(&bytes);
    assert_eq!(ok.unwrap(), rec);
    // Wrong tag on a full-length buffer: the tag is reported.
    bytes[..8].copy_from_slice(&BIN_ARRAY_ACCOUNT_DISCM);
    let r: Result<BinArrayBitmapExtension, CodecError> =
        account_codec::record::read_verified(&bytes);
    assert_eq!(r.unwrap_err(), CodecError::DiscriminatorMismatch);
    // Short buffer, even with a wrong tag: the length is reported first.
    let r: Result<BinArrayBitmapExtension, CodecError> =
        account_codec::record::read_verified(&bytes[..100]);
    assert_eq!(r.unwrap_err(), CodecError::BufferTooShort);
}
