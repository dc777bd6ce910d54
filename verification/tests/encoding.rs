use anchor_lang::solana_program::{hash, system_program, sysvar};
use anchor_lang::AnchorSerialize;
use nft_candy_machine_v2::accounts::METADATA_PROGRAM;
use nft_candy_machine_v2::codec::{
    i64_bytes, read_u32, read_u64, u16_bytes, u32_bytes, u64_bytes,
};
use nft_candy_machine_v2::instruction::{RENT_SYSVAR, SYSTEM_PROGRAM, TOKEN_PROGRAM};
use nft_candy_machine_v2::layout::{
    MAX_CREATOR_LEN, MAX_CREATOR_LIMIT, MAX_NAME_LENGTH, MAX_SYMBOL_LENGTH, MAX_URI_LENGTH,
};
use nft_candy_machine_v2::state::DISCRIMINATOR;
use nft_candy_machine_v2::utils::ASSOCIATED_TOKEN_PROGRAM;
use nft_candy_machine_v2::{
    get_config_count, get_space_for_candy, CandyMachine, CandyMachineData, Creator, EndSettings,
    HiddenSetting, Pubkey, WhitelistMintMode, WhitelistMintSettings, CONFIG_ARRAY_START,
    CONFIG_LINE_SIZE,
};

fn key(n: u8) -> Pubkey {
    Pubkey { bytes: [n; 32] }
}

fn small_data() -> CandyMachineData {
    CandyMachineData {
        uuid: "abcdef".to_string(),
        price: 1_000_000_007,
        symbol: "SYM".to_string(),
        seller_fee_basis_points: 515,
        max_supply: 3,
        is_mutable: true,
        retain_authority: false,
        use_captcha: true,
        go_live_date: None,
        end_settings: None,
        creators: vec![],
        hidden_setting: None,
        whitelist_mint_settings: None,
        items_available: 10,
    }
}

fn large_data() -> CandyMachineData {
    CandyMachineData {
        go_live_date: Some(-2),
        end_settings: Some(EndSettings::Date(1_700_000_000)),
        creators: vec![
            Creator { address: key(5), verified: false, share: 60 },
            Creator { address: key(6), verified: true, share: 40 },
        ],
        hidden_setting: Some(HiddenSetting {
            name: "Hidden é".to_string(),
            uri: "https://example.org/x".to_string(),
            hash: [7; 32],
        }),
        whitelist_mint_settings: Some(WhitelistMintSettings {
            mode: WhitelistMintMode::NeverBurn,
            mint: key(9),
            presale: true,
            discount_price: Some(5),
        }),
        items_available: u64::MAX,
        ..small_data()
    }
}

#[test]
fn limits_are_those_of_token_metadata() {
    assert_eq!(MAX_NAME_LENGTH, metaplex_token_metadata::state::MAX_NAME_LENGTH);
    assert_eq!(MAX_SYMBOL_LENGTH, metaplex_token_metadata::state::MAX_SYMBOL_LENGTH);
    assert_eq!(MAX_URI_LENGTH, metaplex_token_metadata::state::MAX_URI_LENGTH);
    assert_eq!(MAX_CREATOR_LIMIT, metaplex_token_metadata::state::MAX_CREATOR_LIMIT);
    assert_eq!(MAX_CREATOR_LEN, metaplex_token_metadata::state::MAX_CREATOR_LEN);
}

#[test]
fn addresses_are_those_of_the_programs() {
    assert_eq!(TOKEN_PROGRAM, spl_token::id().to_bytes());
    assert_eq!(SYSTEM_PROGRAM, system_program::ID.to_bytes());
    assert_eq!(RENT_SYSVAR, sysvar::rent::ID.to_bytes());
    assert_eq!(METADATA_PROGRAM, metaplex_token_metadata::id().to_bytes());
    assert_eq!(ASSOCIATED_TOKEN_PROGRAM, anchor_spl::associated_token::ID.to_bytes());
}

#[test]
fn discriminator_is_a_hash_of_the_account_name() {
    let digest = hash::hash(b"account:CandyMachine").to_bytes();
    assert_eq!(DISCRIMINATOR, digest[..8]);
}

#[test]
fn sizes_of_the_account() {
    assert_eq!(CONFIG_ARRAY_START, 681);
    assert_eq!(CONFIG_LINE_SIZE, 240);
}

#[test]
fn integers_are_little_endian() {
    assert_eq!(u16_bytes(0x0102), vec![2, 1]);
    assert_eq!(u32_bytes(0x01020304), vec![4, 3, 2, 1]);
    assert_eq!(u64_bytes(0x0102030405060708), vec![8, 7, 6, 5, 4, 3, 2, 1]);
    assert_eq!(i64_bytes(-2), (-2i64).to_le_bytes().to_vec());
    assert_eq!(i64_bytes(i64::MIN), i64::MIN.to_le_bytes().to_vec());
    assert_eq!(i64_bytes(i64::MAX), i64::MAX.to_le_bytes().to_vec());
    let bytes = [9, 8, 7, 6, 5, 4, 3, 2, 1];
    assert_eq!(read_u32(&bytes, 1), u32::from_le_bytes([8, 7, 6, 5]));
    assert_eq!(read_u64(&bytes, 1), u64::from_le_bytes([8, 7, 6, 5, 4, 3, 2, 1]));
}

#[test]
fn settings_without_options_are_encoded_as_borsh_does() {
    let none: Option<u64> = None;
    let expected = (
        ("abcdef".to_string(), 1_000_000_007u64, "SYM".to_string(), 515u16, 3u64),
        (true, false, true),
        (none, none, 0u32, none, none, 10u64),
    )
        .try_to_vec()
        .unwrap();
    assert_eq!(small_data().to_bytes(), expected);
    assert_eq!(expected.len(), 54);
}

#[test]
fn settings_with_options_are_encoded_as_borsh_does() {
    let expected = (
        ("abcdef".to_string(), 1_000_000_007u64, "SYM".to_string(), 515u16, 3u64),
        (true, false, true),
        (Some(-2i64), Some((0u8, 1_700_000_000i64))),
        vec![([5u8; 32], false, 60u8), ([6u8; 32], true, 40u8)],
        Some(("Hidden é".to_string(), "https://example.org/x".to_string(), [7u8; 32])),
        Some((1u8, [9u8; 32], true, Some(5u64))),
        u64::MAX,
    )
        .try_to_vec()
        .unwrap();
    assert_eq!(large_data().to_bytes(), expected);
}

#[test]
fn end_amount_and_burn_mode_are_encoded_as_borsh_does() {
    let mut data = small_data();
    data.end_settings = Some(EndSettings::Amount(77));
    data.whitelist_mint_settings = Some(WhitelistMintSettings {
        mode: WhitelistMintMode::BurnEveryTime,
        mint: key(3),
        presale: false,
        discount_price: None,
    });
    let none: Option<u64> = None;
    let expected = (
        ("abcdef".to_string(), 1_000_000_007u64, "SYM".to_string(), 515u16, 3u64),
        (true, false, true),
        (none, Some((1u8, 77u64)), 0u32, none),
        Some((0u8, [3u8; 32], false, none)),
        10u64,
    )
        .try_to_vec()
        .unwrap();
    assert_eq!(data.to_bytes(), expected);
}

#[test]
fn head_of_the_account_is_discriminator_and_state() {
    let machine = CandyMachine {
        authority: key(1),
        wallet: key(2),
        token_mint: Some(key(3)),
        items_redeemed: 4,
        data: small_data(),
    };
    let mut expected = DISCRIMINATOR.to_vec();
    expected.extend(([1u8; 32], [2u8; 32], Some([3u8; 32]), 4u64).try_to_vec().unwrap());
    expected.extend(small_data().to_bytes());
    assert_eq!(machine.to_account_bytes(), expected);
    let other = CandyMachine { token_mint: None, ..machine };
    assert_eq!(other.to_account_bytes().len(), expected.len() - 32);
}

#[test]
fn distinct_machines_are_stored_as_distinct_bytes() {
    let machine = CandyMachine {
        authority: key(1),
        wallet: key(2),
        token_mint: None,
        items_redeemed: 0,
        data: large_data(),
    };
    let mut other = machine.clone();
    other.data.uuid = "abcde".to_string();
    assert_ne!(machine.to_account_bytes(), other.to_account_bytes());
    let mut other = machine.clone();
    other.data.creators[1].share = 41;
    assert_ne!(machine.to_account_bytes(), other.to_account_bytes());
    let mut other = machine.clone();
    other.data.hidden_setting = None;
    assert_ne!(machine.to_account_bytes(), other.to_account_bytes());
}

#[test]
fn largest_head_fits_in_the_bytes_set_aside() {
    let mut data = large_data();
    data.symbol = "0123456789".to_string();
    data.creators = vec![Creator { address: key(5), verified: false, share: 20 }; 5];
    data.hidden_setting = Some(HiddenSetting {
        name: "n".repeat(32),
        uri: "u".repeat(200),
        hash: [0; 32],
    });
    let machine = CandyMachine {
        authority: key(1),
        wallet: key(2),
        token_mint: Some(key(3)),
        items_redeemed: 0,
        data,
    };
    assert_eq!(machine.to_account_bytes().len(), 676);
}

#[test]
fn default_hidden_setting_is_empty() {
    let hidden = HiddenSetting::default();
    assert_eq!(hidden.name, "");
    assert_eq!(hidden.uri, "");
    assert_eq!(hidden.hash, [0u8; 32]);
}

#[test]
fn space_counts_a_bit_for_every_line() {
    let mut data = small_data();
    assert_eq!(get_space_for_candy(&data), Ok(681 + 4 + 10 * 240 + 4 + 2));
    data.items_available = 8;
    assert_eq!(get_space_for_candy(&data), Ok(681 + 4 + 8 * 240 + 4 + 1));
    data.items_available = 0;
    assert_eq!(get_space_for_candy(&data), Ok(689));
    assert_eq!(get_space_for_candy(&large_data()), Ok(681));
}

#[test]
fn count_is_read_behind_the_head() {
    let mut data = vec![255u8; 700];
    data[681..685].copy_from_slice(&[1, 2, 0, 0]);
    assert_eq!(get_config_count(&data), Ok(513));
}
