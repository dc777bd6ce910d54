use anchor_lang::solana_program::instruction::Instruction as SolanaInstruction;
use anchor_lang::solana_program::program_option::COption;
use anchor_lang::solana_program::program_pack::Pack;
use anchor_lang::solana_program::pubkey::Pubkey as SolanaKey;
use anchor_lang::solana_program::system_instruction;
use metaplex_token_metadata::instruction as metadata_instruction;
use metaplex_token_metadata::state::Creator as MetadataCreator;
use nft_candy_machine_v2::accounts::METADATA_PROGRAM;
use nft_candy_machine_v2::mint::{
    can_step, derive_addresses, mint_step, DerivedAddresses, MintAccount, MintStep,
};
use nft_candy_machine_v2::utils::{
    get_associated_token_address, AccountSnapshot, TokenBurnParams, TokenTransferParams,
};
use nft_candy_machine_v2::{
    add_config_lines, get_config_count, get_space_for_candy, mint_nft, try_mint_nft, AccountRef,
    AddConfigLines, CandyMachine, CandyMachineData, ConfigLine, Constraint, Creator, EndSettings,
    ErrorCode, HiddenSetting, MintNFT, MintStage, ProgramError, Pubkey, WhitelistMintMode,
    WhitelistMintSettings,
};
use spl_token::instruction as token_instruction;
use spl_token::state::{Account, AccountState};

const NOW: i64 = 1000;

fn key(n: u8) -> Pubkey {
    Pubkey { bytes: [n; 32] }
}

fn solana(k: Pubkey) -> SolanaKey {
    SolanaKey::new_from_array(k.bytes)
}

fn token_program() -> Pubkey {
    Pubkey { bytes: spl_token::id().to_bytes() }
}

fn program_id() -> Pubkey {
    key(50)
}

fn creator_and_bump() -> (Pubkey, u8) {
    let seeds: &[&[u8]] = &[b"candy_machine", &[40u8; 32]];
    let (address, bump) = SolanaKey::find_program_address(seeds, &solana(program_id()));
    (Pubkey { bytes: address.to_bytes() }, bump)
}

fn bump() -> u8 {
    creator_and_bump().1
}

fn settings() -> CandyMachineData {
    CandyMachineData {
        uuid: "abcdef".to_string(),
        price: 700,
        symbol: "SYM\0\0\0\0\0\0\0".to_string(),
        seller_fee_basis_points: 500,
        max_supply: 4,
        is_mutable: false,
        retain_authority: true,
        use_captcha: false,
        go_live_date: Some(NOW),
        end_settings: None,
        creators: vec![
            Creator { address: key(7), verified: true, share: 60 },
            Creator { address: key(8), verified: false, share: 40 },
        ],
        hidden_setting: None,
        whitelist_mint_settings: None,
        items_available: 4,
    }
}

fn account(n: u8) -> AccountRef {
    AccountRef { key: key(n), is_writable: true }
}

fn accounts() -> MintNFT {
    MintNFT {
        candy_machine: CandyMachine {
            authority: key(1),
            wallet: key(2),
            token_mint: None,
            items_redeemed: 0,
            data: settings(),
        },
        candy_machine_account: account(40),
        candy_machine_creator: creator_and_bump().0,
        payer: key(3),
        payer_lamports: 700,
        wallet: account(2),
        metadata: account(41),
        mint: account(42),
        mint_authority: key(43),
        update_authority: key(44),
        master_edition: account(45),
        token_metadata_program: Pubkey { bytes: METADATA_PROGRAM },
        token_program: token_program(),
        unix_timestamp: NOW,
        recent_blockhashes: vec![hash_of(6), hash_of(1)],
    }
}

fn hash_of(number: u64) -> [u8; 32] {
    let mut hash = [0xaau8; 32];
    hash[..8].copy_from_slice(&number.to_le_bytes());
    hash
}

fn line(n: usize) -> ConfigLine {
    ConfigLine { name: format!("Item {}", n), uri: format!("https://example.org/{}", n) }
}

fn filled() -> Vec<u8> {
    let machine = accounts().candy_machine;
    let mut data = vec![0u8; get_space_for_candy(&machine.data).unwrap()];
    let add = AddConfigLines {
        candy_machine: machine,
        candy_machine_is_writable: true,
        authority: key(1),
    };
    let lines: Vec<ConfigLine> = (0..4).map(line).collect();
    assert_eq!(add_config_lines(&add, &mut data, 0, &lines), Ok(()));
    data
}

fn padded(s: &str, len: usize) -> String {
    format!("{}{}", s, "\0".repeat(len - s.len()))
}

fn token_account(k: Pubkey, mint: Pubkey, amount: u64) -> AccountSnapshot {
    let account = Account {
        mint: solana(mint),
        owner: solana(key(2)),
        amount,
        delegate: COption::None,
        state: AccountState::Initialized,
        is_native: COption::None,
        delegated_amount: 0,
        close_authority: COption::None,
    };
    let mut data = vec![0u8; Account::LEN];
    Account::pack(account, &mut data).unwrap();
    AccountSnapshot { key: k, owner: token_program(), data }
}

fn associated(mint: Pubkey, amount: u64) -> AccountSnapshot {
    token_account(get_associated_token_address(key(2), mint).unwrap(), mint, amount)
}

fn other(n: u8) -> AccountSnapshot {
    AccountSnapshot { key: key(n), owner: key(0), data: vec![] }
}

fn whitelist(mode: WhitelistMintMode, presale: bool, discount_price: Option<u64>) -> MintNFT {
    let mut a = accounts();
    a.candy_machine.data.whitelist_mint_settings =
        Some(WhitelistMintSettings { mode, mint: key(20), presale, discount_price });
    a
}

fn begin(
    a: &mut MintNFT,
    remaining: &Vec<AccountSnapshot>,
) -> Result<Option<MintStep>, ProgramError> {
    let mut data = filled();
    mint_nft(a, MintStage::Begin, Ok(()), remaining, &mut data, bump(), program_id())
}

fn refused(mut a: MintNFT, remaining: Vec<AccountSnapshot>) -> ProgramError {
    begin(&mut a, &remaining).err().unwrap()
}

fn candy(e: ErrorCode) -> ProgramError {
    ProgramError::Candy(e)
}

fn assert_same(step: &MintStep, expected: SolanaInstruction) {
    let ix = &step.invocation.instruction;
    assert_eq!(ix.program_id.bytes, expected.program_id.to_bytes());
    assert_eq!(ix.data, expected.data);
    let ours: Vec<([u8; 32], bool, bool)> =
        ix.accounts.iter().map(|m| (m.pubkey.bytes, m.is_signer, m.is_writable)).collect();
    let theirs: Vec<([u8; 32], bool, bool)> = expected
        .accounts
        .iter()
        .map(|m| (m.pubkey.to_bytes(), m.is_signer, m.is_writable))
        .collect();
    assert_eq!(ours, theirs);
}

#[test]
fn price_in_lamports_goes_to_the_wallet() {
    let mut a = accounts();
    let step = begin(&mut a, &vec![]).unwrap().unwrap();
    assert_same(&step, system_instruction::transfer(&solana(key(3)), &solana(key(2)), 700));
    assert_eq!(
        step.invocation.accounts,
        vec![MintAccount::Payer, MintAccount::Wallet, MintAccount::SystemProgram]
    );
    assert!(step.invocation.signer_seeds.is_none());
    assert_eq!(step.stage, MintStage::Issue);
    assert_eq!(a.candy_machine.items_redeemed, 0);
}

#[test]
fn payer_must_have_the_price() {
    let mut a = accounts();
    a.payer_lamports = 699;
    assert_eq!(refused(a, vec![]), candy(ErrorCode::NotEnoughSOL));
}

#[test]
fn conditions_on_the_accounts_are_tested() {
    let mut cases = vec![];
    let mut a = accounts();
    a.candy_machine_account.is_writable = false;
    cases.push((a, Constraint::Mut));
    let mut a = accounts();
    a.wallet.key = key(9);
    cases.push((a, Constraint::HasOne));
    let mut a = accounts();
    a.candy_machine_creator = key(9);
    cases.push((a, Constraint::Seeds));
    let mut a = accounts();
    a.candy_machine_account.key = key(9);
    cases.push((a, Constraint::Seeds));
    let mut a = accounts();
    a.wallet.is_writable = false;
    cases.push((a, Constraint::Mut));
    let mut a = accounts();
    a.metadata.is_writable = false;
    cases.push((a, Constraint::Mut));
    let mut a = accounts();
    a.mint.is_writable = false;
    cases.push((a, Constraint::Mut));
    let mut a = accounts();
    a.master_edition.is_writable = false;
    cases.push((a, Constraint::Mut));
    let mut a = accounts();
    a.token_metadata_program = key(9);
    cases.push((a, Constraint::Address));
    for (a, constraint) in cases {
        assert_eq!(refused(a, vec![]), ProgramError::Constraint(constraint));
    }
}

#[test]
fn derived_addresses_are_used_as_given() {
    let mut a = accounts();
    let mut data = filled();
    let derived = DerivedAddresses {
        creator: Some(key(9)),
        whitelist_account: None,
        payment_account: None,
    };
    a.candy_machine_creator = key(9);
    let r = mint_step(&mut a, MintStage::Begin, Ok(()), &vec![], &mut data, 0, &derived);
    assert!(r.unwrap().is_some());
    let derived = DerivedAddresses { creator: None, ..derived };
    let r = mint_step(&mut a, MintStage::Begin, Ok(()), &vec![], &mut data, 0, &derived);
    assert_eq!(r.err(), Some(ProgramError::Constraint(Constraint::Seeds)));
}

#[test]
fn addresses_are_derived_where_they_are_needed() {
    let mut a = whitelist(WhitelistMintMode::NeverBurn, false, None);
    a.candy_machine.token_mint = Some(key(21));
    let all = derive_addresses(&a, MintStage::Begin, bump(), program_id());
    assert_eq!(all.creator, Some(creator_and_bump().0));
    assert_eq!(all.whitelist_account, get_associated_token_address(key(2), key(20)));
    assert_eq!(all.payment_account, get_associated_token_address(key(2), key(21)));
    let pay = derive_addresses(&a, MintStage::Pay, bump(), program_id());
    assert_eq!(pay.creator, None);
    assert_eq!(pay.whitelist_account, None);
    assert_eq!(pay.payment_account, all.payment_account);
    let issue = derive_addresses(&a, MintStage::Issue, bump(), program_id());
    assert_eq!(issue.payment_account, None);
}

#[test]
fn sale_ends_after_the_end_date() {
    let mut a = accounts();
    a.candy_machine.data.end_settings = Some(EndSettings::Date(NOW));
    assert!(begin(&mut a, &vec![]).is_ok());
    a.unix_timestamp = NOW + 1;
    assert_eq!(begin(&mut a, &vec![]).err(), Some(candy(ErrorCode::CandyMachineNotLive)));
    a.payer = key(1);
    assert!(begin(&mut a, &vec![]).is_ok());
}

#[test]
fn sale_ends_after_the_end_amount() {
    let mut a = accounts();
    a.candy_machine.data.end_settings = Some(EndSettings::Amount(2));
    a.candy_machine.items_redeemed = 2;
    assert!(begin(&mut a, &vec![]).is_ok());
    a.candy_machine.items_redeemed = 3;
    a.payer = key(1);
    assert_eq!(begin(&mut a, &vec![]).err(), Some(candy(ErrorCode::CandyMachineNotLive)));
}

#[test]
fn sale_begins_at_the_go_live_date() {
    let mut a = accounts();
    a.unix_timestamp = NOW - 1;
    assert_eq!(begin(&mut a, &vec![]).err(), Some(candy(ErrorCode::CandyMachineNotLive)));
    a.payer = key(1);
    assert!(begin(&mut a, &vec![]).is_ok());
    let mut a = accounts();
    a.candy_machine.data.go_live_date = None;
    assert_eq!(begin(&mut a, &vec![]).err(), Some(candy(ErrorCode::CandyMachineNotLive)));
    a.payer = key(1);
    assert!(begin(&mut a, &vec![]).is_ok());
}

#[test]
fn presale_is_open_to_holders_before_the_go_live_date() {
    let remaining = vec![associated(key(20), 1)];
    for go_live_date in [None, Some(NOW + 1)] {
        let mut a = whitelist(WhitelistMintMode::NeverBurn, true, None);
        a.candy_machine.data.go_live_date = go_live_date;
        assert!(begin(&mut a, &remaining).is_ok());
        let mut a = whitelist(WhitelistMintMode::NeverBurn, false, None);
        a.candy_machine.data.go_live_date = go_live_date;
        assert_eq!(
            begin(&mut a, &remaining).err(),
            Some(candy(ErrorCode::CandyMachineNotLive))
        );
    }
}

#[test]
fn sold_out_machine_sells_nothing() {
    let mut a = accounts();
    a.candy_machine.items_redeemed = 4;
    assert_eq!(refused(a, vec![]), candy(ErrorCode::CandyMachineEmpty));
}

#[test]
fn holders_pay_the_discount_price() {
    let mut a = whitelist(WhitelistMintMode::NeverBurn, false, Some(3));
    a.payer_lamports = 3;
    let step = begin(&mut a, &vec![associated(key(20), 1)]).unwrap().unwrap();
    assert_same(&step, system_instruction::transfer(&solana(key(3)), &solana(key(2)), 3));
}

#[test]
fn whitelist_token_is_needed() {
    let a = whitelist(WhitelistMintMode::NeverBurn, false, None);
    assert_eq!(refused(a, vec![associated(key(20), 0)]), candy(ErrorCode::NoWhitelistToken));
    let a = whitelist(WhitelistMintMode::NeverBurn, false, None);
    assert_eq!(refused(a, vec![associated(key(19), 1)]), candy(ErrorCode::PublicKeyMismatch));
    let a = whitelist(WhitelistMintMode::NeverBurn, false, None);
    assert_eq!(refused(a, vec![other(60)]), candy(ErrorCode::IncorrectOwner));
    let a = whitelist(WhitelistMintMode::NeverBurn, false, None);
    let empty = AccountSnapshot { owner: token_program(), ..other(60) };
    assert_eq!(refused(a, vec![empty]), ProgramError::InvalidAccountData);
}

#[test]
fn whitelist_token_is_burned() {
    let mut a = whitelist(WhitelistMintMode::BurnEveryTime, false, None);
    let remaining = vec![associated(key(20), 1), other(20), other(62)];
    let step = begin(&mut a, &remaining).unwrap().unwrap();
    let expected = token_instruction::burn(
        &spl_token::id(),
        &solana(remaining[0].key),
        &solana(key(20)),
        &solana(key(62)),
        &[],
        1,
    )
    .unwrap();
    assert_same(&step, expected);
    assert_eq!(
        step.invocation.accounts,
        vec![
            MintAccount::Remaining(0),
            MintAccount::Remaining(1),
            MintAccount::Remaining(2),
            MintAccount::TokenProgram,
        ]
    );
    assert_eq!(step.stage, MintStage::Pay);
    let mut data = filled();
    let step = mint_nft(
        &mut a,
        MintStage::Pay,
        Ok(()),
        &remaining,
        &mut data,
        bump(),
        program_id(),
    )
    .unwrap()
    .unwrap();
    assert_same(&step, system_instruction::transfer(&solana(key(3)), &solana(key(2)), 700));
}

#[test]
fn burned_token_must_be_of_the_whitelist_mint() {
    let a = whitelist(WhitelistMintMode::BurnEveryTime, false, None);
    let remaining = vec![associated(key(20), 1), other(19), other(62)];
    assert_eq!(refused(a, remaining), candy(ErrorCode::PublicKeyMismatch));
}

#[test]
fn token_instructions_are_for_the_token_program() {
    let mut a = whitelist(WhitelistMintMode::BurnEveryTime, false, None);
    a.token_program = key(9);
    let remaining = vec![associated(key(20), 1), other(20), other(62)];
    assert_eq!(refused(a, remaining), ProgramError::IncorrectProgramId);
    let mut a = accounts();
    a.candy_machine.token_mint = Some(key(21));
    a.token_program = key(9);
    let remaining = vec![associated(key(21), 700), other(63)];
    assert_eq!(refused(a, remaining), ProgramError::IncorrectProgramId);
    let burn = TokenBurnParams {
        mint: key(1),
        source: key(2),
        amount: 5,
        authority: key(3),
        authority_signer_seeds: None,
        token_program: key(9),
    };
    assert_eq!(burn.instruction().err(), Some(ProgramError::IncorrectProgramId));
    let transfer = TokenTransferParams {
        source: key(1),
        destination: key(2),
        amount: 5,
        authority: key(3),
        authority_signer_seeds: None,
        token_program: token_program(),
    };
    assert_eq!(transfer.instruction().unwrap().data, vec![3, 5, 0, 0, 0, 0, 0, 0, 0]);
}

#[test]
fn price_in_tokens_goes_to_the_wallet() {
    let cases = vec![
        (accounts(), vec![]),
        (whitelist(WhitelistMintMode::NeverBurn, false, None), vec![associated(key(20), 1)]),
    ];
    for (mut a, mut remaining) in cases {
        a.candy_machine.token_mint = Some(key(21));
        let place = remaining.len();
        remaining.push(associated(key(21), 700));
        remaining.push(other(63));
        let step = begin(&mut a, &remaining).unwrap().unwrap();
        let expected = token_instruction::transfer(
            &spl_token::id(),
            &solana(remaining[place].key),
            &solana(key(2)),
            &solana(key(63)),
            &[],
            700,
        )
        .unwrap();
        assert_same(&step, expected);
        assert_eq!(
            step.invocation.accounts,
            vec![
                MintAccount::Remaining(place),
                MintAccount::Wallet,
                MintAccount::Remaining(place + 1),
                MintAccount::TokenProgram,
            ]
        );
        assert!(step.invocation.signer_seeds.is_none());
        assert_eq!(step.stage, MintStage::Issue);
    }
}

#[test]
fn tokens_are_found_behind_those_to_be_burned() {
    let mut a = whitelist(WhitelistMintMode::BurnEveryTime, false, Some(9));
    a.candy_machine.token_mint = Some(key(21));
    let remaining =
        vec![associated(key(20), 1), other(20), other(62), associated(key(21), 9), other(63)];
    let mut data = filled();
    let step =
        mint_nft(&mut a, MintStage::Pay, Ok(()), &remaining, &mut data, bump(), program_id())
            .unwrap()
            .unwrap();
    assert_eq!(step.invocation.accounts[0], MintAccount::Remaining(3));
    assert_eq!(step.invocation.accounts[2], MintAccount::Remaining(4));
    assert_eq!(step.invocation.instruction.data, vec![3, 9, 0, 0, 0, 0, 0, 0, 0]);
}

#[test]
fn buyer_must_have_the_price_in_tokens() {
    let mut a = accounts();
    a.candy_machine.token_mint = Some(key(21));
    let remaining = vec![associated(key(21), 699), other(63)];
    assert_eq!(begin(&mut a, &remaining).err(), Some(candy(ErrorCode::NotEnoughTokens)));
    let remaining = vec![token_account(key(60), key(21), 700), other(63)];
    assert_eq!(begin(&mut a, &remaining).err(), Some(candy(ErrorCode::PublicKeyMismatch)));
}

fn go_on(
    a: &mut MintNFT,
    stage: MintStage,
    data: &mut [u8],
) -> Result<Option<MintStep>, ProgramError> {
    mint_nft(a, stage, Ok(()), &vec![], data, bump(), program_id())
}

#[test]
fn item_is_drawn_and_its_metadata_created() {
    let mut a = accounts();
    let mut data = filled();
    let step = go_on(&mut a, MintStage::Issue, &mut data).unwrap().unwrap();
    let creator = creator_and_bump().0;
    let expected = metadata_instruction::create_metadata_accounts(
        metaplex_token_metadata::id(),
        solana(key(41)),
        solana(key(42)),
        solana(key(43)),
        solana(key(3)),
        solana(creator),
        padded("Item 2", 32),
        "SYM\0\0\0\0\0\0\0".to_string(),
        padded("https://example.org/2", 200),
        Some(vec![
            MetadataCreator { address: solana(creator), verified: true, share: 0 },
            MetadataCreator { address: solana(key(7)), verified: false, share: 60 },
            MetadataCreator { address: solana(key(8)), verified: false, share: 40 },
        ]),
        500,
        true,
        false,
    );
    assert_same(&step, expected);
    assert_eq!(
        step.invocation.accounts,
        vec![
            MintAccount::Metadata,
            MintAccount::Mint,
            MintAccount::MintAuthority,
            MintAccount::Payer,
            MintAccount::TokenMetadataProgram,
            MintAccount::TokenProgram,
            MintAccount::SystemProgram,
            MintAccount::Rent,
            MintAccount::CandyMachineCreator,
        ]
    );
    let seeds = step.invocation.signer_seeds.unwrap().seeds();
    assert_eq!(seeds, vec![b"candy_machine".to_vec(), vec![40; 32], vec![bump()]]);
    assert_eq!(step.stage, MintStage::MasterEdition);
    assert_eq!(a.candy_machine.items_redeemed, 1);
    assert_eq!(get_config_count(&data), Ok(3));
}

#[test]
fn every_item_is_sold_once() {
    let mut a = accounts();
    let mut data = filled();
    let mut places = vec![];
    for number in [3u64, u64::MAX, 7, 5] {
        a.recent_blockhashes = vec![hash_of(number)];
        let step = go_on(&mut a, MintStage::Issue, &mut data).unwrap().unwrap();
        let name = &step.invocation.instruction.data[5..11];
        places.push(String::from_utf8(name.to_vec()).unwrap());
    }
    assert_eq!(places, vec!["Item 3", "Item 0", "Item 2", "Item 1"]);
    assert_eq!(a.candy_machine.items_redeemed, 4);
    assert_eq!(get_config_count(&data), Ok(0));
    assert_eq!(
        go_on(&mut a, MintStage::Issue, &mut data).err(),
        Some(candy(ErrorCode::NumericalOverflowError))
    );
    assert_eq!(a.candy_machine.items_redeemed, 4);
}

#[test]
fn item_that_is_not_filled_in_is_not_sold() {
    let mut a = accounts();
    a.recent_blockhashes = vec![hash_of(3)];
    let mut data = vec![0u8; filled().len()];
    let before = data.clone();
    assert_eq!(
        go_on(&mut a, MintStage::Issue, &mut data).err(),
        Some(candy(ErrorCode::IndexGreaterThanLength))
    );
    data[681] = 3;
    assert_eq!(
        go_on(&mut a, MintStage::Issue, &mut data).err(),
        Some(ProgramError::BorshIoError)
    );
    assert_eq!(data[685..], before[685..]);
    assert_eq!(a.candy_machine.items_redeemed, 0);
}

#[test]
fn hidden_items_are_numbered() {
    let mut a = accounts();
    a.candy_machine.data.hidden_setting =
        Some(HiddenSetting { name: "Egg ".to_string(), uri: "x".to_string(), hash: [0; 32] });
    let mut data = filled();
    let before = data.clone();
    let step = go_on(&mut a, MintStage::Issue, &mut data).unwrap().unwrap();
    assert_eq!(step.invocation.instruction.data[1..11], *b"\x06\0\0\0Egg #1");
    let step = go_on(&mut a, MintStage::Issue, &mut data).unwrap().unwrap();
    assert_eq!(step.invocation.instruction.data[1..11], *b"\x06\0\0\0Egg #2");
    assert_eq!(data, before);
    assert_eq!(a.candy_machine.items_redeemed, 2);
}

#[test]
fn item_becomes_a_master_edition() {
    let mut a = accounts();
    let mut data = filled();
    let step = go_on(&mut a, MintStage::MasterEdition, &mut data).unwrap().unwrap();
    let expected = metadata_instruction::create_master_edition(
        metaplex_token_metadata::id(),
        solana(key(45)),
        solana(key(42)),
        solana(creator_and_bump().0),
        solana(key(43)),
        solana(key(41)),
        solana(key(3)),
        Some(4),
    );
    assert_same(&step, expected);
    assert_eq!(
        step.invocation.accounts,
        vec![
            MintAccount::MasterEdition,
            MintAccount::Mint,
            MintAccount::MintAuthority,
            MintAccount::Payer,
            MintAccount::Metadata,
            MintAccount::TokenMetadataProgram,
            MintAccount::TokenProgram,
            MintAccount::SystemProgram,
            MintAccount::Rent,
            MintAccount::CandyMachineCreator,
        ]
    );
    assert!(step.invocation.signer_seeds.is_some());
    assert_eq!(step.stage, MintStage::HandOver);
}

#[test]
fn item_is_handed_over() {
    for (retain, new_authority) in [(true, key(1)), (false, key(44))] {
        let mut a = accounts();
        a.candy_machine.data.retain_authority = retain;
        let mut data = filled();
        let step = go_on(&mut a, MintStage::HandOver, &mut data).unwrap().unwrap();
        let expected = metadata_instruction::update_metadata_accounts(
            metaplex_token_metadata::id(),
            solana(key(41)),
            solana(creator_and_bump().0),
            Some(solana(new_authority)),
            None,
            Some(true),
        );
        assert_same(&step, expected);
        assert_eq!(
            step.invocation.accounts,
            vec![
                MintAccount::TokenMetadataProgram,
                MintAccount::Metadata,
                MintAccount::CandyMachineCreator,
            ]
        );
        assert_eq!(step.stage, MintStage::Finish);
        assert!(go_on(&mut a, MintStage::Finish, &mut data).unwrap().is_none());
    }
}

#[test]
fn failures_of_other_programs_end_the_sale() {
    let e = ProgramError::Runtime(17);
    let cases = vec![
        (None, MintStage::Begin, e),
        (None, MintStage::Pay, candy(ErrorCode::TokenBurnFailed)),
        (None, MintStage::Issue, e),
        (Some(key(21)), MintStage::Issue, candy(ErrorCode::TokenTransferFailed)),
        (Some(key(21)), MintStage::MasterEdition, e),
        (None, MintStage::HandOver, e),
        (None, MintStage::Finish, e),
    ];
    for (token_mint, stage, error) in cases {
        let mut a = accounts();
        a.candy_machine.token_mint = token_mint;
        let mut data = filled();
        let before = data.clone();
        let r = mint_nft(&mut a, stage, Err(e), &vec![], &mut data, bump(), program_id());
        assert_eq!(r.err(), Some(error));
        assert_eq!(data, before);
        assert_eq!(a.candy_machine.items_redeemed, 0);
    }
}

#[test]
fn stage_that_cannot_be_gone_through_is_told() {
    let mut data = filled();
    let mut a = whitelist(WhitelistMintMode::BurnEveryTime, false, None);
    let short = vec![associated(key(20), 1), other(20)];
    let r = try_mint_nft(&mut a, MintStage::Begin, Ok(()), &short, &mut data, bump(), program_id());
    assert!(r.is_none());
    let r = try_mint_nft(&mut a, MintStage::Begin, Ok(()), &vec![], &mut data, bump(), program_id());
    assert!(r.is_none());
    let none = vec![associated(key(20), 0)];
    let r = try_mint_nft(&mut a, MintStage::Begin, Ok(()), &none, &mut data, bump(), program_id());
    assert_eq!(r.unwrap().err(), Some(candy(ErrorCode::NoWhitelistToken)));

    let mut a = accounts();
    a.candy_machine.token_mint = Some(key(21));
    let one = vec![associated(key(21), 700)];
    let r = try_mint_nft(&mut a, MintStage::Pay, Ok(()), &one, &mut data, bump(), program_id());
    assert!(r.is_none());

    let mut a = accounts();
    a.recent_blockhashes = vec![];
    let r = try_mint_nft(&mut a, MintStage::Issue, Ok(()), &vec![], &mut data, bump(), program_id());
    assert!(r.is_none());
    assert_eq!(a.candy_machine.items_redeemed, 0);
    a.recent_blockhashes = vec![hash_of(0)];
    let derived = DerivedAddresses { creator: None, whitelist_account: None, payment_account: None };
    assert!(!can_step(&a, MintStage::Issue, Ok(()), &vec![], &data[..700], 0, &derived));
    let r = try_mint_nft(&mut a, MintStage::Issue, Ok(()), &vec![], &mut data, bump(), program_id());
    assert!(r.unwrap().unwrap().is_some());
    assert_eq!(a.candy_machine.items_redeemed, 1);
}

#[test]
fn whole_sale_goes_through_its_stages() {
    let mut a = whitelist(WhitelistMintMode::BurnEveryTime, true, Some(11));
    a.candy_machine.data.go_live_date = None;
    let remaining = vec![associated(key(20), 1), other(20), other(62)];
    let mut data = filled();
    let mut stages = vec![];
    let mut stage = MintStage::Begin;
    loop {
        stages.push(stage);
        let r = try_mint_nft(&mut a, stage, Ok(()), &remaining, &mut data, bump(), program_id());
        match r.unwrap().unwrap() {
            None => {
                assert_eq!(stages.len(), 6);
                break;
            }
            Some(step) => stage = step.stage,
        }
    }
    assert_eq!(
        stages,
        vec![
            MintStage::Begin,
            MintStage::Pay,
            MintStage::Issue,
            MintStage::MasterEdition,
            MintStage::HandOver,
            MintStage::Finish,
        ]
    );
    assert_eq!(a.candy_machine.items_redeemed, 1);
    assert_eq!(get_config_count(&data), Ok(3));
}
