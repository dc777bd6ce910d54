use anchor_lang::solana_program::program_option::COption;
use anchor_lang::solana_program::program_pack::Pack;
use anchor_lang::solana_program::pubkey::Pubkey as SolanaKey;
use nft_candy_machine_v2::manage::can_initialize;
use nft_candy_machine_v2::utils::{
    assert_initialized, assert_initialized_mint, assert_is_ata, assert_keys_equal,
    assert_owned_by, check_ata, get_associated_token_address, AccountSnapshot,
};
use nft_candy_machine_v2::{
    get_space_for_candy, initialize_candy_machine, update_authority, update_candy_machine,
    withdraw_funds, CandyMachine, CandyMachineData, Constraint, Creator, ErrorCode, HiddenSetting,
    InitializeCandyMachine, ProgramError, Pubkey, UpdateCandyMachine, WithdrawFunds,
};
use spl_token::state::{Account, AccountState, Mint};

fn key(n: u8) -> Pubkey {
    Pubkey { bytes: [n; 32] }
}

fn solana(k: Pubkey) -> SolanaKey {
    SolanaKey::new_from_array(k.bytes)
}

fn token_program() -> Pubkey {
    Pubkey { bytes: spl_token::id().to_bytes() }
}

fn settings() -> CandyMachineData {
    CandyMachineData {
        uuid: "abcdef".to_string(),
        price: 1,
        symbol: "SYM".to_string(),
        seller_fee_basis_points: 500,
        max_supply: 0,
        is_mutable: true,
        retain_authority: true,
        use_captcha: false,
        go_live_date: Some(5),
        end_settings: None,
        creators: vec![Creator { address: key(7), verified: false, share: 100 }],
        hidden_setting: None,
        whitelist_mint_settings: None,
        items_available: 10,
    }
}

fn hidden() -> HiddenSetting {
    HiddenSetting { name: "n".to_string(), uri: "u".to_string(), hash: [1; 32] }
}

fn machine() -> CandyMachine {
    CandyMachine {
        authority: key(1),
        wallet: key(2),
        token_mint: None,
        items_redeemed: 3,
        data: settings(),
    }
}

fn token_account_data(mint: Pubkey, owner: Pubkey, amount: u64, state: AccountState) -> Vec<u8> {
    let account = Account {
        mint: solana(mint),
        owner: solana(owner),
        amount,
        delegate: COption::Some(solana(key(77))),
        state,
        is_native: COption::None,
        delegated_amount: 3,
        close_authority: COption::Some(solana(key(78))),
    };
    let mut data = vec![0u8; Account::LEN];
    Account::pack(account, &mut data).unwrap();
    data
}

fn mint_data(is_initialized: bool) -> Vec<u8> {
    let mint = Mint {
        mint_authority: COption::Some(solana(key(4))),
        supply: 9,
        decimals: 2,
        is_initialized,
        freeze_authority: COption::None,
    };
    let mut data = vec![0u8; Mint::LEN];
    Mint::pack(mint, &mut data).unwrap();
    data
}

fn snapshot(k: Pubkey, owner: Pubkey, data: Vec<u8>) -> AccountSnapshot {
    AccountSnapshot { key: k, owner, data }
}

fn mint_account(k: Pubkey) -> AccountSnapshot {
    snapshot(k, token_program(), mint_data(true))
}

fn wallet_account(mint: Pubkey) -> AccountSnapshot {
    let data = token_account_data(mint, key(60), 0, AccountState::Initialized);
    snapshot(key(2), token_program(), data)
}

fn plain_wallet() -> AccountSnapshot {
    snapshot(key(2), key(0), vec![])
}

fn init_accounts(wallet: AccountSnapshot) -> InitializeCandyMachine {
    InitializeCandyMachine {
        candy_machine_owner: key(50),
        candy_machine_is_writable: true,
        wallet,
        authority: key(1),
    }
}

fn space() -> usize {
    get_space_for_candy(&settings()).unwrap()
}

fn candy(e: ErrorCode) -> Result<(), ProgramError> {
    Err(ProgramError::Candy(e))
}

#[test]
fn machine_is_written_to_its_account() {
    let mut data = vec![0u8; space()];
    let accounts = init_accounts(plain_wallet());
    assert!(can_initialize(&accounts, &vec![], &settings(), &data, key(50)));
    assert_eq!(
        initialize_candy_machine(&accounts, &vec![], settings(), &mut data, key(50)),
        Ok(())
    );
    let mut stored = machine();
    stored.items_redeemed = 0;
    stored.data.symbol = "SYM\0\0\0\0\0\0\0".to_string();
    let head = stored.to_account_bytes();
    assert_eq!(data[..head.len()], head[..]);
    let mask = 681 + 4 + 10 * 240;
    assert!(data[head.len()..mask].iter().all(|b| *b == 0));
    assert_eq!(data[mask..], [2, 0, 0, 0, 0, 0]);
}

#[test]
fn machine_can_be_paid_in_tokens() {
    let mut data = vec![0u8; space()];
    let accounts = init_accounts(wallet_account(key(30)));
    let remaining = vec![mint_account(key(30))];
    assert!(can_initialize(&accounts, &remaining, &settings(), &data, key(50)));
    assert_eq!(
        initialize_candy_machine(&accounts, &remaining, settings(), &mut data, key(50)),
        Ok(())
    );
    assert_eq!(data[72], 1);
    assert_eq!(data[73..105], [30u8; 32]);
}

#[test]
fn uuid_has_six_bytes() {
    let mut data = vec![0u8; space()];
    for uuid in ["abcde", "abcdefg", "", "ééé7"] {
        let settings = CandyMachineData { uuid: uuid.to_string(), ..settings() };
        assert_eq!(
            initialize_candy_machine(
                &init_accounts(plain_wallet()),
                &vec![],
                settings,
                &mut data,
                key(50)
            ),
            candy(ErrorCode::UuidMustBeExactly6Length)
        );
    }
    assert!(data.iter().all(|b| *b == 0));
    let settings = CandyMachineData { uuid: "ééé".to_string(), ..settings() };
    assert_eq!(
        initialize_candy_machine(
            &init_accounts(plain_wallet()),
            &vec![],
            settings,
            &mut data,
            key(50)
        ),
        Ok(())
    );
}

#[test]
fn at_most_four_creators() {
    let mut data = vec![0u8; space()];
    let creator = Creator { address: key(7), verified: false, share: 20 };
    let many = CandyMachineData { creators: vec![creator; 5], ..settings() };
    assert_eq!(
        initialize_candy_machine(
            &init_accounts(plain_wallet()),
            &vec![],
            many,
            &mut data,
            key(50)
        ),
        candy(ErrorCode::TooManyCreators)
    );
    assert!(data.iter().all(|b| *b == 0));
    let four = CandyMachineData { creators: vec![creator; 4], ..settings() };
    assert_eq!(
        initialize_candy_machine(
            &init_accounts(plain_wallet()),
            &vec![],
            four,
            &mut data,
            key(50)
        ),
        Ok(())
    );
}

#[test]
fn account_must_be_writable_owned_and_large_enough() {
    let mut data = vec![0u8; space()];
    let mut accounts = init_accounts(plain_wallet());
    assert_eq!(
        initialize_candy_machine(&accounts, &vec![], settings(), &mut data, key(51)),
        Err(ProgramError::Constraint(Constraint::Raw))
    );
    let short = data.len() - 1;
    assert_eq!(
        initialize_candy_machine(&accounts, &vec![], settings(), &mut data[..short], key(50)),
        Err(ProgramError::Constraint(Constraint::Raw))
    );
    accounts.candy_machine_is_writable = false;
    assert_eq!(
        initialize_candy_machine(&accounts, &vec![], settings(), &mut data, key(50)),
        Err(ProgramError::Constraint(Constraint::Mut))
    );
    assert!(data.iter().all(|b| *b == 0));
}

#[test]
fn mint_and_wallet_must_fit_together() {
    let mut data = vec![0u8; space()];
    let cases = vec![
        (snapshot(key(30), token_program(), vec![]), wallet_account(key(30)), ProgramError::InvalidAccountData),
        (
            snapshot(key(30), token_program(), mint_data(false)),
            wallet_account(key(30)),
            ProgramError::Candy(ErrorCode::Uninitialized),
        ),
        (mint_account(key(30)), plain_wallet(), ProgramError::InvalidAccountData),
        (
            mint_account(key(30)),
            snapshot(
                key(2),
                token_program(),
                token_account_data(key(30), key(60), 0, AccountState::Uninitialized),
            ),
            ProgramError::Candy(ErrorCode::Uninitialized),
        ),
        (
            snapshot(key(30), key(9), mint_data(true)),
            wallet_account(key(30)),
            ProgramError::Candy(ErrorCode::IncorrectOwner),
        ),
        (
            mint_account(key(30)),
            AccountSnapshot { owner: key(9), ..wallet_account(key(30)) },
            ProgramError::Candy(ErrorCode::IncorrectOwner),
        ),
        (
            mint_account(key(31)),
            wallet_account(key(30)),
            ProgramError::Candy(ErrorCode::MintMismatch),
        ),
    ];
    for (mint, wallet, error) in cases {
        let remaining = vec![mint];
        assert_eq!(
            initialize_candy_machine(
                &init_accounts(wallet),
                &remaining,
                settings(),
                &mut data,
                key(50)
            ),
            Err(error)
        );
    }
    assert!(data.iter().all(|b| *b == 0));
}

#[test]
fn room_for_setup_is_tested() {
    let accounts = init_accounts(plain_wallet());
    let data = vec![0u8; space()];
    let long = CandyMachineData { symbol: "0123456789X".to_string(), ..settings() };
    assert!(!can_initialize(&accounts, &vec![], &long, &data, key(50)));
    let wrong = CandyMachineData { uuid: String::new(), ..long };
    assert!(can_initialize(&accounts, &vec![], &wrong, &data, key(50)));
    let hide = CandyMachineData { hidden_setting: Some(hidden()), ..settings() };
    assert!(!can_initialize(&accounts, &vec![], &hide, &data[..681], key(50)));
    assert!(can_initialize(&accounts, &vec![], &hide, &data, key(50)));
    let huge = CandyMachineData { items_available: u64::MAX, ..settings() };
    assert!(!can_initialize(&accounts, &vec![], &huge, &data, key(50)));
    assert!(can_initialize(&accounts, &vec![], &huge, &data, key(51)));
}

fn update_accounts() -> UpdateCandyMachine {
    UpdateCandyMachine {
        candy_machine: machine(),
        candy_machine_is_writable: true,
        authority: key(1),
    }
}

#[test]
fn settings_can_be_replaced() {
    let mut accounts = update_accounts();
    let new = CandyMachineData { price: 99, uuid: "x".to_string(), ..settings() };
    assert_eq!(update_candy_machine(&mut accounts, new), Ok(()));
    assert_eq!(accounts.candy_machine.data.price, 99);
    assert_eq!(accounts.candy_machine.data.uuid, "x");
    assert_eq!(accounts.candy_machine.items_redeemed, 3);
    assert_eq!(accounts.candy_machine.authority, key(1));
}

#[test]
fn number_of_lines_changes_only_with_a_hidden_setting() {
    let mut accounts = update_accounts();
    let new = CandyMachineData { items_available: 11, price: 99, ..settings() };
    assert_eq!(
        update_candy_machine(&mut accounts, new.clone()),
        candy(ErrorCode::CannotChangeNumberOfLines)
    );
    assert_eq!(accounts.candy_machine.data.price, 1);
    assert_eq!(accounts.candy_machine.data.items_available, 10);
    let hide = CandyMachineData { hidden_setting: Some(hidden()), ..new };
    assert_eq!(update_candy_machine(&mut accounts, hide), Ok(()));
    assert_eq!(accounts.candy_machine.data.items_available, 11);
}

#[test]
fn authority_can_be_handed_over() {
    let mut accounts = update_accounts();
    assert_eq!(update_authority(&mut accounts, None), Ok(()));
    assert_eq!(accounts.candy_machine.authority, key(1));
    assert_eq!(update_authority(&mut accounts, Some(key(8))), Ok(()));
    assert_eq!(accounts.candy_machine.authority, key(8));
    assert_eq!(
        update_authority(&mut accounts, Some(key(1))),
        Err(ProgramError::Constraint(Constraint::HasOne))
    );
    assert_eq!(
        update_candy_machine(&mut accounts, settings()),
        Err(ProgramError::Constraint(Constraint::HasOne))
    );
    accounts.candy_machine_is_writable = false;
    assert_eq!(
        update_authority(&mut accounts, Some(key(1))),
        Err(ProgramError::Constraint(Constraint::Mut))
    );
    assert_eq!(accounts.candy_machine.authority, key(8));
}

fn withdraw_accounts(machine_lamports: u64, authority_lamports: u64) -> WithdrawFunds {
    WithdrawFunds {
        candy_machine: machine(),
        candy_machine_is_writable: true,
        candy_machine_lamports: machine_lamports,
        authority: key(1),
        authority_lamports,
    }
}

#[test]
fn withdrawing_moves_all_lamports() {
    let mut accounts = withdraw_accounts(30, 12);
    assert_eq!(withdraw_funds(&mut accounts), Ok(()));
    assert_eq!(accounts.candy_machine_lamports, 0);
    assert_eq!(accounts.authority_lamports, 42);
}

#[test]
fn withdrawing_too_much_overflows() {
    let mut accounts = withdraw_accounts(2, u64::MAX - 1);
    assert_eq!(withdraw_funds(&mut accounts), candy(ErrorCode::NumericalOverflowError));
    assert_eq!(accounts.authority_lamports, u64::MAX - 1);
    let mut accounts = withdraw_accounts(1, u64::MAX - 1);
    assert_eq!(withdraw_funds(&mut accounts), Ok(()));
    assert_eq!(accounts.authority_lamports, u64::MAX);
}

#[test]
fn only_the_authority_withdraws() {
    let mut accounts = withdraw_accounts(30, 12);
    accounts.authority = key(3);
    assert_eq!(
        withdraw_funds(&mut accounts),
        Err(ProgramError::Constraint(Constraint::HasOne))
    );
    accounts.candy_machine_is_writable = false;
    assert_eq!(withdraw_funds(&mut accounts), Err(ProgramError::Constraint(Constraint::Mut)));
    assert_eq!(accounts.candy_machine_lamports, 30);
    assert_eq!(accounts.authority_lamports, 12);
}

#[test]
fn token_account_is_read() {
    let data = token_account_data(key(30), key(60), 1_234_567_890_123, AccountState::Frozen);
    let account = assert_initialized(&snapshot(key(2), key(0), data)).unwrap();
    assert_eq!(account.mint, key(30));
    assert_eq!(account.owner, key(60));
    assert_eq!(account.amount, 1_234_567_890_123);
    assert!(account.is_initialized);
}

#[test]
fn broken_token_accounts_are_refused() {
    let good = token_account_data(key(30), key(60), 1, AccountState::Initialized);
    for (place, value) in [(72, 2u8), (73, 1), (108, 3), (109, 2), (129, 9), (132, 1)] {
        let mut data = good.clone();
        data[place] = value;
        assert_eq!(
            assert_initialized(&snapshot(key(2), key(0), data)).err(),
            Some(ProgramError::InvalidAccountData)
        );
    }
    assert_eq!(
        assert_initialized(&snapshot(key(2), key(0), good[..164].to_vec())).err(),
        Some(ProgramError::InvalidAccountData)
    );
}

#[test]
fn broken_mints_are_refused() {
    for (place, value) in [(0, 2u8), (3, 1), (45, 2), (46, 2), (49, 1)] {
        let mut data = mint_data(true);
        data[place] = value;
        assert_eq!(
            assert_initialized_mint(&snapshot(key(2), key(0), data)),
            Err(ProgramError::InvalidAccountData)
        );
    }
    assert_eq!(assert_initialized_mint(&snapshot(key(2), key(0), mint_data(true))), Ok(()));
}

#[test]
fn associated_address_is_derived() {
    let address = get_associated_token_address(key(60), key(30)).unwrap();
    let expected =
        anchor_spl::associated_token::get_associated_token_address(&solana(key(60)), &solana(key(30)));
    assert_eq!(address.bytes, expected.to_bytes());
}

#[test]
fn associated_account_is_checked() {
    let address = get_associated_token_address(key(60), key(30)).unwrap();
    let data = token_account_data(key(30), key(60), 5, AccountState::Initialized);
    let good = snapshot(address, token_program(), data);
    assert_eq!(assert_is_ata(&good, key(60), key(30)).unwrap().amount, 5);
    let mismatch = Some(ProgramError::Candy(ErrorCode::PublicKeyMismatch));
    assert_eq!(assert_is_ata(&good, key(60), key(31)).err(), mismatch);
    assert_eq!(assert_is_ata(&good, key(61), key(30)).err(), mismatch);
    assert_eq!(check_ata(&good, key(60), Some(address)).unwrap().amount, 5);
    assert_eq!(check_ata(&good, key(60), Some(key(1))).err(), mismatch);
    assert_eq!(check_ata(&good, key(60), None).err(), mismatch);
    let foreign = AccountSnapshot { owner: key(1), ..good };
    assert_eq!(
        assert_is_ata(&foreign, key(60), key(30)).err(),
        Some(ProgramError::Candy(ErrorCode::IncorrectOwner))
    );
}

#[test]
fn keys_and_owners_are_compared() {
    assert_eq!(assert_keys_equal(key(1), key(1)), Ok(()));
    assert_eq!(assert_keys_equal(key(1), key(2)), candy(ErrorCode::PublicKeyMismatch));
    assert_eq!(assert_owned_by(&plain_wallet(), key(0)), Ok(()));
    assert_eq!(assert_owned_by(&plain_wallet(), key(1)), candy(ErrorCode::IncorrectOwner));
}

#[test]
fn messages_tell_what_is_wrong() {
    assert_eq!(ErrorCode::IncorrectOwner.message(), "Account does not have correct owner!");
    assert_eq!(
        ErrorCode::TooManyCreators.message(),
        "Can only provide up to 4 creators to candy machine (because candy machine is one)!"
    );
    assert_eq!(ErrorCode::DerivedKeyInvalid.message(), "Derived key invalid");
    assert_eq!(ErrorCode::TokenBurnFailed.message(), "Token burn failed");
}
