//! Setting up a candy machine, changing it, and closing it down.
use crate::accounts::{InitializeCandyMachine, UpdateCandyMachine, WithdrawFunds};
use crate::codec::{is_encodable, u32_bytes, u32_le};
use crate::config_lines::{lemma_padded_len, pad, padded};
use crate::error::{ErrorCode, ProgramError};
use crate::instruction::TOKEN_PROGRAM;
use crate::layout::{
    account_space, has_space, lemma_line_start, line_position, line_start, mask_len, starts_within,
    write_at, write_bytes, MAX_CREATOR_LIMIT, MAX_SYMBOL_LENGTH,
};
use crate::pubkey::{lemma_same_bytes, Pubkey};
use crate::state::{
    encodable, header_bytes, lemma_data_len, lemma_header_len, CandyMachine, CandyMachineData, CandyMachineDataView,
    CandyMachineView,
};
use crate::utils::{
    assert_initialized, assert_initialized_mint, assert_owned_by, initialized_account, mint_fault,
    AccountSnapshot,
};
use vstd::prelude::*;
use vstd::utf8::*;

verus! {

/// Why a machine that is paid in tokens of the mint that `token_mint` holds cannot be set up,
/// if it cannot: the mint and the wallet must be initialized, belong to the token program, and
/// fit together.
pub open spec fn token_fault(token_mint: AccountSnapshot, wallet: AccountSnapshot) -> Option<
    ProgramError,
> {
    match mint_fault(token_mint.data@) {
        Some(e) => Some(e),
        None => match initialized_account(wallet.data@) {
            Err(e) => Some(e),
            Ok(account) => if token_mint.owner@ != TOKEN_PROGRAM@ || wallet.owner@
                != TOKEN_PROGRAM@ {
                Some(ProgramError::Candy(ErrorCode::IncorrectOwner))
            } else if account.mint != token_mint.key@ {
                Some(ProgramError::Candy(ErrorCode::MintMismatch))
            } else {
                None
            },
        },
    }
}

/// Why a machine with these settings cannot be set up, if it cannot, apart from the number of
/// its creators.
pub open spec fn setup_fault(
    accounts: InitializeCandyMachine,
    remaining: Seq<AccountSnapshot>,
    d: CandyMachineDataView,
    data_len: int,
    program_id: Pubkey,
) -> Option<ProgramError> {
    match accounts.violation(d, data_len, program_id) {
        Some(e) => Some(e),
        None => if encode_utf8(d.uuid).len() != 6 {
            Some(ProgramError::Candy(ErrorCode::UuidMustBeExactly6Length))
        } else if remaining.len() > 0 {
            token_fault(remaining[0], accounts.wallet)
        } else {
            None
        },
    }
}

/// The machine that is set up: nothing is sold yet, the symbol is brought to its greatest
/// length, and where a mint is passed in, tokens of that mint are the price.
pub open spec fn initial_machine(
    accounts: InitializeCandyMachine,
    remaining: Seq<AccountSnapshot>,
    d: CandyMachineDataView,
) -> CandyMachineView {
    CandyMachineView {
        authority: accounts.authority,
        wallet: accounts.wallet.key,
        token_mint: if remaining.len() > 0 {
            Some(remaining[0].key)
        } else {
            None
        },
        items_redeemed: 0,
        data: CandyMachineDataView {
            symbol: padded(d.symbol, MAX_SYMBOL_LENGTH as int),
            ..d
        },
    }
}

/// The account of a machine that has been set up: its state at the head of the account, and
/// the length of the bit mask behind the room for the config lines.
pub open spec fn set_up_account(data: Seq<u8>, m: CandyMachineView) -> Seq<u8> {
    write_at(
        write_at(data, 0, header_bytes(m)),
        line_start(m.data.items_available as int),
        u32_le(mask_len(m.data.items_available as int) % 4294967296),
    )
}

/// What setting up a machine returns, and the account after it.
pub open spec fn setup_result(
    accounts: InitializeCandyMachine,
    remaining: Seq<AccountSnapshot>,
    d: CandyMachineDataView,
    data: Seq<u8>,
    program_id: Pubkey,
) -> (Result<(), ProgramError>, Seq<u8>) {
    match setup_fault(accounts, remaining, d, data.len() as int, program_id) {
        Some(e) => (Err(e), data),
        None => if d.creators.len() > MAX_CREATOR_LIMIT - 1 {
            (Err(ProgramError::Candy(ErrorCode::TooManyCreators)), data)
        } else {
            (Ok(()), set_up_account(data, initial_machine(accounts, remaining, d)))
        },
    }
}

/// Whether a machine with these settings can be written to the account: its symbol is not too
/// long, its texts can be encoded, and the account has room for what is written.
pub open spec fn has_room_for_setup(
    accounts: InitializeCandyMachine,
    remaining: Seq<AccountSnapshot>,
    d: CandyMachineDataView,
    data: Seq<u8>,
    program_id: Pubkey,
) -> bool {
    &&& accounts.candy_machine_is_writable && accounts.candy_machine_owner == program_id
        ==> account_space(d) <= usize::MAX
    &&& setup_fault(accounts, remaining, d, data.len() as int, program_id) is None ==> {
        &&& encode_utf8(d.symbol).len() <= MAX_SYMBOL_LENGTH
        &&& d.creators.len() <= MAX_CREATOR_LIMIT - 1 ==> {
            &&& encodable(d)
            &&& header_bytes(initial_machine(accounts, remaining, d)).len() <= data.len()
            &&& line_start(d.items_available as int) + 4 <= data.len()
        }
    }
}

/// Tests that `token_mint` and `wallet` can be those of a machine that is paid in tokens.
fn check_tokens(token_mint: &AccountSnapshot, wallet: &AccountSnapshot) -> (r: Result<
    (),
    ProgramError,
>)
    ensures
        match token_fault(*token_mint, *wallet) {
            Some(e) => r == Err::<(), ProgramError>(e),
            None => r is Ok,
        },
{
    let token_program = Pubkey { bytes: TOKEN_PROGRAM };
    proof {
        if token_mint.owner@ == token_program@ {
            lemma_same_bytes(token_mint.owner, token_program);
        }
        if wallet.owner@ == token_program@ {
            lemma_same_bytes(wallet.owner, token_program);
        }
    }
    assert_initialized_mint(token_mint)?;
    let account = assert_initialized(wallet)?;
    assert_owned_by(token_mint, token_program)?;
    assert_owned_by(wallet, token_program)?;
    if account.mint != token_mint.key {
        proof {
            if account.mint@ == token_mint.key@ {
                lemma_same_bytes(account.mint, token_mint.key);
            }
        }
        return Err(ProgramError::Candy(ErrorCode::MintMismatch));
    }
    Ok(())
}

/// Tests whether a machine with these settings can be set up, apart from the number of its
/// creators.
fn check_setup(
    accounts: &InitializeCandyMachine,
    remaining_accounts: &Vec<AccountSnapshot>,
    data: &CandyMachineData,
    data_len: usize,
    program_id: Pubkey,
) -> (r: Result<(), ProgramError>)
    requires
        accounts.candy_machine_is_writable && accounts.candy_machine_owner == program_id
            ==> account_space(data@) <= usize::MAX,
    ensures
        match setup_fault(
            *accounts,
            remaining_accounts@,
            data@,
            data_len as int,
            program_id,
        ) {
            Some(e) => r == Err::<(), ProgramError>(e),
            None => r is Ok,
        },
{
    accounts.check(data, data_len, program_id)?;
    if data.uuid.as_str().as_bytes().len() != 6 {
        return Err(ProgramError::Candy(ErrorCode::UuidMustBeExactly6Length));
    }
    if remaining_accounts.len() > 0 {
        check_tokens(&remaining_accounts[0], &accounts.wallet)?;
    }
    Ok(())
}

/// Writes the head of the account of a machine for `items` items, and the length of its bit
/// mask.
fn write_setup(account_data: &mut [u8], header: &[u8], items: u64)
    requires
        header@.len() <= old(account_data)@.len(),
        line_start(items as int) + 4 <= old(account_data)@.len(),
    ensures
        final(account_data)@ == write_at(
            write_at(old(account_data)@, 0, header@),
            line_start(items as int),
            u32_le(mask_len(items as int) % 4294967296),
        ),
{
    let size: usize = account_data.len();
    write_bytes(account_data, 0, header);
    proof {
        lemma_line_start(items as int);
    }
    let mask: u64 = items / 8 + if items % 8 == 0 {
        0
    } else {
        1
    };
    assert(mask == mask_len(items as int));
    let mask_bytes = u32_bytes((mask % 4294967296) as u32);
    write_bytes(account_data, line_position(items as usize), mask_bytes.as_slice());
}

/// Tests whether a machine with these settings can be written to the account.
pub fn can_initialize(
    accounts: &InitializeCandyMachine,
    remaining_accounts: &Vec<AccountSnapshot>,
    data: &CandyMachineData,
    account_data: &[u8],
    program_id: Pubkey,
) -> (r: bool)
    ensures
        r == has_room_for_setup(
            *accounts,
            remaining_accounts@,
            data@,
            account_data@,
            program_id,
        ),
{
    let size: usize = account_data.len();
    if accounts.candy_machine_is_writable && accounts.candy_machine_owner == program_id
        && !has_space(data) {
        return false;
    }
    if check_setup(accounts, remaining_accounts, data, size, program_id).is_err() {
        return true;
    }
    let symbol: usize = data.symbol.as_str().as_bytes().len();
    if symbol > MAX_SYMBOL_LENGTH {
        return false;
    }
    if data.creators.len() > MAX_CREATOR_LIMIT - 1 {
        return true;
    }
    let hidden_fits = match &data.hidden_setting {
        None => true,
        Some(h) => is_encodable(&h.name) && is_encodable(&h.uri),
    };
    if !hidden_fits {
        return false;
    }
    let header: u64 = data.to_bytes().len() as u64;
    proof {
        lemma_padded_len(data.symbol@, MAX_SYMBOL_LENGTH as int);
        lemma_data_len(data@);
        lemma_header_len(initial_machine(*accounts, remaining_accounts@, data@));
        lemma_line_start(data.items_available as int);
    }
    let more: u64 = if remaining_accounts.len() > 0 {
        123
    } else {
        91
    };
    size as u64 >= more && header - symbol as u64 <= size as u64 - more && size >= 4
        && starts_within(data.items_available, size - 4)
}

/// Sets up a candy machine. Where accounts remain, the first of them is the mint of the tokens
/// that the price is paid in.
pub fn initialize_candy_machine(
    accounts: &InitializeCandyMachine,
    remaining_accounts: &Vec<AccountSnapshot>,
    data: CandyMachineData,
    account_data: &mut [u8],
    program_id: Pubkey,
) -> (r: Result<(), ProgramError>)
    requires
        has_room_for_setup(
            *accounts,
            remaining_accounts@,
            data@,
            old(account_data)@,
            program_id,
        ),
    ensures
        match setup_fault(
            *accounts,
            remaining_accounts@,
            data@,
            old(account_data)@.len() as int,
            program_id,
        ) {
            Some(e) => r == Err::<(), ProgramError>(e) && final(account_data)@ == old(
                account_data,
            )@,
            None => if data.creators@.len() > MAX_CREATOR_LIMIT - 1 {
                r == Err::<(), ProgramError>(ProgramError::Candy(ErrorCode::TooManyCreators))
                    && final(account_data)@ == old(account_data)@
            } else {
                r is Ok && final(account_data)@ == set_up_account(
                    old(account_data)@,
                    initial_machine(*accounts, remaining_accounts@, data@),
                )
            },
        },
        r is Err ==> final(account_data)@ == old(account_data)@,
        r == setup_result(
            *accounts,
            remaining_accounts@,
            data@,
            old(account_data)@,
            program_id,
        ).0,
        final(account_data)@ == setup_result(
            *accounts,
            remaining_accounts@,
            data@,
            old(account_data)@,
            program_id,
        ).1,
{
    check_setup(accounts, remaining_accounts, &data, account_data.len(), program_id)?;
    let mut token_mint: Option<Pubkey> = None;
    if remaining_accounts.len() > 0 {
        token_mint = Some(remaining_accounts[0].key);
    }
    let ghost settings = data@;
    let symbol = pad(&data.symbol, MAX_SYMBOL_LENGTH);
    // One place is taken by the candy machine itself.
    if data.creators.len() > MAX_CREATOR_LIMIT - 1 {
        return Err(ProgramError::Candy(ErrorCode::TooManyCreators));
    }
    let mut machine = CandyMachine {
        authority: accounts.authority,
        wallet: accounts.wallet.key,
        token_mint,
        items_redeemed: 0,
        data,
    };
    machine.data.symbol = symbol;
    proof {
        lemma_padded_len(settings.symbol, MAX_SYMBOL_LENGTH as int);
        assert(machine@ =~= initial_machine(*accounts, remaining_accounts@, settings));
    }
    let header = machine.to_account_bytes();
    write_setup(account_data, header.as_slice(), machine.data.items_available);
    Ok(())
}

/// What replacing the settings returns, and the accounts after it.
pub open spec fn update_result(a: UpdateCandyMachine, data: CandyMachineData) -> (
    Result<(), ProgramError>,
    UpdateCandyMachine,
) {
    match a.violation() {
        Some(e) => (Err(e), a),
        None => if data.items_available != a.candy_machine.data.items_available
            && data.hidden_setting is None {
            (Err(ProgramError::Candy(ErrorCode::CannotChangeNumberOfLines)), a)
        } else {
            (
                Ok(()),
                UpdateCandyMachine { candy_machine: CandyMachine { data, ..a.candy_machine }, ..a },
            )
        },
    }
}

/// What handing over a candy machine returns, and the accounts after it.
pub open spec fn update_authority_result(a: UpdateCandyMachine, new_authority: Option<Pubkey>) -> (
    Result<(), ProgramError>,
    UpdateCandyMachine,
) {
    match a.violation() {
        Some(e) => (Err(e), a),
        None => match new_authority {
            None => (Ok(()), a),
            Some(authority) => (
                Ok(()),
                UpdateCandyMachine {
                    candy_machine: CandyMachine { authority, ..a.candy_machine },
                    ..a
                },
            ),
        },
    }
}

/// What withdrawing the lamports returns, and the accounts after it.
pub open spec fn withdraw_result(a: WithdrawFunds) -> (Result<(), ProgramError>, WithdrawFunds) {
    match a.violation() {
        Some(e) => (Err(e), a),
        None => if a.authority_lamports + a.candy_machine_lamports > u64::MAX {
            (
                Err(ProgramError::Candy(ErrorCode::NumericalOverflowError)),
                WithdrawFunds { candy_machine_lamports: 0, ..a },
            )
        } else {
            (
                Ok(()),
                WithdrawFunds {
                    candy_machine_lamports: 0,
                    authority_lamports: (a.authority_lamports + a.candy_machine_lamports) as u64,
                    ..a
                },
            )
        },
    }
}

/// Replaces the settings of a candy machine. The number of items can change only if the new
/// settings have a hidden setting.
pub fn update_candy_machine(accounts: &mut UpdateCandyMachine, data: CandyMachineData) -> (r: Result<
    (),
    ProgramError,
>)
    ensures
        match old(accounts).violation() {
            Some(e) => r == Err::<(), ProgramError>(e) && *final(accounts) == *old(accounts),
            None => if data.items_available != old(accounts).candy_machine.data.items_available
                && data.hidden_setting is None {
                r == Err::<(), ProgramError>(
                    ProgramError::Candy(ErrorCode::CannotChangeNumberOfLines),
                ) && *final(accounts) == *old(accounts)
            } else {
                r is Ok && *final(accounts) == (UpdateCandyMachine {
                    candy_machine: CandyMachine { data, ..old(accounts).candy_machine },
                    ..*old(accounts)
                })
            },
        },
        ({
            let before = old(accounts).candy_machine.data;
            let after = final(accounts).candy_machine.data;
            after.items_available == before.items_available || after.hidden_setting is Some
        }),
        r is Err ==> *final(accounts) == *old(accounts),
        r is Ok ==> old(accounts).authority == old(accounts).candy_machine.authority,
        r == update_result(*old(accounts), data).0,
        *final(accounts) == update_result(*old(accounts), data).1,
{
    accounts.check()?;
    if data.items_available != accounts.candy_machine.data.items_available
        && data.hidden_setting.is_none() {
        return Err(ProgramError::Candy(ErrorCode::CannotChangeNumberOfLines));
    }
    accounts.candy_machine.data = data;
    Ok(())
}

/// Hands a candy machine over to another authority, if one is given.
pub fn update_authority(accounts: &mut UpdateCandyMachine, new_authority: Option<Pubkey>) -> (r: Result<
    (),
    ProgramError,
>)
    ensures
        match old(accounts).violation() {
            Some(e) => r == Err::<(), ProgramError>(e) && *final(accounts) == *old(accounts),
            None => r is Ok && *final(accounts) == match new_authority {
                None => *old(accounts),
                Some(authority) => UpdateCandyMachine {
                    candy_machine: CandyMachine { authority, ..old(accounts).candy_machine },
                    ..*old(accounts)
                },
            },
        },
        r is Err ==> *final(accounts) == *old(accounts),
        r is Ok ==> old(accounts).authority == old(accounts).candy_machine.authority,
        r == update_authority_result(*old(accounts), new_authority).0,
        *final(accounts) == update_authority_result(*old(accounts), new_authority).1,
{
    accounts.check()?;
    if let Some(authority) = new_authority {
        accounts.candy_machine.authority = authority;
    }
    Ok(())
}

/// Moves all lamports of a candy machine to its authority.
pub fn withdraw_funds(accounts: &mut WithdrawFunds) -> (r: Result<(), ProgramError>)
    ensures
        match old(accounts).violation() {
            Some(e) => r == Err::<(), ProgramError>(e) && *final(accounts) == *old(accounts),
            None => {
                let total = old(accounts).authority_lamports + old(
                    accounts,
                ).candy_machine_lamports;
                if total > u64::MAX {
                    r == Err::<(), ProgramError>(
                        ProgramError::Candy(ErrorCode::NumericalOverflowError),
                    ) && *final(accounts) == (WithdrawFunds {
                        candy_machine_lamports: 0,
                        ..*old(accounts)
                    })
                } else {
                    r is Ok && *final(accounts) == (WithdrawFunds {
                        candy_machine_lamports: 0,
                        authority_lamports: total as u64,
                        ..*old(accounts)
                    })
                }
            },
        },
        r is Ok ==> final(accounts).candy_machine_lamports + final(accounts).authority_lamports
            == old(accounts).candy_machine_lamports + old(accounts).authority_lamports,
        r is Ok ==> old(accounts).authority == old(accounts).candy_machine.authority,
        r == withdraw_result(*old(accounts)).0,
        *final(accounts) == withdraw_result(*old(accounts)).1,
{
    accounts.check()?;
    let snapshot: u64 = accounts.candy_machine_lamports;
    accounts.candy_machine_lamports = 0;
    match accounts.authority_lamports.checked_add(snapshot) {
        None => Err(ProgramError::Candy(ErrorCode::NumericalOverflowError)),
        Some(total) => {
            accounts.authority_lamports = total;
            Ok(())
        },
    }
}

} // verus!
