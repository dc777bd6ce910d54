//! Checks on accounts that are passed in, and what is asked of the token program.
use crate::codec::u64_at;
use crate::error::{ErrorCode, ProgramError};
use crate::instruction::{
    token_burn, token_burn_view, token_transfer, token_transfer_view, Instruction,
    InstructionView, TOKEN_PROGRAM,
};
use crate::pubkey::{lemma_same_bytes, Pubkey};
use anchor_lang::solana_program::program_error::ProgramError as SolanaError;
use anchor_lang::solana_program::program_pack::{IsInitialized, Pack};
use anchor_lang::solana_program::pubkey::Pubkey as SolanaKey;
use vstd::prelude::*;

verus! {

/// The address of the program that gives every wallet its token accounts.
pub const ASSOCIATED_TOKEN_PROGRAM: [u8; 32] = [140, 151, 37, 143, 78, 36, 137, 241, 187, 61, 16, 41, 20, 142, 13, 131, 11, 90, 19, 153, 218, 255, 16, 132, 4, 142, 123, 216, 219, 233, 248, 89];

/// An account as it is when an instruction reads it.
#[derive(Clone, Debug)]
pub struct AccountSnapshot {
    pub key: Pubkey,
    /// The program that the account belongs to.
    pub owner: Pubkey,
    pub data: Vec<u8>,
}

/// What is read of a token account.
#[derive(Clone, Copy, Debug)]
pub struct TokenAccount {
    pub mint: Pubkey,
    pub owner: Pubkey,
    pub amount: u64,
    pub is_initialized: bool,
}

/// What a [`TokenAccount`] holds.
#[verifier::ext_equal]
pub struct TokenAccountView {
    pub mint: Seq<u8>,
    pub owner: Seq<u8>,
    pub amount: int,
    pub is_initialized: bool,
}

impl View for TokenAccount {
    type V = TokenAccountView;

    open spec fn view(&self) -> TokenAccountView {
        TokenAccountView {
            mint: self.mint@,
            owner: self.owner@,
            amount: self.amount as int,
            is_initialized: self.is_initialized,
        }
    }
}

/// Whether the four bytes from `at` on tell that an optional value is there, or that it is not.
pub open spec fn is_option_tag(b: Seq<u8>, at: int) -> bool {
    b[at] <= 1 && b[at + 1] == 0 && b[at + 2] == 0 && b[at + 3] == 0
}

/// The token account that `b` stands for, if it stands for one. It has 165 bytes: the mint,
/// the owner, the amount, an optional delegate, the state of the account, an optional reserve,
/// the delegated amount and an optional authority to close it.
pub open spec fn parse_token_account(b: Seq<u8>) -> Option<TokenAccountView> {
    if b.len() == 165 && is_option_tag(b, 72) && b[108] <= 2 && is_option_tag(b, 109)
        && is_option_tag(b, 129) {
        Some(
            TokenAccountView {
                mint: b.subrange(0, 32),
                owner: b.subrange(32, 64),
                amount: u64_at(b, 64),
                is_initialized: b[108] != 0,
            },
        )
    } else {
        None
    }
}

/// Whether the token mint that `b` stands for is initialized, if `b` stands for one. It has 82
/// bytes: an optional authority, the supply, the decimals, whether it is initialized, and
/// another optional authority.
pub open spec fn parse_mint(b: Seq<u8>) -> Option<bool> {
    if b.len() == 82 && is_option_tag(b, 0) && b[45] <= 1 && is_option_tag(b, 46) {
        Some(b[45] == 1)
    } else {
        None
    }
}

/// Calls `Account::unpack_unchecked` of the token program's crate. It is claimed to succeed
/// exactly on the bytes that [`parse_token_account`] accepts, and to return what that gives.
#[verifier::external_body]
pub(crate) fn unpack_token_account(data: &[u8]) -> (r: Result<TokenAccount, SolanaError>)
    ensures
        match r {
            Ok(account) => parse_token_account(data@) == Some(account@),
            Err(_) => parse_token_account(data@) is None,
        },
{
    let a = spl_token::state::Account::unpack_unchecked(data)?;
    Ok(TokenAccount {
        mint: Pubkey { bytes: a.mint.to_bytes() },
        owner: Pubkey { bytes: a.owner.to_bytes() },
        amount: a.amount,
        is_initialized: a.is_initialized(),
    })
}

/// Calls `Mint::unpack_unchecked` of the token program's crate. It is claimed to succeed
/// exactly on the bytes that [`parse_mint`] accepts, and to tell whether the mint is
/// initialized.
#[verifier::external_body]
pub(crate) fn unpack_mint(data: &[u8]) -> (r: Result<bool, SolanaError>)
    ensures
        match r {
            Ok(is_initialized) => parse_mint(data@) == Some(is_initialized),
            Err(_) => parse_mint(data@) is None,
        },
{
    Ok(spl_token::state::Mint::unpack_unchecked(data)?.is_initialized())
}

/// The bytes of a list of seeds.
pub open spec fn seed_bytes(seeds: Seq<Vec<u8>>) -> Seq<Seq<u8>> {
    seeds.map_values(|seed: Vec<u8>| seed@)
}

/// The bytes of an address, if there is one.
pub open spec fn key_bytes(key: Option<Pubkey>) -> Option<Seq<u8>> {
    match key {
        Some(k) => Some(k@),
        None => None,
    }
}

/// The address that a program derives from seeds, if they give one.
pub uninterp spec fn program_address(seeds: Seq<Seq<u8>>, program_id: Seq<u8>) -> Option<Seq<u8>>;

/// The first address that a program derives from seeds and a byte behind them, counted down
/// from the largest, if there is one.
pub uninterp spec fn found_program_address(seeds: Seq<Seq<u8>>, program_id: Seq<u8>) -> Option<
    Seq<u8>,
>;

/// Calls `Pubkey::create_program_address` of the runtime's crate, a hash of the seeds and the
/// program that fails where it is a point of the key curve. Its result is claimed to depend on
/// the seeds and the program alone.
#[verifier::external_body]
pub(crate) fn create_program_address(seeds: &Vec<Vec<u8>>, program_id: Pubkey) -> (r: Option<
    Pubkey,
>)
    ensures
        key_bytes(r) == program_address(seed_bytes(seeds@), program_id@),
{
    let list: Vec<&[u8]> = seeds.iter().map(|seed| seed.as_slice()).collect();
    let made = SolanaKey::create_program_address(&list, &SolanaKey::new_from_array(program_id.bytes));
    made.ok().map(|key| Pubkey { bytes: key.to_bytes() })
}

/// Calls `Pubkey::try_find_program_address` of the runtime's crate. Its result is claimed to
/// depend on the seeds and the program alone.
#[verifier::external_body]
pub(crate) fn find_program_address(seeds: &Vec<Vec<u8>>, program_id: Pubkey) -> (r: Option<Pubkey>)
    ensures
        key_bytes(r) == found_program_address(seed_bytes(seeds@), program_id@),
{
    let list: Vec<&[u8]> = seeds.iter().map(|seed| seed.as_slice()).collect();
    let found = SolanaKey::try_find_program_address(&list, &SolanaKey::new_from_array(program_id.bytes));
    found.map(|pair| Pubkey { bytes: pair.0.to_bytes() })
}

/// A copy of the bytes of a slice.
pub(crate) fn copy_of(bytes: &[u8]) -> (r: Vec<u8>)
    ensures
        r@ == bytes@,
{
    let mut out: Vec<u8> = Vec::new();
    crate::state::push_bytes(&mut out, bytes);
    assert(out@ =~= bytes@);
    out
}

/// The address of the account in which `wallet` holds tokens of `mint`.
pub open spec fn associated_token_address(wallet: Pubkey, mint: Pubkey) -> Option<Seq<u8>> {
    found_program_address(
        seq![wallet@, TOKEN_PROGRAM@, mint@],
        ASSOCIATED_TOKEN_PROGRAM@,
    )
}

/// The address of the account in which `wallet` holds tokens of `mint`.
pub fn get_associated_token_address(wallet: Pubkey, mint: Pubkey) -> (r: Option<Pubkey>)
    ensures
        key_bytes(r) == associated_token_address(wallet, mint),
{
    let seeds = vec![
        copy_of(wallet.bytes.as_slice()),
        copy_of(TOKEN_PROGRAM.as_slice()),
        copy_of(mint.bytes.as_slice()),
    ];
    assert(seed_bytes(seeds@) =~= seq![wallet@, TOKEN_PROGRAM@, mint@]);
    find_program_address(&seeds, Pubkey { bytes: ASSOCIATED_TOKEN_PROGRAM })
}

/// Refuses two addresses that differ.
pub fn assert_keys_equal(key1: Pubkey, key2: Pubkey) -> (r: Result<(), ProgramError>)
    ensures
        if key1 == key2 {
            r is Ok
        } else {
            r == Err::<(), ProgramError>(ProgramError::Candy(ErrorCode::PublicKeyMismatch))
        },
{
    if key1 != key2 {
        Err(ProgramError::Candy(ErrorCode::PublicKeyMismatch))
    } else {
        Ok(())
    }
}

/// Refuses an account that does not belong to the program `owner`.
pub fn assert_owned_by(account: &AccountSnapshot, owner: Pubkey) -> (r: Result<(), ProgramError>)
    ensures
        if account.owner == owner {
            r is Ok
        } else {
            r == Err::<(), ProgramError>(ProgramError::Candy(ErrorCode::IncorrectOwner))
        },
{
    if account.owner != owner {
        Err(ProgramError::Candy(ErrorCode::IncorrectOwner))
    } else {
        Ok(())
    }
}

/// The initialized token account that `data` holds, or why it holds none.
pub open spec fn initialized_account(data: Seq<u8>) -> Result<TokenAccountView, ProgramError> {
    match parse_token_account(data) {
        None => Err(ProgramError::InvalidAccountData),
        Some(account) => if account.is_initialized {
            Ok(account)
        } else {
            Err(ProgramError::Candy(ErrorCode::Uninitialized))
        },
    }
}

/// What a token account that was read, or the reason why none was, holds.
pub open spec fn account_result(r: Result<TokenAccount, ProgramError>) -> Result<
    TokenAccountView,
    ProgramError,
> {
    match r {
        Ok(account) => Ok(account@),
        Err(e) => Err(e),
    }
}

/// Reads the initialized token account that an account holds.
pub fn assert_initialized(account: &AccountSnapshot) -> (r: Result<TokenAccount, ProgramError>)
    ensures
        account_result(r) == initialized_account(account.data@),
{
    match unpack_token_account(account.data.as_slice()) {
        Err(_) => Err(ProgramError::InvalidAccountData),
        Ok(token_account) => if token_account.is_initialized {
            Ok(token_account)
        } else {
            Err(ProgramError::Candy(ErrorCode::Uninitialized))
        },
    }
}

/// Why `data` does not hold an initialized token mint, if it does not.
pub open spec fn mint_fault(data: Seq<u8>) -> Option<ProgramError> {
    match parse_mint(data) {
        None => Some(ProgramError::InvalidAccountData),
        Some(is_initialized) => if is_initialized {
            None
        } else {
            Some(ProgramError::Candy(ErrorCode::Uninitialized))
        },
    }
}

/// Refuses an account that does not hold an initialized token mint.
pub fn assert_initialized_mint(account: &AccountSnapshot) -> (r: Result<(), ProgramError>)
    ensures
        match mint_fault(account.data@) {
            Some(e) => r == Err::<(), ProgramError>(e),
            None => r is Ok,
        },
{
    match unpack_mint(account.data.as_slice()) {
        Err(_) => Err(ProgramError::InvalidAccountData),
        Ok(is_initialized) => if is_initialized {
            Ok(())
        } else {
            Err(ProgramError::Candy(ErrorCode::Uninitialized))
        },
    }
}

/// The token account that an account holds, if it belongs to `wallet` and stands at `address`,
/// or why it does not.
pub open spec fn ata_result(
    account: AccountSnapshot,
    wallet: Pubkey,
    address: Option<Seq<u8>>,
) -> Result<TokenAccountView, ProgramError> {
    if account.owner@ != TOKEN_PROGRAM@ {
        Err(ProgramError::Candy(ErrorCode::IncorrectOwner))
    } else {
        match initialized_account(account.data@) {
            Err(e) => Err(e),
            Ok(token_account) => if token_account.owner != wallet@ || address != Some(
                account.key@,
            ) {
                Err(ProgramError::Candy(ErrorCode::PublicKeyMismatch))
            } else {
                Ok(token_account)
            },
        }
    }
}

/// Reads the token account of `wallet` that stands at `address`, and refuses any other account.
pub fn check_ata(ata: &AccountSnapshot, wallet: Pubkey, address: Option<Pubkey>) -> (r: Result<
    TokenAccount,
    ProgramError,
>)
    ensures
        account_result(r) == ata_result(*ata, wallet, key_bytes(address)),
{
    let token_program = Pubkey { bytes: TOKEN_PROGRAM };
    proof {
        if ata.owner@ == token_program@ {
            lemma_same_bytes(ata.owner, token_program);
        }
    }
    assert_owned_by(ata, token_program)?;
    let account = assert_initialized(ata)?;
    proof {
        if account.owner@ == wallet@ {
            lemma_same_bytes(account.owner, wallet);
        }
    }
    assert_keys_equal(account.owner, wallet)?;
    match address {
        None => Err(ProgramError::Candy(ErrorCode::PublicKeyMismatch)),
        Some(key) => {
            proof {
                if key@ == ata.key@ {
                    lemma_same_bytes(key, ata.key);
                }
            }
            assert_keys_equal(key, ata.key)?;
            Ok(account)
        },
    }
}

/// Reads the account in which `wallet` holds tokens of `mint`, and refuses any other account.
pub fn assert_is_ata(ata: &AccountSnapshot, wallet: Pubkey, mint: Pubkey) -> (r: Result<
    TokenAccount,
    ProgramError,
>)
    ensures
        account_result(r) == ata_result(*ata, wallet, associated_token_address(wallet, mint)),
{
    check_ata(ata, wallet, get_associated_token_address(wallet, mint))
}

/// The seeds with which the candy machine signs for the account that it is a creator with.
#[derive(Clone, Copy, Debug)]
pub struct SignerSeeds {
    pub candy_machine: Pubkey,
    pub bump: u8,
}

/// What is asked of the token program to burn tokens.
#[derive(Clone, Copy, Debug)]
pub struct TokenBurnParams {
    pub mint: Pubkey,
    pub source: Pubkey,
    pub amount: u64,
    pub authority: Pubkey,
    pub authority_signer_seeds: Option<SignerSeeds>,
    pub token_program: Pubkey,
}

/// What is asked of the token program to move tokens.
#[derive(Clone, Copy, Debug)]
pub struct TokenTransferParams {
    pub source: Pubkey,
    pub destination: Pubkey,
    pub amount: u64,
    pub authority: Pubkey,
    pub authority_signer_seeds: Option<SignerSeeds>,
    pub token_program: Pubkey,
}

/// What an instruction that was made, or the reason why none was, holds.
pub open spec fn instruction_result(r: Result<Instruction, ProgramError>) -> Result<
    InstructionView,
    ProgramError,
> {
    match r {
        Ok(ix) => Ok(ix@),
        Err(e) => Err(e),
    }
}

impl TokenBurnParams {
    /// The instruction for the token program.
    pub fn instruction(&self) -> (r: Result<Instruction, ProgramError>)
        ensures
            instruction_result(r) == if self.token_program@ == TOKEN_PROGRAM@ {
                Ok::<InstructionView, ProgramError>(
                    token_burn_view(
                        self.token_program,
                        self.source,
                        self.mint,
                        self.authority,
                        self.amount,
                    ),
                )
            } else {
                Err(ProgramError::IncorrectProgramId)
            },
    {
        match token_burn(
            self.token_program,
            self.source,
            self.mint,
            self.authority,
            self.amount,
        ) {
            Ok(ix) => Ok(ix),
            Err(_) => Err(ProgramError::IncorrectProgramId),
        }
    }
}

impl TokenTransferParams {
    /// The instruction for the token program.
    pub fn instruction(&self) -> (r: Result<Instruction, ProgramError>)
        ensures
            instruction_result(r) == if self.token_program@ == TOKEN_PROGRAM@ {
                Ok::<InstructionView, ProgramError>(
                    token_transfer_view(
                        self.token_program,
                        self.source,
                        self.destination,
                        self.authority,
                        self.amount,
                    ),
                )
            } else {
                Err(ProgramError::IncorrectProgramId)
            },
    {
        match token_transfer(
            self.token_program,
            self.source,
            self.destination,
            self.authority,
            self.amount,
        ) {
            Ok(ix) => Ok(ix),
            Err(_) => Err(ProgramError::IncorrectProgramId),
        }
    }
}

} // verus!
