//! The instructions that the candy machine hands to other programs.
use crate::codec::{borsh_str, fits_borsh, u16_le, u32_le, u64_le};
use crate::pubkey::Pubkey;
use crate::state::{bool_bytes, creators_bytes, option_bytes, Creator};
use anchor_lang::solana_program::program_error::ProgramError as SolanaError;
use anchor_lang::solana_program::pubkey::Pubkey as SolanaKey;
use anchor_lang::solana_program::system_instruction;
use metaplex_token_metadata::instruction as metadata_instruction;
use metaplex_token_metadata::state::Creator as MetadataCreator;
use spl_token::instruction as token_instruction;
use vstd::prelude::*;

verus! {

/// The address of the system program.
pub const SYSTEM_PROGRAM: [u8; 32] = [0, 0, 0, 0, 0, 0, 0, 0, 0, 0, 0, 0, 0, 0, 0, 0, 0, 0, 0, 0, 0, 0, 0, 0, 0, 0, 0, 0, 0, 0, 0, 0];

/// The address of the token program.
pub const TOKEN_PROGRAM: [u8; 32] = [6, 221, 246, 225, 215, 101, 161, 147, 217, 203, 225, 70, 206, 235, 121, 172, 28, 180, 133, 237, 95, 91, 55, 145, 58, 140, 245, 133, 126, 255, 0, 169];

/// The address of the account that holds the rent parameters.
pub const RENT_SYSVAR: [u8; 32] = [6, 167, 213, 23, 25, 44, 92, 81, 33, 140, 201, 76, 61, 74, 241, 127, 88, 218, 238, 8, 155, 161, 253, 68, 227, 219, 217, 138, 0, 0, 0, 0];

/// How an instruction uses an account.
#[derive(Clone, Copy, Debug)]
pub struct AccountMeta {
    pub pubkey: Pubkey,
    pub is_signer: bool,
    pub is_writable: bool,
}

/// An instruction for another program.
#[derive(Clone, Debug)]
pub struct Instruction {
    pub program_id: Pubkey,
    pub accounts: Vec<AccountMeta>,
    pub data: Vec<u8>,
}

/// What an [`Instruction`] holds.
#[verifier::ext_equal]
pub struct InstructionView {
    pub program_id: Pubkey,
    pub accounts: Seq<AccountMeta>,
    pub data: Seq<u8>,
}

impl View for Instruction {
    type V = InstructionView;

    open spec fn view(&self) -> InstructionView {
        InstructionView {
            program_id: self.program_id,
            accounts: self.accounts@,
            data: self.data@,
        }
    }
}

/// An account that an instruction writes to.
pub open spec fn writable(pubkey: Pubkey, is_signer: bool) -> AccountMeta {
    AccountMeta { pubkey, is_signer, is_writable: true }
}

/// An account that an instruction only reads.
pub open spec fn readonly(pubkey: Pubkey, is_signer: bool) -> AccountMeta {
    AccountMeta { pubkey, is_signer, is_writable: false }
}

/// The instruction that creates the metadata of an item.
pub open spec fn create_metadata_view(
    program_id: Pubkey,
    metadata: Pubkey,
    mint: Pubkey,
    mint_authority: Pubkey,
    payer: Pubkey,
    update_authority: Pubkey,
    name: Seq<char>,
    symbol: Seq<char>,
    uri: Seq<char>,
    creators: Seq<Creator>,
    seller_fee_basis_points: u16,
    update_authority_is_signer: bool,
    is_mutable: bool,
) -> InstructionView {
    InstructionView {
        program_id,
        accounts: seq![
            writable(metadata, false),
            readonly(mint, false),
            readonly(mint_authority, true),
            writable(payer, true),
            readonly(update_authority, update_authority_is_signer),
            readonly(Pubkey { bytes: SYSTEM_PROGRAM }, false),
            readonly(Pubkey { bytes: RENT_SYSVAR }, false),
        ],
        data: seq![0u8] + borsh_str(name) + borsh_str(symbol) + borsh_str(uri) + u16_le(
            seller_fee_basis_points as int,
        ) + option_bytes(Some(u32_le(creators.len() as int) + creators_bytes(creators)))
            + bool_bytes(is_mutable),
    }
}

/// The instruction that makes an item a master edition.
pub open spec fn create_master_edition_view(
    program_id: Pubkey,
    edition: Pubkey,
    mint: Pubkey,
    update_authority: Pubkey,
    mint_authority: Pubkey,
    metadata: Pubkey,
    payer: Pubkey,
    max_supply: Option<u64>,
) -> InstructionView {
    InstructionView {
        program_id,
        accounts: seq![
            writable(edition, false),
            writable(mint, false),
            readonly(update_authority, true),
            readonly(mint_authority, true),
            writable(payer, true),
            readonly(metadata, false),
            readonly(Pubkey { bytes: TOKEN_PROGRAM }, false),
            readonly(Pubkey { bytes: SYSTEM_PROGRAM }, false),
            readonly(Pubkey { bytes: RENT_SYSVAR }, false),
        ],
        data: seq![10u8] + option_bytes(
            match max_supply {
                Some(n) => Some(u64_le(n as int)),
                None => None,
            },
        ),
    }
}

/// The instruction that changes who may update the metadata of an item, and whether its first
/// sale has happened, and leaves what the metadata says as it is.
pub open spec fn update_metadata_view(
    program_id: Pubkey,
    metadata: Pubkey,
    update_authority: Pubkey,
    new_update_authority: Option<Pubkey>,
    primary_sale_happened: Option<bool>,
) -> InstructionView {
    InstructionView {
        program_id,
        accounts: seq![writable(metadata, false), readonly(update_authority, true)],
        data: seq![1u8] + option_bytes(None) + option_bytes(
            match new_update_authority {
                Some(key) => Some(key@),
                None => None,
            },
        ) + option_bytes(
            match primary_sale_happened {
                Some(b) => Some(bool_bytes(b)),
                None => None,
            },
        ),
    }
}

/// The instruction that moves lamports from one account to another.
pub open spec fn system_transfer_view(from: Pubkey, to: Pubkey, lamports: u64) -> InstructionView {
    InstructionView {
        program_id: Pubkey { bytes: SYSTEM_PROGRAM },
        accounts: seq![writable(from, true), writable(to, false)],
        data: u32_le(2) + u64_le(lamports as int),
    }
}

/// The instruction that burns tokens.
pub open spec fn token_burn_view(
    token_program: Pubkey,
    source: Pubkey,
    mint: Pubkey,
    authority: Pubkey,
    amount: u64,
) -> InstructionView {
    InstructionView {
        program_id: token_program,
        accounts: seq![writable(source, false), writable(mint, false), readonly(authority, true)],
        data: seq![8u8] + u64_le(amount as int),
    }
}

/// The instruction that moves tokens from one account to another.
pub open spec fn token_transfer_view(
    token_program: Pubkey,
    source: Pubkey,
    destination: Pubkey,
    authority: Pubkey,
    amount: u64,
) -> InstructionView {
    InstructionView {
        program_id: token_program,
        accounts: seq![
            writable(source, false),
            writable(destination, false),
            readonly(authority, true),
        ],
        data: seq![3u8] + u64_le(amount as int),
    }
}

/// The error type of the runtime's crate.
#[verifier::external_type_specification]
#[verifier::external_body]
pub struct ExSolanaError(SolanaError);

/// Calls `create_metadata_accounts` of the token metadata crate, with creators. It is claimed
/// to return the instruction of [`create_metadata_view`]. It panics on a text or a number of
/// creators whose length does not fit in a `u32`.
#[verifier::external_body]
pub(crate) fn create_metadata(
    program_id: Pubkey,
    metadata: Pubkey,
    mint: Pubkey,
    mint_authority: Pubkey,
    payer: Pubkey,
    update_authority: Pubkey,
    name: String,
    symbol: String,
    uri: String,
    creators: &Vec<Creator>,
    seller_fee_basis_points: u16,
    update_authority_is_signer: bool,
    is_mutable: bool,
) -> (r: Instruction)
    requires
        fits_borsh(name@),
        fits_borsh(symbol@),
        fits_borsh(uri@),
        creators@.len() <= u32::MAX,
    ensures
        r@ == create_metadata_view(
            program_id,
            metadata,
            mint,
            mint_authority,
            payer,
            update_authority,
            name@,
            symbol@,
            uri@,
            creators@,
            seller_fee_basis_points,
            update_authority_is_signer,
            is_mutable,
        ),
{
    let k = |p: Pubkey| SolanaKey::new_from_array(p.bytes);
    let c = |c: &Creator| MetadataCreator { address: k(c.address), verified: c.verified, share: c.share };
    let ix = metadata_instruction::create_metadata_accounts(
        k(program_id), k(metadata), k(mint), k(mint_authority), k(payer), k(update_authority),
        name, symbol, uri, Some(creators.iter().map(c).collect()),
        seller_fee_basis_points, update_authority_is_signer, is_mutable,
    );
    Instruction {
        program_id: Pubkey { bytes: ix.program_id.to_bytes() },
        accounts: ix.accounts.iter().map(|m| AccountMeta { pubkey: Pubkey { bytes: m.pubkey.to_bytes() }, is_signer: m.is_signer, is_writable: m.is_writable }).collect(),
        data: ix.data,
    }
}

/// Calls `create_master_edition` of the token metadata crate. It is claimed to return the
/// instruction of [`create_master_edition_view`].
#[verifier::external_body]
pub(crate) fn create_master_edition(
    program_id: Pubkey,
    edition: Pubkey,
    mint: Pubkey,
    update_authority: Pubkey,
    mint_authority: Pubkey,
    metadata: Pubkey,
    payer: Pubkey,
    max_supply: Option<u64>,
) -> (r: Instruction)
    ensures
        r@ == create_master_edition_view(
            program_id,
            edition,
            mint,
            update_authority,
            mint_authority,
            metadata,
            payer,
            max_supply,
        ),
{
    let k = |p: Pubkey| SolanaKey::new_from_array(p.bytes);
    let ix = metadata_instruction::create_master_edition(
        k(program_id), k(edition), k(mint), k(update_authority), k(mint_authority), k(metadata),
        k(payer), max_supply,
    );
    Instruction {
        program_id: Pubkey { bytes: ix.program_id.to_bytes() },
        accounts: ix.accounts.iter().map(|m| AccountMeta { pubkey: Pubkey { bytes: m.pubkey.to_bytes() }, is_signer: m.is_signer, is_writable: m.is_writable }).collect(),
        data: ix.data,
    }
}

/// Calls `update_metadata_accounts` of the token metadata crate, with no new data. It is
/// claimed to return the instruction of [`update_metadata_view`].
#[verifier::external_body]
pub(crate) fn update_metadata(
    program_id: Pubkey,
    metadata: Pubkey,
    update_authority: Pubkey,
    new_update_authority: Option<Pubkey>,
    primary_sale_happened: Option<bool>,
) -> (r: Instruction)
    ensures
        r@ == update_metadata_view(
            program_id,
            metadata,
            update_authority,
            new_update_authority,
            primary_sale_happened,
        ),
{
    let k = |p: Pubkey| SolanaKey::new_from_array(p.bytes);
    let ix = metadata_instruction::update_metadata_accounts(
        k(program_id), k(metadata), k(update_authority), new_update_authority.map(k), None,
        primary_sale_happened,
    );
    Instruction {
        program_id: Pubkey { bytes: ix.program_id.to_bytes() },
        accounts: ix.accounts.iter().map(|m| AccountMeta { pubkey: Pubkey { bytes: m.pubkey.to_bytes() }, is_signer: m.is_signer, is_writable: m.is_writable }).collect(),
        data: ix.data,
    }
}

/// Calls `system_instruction::transfer` of the runtime's crate. It is claimed to return the
/// instruction of [`system_transfer_view`].
#[verifier::external_body]
pub(crate) fn system_transfer(from: Pubkey, to: Pubkey, lamports: u64) -> (r: Instruction)
    ensures
        r@ == system_transfer_view(from, to, lamports),
{
    let k = |p: Pubkey| SolanaKey::new_from_array(p.bytes);
    let ix = system_instruction::transfer(&k(from), &k(to), lamports);
    Instruction {
        program_id: Pubkey { bytes: ix.program_id.to_bytes() },
        accounts: ix.accounts.iter().map(|m| AccountMeta { pubkey: Pubkey { bytes: m.pubkey.to_bytes() }, is_signer: m.is_signer, is_writable: m.is_writable }).collect(),
        data: ix.data,
    }
}

/// Calls `instruction::burn` of the token program's crate for an authority that signs itself.
/// It is claimed to fail exactly if the program is not the token program, and otherwise to
/// return the instruction of [`token_burn_view`].
#[verifier::external_body]
pub(crate) fn token_burn(
    token_program: Pubkey,
    source: Pubkey,
    mint: Pubkey,
    authority: Pubkey,
    amount: u64,
) -> (r: Result<Instruction, SolanaError>)
    ensures
        match r {
            Ok(ix) => token_program@ == TOKEN_PROGRAM@ && ix@ == token_burn_view(
                token_program,
                source,
                mint,
                authority,
                amount,
            ),
            Err(_) => token_program@ != TOKEN_PROGRAM@,
        },
{
    let k = |p: Pubkey| SolanaKey::new_from_array(p.bytes);
    let ix = token_instruction::burn(&k(token_program), &k(source), &k(mint), &k(authority), &[], amount)?;
    Ok(Instruction {
        program_id: Pubkey { bytes: ix.program_id.to_bytes() },
        accounts: ix.accounts.iter().map(|m| AccountMeta { pubkey: Pubkey { bytes: m.pubkey.to_bytes() }, is_signer: m.is_signer, is_writable: m.is_writable }).collect(),
        data: ix.data,
    })
}

/// Calls `instruction::transfer` of the token program's crate for an authority that signs
/// itself. It is claimed to fail exactly if the program is not the token program, and
/// otherwise to return the instruction of [`token_transfer_view`].
#[verifier::external_body]
pub(crate) fn token_transfer(
    token_program: Pubkey,
    source: Pubkey,
    destination: Pubkey,
    authority: Pubkey,
    amount: u64,
) -> (r: Result<Instruction, SolanaError>)
    ensures
        match r {
            Ok(ix) => token_program@ == TOKEN_PROGRAM@ && ix@ == token_transfer_view(
                token_program,
                source,
                destination,
                authority,
                amount,
            ),
            Err(_) => token_program@ != TOKEN_PROGRAM@,
        },
{
    let k = |p: Pubkey| SolanaKey::new_from_array(p.bytes);
    let ix = token_instruction::transfer(&k(token_program), &k(source), &k(destination), &k(authority), &[], amount)?;
    Ok(Instruction {
        program_id: Pubkey { bytes: ix.program_id.to_bytes() },
        accounts: ix.accounts.iter().map(|m| AccountMeta { pubkey: Pubkey { bytes: m.pubkey.to_bytes() }, is_signer: m.is_signer, is_writable: m.is_writable }).collect(),
        data: ix.data,
    })
}

} // verus!
