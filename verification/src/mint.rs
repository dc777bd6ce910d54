//! The sale of an item.
//!
//! A sale goes through stages. Each stage decides what another program is asked to do, and the
//! sale goes on with the next stage once that has been done.
use crate::accounts::MintNFT;
use crate::codec::{fits_borsh, is_encodable, read_u32, read_u64, u32_at, u64_at};
use crate::config_lines::{
    can_take_config_line, get_config_line, has_line_to_take, hidden_line, hidden_name, line_at,
    read_line, taken_out, ConfigLineView,
};
use crate::error::{ErrorCode, ProgramError};
use crate::instruction::{
    create_master_edition, create_master_edition_view, create_metadata, create_metadata_view,
    system_transfer, system_transfer_view, token_burn_view, token_transfer_view, update_metadata,
    update_metadata_view, Instruction, InstructionView, TOKEN_PROGRAM,
};
use crate::layout::CONFIG_ARRAY_START;
use crate::pubkey::Pubkey;
use crate::state::{CandyMachine, Creator, EndSettings, WhitelistMintMode, WhitelistMintSettings};
use crate::utils::{
    assert_keys_equal, associated_token_address, ata_result, check_ata,
    get_associated_token_address, key_bytes, AccountSnapshot, SignerSeeds, TokenBurnParams,
    TokenTransferParams,
};
use vstd::prelude::*;

verus! {

/// What a sale has to do next.
#[derive(Clone, Copy, Debug, PartialEq, Eq, Structural)]
pub enum MintStage {
    /// Test whether the buyer may buy, and take the whitelist token.
    Begin,
    /// Take the price.
    Pay,
    /// Draw the item and create its metadata.
    Issue,
    /// Make the item a master edition.
    MasterEdition,
    /// Hand the item over to who may update it from now on.
    HandOver,
    /// Nothing.
    Finish,
}

/// An account that is passed on to another program.
#[derive(Clone, Copy, Debug, PartialEq, Eq, Structural)]
pub enum MintAccount {
    CandyMachineCreator,
    Payer,
    Wallet,
    Metadata,
    Mint,
    MintAuthority,
    MasterEdition,
    TokenMetadataProgram,
    TokenProgram,
    SystemProgram,
    Rent,
    /// One of the accounts that are passed in behind the named ones.
    Remaining(usize),
}

/// What another program is asked to do.
pub struct Invocation {
    pub instruction: Instruction,
    pub accounts: Vec<MintAccount>,
    /// The seeds with which the candy machine signs, where it does.
    pub signer_seeds: Option<SignerSeeds>,
}

/// What an [`Invocation`] holds.
#[verifier::ext_equal]
pub struct InvocationView {
    pub instruction: InstructionView,
    pub accounts: Seq<MintAccount>,
    pub signer_seeds: Option<SignerSeeds>,
}

impl View for Invocation {
    type V = InvocationView;

    open spec fn view(&self) -> InvocationView {
        InvocationView {
            instruction: self.instruction@,
            accounts: self.accounts@,
            signer_seeds: self.signer_seeds,
        }
    }
}

/// What is to be done, and the stage with which the sale goes on after that.
pub struct MintStep {
    pub invocation: Invocation,
    pub stage: MintStage,
}

/// What a [`MintStep`] holds.
#[verifier::ext_equal]
pub struct MintStepView {
    pub invocation: InvocationView,
    pub stage: MintStage,
}

impl View for MintStep {
    type V = MintStepView;

    open spec fn view(&self) -> MintStepView {
        MintStepView { invocation: self.invocation@, stage: self.stage }
    }
}

/// What a step that was taken, or the reason why none was, holds.
pub open spec fn step_result(r: Result<Option<MintStep>, ProgramError>) -> Result<
    Option<MintStepView>,
    ProgramError,
> {
    match r {
        Ok(Some(step)) => Ok(Some(step@)),
        Ok(None) => Ok(None),
        Err(e) => Err(e),
    }
}

/// The addresses that a sale derives, where they are needed and there are such.
#[derive(Clone, Copy, Debug)]
pub struct DerivedAddresses {
    /// The address with which the candy machine is a creator.
    pub creator: Option<Pubkey>,
    /// Where the whitelist token is held.
    pub whitelist_account: Option<Pubkey>,
    /// Where the tokens are held that the price is paid in.
    pub payment_account: Option<Pubkey>,
}

/// What [`DerivedAddresses`] hold.
#[verifier::ext_equal]
pub struct DerivedAddressesView {
    pub creator: Option<Seq<u8>>,
    pub whitelist_account: Option<Seq<u8>>,
    pub payment_account: Option<Seq<u8>>,
}

impl View for DerivedAddresses {
    type V = DerivedAddressesView;

    open spec fn view(&self) -> DerivedAddressesView {
        DerivedAddressesView {
            creator: key_bytes(self.creator),
            whitelist_account: key_bytes(self.whitelist_account),
            payment_account: key_bytes(self.payment_account),
        }
    }
}

/// Whether the sale is over for this buyer. The authority may still buy after the end date.
pub open spec fn sale_ended(a: MintNFT) -> bool {
    match a.candy_machine.data.end_settings {
        None => false,
        Some(EndSettings::Date(date)) => a.unix_timestamp > date && a.payer
            != a.candy_machine.authority,
        Some(EndSettings::Amount(amount)) => a.candy_machine.items_redeemed > amount,
    }
}

/// Whether the sale has begun for this buyer: the authority may buy at any time, and so may the
/// holder of a whitelist token if there is a presale.
pub open spec fn is_live(a: MintNFT) -> bool {
    ||| a.payer == a.candy_machine.authority
    ||| a.candy_machine.data.whitelist_mint_settings matches Some(ws) && ws.presale
    ||| a.candy_machine.data.go_live_date matches Some(date) && a.unix_timestamp >= date
}

/// What the item costs: for the holder of a whitelist token the discount price, where there is
/// one.
pub open spec fn price_of(m: CandyMachine) -> u64 {
    match m.data.whitelist_mint_settings {
        Some(ws) => match ws.discount_price {
            Some(discount) => discount,
            None => m.data.price,
        },
        None => m.data.price,
    }
}

/// The place among the remaining accounts of the one from which tokens are paid: behind those
/// that are there for the whitelist token. The one behind it signs for the payment.
pub open spec fn payment_place(m: CandyMachine) -> int {
    match m.data.whitelist_mint_settings {
        None => 0,
        Some(ws) => if ws.mode == WhitelistMintMode::BurnEveryTime {
            3
        } else {
            1
        },
    }
}

/// The step that burns the whitelist token.
pub open spec fn burn_step(a: MintNFT, remaining: Seq<AccountSnapshot>) -> MintStepView {
    MintStepView {
        invocation: InvocationView {
            instruction: token_burn_view(
                a.token_program,
                remaining[0].key,
                remaining[1].key,
                remaining[2].key,
                1,
            ),
            accounts: seq![
                MintAccount::Remaining(0),
                MintAccount::Remaining(1),
                MintAccount::Remaining(2),
                MintAccount::TokenProgram,
            ],
            signer_seeds: None,
        },
        stage: MintStage::Pay,
    }
}

/// The step that takes the price in tokens.
pub open spec fn token_payment_step(a: MintNFT, remaining: Seq<AccountSnapshot>) -> MintStepView {
    let place = payment_place(a.candy_machine);
    MintStepView {
        invocation: InvocationView {
            instruction: token_transfer_view(
                a.token_program,
                remaining[place].key,
                a.wallet.key,
                remaining[place + 1].key,
                price_of(a.candy_machine),
            ),
            accounts: seq![
                MintAccount::Remaining(place as usize),
                MintAccount::Wallet,
                MintAccount::Remaining((place + 1) as usize),
                MintAccount::TokenProgram,
            ],
            signer_seeds: None,
        },
        stage: MintStage::Issue,
    }
}

/// The step that takes the price in lamports.
pub open spec fn lamport_payment_step(a: MintNFT) -> MintStepView {
    MintStepView {
        invocation: InvocationView {
            instruction: system_transfer_view(a.payer, a.wallet.key, price_of(a.candy_machine)),
            accounts: seq![MintAccount::Payer, MintAccount::Wallet, MintAccount::SystemProgram],
            signer_seeds: None,
        },
        stage: MintStage::Issue,
    }
}

/// What the second stage comes to: nothing is sold before the sale begins, nor once everything
/// is sold, nor to a buyer who cannot pay the price.
pub open spec fn pay_result(
    a: MintNFT,
    remaining: Seq<AccountSnapshot>,
    payment_account: Option<Seq<u8>>,
) -> Result<Option<MintStepView>, ProgramError> {
    let m = a.candy_machine;
    if !is_live(a) {
        Err(ProgramError::Candy(ErrorCode::CandyMachineNotLive))
    } else if m.items_redeemed >= m.data.items_available {
        Err(ProgramError::Candy(ErrorCode::CandyMachineEmpty))
    } else if m.token_mint is Some {
        match ata_result(remaining[payment_place(m)], a.wallet.key, payment_account) {
            Err(e) => Err(e),
            Ok(account) => if account.amount < price_of(m) {
                Err(ProgramError::Candy(ErrorCode::NotEnoughTokens))
            } else if a.token_program@ != TOKEN_PROGRAM@ {
                Err(ProgramError::IncorrectProgramId)
            } else {
                Ok(Some(token_payment_step(a, remaining)))
            },
        }
    } else if a.payer_lamports < price_of(m) {
        Err(ProgramError::Candy(ErrorCode::NotEnoughSOL))
    } else {
        Ok(Some(lamport_payment_step(a)))
    }
}

/// Why a buyer cannot make use of the whitelist, if they cannot, or else whether their
/// whitelist token is to be burned.
pub open spec fn whitelist_result(
    a: MintNFT,
    ws: WhitelistMintSettings,
    remaining: Seq<AccountSnapshot>,
    whitelist_account: Option<Seq<u8>>,
) -> Result<bool, ProgramError> {
    match ata_result(remaining[0], a.wallet.key, whitelist_account) {
        Err(e) => Err(e),
        Ok(account) => if account.amount == 0 {
            Err(ProgramError::Candy(ErrorCode::NoWhitelistToken))
        } else if ws.mode == WhitelistMintMode::NeverBurn {
            Ok(false)
        } else if remaining[1].key != ws.mint {
            Err(ProgramError::Candy(ErrorCode::PublicKeyMismatch))
        } else if a.token_program@ != TOKEN_PROGRAM@ {
            Err(ProgramError::IncorrectProgramId)
        } else {
            Ok(true)
        },
    }
}

/// What the first stage comes to. Where no whitelist token is to be burned, it goes right on to
/// the payment.
pub open spec fn begin_result(
    a: MintNFT,
    remaining: Seq<AccountSnapshot>,
    derived: DerivedAddressesView,
) -> Result<Option<MintStepView>, ProgramError> {
    match a.violation(derived.creator) {
        Some(e) => Err(e),
        None => if sale_ended(a) {
            Err(ProgramError::Candy(ErrorCode::CandyMachineNotLive))
        } else {
            match a.candy_machine.data.whitelist_mint_settings {
                None => pay_result(a, remaining, derived.payment_account),
                Some(ws) => match whitelist_result(
                    a,
                    ws,
                    remaining,
                    derived.whitelist_account,
                ) {
                    Err(e) => Err(e),
                    Ok(burn) => if burn {
                        Ok(Some(burn_step(a, remaining)))
                    } else {
                        pay_result(a, remaining, derived.payment_account)
                    },
                },
            }
        },
    }
}

/// The number of the item that is drawn among those that are left: the first eight bytes of the
/// latest block hash, taken modulo the number of items that are left.
pub open spec fn drawn_index(a: MintNFT) -> int {
    u64_at(a.recent_blockhashes@[0]@, 0) % (a.candy_machine.data.items_available
        - a.candy_machine.items_redeemed)
}

/// What the metadata of the item says that is drawn, if the account holds that.
pub open spec fn drawn_line(m: CandyMachine, data: Seq<u8>, index: int) -> Option<
    ConfigLineView,
> {
    match m.data.hidden_setting {
        Some(hidden) => Some(
            ConfigLineView {
                name: hidden_name(hidden.name@, m.items_redeemed),
                uri: hidden.uri@,
            },
        ),
        None => line_at(data, index),
    }
}

/// The creators of an item: the candy machine itself, which signs for itself and gets no share,
/// and behind it those of the collection, for whom nobody has signed yet.
pub open spec fn item_creators(creator: Pubkey, creators: Seq<Creator>) -> Seq<Creator> {
    seq![Creator { address: creator, verified: true, share: 0 }] + Seq::new(
        creators.len(),
        |i: int| Creator { address: creators[i].address, verified: false, share: creators[i].share },
    )
}

/// The step that creates the metadata of an item.
pub open spec fn metadata_step(a: MintNFT, line: ConfigLineView, creator_bump: u8) -> MintStepView {
    MintStepView {
        invocation: InvocationView {
            instruction: create_metadata_view(
                a.token_metadata_program,
                a.metadata.key,
                a.mint.key,
                a.mint_authority,
                a.payer,
                a.candy_machine_creator,
                line.name,
                a.candy_machine.data.symbol@,
                line.uri,
                item_creators(a.candy_machine_creator, a.candy_machine.data.creators@),
                a.candy_machine.data.seller_fee_basis_points,
                true,
                a.candy_machine.data.is_mutable,
            ),
            accounts: seq![
                MintAccount::Metadata,
                MintAccount::Mint,
                MintAccount::MintAuthority,
                MintAccount::Payer,
                MintAccount::TokenMetadataProgram,
                MintAccount::TokenProgram,
                MintAccount::SystemProgram,
                MintAccount::Rent,
                MintAccount::CandyMachineCreator,
            ],
            signer_seeds: Some(a.spec_signer_seeds(creator_bump)),
        },
        stage: MintStage::MasterEdition,
    }
}

/// The step that makes an item a master edition.
pub open spec fn master_edition_step(a: MintNFT, creator_bump: u8) -> MintStepView {
    MintStepView {
        invocation: InvocationView {
            instruction: create_master_edition_view(
                a.token_metadata_program,
                a.master_edition.key,
                a.mint.key,
                a.candy_machine_creator,
                a.mint_authority,
                a.metadata.key,
                a.payer,
                Some(a.candy_machine.data.max_supply),
            ),
            accounts: seq![
                MintAccount::MasterEdition,
                MintAccount::Mint,
                MintAccount::MintAuthority,
                MintAccount::Payer,
                MintAccount::Metadata,
                MintAccount::TokenMetadataProgram,
                MintAccount::TokenProgram,
                MintAccount::SystemProgram,
                MintAccount::Rent,
                MintAccount::CandyMachineCreator,
            ],
            signer_seeds: Some(a.spec_signer_seeds(creator_bump)),
        },
        stage: MintStage::HandOver,
    }
}

/// Who may update the metadata of an item after the sale.
pub open spec fn new_update_authority(a: MintNFT) -> Pubkey {
    if a.candy_machine.data.retain_authority {
        a.candy_machine.authority
    } else {
        a.update_authority
    }
}

/// The step that hands an item over, and records that it has been sold.
pub open spec fn hand_over_step(a: MintNFT, creator_bump: u8) -> MintStepView {
    MintStepView {
        invocation: InvocationView {
            instruction: update_metadata_view(
                a.token_metadata_program,
                a.metadata.key,
                a.candy_machine_creator,
                Some(new_update_authority(a)),
                Some(true),
            ),
            accounts: seq![
                MintAccount::TokenMetadataProgram,
                MintAccount::Metadata,
                MintAccount::CandyMachineCreator,
            ],
            signer_seeds: Some(a.spec_signer_seeds(creator_bump)),
        },
        stage: MintStage::Finish,
    }
}

/// The accounts after an item has been drawn: one more item is sold.
pub open spec fn one_more_sold(a: MintNFT) -> MintNFT {
    MintNFT {
        candy_machine: CandyMachine {
            items_redeemed: (a.candy_machine.items_redeemed + 1) as u64,
            ..a.candy_machine
        },
        ..a
    }
}

/// What the third stage comes to.
pub open spec fn issue_result(a: MintNFT, data: Seq<u8>, creator_bump: u8) -> Result<
    Option<MintStepView>,
    ProgramError,
> {
    let m = a.candy_machine;
    let index = (drawn_index(a) as usize) as int;
    if m.items_redeemed >= m.data.items_available {
        Err(ProgramError::Candy(ErrorCode::NumericalOverflowError))
    } else if m.data.hidden_setting is None && index > u32_at(data, CONFIG_ARRAY_START as int) {
        Err(ProgramError::Candy(ErrorCode::IndexGreaterThanLength))
    } else {
        match drawn_line(m, data, index) {
            None => Err(ProgramError::BorshIoError),
            Some(line) => Ok(Some(metadata_step(a, line, creator_bump))),
        }
    }
}

/// The account of the candy machine after an item has been drawn: the config line of the item
/// is taken out, where there are config lines.
pub open spec fn issued_data(a: MintNFT, data: Seq<u8>) -> Seq<u8> {
    if a.candy_machine.data.hidden_setting is Some {
        data
    } else {
        taken_out(data, (drawn_index(a) as usize) as int)
    }
}

/// What a failure of another program comes to. That of the token program is given a name.
pub open spec fn failure(a: MintNFT, stage: MintStage, e: ProgramError) -> ProgramError {
    if stage == MintStage::Pay {
        ProgramError::Candy(ErrorCode::TokenBurnFailed)
    } else if stage == MintStage::Issue && a.candy_machine.token_mint is Some {
        ProgramError::Candy(ErrorCode::TokenTransferFailed)
    } else {
        e
    }
}

/// What a stage of a sale comes to, after another program has done what it was asked to do
/// before, or has failed at it.
pub open spec fn stage_result(
    a: MintNFT,
    stage: MintStage,
    outcome: Result<(), ProgramError>,
    remaining: Seq<AccountSnapshot>,
    data: Seq<u8>,
    creator_bump: u8,
    derived: DerivedAddressesView,
) -> Result<Option<MintStepView>, ProgramError> {
    match outcome {
        Err(e) => Err(failure(a, stage, e)),
        Ok(_) => match stage {
            MintStage::Begin => begin_result(a, remaining, derived),
            MintStage::Pay => pay_result(a, remaining, derived.payment_account),
            MintStage::Issue => issue_result(a, data, creator_bump),
            MintStage::MasterEdition => Ok(Some(master_edition_step(a, creator_bump))),
            MintStage::HandOver => Ok(Some(hand_over_step(a, creator_bump))),
            MintStage::Finish => Ok(None),
        },
    }
}

/// Whether the accounts are there that the second stage reads.
pub open spec fn pay_ready(a: MintNFT, remaining: Seq<AccountSnapshot>) -> bool {
    is_live(a) && a.candy_machine.items_redeemed < a.candy_machine.data.items_available
        && a.candy_machine.token_mint is Some ==> payment_place(a.candy_machine) + 1
        < remaining.len()
}

/// Whether the accounts are there that the first stage reads.
pub open spec fn begin_ready(
    a: MintNFT,
    remaining: Seq<AccountSnapshot>,
    derived: DerivedAddressesView,
) -> bool {
    a.violation(derived.creator) is None && !sale_ended(a) ==> {
        match a.candy_machine.data.whitelist_mint_settings {
            None => pay_ready(a, remaining),
            Some(ws) => {
                &&& remaining.len() > 0
                &&& match ata_result(remaining[0], a.wallet.key, derived.whitelist_account) {
                    Err(_) => true,
                    Ok(account) => if account.amount == 0 {
                        true
                    } else if ws.mode == WhitelistMintMode::BurnEveryTime {
                        remaining.len() > 2
                    } else {
                        pay_ready(a, remaining)
                    },
                }
            },
        }
    }
}

/// Whether an item can be drawn: there is a block hash, the config line can be taken out, and
/// the texts of the metadata are short enough to be encoded.
pub open spec fn issue_ready(a: MintNFT, data: Seq<u8>, creator_bump: u8) -> bool {
    let m = a.candy_machine;
    let index = drawn_index(a) as usize;
    &&& a.recent_blockhashes@.len() > 0
    &&& m.items_redeemed < m.data.items_available ==> has_line_to_take(
        m,
        data,
        index,
        m.items_redeemed,
    )
    &&& issue_result(a, data, creator_bump) is Ok ==> {
        &&& drawn_line(m, data, index as int) matches Some(line) ==> fits_borsh(line.name)
            && fits_borsh(line.uri)
        &&& fits_borsh(m.data.symbol@)
        &&& m.data.creators@.len() < u32::MAX
    }
}

/// Whether a stage of a sale can be gone through.
pub open spec fn stage_ready(
    a: MintNFT,
    stage: MintStage,
    outcome: Result<(), ProgramError>,
    remaining: Seq<AccountSnapshot>,
    data: Seq<u8>,
    creator_bump: u8,
    derived: DerivedAddressesView,
) -> bool {
    outcome is Ok ==> match stage {
        MintStage::Begin => begin_ready(a, remaining, derived),
        MintStage::Pay => pay_ready(a, remaining),
        MintStage::Issue => issue_ready(a, data, creator_bump),
        _ => true,
    }
}

/// Whether a stage draws an item.
pub open spec fn draws_item(
    a: MintNFT,
    stage: MintStage,
    outcome: Result<(), ProgramError>,
    data: Seq<u8>,
    creator_bump: u8,
) -> bool {
    outcome is Ok && stage == MintStage::Issue && issue_result(a, data, creator_bump) is Ok
}

/// The accounts and the account of the candy machine after a stage.
pub open spec fn stage_effect(
    a: MintNFT,
    stage: MintStage,
    outcome: Result<(), ProgramError>,
    data: Seq<u8>,
    creator_bump: u8,
) -> (MintNFT, Seq<u8>) {
    if draws_item(a, stage, outcome, data, creator_bump) {
        (one_more_sold(a), issued_data(a, data))
    } else {
        (a, data)
    }
}

/// Tests whether the sale is over for this buyer.
fn check_ended(a: &MintNFT) -> (r: bool)
    ensures
        r == sale_ended(*a),
{
    match &a.candy_machine.data.end_settings {
        None => false,
        Some(EndSettings::Date(date)) => a.unix_timestamp > *date && a.payer
            != a.candy_machine.authority,
        Some(EndSettings::Amount(amount)) => a.candy_machine.items_redeemed > *amount,
    }
}

/// Tests whether the sale has begun for this buyer.
fn check_live(a: &MintNFT) -> (r: bool)
    ensures
        r == is_live(*a),
{
    let presale = match &a.candy_machine.data.whitelist_mint_settings {
        Some(ws) => ws.presale,
        None => false,
    };
    match a.candy_machine.data.go_live_date {
        None => a.payer == a.candy_machine.authority || presale,
        Some(date) => !(a.unix_timestamp < date && a.payer != a.candy_machine.authority
            && !presale),
    }
}

/// What the item costs.
fn current_price(m: &CandyMachine) -> (r: u64)
    ensures
        r == price_of(*m),
{
    let mut price: u64 = m.data.price;
    if let Some(ws) = &m.data.whitelist_mint_settings {
        if let Some(discount) = ws.discount_price {
            price = discount;
        }
    }
    price
}

/// The place of the account from which tokens are paid.
fn payment_account_place(m: &CandyMachine) -> (r: usize)
    ensures
        r == payment_place(*m),
{
    match &m.data.whitelist_mint_settings {
        None => 0,
        Some(ws) => match ws.mode {
            WhitelistMintMode::BurnEveryTime => 3,
            WhitelistMintMode::NeverBurn => 1,
        },
    }
}

/// The second stage of a sale: takes the price.
fn pay(a: &MintNFT, remaining: &Vec<AccountSnapshot>, payment_account: Option<Pubkey>) -> (r: Result<
    Option<MintStep>,
    ProgramError,
>)
    requires
        pay_ready(*a, remaining@),
    ensures
        step_result(r) == pay_result(*a, remaining@, key_bytes(payment_account)),
{
    let m = &a.candy_machine;
    if !check_live(a) {
        return Err(ProgramError::Candy(ErrorCode::CandyMachineNotLive));
    }
    if m.items_redeemed >= m.data.items_available {
        return Err(ProgramError::Candy(ErrorCode::CandyMachineEmpty));
    }
    let price: u64 = current_price(m);
    if m.token_mint.is_some() {
        let place: usize = payment_account_place(m);
        let account = check_ata(&remaining[place], a.wallet.key, payment_account)?;
        if account.amount < price {
            return Err(ProgramError::Candy(ErrorCode::NotEnoughTokens));
        }
        let params = TokenTransferParams {
            source: remaining[place].key,
            destination: a.wallet.key,
            amount: price,
            authority: remaining[place + 1].key,
            authority_signer_seeds: None,
            token_program: a.token_program,
        };
        let instruction = params.instruction()?;
        let step = MintStep {
            invocation: Invocation {
                instruction,
                accounts: vec![
                    MintAccount::Remaining(place),
                    MintAccount::Wallet,
                    MintAccount::Remaining(place + 1),
                    MintAccount::TokenProgram,
                ],
                signer_seeds: params.authority_signer_seeds,
            },
            stage: MintStage::Issue,
        };
        assert(step@ =~= token_payment_step(*a, remaining@));
        Ok(Some(step))
    } else {
        if a.payer_lamports < price {
            return Err(ProgramError::Candy(ErrorCode::NotEnoughSOL));
        }
        let step = MintStep {
            invocation: Invocation {
                instruction: system_transfer(a.payer, a.wallet.key, price),
                accounts: vec![
                    MintAccount::Payer,
                    MintAccount::Wallet,
                    MintAccount::SystemProgram,
                ],
                signer_seeds: None,
            },
            stage: MintStage::Issue,
        };
        assert(step@ =~= lamport_payment_step(*a));
        Ok(Some(step))
    }
}

/// The first stage of a sale: tests whether the buyer may buy, and takes the whitelist token.
fn begin(a: &MintNFT, remaining: &Vec<AccountSnapshot>, derived: &DerivedAddresses) -> (r: Result<
    Option<MintStep>,
    ProgramError,
>)
    requires
        begin_ready(*a, remaining@, derived@),
    ensures
        step_result(r) == begin_result(*a, remaining@, derived@),
{
    a.check(derived.creator)?;
    if check_ended(a) {
        return Err(ProgramError::Candy(ErrorCode::CandyMachineNotLive));
    }
    if let Some(ws) = &a.candy_machine.data.whitelist_mint_settings {
        let account = check_ata(&remaining[0], a.wallet.key, derived.whitelist_account)?;
        if account.amount == 0 {
            return Err(ProgramError::Candy(ErrorCode::NoWhitelistToken));
        }
        if ws.mode == WhitelistMintMode::BurnEveryTime {
            assert_keys_equal(remaining[1].key, ws.mint)?;
            let params = TokenBurnParams {
                mint: remaining[1].key,
                source: remaining[0].key,
                amount: 1,
                authority: remaining[2].key,
                authority_signer_seeds: None,
                token_program: a.token_program,
            };
            let instruction = params.instruction()?;
            let step = MintStep {
                invocation: Invocation {
                    instruction,
                    accounts: vec![
                        MintAccount::Remaining(0),
                        MintAccount::Remaining(1),
                        MintAccount::Remaining(2),
                        MintAccount::TokenProgram,
                    ],
                    signer_seeds: params.authority_signer_seeds,
                },
                stage: MintStage::Pay,
            };
            assert(step@ =~= burn_step(*a, remaining@));
            return Ok(Some(step));
        }
    }
    pay(a, remaining, derived.payment_account)
}

/// The creators of an item.
fn creators_of_item(creator: Pubkey, creators: &Vec<Creator>) -> (r: Vec<Creator>)
    ensures
        r@ == item_creators(creator, creators@),
{
    let mut out = vec![Creator { address: creator, verified: true, share: 0 }];
    let mut i: usize = 0;
    while i < creators.len()
        invariant
            0 <= i <= creators@.len(),
            out@ =~= item_creators(creator, creators@.take(i as int)),
        decreases creators@.len() - i,
    {
        let c = creators[i];
        out.push(Creator { address: c.address, verified: false, share: c.share });
        i = i + 1;
    }
    assert(creators@.take(creators@.len() as int) =~= creators@);
    out
}

/// The number of the item that is drawn.
fn draw(a: &MintNFT) -> (r: Result<usize, ProgramError>)
    requires
        a.recent_blockhashes@.len() > 0,
    ensures
        r == if a.candy_machine.items_redeemed < a.candy_machine.data.items_available {
            Ok::<usize, ProgramError>(drawn_index(*a) as usize)
        } else {
            Err(ProgramError::Candy(ErrorCode::NumericalOverflowError))
        },
{
    let most_recent = &a.recent_blockhashes[0];
    let number: u64 = read_u64(most_recent.as_slice(), 0);
    if a.candy_machine.items_redeemed >= a.candy_machine.data.items_available {
        return Err(ProgramError::Candy(ErrorCode::NumericalOverflowError));
    }
    let left: u64 = a.candy_machine.data.items_available - a.candy_machine.items_redeemed;
    Ok((number % left) as usize)
}

/// The third stage of a sale: draws the item and creates its metadata.
fn issue(a: &mut MintNFT, data: &mut [u8], creator_bump: u8) -> (r: Result<
    Option<MintStep>,
    ProgramError,
>)
    requires
        issue_ready(*old(a), old(data)@, creator_bump),
    ensures
        step_result(r) == issue_result(*old(a), old(data)@, creator_bump),
        r is Ok ==> *final(a) == one_more_sold(*old(a)) && final(data)@ == issued_data(
            *old(a),
            old(data)@,
        ),
        r is Err ==> *final(a) == *old(a) && final(data)@ == old(data)@,
{
    let index: usize = draw(a)?;
    let line = get_config_line(&a.candy_machine, data, index, a.candy_machine.items_redeemed)?;
    a.candy_machine.items_redeemed = a.candy_machine.items_redeemed + 1;
    let creators = creators_of_item(a.candy_machine_creator, &a.candy_machine.data.creators);
    let ghost line_view = line@;
    let instruction = create_metadata(
        a.token_metadata_program,
        a.metadata.key,
        a.mint.key,
        a.mint_authority,
        a.payer,
        a.candy_machine_creator,
        line.name,
        a.candy_machine.data.symbol.clone(),
        line.uri,
        &creators,
        a.candy_machine.data.seller_fee_basis_points,
        true,
        a.candy_machine.data.is_mutable,
    );
    let step = MintStep {
        invocation: Invocation {
            instruction,
            accounts: vec![
                MintAccount::Metadata,
                MintAccount::Mint,
                MintAccount::MintAuthority,
                MintAccount::Payer,
                MintAccount::TokenMetadataProgram,
                MintAccount::TokenProgram,
                MintAccount::SystemProgram,
                MintAccount::Rent,
                MintAccount::CandyMachineCreator,
            ],
            signer_seeds: Some(a.signer_seeds(creator_bump)),
        },
        stage: MintStage::MasterEdition,
    };
    assert(step@ =~= metadata_step(*old(a), line_view, creator_bump));
    Ok(Some(step))
}

/// The fourth stage of a sale: makes the item a master edition.
fn make_master_edition(a: &MintNFT, creator_bump: u8) -> (r: MintStep)
    ensures
        r@ == master_edition_step(*a, creator_bump),
{
    let step = MintStep {
        invocation: Invocation {
            instruction: create_master_edition(
                a.token_metadata_program,
                a.master_edition.key,
                a.mint.key,
                a.candy_machine_creator,
                a.mint_authority,
                a.metadata.key,
                a.payer,
                Some(a.candy_machine.data.max_supply),
            ),
            accounts: vec![
                MintAccount::MasterEdition,
                MintAccount::Mint,
                MintAccount::MintAuthority,
                MintAccount::Payer,
                MintAccount::Metadata,
                MintAccount::TokenMetadataProgram,
                MintAccount::TokenProgram,
                MintAccount::SystemProgram,
                MintAccount::Rent,
                MintAccount::CandyMachineCreator,
            ],
            signer_seeds: Some(a.signer_seeds(creator_bump)),
        },
        stage: MintStage::HandOver,
    };
    assert(step@ =~= master_edition_step(*a, creator_bump));
    step
}

/// The fifth stage of a sale: hands the item over.
fn hand_over(a: &MintNFT, creator_bump: u8) -> (r: MintStep)
    ensures
        r@ == hand_over_step(*a, creator_bump),
{
    let mut new_authority = a.candy_machine.authority;
    if !a.candy_machine.data.retain_authority {
        new_authority = a.update_authority;
    }
    let step = MintStep {
        invocation: Invocation {
            instruction: update_metadata(
                a.token_metadata_program,
                a.metadata.key,
                a.candy_machine_creator,
                Some(new_authority),
                Some(true),
            ),
            accounts: vec![
                MintAccount::TokenMetadataProgram,
                MintAccount::Metadata,
                MintAccount::CandyMachineCreator,
            ],
            signer_seeds: Some(a.signer_seeds(creator_bump)),
        },
        stage: MintStage::Finish,
    };
    assert(step@ =~= hand_over_step(*a, creator_bump));
    step
}

/// Goes through a stage of a sale, with the addresses in `derived`. `outcome` is that of what
/// the stage before asked another program to do. Where nothing is left to be done the result
/// is `Ok(None)`.
pub fn mint_step(
    accounts: &mut MintNFT,
    stage: MintStage,
    outcome: Result<(), ProgramError>,
    remaining_accounts: &Vec<AccountSnapshot>,
    data: &mut [u8],
    creator_bump: u8,
    derived: &DerivedAddresses,
) -> (r: Result<Option<MintStep>, ProgramError>)
    requires
        stage_ready(
            *old(accounts),
            stage,
            outcome,
            remaining_accounts@,
            old(data)@,
            creator_bump,
            derived@,
        ),
    ensures
        step_result(r) == stage_result(
            *old(accounts),
            stage,
            outcome,
            remaining_accounts@,
            old(data)@,
            creator_bump,
            derived@,
        ),
        if draws_item(*old(accounts), stage, outcome, old(data)@, creator_bump) {
            *final(accounts) == one_more_sold(*old(accounts)) && final(data)@ == issued_data(
                *old(accounts),
                old(data)@,
            )
        } else {
            *final(accounts) == *old(accounts) && final(data)@ == old(data)@
        },
        r is Err ==> *final(accounts) == *old(accounts) && final(data)@ == old(data)@,
        outcome is Err ==> r is Err,
        *final(accounts) == stage_effect(
            *old(accounts),
            stage,
            outcome,
            old(data)@,
            creator_bump,
        ).0,
        final(data)@ == stage_effect(
            *old(accounts),
            stage,
            outcome,
            old(data)@,
            creator_bump,
        ).1,
{
    if let Err(e) = outcome {
        return Err(
            match stage {
                MintStage::Pay => ProgramError::Candy(ErrorCode::TokenBurnFailed),
                MintStage::Issue => if accounts.candy_machine.token_mint.is_some() {
                    ProgramError::Candy(ErrorCode::TokenTransferFailed)
                } else {
                    e
                },
                _ => e,
            },
        );
    }
    match stage {
        MintStage::Begin => begin(accounts, remaining_accounts, derived),
        MintStage::Pay => pay(accounts, remaining_accounts, derived.payment_account),
        MintStage::Issue => issue(accounts, data, creator_bump),
        MintStage::MasterEdition => Ok(Some(make_master_edition(accounts, creator_bump))),
        MintStage::HandOver => Ok(Some(hand_over(accounts, creator_bump))),
        MintStage::Finish => Ok(None),
    }
}

/// Tests whether the accounts are there that the second stage reads.
fn can_pay(a: &MintNFT, remaining: &Vec<AccountSnapshot>) -> (r: bool)
    ensures
        r == pay_ready(*a, remaining@),
{
    let m = &a.candy_machine;
    !check_live(a) || m.items_redeemed >= m.data.items_available || m.token_mint.is_none()
        || payment_account_place(m) + 1 < remaining.len()
}

/// Tests whether the accounts are there that the first stage reads.
fn can_begin(a: &MintNFT, remaining: &Vec<AccountSnapshot>, derived: &DerivedAddresses) -> (r: bool)
    ensures
        r == begin_ready(*a, remaining@, derived@),
{
    if a.check(derived.creator).is_err() || check_ended(a) {
        return true;
    }
    match &a.candy_machine.data.whitelist_mint_settings {
        None => can_pay(a, remaining),
        Some(ws) => {
            if remaining.len() == 0 {
                return false;
            }
            match check_ata(&remaining[0], a.wallet.key, derived.whitelist_account) {
                Err(_) => true,
                Ok(account) => if account.amount == 0 {
                    true
                } else if ws.mode == WhitelistMintMode::BurnEveryTime {
                    remaining.len() > 2
                } else {
                    can_pay(a, remaining)
                },
            }
        },
    }
}

/// Tests whether an item can be drawn.
fn can_issue(a: &MintNFT, data: &[u8]) -> (r: bool)
    ensures
        forall|creator_bump: u8| r == #[trigger] issue_ready(*a, data@, creator_bump),
{
    if a.recent_blockhashes.len() == 0 {
        return false;
    }
    let m = &a.candy_machine;
    match draw(a) {
        Err(_) => true,
        Ok(index) => {
            if !can_take_config_line(m, data, index, m.items_redeemed) {
                return false;
            }
            let line = match &m.data.hidden_setting {
                Some(hidden) => hidden_line(hidden, m.items_redeemed),
                None => {
                    if index as u64 > read_u32(data, CONFIG_ARRAY_START) as u64 {
                        return true;
                    }
                    match read_line(data, index) {
                        Err(_) => {
                            return true;
                        },
                        Ok(line) => line,
                    }
                },
            };
            assert(drawn_line(*m, data@, index as int) == Some(line@));
            is_encodable(&line.name) && is_encodable(&line.uri) && is_encodable(&m.data.symbol)
                && (m.data.creators.len() as u64) < u32::MAX as u64
        },
    }
}

/// Tests whether a stage of a sale can be gone through, with the addresses in `derived`.
pub fn can_step(
    accounts: &MintNFT,
    stage: MintStage,
    outcome: Result<(), ProgramError>,
    remaining_accounts: &Vec<AccountSnapshot>,
    data: &[u8],
    creator_bump: u8,
    derived: &DerivedAddresses,
) -> (r: bool)
    ensures
        r == stage_ready(
            *accounts,
            stage,
            outcome,
            remaining_accounts@,
            data@,
            creator_bump,
            derived@,
        ),
{
    if outcome.is_err() {
        return true;
    }
    match stage {
        MintStage::Begin => can_begin(accounts, remaining_accounts, derived),
        MintStage::Pay => can_pay(accounts, remaining_accounts),
        MintStage::Issue => {
            let r = can_issue(accounts, data);
            assert(r == issue_ready(*accounts, data@, creator_bump));
            r
        },
        _ => true,
    }
}

/// The addresses that a stage of a sale needs.
pub open spec fn derived_addresses(
    a: MintNFT,
    stage: MintStage,
    creator_bump: u8,
    program_id: Pubkey,
) -> DerivedAddressesView {
    DerivedAddressesView {
        creator: if stage == MintStage::Begin {
            a.creator_address(creator_bump, program_id)
        } else {
            None
        },
        whitelist_account: match a.candy_machine.data.whitelist_mint_settings {
            Some(ws) if stage == MintStage::Begin => associated_token_address(
                a.wallet.key,
                ws.mint,
            ),
            _ => None,
        },
        payment_account: match a.candy_machine.token_mint {
            Some(mint) if stage == MintStage::Begin || stage == MintStage::Pay =>
                associated_token_address(a.wallet.key, mint),
            _ => None,
        },
    }
}

/// The addresses that a stage of a sale needs.
pub fn derive_addresses(
    accounts: &MintNFT,
    stage: MintStage,
    creator_bump: u8,
    program_id: Pubkey,
) -> (r: DerivedAddresses)
    ensures
        r@ == derived_addresses(*accounts, stage, creator_bump, program_id),
{
    let mut r = DerivedAddresses { creator: None, whitelist_account: None, payment_account: None };
    if stage == MintStage::Begin {
        r.creator = accounts.derive_creator(creator_bump, program_id);
        if let Some(ws) = &accounts.candy_machine.data.whitelist_mint_settings {
            r.whitelist_account = get_associated_token_address(accounts.wallet.key, ws.mint);
        }
    }
    if stage == MintStage::Begin || stage == MintStage::Pay {
        if let Some(mint) = accounts.candy_machine.token_mint {
            r.payment_account = get_associated_token_address(accounts.wallet.key, mint);
        }
    }
    r
}

/// Goes through a stage of the sale of an item. `outcome` is that of what the stage before
/// asked another program to do. Where nothing is left to be done the result is `Ok(None)`.
pub fn mint_nft(
    accounts: &mut MintNFT,
    stage: MintStage,
    outcome: Result<(), ProgramError>,
    remaining_accounts: &Vec<AccountSnapshot>,
    data: &mut [u8],
    creator_bump: u8,
    program_id: Pubkey,
) -> (r: Result<Option<MintStep>, ProgramError>)
    requires
        stage_ready(
            *old(accounts),
            stage,
            outcome,
            remaining_accounts@,
            old(data)@,
            creator_bump,
            derived_addresses(*old(accounts), stage, creator_bump, program_id),
        ),
    ensures
        step_result(r) == stage_result(
            *old(accounts),
            stage,
            outcome,
            remaining_accounts@,
            old(data)@,
            creator_bump,
            derived_addresses(*old(accounts), stage, creator_bump, program_id),
        ),
        if draws_item(*old(accounts), stage, outcome, old(data)@, creator_bump) {
            *final(accounts) == one_more_sold(*old(accounts)) && final(data)@ == issued_data(
                *old(accounts),
                old(data)@,
            )
        } else {
            *final(accounts) == *old(accounts) && final(data)@ == old(data)@
        },
        r is Err ==> *final(accounts) == *old(accounts) && final(data)@ == old(data)@,
        outcome is Err ==> r is Err,
        *final(accounts) == stage_effect(
            *old(accounts),
            stage,
            outcome,
            old(data)@,
            creator_bump,
        ).0,
        final(data)@ == stage_effect(
            *old(accounts),
            stage,
            outcome,
            old(data)@,
            creator_bump,
        ).1,
{
    let derived = derive_addresses(accounts, stage, creator_bump, program_id);
    mint_step(accounts, stage, outcome, remaining_accounts, data, creator_bump, &derived)
}

/// Goes through a stage of the sale of an item as [`mint_nft`] does, if that can be done, and
/// otherwise returns `None` and changes nothing.
pub fn try_mint_nft(
    accounts: &mut MintNFT,
    stage: MintStage,
    outcome: Result<(), ProgramError>,
    remaining_accounts: &Vec<AccountSnapshot>,
    data: &mut [u8],
    creator_bump: u8,
    program_id: Pubkey,
) -> (r: Option<Result<Option<MintStep>, ProgramError>>)
    ensures
        r is Some <==> stage_ready(
            *old(accounts),
            stage,
            outcome,
            remaining_accounts@,
            old(data)@,
            creator_bump,
            derived_addresses(*old(accounts), stage, creator_bump, program_id),
        ),
        r matches Some(result) ==> step_result(result) == stage_result(
            *old(accounts),
            stage,
            outcome,
            remaining_accounts@,
            old(data)@,
            creator_bump,
            derived_addresses(*old(accounts), stage, creator_bump, program_id),
        ),
        if r is Some && draws_item(*old(accounts), stage, outcome, old(data)@, creator_bump) {
            *final(accounts) == one_more_sold(*old(accounts)) && final(data)@ == issued_data(
                *old(accounts),
                old(data)@,
            )
        } else {
            *final(accounts) == *old(accounts) && final(data)@ == old(data)@
        },
{
    let derived = derive_addresses(accounts, stage, creator_bump, program_id);
    if can_step(accounts, stage, outcome, remaining_accounts, data, creator_bump, &derived) {
        Some(
            mint_nft(
                accounts,
                stage,
                outcome,
                remaining_accounts,
                data,
                creator_bump,
                program_id,
            ),
        )
    } else {
        None
    }
}

} // verus!
