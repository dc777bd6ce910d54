//! What the views of the types hold, and what the small functions that the others are made of
//! come to, told on fields, bytes and characters.
use crate::accounts::{InitializeCandyMachine, MintNFT};
use crate::codec::{fits_borsh, parse_str, parse_str_pair, u32_at, u64_le};
use crate::config_lines::{line_result, ConfigLine};
use crate::decoding::{law_number_bytes, law_number_read, le_value, lemma_value_4, read_text};
use crate::error::{ErrorCode, ProgramError};
use crate::instruction::{token_burn_view, token_transfer_view, Instruction, TOKEN_PROGRAM};
use crate::manage::initial_machine;
use crate::line_laws::{is_text_with_nulls, law_padded_text};
use crate::mint::{
    drawn_index, is_live, new_update_authority, payment_place, price_of, sale_ended, step_result,
    whitelist_result, DerivedAddresses, Invocation, MintStep,
};
use crate::pubkey::Pubkey;
use crate::stage_laws::{hash_number, uses};
use crate::state::{
    encodable, CandyMachine, CandyMachineData, CandyMachineDataView, EndSettings, HiddenSetting,
    WhitelistMintMode, WhitelistMintSettings,
};
use crate::utils::{
    account_result, associated_token_address, ata_result, found_program_address,
    initialized_account, instruction_result, key_bytes, mint_fault, parse_mint, parse_token_account,
    seed_bytes, AccountSnapshot, TokenAccount, TokenAccountView, ASSOCIATED_TOKEN_PROGRAM,
};
use vstd::prelude::*;
use vstd::utf8::*;

verus! {

/// The view of settings leaves nothing out and changes nothing.
pub proof fn law_view_of_settings(d: CandyMachineData)
    ensures
        d@.uuid == d.uuid@,
        d@.price == d.price,
        d@.symbol == d.symbol@,
        d@.seller_fee_basis_points == d.seller_fee_basis_points,
        d@.max_supply == d.max_supply,
        d@.is_mutable == d.is_mutable,
        d@.retain_authority == d.retain_authority,
        d@.use_captcha == d.use_captcha,
        d@.go_live_date == d.go_live_date,
        d@.end_settings == d.end_settings,
        d@.creators == d.creators@,
        d@.hidden_setting is Some <==> d.hidden_setting is Some,
        d.hidden_setting matches Some(h) ==> d@.hidden_setting->0.name == h.name@
            && d@.hidden_setting->0.uri == h.uri@ && d@.hidden_setting->0.hash == h.hash@,
        d@.whitelist_mint_settings == d.whitelist_mint_settings,
        d@.items_available == d.items_available,
{
}

/// The view of a candy machine leaves nothing out and changes nothing.
pub proof fn law_view_of_machine(m: CandyMachine)
    ensures
        m@.authority == m.authority,
        m@.wallet == m.wallet,
        m@.token_mint == m.token_mint,
        m@.items_redeemed == m.items_redeemed,
        m@.data == m.data@,
{
}

/// The views of texts, addresses and token accounts leave nothing out and change nothing.
pub proof fn law_views_of_parts(
    line: ConfigLine,
    hidden: HiddenSetting,
    key: Pubkey,
    token: TokenAccount,
    seeds: Seq<Vec<u8>>,
)
    ensures
        line@.name == line.name@ && line@.uri == line.uri@,
        hidden@.name == hidden.name@ && hidden@.uri == hidden.uri@ && hidden@.hash == hidden.hash@,
        key@ == key.bytes@ && key@.len() == 32,
        key_bytes(Some(key)) == Some(key@) && key_bytes(None) is None,
        token@.mint == token.mint@ && token@.owner == token.owner@ && token@.amount == token.amount
            && token@.is_initialized == token.is_initialized,
        seed_bytes(seeds).len() == seeds.len(),
        forall|i: int| 0 <= i < seeds.len() ==> #[trigger] seed_bytes(seeds)[i] == seeds[i]@,
{
}

/// The views of steps and instructions leave nothing out and change nothing.
pub proof fn law_views_of_steps(
    step: MintStep,
    invocation: Invocation,
    ix: Instruction,
    derived: DerivedAddresses,
)
    ensures
        step@.stage == step.stage && step@.invocation == step.invocation@,
        invocation@.instruction == invocation.instruction@,
        invocation@.accounts == invocation.accounts@,
        invocation@.signer_seeds == invocation.signer_seeds,
        ix@.program_id == ix.program_id && ix@.accounts == ix.accounts@ && ix@.data == ix.data@,
        derived@.creator is Some <==> derived.creator is Some,
        derived@.whitelist_account is Some <==> derived.whitelist_account is Some,
        derived@.payment_account is Some <==> derived.payment_account is Some,
        derived.creator matches Some(k) ==> derived@.creator == Some(k@),
        derived.whitelist_account matches Some(k) ==> derived@.whitelist_account == Some(k@),
        derived.payment_account matches Some(k) ==> derived@.payment_account == Some(k@),
{
}

/// What a result holds is what is in it, and an error stays that error.
pub proof fn law_views_of_results(
    step: MintStep,
    line: ConfigLine,
    token: TokenAccount,
    ix: Instruction,
    e: ProgramError,
)
    ensures
        step_result(Ok(Some(step))) matches Ok(Some(s)) && s == step@,
        step_result(Ok(None)) matches Ok(None),
        step_result(Err(e)) matches Err(f) && f == e,
        line_result(Ok(line)) matches Ok(l) && l == line@,
        line_result(Err(e)) matches Err(f) && f == e,
        account_result(Ok(token)) matches Ok(t) && t == token@,
        account_result(Err(e)) matches Err(f) && f == e,
        instruction_result(Ok(ix)) matches Ok(i) && i == ix@,
        instruction_result(Err(e)) matches Err(f) && f == e,
{
}

/// A text can be encoded up to the largest length that four bytes can hold, and settings can if
/// their texts and the number of creators can.
pub proof fn law_what_can_be_encoded(s: Seq<char>, d: CandyMachineDataView)
    ensures
        fits_borsh(s) <==> encode_utf8(s).len() <= 4294967295,
        encodable(d) <==> encode_utf8(d.uuid).len() <= 4294967295 && encode_utf8(d.symbol).len()
            <= 4294967295 && d.creators.len() <= 4294967295 && (d.hidden_setting matches Some(h)
            ==> encode_utf8(h.name).len() <= 4294967295 && encode_utf8(h.uri).len() <= 4294967295),
{
}

/// The sale has begun for a buyer exactly if the buyer is the authority, or has a presale, or does
/// not come before the date from which it is open.
pub proof fn law_when_live(a: MintNFT)
    ensures
        a.payer == a.candy_machine.authority ==> is_live(a),
        a.candy_machine.data.whitelist_mint_settings is Some
            && a.candy_machine.data.whitelist_mint_settings->0.presale ==> is_live(a),
        a.candy_machine.data.go_live_date is Some && a.candy_machine.data.go_live_date->0
            <= a.unix_timestamp ==> is_live(a),
        is_live(a) && a.payer != a.candy_machine.authority && (
        a.candy_machine.data.whitelist_mint_settings is None
            || !a.candy_machine.data.whitelist_mint_settings->0.presale)
            ==> a.candy_machine.data.go_live_date is Some && a.candy_machine.data.go_live_date->0
            <= a.unix_timestamp,
{
}

/// Being live does not end as time goes by, and having ended does not either.
pub proof fn law_time_goes_by(a: MintNFT, later: i64)
    requires
        a.unix_timestamp <= later,
    ensures
        is_live(a) ==> is_live(MintNFT { unix_timestamp: later, ..a }),
        sale_ended(a) ==> sale_ended(MintNFT { unix_timestamp: later, ..a }),
{
}

/// The sale has ended for a buyer exactly if there is an end date, the time is past it and the
/// buyer is not the authority, or if there is an end amount and more items than that are sold.
pub proof fn law_when_ended(a: MintNFT)
    ensures
        a.candy_machine.data.end_settings is None ==> !sale_ended(a),
        a.candy_machine.data.end_settings matches Some(EndSettings::Date(date)) ==> (sale_ended(a)
            <==> date < a.unix_timestamp && a.candy_machine.authority != a.payer),
        a.candy_machine.data.end_settings matches Some(EndSettings::Amount(amount)) ==> (
        sale_ended(a) <==> amount < a.candy_machine.items_redeemed),
{
}

/// The price is that of the settings, but for a discount price of the whitelist, and it is paid
/// from behind the accounts for the whitelist: none, one, or three where the token is burned.
pub proof fn law_price_and_place(m: CandyMachine)
    ensures
        m.data.whitelist_mint_settings is None ==> price_of(m) == m.data.price && payment_place(m)
            == 0,
        m.data.whitelist_mint_settings matches Some(ws) ==> {
            &&& ws.discount_price is None ==> price_of(m) == m.data.price
            &&& (ws.discount_price matches Some(discount) ==> price_of(m) == discount)
            &&& ws.mode == WhitelistMintMode::NeverBurn ==> payment_place(m) == 1
            &&& ws.mode == WhitelistMintMode::BurnEveryTime ==> payment_place(m) == 3
        },
{
}

/// Where there is a whitelist, a buyer gets on exactly if an account that is theirs holds at least
/// one token, and, if the token is burned, its mint and the token program are passed in.
pub proof fn law_whitelist_decision(
    a: MintNFT,
    ws: WhitelistMintSettings,
    remaining: Seq<AccountSnapshot>,
    whitelist_account: Option<Seq<u8>>,
)
    ensures
        ({
            let r = whitelist_result(a, ws, remaining, whitelist_account);
            let burned = ws.mode == WhitelistMintMode::BurnEveryTime;
            &&& (ata_result(remaining[0], a.wallet.key, whitelist_account) matches Err(e) ==> r
                == Err::<bool, ProgramError>(e))
            &&& (ata_result(remaining[0], a.wallet.key, whitelist_account) matches Ok(t) ==> {
                &&& t.amount == 0 ==> r == Err::<bool, ProgramError>(
                    ProgramError::Candy(ErrorCode::NoWhitelistToken),
                )
                &&& t.amount != 0 && !burned ==> r == Ok::<bool, ProgramError>(false)
                &&& t.amount != 0 && burned && remaining[1].key != ws.mint ==> r == Err::<
                    bool,
                    ProgramError,
                >(ProgramError::Candy(ErrorCode::PublicKeyMismatch))
                &&& t.amount != 0 && burned && remaining[1].key == ws.mint && a.token_program@
                    != TOKEN_PROGRAM@ ==> r == Err::<bool, ProgramError>(
                    ProgramError::IncorrectProgramId,
                )
                &&& t.amount != 0 && burned && remaining[1].key == ws.mint && a.token_program@
                    == TOKEN_PROGRAM@ ==> r == Ok::<bool, ProgramError>(true)
            })
        }),
{
}

/// The item that is drawn is given by all of the first eight bytes of the latest block hash.
pub proof fn law_drawn_number(a: MintNFT)
    requires
        a.candy_machine.items_redeemed < a.candy_machine.data.items_available,
    ensures
        drawn_index(a) == hash_number(a) % (a.candy_machine.data.items_available
            - a.candy_machine.items_redeemed),
{
}

/// The machine that is set up holds each setting as it was given, but for the symbol, behind which
/// null characters stand, and nothing is sold of it.
pub proof fn law_initial_machine(
    a: InitializeCandyMachine,
    remaining: Seq<AccountSnapshot>,
    d: CandyMachineDataView,
)
    requires
        encode_utf8(d.symbol).len() <= 10,
    ensures
        ({
            let m = initial_machine(a, remaining, d);
            &&& m.authority == a.authority
            &&& m.wallet == a.wallet.key
            &&& remaining.len() == 0 ==> m.token_mint is None
            &&& remaining.len() > 0 ==> m.token_mint == Some(remaining[0].key)
            &&& m.items_redeemed == 0
            &&& m.data.uuid == d.uuid
            &&& m.data.price == d.price
            &&& is_text_with_nulls(m.data.symbol, d.symbol)
            &&& encode_utf8(m.data.symbol).len() == 10
            &&& m.data.seller_fee_basis_points == d.seller_fee_basis_points
            &&& m.data.max_supply == d.max_supply
            &&& m.data.is_mutable == d.is_mutable
            &&& m.data.retain_authority == d.retain_authority
            &&& m.data.use_captcha == d.use_captcha
            &&& m.data.go_live_date == d.go_live_date
            &&& m.data.end_settings == d.end_settings
            &&& m.data.creators == d.creators
            &&& m.data.hidden_setting == d.hidden_setting
            &&& m.data.whitelist_mint_settings == d.whitelist_mint_settings
            &&& m.data.items_available == d.items_available
        }),
{
    law_padded_text(d.symbol, 10);
}

/// After a sale the item is updated by the authority of the machine exactly if it is retained.
pub proof fn law_new_update_authority(a: MintNFT)
    ensures
        a.candy_machine.data.retain_authority ==> new_update_authority(a)
            == a.candy_machine.authority,
        !a.candy_machine.data.retain_authority ==> new_update_authority(a) == a.update_authority,
{
}

/// A token account is read if its bytes are those of one and it is initialized, and a mint is
/// accepted if its bytes are those of one and it is initialized.
pub proof fn law_initialized(data: Seq<u8>)
    ensures
        parse_token_account(data) is None ==> initialized_account(data) == Err::<
            TokenAccountView,
            ProgramError,
        >(ProgramError::InvalidAccountData),
        parse_token_account(data) matches Some(t) ==> initialized_account(data)
            == if t.is_initialized {
            Ok::<TokenAccountView, ProgramError>(t)
        } else {
            Err(ProgramError::Candy(ErrorCode::Uninitialized))
        },
        parse_mint(data) is None ==> mint_fault(data) == Some(ProgramError::InvalidAccountData),
        parse_mint(data) == Some(false) ==> mint_fault(data) == Some(
            ProgramError::Candy(ErrorCode::Uninitialized),
        ),
        parse_mint(data) == Some(true) ==> mint_fault(data) is None,
{
}

/// The account in which a wallet holds tokens is derived from the wallet, the token program and
/// the mint, in this order, by the associated token program.
pub proof fn law_associated_address(wallet: Pubkey, mint: Pubkey)
    ensures
        associated_token_address(wallet, mint) == found_program_address(
            seq![wallet@, TOKEN_PROGRAM@, mint@],
            ASSOCIATED_TOKEN_PROGRAM@,
        ),
{
}

/// The instructions for the token program name the accounts and the amount that were given.
pub proof fn law_token_instructions(
    program: Pubkey,
    source: Pubkey,
    other: Pubkey,
    authority: Pubkey,
    amount: u64,
)
    ensures
        ({
            let burn = token_burn_view(program, source, other, authority, amount);
            let transfer = token_transfer_view(program, source, other, authority, amount);
            &&& burn.program_id == program && transfer.program_id == program
            &&& burn.accounts == transfer.accounts && burn.accounts.len() == 3
            &&& uses(burn.accounts[0], source@, false, true)
            &&& uses(burn.accounts[1], other@, false, true)
            &&& uses(burn.accounts[2], authority@, true, false)
            &&& burn.data.len() == 9 && burn.data[0] == 8 && le_value(burn.data.skip(1)) == amount
            &&& transfer.data.len() == 9 && transfer.data[0] == 3 && le_value(
                transfer.data.skip(1),
            ) == amount
        }),
{
    law_number_bytes(amount as int);
    let bytes = u64_le(amount as int);
    assert((seq![8u8] + bytes).skip(1) =~= bytes);
    assert((seq![3u8] + bytes).skip(1) =~= bytes);
}

/// A token account has 165 bytes, in which the mint, the owner and the amount stand at the front,
/// and byte 108 tells its state; a mint has 82 bytes, of which byte 45 tells whether it is
/// initialized. The four bytes that tell whether an optional value is there stand for 0 or 1.
pub proof fn law_token_bytes(b: Seq<u8>)
    ensures
        parse_token_account(b) is Some <==> b.len() == 165 && le_value(b.subrange(72, 76)) <= 1
            && b[108] <= 2 && le_value(b.subrange(109, 113)) <= 1 && le_value(b.subrange(129, 133))
            <= 1,
        parse_token_account(b) matches Some(t) ==> t.mint == b.take(32) && t.owner == b.subrange(
            32,
            64,
        ) && t.amount == le_value(b.subrange(64, 72)) && t.is_initialized == (b[108] != 0),
        parse_mint(b) is Some <==> b.len() == 82 && le_value(b.subrange(0, 4)) <= 1 && b[45] <= 1
            && le_value(b.subrange(46, 50)) <= 1,
        parse_mint(b) matches Some(is_initialized) ==> is_initialized == (b[45] == 1),
{
    if b.len() == 165 {
        lemma_value_4(b.subrange(72, 76));
        lemma_value_4(b.subrange(109, 113));
        lemma_value_4(b.subrange(129, 133));
        law_number_read(b, 64);
        assert(b.take(32) =~= b.subrange(0, 32));
    }
    if b.len() == 82 {
        lemma_value_4(b.subrange(0, 4));
        lemma_value_4(b.subrange(46, 50));
    }
}

/// Bytes are those of two texts exactly if a text is read from them, and then another one, and
/// nothing is left over.
pub proof fn law_two_texts(b: Seq<u8>)
    ensures
        match read_text(b) {
            None => parse_str_pair(b) is None,
            Some((first, rest)) => match read_text(rest) {
                None => parse_str_pair(b) is None,
                Some((second, more)) => parse_str_pair(b) == if more.len() == 0 {
                    Some((first, second))
                } else {
                    None
                },
            },
        },
{
    lemma_one_text(b);
    if let Some((first, rest)) = read_text(b) {
        lemma_one_text(rest);
    }
}

/// Reading a text in one step or in two.
proof fn lemma_one_text(b: Seq<u8>)
    ensures
        match parse_str(b) {
            None => read_text(b) is None,
            Some((s, used)) => 4 <= used <= b.len() && read_text(b) == Some((s, b.skip(used))),
        },
{
    if b.len() >= 4 {
        law_number_read(b, 0);
        assert(b.take(4) =~= b.subrange(0, 4));
        lemma_value_4(b.take(4));
        let n = u32_at(b, 0);
        if 4 + n <= b.len() {
            assert(b.skip(4).take(n) =~= b.subrange(4, 4 + n));
            assert(b.skip(4).skip(n) =~= b.skip(4 + n));
        }
    }
}

/// Every error has its text.
pub proof fn law_messages()
    ensures
        ErrorCode::IncorrectOwner.spec_message() == "Account does not have correct owner!"@,
        ErrorCode::Uninitialized.spec_message() == "Account is not initialized!"@,
        ErrorCode::MintMismatch.spec_message() == "Mint Mismatch!"@,
        ErrorCode::IndexGreaterThanLength.spec_message() == "Index greater than length!"@,
        ErrorCode::NumericalOverflowError.spec_message() == "Numerical overflow error!"@,
        ErrorCode::TooManyCreators.spec_message()
            == "Can only provide up to 4 creators to candy machine (because candy machine is one)!"@,
        ErrorCode::UuidMustBeExactly6Length.spec_message() == "Uuid must be exactly of 6 length"@,
        ErrorCode::NotEnoughTokens.spec_message() == "Not enough tokens to pay for this minting"@,
        ErrorCode::NotEnoughSOL.spec_message() == "Not enough SOL to pay for this minting"@,
        ErrorCode::TokenTransferFailed.spec_message() == "Token transfer failed"@,
        ErrorCode::CandyMachineEmpty.spec_message() == "Candy machine is empty!"@,
        ErrorCode::CandyMachineNotLive.spec_message() == "Candy machine is not live!"@,
        ErrorCode::HiddenSettingConfigsDoNotHaveConfigLines.spec_message()
            == "Configs that are using hidden uris do not have config lines, they have a single hash representing hashed order"@,
        ErrorCode::CannotChangeNumberOfLines.spec_message()
            == "Cannot change number of lines unless is a hidden config"@,
        ErrorCode::DerivedKeyInvalid.spec_message() == "Derived key invalid"@,
        ErrorCode::PublicKeyMismatch.spec_message() == "Public key mismatch"@,
        ErrorCode::NoWhitelistToken.spec_message() == "No whitelist token present"@,
        ErrorCode::TokenBurnFailed.spec_message() == "Token burn failed"@,
{
}

} // verus!
