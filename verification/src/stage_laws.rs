//! What each stage of a sale comes to, told on the fields of the accounts, the bytes of the
//! account, and the bytes of the instructions.
use crate::account_laws::{accounts_fit, is_first_wrong, law_accounts_of_sale, nothing_wrong};
use crate::accounts::MintNFT;
use crate::codec::{borsh_str, fits_borsh, parse_str_pair, u16_le, u32_le, u64_at, u64_le};
use crate::config_lines::{has_line_to_take, take_result};
use crate::decoding::{
    is_creator, law_number_bytes, le_value, lemma_read_creators, lemma_read_text, lemma_value_8,
    read_creators, read_flag, read_number, read_text, StoredCreator,
};
use crate::error::{ErrorCode, ProgramError};
use crate::instruction::{AccountMeta, RENT_SYSVAR, SYSTEM_PROGRAM, TOKEN_PROGRAM};
use crate::line_laws::law_taken_line;
use crate::mint::{
    derived_addresses, drawn_index, item_creators, stage_effect, stage_ready, stage_result,
    DerivedAddressesView, MintAccount, MintStage, MintStepView,
};
use crate::pubkey::{lemma_same_bytes, Pubkey};
use crate::state::{
    bool_bytes, creators_bytes, option_bytes, Creator, EndSettings, WhitelistMintMode,
};
use crate::utils::{
    ata_result, found_program_address, parse_token_account, program_address, AccountSnapshot,
    ASSOCIATED_TOKEN_PROGRAM,
};
use vstd::prelude::*;
use vstd::utf8::*;

verus! {

/// Whether an instruction uses an account in this way.
pub open spec fn uses(m: AccountMeta, key: Seq<u8>, is_signer: bool, is_writable: bool) -> bool {
    m.pubkey@ == key && m.is_signer == is_signer && m.is_writable == is_writable
}

/// Whether a step asks the system program to move `amount` lamports from the payer to the wallet.
pub open spec fn asks_for_lamports(step: MintStepView, a: MintNFT, amount: int) -> bool {
    let ix = step.invocation.instruction;
    &&& step.stage == MintStage::Issue
    &&& ix.program_id@ == SYSTEM_PROGRAM@
    &&& ix.accounts.len() == 2
    &&& uses(ix.accounts[0], a.payer@, true, true)
    &&& uses(ix.accounts[1], a.wallet.key@, false, true)
    &&& ix.data.len() == 12
    &&& le_value(ix.data.take(4)) == 2
    &&& le_value(ix.data.skip(4)) == amount
    &&& step.invocation.accounts == seq![
        MintAccount::Payer,
        MintAccount::Wallet,
        MintAccount::SystemProgram,
    ]
    &&& step.invocation.signer_seeds is None
}

/// Whether a step asks the token program to move `amount` tokens from the account at `place` of
/// the remaining ones to the wallet, with the one behind it as the one that signs.
pub open spec fn asks_for_tokens(
    step: MintStepView,
    a: MintNFT,
    remaining: Seq<AccountSnapshot>,
    place: int,
    amount: int,
) -> bool {
    let ix = step.invocation.instruction;
    &&& step.stage == MintStage::Issue
    &&& ix.program_id@ == TOKEN_PROGRAM@
    &&& ix.accounts.len() == 3
    &&& uses(ix.accounts[0], remaining[place].key@, false, true)
    &&& uses(ix.accounts[1], a.wallet.key@, false, true)
    &&& uses(ix.accounts[2], remaining[place + 1].key@, true, false)
    &&& ix.data.len() == 9
    &&& ix.data[0] == 3
    &&& le_value(ix.data.skip(1)) == amount
    &&& step.invocation.accounts == seq![
        MintAccount::Remaining(place as usize),
        MintAccount::Wallet,
        MintAccount::Remaining((place + 1) as usize),
        MintAccount::TokenProgram,
    ]
    &&& step.invocation.signer_seeds is None
}

/// Whether a step asks the token program to burn one token of the first of the remaining
/// accounts, of the mint that is the second, with the third as the one that signs.
pub open spec fn asks_to_burn_one(step: MintStepView, remaining: Seq<AccountSnapshot>) -> bool {
    let ix = step.invocation.instruction;
    &&& step.stage == MintStage::Pay
    &&& ix.program_id@ == TOKEN_PROGRAM@
    &&& ix.accounts.len() == 3
    &&& uses(ix.accounts[0], remaining[0].key@, false, true)
    &&& uses(ix.accounts[1], remaining[1].key@, false, true)
    &&& uses(ix.accounts[2], remaining[2].key@, true, false)
    &&& ix.data.len() == 9
    &&& ix.data[0] == 8
    &&& le_value(ix.data.skip(1)) == 1
    &&& step.invocation.accounts == seq![
        MintAccount::Remaining(0),
        MintAccount::Remaining(1),
        MintAccount::Remaining(2),
        MintAccount::TokenProgram,
    ]
    &&& step.invocation.signer_seeds is None
}

/// What is wrong with an account that has to be the one at `address` in which `wallet` holds
/// tokens, in the order in which it is told.
pub open spec fn wrong_with_holding(
    account: AccountSnapshot,
    wallet: Pubkey,
    address: Option<Seq<u8>>,
) -> Seq<(bool, ProgramError)> {
    let token = parse_token_account(account.data@);
    seq![
        (account.owner@ != TOKEN_PROGRAM@, ProgramError::Candy(ErrorCode::IncorrectOwner)),
        (token is None, ProgramError::InvalidAccountData),
        (!token->0.is_initialized, ProgramError::Candy(ErrorCode::Uninitialized)),
        (token->0.owner != wallet@, ProgramError::Candy(ErrorCode::PublicKeyMismatch)),
        (address != Some(account.key@), ProgramError::Candy(ErrorCode::PublicKeyMismatch)),
    ]
}

/// An account is taken for the one in which `wallet` holds tokens exactly if nothing is wrong with
/// it, and then what it holds is what is read of it; else the first thing that is wrong is told.
pub proof fn law_holding(account: AccountSnapshot, wallet: Pubkey, address: Option<Seq<u8>>)
    ensures
        ({
            let wrong = wrong_with_holding(account, wallet, address);
            let r = ata_result(account, wallet, address);
            &&& r is Ok <==> nothing_wrong(wrong)
            &&& (r matches Ok(t) ==> parse_token_account(account.data@) == Some(t))
            &&& (r matches Err(e) ==> is_first_wrong(wrong, e))
        }),
{
    let wrong = wrong_with_holding(account, wallet, address);
    let r = ata_result(account, wallet, address);
    if r is Err {
        let i: int = if wrong[0].0 {
            0
        } else if wrong[1].0 {
            1
        } else if wrong[2].0 {
            2
        } else if wrong[3].0 {
            3
        } else {
            4
        };
        assert(wrong[i].0);
        assert(r->Err_0 == wrong[i].1);
    }
}

/// What the second stage of a sale comes to.
///
/// The sale is not live for a buyer who is not the authority, has no presale, and comes before
/// the date from which it is open, or where there is none. Nothing is sold when all is sold. What
/// is asked for is the price, or the discount price where there is a whitelist with one, in
/// lamports or in tokens; who does not have it is refused.
#[verifier::rlimit(40)]
pub proof fn law_pay_stage(
    a: MintNFT,
    remaining: Seq<AccountSnapshot>,
    data: Seq<u8>,
    creator_bump: u8,
    derived: DerivedAddressesView,
)
    ensures
        ({
            let r = stage_result(
                a,
                MintStage::Pay,
                Ok(()),
                remaining,
                data,
                creator_bump,
                derived,
            );
            let d = a.candy_machine.data;
            let early = match d.go_live_date {
                None => true,
                Some(date) => a.unix_timestamp < date,
            };
            let no_presale = match d.whitelist_mint_settings {
                None => true,
                Some(ws) => !ws.presale,
            };
            let not_live = a.payer != a.candy_machine.authority && early && no_presale;
            let left = a.candy_machine.items_redeemed < d.items_available;
            let place: int = match d.whitelist_mint_settings {
                None => 0,
                Some(ws) => match ws.mode {
                    WhitelistMintMode::BurnEveryTime => 3,
                    WhitelistMintMode::NeverBurn => 1,
                },
            };
            let price: int = match d.whitelist_mint_settings {
                None => d.price as int,
                Some(ws) => match ws.discount_price {
                    None => d.price as int,
                    Some(discount) => discount as int,
                },
            };
            let wrong = wrong_with_holding(
                remaining[place],
                a.wallet.key,
                derived.payment_account,
            );
            let held = parse_token_account(remaining[place].data@)->0.amount;
            let in_tokens = a.candy_machine.token_mint is Some;
            &&& not_live <==> r == Err::<Option<MintStepView>, ProgramError>(
                ProgramError::Candy(ErrorCode::CandyMachineNotLive),
            )
            &&& !not_live && !left ==> r == Err::<Option<MintStepView>, ProgramError>(
                ProgramError::Candy(ErrorCode::CandyMachineEmpty),
            )
            &&& !not_live && left && !in_tokens && a.payer_lamports < price ==> r == Err::<
                Option<MintStepView>,
                ProgramError,
            >(ProgramError::Candy(ErrorCode::NotEnoughSOL))
            &&& !not_live && left && !in_tokens && a.payer_lamports >= price ==> (r matches Ok(
                Some(step),
            ) && asks_for_lamports(step, a, price))
            &&& !not_live && left && in_tokens && !nothing_wrong(wrong) ==> (r matches Err(e)
                && is_first_wrong(wrong, e))
            &&& !not_live && left && in_tokens && nothing_wrong(wrong) && held < price ==> r
                == Err::<Option<MintStepView>, ProgramError>(
                ProgramError::Candy(ErrorCode::NotEnoughTokens),
            )
            &&& !not_live && left && in_tokens && nothing_wrong(wrong) && held >= price
                && a.token_program@ != TOKEN_PROGRAM@ ==> r == Err::<
                Option<MintStepView>,
                ProgramError,
            >(ProgramError::IncorrectProgramId)
            &&& !not_live && left && in_tokens && nothing_wrong(wrong) && held >= price
                && a.token_program@ == TOKEN_PROGRAM@ ==> (r matches Ok(Some(step))
                && asks_for_tokens(step, a, remaining, place, price))
        }),
{
    let d = a.candy_machine.data;
    let place: int = match d.whitelist_mint_settings {
        None => 0,
        Some(ws) => match ws.mode {
            WhitelistMintMode::BurnEveryTime => 3,
            WhitelistMintMode::NeverBurn => 1,
        },
    };
    let price: u64 = match d.whitelist_mint_settings {
        None => d.price,
        Some(ws) => match ws.discount_price {
            None => d.price,
            Some(discount) => discount,
        },
    };
    law_holding(remaining[place], a.wallet.key, derived.payment_account);
    law_number_bytes(2);
    law_number_bytes(price as int);
    let bytes = u64_le(price as int);
    assert((u32_le(2) + bytes).take(4) =~= u32_le(2));
    assert((u32_le(2) + bytes).skip(4) =~= bytes);
    assert((seq![3u8] + bytes).skip(1) =~= bytes);
}

/// What the first stage of a sale comes to.
///
/// Accounts that are not what they have to be are refused. After the end date only the authority
/// can buy, and nobody once more items are sold than the end amount. Where there is a whitelist,
/// the buyer has to hold a token of it, and where it is burned the first thing that is asked for
/// is to burn one. In all other cases it is as if the sale were at its second stage.
#[verifier::rlimit(40)]
pub proof fn law_begin_stage(
    a: MintNFT,
    remaining: Seq<AccountSnapshot>,
    data: Seq<u8>,
    creator_bump: u8,
    derived: DerivedAddressesView,
)
    ensures
        ({
            let r = stage_result(
                a,
                MintStage::Begin,
                Ok(()),
                remaining,
                data,
                creator_bump,
                derived,
            );
            let pay = stage_result(
                a,
                MintStage::Pay,
                Ok(()),
                remaining,
                data,
                creator_bump,
                derived,
            );
            let d = a.candy_machine.data;
            let fit = accounts_fit(a, derived.creator);
            let ended = match d.end_settings {
                None => false,
                Some(EndSettings::Date(date)) => date < a.unix_timestamp && a.payer
                    != a.candy_machine.authority,
                Some(EndSettings::Amount(amount)) => amount < a.candy_machine.items_redeemed,
            };
            let wrong = wrong_with_holding(
                remaining[0],
                a.wallet.key,
                derived.whitelist_account,
            );
            let held = parse_token_account(remaining[0].data@)->0.amount;
            &&& !fit ==> (r matches Err(e) && a.violation(derived.creator) == Some(e))
            &&& fit && ended ==> r == Err::<Option<MintStepView>, ProgramError>(
                ProgramError::Candy(ErrorCode::CandyMachineNotLive),
            )
            &&& fit && !ended ==> match d.whitelist_mint_settings {
                None => r == pay,
                Some(ws) => {
                    let burned = ws.mode == WhitelistMintMode::BurnEveryTime;
                    &&& !nothing_wrong(wrong) ==> (r matches Err(e) && is_first_wrong(wrong, e))
                    &&& nothing_wrong(wrong) && held == 0 ==> r == Err::<
                        Option<MintStepView>,
                        ProgramError,
                    >(ProgramError::Candy(ErrorCode::NoWhitelistToken))
                    &&& nothing_wrong(wrong) && held != 0 && !burned ==> r == pay
                    &&& nothing_wrong(wrong) && held != 0 && burned && remaining[1].key@
                        != ws.mint@ ==> r == Err::<Option<MintStepView>, ProgramError>(
                        ProgramError::Candy(ErrorCode::PublicKeyMismatch),
                    )
                    &&& nothing_wrong(wrong) && held != 0 && burned && remaining[1].key@
                        == ws.mint@ && a.token_program@ != TOKEN_PROGRAM@ ==> r == Err::<
                        Option<MintStepView>,
                        ProgramError,
                    >(ProgramError::IncorrectProgramId)
                    &&& nothing_wrong(wrong) && held != 0 && burned && remaining[1].key@
                        == ws.mint@ && a.token_program@ == TOKEN_PROGRAM@ ==> (r matches Ok(
                        Some(step),
                    ) && asks_to_burn_one(step, remaining))
                },
            }
        }),
{
    law_accounts_of_sale(a, derived.creator);
    law_holding(remaining[0], a.wallet.key, derived.whitelist_account);
    law_number_bytes(1);
    assert((seq![8u8] + u64_le(1)).skip(1) =~= u64_le(1));
    if let Some(ws) = a.candy_machine.data.whitelist_mint_settings {
        if remaining[1].key@ == ws.mint@ {
            lemma_same_bytes(remaining[1].key, ws.mint);
        }
    }
}

/// Where there is no whitelist and no end of the sale, a buyer who is not the authority is refused
/// as not live exactly before the date from which the sale is open, and at that date and at all
/// times after it is asked for the price, if an item is left and the price is at hand.
#[verifier::rlimit(40)]
pub proof fn law_open_from_go_live_date(
    a: MintNFT,
    remaining: Seq<AccountSnapshot>,
    data: Seq<u8>,
    creator_bump: u8,
    derived: DerivedAddressesView,
    go_live_date: i64,
)
    requires
        accounts_fit(a, derived.creator),
        a.candy_machine.data.whitelist_mint_settings is None,
        a.candy_machine.data.end_settings is None,
        a.candy_machine.data.go_live_date == Some(go_live_date),
        a.payer != a.candy_machine.authority,
    ensures
        ({
            let r = stage_result(
                a,
                MintStage::Begin,
                Ok(()),
                remaining,
                data,
                creator_bump,
                derived,
            );
            &&& r == Err::<Option<MintStepView>, ProgramError>(
                ProgramError::Candy(ErrorCode::CandyMachineNotLive),
            ) <==> a.unix_timestamp < go_live_date
            &&& a.unix_timestamp >= go_live_date && a.candy_machine.items_redeemed
                < a.candy_machine.data.items_available && a.candy_machine.token_mint is None
                && a.payer_lamports >= a.candy_machine.data.price ==> (r matches Ok(Some(step))
                && asks_for_lamports(step, a, a.candy_machine.data.price as int))
        }),
{
    law_begin_stage(a, remaining, data, creator_bump, derived);
    law_pay_stage(a, remaining, data, creator_bump, derived);
}

/// Once the sale is live for a buyer it stays live, up to an end date: the same request at a later
/// time comes to the same.
#[verifier::rlimit(40)]
pub proof fn law_sale_stays_live(
    a: MintNFT,
    later: i64,
    stage: MintStage,
    remaining: Seq<AccountSnapshot>,
    data: Seq<u8>,
    creator_bump: u8,
    derived: DerivedAddressesView,
)
    requires
        a.unix_timestamp <= later,
        a.candy_machine.data.end_settings matches Some(EndSettings::Date(date)) ==> later <= date,
        stage_result(a, stage, Ok(()), remaining, data, creator_bump, derived) != Err::<
            Option<MintStepView>,
            ProgramError,
        >(ProgramError::Candy(ErrorCode::CandyMachineNotLive)),
    ensures
        stage_result(
            MintNFT { unix_timestamp: later, ..a },
            stage,
            Ok(()),
            remaining,
            data,
            creator_bump,
            derived,
        ) == stage_result(a, stage, Ok(()), remaining, data, creator_bump, derived),
{
    let b = MintNFT { unix_timestamp: later, ..a };
    assert(b.violation(derived.creator) == a.violation(derived.creator));
    if stage == MintStage::Issue {
        assert(drawn_index(a) == drawn_index(b));
    }
}

/// The number that the first eight bytes of the latest block hash stand for.
pub open spec fn hash_number(a: MintNFT) -> int {
    let h = a.recent_blockhashes@[0]@;
    h[0] + 256 * h[1] + 65536 * h[2] + 16777216 * h[3] + 4294967296 * h[4] + 1099511627776 * h[5]
        + 281474976710656 * h[6] + 72057594037927936 * h[7]
}

/// Whether the creators that were read are the candy machine itself, verified and without a share,
/// and behind it `creators`, unverified and each with its share.
pub open spec fn are_item_creators(
    s: Seq<StoredCreator>,
    creator: Pubkey,
    creators: Seq<Creator>,
) -> bool {
    &&& s.len() == creators.len() + 1
    &&& s[0].address == creator@ && s[0].verified && s[0].share == 0
    &&& forall|i: int|
        0 <= i < creators.len() ==> (#[trigger] s[i + 1]).address == creators[i].address@ && !s[i
            + 1].verified && s[i + 1].share == creators[i].share
}

/// Whether the bytes of an instruction for the metadata program are read as the request to create
/// metadata with this name, symbol, URI, fee and these creators.
#[verifier::opaque]
pub open spec fn creates_metadata(
    b: Seq<u8>,
    name: Seq<char>,
    symbol: Seq<char>,
    uri: Seq<char>,
    fee: u16,
    creator: Pubkey,
    creators: Seq<Creator>,
    is_mutable: bool,
) -> bool {
    &&& b.len() > 0 && b[0] == 0
    &&& read_text(b.skip(1)) matches Some((s1, r1))
    &&& s1 == name
    &&& read_text(r1) matches Some((s2, r2))
    &&& s2 == symbol
    &&& read_text(r2) matches Some((s3, r3))
    &&& s3 == uri
    &&& read_number(r3, 2) matches Some((n4, r4))
    &&& n4 == fee
    &&& read_flag(r4) matches Some((there, r5))
    &&& there
    &&& read_number(r5, 4) matches Some((n6, r6))
    &&& n6 == creators.len() + 1
    &&& read_creators(r6, creators.len() + 1) matches Some((cs, r7))
    &&& are_item_creators(cs, creator, creators)
    &&& read_flag(r7) matches Some((m, r8))
    &&& m == is_mutable
    &&& r8.len() == 0
}

#[verifier::rlimit(40)]
proof fn lemma_creates_metadata(
    name: Seq<char>,
    symbol: Seq<char>,
    uri: Seq<char>,
    fee: u16,
    creator: Pubkey,
    creators: Seq<Creator>,
    is_mutable: bool,
)
    requires
        fits_borsh(name),
        fits_borsh(symbol),
        fits_borsh(uri),
        creators.len() < u32::MAX,
    ensures
        ({
            let all = item_creators(creator, creators);
            creates_metadata(
                seq![0u8] + borsh_str(name) + borsh_str(symbol) + borsh_str(uri) + u16_le(
                    fee as int,
                ) + option_bytes(
                    Some(u32_le(all.len() as int) + creators_bytes(all)),
                ) + bool_bytes(is_mutable),
                name,
                symbol,
                uri,
                fee,
                creator,
                creators,
                is_mutable,
            )
        }),
{
    reveal(creates_metadata);
    let all = item_creators(creator, creators);
    let count = u32_le(all.len() as int);
    let list = creators_bytes(all);
    let fee_bytes = u16_le(fee as int);
    let r7 = bool_bytes(is_mutable);
    let r6 = list + r7;
    let r5 = count + r6;
    let r4 = seq![1u8] + r5;
    let r3 = fee_bytes + r4;
    let r2 = borsh_str(uri) + r3;
    let r1 = borsh_str(symbol) + r2;
    let b = seq![0u8] + borsh_str(name) + borsh_str(symbol) + borsh_str(uri) + fee_bytes + (
    seq![1u8] + (count + list)) + r7;
    lemma_seven(
        seq![0u8],
        borsh_str(name),
        borsh_str(symbol),
        borsh_str(uri),
        fee_bytes,
        count,
        list,
        r7,
    );
    assert(b.skip(1) =~= borsh_str(name) + r1);
    lemma_read_text(name, r1);
    lemma_read_text(symbol, r2);
    lemma_read_text(uri, r3);
    law_number_bytes(fee as int);
    assert(r3.take(2) =~= fee_bytes);
    assert(r3.skip(2) =~= r4);
    assert(r4.skip(1) =~= r5);
    law_number_bytes(all.len() as int);
    assert(r5.take(4) =~= count);
    assert(r5.skip(4) =~= r6);
    lemma_read_creators(all, r7);
    let (cs, q) = read_creators(r6, all.len())->0;
    assert(is_creator(cs[0], all[0]));
    assert forall|i: int| 0 <= i < creators.len() implies (#[trigger] cs[i + 1]).address
        == creators[i].address@ && !cs[i + 1].verified && cs[i + 1].share == creators[i].share by {
        assert(is_creator(cs[i + 1], all[i + 1]));
    }
    assert(r7.skip(1).len() == 0);
}

/// Pieces one behind the other, put together from the front or from the back.
proof fn lemma_seven(
    a: Seq<u8>,
    b: Seq<u8>,
    c: Seq<u8>,
    d: Seq<u8>,
    e: Seq<u8>,
    f: Seq<u8>,
    g: Seq<u8>,
    h: Seq<u8>,
)
    ensures
        a + b + c + d + e + (seq![1u8] + (f + g)) + h == a + (b + (c + (d + (e + (seq![1u8] + (f
            + (g + h))))))),
{
    let tail = seq![1u8] + (f + (g + h));
    assert((seq![1u8] + (f + g)) + h =~= tail);
    assert(a + b + c + d + e + (seq![1u8] + (f + g)) + h =~= (a + b + c + d) + (e + tail));
    assert((a + b + c + d) + (e + tail) =~= (a + b) + (c + (d + (e + tail))));
    assert((a + b) + (c + (d + (e + tail))) =~= a + (b + (c + (d + (e + tail)))));
}

/// Whether the candy machine signs an invocation, with the address of its account and the byte
/// that was passed in.
pub open spec fn machine_signs(step: MintStepView, a: MintNFT, creator_bump: u8) -> bool {
    &&& step.invocation.signer_seeds matches Some(s)
    &&& s.candy_machine == a.candy_machine_account.key
    &&& s.bump == creator_bump
    &&& s.spec_seeds() == seq![
        encode_utf8("candy_machine"@),
        a.candy_machine_account.key@,
        seq![creator_bump],
    ]
}

/// Whether a step asks the metadata program to create the metadata of the item, with this name
/// and this URI.
pub open spec fn asks_for_metadata(
    step: MintStepView,
    a: MintNFT,
    creator_bump: u8,
    name: Seq<char>,
    uri: Seq<char>,
) -> bool {
    let ix = step.invocation.instruction;
    let d = a.candy_machine.data;
    &&& step.stage == MintStage::MasterEdition
    &&& ix.program_id == a.token_metadata_program
    &&& ix.accounts.len() == 7
    &&& uses(ix.accounts[0], a.metadata.key@, false, true)
    &&& uses(ix.accounts[1], a.mint.key@, false, false)
    &&& uses(ix.accounts[2], a.mint_authority@, true, false)
    &&& uses(ix.accounts[3], a.payer@, true, true)
    &&& uses(ix.accounts[4], a.candy_machine_creator@, true, false)
    &&& uses(ix.accounts[5], SYSTEM_PROGRAM@, false, false)
    &&& uses(ix.accounts[6], RENT_SYSVAR@, false, false)
    &&& creates_metadata(
        ix.data,
        name,
        d.symbol@,
        uri,
        d.seller_fee_basis_points,
        a.candy_machine_creator,
        d.creators@,
        d.is_mutable,
    )
    &&& step.invocation.accounts == seq![
        MintAccount::Metadata,
        MintAccount::Mint,
        MintAccount::MintAuthority,
        MintAccount::Payer,
        MintAccount::TokenMetadataProgram,
        MintAccount::TokenProgram,
        MintAccount::SystemProgram,
        MintAccount::Rent,
        MintAccount::CandyMachineCreator,
    ]
    &&& machine_signs(step, a, creator_bump)
}

/// What the third stage of a sale comes to.
///
/// The item that is sold is the one at the number that the first eight bytes of the latest block
/// hash stand for, modulo the number of items that are left. What [`take_result`] gives at that
/// place is what the metadata says, or the error; what it makes of the account is what the account
/// is afterwards. If an item is sold, one more is counted as sold, and nothing else changes.
#[verifier::rlimit(40)]
pub proof fn law_issue_stage(
    a: MintNFT,
    remaining: Seq<AccountSnapshot>,
    data: Seq<u8>,
    creator_bump: u8,
    derived: DerivedAddressesView,
)
    requires
        a.recent_blockhashes@.len() > 0,
        a.candy_machine.items_redeemed < a.candy_machine.data.items_available ==> hash_number(a)
            % (a.candy_machine.data.items_available - a.candy_machine.items_redeemed)
            <= usize::MAX,
        fits_borsh(a.candy_machine.data.symbol@),
        a.candy_machine.data.creators@.len() < u32::MAX,
    ensures
        ({
            let m = a.candy_machine;
            let n = m.data.items_available - m.items_redeemed;
            let k = hash_number(a) % n;
            let r = stage_result(
                a,
                MintStage::Issue,
                Ok(()),
                remaining,
                data,
                creator_bump,
                derived,
            );
            let after = stage_effect(a, MintStage::Issue, Ok(()), data, creator_bump);
            let taken = take_result(m, data, k, m.items_redeemed);
            &&& n <= 0 ==> r == Err::<Option<MintStepView>, ProgramError>(
                ProgramError::Candy(ErrorCode::NumericalOverflowError),
            ) && after == (a, data)
            &&& n > 0 ==> match taken.0 {
                Err(e) => r == Err::<Option<MintStepView>, ProgramError>(e) && after == (a, data),
                Ok(line) => {
                    &&& r matches Ok(Some(step))
                    &&& fits_borsh(line.name) && fits_borsh(line.uri) ==> asks_for_metadata(
                        step,
                        a,
                        creator_bump,
                        line.name,
                        line.uri,
                    )
                    &&& after.1 == taken.1
                    &&& after.0.candy_machine.items_redeemed == m.items_redeemed + 1
                    &&& after.0.candy_machine.authority == m.authority
                    &&& after.0.candy_machine.wallet == m.wallet
                    &&& after.0.candy_machine.token_mint == m.token_mint
                    &&& after.0.candy_machine.data == m.data
                    &&& after.0 == (MintNFT { candy_machine: after.0.candy_machine, ..a })
                },
            }
        }),
{
    let m = a.candy_machine;
    let n = m.data.items_available - m.items_redeemed;
    let k = hash_number(a) % n;
    if n > 0 {
        let h = a.recent_blockhashes@[0]@;
        assert(hash_number(a) == u64_at(h, 0));
        assert(drawn_index(a) == k);
        assert(0 <= k) by (nonlinear_arith)
            requires
                k == hash_number(a) % n,
                n > 0,
        ;
        assert((k as usize) as int == k);
        let taken = take_result(m, data, k, m.items_redeemed);
        if let Ok(line) = taken.0 {
            if fits_borsh(line.name) && fits_borsh(line.uri) {
                lemma_creates_metadata(
                    line.name,
                    m.data.symbol@,
                    line.uri,
                    m.data.seller_fee_basis_points,
                    a.candy_machine_creator,
                    m.data.creators@,
                    m.data.is_mutable,
                );
            }
        }
    }
}

/// The line that is drawn is the one at the number that the first eight bytes of the latest block
/// hash stand for, modulo the number of items that are left: its name and its URI go into the
/// metadata, and it is the one that is taken out of the account.
#[verifier::rlimit(40)]
pub proof fn law_draw(
    a: MintNFT,
    remaining: Seq<AccountSnapshot>,
    data: Seq<u8>,
    creator_bump: u8,
    derived: DerivedAddressesView,
    k: int,
    name: Seq<char>,
    uri: Seq<char>,
)
    requires
        a.recent_blockhashes@.len() > 0,
        a.candy_machine.data.hidden_setting is None,
        a.candy_machine.items_redeemed < a.candy_machine.data.items_available,
        k == hash_number(a) % (a.candy_machine.data.items_available
            - a.candy_machine.items_redeemed),
        925 + 240 * k <= data.len() <= usize::MAX,
        k < le_value(data.subrange(681, 685)),
        parse_str_pair(data.subrange(685 + 240 * k, 925 + 240 * k)) == Some((name, uri)),
        fits_borsh(name),
        fits_borsh(uri),
        fits_borsh(a.candy_machine.data.symbol@),
        a.candy_machine.data.creators@.len() < u32::MAX,
    ensures
        ({
            let r = stage_result(
                a,
                MintStage::Issue,
                Ok(()),
                remaining,
                data,
                creator_bump,
                derived,
            );
            let after = stage_effect(a, MintStage::Issue, Ok(()), data, creator_bump).1;
            let at = 685 + 240 * k;
            &&& r matches Ok(Some(step))
            &&& asks_for_metadata(step, a, creator_bump, name, uri)
            &&& after.len() == data.len()
            &&& le_value(after.subrange(681, 685)) == le_value(data.subrange(681, 685)) - 1
            &&& after.subrange(685, at) == data.subrange(685, at)
            &&& after.subrange(at, data.len() - 240) == data.subrange(at + 240, data.len() as int)
        }),
{
    let m = a.candy_machine;
    let n = m.data.items_available - m.items_redeemed;
    let number = hash_number(a);
    assert(0 <= k) by (nonlinear_arith)
        requires
            k == number % n,
            n > 0,
    ;
    law_issue_stage(a, remaining, data, creator_bump, derived);
    law_taken_line(m, data, k, m.items_redeemed);
    let after = stage_effect(a, MintStage::Issue, Ok(()), data, creator_bump).1;
    let at = 685 + 240 * k;
    assert(after.subrange(685, at) =~= data.subrange(685, at));
    assert(after.subrange(at, data.len() - 240) =~= data.subrange(at + 240, data.len() as int));
}

/// Every item that is left can be drawn: if the first eight bytes of the latest block hash stand
/// for its place, it is.
#[verifier::rlimit(40)]
pub proof fn law_every_item_can_be_drawn(
    a: MintNFT,
    remaining: Seq<AccountSnapshot>,
    data: Seq<u8>,
    creator_bump: u8,
    derived: DerivedAddressesView,
    k: int,
    name: Seq<char>,
    uri: Seq<char>,
)
    requires
        a.recent_blockhashes@.len() > 0,
        a.candy_machine.data.hidden_setting is None,
        0 <= k < a.candy_machine.data.items_available - a.candy_machine.items_redeemed,
        925 + 240 * k <= data.len() <= usize::MAX,
        k < le_value(data.subrange(681, 685)),
        parse_str_pair(data.subrange(685 + 240 * k, 925 + 240 * k)) == Some((name, uri)),
        fits_borsh(name),
        fits_borsh(uri),
        fits_borsh(a.candy_machine.data.symbol@),
        a.candy_machine.data.creators@.len() < u32::MAX,
        a.recent_blockhashes@[0]@.take(8) == u64_le(k),
    ensures
        stage_result(
            a,
            MintStage::Issue,
            Ok(()),
            remaining,
            data,
            creator_bump,
            derived,
        ) matches Ok(Some(step)) && asks_for_metadata(step, a, creator_bump, name, uri),
{
    let b = a.recent_blockhashes@[0]@.take(8);
    law_number_bytes(k);
    lemma_value_8(b);
    assert(hash_number(a) == k);
    let n = a.candy_machine.data.items_available - a.candy_machine.items_redeemed;
    assert(k % n == k) by (nonlinear_arith)
        requires
            0 <= k < n,
    ;
    law_draw(a, remaining, data, creator_bump, derived, k, name, uri);
}

/// What the fourth stage of a sale comes to: the metadata program is asked to make the item a
/// master edition with the largest number of prints that the settings allow.
pub proof fn law_master_edition_stage(
    a: MintNFT,
    remaining: Seq<AccountSnapshot>,
    data: Seq<u8>,
    creator_bump: u8,
    derived: DerivedAddressesView,
)
    ensures
        ({
            &&& stage_result(
                a,
                MintStage::MasterEdition,
                Ok(()),
                remaining,
                data,
                creator_bump,
                derived,
            ) matches Ok(Some(step))
            &&& step.stage == MintStage::HandOver
            &&& step.invocation.instruction.program_id == a.token_metadata_program
            &&& step.invocation.instruction.accounts.len() == 9
            &&& uses(
                step.invocation.instruction.accounts[0],
                a.master_edition.key@,
                false,
                true,
            )
            &&& uses(step.invocation.instruction.accounts[1], a.mint.key@, false, true)
            &&& uses(
                step.invocation.instruction.accounts[2],
                a.candy_machine_creator@,
                true,
                false,
            )
            &&& uses(step.invocation.instruction.accounts[3], a.mint_authority@, true, false)
            &&& uses(step.invocation.instruction.accounts[4], a.payer@, true, true)
            &&& uses(step.invocation.instruction.accounts[5], a.metadata.key@, false, false)
            &&& uses(step.invocation.instruction.accounts[6], TOKEN_PROGRAM@, false, false)
            &&& uses(step.invocation.instruction.accounts[7], SYSTEM_PROGRAM@, false, false)
            &&& uses(step.invocation.instruction.accounts[8], RENT_SYSVAR@, false, false)
            &&& step.invocation.instruction.data.len() == 10
            &&& step.invocation.instruction.data[0] == 10
            &&& step.invocation.instruction.data[1] == 1
            &&& le_value(step.invocation.instruction.data.skip(2))
                == a.candy_machine.data.max_supply
            &&& step.invocation.accounts == seq![
                MintAccount::MasterEdition,
                MintAccount::Mint,
                MintAccount::MintAuthority,
                MintAccount::Payer,
                MintAccount::Metadata,
                MintAccount::TokenMetadataProgram,
                MintAccount::TokenProgram,
                MintAccount::SystemProgram,
                MintAccount::Rent,
                MintAccount::CandyMachineCreator,
            ]
            &&& machine_signs(step, a, creator_bump)
        }),
{
    let supply = u64_le(a.candy_machine.data.max_supply as int);
    law_number_bytes(a.candy_machine.data.max_supply as int);
    assert((seq![10u8] + (seq![1u8] + supply)).skip(2) =~= supply);
}

/// What the fifth stage of a sale comes to: the metadata program is asked to record that the item
/// has been sold, and to let it be updated from now on by the authority of the machine, if the
/// settings retain it, and else by the update authority that was passed in.
pub proof fn law_hand_over_stage(
    a: MintNFT,
    remaining: Seq<AccountSnapshot>,
    data: Seq<u8>,
    creator_bump: u8,
    derived: DerivedAddressesView,
)
    ensures
        ({
            let new_authority = if a.candy_machine.data.retain_authority {
                a.candy_machine.authority@
            } else {
                a.update_authority@
            };
            &&& stage_result(
                a,
                MintStage::HandOver,
                Ok(()),
                remaining,
                data,
                creator_bump,
                derived,
            ) matches Ok(Some(step))
            &&& step.stage == MintStage::Finish
            &&& step.invocation.instruction.program_id == a.token_metadata_program
            &&& step.invocation.instruction.accounts.len() == 2
            &&& uses(step.invocation.instruction.accounts[0], a.metadata.key@, false, true)
            &&& uses(
                step.invocation.instruction.accounts[1],
                a.candy_machine_creator@,
                true,
                false,
            )
            &&& step.invocation.instruction.data.len() == 37
            &&& step.invocation.instruction.data[0] == 1
            &&& step.invocation.instruction.data[1] == 0
            &&& step.invocation.instruction.data[2] == 1
            &&& step.invocation.instruction.data.subrange(3, 35) == new_authority
            &&& step.invocation.instruction.data[35] == 1
            &&& step.invocation.instruction.data[36] == 1
            &&& step.invocation.accounts == seq![
                MintAccount::TokenMetadataProgram,
                MintAccount::Metadata,
                MintAccount::CandyMachineCreator,
            ]
            &&& machine_signs(step, a, creator_bump)
        }),
{
    let new_authority = if a.candy_machine.data.retain_authority {
        a.candy_machine.authority@
    } else {
        a.update_authority@
    };
    let r = stage_result(
        a,
        MintStage::HandOver,
        Ok(()),
        remaining,
        data,
        creator_bump,
        derived,
    );
    assert(r->Ok_0->0.invocation.instruction.data =~= seq![1u8, 0u8, 1u8] + new_authority
        + seq![1u8, 1u8]);
    assert(r->Ok_0->0.invocation.instruction.data.subrange(3, 35) =~= new_authority);
}

/// A failure of another program ends the sale: with an error of its own where the token program
/// was to burn or to move tokens, and else with that failure. The last stage is done without more
/// ado.
pub proof fn law_failures_and_end(
    a: MintNFT,
    e: ProgramError,
    remaining: Seq<AccountSnapshot>,
    data: Seq<u8>,
    creator_bump: u8,
    derived: DerivedAddressesView,
)
    ensures
        ({
            let failed = |stage: MintStage|
                stage_result(a, stage, Err(e), remaining, data, creator_bump, derived);
            let told = Err::<Option<MintStepView>, ProgramError>(e);
            &&& failed(MintStage::Begin) == told
            &&& failed(MintStage::Pay) == Err::<Option<MintStepView>, ProgramError>(
                ProgramError::Candy(ErrorCode::TokenBurnFailed),
            )
            &&& failed(MintStage::Issue) == if a.candy_machine.token_mint is Some {
                Err::<Option<MintStepView>, ProgramError>(
                    ProgramError::Candy(ErrorCode::TokenTransferFailed),
                )
            } else {
                told
            }
            &&& failed(MintStage::MasterEdition) == told
            &&& failed(MintStage::HandOver) == told
            &&& failed(MintStage::Finish) == told
        }),
        stage_result(
            a,
            MintStage::Finish,
            Ok(()),
            remaining,
            data,
            creator_bump,
            derived,
        ) == Ok::<Option<MintStepView>, ProgramError>(None),
{
}

/// No stage but the third changes anything, and the third changes nothing either where it is
/// refused or comes after a failure.
pub proof fn law_only_issuing_changes_anything(
    a: MintNFT,
    stage: MintStage,
    outcome: Result<(), ProgramError>,
    remaining: Seq<AccountSnapshot>,
    data: Seq<u8>,
    creator_bump: u8,
    derived: DerivedAddressesView,
)
    ensures
        stage != MintStage::Issue || outcome is Err || stage_result(
            a,
            stage,
            outcome,
            remaining,
            data,
            creator_bump,
            derived,
        ) is Err ==> stage_effect(a, stage, outcome, data, creator_bump) == (a, data),
{
}

/// The addresses that a sale derives: that of the creator from a fixed text, the address of the
/// candy machine and the byte that was passed in, by this program; those of token accounts from
/// the wallet, the token program and the mint, by the associated token program.
pub proof fn law_derived_addresses(
    a: MintNFT,
    stage: MintStage,
    creator_bump: u8,
    program_id: Pubkey,
)
    ensures
        ({
            let r = derived_addresses(a, stage, creator_bump, program_id);
            let of_mint = |mint: Pubkey|
                found_program_address(
                    seq![a.wallet.key@, TOKEN_PROGRAM@, mint@],
                    ASSOCIATED_TOKEN_PROGRAM@,
                );
            &&& stage == MintStage::Begin ==> r.creator == program_address(
                seq![
                    encode_utf8("candy_machine"@),
                    a.candy_machine_account.key@,
                    seq![creator_bump],
                ],
                program_id@,
            )
            &&& (stage == MintStage::Begin ==> (
            a.candy_machine.data.whitelist_mint_settings matches Some(ws) ==> r.whitelist_account
                == of_mint(ws.mint)))
            &&& (stage == MintStage::Begin || stage == MintStage::Pay ==> (
            a.candy_machine.token_mint matches Some(mint) ==> r.payment_account == of_mint(mint)))
        }),
{
}

/// Whether the second stage of a sale is refused before a remaining account is read, or reads
/// none.
pub open spec fn reads_no_payment_account(a: MintNFT) -> bool {
    let d = a.candy_machine.data;
    let early = match d.go_live_date {
        None => true,
        Some(date) => a.unix_timestamp < date,
    };
    let no_presale = match d.whitelist_mint_settings {
        None => true,
        Some(ws) => !ws.presale,
    };
    ||| a.payer != a.candy_machine.authority && early && no_presale
    ||| a.candy_machine.items_redeemed >= d.items_available
    ||| a.candy_machine.token_mint is None
}

/// What is asked for the second stage: the two accounts for a payment in tokens are there, behind
/// those for the whitelist, if they are read.
pub proof fn law_pay_stage_is_possible(
    a: MintNFT,
    remaining: Seq<AccountSnapshot>,
    data: Seq<u8>,
    creator_bump: u8,
    derived: DerivedAddressesView,
)
    ensures
        stage_ready(a, MintStage::Pay, Ok(()), remaining, data, creator_bump, derived) <==> {
            ||| reads_no_payment_account(a)
            ||| remaining.len() >= 2 + match a.candy_machine.data.whitelist_mint_settings {
                None => 0int,
                Some(ws) => match ws.mode {
                    WhitelistMintMode::BurnEveryTime => 3,
                    WhitelistMintMode::NeverBurn => 1,
                },
            }
        },
{
}

/// What is asked for the first stage: where accounts fit and the sale has not ended, the account
/// with the whitelist token is there, if there is a whitelist; if it holds a token that is to be
/// burned, the two behind it are there, and else what the second stage asks for.
#[verifier::rlimit(40)]
pub proof fn law_begin_stage_is_possible(
    a: MintNFT,
    remaining: Seq<AccountSnapshot>,
    data: Seq<u8>,
    creator_bump: u8,
    derived: DerivedAddressesView,
)
    ensures
        stage_ready(a, MintStage::Begin, Ok(()), remaining, data, creator_bump, derived) <==> {
            let d = a.candy_machine.data;
            let ended = match d.end_settings {
                None => false,
                Some(EndSettings::Date(date)) => date < a.unix_timestamp && a.payer
                    != a.candy_machine.authority,
                Some(EndSettings::Amount(amount)) => amount < a.candy_machine.items_redeemed,
            };
            let wrong = wrong_with_holding(
                remaining[0],
                a.wallet.key,
                derived.whitelist_account,
            );
            let held = parse_token_account(remaining[0].data@)->0.amount;
            let pay = stage_ready(
                a,
                MintStage::Pay,
                Ok(()),
                remaining,
                data,
                creator_bump,
                derived,
            );
            ||| !accounts_fit(a, derived.creator)
            ||| ended
            ||| match d.whitelist_mint_settings {
                None => pay,
                Some(ws) => remaining.len() > 0 && (!nothing_wrong(wrong) || held == 0 || (if ws.mode
                    == WhitelistMintMode::BurnEveryTime {
                    remaining.len() > 2
                } else {
                    pay
                })),
            }
        },
{
    law_accounts_of_sale(a, derived.creator);
    law_holding(remaining[0], a.wallet.key, derived.whitelist_account);
}

/// What is asked for the third stage: there is a block hash, and if an item is left, the line that
/// is drawn can be taken; if that gives one, its texts, the symbol and the creators are not too
/// long to be encoded.
#[verifier::rlimit(40)]
pub proof fn law_issue_stage_is_possible(
    a: MintNFT,
    remaining: Seq<AccountSnapshot>,
    data: Seq<u8>,
    creator_bump: u8,
    derived: DerivedAddressesView,
)
    requires
        a.candy_machine.items_redeemed < a.candy_machine.data.items_available ==> hash_number(a)
            % (a.candy_machine.data.items_available - a.candy_machine.items_redeemed)
            <= usize::MAX,
    ensures
        stage_ready(a, MintStage::Issue, Ok(()), remaining, data, creator_bump, derived) <==> {
            let m = a.candy_machine;
            let n = m.data.items_available - m.items_redeemed;
            let k = hash_number(a) % n;
            &&& a.recent_blockhashes@.len() > 0
            &&& n > 0 ==> {
                &&& has_line_to_take(m, data, k as usize, m.items_redeemed)
                &&& (take_result(m, data, k, m.items_redeemed).0 matches Ok(line) ==> encode_utf8(
                    line.name,
                ).len() <= u32::MAX && encode_utf8(line.uri).len() <= u32::MAX && encode_utf8(
                    m.data.symbol@,
                ).len() <= u32::MAX && m.data.creators@.len() < u32::MAX)
            }
        },
{
    let m = a.candy_machine;
    let n = m.data.items_available - m.items_redeemed;
    if a.recent_blockhashes@.len() > 0 && n > 0 {
        let k = hash_number(a) % n;
        assert(drawn_index(a) == k);
        let number = hash_number(a);
        assert(0 <= k) by (nonlinear_arith)
            requires
                k == number % n,
                n > 0,
        ;
        assert((k as usize) as int == k);
    }
}

/// A stage after a failure of another program, and those behind the third, can always be gone
/// through.
pub proof fn law_other_stages_are_possible(
    a: MintNFT,
    stage: MintStage,
    outcome: Result<(), ProgramError>,
    remaining: Seq<AccountSnapshot>,
    data: Seq<u8>,
    creator_bump: u8,
    derived: DerivedAddressesView,
)
    requires
        outcome is Err || stage == MintStage::MasterEdition || stage == MintStage::HandOver || stage
            == MintStage::Finish,
    ensures
        stage_ready(a, stage, outcome, remaining, data, creator_bump, derived),
{
}

} // verus!
