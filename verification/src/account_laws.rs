//! What setting up, changing and closing down a candy machine comes to, told on the fields of
//! the accounts and the bytes of the account.
use crate::accounts::{
    AddConfigLines, InitializeCandyMachine, MintNFT, UpdateCandyMachine, WithdrawFunds,
    METADATA_PROGRAM,
};
use crate::codec::u32_le;
use crate::config_lines::lemma_padded_len;
use crate::decoding::{
    are_creators, is_date, is_end, is_hidden, is_whitelist, law_machine_is_read_back,
    law_number_bytes, le_value, read_machine, StoredMachine,
};
use crate::error::{Constraint, ErrorCode, ProgramError};
use crate::instruction::TOKEN_PROGRAM;
use crate::layout::{account_space, lemma_line_start, mask_len, MAX_SYMBOL_LENGTH};
use crate::line_laws::{is_text_with_nulls, law_padded_text};
use crate::manage::{
    has_room_for_setup, initial_machine, set_up_account, setup_fault, setup_result,
    update_authority_result, update_result, withdraw_result,
};
use crate::pubkey::Pubkey;
use crate::state::{
    header_bytes, lemma_header_len, CandyMachineData, CandyMachineDataView, DISCRIMINATOR,
};
use crate::utils::{parse_mint, parse_token_account, AccountSnapshot};
use vstd::prelude::*;
use vstd::utf8::*;

verus! {

/// The authority that a writable candy machine records gets all its lamports, whatever the
/// settings of the machine and however many items are sold; nobody else gets any, and nothing
/// but the two balances changes.
pub proof fn law_withdrawal(a: WithdrawFunds)
    ensures
        a.candy_machine_is_writable && a.candy_machine.authority == a.authority
            && a.candy_machine_lamports + a.authority_lamports <= u64::MAX ==> {
            &&& withdraw_result(a).0 == Ok::<(), ProgramError>(())
            &&& withdraw_result(a).1.candy_machine_lamports == 0
            &&& withdraw_result(a).1.authority_lamports == a.candy_machine_lamports
                + a.authority_lamports
        },
        a.candy_machine_is_writable && a.candy_machine.authority == a.authority
            && a.candy_machine_lamports + a.authority_lamports > u64::MAX ==> {
            &&& withdraw_result(a).0 == Err::<(), ProgramError>(
                ProgramError::Candy(ErrorCode::NumericalOverflowError),
            )
            &&& withdraw_result(a).1.candy_machine_lamports == 0
            &&& withdraw_result(a).1.authority_lamports == a.authority_lamports
        },
        !a.candy_machine_is_writable ==> withdraw_result(a) == (
            Err::<(), ProgramError>(ProgramError::Constraint(Constraint::Mut)),
            a,
        ),
        a.candy_machine_is_writable && a.candy_machine.authority != a.authority
            ==> withdraw_result(a) == (
            Err::<(), ProgramError>(ProgramError::Constraint(Constraint::HasOne)),
            a,
        ),
        withdraw_result(a).1.candy_machine == a.candy_machine,
        withdraw_result(a).1.candy_machine_is_writable == a.candy_machine_is_writable,
        withdraw_result(a).1.authority == a.authority,
{
}

/// Withdrawing twice moves nothing the second time.
pub proof fn law_second_withdrawal_moves_nothing(a: WithdrawFunds)
    requires
        withdraw_result(a).0 is Ok,
    ensures
        withdraw_result(withdraw_result(a).1) == withdraw_result(a),
{
}

/// The recorded authority of a writable candy machine can replace all settings, but for the
/// number of items where the new settings have no hidden setting; nothing else changes.
pub proof fn law_update(a: UpdateCandyMachine, data: CandyMachineData)
    ensures
        a.candy_machine_is_writable && a.candy_machine.authority == a.authority && (
        data.hidden_setting is Some || data.items_available
            == a.candy_machine.data.items_available) ==> {
            &&& update_result(a, data).0 == Ok::<(), ProgramError>(())
            &&& update_result(a, data).1.candy_machine.data == data
        },
        a.candy_machine_is_writable && a.candy_machine.authority == a.authority
            && data.hidden_setting is None && data.items_available
            != a.candy_machine.data.items_available ==> update_result(a, data) == (
            Err::<(), ProgramError>(ProgramError::Candy(ErrorCode::CannotChangeNumberOfLines)),
            a,
        ),
        !a.candy_machine_is_writable ==> update_result(a, data) == (
            Err::<(), ProgramError>(ProgramError::Constraint(Constraint::Mut)),
            a,
        ),
        a.candy_machine_is_writable && a.candy_machine.authority != a.authority ==> update_result(
            a,
            data,
        ) == (Err::<(), ProgramError>(ProgramError::Constraint(Constraint::HasOne)), a),
        update_result(a, data).1.candy_machine.authority == a.candy_machine.authority,
        update_result(a, data).1.candy_machine.wallet == a.candy_machine.wallet,
        update_result(a, data).1.candy_machine.token_mint == a.candy_machine.token_mint,
        update_result(a, data).1.candy_machine.items_redeemed == a.candy_machine.items_redeemed,
        update_result(a, data).1.candy_machine_is_writable == a.candy_machine_is_writable,
        update_result(a, data).1.authority == a.authority,
{
}

/// The recorded authority of a writable candy machine can hand it over, and nothing but the
/// recorded authority changes. From then on the new authority can change the machine and the old
/// one cannot, unless it is the same.
pub proof fn law_hand_over_of_machine(a: UpdateCandyMachine, new_authority: Option<Pubkey>)
    ensures
        a.candy_machine_is_writable && a.candy_machine.authority == a.authority
            ==> update_authority_result(a, new_authority).0 == Ok::<(), ProgramError>(()),
        a.candy_machine_is_writable && a.candy_machine.authority == a.authority ==> match new_authority {
            None => update_authority_result(a, new_authority).1 == a,
            Some(k) => update_authority_result(a, new_authority).1.candy_machine.authority == k,
        },
        !a.candy_machine_is_writable ==> update_authority_result(a, new_authority) == (
            Err::<(), ProgramError>(ProgramError::Constraint(Constraint::Mut)),
            a,
        ),
        a.candy_machine_is_writable && a.candy_machine.authority != a.authority
            ==> update_authority_result(a, new_authority) == (
            Err::<(), ProgramError>(ProgramError::Constraint(Constraint::HasOne)),
            a,
        ),
        update_authority_result(a, new_authority).1.candy_machine.wallet == a.candy_machine.wallet,
        update_authority_result(a, new_authority).1.candy_machine.token_mint
            == a.candy_machine.token_mint,
        update_authority_result(a, new_authority).1.candy_machine.items_redeemed
            == a.candy_machine.items_redeemed,
        update_authority_result(a, new_authority).1.candy_machine.data == a.candy_machine.data,
        update_authority_result(a, new_authority).1.candy_machine_is_writable
            == a.candy_machine_is_writable,
        update_authority_result(a, new_authority).1.authority == a.authority,
        a.candy_machine_is_writable && a.candy_machine.authority == a.authority ==> (
        new_authority matches Some(k) ==> {
            let b = update_authority_result(a, new_authority).1;
            &&& k != a.authority ==> update_authority_result(b, new_authority).0 is Err
            &&& update_authority_result(
                UpdateCandyMachine { authority: k, ..b },
                Some(a.authority),
            ).0 is Ok
        }),
{
}

/// Config lines are filled in only for the recorded authority of a writable candy machine.
pub proof fn law_accounts_for_lines(a: AddConfigLines)
    ensures
        a.violation() is None <==> a.candy_machine_is_writable && a.candy_machine.authority
            == a.authority,
        !a.candy_machine_is_writable ==> a.violation() == Some(
            ProgramError::Constraint(Constraint::Mut),
        ),
        a.candy_machine_is_writable && a.candy_machine.authority != a.authority ==> a.violation()
            == Some(ProgramError::Constraint(Constraint::HasOne)),
{
}

/// Whether the accounts of a sale are those that they have to be, with `creator` as the address
/// that is derived from the candy machine.
pub open spec fn accounts_fit(a: MintNFT, creator: Option<Seq<u8>>) -> bool {
    &&& a.candy_machine_account.is_writable
    &&& a.wallet.is_writable
    &&& a.metadata.is_writable
    &&& a.mint.is_writable
    &&& a.master_edition.is_writable
    &&& a.wallet.key == a.candy_machine.wallet
    &&& creator == Some(a.candy_machine_creator@)
    &&& a.token_metadata_program@ == METADATA_PROGRAM@
}

/// The accounts of a sale are refused exactly if one of them is not what it has to be, and the
/// first thing that is wrong is what is told.
pub proof fn law_accounts_of_sale(a: MintNFT, creator: Option<Seq<u8>>)
    ensures
        a.violation(creator) is None <==> accounts_fit(a, creator),
        !a.candy_machine_account.is_writable ==> a.violation(creator) == Some(
            ProgramError::Constraint(Constraint::Mut),
        ),
        a.candy_machine_account.is_writable && a.wallet.key != a.candy_machine.wallet
            ==> a.violation(creator) == Some(ProgramError::Constraint(Constraint::HasOne)),
        a.candy_machine_account.is_writable && a.wallet.key == a.candy_machine.wallet && creator
            != Some(a.candy_machine_creator@) ==> a.violation(creator) == Some(
            ProgramError::Constraint(Constraint::Seeds),
        ),
        a.candy_machine_account.is_writable && a.wallet.key == a.candy_machine.wallet && creator
            == Some(a.candy_machine_creator@) && !(a.wallet.is_writable && a.metadata.is_writable
            && a.mint.is_writable && a.master_edition.is_writable) ==> a.violation(creator)
            == Some(ProgramError::Constraint(Constraint::Mut)),
        accounts_fit(
            MintNFT { token_metadata_program: Pubkey { bytes: METADATA_PROGRAM }, ..a },
            creator,
        ) && a.token_metadata_program@ != METADATA_PROGRAM@ ==> a.violation(creator) == Some(
            ProgramError::Constraint(Constraint::Address),
        ),
{
}

/// An account needs 681 bytes; where there are config lines, it needs four more for their number,
/// 240 for each, four for the length of the bit mask, and a bit for each, in whole bytes.
pub proof fn law_space(d: CandyMachineDataView)
    ensures
        d.hidden_setting is Some ==> account_space(d) == 681,
        d.hidden_setting is None ==> {
            let mask = account_space(d) - (681 + 4 + 240 * d.items_available + 4);
            8 * mask >= d.items_available && 8 * (mask - 1) < d.items_available
        },
{
    lemma_line_start(d.items_available as int);
}

/// What is wrong with the mint and the wallet of a machine that is paid in tokens, in the order
/// in which it is told.
pub open spec fn wrong_with_tokens(mint: AccountSnapshot, wallet: AccountSnapshot) -> Seq<
    (bool, ProgramError),
> {
    let token = parse_token_account(wallet.data@);
    seq![
        (parse_mint(mint.data@) is None, ProgramError::InvalidAccountData),
        (
            parse_mint(mint.data@) == Some(false),
            ProgramError::Candy(ErrorCode::Uninitialized),
        ),
        (token is None, ProgramError::InvalidAccountData),
        (!token->0.is_initialized, ProgramError::Candy(ErrorCode::Uninitialized)),
        (
            mint.owner@ != TOKEN_PROGRAM@ || wallet.owner@ != TOKEN_PROGRAM@,
            ProgramError::Candy(ErrorCode::IncorrectOwner),
        ),
        (token->0.mint != mint.key@, ProgramError::Candy(ErrorCode::MintMismatch)),
    ]
}

/// Whether `e` is the first thing that is wrong of a list.
pub open spec fn is_first_wrong(list: Seq<(bool, ProgramError)>, e: ProgramError) -> bool {
    exists|i: int|
        0 <= i < list.len() && (#[trigger] list[i]).0 && list[i].1 == e && forall|j: int|
            0 <= j < i ==> !(#[trigger] list[j]).0
}

/// Whether nothing is wrong of a list.
pub open spec fn nothing_wrong(list: Seq<(bool, ProgramError)>) -> bool {
    forall|j: int| 0 <= j < list.len() ==> !(#[trigger] list[j]).0
}

/// What is wrong with the accounts and the settings of a machine that is to be set up, apart from
/// tokens, in the order in which it is told.
pub open spec fn wrong_with_setup(
    a: InitializeCandyMachine,
    d: CandyMachineDataView,
    len: int,
    program_id: Pubkey,
) -> Seq<(bool, ProgramError)> {
    seq![
        (!a.candy_machine_is_writable, ProgramError::Constraint(Constraint::Mut)),
        (a.candy_machine_owner != program_id, ProgramError::Constraint(Constraint::Raw)),
        (
            len < if d.hidden_setting is Some {
                681
            } else {
                689 + 240 * d.items_available + (d.items_available + 7) / 8
            },
            ProgramError::Constraint(Constraint::Raw),
        ),
        (
            encode_utf8(d.uuid).len() != 6,
            ProgramError::Candy(ErrorCode::UuidMustBeExactly6Length),
        ),
    ]
}

/// A machine is refused for the first thing that is wrong with it, and then the account stays as
/// it is; if nothing is wrong, it is set up.
#[verifier::rlimit(40)]
pub proof fn law_setup_refusals(
    a: InitializeCandyMachine,
    remaining: Seq<AccountSnapshot>,
    d: CandyMachineDataView,
    data: Seq<u8>,
    program_id: Pubkey,
)
    ensures
        ({
            let r = setup_result(a, remaining, d, data, program_id);
            let wrong = wrong_with_setup(a, d, data.len() as int, program_id);
            let tokens = wrong_with_tokens(remaining[0], a.wallet);
            let paid_in_tokens = remaining.len() > 0;
            &&& !nothing_wrong(wrong) ==> (r.0 matches Err(e) && is_first_wrong(wrong, e))
            &&& nothing_wrong(wrong) && paid_in_tokens && !nothing_wrong(tokens)
                ==> (r.0 matches Err(e) && is_first_wrong(tokens, e))
            &&& nothing_wrong(wrong) && (paid_in_tokens ==> nothing_wrong(tokens))
                && d.creators.len() > 4 ==> r.0 == Err::<(), ProgramError>(
                ProgramError::Candy(ErrorCode::TooManyCreators),
            )
            &&& nothing_wrong(wrong) && (paid_in_tokens ==> nothing_wrong(tokens))
                && d.creators.len() <= 4 ==> r.0 == Ok::<(), ProgramError>(())
            &&& r.0 is Err ==> r.1 == data
        }),
{
    lemma_line_start(d.items_available as int);
    let r = setup_result(a, remaining, d, data, program_id);
    let wrong = wrong_with_setup(a, d, data.len() as int, program_id);
    let tokens = wrong_with_tokens(remaining[0], a.wallet);
    if !nothing_wrong(wrong) {
        let i: int = if wrong[0].0 {
            0
        } else if wrong[1].0 {
            1
        } else if wrong[2].0 {
            2
        } else {
            3
        };
        assert(wrong[i].0);
        assert(r.0 == Err::<(), ProgramError>(wrong[i].1));
    } else {
        assert(!wrong[0].0 && !wrong[1].0 && !wrong[2].0 && !wrong[3].0);
        if remaining.len() > 0 && !nothing_wrong(tokens) {
            let i: int = if tokens[0].0 {
                0
            } else if tokens[1].0 {
                1
            } else if tokens[2].0 {
                2
            } else if tokens[3].0 {
                3
            } else if tokens[4].0 {
                4
            } else {
                5
            };
            assert(tokens[i].0);
            assert(r.0 == Err::<(), ProgramError>(tokens[i].1));
        } else if remaining.len() > 0 {
            assert(!tokens[0].0 && !tokens[1].0 && !tokens[2].0 && !tokens[3].0 && !tokens[4].0
                && !tokens[5].0);
        }
    }
}

/// Whether what was read of a candy machine is what was given when it was set up: the authority,
/// the wallet and the token mint that were passed in, nothing sold, and each setting as it was
/// given, but for the symbol, behind which null characters stand.
pub open spec fn is_what_was_given(
    s: StoredMachine,
    a: InitializeCandyMachine,
    remaining: Seq<AccountSnapshot>,
    d: CandyMachineDataView,
) -> bool {
    &&& s.discriminator == DISCRIMINATOR@
    &&& s.authority == a.authority@
    &&& s.wallet == a.wallet.key@
    &&& s.token_mint == if remaining.len() > 0 {
        Some(remaining[0].key@)
    } else {
        None
    }
    &&& s.items_redeemed == 0
    &&& s.settings.fixed.uuid == d.uuid
    &&& s.settings.fixed.price == d.price
    &&& is_text_with_nulls(s.settings.fixed.symbol, d.symbol)
    &&& encode_utf8(s.settings.fixed.symbol).len() == 10
    &&& s.settings.fixed.seller_fee_basis_points == d.seller_fee_basis_points
    &&& s.settings.fixed.max_supply == d.max_supply
    &&& s.settings.fixed.is_mutable == d.is_mutable
    &&& s.settings.fixed.retain_authority == d.retain_authority
    &&& s.settings.fixed.use_captcha == d.use_captcha
    &&& is_date(s.settings.go_live_date, d.go_live_date)
    &&& is_end(s.settings.end_settings, d.end_settings)
    &&& are_creators(s.settings.creators, d.creators)
    &&& is_hidden(s.settings.hidden_setting, d.hidden_setting)
    &&& is_whitelist(s.settings.whitelist_mint_settings, d.whitelist_mint_settings)
    &&& s.settings.items_available == d.items_available
}

/// Whether `after` is `data` with `head` at the front, and with the length of the bit mask of
/// `items` items, an eighth of their number rounded up, behind the room for the config lines.
pub open spec fn is_written(after: Seq<u8>, data: Seq<u8>, head: Seq<u8>, items: int) -> bool {
    let mask = 685 + 240 * items;
    &&& after.len() == data.len()
    &&& le_value(after.subrange(mask, mask + 4)) == ((items + 7) / 8) % 4294967296
    &&& forall|i: int|
        0 <= i < data.len() && !(mask <= i < mask + 4) ==> #[trigger] after[i] == if i
            < head.len() {
            head[i]
        } else {
            data[i]
        }
}

/// Setting up a machine writes two things to the account: at the front, bytes that are read as the
/// machine with everything as it was given; and the length of the bit mask.
#[verifier::rlimit(40)]
pub proof fn law_setup_writes_what_was_given(
    a: InitializeCandyMachine,
    remaining: Seq<AccountSnapshot>,
    d: CandyMachineDataView,
    data: Seq<u8>,
    program_id: Pubkey,
)
    requires
        setup_result(a, remaining, d, data, program_id).0 is Ok,
        encode_utf8(d.symbol).len() <= 10,
        d.hidden_setting matches Some(h) ==> encode_utf8(h.name).len() <= u32::MAX && encode_utf8(
            h.uri,
        ).len() <= u32::MAX && h.hash.len() == 32,
        689 + 240 * d.items_available <= data.len(),
    ensures
        exists|head: Seq<u8>, s: StoredMachine|
            {
                &&& #[trigger] read_machine(head) == Some((s, Seq::<u8>::empty()))
                &&& #[trigger] is_what_was_given(s, a, remaining, d)
                &&& is_written(
                    setup_result(a, remaining, d, data, program_id).1,
                    data,
                    head,
                    d.items_available as int,
                )
            },
{
    let m = initial_machine(a, remaining, d);
    let after = setup_result(a, remaining, d, data, program_id).1;
    let items = d.items_available as int;
    let mask = 685 + 240 * items;
    lemma_line_start(items);
    law_padded_text(d.symbol, MAX_SYMBOL_LENGTH as int);
    let head = header_bytes(m);
    assert(after == set_up_account(data, m));
    let count = mask_len(items) % 4294967296;
    law_number_bytes(count);
    assert(after.subrange(mask, mask + 4) =~= u32_le(count));
    let none = Seq::<u8>::empty();
    law_machine_is_read_back(m, none);
    assert(head + none =~= head);
    let s = (read_machine(head)->0).0;
    assert(is_what_was_given(s, a, remaining, d));
    assert(is_written(after, data, head, items));
}

/// After a machine has been set up, the head of its account is read as that machine, with
/// everything as it was given. Where the texts of a hidden setting are so long that the head could
/// reach the length of the bit mask, nothing is claimed.
#[verifier::rlimit(40)]
pub proof fn law_setup_stores_what_was_given(
    a: InitializeCandyMachine,
    remaining: Seq<AccountSnapshot>,
    d: CandyMachineDataView,
    data: Seq<u8>,
    program_id: Pubkey,
)
    requires
        setup_result(a, remaining, d, data, program_id).0 is Ok,
        encode_utf8(d.symbol).len() <= 10,
        d.hidden_setting matches Some(h) ==> encode_utf8(h.name).len() + encode_utf8(h.uri).len()
            <= 275 + 240 * d.items_available && encode_utf8(h.name).len() <= u32::MAX
            && encode_utf8(h.uri).len() <= u32::MAX && h.hash.len() == 32,
        689 + 240 * d.items_available <= data.len(),
    ensures
        read_machine(setup_result(a, remaining, d, data, program_id).1) matches Some((s, rest))
            && is_what_was_given(s, a, remaining, d) && rest.len() <= data.len(),
{
    let m = initial_machine(a, remaining, d);
    let after = setup_result(a, remaining, d, data, program_id).1;
    lemma_line_start(d.items_available as int);
    law_padded_text(d.symbol, MAX_SYMBOL_LENGTH as int);
    lemma_header_len(m);
    let head = header_bytes(m);
    assert(head.len() <= 685 + 240 * d.items_available);
    assert(after == set_up_account(data, m));
    let rest = after.skip(head.len() as int);
    assert(after =~= head + rest);
    law_machine_is_read_back(m, rest);
}

/// The number of bytes that the head of the account of a machine takes up.
pub open spec fn head_len(remaining: Seq<AccountSnapshot>, d: CandyMachineDataView) -> int {
    let token_mint: int = if remaining.len() > 0 {
        33
    } else {
        1
    };
    let go_live: int = if d.go_live_date is Some {
        9
    } else {
        1
    };
    let end: int = if d.end_settings is Some {
        10
    } else {
        1
    };
    let hidden: int = match d.hidden_setting {
        None => 1,
        Some(h) => 1int + 4 + encode_utf8(h.name).len() + 4 + encode_utf8(h.uri).len() + 32,
    };
    let whitelist: int = match d.whitelist_mint_settings {
        None => 1,
        Some(w) => 1 + 1 + 32 + 1 + if w.discount_price is Some {
            9int
        } else {
            1
        },
    };
    8 + 32 + 32 + token_mint + 8 + 4 + 6 + 8 + 4 + 10 + 2 + 8 + 1 + 1 + 1 + go_live + end + 4 + 34
        * d.creators.len() + hidden + whitelist + 8
}

/// Setting up asks of the account and the settings that what it computes and writes fits, and
/// nothing more: what is refused is refused in any account, and else the symbol has at most ten
/// bytes, and the head and the length of the bit mask lie within the account.
#[verifier::rlimit(40)]
pub proof fn law_setup_is_possible(
    a: InitializeCandyMachine,
    remaining: Seq<AccountSnapshot>,
    d: CandyMachineDataView,
    data: Seq<u8>,
    program_id: Pubkey,
)
    requires
        d.hidden_setting matches Some(h) ==> h.hash.len() == 32,
    ensures
        has_room_for_setup(a, remaining, d, data, program_id) <==> {
            let refused = setup_result(
                a,
                remaining,
                CandyMachineDataView { creators: seq![], ..d },
                data,
                program_id,
            ).0 is Err;
            &&& a.candy_machine_is_writable && a.candy_machine_owner == program_id
                && d.hidden_setting is None ==> 689 + 240 * d.items_available + (d.items_available
                + 7) / 8 <= usize::MAX
            &&& !refused ==> encode_utf8(d.symbol).len() <= 10
            &&& !refused && d.creators.len() <= 4 ==> {
                &&& (d.hidden_setting matches Some(h) ==> encode_utf8(h.name).len() <= u32::MAX
                    && encode_utf8(h.uri).len() <= u32::MAX)
                &&& head_len(remaining, d) <= data.len()
                &&& 689 + 240 * d.items_available <= data.len()
            }
        },
{
    lemma_line_start(d.items_available as int);
    let m = initial_machine(a, remaining, d);
    lemma_header_len(m);
    if encode_utf8(d.symbol).len() <= 10 {
        lemma_padded_len(d.symbol, MAX_SYMBOL_LENGTH as int);
    }
    let e = CandyMachineDataView { creators: seq![], ..d };
    assert(account_space(e) == account_space(d));
    assert(setup_fault(a, remaining, e, data.len() as int, program_id) == setup_fault(
        a,
        remaining,
        d,
        data.len() as int,
        program_id,
    ));
}

} // verus!
