//! What holds of every sale.
use crate::accounts::MintNFT;
use crate::config_lines::{decimal, digit, hidden_name};
use crate::error::ProgramError;
use crate::layout::MAX_CREATOR_LIMIT;
use crate::mint::{
    burn_step, draws_item, is_live, item_creators, lamport_payment_step, one_more_sold,
    payment_place, price_of, sale_ended, stage_result, token_payment_step, DerivedAddressesView,
    MintStage, MintStepView,
};
use crate::pubkey::Pubkey;
use crate::state::{Creator, WhitelistMintMode};
use crate::utils::{ata_result, AccountSnapshot};
use vstd::prelude::*;

verus! {

/// An item is drawn only after a payment, and a payment is asked for only while the sale is
/// open to the buyer and an item is left, only of a buyer who can pay, and of exactly the price.
pub proof fn law_payment(
    a: MintNFT,
    stage: MintStage,
    outcome: Result<(), ProgramError>,
    remaining: Seq<AccountSnapshot>,
    data: Seq<u8>,
    creator_bump: u8,
    derived: DerivedAddressesView,
    step: MintStepView,
)
    requires
        stage_result(a, stage, outcome, remaining, data, creator_bump, derived) == Ok::<
            Option<MintStepView>,
            ProgramError,
        >(Some(step)),
        step.stage == MintStage::Issue,
    ensures
        is_live(a),
        a.candy_machine.items_redeemed < a.candy_machine.data.items_available,
        stage == MintStage::Begin ==> a.violation(derived.creator) is None && !sale_ended(a),
        match a.candy_machine.token_mint {
            None => a.payer_lamports >= price_of(a.candy_machine) && step
                == lamport_payment_step(a),
            Some(_) => {
                &&& ata_result(
                    remaining[payment_place(a.candy_machine)],
                    a.wallet.key,
                    derived.payment_account,
                ) matches Ok(account)
                &&& account.amount >= price_of(a.candy_machine)
                &&& step == token_payment_step(a, remaining)
            },
        },
{
}

/// Nobody who holds no whitelist token gets past the first stage where there is a whitelist, and
/// where the token is to be burned, the first thing that is asked for is to burn one.
pub proof fn law_whitelist(
    a: MintNFT,
    outcome: Result<(), ProgramError>,
    remaining: Seq<AccountSnapshot>,
    data: Seq<u8>,
    creator_bump: u8,
    derived: DerivedAddressesView,
)
    requires
        stage_result(
            a,
            MintStage::Begin,
            outcome,
            remaining,
            data,
            creator_bump,
            derived,
        ) is Ok,
        a.candy_machine.data.whitelist_mint_settings is Some,
    ensures
        ata_result(remaining[0], a.wallet.key, derived.whitelist_account) matches Ok(account)
            && account.amount >= 1,
        a.candy_machine.data.whitelist_mint_settings->0.mode == WhitelistMintMode::BurnEveryTime
            ==> stage_result(
            a,
            MintStage::Begin,
            outcome,
            remaining,
            data,
            creator_bump,
            derived,
        ) == Ok::<Option<MintStepView>, ProgramError>(Some(burn_step(a, remaining))),
{
}

/// The place of a stage in a sale.
pub open spec fn stage_number(stage: MintStage) -> int {
    match stage {
        MintStage::Begin => 0,
        MintStage::Pay => 1,
        MintStage::Issue => 2,
        MintStage::MasterEdition => 3,
        MintStage::HandOver => 4,
        MintStage::Finish => 5,
    }
}

/// A sale never goes back to an earlier stage, so that it comes to an end, and it leaves out no
/// stage from the payment on.
pub proof fn law_stages_go_on(
    a: MintNFT,
    stage: MintStage,
    outcome: Result<(), ProgramError>,
    remaining: Seq<AccountSnapshot>,
    data: Seq<u8>,
    creator_bump: u8,
    derived: DerivedAddressesView,
)
    ensures
        match stage_result(a, stage, outcome, remaining, data, creator_bump, derived) {
            Err(_) => true,
            Ok(None) => stage == MintStage::Finish,
            Ok(Some(step)) => {
                &&& stage_number(stage) < stage_number(step.stage)
                &&& stage != MintStage::Begin ==> stage_number(step.stage) == stage_number(stage)
                    + 1
                &&& stage_number(step.stage) <= 2 || stage_number(stage) >= 2
            },
        },
{
}

/// Never more items are sold than there are, and each draw counts as one item.
pub proof fn law_no_more_sold_than_available(
    a: MintNFT,
    stage: MintStage,
    outcome: Result<(), ProgramError>,
    data: Seq<u8>,
    creator_bump: u8,
)
    requires
        draws_item(a, stage, outcome, data, creator_bump),
    ensures
        one_more_sold(a).candy_machine.items_redeemed == a.candy_machine.items_redeemed + 1,
        one_more_sold(a).candy_machine.items_redeemed
            <= one_more_sold(a).candy_machine.data.items_available,
{
}

/// Distinct numbers have distinct decimal digits.
proof fn lemma_decimal_differs(m: nat, n: nat)
    requires
        decimal(m) == decimal(n),
    ensures
        m == n,
    decreases m,
{
    assert(decimal(m).len() >= 1) by {
        lemma_decimal_not_empty(m);
    }
    lemma_decimal_not_empty(m / 10);
    lemma_decimal_not_empty(n / 10);
    let a = decimal(m);
    let b = decimal(n);
    assert(a.last() == digit(m % 10));
    assert(b.last() == digit(n % 10));
    assert(m % 10 == n % 10);
    if m >= 10 && n >= 10 {
        assert(decimal(m / 10) =~= a.drop_last());
        assert(decimal(n / 10) =~= b.drop_last());
        lemma_decimal_differs(m / 10, n / 10);
    } else if m >= 10 {
        assert(a.len() >= 2);
    } else if n >= 10 {
        assert(b.len() >= 2);
    }
}

/// A number has at least one digit.
proof fn lemma_decimal_not_empty(n: nat)
    ensures
        decimal(n).len() >= 1,
{
}

/// No two items of a machine with a hidden setting have the same name.
pub proof fn law_hidden_names_differ(name: Seq<char>, m: u64, n: u64)
    requires
        hidden_name(name, m) == hidden_name(name, n),
    ensures
        m == n,
{
    let front = name + seq!['#'];
    let a = decimal((m + 1) as nat);
    let b = decimal((n + 1) as nat);
    assert(a =~= hidden_name(name, m).skip(front.len() as int));
    assert(b =~= hidden_name(name, n).skip(front.len() as int));
    lemma_decimal_differs((m + 1) as nat, (n + 1) as nat);
}

/// The shares of creators together.
pub open spec fn total_share(creators: Seq<Creator>) -> int
    decreases creators.len(),
{
    if creators.len() == 0 {
        0
    } else {
        total_share(creators.drop_last()) + creators.last().share
    }
}

/// The candy machine is the first creator of an item and the only one that is verified; it takes
/// nothing away from the shares of the others, and a machine that keeps to the number of
/// creators that it may be set up with makes no item with too many of them.
pub proof fn law_creators_of_item(creator: Pubkey, creators: Seq<Creator>)
    ensures
        item_creators(creator, creators).len() == creators.len() + 1,
        creators.len() <= MAX_CREATOR_LIMIT - 1 ==> item_creators(creator, creators).len()
            <= MAX_CREATOR_LIMIT,
        item_creators(creator, creators)[0] == (Creator {
            address: creator,
            verified: true,
            share: 0,
        }),
        forall|i: int|
            0 < i <= creators.len() ==> !(#[trigger] item_creators(creator, creators)[i]).verified,
        total_share(item_creators(creator, creators)) == total_share(creators),
    decreases creators.len(),
{
    let all = item_creators(creator, creators);
    if creators.len() == 0 {
        assert(all.drop_last() =~= Seq::<Creator>::empty());
        assert(total_share(all.drop_last()) == 0);
    } else {
        law_creators_of_item(creator, creators.drop_last());
        assert(all.drop_last() =~= item_creators(creator, creators.drop_last()));
    }
}

} // verus!
