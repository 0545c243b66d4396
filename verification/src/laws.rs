//! What holds of the ledger's operations, whatever the ledger and the call.

use crate::amount::{amount_limit, Amount};
use crate::item::{fund_item, has_pledger, item_wf, Error, ItemModel};
use crate::ledger::{
    active, add_outcome, added_item, after_add, after_claim, after_fund, claim_result,
    fund_outcome, get_outcome, ledger_wf, settled, WishlistModel,
};
use vstd::prelude::*;

verus! {

/// Every amount lies below two to the power 256.
pub proof fn law_amount_below_limit(a: Amount)
    ensures
        a@ < amount_limit(),
{
}

/// Funding takes nothing away: what the owner raised and what each
/// contributor pledged are no less than before, and every contributor
/// keeps its place.
pub proof fn law_fund_only_grows(it: ItemModel, caller: Seq<u8>, value: nat)
    ensures
        fund_item(it, caller, value).raised >= it.raised,
        fund_item(it, caller, value).contributors.len() >= it.contributors.len(),
        forall|i: int|
            0 <= i < it.contributors.len() ==> {
                &&& (#[trigger] fund_item(it, caller, value).contributors[i]).0
                    == it.contributors[i].0
                &&& fund_item(it, caller, value).contributors[i].1 >= it.contributors[i].1
            },
        fund_item(it, caller, value).id == it.id,
        fund_item(it, caller, value).owner == it.owner,
        fund_item(it, caller, value).target == it.target,
        fund_item(it, caller, value).end_date == it.end_date,
        fund_item(it, caller, value).description == it.description,
{
}

/// A wish with a positive target and a value of at least a tenth of the
/// target, rounded down, is added while an identifier is left: the new wish
/// is active under the next identifier, with the value as what is raised,
/// and the next identifier grows by one.
pub proof fn law_add_succeeds(
    w: WishlistModel,
    description: Seq<char>,
    end_date: u64,
    target: nat,
    value: nat,
    caller: Seq<u8>,
)
    requires
        ledger_wf(w),
        w.next_item_id < u32::MAX,
        target > 0,
        value >= target / 10,
    ensures
        add_outcome(w, target, value) is Ok,
        ledger_wf(after_add(w, added_item(w, description, end_date, target, value, caller))),
        after_add(
            w,
            added_item(w, description, end_date, target, value, caller),
        ).next_item_id == w.next_item_id + 1,
        get_outcome(
            after_add(w, added_item(w, description, end_date, target, value, caller)),
            w.next_item_id as u32,
        ) == Ok::<ItemModel, Error>(added_item(w, description, end_date, target, value, caller)),
        added_item(w, description, end_date, target, value, caller).raised == value,
{
    let item = added_item(w, description, end_date, target, value, caller);
    let next = after_add(w, item);
    assert(target * 10 / 100 == target / 10);
    assert(next.items[w.next_item_id as int] == Some(item));
    assert forall|i: int| 0 <= i < next.items.len() implies match #[trigger] next.items[i] {
        Some(it) => it.id == i && item_wf(it),
        None => true,
    } by {
        if i < w.items.len() {
            assert(next.items[i] == w.items[i]);
        }
    }
}

/// A wish with no target is refused as `InvalidTarget`, and one with a
/// value below a tenth of its target, rounded down, as
/// `InvalidContribution`.
pub proof fn law_add_refused(w: WishlistModel, target: nat, value: nat)
    ensures
        target == 0 ==> add_outcome(w, target, value) == Err::<(), Error>(Error::InvalidTarget),
        target > 0 && value < target / 10 ==> add_outcome(w, target, value) == Err::<(), Error>(
            Error::InvalidContribution,
        ),
{
    assert(target * 10 / 100 == target / 10);
}

/// Funding with no value is refused as `InvalidContribution`, whatever the
/// identifier and the ledger.
pub proof fn law_fund_nothing_refused(w: WishlistModel, id: u32)
    ensures
        fund_outcome(w, id, 0) == Err::<(), Error>(Error::InvalidContribution),
{
}

/// Two fundings of one wish by an account that neither owns it nor has
/// pledged to it leave one entry for the account, the last, with the sum of
/// the two values; the entries before it and what the owner raised stay.
pub proof fn law_fund_twice_accumulates(
    w: WishlistModel,
    id: u32,
    account: Seq<u8>,
    first: nat,
    second: nat,
)
    requires
        ledger_wf(w),
        active(w, id) is Some,
        account != active(w, id).unwrap().owner,
        !has_pledger(active(w, id).unwrap().contributors, account),
        first > 0,
        second > 0,
    ensures
        fund_outcome(w, id, first) is Ok,
        fund_outcome(after_fund(w, id, first, account), id, second) is Ok,
        get_outcome(after_fund(after_fund(w, id, first, account), id, second, account), id) == Ok::<
            ItemModel,
            Error,
        >(
            ItemModel {
                contributors: active(w, id).unwrap().contributors.push((account, first + second)),
                ..active(w, id).unwrap()
            },
        ),
{
    let it = active(w, id).unwrap();
    let once = fund_item(it, account, first);
    let twice = fund_item(once, account, second);
    assert(once.contributors[it.contributors.len() as int].0 == account);
    assert(has_pledger(once.contributors, account));
    assert forall|i: int| 0 <= i < it.contributors.len() implies twice.contributors[i]
        == it.contributors[i] by {
        assert(once.contributors[i] == it.contributors[i]);
        assert(it.contributors[i].0 != account);
    }
    assert(twice.contributors =~= it.contributors.push((account, first + second)));
}

/// A claim by the owner of a wish whose `raised` is below its target is
/// refused as `InvalidContribution`, and the wish is read afterwards as
/// before.
pub proof fn law_unmet_claim_keeps_wish(w: WishlistModel, id: u32, caller: Seq<u8>, paid: bool)
    requires
        active(w, id) is Some,
        active(w, id).unwrap().owner == caller,
        active(w, id).unwrap().raised < active(w, id).unwrap().target,
    ensures
        claim_result(w, id, caller, paid) == Err::<(), Error>(Error::InvalidContribution),
        get_outcome(after_claim(w, id, caller, paid), id) == Ok::<ItemModel, Error>(
            active(w, id).unwrap(),
        ),
{
}

/// A claim by the owner of a wish whose `raised` has reached its target,
/// with the payment made, succeeds, and the wish is not found afterwards.
pub proof fn law_met_claim_settles(w: WishlistModel, id: u32, caller: Seq<u8>)
    requires
        active(w, id) is Some,
        active(w, id).unwrap().owner == caller,
        active(w, id).unwrap().raised >= active(w, id).unwrap().target,
    ensures
        claim_result(w, id, caller, true) == Ok::<(), Error>(()),
        get_outcome(after_claim(w, id, caller, true), id) == Err::<ItemModel, Error>(
            Error::WishNotFound,
        ),
{
}

/// A settled wish stays settled: funding it and claiming it are refused,
/// no funding, claim or split of another wish brings it back, and the next
/// identifier is as before.
pub proof fn law_settled_stays(
    w: WishlistModel,
    id: u32,
    other: u32,
    value: nat,
    caller: Seq<u8>,
    paid: bool,
)
    requires
        active(w, id) is None,
    ensures
        fund_outcome(w, id, value) is Err,
        claim_result(w, id, caller, paid) == Err::<(), Error>(Error::WishNotFound),
        active(after_claim(w, other, caller, paid), id) is None,
        active(w, other) is Some ==> active(settled(w, other), id) is None,
        fund_outcome(w, other, value) is Ok ==> active(after_fund(w, other, value, caller), id)
            is None,
        after_claim(w, other, caller, paid).next_item_id == w.next_item_id,
        settled(w, other).next_item_id == w.next_item_id,
        after_fund(w, other, value, caller).next_item_id == w.next_item_id,
{
}

/// Adding a wish leaves every slot that was there as it was: an identifier
/// that was given out is not given again, and a settled wish does not come
/// back.
pub proof fn law_add_keeps_slots(w: WishlistModel, item: ItemModel, id: u32)
    requires
        ledger_wf(w),
        id < w.next_item_id,
    ensures
        active(after_add(w, item), id) == active(w, id),
        after_add(w, item).next_item_id > w.next_item_id,
{
}

/// Settling is done once: to settle a settled wish changes nothing.
pub proof fn law_settle_once(w: WishlistModel, id: u32)
    requires
        active(w, id) is Some,
    ensures
        settled(settled(w, id), id) == settled(w, id),
        active(settled(w, id), id) is None,
{
    assert(settled(settled(w, id), id).items =~= settled(w, id).items);
}

} // verus!
