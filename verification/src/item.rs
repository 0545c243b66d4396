//! A wish: its record, its mathematical model, and the rules by which
//! pledges are booked on it.

use crate::account::AccountId;
use crate::amount::{amount_checked_add, amount_checked_div, amount_checked_mul, amount_limit, Amount};
use vstd::prelude::*;

verus! {

/// The reasons for which an operation on the ledger is refused.
#[derive(Clone, Copy, Debug, PartialEq, Eq, Structural)]
pub enum Error {
    /// The value that came with the call is too small, the goal has not been
    /// met, a payout failed, or no identifier is left.
    InvalidContribution,
    /// No active wish has the identifier, or the caller does not own it.
    WishNotFound,
    /// The target is nothing.
    InvalidTarget,
}

/// The notice that a wish was added.
#[derive(Clone, Copy, Debug, PartialEq, Eq)]
pub struct WishlistAdded {
    pub id: u32,
    pub owner: AccountId,
}

/// A payment that the ledger asks its host to make.
#[derive(Clone, Copy, Debug, PartialEq, Eq)]
pub struct Transfer {
    pub to: AccountId,
    pub amount: Amount,
}

/// A pledge as the contracts see it: the pledger's bytes and the amount.
pub type Pledge = (Seq<u8>, nat);

/// A wish as the contracts see it.
pub struct ItemModel {
    pub id: nat,
    pub description: Seq<char>,
    pub owner: Seq<u8>,
    pub target: nat,
    pub end_date: u64,
    pub raised: nat,
    pub contributors: Seq<Pledge>,
}

/// A wish: a funding goal with its owner, its deadline, what the owner has
/// put in, and what each other account has pledged, in the order in which
/// the accounts first pledged.
#[derive(Debug, PartialEq, Eq)]
pub struct WishListItem {
    pub id: u32,
    pub description: String,
    pub owner: AccountId,
    pub target: Amount,
    pub end_date: u64,
    pub raised: Amount,
    pub contributors: Vec<(AccountId, Amount)>,
}

/// The pledges that a list of contributors stands for.
pub open spec fn pledges_of(cs: Seq<(AccountId, Amount)>) -> Seq<Pledge> {
    Seq::new(cs.len(), |i: int| (cs[i].0@, cs[i].1@))
}

/// The payments that a list of transfers stands for.
pub open spec fn payments_of(ts: Seq<Transfer>) -> Seq<Pledge> {
    Seq::new(ts.len(), |i: int| (ts[i].to@, ts[i].amount@))
}

impl View for WishListItem {
    type V = ItemModel;

    open spec fn view(&self) -> ItemModel {
        ItemModel {
            id: self.id as nat,
            description: self.description@,
            owner: self.owner@,
            target: self.target@,
            end_date: self.end_date,
            raised: self.raised@,
            contributors: pledges_of(self.contributors@),
        }
    }
}

/// The sum of the pledged amounts.
pub open spec fn pledged(cs: Seq<Pledge>) -> nat
    decreases cs.len(),
{
    if cs.len() == 0 {
        0
    } else {
        pledged(cs.drop_last()) + cs.last().1
    }
}

/// Whether the account is among the pledgers.
pub open spec fn has_pledger(cs: Seq<Pledge>, account: Seq<u8>) -> bool {
    exists|i: int| 0 <= i < cs.len() && (#[trigger] cs[i]).0 == account
}

/// What holds of every wish on the ledger: the target is positive, the owner
/// is no pledger, no account pledges twice, and every pledge is positive.
pub open spec fn item_wf(it: ItemModel) -> bool {
    &&& it.target > 0
    &&& !has_pledger(it.contributors, it.owner)
    &&& forall|i: int, j: int|
        0 <= i < j < it.contributors.len() ==> (#[trigger] it.contributors[i]).0 != (
        #[trigger] it.contributors[j]).0
    &&& forall|i: int| 0 <= i < it.contributors.len() ==> (#[trigger] it.contributors[i]).1 > 0
}

/// The pledges after the account's pledge has grown by the value.
pub open spec fn raise_pledge(cs: Seq<Pledge>, account: Seq<u8>, value: nat) -> Seq<Pledge> {
    Seq::new(
        cs.len(),
        |i: int|
            if cs[i].0 == account {
                (account, cs[i].1 + value)
            } else {
                cs[i]
            },
    )
}

/// The wish after the caller has funded it with the value: the owner's
/// value goes to `raised`, a pledger's to its pledge, and a new pledger is
/// entered last.
pub open spec fn fund_item(it: ItemModel, caller: Seq<u8>, value: nat) -> ItemModel {
    if caller == it.owner {
        ItemModel { raised: it.raised + value, ..it }
    } else if has_pledger(it.contributors, caller) {
        ItemModel { contributors: raise_pledge(it.contributors, caller, value), ..it }
    } else {
        ItemModel { contributors: it.contributors.push((caller, value)), ..it }
    }
}

/// Whether the sum that funding makes fits in 256 bits.
pub open spec fn fund_fits(it: ItemModel, caller: Seq<u8>, value: nat) -> bool {
    if caller == it.owner {
        it.raised + value < amount_limit()
    } else {
        forall|i: int|
            0 <= i < it.contributors.len() && (#[trigger] it.contributors[i]).0 == caller
                ==> it.contributors[i].1 + value < amount_limit()
    }
}

/// All that the wish holds: what the owner put in and what was pledged.
pub open spec fn total_worth(it: ItemModel) -> nat {
    it.raised + pledged(it.contributors)
}

/// What each pledger is sent when the wish is split: a hundred times the
/// pledge, divided by all that the wish holds, rounded down.
pub open spec fn split_shares(it: ItemModel) -> Seq<Pledge> {
    Seq::new(
        it.contributors.len(),
        |i: int| (it.contributors[i].0, it.contributors[i].1 * 100 / total_worth(it)),
    )
}

/// Whether every number that a split computes fits in 256 bits.
pub open spec fn split_fits(it: ItemModel) -> bool {
    &&& total_worth(it) < amount_limit()
    &&& forall|i: int|
        0 <= i < it.contributors.len() ==> (#[trigger] it.contributors[i]).1 * 100
            < amount_limit()
}

/// The sum of the first pledges is the sum of those before the last of them,
/// and that one.
pub proof fn lemma_pledged_step(cs: Seq<Pledge>, i: int)
    requires
        0 <= i < cs.len(),
    ensures
        pledged(cs.take(i + 1)) == pledged(cs.take(i)) + cs[i].1,
{
    assert(cs.take(i + 1).drop_last() =~= cs.take(i));
}

/// A part of the pledges sums to no more than all of them.
pub proof fn lemma_pledged_grows(cs: Seq<Pledge>, i: int)
    requires
        0 <= i <= cs.len(),
    ensures
        pledged(cs.take(i)) <= pledged(cs),
    decreases cs.len() - i,
{
    if i == cs.len() {
        assert(cs.take(i) =~= cs);
    } else {
        lemma_pledged_step(cs, i);
        lemma_pledged_grows(cs, i + 1);
    }
}

/// A pledge is no more than the sum of all pledges.
pub proof fn lemma_pledge_within_sum(cs: Seq<Pledge>, i: int)
    requires
        0 <= i < cs.len(),
    ensures
        cs[i].1 <= pledged(cs),
{
    lemma_pledged_step(cs, i);
    lemma_pledged_grows(cs, i + 1);
}

impl WishListItem {
    /// Whether the wish is one that the ledger can hold.
    pub open spec fn wf(&self) -> bool {
        item_wf(self@)
    }

    /// A copy of the wish.
    pub fn duplicate(&self) -> (r: WishListItem)
        ensures
            r@ == self@,
    {
        let mut cs: Vec<(AccountId, Amount)> = Vec::new();
        let mut i: usize = 0;
        while i < self.contributors.len()
            invariant
                i <= self.contributors.len(),
                cs@ == self.contributors@.take(i as int),
            decreases self.contributors.len() - i,
        {
            cs.push(self.contributors[i]);
            assert(cs@ =~= self.contributors@.take(i + 1));
            i += 1;
        }
        assert(cs@ =~= self.contributors@);
        WishListItem {
            id: self.id,
            description: self.description.clone(),
            owner: self.owner,
            target: self.target,
            end_date: self.end_date,
            raised: self.raised,
            contributors: cs,
        }
    }

    /// Whether the account has pledged to the wish.
    pub fn is_contributor(&self, account: &AccountId) -> (r: bool)
        ensures
            r == has_pledger(self@.contributors, account@),
    {
        let mut i: usize = 0;
        while i < self.contributors.len()
            invariant
                i <= self.contributors.len(),
                forall|j: int| 0 <= j < i ==> (#[trigger] self@.contributors[j]).0 != account@,
            decreases self.contributors.len() - i,
        {
            if self.contributors[i].0.same_as(account) {
                assert(self@.contributors[i as int].0 == account@);
                return true;
            }
            i += 1;
        }
        false
    }

    /// The sum of what the contributors have pledged, or `None` where the
    /// sum does not fit in 256 bits.
    pub fn checked_contributors_raised(&self) -> (r: Option<Amount>)
        ensures
            match r {
                Some(sum) => sum@ == pledged(self@.contributors),
                None => pledged(self@.contributors) >= amount_limit(),
            },
    {
        let mut sum = Amount::zero();
        let mut i: usize = 0;
        assert(self@.contributors.take(0) =~= Seq::<Pledge>::empty());
        while i < self.contributors.len()
            invariant
                i <= self.contributors.len(),
                sum@ == pledged(self@.contributors.take(i as int)),
            decreases self.contributors.len() - i,
        {
            proof {
                lemma_pledged_step(self@.contributors, i as int);
                lemma_pledged_grows(self@.contributors, i + 1);
            }
            match amount_checked_add(sum, self.contributors[i].1) {
                Some(more) => {
                    sum = more;
                },
                None => {
                    return None;
                },
            }
            i += 1;
        }
        assert(self@.contributors.take(i as int) =~= self@.contributors);
        Some(sum)
    }

    /// The sum of what the contributors have pledged.
    pub fn contributors_raised(&self) -> (r: Amount)
        requires
            pledged(self@.contributors) < amount_limit(),
        ensures
            r@ == pledged(self@.contributors),
    {
        self.checked_contributors_raised().unwrap()
    }

    /// All that the wish holds, or `None` where that does not fit in 256
    /// bits.
    pub fn checked_worth(&self) -> (r: Option<Amount>)
        ensures
            match r {
                Some(sum) => sum@ == total_worth(self@),
                None => total_worth(self@) >= amount_limit(),
            },
    {
        match self.checked_contributors_raised() {
            Some(pledges) => amount_checked_add(self.raised, pledges),
            None => None,
        }
    }

    /// Whether the caller can fund the wish with the value without a sum
    /// that leaves 256 bits.
    pub fn can_fund(&self, caller: &AccountId, value: Amount) -> (r: bool)
        ensures
            r == fund_fits(self@, caller@, value@),
    {
        if caller.same_as(&self.owner) {
            return amount_checked_add(self.raised, value).is_some();
        }
        let mut i: usize = 0;
        while i < self.contributors.len()
            invariant
                i <= self.contributors.len(),
                caller@ != self@.owner,
                forall|j: int|
                    0 <= j < i && (#[trigger] self@.contributors[j]).0 == caller@
                        ==> self@.contributors[j].1 + value@ < amount_limit(),
            decreases self.contributors.len() - i,
        {
            let c = self.contributors[i];
            assert(self@.contributors[i as int] == (c.0@, c.1@));
            if c.0.same_as(caller) && amount_checked_add(c.1, value).is_none() {
                return false;
            }
            i += 1;
        }
        true
    }

    /// Whether the wish can be split without a number that leaves 256 bits.
    pub fn can_split(&self) -> (r: bool)
        ensures
            r == split_fits(self@),
    {
        if self.checked_worth().is_none() {
            return false;
        }
        let hundred = Amount::from_u64(100);
        let mut i: usize = 0;
        while i < self.contributors.len()
            invariant
                i <= self.contributors.len(),
                hundred@ == 100,
                forall|j: int|
                    0 <= j < i ==> (#[trigger] self@.contributors[j]).1 * 100 < amount_limit(),
            decreases self.contributors.len() - i,
        {
            let c = self.contributors[i];
            assert(self@.contributors[i as int] == (c.0@, c.1@));
            if amount_checked_mul(c.1, hundred).is_none() {
                return false;
            }
            i += 1;
        }
        true
    }

    /// The wish after the caller has funded it with the value.
    pub fn funded(&self, caller: &AccountId, value: Amount) -> (r: WishListItem)
        requires
            fund_fits(self@, caller@, value@),
        ensures
            r@ == fund_item(self@, caller@, value@),
    {
        if caller.same_as(&self.owner) {
            let mut next = self.duplicate();
            next.raised = amount_checked_add(self.raised, value).unwrap();
            return next;
        }
        let mut cs: Vec<(AccountId, Amount)> = Vec::new();
        let mut found = false;
        let mut i: usize = 0;
        while i < self.contributors.len()
            invariant
                i <= self.contributors.len(),
                cs@.len() == i,
                fund_fits(self@, caller@, value@),
                caller@ != self@.owner,
                found == has_pledger(self@.contributors.take(i as int), caller@),
                pledges_of(cs@) == raise_pledge(self@.contributors, caller@, value@).take(i as int),
            decreases self.contributors.len() - i,
        {
            let c = self.contributors[i];
            let ghost before = self@.contributors.take(i as int);
            let ghost after = self@.contributors.take(i + 1);
            assert(self@.contributors[i as int] == (c.0@, c.1@));
            assert(forall|j: int| 0 <= j < i ==> after[j] == before[j]);
            assert(after[i as int] == self@.contributors[i as int]);
            if c.0.same_as(caller) {
                let more = amount_checked_add(c.1, value).unwrap();
                cs.push((*caller, more));
                found = true;
            } else {
                cs.push(c);
                assert(has_pledger(after, caller@) ==> has_pledger(before, caller@)) by {
                    if has_pledger(after, caller@) {
                        let k = choose|k: int| 0 <= k < after.len() && (#[trigger] after[k]).0 == caller@;
                        assert(before[k].0 == caller@);
                    }
                }
                assert(has_pledger(before, caller@) ==> has_pledger(after, caller@)) by {
                    if has_pledger(before, caller@) {
                        let k = choose|k: int| 0 <= k < before.len() && (#[trigger] before[k]).0 == caller@;
                        assert(after[k].0 == caller@);
                    }
                }
            }
            assert(pledges_of(cs@) =~= raise_pledge(self@.contributors, caller@, value@).take(
                i + 1,
            ));
            i += 1;
        }
        assert(self@.contributors.take(i as int) =~= self@.contributors);
        assert(pledges_of(cs@) =~= raise_pledge(self@.contributors, caller@, value@));
        if !found {
            assert forall|j: int| 0 <= j < cs@.len() implies pledges_of(cs@)[j]
                == self@.contributors[j] by {
                assert(self@.contributors[j].0 != caller@);
                assert(raise_pledge(self@.contributors, caller@, value@)[j]
                    == self@.contributors[j]);
            }
            cs.push((*caller, value));
            assert(pledges_of(cs@) =~= self@.contributors.push((caller@, value@)));
        }
        WishListItem {
            id: self.id,
            description: self.description.clone(),
            owner: self.owner,
            target: self.target,
            end_date: self.end_date,
            raised: self.raised,
            contributors: cs,
        }
    }

    /// The payments by which the wish is split among its contributors.
    pub fn shares(&self) -> (r: Vec<Transfer>)
        requires
            self.wf(),
            self@.contributors.len() > 0,
            split_fits(self@),
        ensures
            payments_of(r@) == split_shares(self@),
    {
        let pledges = self.contributors_raised();
        let total = amount_checked_add(self.raised, pledges).unwrap();
        let hundred = Amount::from_u64(100);
        let mut out: Vec<Transfer> = Vec::new();
        let mut i: usize = 0;
        proof {
            lemma_pledge_within_sum(self@.contributors, 0);
            assert(self@.contributors[0].1 > 0);
        }
        while i < self.contributors.len()
            invariant
                i <= self.contributors.len(),
                out@.len() == i,
                split_fits(self@),
                hundred@ == 100,
                total@ == total_worth(self@),
                total@ > 0,
                payments_of(out@) == split_shares(self@).take(i as int),
            decreases self.contributors.len() - i,
        {
            let c = self.contributors[i];
            assert(self@.contributors[i as int] == (c.0@, c.1@));
            let scaled = amount_checked_mul(c.1, hundred).unwrap();
            let share = amount_checked_div(scaled, total).unwrap();
            out.push(Transfer { to: c.0, amount: share });
            assert(payments_of(out@) =~= split_shares(self@).take(i + 1));
            i += 1;
        }
        assert(split_shares(self@).take(i as int) =~= split_shares(self@));
        out
    }
}

} // verus!
