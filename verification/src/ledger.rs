//! The ledger of wishes: adding, funding, claiming, splitting and reading.

use crate::account::AccountId;
use crate::amount::{amount_checked_add, amount_checked_div, amount_limit, amount_lt, Amount};
use crate::item::{
    fund_fits, fund_item, has_pledger, item_wf, payments_of, pledged, split_fits, split_shares,
    total_worth, Error, ItemModel, Pledge, Transfer, WishListItem, WishlistAdded,
};
use vstd::prelude::*;

verus! {

/// The ledger as the contracts see it: the next identifier, and one slot for
/// each identifier given out so far, empty once its wish is settled.
pub struct WishlistModel {
    pub next_item_id: nat,
    pub items: Seq<Option<ItemModel>>,
}

/// The ledger: every wish that was added and is not yet settled, each in
/// the slot of its identifier.
pub struct Wishlist {
    next_item_id: u32,
    items: Vec<Option<WishListItem>>,
}

impl View for Wishlist {
    type V = WishlistModel;

    closed spec fn view(&self) -> WishlistModel {
        WishlistModel {
            next_item_id: self.next_item_id as nat,
            items: Seq::new(
                self.items@.len(),
                |i: int|
                    match self.items@[i] {
                        Some(it) => Some(it@),
                        None => None,
                    },
            ),
        }
    }
}

/// The active wish of the identifier, if there is one.
pub open spec fn active(w: WishlistModel, id: u32) -> Option<ItemModel> {
    if id < w.items.len() {
        w.items[id as int]
    } else {
        None
    }
}

/// What holds of every ledger: there is one slot for each identifier given
/// out, and the wish in a slot bears the slot's number and is well formed.
pub open spec fn ledger_wf(w: WishlistModel) -> bool {
    &&& w.items.len() == w.next_item_id
    &&& w.next_item_id <= u32::MAX
    &&& forall|i: int|
        0 <= i < w.items.len() ==> match #[trigger] w.items[i] {
            Some(it) => it.id == i && item_wf(it),
            None => true,
        }
}

/// The ledger with the slot of the identifier emptied.
pub open spec fn settled(w: WishlistModel, id: u32) -> WishlistModel {
    WishlistModel { items: w.items.update(id as int, None), ..w }
}

/// Whether a wish with this target may be added with this value: the target
/// must be positive, the value at least a tenth of it, and an identifier
/// must be left.
pub open spec fn add_outcome(w: WishlistModel, target: nat, value: nat) -> Result<(), Error> {
    if target == 0 {
        Err(Error::InvalidTarget)
    } else if value < target * 10 / 100 {
        Err(Error::InvalidContribution)
    } else if w.next_item_id >= u32::MAX {
        Err(Error::InvalidContribution)
    } else {
        Ok(())
    }
}

/// The wish that an addition enters.
pub open spec fn added_item(
    w: WishlistModel,
    description: Seq<char>,
    end_date: u64,
    target: nat,
    value: nat,
    caller: Seq<u8>,
) -> ItemModel {
    ItemModel {
        id: w.next_item_id,
        description,
        owner: caller,
        target,
        end_date,
        raised: value,
        contributors: Seq::empty(),
    }
}

/// The ledger after a wish was added.
pub open spec fn after_add(w: WishlistModel, item: ItemModel) -> WishlistModel {
    WishlistModel { next_item_id: w.next_item_id + 1, items: w.items.push(Some(item)) }
}

/// Whether the wish of the identifier may be funded with the value.
pub open spec fn fund_outcome(w: WishlistModel, id: u32, value: nat) -> Result<(), Error> {
    if value == 0 {
        Err(Error::InvalidContribution)
    } else if active(w, id) is None {
        Err(Error::WishNotFound)
    } else {
        Ok(())
    }
}

/// The ledger after the caller has funded the wish of the identifier.
pub open spec fn after_fund(w: WishlistModel, id: u32, value: nat, caller: Seq<u8>) -> WishlistModel {
    WishlistModel {
        items: w.items.update(id as int, Some(fund_item(active(w, id).unwrap(), caller, value))),
        ..w
    }
}

/// What a claim by the caller comes to before anything is paid: the payment
/// to the owner of all that the wish holds, or the reason for which the claim
/// is refused.
pub open spec fn claim_outcome(w: WishlistModel, id: u32, caller: Seq<u8>) -> Result<Pledge, Error> {
    match active(w, id) {
        None => Err(Error::WishNotFound),
        Some(it) => if it.owner != caller {
            Err(Error::WishNotFound)
        } else if it.raised < it.target {
            Err(Error::InvalidContribution)
        } else {
            Ok((it.owner, total_worth(it)))
        },
    }
}

/// Whether the claim comes in time: a claim by the owner of an active wish
/// must not come before the wish's end date.
pub open spec fn claim_in_time(w: WishlistModel, id: u32, caller: Seq<u8>, now: u64) -> bool {
    match active(w, id) {
        Some(it) => it.owner == caller ==> now >= it.end_date,
        None => true,
    }
}

/// What a claim returns, given whether the payment to the owner was made.
pub open spec fn claim_result(w: WishlistModel, id: u32, caller: Seq<u8>, paid: bool) -> Result<
    (),
    Error,
> {
    match claim_outcome(w, id, caller) {
        Err(e) => Err(e),
        Ok(_) => if paid {
            Ok(())
        } else {
            Err(Error::InvalidContribution)
        },
    }
}

/// The ledger after a claim: the wish is settled where the claim succeeds,
/// and nothing changes where it does not.
pub open spec fn after_claim(w: WishlistModel, id: u32, caller: Seq<u8>, paid: bool) -> WishlistModel {
    if claim_result(w, id, caller, paid) is Ok {
        settled(w, id)
    } else {
        w
    }
}

/// What reading the identifier returns.
pub open spec fn get_outcome(w: WishlistModel, id: u32) -> Result<ItemModel, Error> {
    match active(w, id) {
        Some(it) => Ok(it),
        None => Err(Error::WishNotFound),
    }
}

/// Funding keeps a wish well formed.
pub proof fn lemma_fund_keeps_item_wf(it: ItemModel, caller: Seq<u8>, value: nat)
    requires
        item_wf(it),
        value > 0,
    ensures
        item_wf(fund_item(it, caller, value)),
{
    let next = fund_item(it, caller, value);
    if caller == it.owner {
    } else if has_pledger(it.contributors, caller) {
        assert forall|i: int| 0 <= i < next.contributors.len() implies (
        #[trigger] next.contributors[i]).0 == it.contributors[i].0 && next.contributors[i].1 > 0 by {
            assert(it.contributors[i].1 > 0);
        }
        if has_pledger(next.contributors, next.owner) {
            let k = choose|k: int|
                0 <= k < next.contributors.len() && (#[trigger] next.contributors[k]).0
                    == next.owner;
            assert(it.contributors[k].0 == it.owner);
        }
        assert forall|i: int, j: int| 0 <= i < j < next.contributors.len() implies (
        #[trigger] next.contributors[i]).0 != (#[trigger] next.contributors[j]).0 by {
            assert(it.contributors[i].0 != it.contributors[j].0);
        }
    } else {
        if has_pledger(next.contributors, next.owner) {
            let k = choose|k: int|
                0 <= k < next.contributors.len() && (#[trigger] next.contributors[k]).0
                    == next.owner;
            if k < it.contributors.len() {
                assert(it.contributors[k].0 == it.owner);
            }
        }
        assert forall|i: int, j: int| 0 <= i < j < next.contributors.len() implies (
        #[trigger] next.contributors[i]).0 != (#[trigger] next.contributors[j]).0 by {
            if j < it.contributors.len() {
                assert(it.contributors[i].0 != it.contributors[j].0);
            } else {
                assert(it.contributors[i].0 != caller);
            }
        }
        assert forall|i: int| 0 <= i < next.contributors.len() implies (
        #[trigger] next.contributors[i]).1 > 0 by {
            if i < it.contributors.len() {
                assert(it.contributors[i].1 > 0);
            }
        }
    }
}

impl Wishlist {
    /// Whether the ledger is in order.
    pub open spec fn wf(&self) -> bool {
        ledger_wf(self@)
    }

    /// The empty ledger, whose first wish will bear the identifier 0.
    pub fn new() -> (r: Wishlist)
        ensures
            r.wf(),
            r@ == (WishlistModel { next_item_id: 0, items: Seq::empty() }),
    {
        let r = Wishlist { next_item_id: 0, items: Vec::new() };
        assert(r@.items =~= Seq::empty());
        r
    }

    /// The empty ledger.
    pub fn default() -> (r: Wishlist)
        ensures
            r.wf(),
            r@ == (WishlistModel { next_item_id: 0, items: Seq::empty() }),
    {
        Wishlist::new()
    }

    /// The identifier that the next wish will bear.
    pub fn next_item_id(&self) -> (r: u32)
        ensures
            r == self@.next_item_id,
    {
        self.next_item_id
    }

    /// Adds a wish that the caller owns, with the value that came with the
    /// call as what is raised so far, and returns the notice to send out.
    /// Where the wish is refused, the ledger stays as it is.
    pub fn add_wishlist_item(
        &mut self,
        description: String,
        end_date: u64,
        target: Amount,
        value: Amount,
        caller: AccountId,
    ) -> (r: Result<WishlistAdded, Error>)
        requires
            old(self).wf(),
        ensures
            final(self).wf(),
            match add_outcome(old(self)@, target@, value@) {
                Err(e) => r == Err::<WishlistAdded, Error>(e) && final(self)@ == old(self)@,
                Ok(_) => {
                    &&& r matches Ok(notice)
                    &&& notice.id == old(self)@.next_item_id
                    &&& notice.owner == caller
                    &&& final(self)@ == after_add(
                        old(self)@,
                        added_item(old(self)@, description@, end_date, target@, value@, caller@),
                    )
                },
            },
    {
        if target.is_zero() {
            return Err(Error::InvalidTarget);
        }
        let tenth = amount_checked_div(target, Amount::from_u64(10)).unwrap();
        assert(target@ * 10 / 100 == target@ / 10);
        if amount_lt(value, tenth) {
            return Err(Error::InvalidContribution);
        }
        if self.next_item_id == u32::MAX {
            return Err(Error::InvalidContribution);
        }
        let id = self.next_item_id;
        let item = WishListItem {
            id,
            description,
            owner: caller,
            target,
            end_date,
            raised: value,
            contributors: Vec::new(),
        };
        let ghost before = self@;
        let ghost model = item@;
        assert(model.contributors =~= Seq::empty());
        self.items.push(Some(item));
        self.next_item_id = id + 1;
        assert(self@.items =~= before.items.push(Some(model)));
        Ok(WishlistAdded { id, owner: caller })
    }

    /// Books the value that came with the call on the wish of the
    /// identifier: on `raised` where the caller owns the wish, on the
    /// caller's pledge otherwise. No deadline is looked at.
    pub fn fund_wish(&mut self, id: u32, value: Amount, caller: AccountId) -> (r: Result<(), Error>)
        requires
            old(self).wf(),
            fund_outcome(old(self)@, id, value@) is Ok ==> fund_fits(
                active(old(self)@, id).unwrap(),
                caller@,
                value@,
            ),
        ensures
            final(self).wf(),
            r == fund_outcome(old(self)@, id, value@),
            final(self)@ == if r is Ok {
                after_fund(old(self)@, id, value@, caller@)
            } else {
                old(self)@
            },
    {
        if value.is_zero() {
            return Err(Error::InvalidContribution);
        }
        let idx = id as usize;
        if idx >= self.items.len() {
            return Err(Error::WishNotFound);
        }
        let ghost before = self@;
        assert(before.items[idx as int] == active(before, id));
        let next = match &self.items[idx] {
            None => {
                return Err(Error::WishNotFound);
            },
            Some(item) => item.funded(&caller, value),
        };
        proof {
            lemma_fund_keeps_item_wf(active(before, id).unwrap(), caller@, value@);
        }
        self.items.set(idx, Some(next));
        assert(self@.items =~= after_fund(before, id, value@, caller@).items);
        Ok(())
    }

    /// What a claim by the caller comes to before anything is paid: the
    /// payment to make to the owner, or the reason for which the claim is
    /// refused. The ledger settles the wish only once the payment is made:
    /// see `claim_wish`.
    pub fn claim_payout(&self, id: u32, caller: AccountId, now: u64) -> (r: Result<Transfer, Error>)
        requires
            self.wf(),
            claim_in_time(self@, id, caller@, now),
            claim_outcome(self@, id, caller@) is Ok ==> total_worth(active(self@, id).unwrap())
                < amount_limit(),
        ensures
            match claim_outcome(self@, id, caller@) {
                Err(e) => r == Err::<Transfer, Error>(e),
                Ok(payment) => r matches Ok(t) && (t.to@, t.amount@) == payment,
            },
    {
        let idx = id as usize;
        if idx >= self.items.len() {
            return Err(Error::WishNotFound);
        }
        assert(self@.items[idx as int] == active(self@, id));
        match &self.items[idx] {
            None => Err(Error::WishNotFound),
            Some(item) => {
                if !item.owner.same_as(&caller) {
                    return Err(Error::WishNotFound);
                }
                if amount_lt(item.raised, item.target) {
                    return Err(Error::InvalidContribution);
                }
                let pledges = item.contributors_raised();
                let amount = amount_checked_add(item.raised, pledges).unwrap();
                Ok(Transfer { to: item.owner, amount })
            },
        }
    }

    /// Claims the wish of the identifier for its owner, given whether the
    /// payment of `claim_payout` was made: the wish is settled where it
    /// was, and the claim fails with the ledger unchanged where it was not
    /// or where `claim_payout` refuses the claim.
    pub fn claim_wish(&mut self, id: u32, caller: AccountId, now: u64, paid: bool) -> (r: Result<
        (),
        Error,
    >)
        requires
            old(self).wf(),
            claim_in_time(old(self)@, id, caller@, now),
        ensures
            final(self).wf(),
            r == claim_result(old(self)@, id, caller@, paid),
            final(self)@ == after_claim(old(self)@, id, caller@, paid),
    {
        let idx = id as usize;
        if idx >= self.items.len() {
            return Err(Error::WishNotFound);
        }
        let ghost before = self@;
        assert(before.items[idx as int] == active(before, id));
        match &self.items[idx] {
            None => {
                return Err(Error::WishNotFound);
            },
            Some(item) => {
                if !item.owner.same_as(&caller) {
                    return Err(Error::WishNotFound);
                }
                if amount_lt(item.raised, item.target) {
                    return Err(Error::InvalidContribution);
                }
            },
        }
        if !paid {
            return Err(Error::InvalidContribution);
        }
        self.items.set(idx, None);
        assert(self@.items =~= settled(before, id).items);
        Ok(())
    }

    /// Settles the wish of the identifier at the call of one of its
    /// contributors, and returns the payments to make to the contributors,
    /// in their order. The wish is settled whatever becomes of the payments.
    pub fn split_raised_wish(&mut self, id: u32, caller: AccountId) -> (r: Result<
        Vec<Transfer>,
        Error,
    >)
        requires
            old(self).wf(),
            match active(old(self)@, id) {
                Some(it) => has_pledger(it.contributors, caller@) && split_fits(it),
                None => true,
            },
        ensures
            final(self).wf(),
            match active(old(self)@, id) {
                Some(it) => {
                    &&& r matches Ok(ts)
                    &&& payments_of(ts@) == split_shares(it)
                    &&& final(self)@ == settled(old(self)@, id)
                },
                None => r is Err && r->Err_0 == Error::WishNotFound && final(self)@ == old(self)@,
            },
    {
        let idx = id as usize;
        if idx >= self.items.len() {
            return Err(Error::WishNotFound);
        }
        let ghost before = self@;
        assert(before.items[idx as int] == active(before, id));
        let transfers = match &self.items[idx] {
            None => {
                return Err(Error::WishNotFound);
            },
            Some(item) => item.shares(),
        };
        self.items.set(idx, None);
        assert(self@.items =~= settled(before, id).items);
        Ok(transfers)
    }

    /// Whether `fund_wish` can be called with these arguments.
    pub fn can_fund(&self, id: u32, value: Amount, caller: AccountId) -> (r: bool)
        ensures
            r == (fund_outcome(self@, id, value@) is Ok ==> fund_fits(
                active(self@, id).unwrap(),
                caller@,
                value@,
            )),
    {
        let idx = id as usize;
        if value.is_zero() || idx >= self.items.len() {
            return true;
        }
        assert(self@.items[idx as int] == active(self@, id));
        match &self.items[idx] {
            None => true,
            Some(item) => item.can_fund(&caller, value),
        }
    }

    /// Whether a claim by the caller at this time comes in time, so that
    /// `claim_wish` can be called with these arguments.
    pub fn can_claim(&self, id: u32, caller: AccountId, now: u64) -> (r: bool)
        ensures
            r == claim_in_time(self@, id, caller@, now),
    {
        let idx = id as usize;
        if idx >= self.items.len() {
            return true;
        }
        assert(self@.items[idx as int] == active(self@, id));
        match &self.items[idx] {
            None => true,
            Some(item) => !item.owner.same_as(&caller) || now >= item.end_date,
        }
    }

    /// Whether the payment that a claim asks for fits in 256 bits, so that
    /// `claim_payout` can be called for a claim that comes in time.
    pub fn can_pay_claim(&self, id: u32, caller: AccountId) -> (r: bool)
        ensures
            r == (claim_outcome(self@, id, caller@) is Ok ==> total_worth(
                active(self@, id).unwrap(),
            ) < amount_limit()),
    {
        let idx = id as usize;
        if idx >= self.items.len() {
            return true;
        }
        assert(self@.items[idx as int] == active(self@, id));
        match &self.items[idx] {
            None => true,
            Some(item) => !item.owner.same_as(&caller) || amount_lt(item.raised, item.target)
                || item.checked_worth().is_some(),
        }
    }

    /// Whether `split_raised_wish` can be called with these arguments: the
    /// caller must have pledged to the wish, if it is active.
    pub fn can_split(&self, id: u32, caller: AccountId) -> (r: bool)
        ensures
            r == match active(self@, id) {
                Some(it) => has_pledger(it.contributors, caller@) && split_fits(it),
                None => true,
            },
    {
        let idx = id as usize;
        if idx >= self.items.len() {
            return true;
        }
        assert(self@.items[idx as int] == active(self@, id));
        match &self.items[idx] {
            None => true,
            Some(item) => item.is_contributor(&caller) && item.can_split(),
        }
    }

    /// The active wish of the identifier.
    pub fn get_wishlist_item(&self, id: u32) -> (r: Result<WishListItem, Error>)
        ensures
            match get_outcome(self@, id) {
                Ok(it) => r matches Ok(item) && item@ == it,
                Err(e) => r is Err && r->Err_0 == e,
            },
    {
        let idx = id as usize;
        if idx >= self.items.len() {
            return Err(Error::WishNotFound);
        }
        assert(self@.items[idx as int] == active(self@, id));
        match &self.items[idx] {
            None => Err(Error::WishNotFound),
            Some(item) => Ok(item.duplicate()),
        }
    }

    /// The sum of what the contributors have pledged to the active wish of
    /// the identifier.
    pub fn get_contributors_raised(&self, id: u32) -> (r: Option<Amount>)
        requires
            match active(self@, id) {
                Some(it) => pledged(it.contributors) < amount_limit(),
                None => true,
            },
        ensures
            match active(self@, id) {
                Some(it) => r matches Some(sum) && sum@ == pledged(it.contributors),
                None => r is None,
            },
    {
        let idx = id as usize;
        if idx >= self.items.len() {
            return None;
        }
        assert(self@.items[idx as int] == active(self@, id));
        match &self.items[idx] {
            None => None,
            Some(item) => Some(item.contributors_raised()),
        }
    }
}

} // verus!
