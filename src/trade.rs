use vstd::prelude::*;
use crate::identity::Principal;
use crate::ledger::{Ledger, LedgerError, emitted};
use crate::notification::{
    Notification, NotificationType, trade_created_message, trade_status_message,
    trade_created_text, trade_status_text,
};
use crate::token::TokenStatus;

verus! {

#[derive(Clone, Copy, Debug, PartialEq, Eq, Structural)]
pub enum TradeStatus {
    Pending,
    Completed,
    Cancelled,
}

#[derive(Clone, Copy, Debug, PartialEq, Eq, Structural)]
pub enum Currency {
    ICP,
    USD,
    INR,
}

/// A proposed or executed exchange of one token lot between two identities.
#[derive(Clone, Debug)]
pub struct Trade {
    pub id: u64,
    pub buyer_id: Principal,
    pub seller_id: Principal,
    pub token_id: u64,
    pub asset_id: u64,
    pub quantity: u64,
    pub price: u64,
    pub currency: Currency,
    pub status: TradeStatus,
    pub created_at: u64,
    pub filled: u64,
}

impl Trade {
    pub fn copy(&self) -> (r: Trade)
        ensures
            r == *self,
    {
        Trade {
            id: self.id,
            buyer_id: self.buyer_id.copy(),
            seller_id: self.seller_id.copy(),
            token_id: self.token_id,
            asset_id: self.asset_id,
            quantity: self.quantity,
            price: self.price,
            currency: self.currency,
            status: self.status,
            created_at: self.created_at,
            filled: self.filled,
        }
    }
}

/// Two notifications of kind `kind` carrying `text`, to `first` and then to
/// `second`, were emitted between the logs `pre` and `post`.
pub open spec fn emitted_twice(
    pre: Seq<Notification>,
    pre_next: u64,
    post: Seq<Notification>,
    post_next: u64,
    first: Seq<char>,
    second: Seq<char>,
    kind: NotificationType,
    text: Seq<char>,
    now: u64,
) -> bool {
    exists|mid: Seq<Notification>, mid_next: u64|
        emitted(pre, pre_next, mid, mid_next, first, kind, text, now) && #[trigger] emitted(
            mid,
            mid_next,
            post,
            post_next,
            second,
            kind,
            text,
            now,
        )
}

impl Ledger {
    pub open spec fn has_trade(self, id: u64) -> bool {
        exists|i: int| 0 <= i < self.trades@.len() && (#[trigger] self.trades@[i]).id == id
    }

    /// The trade with identifier `id` stands at `i`.
    pub open spec fn trade_at(self, id: u64, i: int) -> bool {
        0 <= i < self.trades@.len() && self.trades@[i].id == id
    }

    /// Why completing the trade at `i` on behalf of `caller` cannot go
    /// through, if it cannot: its token lot is gone, no longer held by the
    /// seller or of another asset, the caller is neither the lot's holder nor an
    /// administrator (completion is a transfer of the lot), or the buyer is no
    /// longer KYC-approved.
    pub open spec fn completion_error(self, caller: Seq<char>, i: int) -> Option<LedgerError> {
        let tr = self.trades@[i];
        if !self.has_token(tr.token_id) {
            Some(LedgerError::NotFound)
        } else if !(exists|j: int|
            #[trigger] self.token_at(tr.token_id, j) && self.tokens@[j].owner_id@ == tr.seller_id@
                && self.tokens@[j].asset_id == tr.asset_id) {
            Some(LedgerError::InvariantViolation)
        } else if !(tr.seller_id@ == caller || self.admin(caller)) {
            Some(LedgerError::Unauthorized)
        } else if !self.kyc_approved(tr.buyer_id@) {
            Some(LedgerError::PreconditionFailed)
        } else {
            None
        }
    }

    /// Why setting the trade at `i` to `status` with `filled` settled is
    /// refused to `caller`, if it is: the trade is terminal, the caller is
    /// neither party nor an administrator, more than the quantity would be
    /// filled, or completion cannot go through.
    pub open spec fn trade_update_error(
        self,
        caller: Seq<char>,
        i: int,
        status: TradeStatus,
        filled: u64,
    ) -> Option<LedgerError> {
        let tr = self.trades@[i];
        if tr.status != TradeStatus::Pending {
            Some(LedgerError::AlreadyFinalized)
        } else if !(tr.buyer_id@ == caller || tr.seller_id@ == caller || self.admin(caller)) {
            Some(LedgerError::Unauthorized)
        } else if filled > tr.quantity {
            Some(LedgerError::InvariantViolation)
        } else if status == TradeStatus::Completed {
            self.completion_error(caller, i)
        } else {
            None
        }
    }

    /// `post` is `pre` after the trade at `i` was set to `status` with `filled`
    /// settled: on completion its token lot passed to the buyer, and both
    /// parties were notified.
    pub open spec fn trade_update_applied(
        pre: Ledger,
        post: Ledger,
        i: int,
        status: TradeStatus,
        filled: u64,
        now: u64,
    ) -> bool {
        let tr = pre.trades@[i];
        &&& post.trades@ == pre.trades@.update(i, Trade { status, filled, ..tr })
        &&& status == TradeStatus::Completed ==> exists|j: int|
            #[trigger] pre.token_at(tr.token_id, j) && post.tokens@ == pre.tokens@.update(
                j,
                pre.handed_over(j, tr.buyer_id),
            )
        &&& status != TradeStatus::Completed ==> post.tokens@ == pre.tokens@
        &&& post.same_but_trades_tokens(pre)
        &&& post.next_token_id == pre.next_token_id
        &&& post.next_trade_id == pre.next_trade_id
        &&& emitted_twice(pre.notifications@, pre.next_notification_id, post.notifications@,
            post.next_notification_id, tr.buyer_id@, tr.seller_id@, NotificationType::Trade,
            trade_status_text(tr.id, status), now)
    }

    /// Notifies `first` and then `second` of a trade event.
    fn notify_both(
        &mut self,
        first: &Principal,
        second: &Principal,
        message: String,
        now: u64,
    )
        requires
            old(self).wf(),
        ensures
            final(self).wf(),
            final(self).same_records(*old(self)),
            emitted_twice(old(self).notifications@, old(self).next_notification_id,
                final(self).notifications@, final(self).next_notification_id, first@, second@,
                NotificationType::Trade, message@, now),
    {
        let copy = message.clone();
        self.notify(first, NotificationType::Trade, message, now);
        let ghost mid = *self;
        self.notify(second, NotificationType::Trade, copy, now);
        proof {
            assert(emitted(mid.notifications@, mid.next_notification_id, self.notifications@,
                self.next_notification_id, second@, NotificationType::Trade, copy@, now));
        }
    }

    /// Sets the status and fill of the trade at `i`; nothing else changes.
    fn set_trade_status(&mut self, i: usize, status: TradeStatus, filled: u64)
        requires
            old(self).wf(),
            i < old(self).trades@.len(),
            filled <= old(self).trades@[i as int].quantity,
        ensures
            final(self).wf(),
            final(self).trades@ == old(self).trades@.update(
                i as int,
                Trade { status, filled, ..old(self).trades@[i as int] },
            ),
            final(self).tokens@ == old(self).tokens@,
            final(self).same_but_trades_tokens(*old(self)),
            final(self).next_token_id == old(self).next_token_id,
            final(self).next_trade_id == old(self).next_trade_id,
            final(self).notifications@ == old(self).notifications@,
            final(self).next_notification_id == old(self).next_notification_id,
    {
        let mut tr = self.trades.remove(i);
        tr.status = status;
        tr.filled = filled;
        self.trades.insert(i, tr);
        proof {
            let pre = *old(self);
            assert(self.trades@ =~= pre.trades@.update(i as int, Trade { status, filled, ..pre.trades@[i as int] }));
            assert forall|x: int, y: int|
                0 <= x < y < self.trades@.len() implies #[trigger] self.trades@[x].id
                    < #[trigger] self.trades@[y].id by {
                assert(pre.trades@[x].id < pre.trades@[y].id);
            }
            assert forall|k: int| 0 <= k < self.trades@.len() implies (#[trigger] self.trades@[k]).id
                < self.next_trade_id && self.trades@[k].filled <= self.trades@[k].quantity by {
                if k != i {
                    assert(self.trades@[k] == pre.trades@[k]);
                }
            }
            assert forall|k: int| 0 <= k < self.tokens@.len() implies self.has_asset(
                (#[trigger] self.tokens@[k]).asset_id) by {
                assert(pre.has_asset(pre.tokens@[k].asset_id));
            }
        }
    }

    /// At most one trade has a given identifier.
    pub proof fn lemma_trade_unique(self, id: u64, i: int, j: int)
        requires
            self.wf(),
            self.trade_at(id, i),
            self.trade_at(id, j),
        ensures
            i == j,
    {
        if i < j {
            assert(self.trades@[i].id < self.trades@[j].id);
        } else if j < i {
            assert(self.trades@[j].id < self.trades@[i].id);
        }
    }

    /// The index of the trade with identifier `id`, if any.
    pub(crate) fn find_trade(&self, id: u64) -> (r: Option<usize>)
        requires
            self.wf(),
        ensures
            match r {
                Some(i) => self.trade_at(id, i as int) && forall|j: int|
                    #[trigger] self.trade_at(id, j) ==> j == i,
                None => !self.has_trade(id),
            },
    {
        let mut i: usize = 0;
        while i < self.trades.len()
            invariant
                self.wf(),
                i <= self.trades@.len(),
                forall|k: int| 0 <= k < i ==> (#[trigger] self.trades@[k]).id != id,
            decreases self.trades@.len() - i,
        {
            if self.trades[i].id == id {
                proof {
                    assert forall|j: int| #[trigger] self.trade_at(id, j) implies j == i by {
                        self.lemma_trade_unique(id, i as int, j);
                    }
                }
                return Some(i);
            }
            i = i + 1;
        }
        None
    }

    /// Opens a Pending trade of token lot `token_id` from `seller_id` to
    /// `buyer_id`, stamped with `now`, and notifies both parties. Both must be
    /// KYC-approved; the lot must exist, be of asset `asset_id` and be held by
    /// the seller.
    pub fn create_trade(
        &mut self,
        buyer_id: &Principal,
        seller_id: &Principal,
        token_id: u64,
        asset_id: u64,
        quantity: u64,
        price: u64,
        currency: Currency,
        now: u64,
    ) -> (r: Result<Trade, LedgerError>)
        requires
            old(self).wf(),
        ensures
            final(self).wf(),
            r is Err ==> *final(self) == *old(self),
            !(old(self).kyc_approved(buyer_id@) && old(self).kyc_approved(seller_id@)) ==> r
                == Err::<Trade, LedgerError>(LedgerError::PreconditionFailed),
            old(self).kyc_approved(buyer_id@) && old(self).kyc_approved(seller_id@)
                && !old(self).has_token(token_id) ==> r == Err::<Trade, LedgerError>(
                LedgerError::NotFound,
            ),
            forall|j: int|
                #[trigger] old(self).token_at(token_id, j) && old(self).kyc_approved(buyer_id@)
                    && old(self).kyc_approved(seller_id@) ==> {
                    let consistent = old(self).tokens@[j].asset_id == asset_id
                        && old(self).tokens@[j].owner_id@ == seller_id@;
                    let t = Trade {
                        id: old(self).next_trade_id,
                        buyer_id: *buyer_id,
                        seller_id: *seller_id,
                        token_id,
                        asset_id,
                        quantity,
                        price,
                        currency,
                        status: TradeStatus::Pending,
                        created_at: now,
                        filled: 0,
                    };
                    &&& !consistent ==> r == Err::<Trade, LedgerError>(
                        LedgerError::InvariantViolation,
                    )
                    &&& consistent && old(self).next_trade_id == u64::MAX ==> r == Err::<
                        Trade,
                        LedgerError,
                    >(LedgerError::InvariantViolation)
                    &&& consistent && old(self).next_trade_id < u64::MAX ==> {
                        &&& r == Ok::<Trade, LedgerError>(t)
                        &&& final(self).trades@ == old(self).trades@.push(t)
                        &&& final(self).next_trade_id == old(self).next_trade_id + 1
                        &&& final(self).tokens@ == old(self).tokens@
                        &&& final(self).next_token_id == old(self).next_token_id
                        &&& final(self).same_but_trades_tokens(*old(self))
                        &&& emitted_twice(old(self).notifications@,
                            old(self).next_notification_id, final(self).notifications@,
                            final(self).next_notification_id, buyer_id@, seller_id@,
                            NotificationType::Trade, trade_created_text(old(self).next_trade_id,
                            token_id), now)
                    }
                },
    {
        if !self.is_kyc_approved(buyer_id) || !self.is_kyc_approved(seller_id) {
            return Err(LedgerError::PreconditionFailed);
        }
        let j = match self.find_token(token_id) {
            Some(j) => j,
            None => { return Err(LedgerError::NotFound); },
        };
        if !(self.tokens[j].asset_id == asset_id && self.tokens[j].owner_id.same_as(seller_id)) {
            return Err(LedgerError::InvariantViolation);
        }
        if self.next_trade_id == u64::MAX {
            return Err(LedgerError::InvariantViolation);
        }
        let id = self.next_trade_id;
        let t = Trade {
            id,
            buyer_id: buyer_id.copy(),
            seller_id: seller_id.copy(),
            token_id,
            asset_id,
            quantity,
            price,
            currency,
            status: TradeStatus::Pending,
            created_at: now,
            filled: 0,
        };
        let out = t.copy();
        self.trades.push(t);
        self.next_trade_id = id + 1;
        proof {
            let pre = *old(self);
            assert forall|x: int, y: int|
                0 <= x < y < self.trades@.len() implies #[trigger] self.trades@[x].id
                    < #[trigger] self.trades@[y].id by {
                if y < pre.trades@.len() {
                    assert(pre.trades@[x].id < pre.trades@[y].id);
                }
            }
            assert forall|k: int| 0 <= k < self.trades@.len() implies (#[trigger] self.trades@[k]).id
                < self.next_trade_id && self.trades@[k].filled <= self.trades@[k].quantity by {
                if k < pre.trades@.len() {
                    assert(self.trades@[k] == pre.trades@[k]);
                }
            }
            assert forall|k: int| 0 <= k < self.tokens@.len() implies self.has_asset(
                (#[trigger] self.tokens@[k]).asset_id) by {
                assert(pre.has_asset(pre.tokens@[k].asset_id));
            }
        }
        self.notify_both(buyer_id, seller_id, trade_created_message(id, token_id), now);
        Ok(out)
    }

    /// Sets the status and fill of trade `id` and notifies both parties. The
    /// caller must be a party or an administrator; a terminal trade stays as
    /// it is; the fill cannot exceed the quantity. Completion passes the
    /// trade's token lot to the buyer in the same step, or fails as a whole;
    /// like any transfer it needs the lot's holder (the seller) or an
    /// administrator.
    pub fn update_trade_status(
        &mut self,
        caller: &Principal,
        id: u64,
        status: TradeStatus,
        filled: u64,
        now: u64,
    ) -> (r: Result<Trade, LedgerError>)
        requires
            old(self).wf(),
        ensures
            final(self).wf(),
            r is Err ==> *final(self) == *old(self),
            !old(self).has_trade(id) ==> r == Err::<Trade, LedgerError>(LedgerError::NotFound),
            forall|i: int|
                #[trigger] old(self).trade_at(id, i) ==> {
                    let e = old(self).trade_update_error(caller@, i, status, filled);
                    &&& e is Some ==> r == Err::<Trade, LedgerError>(e->Some_0)
                    &&& e is None ==> {
                        &&& r == Ok::<Trade, LedgerError>(final(self).trades@[i])
                        &&& Ledger::trade_update_applied(*old(self), *final(self), i, status,
                            filled, now)
                    }
                },
    {
        let i = match self.find_trade(id) {
            Some(i) => i,
            None => { return Err(LedgerError::NotFound); },
        };
        let ghost pre = *self;
        if self.trades[i].status != TradeStatus::Pending {
            return Err(LedgerError::AlreadyFinalized);
        }
        let buyer = self.trades[i].buyer_id.copy();
        let seller = self.trades[i].seller_id.copy();
        if !(buyer.same_as(caller) || seller.same_as(caller) || self.is_admin(caller)) {
            return Err(LedgerError::Unauthorized);
        }
        if filled > self.trades[i].quantity {
            return Err(LedgerError::InvariantViolation);
        }
        if status == TradeStatus::Completed {
            let token_id = self.trades[i].token_id;
            let j = match self.find_token(token_id) {
                Some(j) => j,
                None => { return Err(LedgerError::NotFound); },
            };
            if !(self.tokens[j].owner_id.same_as(&seller) && self.tokens[j].asset_id
                == self.trades[i].asset_id) {
                proof {
                    assert forall|k: int| #[trigger] pre.token_at(token_id, k) implies !(
                    pre.tokens@[k].owner_id@ == seller@ && pre.tokens@[k].asset_id
                        == pre.trades@[i as int].asset_id) by {
                        assert(k == j);
                    }
                }
                return Err(LedgerError::InvariantViolation);
            }
            if !(seller.same_as(caller) || self.is_admin(caller)) {
                return Err(LedgerError::Unauthorized);
            }
            if !self.is_kyc_approved(&buyer) {
                return Err(LedgerError::PreconditionFailed);
            }
            self.reassign_token(j, &buyer);
        }
        self.set_trade_status(i, status, filled);
        let out = self.trades[i].copy();
        self.notify_both(&buyer, &seller, trade_status_message(id, status), now);
        proof {
            assert forall|k: int| #[trigger] pre.trade_at(id, k) implies k == i by {
                pre.lemma_trade_unique(id, i as int, k);
            }
        }
        Ok(out)
    }

    /// The trade with identifier `id`, if any.
    pub fn get_trade(&self, id: u64) -> (r: Option<Trade>)
        requires
            self.wf(),
        ensures
            match r {
                Some(t) => exists|i: int| self.trade_at(id, i) && t == #[trigger] self.trades@[i],
                None => !self.has_trade(id),
            },
    {
        match self.find_trade(id) {
            Some(i) => Some(self.trades[i].copy()),
            None => None,
        }
    }

    /// All trades, in order of creation.
    pub fn list_trades(&self) -> (r: Vec<Trade>)
        ensures
            r@ == self.trades@,
    {
        let mut out: Vec<Trade> = Vec::new();
        let mut i: usize = 0;
        while i < self.trades.len()
            invariant
                i <= self.trades@.len(),
                out@ == self.trades@.take(i as int),
            decreases self.trades@.len() - i,
        {
            out.push(self.trades[i].copy());
            i = i + 1;
            assert(out@ =~= self.trades@.take(i as int));
        }
        assert(out@ =~= self.trades@);
        out
    }

    /// The trades in which `user_id` is buyer or seller, in order of creation.
    pub fn list_trades_by_user(&self, user_id: &Principal) -> (r: Vec<Trade>)
        ensures
            r@ == self.trades@.filter(|t: Trade| t.buyer_id@ == user_id@ || t.seller_id@ == user_id@),
    {
        let ghost pred = |t: Trade| t.buyer_id@ == user_id@ || t.seller_id@ == user_id@;
        let mut out: Vec<Trade> = Vec::new();
        let mut i: usize = 0;
        while i < self.trades.len()
            invariant
                i <= self.trades@.len(),
                out@ == self.trades@.take(i as int).filter(pred),
                pred == (|t: Trade| t.buyer_id@ == user_id@ || t.seller_id@ == user_id@),
            decreases self.trades@.len() - i,
        {
            proof {
                let s = self.trades@.take(i + 1);
                reveal(Seq::filter);
                assert(s.drop_last() =~= self.trades@.take(i as int));
            }
            if self.trades[i].buyer_id.same_as(user_id) || self.trades[i].seller_id.same_as(user_id) {
                out.push(self.trades[i].copy());
            }
            i = i + 1;
        }
        assert(self.trades@.take(i as int) =~= self.trades@);
        out
    }

    /// The trades of asset `asset_id`, in order of creation.
    pub fn list_trades_by_asset(&self, asset_id: u64) -> (r: Vec<Trade>)
        ensures
            r@ == self.trades@.filter(|t: Trade| t.asset_id == asset_id),
    {
        let ghost pred = |t: Trade| t.asset_id == asset_id;
        let mut out: Vec<Trade> = Vec::new();
        let mut i: usize = 0;
        while i < self.trades.len()
            invariant
                i <= self.trades@.len(),
                out@ == self.trades@.take(i as int).filter(pred),
                pred == (|t: Trade| t.asset_id == asset_id),
            decreases self.trades@.len() - i,
        {
            proof {
                let s = self.trades@.take(i + 1);
                reveal(Seq::filter);
                assert(s.drop_last() =~= self.trades@.take(i as int));
            }
            if self.trades[i].asset_id == asset_id {
                out.push(self.trades[i].copy());
            }
            i = i + 1;
        }
        assert(self.trades@.take(i as int) =~= self.trades@);
        out
    }
}

} // verus!
