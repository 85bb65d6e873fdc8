use vstd::prelude::*;
use crate::identity::Principal;
use crate::ledger::{Ledger, LedgerError, emitted, lots_of, lemma_lots_of_update};
use crate::asset::Asset;
use crate::notification::{NotificationType, token_received_message, token_received_text};

verus! {

#[derive(Clone, Copy, Debug, PartialEq, Eq, Structural)]
pub enum TokenStatus {
    Available,
    Sold,
    Locked,
}

/// A lot: a quantity of one asset's tokens held by one identity.
#[derive(Clone, Debug)]
pub struct Token {
    pub id: u64,
    pub asset_id: u64,
    pub owner_id: Principal,
    pub amount: u64,
    pub price: u64,
    pub status: TokenStatus,
}

impl Token {
    pub fn copy(&self) -> (r: Token)
        ensures
            r == *self,
    {
        Token {
            id: self.id,
            asset_id: self.asset_id,
            owner_id: self.owner_id.copy(),
            amount: self.amount,
            price: self.price,
            status: self.status,
        }
    }
}

impl Ledger {
    pub open spec fn has_token(self, id: u64) -> bool {
        exists|i: int| 0 <= i < self.tokens@.len() && (#[trigger] self.tokens@[i]).id == id
    }

    /// The token lot with identifier `id` stands at `i`.
    pub open spec fn token_at(self, id: u64, i: int) -> bool {
        0 <= i < self.tokens@.len() && self.tokens@[i].id == id
    }

    /// `p` holds the token lot at `i` or is an administrator.
    pub open spec fn may_move_token(self, p: Seq<char>, i: int) -> bool {
        self.tokens@[i].owner_id@ == p || self.admin(p)
    }

    /// The token lot at `i` after it passed to `owner`.
    pub open spec fn handed_over(self, i: int, owner: Principal) -> Token {
        Token { owner_id: owner, status: TokenStatus::Sold, ..self.tokens@[i] }
    }

    /// At most one token lot has a given identifier.
    pub proof fn lemma_token_unique(self, id: u64, i: int, j: int)
        requires
            self.wf(),
            self.token_at(id, i),
            self.token_at(id, j),
        ensures
            i == j,
    {
        if i < j {
            assert(self.tokens@[i].id < self.tokens@[j].id);
        } else if j < i {
            assert(self.tokens@[j].id < self.tokens@[i].id);
        }
    }

    /// The index of the token lot with identifier `id`, if any.
    pub(crate) fn find_token(&self, id: u64) -> (r: Option<usize>)
        requires
            self.wf(),
        ensures
            match r {
                Some(i) => self.token_at(id, i as int) && forall|j: int|
                    #[trigger] self.token_at(id, j) ==> j == i,
                None => !self.has_token(id),
            },
    {
        let mut i: usize = 0;
        while i < self.tokens.len()
            invariant
                self.wf(),
                i <= self.tokens@.len(),
                forall|k: int| 0 <= k < i ==> (#[trigger] self.tokens@[k]).id != id,
            decreases self.tokens@.len() - i,
        {
            if self.tokens[i].id == id {
                proof {
                    assert forall|j: int| #[trigger] self.token_at(id, j) implies j == i by {
                        self.lemma_token_unique(id, i as int, j);
                    }
                }
                return Some(i);
            }
            i = i + 1;
        }
        None
    }

    /// Creates a lot of `amount` tokens of asset `asset_id`, held by `owner_id`
    /// and Available, taking them out of the asset's available supply. The
    /// caller must be KYC-approved, the asset must exist and have that many
    /// tokens available.
    pub fn mint_token(
        &mut self,
        caller: &Principal,
        asset_id: u64,
        owner_id: &Principal,
        amount: u64,
        price: u64,
    ) -> (r: Result<Token, LedgerError>)
        requires
            old(self).wf(),
        ensures
            final(self).wf(),
            r is Err ==> *final(self) == *old(self),
            !old(self).kyc_approved(caller@) ==> r == Err::<Token, LedgerError>(
                LedgerError::PreconditionFailed,
            ),
            old(self).kyc_approved(caller@) && !old(self).has_asset(asset_id) ==> r == Err::<
                Token,
                LedgerError,
            >(LedgerError::NotFound),
            forall|i: int|
                #[trigger] old(self).asset_at(asset_id, i) && old(self).kyc_approved(caller@) ==> {
                    let a = old(self).assets@[i];
                    let t = Token {
                        id: old(self).next_token_id,
                        asset_id,
                        owner_id: *owner_id,
                        amount,
                        price,
                        status: TokenStatus::Available,
                    };
                    &&& amount > a.available_tokens ==> r == Err::<Token, LedgerError>(
                        LedgerError::InvariantViolation,
                    )
                    &&& amount <= a.available_tokens && old(self).next_token_id == u64::MAX ==> r
                        == Err::<Token, LedgerError>(LedgerError::InvariantViolation)
                    &&& amount <= a.available_tokens && old(self).next_token_id < u64::MAX ==> {
                        &&& r == Ok::<Token, LedgerError>(t)
                        &&& final(self).tokens@ == old(self).tokens@.push(t)
                        &&& final(self).assets@ == old(self).assets@.update(
                            i,
                            Asset { available_tokens: (a.available_tokens - amount) as u64, ..a },
                        )
                        &&& final(self).next_token_id == old(self).next_token_id + 1
                        &&& final(self).next_asset_id == old(self).next_asset_id
                        &&& final(self).same_but_assets_tokens(*old(self))
                        &&& final(self).notifications@ == old(self).notifications@
                        &&& final(self).next_notification_id == old(self).next_notification_id
                    }
                },
    {
        if !self.is_kyc_approved(caller) {
            return Err(LedgerError::PreconditionFailed);
        }
        let i = match self.find_asset(asset_id) {
            Some(i) => i,
            None => { return Err(LedgerError::NotFound); },
        };
        proof {
            assert forall|j: int| #[trigger] old(self).asset_at(asset_id, j) implies j == i by {
                old(self).lemma_asset_unique(asset_id, i as int, j);
            }
        }
        if amount > self.assets[i].available_tokens {
            return Err(LedgerError::InvariantViolation);
        }
        if self.next_token_id == u64::MAX {
            return Err(LedgerError::InvariantViolation);
        }
        let t = Token {
            id: self.next_token_id,
            asset_id,
            owner_id: owner_id.copy(),
            amount,
            price,
            status: TokenStatus::Available,
        };
        let out = t.copy();
        let mut a = self.assets.remove(i);
        a.available_tokens = a.available_tokens - amount;
        self.assets.insert(i, a);
        self.tokens.push(t);
        self.next_token_id = self.next_token_id + 1;
        proof {
            let pre = *old(self);
            assert(self.assets@ =~= pre.assets@.update(i as int, self.assets@[i as int]));
            assert forall|x: int, y: int|
                0 <= x < y < self.assets@.len() implies #[trigger] self.assets@[x].id
                    < #[trigger] self.assets@[y].id by {
                assert(pre.assets@[x].id < pre.assets@[y].id);
            }
            assert forall|k: int| 0 <= k < self.assets@.len() implies (#[trigger] self.assets@[k]).id < self.next_asset_id
                && self.assets@[k].available_tokens <= self.assets@[k].total_tokens by {
                if k != i {
                    assert(self.assets@[k] == pre.assets@[k]);
                }
            }
            assert forall|x: int, y: int|
                0 <= x < y < self.tokens@.len() implies #[trigger] self.tokens@[x].id
                    < #[trigger] self.tokens@[y].id by {
                if y < pre.tokens@.len() {
                    assert(pre.tokens@[x].id < pre.tokens@[y].id);
                }
            }
            assert forall|k: int| 0 <= k < self.tokens@.len() implies self.has_asset(
                (#[trigger] self.tokens@[k]).asset_id) && self.tokens@[k].id < self.next_token_id by {
                if k < pre.tokens@.len() {
                    let t0 = pre.tokens@[k];
                    assert(pre.has_asset(t0.asset_id));
                    let w = choose|w: int| 0 <= w < pre.assets@.len() && (#[trigger] pre.assets@[w]).id == t0.asset_id;
                    assert(self.assets@[w].id == t0.asset_id);
                } else {
                    assert(self.assets@[i as int].id == asset_id);
                }
            }
            assert(self.tokens@.drop_last() =~= pre.tokens@);
            assert forall|k: int| 0 <= k < self.assets@.len() implies lots_of(self.tokens@, (#[trigger] self.assets@[k]).id)
                + self.assets@[k].available_tokens <= self.assets@[k].total_tokens by {
                assert(lots_of(self.tokens@, self.assets@[k].id) == lots_of(pre.tokens@, self.assets@[k].id)
                    + if asset_id == self.assets@[k].id { amount as int } else { 0 });
                if k != i {
                    assert(self.assets@[k] == pre.assets@[k]);
                    if k < i {
                        assert(pre.assets@[k].id < pre.assets@[i as int].id);
                    } else {
                        assert(pre.assets@[i as int].id < pre.assets@[k].id);
                    }
                }
            }
        }
        Ok(out)
    }

    /// The token lot with identifier `id`, if any.
    pub fn get_token(&self, id: u64) -> (r: Option<Token>)
        requires
            self.wf(),
        ensures
            match r {
                Some(t) => exists|i: int| self.token_at(id, i) && t == #[trigger] self.tokens@[i],
                None => !self.has_token(id),
            },
    {
        match self.find_token(id) {
            Some(i) => Some(self.tokens[i].copy()),
            None => None,
        }
    }

    /// Hands the token lot at `i` to `new_owner` and marks it Sold; nothing
    /// else changes.
    pub(crate) fn reassign_token(&mut self, i: usize, new_owner: &Principal)
        requires
            old(self).wf(),
            i < old(self).tokens@.len(),
        ensures
            final(self).wf(),
            final(self).tokens@ == old(self).tokens@.update(i as int, old(self).handed_over(i as int, *new_owner)),
            final(self).assets@ == old(self).assets@,
            final(self).users@ == old(self).users@,
            final(self).trades@ == old(self).trades@,
            final(self).portfolios@ == old(self).portfolios@,
            final(self).notifications@ == old(self).notifications@,
            final(self).next_asset_id == old(self).next_asset_id,
            final(self).next_token_id == old(self).next_token_id,
            final(self).next_trade_id == old(self).next_trade_id,
            final(self).next_notification_id == old(self).next_notification_id,
    {
        let mut t = self.tokens.remove(i);
        t.owner_id = new_owner.copy();
        t.status = TokenStatus::Sold;
        self.tokens.insert(i, t);
        proof {
            let pre = *old(self);
            assert(self.tokens@ =~= pre.tokens@.update(i as int, pre.handed_over(i as int, *new_owner)));
            assert forall|x: int, y: int|
                0 <= x < y < self.tokens@.len() implies #[trigger] self.tokens@[x].id
                    < #[trigger] self.tokens@[y].id by {
                assert(pre.tokens@[x].id < pre.tokens@[y].id);
            }
            assert forall|k: int| 0 <= k < self.tokens@.len() implies self.has_asset(
                (#[trigger] self.tokens@[k]).asset_id) && self.tokens@[k].id < self.next_token_id by {
                assert(pre.has_asset(pre.tokens@[k].asset_id));
            }
            assert forall|k: int| 0 <= k < self.assets@.len() implies lots_of(self.tokens@, (#[trigger] self.assets@[k]).id)
                + self.assets@[k].available_tokens <= self.assets@[k].total_tokens by {
                lemma_lots_of_update(pre.tokens@, i as int, pre.handed_over(i as int, *new_owner), self.assets@[k].id);
            }
        }
    }

    /// Hands token lot `token_id` to `new_owner`, marks it Sold and notifies the
    /// new owner. The new owner must be KYC-approved; only the current holder or
    /// an administrator may.
    pub fn transfer_token(
        &mut self,
        caller: &Principal,
        token_id: u64,
        new_owner: &Principal,
        now: u64,
    ) -> (r: Result<Token, LedgerError>)
        requires
            old(self).wf(),
        ensures
            final(self).wf(),
            r is Err ==> *final(self) == *old(self),
            !old(self).kyc_approved(new_owner@) ==> r == Err::<Token, LedgerError>(
                LedgerError::PreconditionFailed,
            ),
            old(self).kyc_approved(new_owner@) && !old(self).has_token(token_id) ==> r == Err::<
                Token,
                LedgerError,
            >(LedgerError::NotFound),
            forall|i: int|
                #[trigger] old(self).token_at(token_id, i) && old(self).kyc_approved(new_owner@)
                    ==> {
                    let t = old(self).handed_over(i, *new_owner);
                    &&& !old(self).may_move_token(caller@, i) ==> r == Err::<Token, LedgerError>(
                        LedgerError::Unauthorized,
                    )
                    &&& old(self).may_move_token(caller@, i) ==> {
                        &&& r == Ok::<Token, LedgerError>(t)
                        &&& final(self).tokens@ == old(self).tokens@.update(i, t)
                        &&& final(self).next_token_id == old(self).next_token_id
                        &&& final(self).same_but_tokens(*old(self))
                        &&& emitted(old(self).notifications@, old(self).next_notification_id,
                            final(self).notifications@, final(self).next_notification_id,
                            new_owner@, NotificationType::Investment,
                            token_received_text(token_id, old(self).tokens@[i].asset_id), now)
                    }
                },
    {
        if !self.is_kyc_approved(new_owner) {
            return Err(LedgerError::PreconditionFailed);
        }
        let i = match self.find_token(token_id) {
            Some(i) => i,
            None => { return Err(LedgerError::NotFound); },
        };
        if !(self.tokens[i].owner_id.same_as(caller) || self.is_admin(caller)) {
            return Err(LedgerError::Unauthorized);
        }
        let message = token_received_message(token_id, self.tokens[i].asset_id);
        self.reassign_token(i, new_owner);
        let out = self.tokens[i].copy();
        self.notify(new_owner, NotificationType::Investment, message, now);
        Ok(out)
    }

    /// All token lots, in order of minting.
    pub fn list_tokens(&self) -> (r: Vec<Token>)
        ensures
            r@ == self.tokens@,
    {
        let mut out: Vec<Token> = Vec::new();
        let mut i: usize = 0;
        while i < self.tokens.len()
            invariant
                i <= self.tokens@.len(),
                out@ == self.tokens@.take(i as int),
            decreases self.tokens@.len() - i,
        {
            out.push(self.tokens[i].copy());
            i = i + 1;
            assert(out@ =~= self.tokens@.take(i as int));
        }
        assert(out@ =~= self.tokens@);
        out
    }

    /// The token lots held by `user_id`, in order of minting.
    pub fn list_tokens_by_user(&self, user_id: &Principal) -> (r: Vec<Token>)
        ensures
            r@ == self.tokens@.filter(|t: Token| t.owner_id@ == user_id@),
    {
        let ghost pred = |t: Token| t.owner_id@ == user_id@;
        let mut out: Vec<Token> = Vec::new();
        let mut i: usize = 0;
        while i < self.tokens.len()
            invariant
                i <= self.tokens@.len(),
                out@ == self.tokens@.take(i as int).filter(pred),
                pred == (|t: Token| t.owner_id@ == user_id@),
            decreases self.tokens@.len() - i,
        {
            proof {
                let s = self.tokens@.take(i + 1);
                reveal(Seq::filter);
                assert(s.drop_last() =~= self.tokens@.take(i as int));
            }
            if self.tokens[i].owner_id.same_as(user_id) {
                out.push(self.tokens[i].copy());
            }
            i = i + 1;
        }
        assert(self.tokens@.take(i as int) =~= self.tokens@);
        out
    }

    /// The token lots of asset `asset_id`, in order of minting.
    pub fn list_tokens_by_asset(&self, asset_id: u64) -> (r: Vec<Token>)
        ensures
            r@ == self.tokens@.filter(|t: Token| t.asset_id == asset_id),
    {
        let ghost pred = |t: Token| t.asset_id == asset_id;
        let mut out: Vec<Token> = Vec::new();
        let mut i: usize = 0;
        while i < self.tokens.len()
            invariant
                i <= self.tokens@.len(),
                out@ == self.tokens@.take(i as int).filter(pred),
                pred == (|t: Token| t.asset_id == asset_id),
            decreases self.tokens@.len() - i,
        {
            proof {
                let s = self.tokens@.take(i + 1);
                reveal(Seq::filter);
                assert(s.drop_last() =~= self.tokens@.take(i as int));
            }
            if self.tokens[i].asset_id == asset_id {
                out.push(self.tokens[i].copy());
            }
            i = i + 1;
        }
        assert(self.tokens@.take(i as int) =~= self.tokens@);
        out
    }
}

} // verus!
