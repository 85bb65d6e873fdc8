use vstd::prelude::*;
use crate::identity::Principal;
use crate::ledger::{Ledger, LedgerError, emitted};
use crate::notification::NotificationType;

verus! {

/// The token and asset identifiers that one identity holds; an index kept
/// beside the ledger, not authoritative.
#[derive(Clone, Debug)]
pub struct Portfolio {
    pub user_id: Principal,
    pub tokens: Vec<u64>,
    pub assets: Vec<u64>,
}

impl Portfolio {
    /// `self` and `o` hold the same values (the lists by content).
    pub open spec fn same(self, o: Portfolio) -> bool {
        &&& self.user_id == o.user_id
        &&& self.tokens@ == o.tokens@
        &&& self.assets@ == o.assets@
    }

    pub fn copy(&self) -> (r: Portfolio)
        ensures
            r.same(*self),
    {
        Portfolio {
            user_id: self.user_id.copy(),
            tokens: self.tokens.clone(),
            assets: self.assets.clone(),
        }
    }
}

/// The text of the notice sent when a portfolio is replaced.
pub open spec fn portfolio_updated_text() -> Seq<char> {
    "Your portfolio was updated"@
}

impl Ledger {
    /// The portfolio of `p` stands at `i`.
    pub open spec fn portfolio_at(self, p: Seq<char>, i: int) -> bool {
        0 <= i < self.portfolios@.len() && self.portfolios@[i].user_id@ == p
    }

    pub open spec fn has_portfolio(self, p: Seq<char>) -> bool {
        exists|i: int| 0 <= i < self.portfolios@.len() && (#[trigger] self.portfolios@[i]).user_id@ == p
    }

    /// The index of the portfolio of `p`, if any.
    fn find_portfolio(&self, p: &Principal) -> (r: Option<usize>)
        requires
            self.wf(),
        ensures
            match r {
                Some(i) => self.portfolio_at(p@, i as int) && forall|j: int|
                    #[trigger] self.portfolio_at(p@, j) ==> j == i,
                None => !self.has_portfolio(p@),
            },
    {
        let mut i: usize = 0;
        while i < self.portfolios.len()
            invariant
                self.wf(),
                i <= self.portfolios@.len(),
                forall|k: int| 0 <= k < i ==> (#[trigger] self.portfolios@[k]).user_id@ != p@,
            decreases self.portfolios@.len() - i,
        {
            if self.portfolios[i].user_id.same_as(p) {
                proof {
                    assert forall|j: int| #[trigger] self.portfolio_at(p@, j) implies j == i by {
                        if j != i {
                            assert(self.portfolios@[j].user_id@ != self.portfolios@[i as int].user_id@);
                        }
                    }
                }
                return Some(i);
            }
            i = i + 1;
        }
        None
    }

    /// Putting the portfolio at `i` or at the end, for an identity that no other
    /// portfolio has, keeps the invariant.
    proof fn lemma_portfolios_keep_wf(self, pre: Ledger)
        requires
            pre.wf(),
            self.portfolios_wf(),
            self.same_but_portfolios(pre),
            self.notifications@ == pre.notifications@,
            self.next_notification_id == pre.next_notification_id,
        ensures
            self.wf(),
    {
        assert forall|k: int| 0 <= k < self.tokens@.len() implies self.has_asset(
            (#[trigger] self.tokens@[k]).asset_id) by {
            assert(pre.has_asset(pre.tokens@[k].asset_id));
        }
    }

    /// Gives `user_id` an empty portfolio, replacing any it had. The user must
    /// be KYC-approved.
    pub fn create_portfolio(&mut self, user_id: &Principal) -> (r: Result<Portfolio, LedgerError>)
        requires
            old(self).wf(),
        ensures
            final(self).wf(),
            !old(self).kyc_approved(user_id@) ==> r == Err::<Portfolio, LedgerError>(
                LedgerError::PreconditionFailed,
            ) && *final(self) == *old(self),
            old(self).kyc_approved(user_id@) ==> {
                &&& r is Ok
                &&& r->Ok_0.user_id == *user_id
                &&& r->Ok_0.tokens@.len() == 0
                &&& r->Ok_0.assets@.len() == 0
                &&& final(self).same_but_portfolios(*old(self))
                &&& final(self).notifications@ == old(self).notifications@
                &&& final(self).next_notification_id == old(self).next_notification_id
                &&& old(self).has_portfolio(user_id@) ==> forall|i: int|
                    #[trigger] old(self).portfolio_at(user_id@, i) ==> final(self).portfolios@
                        == old(self).portfolios@.update(i, final(self).portfolios@[i])
                        && final(self).portfolios@[i].same(r->Ok_0)
                &&& !old(self).has_portfolio(user_id@) ==> final(self).portfolios@.len()
                    == old(self).portfolios@.len() + 1 && final(self).portfolios@.take(
                    old(self).portfolios@.len() as int,
                ) == old(self).portfolios@ && final(self).portfolios@.last().same(r->Ok_0)
            },
    {
        if !self.is_kyc_approved(user_id) {
            return Err(LedgerError::PreconditionFailed);
        }
        let fresh = Portfolio { user_id: user_id.copy(), tokens: Vec::new(), assets: Vec::new() };
        let out = fresh.copy();
        match self.find_portfolio(user_id) {
            Some(i) => {
                self.portfolios.set(i, fresh);
                proof {
                    let pre = *old(self);
                    assert forall|x: int, y: int|
                        0 <= x < self.portfolios@.len() && 0 <= y < self.portfolios@.len() && x != y
                            implies #[trigger] self.portfolios@[x].user_id@
                            != #[trigger] self.portfolios@[y].user_id@ by {
                        assert(pre.portfolios@[x].user_id@ != pre.portfolios@[y].user_id@);
                    }
                    self.lemma_portfolios_keep_wf(pre);
                    assert forall|j: int| #[trigger] pre.portfolio_at(user_id@, j) implies j == i by {
                        if j != i {
                            assert(pre.portfolios@[j].user_id@ != pre.portfolios@[i as int].user_id@);
                        }
                    }
                }
            },
            None => {
                self.portfolios.push(fresh);
                proof {
                    let pre = *old(self);
                    assert forall|x: int, y: int|
                        0 <= x < self.portfolios@.len() && 0 <= y < self.portfolios@.len() && x != y
                            implies #[trigger] self.portfolios@[x].user_id@
                            != #[trigger] self.portfolios@[y].user_id@ by {
                        if x < pre.portfolios@.len() && y < pre.portfolios@.len() {
                            assert(pre.portfolios@[x].user_id@ != pre.portfolios@[y].user_id@);
                        }
                    }
                    self.lemma_portfolios_keep_wf(pre);
                    assert(self.portfolios@.take(pre.portfolios@.len() as int) =~= pre.portfolios@);
                }
            },
        }
        Ok(out)
    }

    /// The portfolio of `user_id`, if any.
    pub fn get_portfolio(&self, user_id: &Principal) -> (r: Option<Portfolio>)
        requires
            self.wf(),
        ensures
            match r {
                Some(p) => exists|i: int|
                    self.portfolio_at(user_id@, i) && p.same(#[trigger] self.portfolios@[i]),
                None => !self.has_portfolio(user_id@),
            },
    {
        match self.find_portfolio(user_id) {
            Some(i) => Some(self.portfolios[i].copy()),
            None => None,
        }
    }

    /// Replaces the holdings listed in the portfolio of `user_id` and notifies
    /// the user. Only the user or an administrator may, and the user must be
    /// KYC-approved.
    pub fn update_portfolio(
        &mut self,
        caller: &Principal,
        user_id: &Principal,
        tokens: Vec<u64>,
        assets: Vec<u64>,
        now: u64,
    ) -> (r: Result<Portfolio, LedgerError>)
        requires
            old(self).wf(),
        ensures
            final(self).wf(),
            r is Err ==> *final(self) == *old(self),
            caller@ != user_id@ && !old(self).admin(caller@) ==> r == Err::<Portfolio, LedgerError>(
                LedgerError::Unauthorized,
            ),
            (caller@ == user_id@ || old(self).admin(caller@)) && !old(self).kyc_approved(user_id@)
                ==> r == Err::<Portfolio, LedgerError>(LedgerError::PreconditionFailed),
            (caller@ == user_id@ || old(self).admin(caller@)) && old(self).kyc_approved(user_id@)
                && !old(self).has_portfolio(user_id@) ==> r == Err::<Portfolio, LedgerError>(
                LedgerError::NotFound,
            ),
            forall|i: int|
                #[trigger] old(self).portfolio_at(user_id@, i) && (caller@ == user_id@ || old(
                    self,
                ).admin(caller@)) && old(self).kyc_approved(user_id@) ==> {
                    let p = Portfolio { tokens, assets, ..old(self).portfolios@[i] };
                    &&& r is Ok
                    &&& r->Ok_0.same(p)
                    &&& final(self).portfolios@ == old(self).portfolios@.update(i, p)
                    &&& final(self).same_but_portfolios(*old(self))
                    &&& emitted(old(self).notifications@, old(self).next_notification_id,
                        final(self).notifications@, final(self).next_notification_id, user_id@,
                        NotificationType::Investment, portfolio_updated_text(), now)
                },
    {
        if !caller.same_as(user_id) && !self.is_admin(caller) {
            return Err(LedgerError::Unauthorized);
        }
        if !self.is_kyc_approved(user_id) {
            return Err(LedgerError::PreconditionFailed);
        }
        let i = match self.find_portfolio(user_id) {
            Some(i) => i,
            None => { return Err(LedgerError::NotFound); },
        };
        let mut p = self.portfolios.remove(i);
        p.tokens = tokens;
        p.assets = assets;
        let out = p.copy();
        self.portfolios.insert(i, p);
        proof {
            let pre = *old(self);
            assert(self.portfolios@ =~= pre.portfolios@.update(i as int, self.portfolios@[i as int]));
            assert forall|x: int, y: int|
                0 <= x < self.portfolios@.len() && 0 <= y < self.portfolios@.len() && x != y
                    implies #[trigger] self.portfolios@[x].user_id@
                    != #[trigger] self.portfolios@[y].user_id@ by {
                assert(pre.portfolios@[x].user_id@ != pre.portfolios@[y].user_id@);
            }
            self.lemma_portfolios_keep_wf(pre);
        }
        self.notify(user_id, NotificationType::Investment, "Your portfolio was updated".to_owned(), now);
        Ok(out)
    }

    /// All portfolios, in order of creation.
    pub fn list_portfolios(&self) -> (r: Vec<Portfolio>)
        ensures
            r@.len() == self.portfolios@.len(),
            forall|i: int| 0 <= i < r@.len() ==> (#[trigger] r@[i]).same(self.portfolios@[i]),
    {
        let mut out: Vec<Portfolio> = Vec::new();
        let mut i: usize = 0;
        while i < self.portfolios.len()
            invariant
                i <= self.portfolios@.len(),
                out@.len() == i,
                forall|k: int| 0 <= k < i ==> (#[trigger] out@[k]).same(self.portfolios@[k]),
            decreases self.portfolios@.len() - i,
        {
            out.push(self.portfolios[i].copy());
            i = i + 1;
        }
        out
    }
}

} // verus!
