use vstd::prelude::*;
use crate::identity::Principal;
use crate::ledger::{Ledger, LedgerError, emitted, lots_of, lemma_lots_of_absent};
use crate::notification::{NotificationType, asset_approved_message, asset_approved_text};

verus! {

#[derive(Clone, Copy, Debug, PartialEq, Eq, Structural)]
pub enum AssetStatus {
    Pending,
    Approved,
    Rejected,
    Active,
    Funding,
    Sold,
}

/// Optional financial indicators of an asset. Rates and scores are held as the
/// bit patterns of IEEE-754 doubles; the ledger only stores them.
#[derive(Clone, Debug)]
pub struct KeyMetrics {
    pub cap_rate_bits: Option<u64>,
    pub occupancy_rate_bits: Option<u64>,
    pub location_score_bits: Option<u64>,
    pub liquidity_rating: Option<String>,
}

/// One real-world asset divided into fungible tokens. `apy_bits` is the bit
/// pattern of an IEEE-754 double.
#[derive(Clone, Debug)]
pub struct Asset {
    pub id: u64,
    pub owner_id: Principal,
    pub name: String,
    pub description: String,
    pub category: String,
    pub location: String,
    pub images: Vec<String>,
    pub documents: Vec<String>,
    pub total_value: u64,
    pub token_price: u64,
    pub total_tokens: u64,
    pub available_tokens: u64,
    pub apy_bits: u64,
    pub status: AssetStatus,
    pub launch_date: Option<String>,
    pub funding_deadline: Option<String>,
    pub monthly_income: Option<u64>,
    pub risk_rating: Option<String>,
    pub key_metrics: Option<KeyMetrics>,
}

impl KeyMetrics {
    pub fn copy(&self) -> (r: KeyMetrics)
        ensures
            r == *self,
    {
        KeyMetrics {
            cap_rate_bits: self.cap_rate_bits,
            occupancy_rate_bits: self.occupancy_rate_bits,
            location_score_bits: self.location_score_bits,
            liquidity_rating: self.liquidity_rating.clone(),
        }
    }
}

impl Asset {
    /// `self` and `o` hold the same values (the lists of media by content).
    pub open spec fn same(self, o: Asset) -> bool {
        &&& self.id == o.id
        &&& self.owner_id == o.owner_id
        &&& self.name == o.name
        &&& self.description == o.description
        &&& self.category == o.category
        &&& self.location == o.location
        &&& self.images@ == o.images@
        &&& self.documents@ == o.documents@
        &&& self.total_value == o.total_value
        &&& self.token_price == o.token_price
        &&& self.total_tokens == o.total_tokens
        &&& self.available_tokens == o.available_tokens
        &&& self.apy_bits == o.apy_bits
        &&& self.status == o.status
        &&& self.launch_date == o.launch_date
        &&& self.funding_deadline == o.funding_deadline
        &&& self.monthly_income == o.monthly_income
        &&& self.risk_rating == o.risk_rating
        &&& self.key_metrics == o.key_metrics
    }

    pub fn copy(&self) -> (r: Asset)
        ensures
            r.same(*self),
    {
        let key_metrics = match &self.key_metrics {
            Some(k) => Some(k.copy()),
            None => None,
        };
        Asset {
            id: self.id,
            owner_id: self.owner_id.copy(),
            name: self.name.clone(),
            description: self.description.clone(),
            category: self.category.clone(),
            location: self.location.clone(),
            images: self.images.clone(),
            documents: self.documents.clone(),
            total_value: self.total_value,
            token_price: self.token_price,
            total_tokens: self.total_tokens,
            available_tokens: self.available_tokens,
            apy_bits: self.apy_bits,
            status: self.status,
            launch_date: self.launch_date.clone(),
            funding_deadline: self.funding_deadline.clone(),
            monthly_income: self.monthly_income,
            risk_rating: self.risk_rating.clone(),
            key_metrics,
        }
    }
}

/// The asset `a` after a partial update: each given field replaces the stored
/// one; every other field, the available supply included, stays as it was.
pub open spec fn patched(
    a: Asset,
    name: Option<String>,
    description: Option<String>,
    category: Option<String>,
    location: Option<String>,
    images: Option<Vec<String>>,
    documents: Option<Vec<String>>,
    total_value: Option<u64>,
    token_price: Option<u64>,
    total_tokens: Option<u64>,
    apy_bits: Option<u64>,
    launch_date: Option<String>,
    funding_deadline: Option<String>,
    monthly_income: Option<u64>,
    risk_rating: Option<String>,
    key_metrics: Option<KeyMetrics>,
) -> Asset {
    Asset {
        id: a.id,
        owner_id: a.owner_id,
        name: match name { Some(v) => v, None => a.name },
        description: match description { Some(v) => v, None => a.description },
        category: match category { Some(v) => v, None => a.category },
        location: match location { Some(v) => v, None => a.location },
        images: match images { Some(v) => v, None => a.images },
        documents: match documents { Some(v) => v, None => a.documents },
        total_value: match total_value { Some(v) => v, None => a.total_value },
        token_price: match token_price { Some(v) => v, None => a.token_price },
        total_tokens: match total_tokens { Some(v) => v, None => a.total_tokens },
        available_tokens: a.available_tokens,
        apy_bits: match apy_bits { Some(v) => v, None => a.apy_bits },
        status: a.status,
        launch_date: match launch_date { Some(v) => Some(v), None => a.launch_date },
        funding_deadline: match funding_deadline { Some(v) => Some(v), None => a.funding_deadline },
        monthly_income: match monthly_income { Some(v) => Some(v), None => a.monthly_income },
        risk_rating: match risk_rating { Some(v) => Some(v), None => a.risk_rating },
        key_metrics: match key_metrics { Some(v) => Some(v), None => a.key_metrics },
    }
}

/// The given value, or `current` when none is given.
fn given_or<T>(given: Option<T>, current: T) -> (r: T)
    ensures
        r == match given {
            Some(v) => v,
            None => current,
        },
{
    match given {
        Some(v) => v,
        None => current,
    }
}

/// The given value, or the optional `current` when none is given.
fn given_or_kept<T>(given: Option<T>, current: Option<T>) -> (r: Option<T>)
    ensures
        r == match given {
            Some(v) => Some(v),
            None => current,
        },
{
    match given {
        Some(v) => Some(v),
        None => current,
    }
}

impl Ledger {
    /// The index of the asset with identifier `id`, if any.
    pub(crate) fn find_asset(&self, id: u64) -> (r: Option<usize>)
        ensures
            match r {
                Some(i) => self.asset_at(id, i as int),
                None => !self.has_asset(id),
            },
    {
        let mut i: usize = 0;
        while i < self.assets.len()
            invariant
                i <= self.assets@.len(),
                forall|k: int| 0 <= k < i ==> (#[trigger] self.assets@[k]).id != id,
            decreases self.assets@.len() - i,
        {
            if self.assets[i].id == id {
                return Some(i);
            }
            i = i + 1;
        }
        None
    }

    /// At most one asset has a given identifier.
    pub proof fn lemma_asset_unique(self, id: u64, i: int, j: int)
        requires
            self.wf(),
            self.asset_at(id, i),
            self.asset_at(id, j),
        ensures
            i == j,
    {
        if i < j {
            assert(self.assets@[i].id < self.assets@[j].id);
        } else if j < i {
            assert(self.assets@[j].id < self.assets@[i].id);
        }
    }

    /// Creates a Pending asset owned by `caller`, with its whole supply
    /// available and the next identifier. The caller must be KYC-approved.
    pub fn create_asset(
        &mut self,
        caller: &Principal,
        name: String,
        description: String,
        category: String,
        location: String,
        images: Vec<String>,
        documents: Vec<String>,
        total_value: u64,
        token_price: u64,
        total_tokens: u64,
        apy_bits: u64,
        launch_date: Option<String>,
        funding_deadline: Option<String>,
        monthly_income: Option<u64>,
        risk_rating: Option<String>,
        key_metrics: Option<KeyMetrics>,
    ) -> (r: Result<Asset, LedgerError>)
        requires
            old(self).wf(),
        ensures
            final(self).wf(),
            !old(self).kyc_approved(caller@) ==> r == Err::<Asset, LedgerError>(
                LedgerError::PreconditionFailed,
            ),
            old(self).kyc_approved(caller@) && old(self).next_asset_id == u64::MAX ==> r == Err::<
                Asset,
                LedgerError,
            >(LedgerError::InvariantViolation),
            r is Err ==> *final(self) == *old(self),
            old(self).kyc_approved(caller@) && old(self).next_asset_id < u64::MAX ==> {
                let a = Asset {
                    id: old(self).next_asset_id,
                    owner_id: *caller,
                    name,
                    description,
                    category,
                    location,
                    images,
                    documents,
                    total_value,
                    token_price,
                    total_tokens,
                    available_tokens: total_tokens,
                    apy_bits,
                    status: AssetStatus::Pending,
                    launch_date,
                    funding_deadline,
                    monthly_income,
                    risk_rating,
                    key_metrics,
                };
                &&& r is Ok
                &&& r->Ok_0.same(a)
                &&& final(self).assets@ == old(self).assets@.push(a)
                &&& final(self).next_asset_id == old(self).next_asset_id + 1
                &&& final(self).same_but_assets(*old(self))
                &&& final(self).notifications@ == old(self).notifications@
                &&& final(self).next_notification_id == old(self).next_notification_id
            },
    {
        if !self.is_kyc_approved(caller) {
            return Err(LedgerError::PreconditionFailed);
        }
        if self.next_asset_id == u64::MAX {
            return Err(LedgerError::InvariantViolation);
        }
        let a = Asset {
            id: self.next_asset_id,
            owner_id: caller.copy(),
            name,
            description,
            category,
            location,
            images,
            documents,
            total_value,
            token_price,
            total_tokens,
            available_tokens: total_tokens,
            apy_bits,
            status: AssetStatus::Pending,
            launch_date,
            funding_deadline,
            monthly_income,
            risk_rating,
            key_metrics,
        };
        let out = a.copy();
        self.assets.push(a);
        self.next_asset_id = self.next_asset_id + 1;
        proof {
            assert forall|k: int| 0 <= k < self.tokens@.len() implies self.has_asset(
                (#[trigger] self.tokens@[k]).asset_id) by {
                let t = self.tokens@[k];
                assert(old(self).has_asset(t.asset_id));
                let w = choose|w: int| 0 <= w < old(self).assets@.len() && (#[trigger] old(self).assets@[w]).id == t.asset_id;
                assert(self.assets@[w] == old(self).assets@[w]);
            }
            let fresh = old(self).next_asset_id;
            assert forall|k: int| 0 <= k < self.tokens@.len() implies (#[trigger] self.tokens@[k]).asset_id != fresh by {
                let t = self.tokens@[k];
                assert(old(self).has_asset(t.asset_id));
                let w = choose|w: int| 0 <= w < old(self).assets@.len() && (#[trigger] old(self).assets@[w]).id == t.asset_id;
            }
            lemma_lots_of_absent(self.tokens@, fresh);
            assert forall|k: int| 0 <= k < self.assets@.len() implies lots_of(self.tokens@, (#[trigger] self.assets@[k]).id)
                + self.assets@[k].available_tokens <= self.assets@[k].total_tokens by {
                if k < old(self).assets@.len() {
                    assert(self.assets@[k] == old(self).assets@[k]);
                }
            }
        }
        Ok(out)
    }

    /// The asset with identifier `id`, if any.
    pub fn get_asset(&self, id: u64) -> (r: Option<Asset>)
        ensures
            match r {
                Some(a) => exists|i: int| self.asset_at(id, i) && a.same(#[trigger] self.assets@[i]),
                None => !self.has_asset(id),
            },
    {
        match self.find_asset(id) {
            Some(i) => Some(self.assets[i].copy()),
            None => None,
        }
    }

    /// All assets, in order of creation.
    pub fn list_assets(&self) -> (r: Vec<Asset>)
        ensures
            r@.len() == self.assets@.len(),
            forall|i: int| 0 <= i < r@.len() ==> (#[trigger] r@[i]).same(self.assets@[i]),
    {
        let mut out: Vec<Asset> = Vec::new();
        let mut i: usize = 0;
        while i < self.assets.len()
            invariant
                i <= self.assets@.len(),
                out@.len() == i,
                forall|k: int| 0 <= k < i ==> (#[trigger] out@[k]).same(self.assets@[k]),
            decreases self.assets@.len() - i,
        {
            out.push(self.assets[i].copy());
            i = i + 1;
        }
        out
    }

    /// Applies a partial update to asset `id`: each given field replaces the
    /// stored one. Only the asset's owner or an administrator may. A new total
    /// supply must still cover the available supply and the tokens already
    /// minted as lots together; a smaller one is refused.
    pub fn update_asset(
        &mut self,
        caller: &Principal,
        id: u64,
        name: Option<String>,
        description: Option<String>,
        category: Option<String>,
        location: Option<String>,
        images: Option<Vec<String>>,
        documents: Option<Vec<String>>,
        total_value: Option<u64>,
        token_price: Option<u64>,
        total_tokens: Option<u64>,
        apy_bits: Option<u64>,
        launch_date: Option<String>,
        funding_deadline: Option<String>,
        monthly_income: Option<u64>,
        risk_rating: Option<String>,
        key_metrics: Option<KeyMetrics>,
    ) -> (r: Result<Asset, LedgerError>)
        requires
            old(self).wf(),
        ensures
            final(self).wf(),
            r is Err ==> *final(self) == *old(self),
            !old(self).has_asset(id) ==> r == Err::<Asset, LedgerError>(LedgerError::NotFound),
            forall|i: int|
                #[trigger] old(self).asset_at(id, i) ==> {
                    let a = old(self).assets@[i];
                    let refused_supply = match total_tokens {
                        Some(t) => t < lots_of(old(self).tokens@, id) + a.available_tokens,
                        None => false,
                    };
                    let p = patched(a, name, description, category, location, images, documents,
                        total_value, token_price, total_tokens, apy_bits, launch_date,
                        funding_deadline, monthly_income, risk_rating, key_metrics);
                    &&& !old(self).may_manage_asset(caller@, i) ==> r == Err::<Asset, LedgerError>(
                        LedgerError::Unauthorized,
                    )
                    &&& old(self).may_manage_asset(caller@, i) && refused_supply ==> r == Err::<
                        Asset,
                        LedgerError,
                    >(LedgerError::InvariantViolation)
                    &&& old(self).may_manage_asset(caller@, i) && !refused_supply ==> {
                        &&& r is Ok
                        &&& r->Ok_0.same(p)
                        &&& final(self).assets@ == old(self).assets@.update(i, p)
                        &&& final(self).next_asset_id == old(self).next_asset_id
                        &&& final(self).same_but_assets(*old(self))
                        &&& final(self).notifications@ == old(self).notifications@
                        &&& final(self).next_notification_id == old(self).next_notification_id
                    }
                },
    {
        let i = match self.find_asset(id) {
            Some(i) => i,
            None => { return Err(LedgerError::NotFound); },
        };
        proof {
            assert forall|j: int| #[trigger] old(self).asset_at(id, j) implies j == i by {
                old(self).lemma_asset_unique(id, i as int, j);
            }
        }
        if !(self.assets[i].owner_id.same_as(caller) || self.is_admin(caller)) {
            return Err(LedgerError::Unauthorized);
        }
        match total_tokens {
            Some(t) => {
                let minted = self.minted_of(id, i);
                let available = self.assets[i].available_tokens;
                if t < available || t - available < minted {
                    return Err(LedgerError::InvariantViolation);
                }
            },
            None => {},
        }
        let old_asset = self.assets.remove(i);
        let a = Asset {
            id: old_asset.id,
            owner_id: old_asset.owner_id,
            name: given_or(name, old_asset.name),
            description: given_or(description, old_asset.description),
            category: given_or(category, old_asset.category),
            location: given_or(location, old_asset.location),
            images: given_or(images, old_asset.images),
            documents: given_or(documents, old_asset.documents),
            total_value: given_or(total_value, old_asset.total_value),
            token_price: given_or(token_price, old_asset.token_price),
            total_tokens: given_or(total_tokens, old_asset.total_tokens),
            available_tokens: old_asset.available_tokens,
            apy_bits: given_or(apy_bits, old_asset.apy_bits),
            status: old_asset.status,
            launch_date: given_or_kept(launch_date, old_asset.launch_date),
            funding_deadline: given_or_kept(funding_deadline, old_asset.funding_deadline),
            monthly_income: given_or_kept(monthly_income, old_asset.monthly_income),
            risk_rating: given_or_kept(risk_rating, old_asset.risk_rating),
            key_metrics: given_or_kept(key_metrics, old_asset.key_metrics),
        };
        let out = a.copy();
        self.assets.insert(i, a);
        proof {
            assert(self.assets@ =~= old(self).assets@.update(i as int, self.assets@[i as int]));
            self.lemma_asset_replaced_keeps_wf(*old(self), i as int);
        }
        Ok(out)
    }

    /// Sets asset `id` to Approved and notifies its owner. Only an
    /// administrator may, and only while the asset is Pending.
    pub fn approve_asset(&mut self, caller: &Principal, id: u64, now: u64) -> (r: Result<
        Asset,
        LedgerError,
    >)
        requires
            old(self).wf(),
        ensures
            final(self).wf(),
            r is Err ==> *final(self) == *old(self),
            !old(self).admin(caller@) ==> r == Err::<Asset, LedgerError>(LedgerError::Unauthorized),
            old(self).admin(caller@) && !old(self).has_asset(id) ==> r == Err::<Asset, LedgerError>(
                LedgerError::NotFound,
            ),
            forall|i: int|
                #[trigger] old(self).asset_at(id, i) && old(self).admin(caller@)
                    && old(self).assets@[i].status != AssetStatus::Pending ==> r == Err::<
                    Asset,
                    LedgerError,
                >(LedgerError::InvariantViolation),
            forall|i: int|
                #[trigger] old(self).asset_at(id, i) && old(self).admin(caller@)
                    && old(self).assets@[i].status == AssetStatus::Pending ==> {
                    let p = Asset { status: AssetStatus::Approved, ..old(self).assets@[i] };
                    &&& r is Ok
                    &&& r->Ok_0.same(p)
                    &&& final(self).assets@ == old(self).assets@.update(i, p)
                    &&& final(self).next_asset_id == old(self).next_asset_id
                    &&& final(self).same_but_assets(*old(self))
                    &&& emitted(old(self).notifications@, old(self).next_notification_id,
                        final(self).notifications@, final(self).next_notification_id,
                        old(self).assets@[i].owner_id@, NotificationType::Admin,
                        asset_approved_text(old(self).assets@[i].name@), now)
                },
    {
        if !self.is_admin(caller) {
            return Err(LedgerError::Unauthorized);
        }
        let i = match self.find_asset(id) {
            Some(i) => i,
            None => { return Err(LedgerError::NotFound); },
        };
        proof {
            assert forall|j: int| #[trigger] old(self).asset_at(id, j) implies j == i by {
                old(self).lemma_asset_unique(id, i as int, j);
            }
        }
        if self.assets[i].status != AssetStatus::Pending {
            return Err(LedgerError::InvariantViolation);
        }
        let mut a = self.assets.remove(i);
        a.status = AssetStatus::Approved;
        let out = a.copy();
        let owner = a.owner_id.copy();
        let message = asset_approved_message(&a.name);
        self.assets.insert(i, a);
        proof {
            assert(self.assets@ =~= old(self).assets@.update(i as int, self.assets@[i as int]));
            self.lemma_asset_replaced_keeps_wf(*old(self), i as int);
        }
        self.notify(&owner, NotificationType::Admin, message, now);
        Ok(out)
    }

    /// Some token lot refers to asset `id`.
    pub open spec fn asset_in_use(self, id: u64) -> bool {
        exists|k: int| 0 <= k < self.tokens@.len() && (#[trigger] self.tokens@[k]).asset_id == id
    }

    fn any_token_of(&self, id: u64) -> (r: bool)
        ensures
            r == self.asset_in_use(id),
    {
        let mut k: usize = 0;
        while k < self.tokens.len()
            invariant
                k <= self.tokens@.len(),
                forall|j: int| 0 <= j < k ==> (#[trigger] self.tokens@[j]).asset_id != id,
            decreases self.tokens@.len() - k,
        {
            if self.tokens[k].asset_id == id {
                return true;
            }
            k = k + 1;
        }
        false
    }

    /// Removes asset `id`. Only its owner or an administrator may, and only
    /// while no token lot refers to it.
    pub fn delete_asset(&mut self, caller: &Principal, id: u64) -> (r: Result<(), LedgerError>)
        requires
            old(self).wf(),
        ensures
            final(self).wf(),
            r is Err ==> *final(self) == *old(self),
            !old(self).has_asset(id) ==> r == Err::<(), LedgerError>(LedgerError::NotFound),
            forall|i: int|
                #[trigger] old(self).asset_at(id, i) ==> {
                    &&& !old(self).may_manage_asset(caller@, i) ==> r == Err::<(), LedgerError>(
                        LedgerError::Unauthorized,
                    )
                    &&& old(self).may_manage_asset(caller@, i) && old(self).asset_in_use(id) ==> r
                        == Err::<(), LedgerError>(LedgerError::InvariantViolation)
                    &&& old(self).may_manage_asset(caller@, i) && !old(self).asset_in_use(id) ==> {
                        &&& r is Ok
                        &&& final(self).assets@ == old(self).assets@.remove(i)
                        &&& final(self).next_asset_id == old(self).next_asset_id
                        &&& final(self).same_but_assets(*old(self))
                        &&& final(self).notifications@ == old(self).notifications@
                        &&& final(self).next_notification_id == old(self).next_notification_id
                    }
                },
    {
        let i = match self.find_asset(id) {
            Some(i) => i,
            None => { return Err(LedgerError::NotFound); },
        };
        proof {
            assert forall|j: int| #[trigger] old(self).asset_at(id, j) implies j == i by {
                old(self).lemma_asset_unique(id, i as int, j);
            }
        }
        if !(self.assets[i].owner_id.same_as(caller) || self.is_admin(caller)) {
            return Err(LedgerError::Unauthorized);
        }
        if self.any_token_of(id) {
            return Err(LedgerError::InvariantViolation);
        }
        self.assets.remove(i);
        proof {
            let pre = *old(self);
            assert forall|a: int, b: int|
                0 <= a < b < self.assets@.len() implies #[trigger] self.assets@[a].id
                    < #[trigger] self.assets@[b].id by {
                let a2 = if a < i { a } else { a + 1 };
                let b2 = if b < i { b } else { b + 1 };
                assert(pre.assets@[a2].id < pre.assets@[b2].id);
            }
            assert forall|k: int| 0 <= k < self.tokens@.len() implies self.has_asset(
                (#[trigger] self.tokens@[k]).asset_id) by {
                let t = self.tokens@[k];
                assert(pre.has_asset(t.asset_id));
                let w = choose|w: int| 0 <= w < pre.assets@.len() && (#[trigger] pre.assets@[w]).id == t.asset_id;
                assert(w != i);
                let w2 = if w < i { w } else { w - 1 };
                assert(self.assets@[w2] == pre.assets@[w]);
            }
            assert forall|k: int| 0 <= k < self.assets@.len() implies (#[trigger] self.assets@[k]).id < self.next_asset_id
                && self.assets@[k].available_tokens <= self.assets@[k].total_tokens by {
                let k2 = if k < i { k } else { k + 1 };
                assert(self.assets@[k] == pre.assets@[k2]);
            }
        }
        Ok(())
    }

    /// Putting at `i` an asset with the same identifier and no more available
    /// than total supply keeps the invariant.
    pub(crate) proof fn lemma_asset_replaced_keeps_wf(self, pre: Ledger, i: int)
        requires
            pre.wf(),
            0 <= i < pre.assets@.len(),
            self.assets@ == pre.assets@.update(i, self.assets@[i]),
            self.assets@[i].id == pre.assets@[i].id,
            self.assets@[i].available_tokens <= self.assets@[i].total_tokens,
            lots_of(self.tokens@, self.assets@[i].id) + self.assets@[i].available_tokens
                <= self.assets@[i].total_tokens,
            self.same_but_assets(pre),
            self.next_asset_id == pre.next_asset_id,
            self.notifications@ == pre.notifications@,
            self.next_notification_id == pre.next_notification_id,
        ensures
            self.wf(),
    {
        assert forall|a: int, b: int|
            0 <= a < b < self.assets@.len() implies #[trigger] self.assets@[a].id
                < #[trigger] self.assets@[b].id by {
            assert(pre.assets@[a].id < pre.assets@[b].id);
        }
        assert forall|k: int| 0 <= k < self.tokens@.len() implies self.has_asset(
            (#[trigger] self.tokens@[k]).asset_id) by {
            let t = self.tokens@[k];
            assert(pre.has_asset(t.asset_id));
            let w = choose|w: int| 0 <= w < pre.assets@.len() && (#[trigger] pre.assets@[w]).id == t.asset_id;
            assert(self.assets@[w].id == t.asset_id);
        }
        assert forall|k: int| 0 <= k < self.assets@.len() implies (#[trigger] self.assets@[k]).id < self.next_asset_id
            && self.assets@[k].available_tokens <= self.assets@[k].total_tokens
            && lots_of(self.tokens@, self.assets@[k].id) + self.assets@[k].available_tokens
                <= self.assets@[k].total_tokens by {
            if k != i {
                assert(self.assets@[k] == pre.assets@[k]);
            }
        }
    }
}

} // verus!
