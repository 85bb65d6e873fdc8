use vstd::prelude::*;
use crate::identity::Principal;
use crate::ledger::{Ledger, LedgerError, emitted};
use crate::notification::{NotificationType, kyc_message, role_message, kyc_text, role_text};

verus! {

#[derive(Clone, Copy, Debug, PartialEq, Eq, Structural)]
pub enum KycStatus {
    Pending,
    Approved,
    Rejected,
}

#[derive(Clone, Copy, Debug, PartialEq, Eq, Structural)]
pub enum UserRole {
    User,
    Admin,
}

#[derive(Clone, Debug)]
pub struct UserProfile {
    pub bio: Option<String>,
    pub avatar: Option<String>,
}

/// A registered identity with its KYC status and role.
#[derive(Clone, Debug)]
pub struct User {
    pub id: Principal,
    pub username: String,
    pub email: String,
    pub wallet_address: String,
    pub kyc_status: KycStatus,
    pub role: UserRole,
    pub profile: Option<UserProfile>,
}

impl UserProfile {
    pub fn copy(&self) -> (r: UserProfile)
        ensures
            r == *self,
    {
        UserProfile { bio: self.bio.clone(), avatar: self.avatar.clone() }
    }
}

impl User {
    pub fn copy(&self) -> (r: User)
        ensures
            r == *self,
    {
        let profile = match &self.profile {
            Some(p) => Some(p.copy()),
            None => None,
        };
        User {
            id: self.id.copy(),
            username: self.username.clone(),
            email: self.email.clone(),
            wallet_address: self.wallet_address.clone(),
            kyc_status: self.kyc_status,
            role: self.role,
            profile,
        }
    }
}

impl Ledger {
    /// The index of the user registered as `p`, if any.
    pub(crate) fn find_user(&self, p: &Principal) -> (r: Option<usize>)
        ensures
            match r {
                Some(i) => i < self.users@.len() && self.users@[i as int].id@ == p@,
                None => forall|k: int|
                    0 <= k < self.users@.len() ==> (#[trigger] self.users@[k]).id@ != p@,
            },
    {
        let mut i: usize = 0;
        while i < self.users.len()
            invariant
                i <= self.users@.len(),
                forall|k: int| 0 <= k < i ==> (#[trigger] self.users@[k]).id@ != p@,
            decreases self.users@.len() - i,
        {
            if self.users[i].id.same_as(p) {
                return Some(i);
            }
            i = i + 1;
        }
        None
    }

    /// Registers `caller` as a regular user with KYC pending. Fails with `None`,
    /// changing nothing, when `caller` is already registered.
    pub fn register_user(
        &mut self,
        caller: &Principal,
        username: String,
        email: String,
        wallet_address: String,
    ) -> (r: Option<User>)
        requires
            old(self).wf(),
        ensures
            final(self).wf(),
            (exists|i: int| 0 <= i < old(self).users@.len() && (#[trigger] old(self).users@[i]).id@ == caller@)
                ==> r is None && *final(self) == *old(self),
            (forall|i: int| 0 <= i < old(self).users@.len() ==> (#[trigger] old(self).users@[i]).id@ != caller@)
                ==> r == Some(
                (User {
                    id: *caller,
                    username,
                    email,
                    wallet_address,
                    kyc_status: KycStatus::Pending,
                    role: UserRole::User,
                    profile: None,
                }),
            ) && final(self).users@ == old(self).users@.push(r->Some_0)
                && final(self).same_but_users(*old(self))
                && final(self).notifications@ == old(self).notifications@
                && final(self).next_notification_id == old(self).next_notification_id,
    {
        match self.find_user(caller) {
            Some(_) => None,
            None => {
                let user = User {
                    id: caller.copy(),
                    username,
                    email,
                    wallet_address,
                    kyc_status: KycStatus::Pending,
                    role: UserRole::User,
                    profile: None,
                };
                let out = user.copy();
                self.users.push(user);
                proof {
                    assert forall|x: int, y: int|
                        0 <= x < self.users@.len() && 0 <= y < self.users@.len() && x != y
                            implies #[trigger] self.users@[x].id@ != #[trigger] self.users@[y].id@ by {
                        if x < old(self).users@.len() && y < old(self).users@.len() {
                            assert(old(self).users@[x].id@ != old(self).users@[y].id@);
                        }
                    }
                    self.lemma_other_records_keep_wf(*old(self));
                }
                Some(out)
            },
        }
    }

    /// The user registered as `p`, if any.
    pub fn get_user(&self, p: &Principal) -> (r: Option<User>)
        ensures
            match r {
                Some(u) => exists|i: int|
                    0 <= i < self.users@.len() && #[trigger] self.users@[i] == u && u.id@ == p@,
                None => forall|i: int|
                    0 <= i < self.users@.len() ==> (#[trigger] self.users@[i]).id@ != p@,
            },
    {
        match self.find_user(p) {
            Some(i) => Some(self.users[i].copy()),
            None => None,
        }
    }

    /// Replaces the profile of the calling user. `None`, changing nothing, when
    /// `caller` is not registered.
    pub fn update_profile(
        &mut self,
        caller: &Principal,
        bio: Option<String>,
        avatar: Option<String>,
    ) -> (r: Option<User>)
        requires
            old(self).wf(),
        ensures
            final(self).wf(),
            match r {
                None => *final(self) == *old(self) && forall|i: int|
                    0 <= i < old(self).users@.len() ==> (#[trigger] old(self).users@[i]).id@
                        != caller@,
                Some(u) => exists|i: int|
                    0 <= i < old(self).users@.len() && (#[trigger] old(self).users@[i]).id@
                        == caller@ && u == (User {
                        profile: Some(UserProfile { bio, avatar }),
                        ..old(self).users@[i]
                    }) && final(self).users@ == old(self).users@.update(i, u)
                        && final(self).same_but_users(*old(self)),
            },
    {
        match self.find_user(caller) {
            None => None,
            Some(i) => {
                let mut u = self.users[i].copy();
                u.profile = Some(UserProfile { bio, avatar });
                let out = u.copy();
                self.users.set(i, u);
                proof { self.lemma_users_update_keeps_wf(*old(self), i as int); }
                Some(out)
            },
        }
    }

    /// Sets the KYC status of `user_id`. Only an administrator may; the user is
    /// notified.
    pub fn set_kyc_status(
        &mut self,
        caller: &Principal,
        user_id: &Principal,
        status: KycStatus,
        now: u64,
    ) -> (r: Result<User, LedgerError>)
        requires
            old(self).wf(),
        ensures
            final(self).wf(),
            !old(self).admin(caller@) ==> r == Err::<User, LedgerError>(LedgerError::Unauthorized)
                && *final(self) == *old(self),
            old(self).admin(caller@) && (forall|i: int|
                0 <= i < old(self).users@.len() ==> (#[trigger] old(self).users@[i]).id@
                    != user_id@) ==> r == Err::<User, LedgerError>(LedgerError::NotFound)
                && *final(self) == *old(self),
            r is Ok ==> exists|i: int|
                0 <= i < old(self).users@.len() && (#[trigger] old(self).users@[i]).id@
                    == user_id@ && r->Ok_0 == (User { kyc_status: status, ..old(self).users@[i] })
                    && final(self).users@ == old(self).users@.update(i, r->Ok_0)
                    && final(self).same_but_users(*old(self))
                    && emitted(old(self).notifications@, old(self).next_notification_id,
                        final(self).notifications@, final(self).next_notification_id,
                        user_id@, NotificationType::Kyc, kyc_text(status), now),
            old(self).admin(caller@) && (exists|i: int|
                0 <= i < old(self).users@.len() && (#[trigger] old(self).users@[i]).id@
                    == user_id@) ==> r is Ok,
    {
        if !self.is_admin(caller) {
            return Err(LedgerError::Unauthorized);
        }
        match self.find_user(user_id) {
            None => Err(LedgerError::NotFound),
            Some(i) => {
                let mut u = self.users[i].copy();
                u.kyc_status = status;
                let out = u.copy();
                self.users.set(i, u);
                proof { self.lemma_users_update_keeps_wf(*old(self), i as int); }
                self.notify(user_id, NotificationType::Kyc, kyc_message(status), now);
                Ok(out)
            },
        }
    }

    /// Sets the role of `user_id`. Only an administrator may; the user is
    /// notified.
    pub fn set_user_role(
        &mut self,
        caller: &Principal,
        user_id: &Principal,
        role: UserRole,
        now: u64,
    ) -> (r: Result<User, LedgerError>)
        requires
            old(self).wf(),
        ensures
            final(self).wf(),
            !old(self).admin(caller@) ==> r == Err::<User, LedgerError>(LedgerError::Unauthorized)
                && *final(self) == *old(self),
            old(self).admin(caller@) && (forall|i: int|
                0 <= i < old(self).users@.len() ==> (#[trigger] old(self).users@[i]).id@
                    != user_id@) ==> r == Err::<User, LedgerError>(LedgerError::NotFound)
                && *final(self) == *old(self),
            r is Ok ==> exists|i: int|
                0 <= i < old(self).users@.len() && (#[trigger] old(self).users@[i]).id@
                    == user_id@ && r->Ok_0 == (User { role, ..old(self).users@[i] })
                    && final(self).users@ == old(self).users@.update(i, r->Ok_0)
                    && final(self).same_but_users(*old(self))
                    && emitted(old(self).notifications@, old(self).next_notification_id,
                        final(self).notifications@, final(self).next_notification_id,
                        user_id@, NotificationType::Admin, role_text(role), now),
            old(self).admin(caller@) && (exists|i: int|
                0 <= i < old(self).users@.len() && (#[trigger] old(self).users@[i]).id@
                    == user_id@) ==> r is Ok,
    {
        if !self.is_admin(caller) {
            return Err(LedgerError::Unauthorized);
        }
        match self.find_user(user_id) {
            None => Err(LedgerError::NotFound),
            Some(i) => {
                let mut u = self.users[i].copy();
                u.role = role;
                let out = u.copy();
                self.users.set(i, u);
                proof { self.lemma_users_update_keeps_wf(*old(self), i as int); }
                self.notify(user_id, NotificationType::Admin, role_message(role), now);
                Ok(out)
            },
        }
    }

    /// All users, for an administrator; nothing for anyone else.
    pub fn list_users(&self, caller: &Principal) -> (r: Vec<User>)
        ensures
            self.admin(caller@) ==> r@ == self.users@,
            !self.admin(caller@) ==> r@.len() == 0,
    {
        let mut out: Vec<User> = Vec::new();
        if !self.is_admin(caller) {
            return out;
        }
        let mut i: usize = 0;
        while i < self.users.len()
            invariant
                i <= self.users@.len(),
                out@ == self.users@.take(i as int),
            decreases self.users@.len() - i,
        {
            out.push(self.users[i].copy());
            i = i + 1;
            assert(out@ =~= self.users@.take(i as int));
        }
        assert(out@ =~= self.users@);
        out
    }

    /// Replacing user `i` by one with the same identity keeps the invariant.
    pub(crate) proof fn lemma_users_update_keeps_wf(self, pre: Ledger, i: int)
        requires
            pre.wf(),
            0 <= i < pre.users@.len(),
            self.users@.len() == pre.users@.len(),
            self.users@[i].id == pre.users@[i].id,
            forall|k: int| 0 <= k < pre.users@.len() && k != i ==> #[trigger] self.users@[k] == pre.users@[k],
            self.same_but_users(pre),
            self.notifications@ == pre.notifications@,
            self.next_notification_id == pre.next_notification_id,
        ensures
            self.wf(),
    {
        assert forall|a: int, b: int|
            0 <= a < self.users@.len() && 0 <= b < self.users@.len() && a != b
                implies #[trigger] self.users@[a].id@ != #[trigger] self.users@[b].id@ by {
            assert(pre.users@[a].id@ != pre.users@[b].id@);
        }
        self.lemma_other_records_keep_wf(pre);
    }

    /// With its users well formed and everything else as in a well-formed
    /// ledger, a ledger is well formed.
    pub(crate) proof fn lemma_other_records_keep_wf(self, pre: Ledger)
        requires
            pre.wf(),
            self.users_wf(),
            self.same_but_users(pre),
            self.notifications@ == pre.notifications@,
            self.next_notification_id == pre.next_notification_id,
        ensures
            self.wf(),
    {
        assert forall|k: int| 0 <= k < self.tokens@.len() implies self.has_asset(
            (#[trigger] self.tokens@[k]).asset_id) by {
            assert(pre.has_asset(pre.tokens@[k].asset_id));
        }
    }
}

} // verus!
