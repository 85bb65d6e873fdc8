use vstd::prelude::*;
use crate::identity::Principal;
use crate::ledger::{Ledger, LedgerError, emitted};
use crate::user::{KycStatus, UserRole};
use crate::trade::TradeStatus;

verus! {

#[derive(Clone, Copy, Debug, PartialEq, Eq, Structural)]
pub enum NotificationType {
    Trade,
    Investment,
    Kyc,
    Admin,
    Other,
}

/// A message recorded for one identity.
#[derive(Clone, Debug)]
pub struct Notification {
    pub id: u64,
    pub user_id: Principal,
    pub notification_type: NotificationType,
    pub message: String,
    pub read: bool,
    pub created_at: u64,
}

impl Notification {
    pub fn copy(&self) -> (r: Notification)
        ensures
            r == *self,
    {
        Notification {
            id: self.id,
            user_id: self.user_id.copy(),
            notification_type: self.notification_type,
            message: self.message.clone(),
            read: self.read,
            created_at: self.created_at,
        }
    }
}

impl Ledger {
    /// The notification with identifier `id` stands at `i`.
    pub open spec fn notification_at(self, id: u64, i: int) -> bool {
        0 <= i < self.notifications@.len() && self.notifications@[i].id == id
    }

    pub open spec fn has_notification(self, id: u64) -> bool {
        exists|i: int| 0 <= i < self.notifications@.len() && (#[trigger] self.notifications@[i]).id == id
    }

    /// The index of the notification with identifier `id`, if any.
    fn find_notification(&self, id: u64) -> (r: Option<usize>)
        requires
            self.wf(),
        ensures
            match r {
                Some(i) => self.notification_at(id, i as int) && forall|j: int|
                    #[trigger] self.notification_at(id, j) ==> j == i,
                None => !self.has_notification(id),
            },
    {
        let mut i: usize = 0;
        while i < self.notifications.len()
            invariant
                self.wf(),
                i <= self.notifications@.len(),
                forall|k: int| 0 <= k < i ==> (#[trigger] self.notifications@[k]).id != id,
            decreases self.notifications@.len() - i,
        {
            if self.notifications[i].id == id {
                proof {
                    assert forall|j: int| #[trigger] self.notification_at(id, j) implies j == i by {
                        if j < i {
                            assert(self.notifications@[j].id < self.notifications@[i as int].id);
                        } else if i < j {
                            assert(self.notifications@[i as int].id < self.notifications@[j].id);
                        }
                    }
                }
                return Some(i);
            }
            i = i + 1;
        }
        None
    }

    /// Records an unread notification for `user_id` with the next identifier.
    /// `None`, changing nothing, once notification identifiers are exhausted.
    pub fn create_notification(
        &mut self,
        user_id: &Principal,
        notification_type: NotificationType,
        message: String,
        created_at: u64,
    ) -> (r: Option<Notification>)
        requires
            old(self).wf(),
        ensures
            final(self).wf(),
            final(self).same_records(*old(self)),
            emitted(old(self).notifications@, old(self).next_notification_id,
                final(self).notifications@, final(self).next_notification_id, user_id@,
                notification_type, message@, created_at),
            old(self).next_notification_id < u64::MAX ==> r == Some(final(self).notifications@.last()),
            old(self).next_notification_id == u64::MAX ==> r is None,
    {
        let had_room = self.next_notification_id < u64::MAX;
        self.notify(user_id, notification_type, message, created_at);
        if had_room {
            Some(self.notifications[self.notifications.len() - 1].copy())
        } else {
            None
        }
    }

    /// The notification with identifier `id`, if any.
    pub fn get_notification(&self, id: u64) -> (r: Option<Notification>)
        requires
            self.wf(),
        ensures
            match r {
                Some(n) => exists|i: int|
                    self.notification_at(id, i) && n == #[trigger] self.notifications@[i],
                None => !self.has_notification(id),
            },
    {
        match self.find_notification(id) {
            Some(i) => Some(self.notifications[i].copy()),
            None => None,
        }
    }

    /// The notifications of `user_id`, oldest first.
    pub fn list_notifications_by_user(&self, user_id: &Principal) -> (r: Vec<Notification>)
        ensures
            r@ == self.notifications@.filter(|n: Notification| n.user_id@ == user_id@),
    {
        let ghost pred = |n: Notification| n.user_id@ == user_id@;
        let mut out: Vec<Notification> = Vec::new();
        let mut i: usize = 0;
        while i < self.notifications.len()
            invariant
                i <= self.notifications@.len(),
                out@ == self.notifications@.take(i as int).filter(pred),
                pred == (|n: Notification| n.user_id@ == user_id@),
            decreases self.notifications@.len() - i,
        {
            proof {
                let s = self.notifications@.take(i + 1);
                reveal(Seq::filter);
                assert(s.drop_last() =~= self.notifications@.take(i as int));
            }
            if self.notifications[i].user_id.same_as(user_id) {
                out.push(self.notifications[i].copy());
            }
            i = i + 1;
        }
        assert(self.notifications@.take(i as int) =~= self.notifications@);
        out
    }

    /// Every notification, for an administrator; nothing for anyone else.
    pub fn list_all_notifications(&self, caller: &Principal) -> (r: Vec<Notification>)
        ensures
            self.admin(caller@) ==> r@ == self.notifications@,
            !self.admin(caller@) ==> r@.len() == 0,
    {
        let mut out: Vec<Notification> = Vec::new();
        if !self.is_admin(caller) {
            return out;
        }
        let mut i: usize = 0;
        while i < self.notifications.len()
            invariant
                i <= self.notifications@.len(),
                out@ == self.notifications@.take(i as int),
            decreases self.notifications@.len() - i,
        {
            out.push(self.notifications[i].copy());
            i = i + 1;
            assert(out@ =~= self.notifications@.take(i as int));
        }
        assert(out@ =~= self.notifications@);
        out
    }

    /// Marks notification `id` as read. Only its recipient or an administrator
    /// may.
    pub fn mark_notification_read(&mut self, caller: &Principal, id: u64) -> (r: Result<
        Notification,
        LedgerError,
    >)
        requires
            old(self).wf(),
        ensures
            final(self).wf(),
            r is Err ==> *final(self) == *old(self),
            !old(self).has_notification(id) ==> r == Err::<Notification, LedgerError>(
                LedgerError::NotFound,
            ),
            forall|i: int|
                #[trigger] old(self).notification_at(id, i) ==> {
                    let n = old(self).notifications@[i];
                    let allowed = n.user_id@ == caller@ || old(self).admin(caller@);
                    &&& !allowed ==> r == Err::<Notification, LedgerError>(
                        LedgerError::Unauthorized,
                    )
                    &&& allowed ==> r == Ok::<Notification, LedgerError>(
                        Notification { read: true, ..n },
                    ) && final(self).notifications@ == old(self).notifications@.update(
                        i,
                        Notification { read: true, ..n },
                    ) && final(self).same_records(*old(self))
                        && final(self).next_notification_id == old(self).next_notification_id
                },
    {
        let i = match self.find_notification(id) {
            Some(i) => i,
            None => { return Err(LedgerError::NotFound); },
        };
        if !(self.notifications[i].user_id.same_as(caller) || self.is_admin(caller)) {
            return Err(LedgerError::Unauthorized);
        }
        let mut n = self.notifications.remove(i);
        n.read = true;
        let out = n.copy();
        self.notifications.insert(i, n);
        proof {
            let pre = *old(self);
            assert(self.notifications@ =~= pre.notifications@.update(i as int, out));
            assert forall|x: int, y: int|
                0 <= x < y < self.notifications@.len() implies #[trigger] self.notifications@[x].id
                    < #[trigger] self.notifications@[y].id by {
                assert(pre.notifications@[x].id < pre.notifications@[y].id);
            }
            assert forall|k: int| 0 <= k < self.notifications@.len() implies (#[trigger] self.notifications@[k]).id
                < self.next_notification_id by {
                assert(pre.notifications@[k].id < pre.next_notification_id);
            }
            assert forall|k: int| 0 <= k < self.tokens@.len() implies self.has_asset(
                (#[trigger] self.tokens@[k]).asset_id) by {
                assert(pre.has_asset(pre.tokens@[k].asset_id));
            }
        }
        Ok(out)
    }
}

} // verus!

verus! {

/// The text of the notice of a new KYC status, as `format!` renders it.
pub uninterp spec fn kyc_text(status: KycStatus) -> Seq<char>;

/// The text of the notice of a new role, as `format!` renders it.
pub uninterp spec fn role_text(role: UserRole) -> Seq<char>;

/// The text of the notice that the asset named `name` was approved.
pub uninterp spec fn asset_approved_text(name: Seq<char>) -> Seq<char>;

/// The text of the notice that a token lot was received.
pub uninterp spec fn token_received_text(token_id: u64, asset_id: u64) -> Seq<char>;

/// The text of the notice that a trade was opened.
pub uninterp spec fn trade_created_text(trade_id: u64, token_id: u64) -> Seq<char>;

/// The text of the notice that a trade changed status.
pub uninterp spec fn trade_status_text(trade_id: u64, status: TradeStatus) -> Seq<char>;

/// Relies on std's `format!` and the derived `Debug` of `KycStatus`: the text
/// depends on the status alone.
#[verifier::external_body]
pub(crate) fn kyc_message(status: KycStatus) -> (r: String)
    ensures
        r@ == kyc_text(status),
{
    format!("Your KYC status changed to {:?}", status)
}

/// Relies on std's `format!` and the derived `Debug` of `UserRole`: the text
/// depends on the role alone.
#[verifier::external_body]
pub(crate) fn role_message(role: UserRole) -> (r: String)
    ensures
        r@ == role_text(role),
{
    format!("Your role changed to {:?}", role)
}

/// Relies on std's `format!`: the text depends on the name alone.
#[verifier::external_body]
pub(crate) fn asset_approved_message(name: &String) -> (r: String)
    ensures
        r@ == asset_approved_text(name@),
{
    format!("Your asset '{}' has been approved", name)
}

/// Relies on std's `format!`: the text depends on the two numbers alone.
#[verifier::external_body]
pub(crate) fn token_received_message(token_id: u64, asset_id: u64) -> (r: String)
    ensures
        r@ == token_received_text(token_id, asset_id),
{
    format!("You received token #{} for asset #{}", token_id, asset_id)
}

/// Relies on std's `format!`: the text depends on the two numbers alone.
#[verifier::external_body]
pub(crate) fn trade_created_message(trade_id: u64, token_id: u64) -> (r: String)
    ensures
        r@ == trade_created_text(trade_id, token_id),
{
    format!("Trade #{} created for token #{}", trade_id, token_id)
}

/// Relies on std's `format!` and the derived `Debug` of `TradeStatus`: the
/// text depends on the number and the status alone.
#[verifier::external_body]
pub(crate) fn trade_status_message(trade_id: u64, status: TradeStatus) -> (r: String)
    ensures
        r@ == trade_status_text(trade_id, status),
{
    format!("Trade #{} status updated to {:?}", trade_id, status)
}

} // verus!
