use vstd::prelude::*;
use crate::identity::Principal;
use crate::user::{User, UserRole, KycStatus};
use crate::notification::{Notification, NotificationType};
use crate::asset::Asset;
use crate::token::Token;
use crate::trade::Trade;
use crate::portfolio::Portfolio;

verus! {

/// Why an operation was refused.
#[derive(Clone, Copy, Debug, PartialEq, Eq, Structural)]
pub enum LedgerError {
    /// The caller lacks the role or ownership the operation asks for.
    Unauthorized,
    /// A referenced record does not exist.
    NotFound,
    /// An identity that must be KYC-approved is not.
    PreconditionFailed,
    /// The operation would break a ledger invariant (supply, fill, consistency,
    /// exhausted identifiers).
    InvariantViolation,
    /// The trade already reached a terminal status.
    AlreadyFinalized,
}

/// The whole state: one insertion-ordered arena per kind of record, each
/// keyed by a unique identifier. The fields are open for reading; the
/// operations below keep `wf`, which each of them requires.
pub struct Ledger {
    pub users: Vec<User>,
    pub assets: Vec<Asset>,
    pub tokens: Vec<Token>,
    pub trades: Vec<Trade>,
    pub notifications: Vec<Notification>,
    pub portfolios: Vec<Portfolio>,
    pub next_asset_id: u64,
    pub next_token_id: u64,
    pub next_trade_id: u64,
    pub next_notification_id: u64,
}

/// An unread notification of kind `kind` for `who`, carrying `text`, is
/// appended to `pre` with the next identifier, as long as identifiers remain;
/// emission never blocks an operation, so once identifiers run out nothing
/// more is recorded.
pub open spec fn emitted(
    pre: Seq<Notification>,
    pre_next: u64,
    post: Seq<Notification>,
    post_next: u64,
    who: Seq<char>,
    kind: NotificationType,
    text: Seq<char>,
    now: u64,
) -> bool {
    if pre_next < u64::MAX {
        &&& post_next == pre_next + 1
        &&& post.len() == pre.len() + 1
        &&& post.take(pre.len() as int) == pre
        &&& post.last().id == pre_next
        &&& post.last().user_id@ == who
        &&& post.last().notification_type == kind
        &&& post.last().message@ == text
        &&& !post.last().read
        &&& post.last().created_at == now
    } else {
        post == pre && post_next == pre_next
    }
}

/// The number of tokens of asset `asset_id` held in the lots of `s`.
pub open spec fn lots_of(s: Seq<Token>, asset_id: u64) -> int
    decreases s.len(),
{
    if s.len() == 0 {
        0
    } else {
        lots_of(s.drop_last(), asset_id) + if s.last().asset_id == asset_id {
            s.last().amount as int
        } else {
            0
        }
    }
}

/// Lots of other assets count for nothing.
pub proof fn lemma_lots_of_absent(s: Seq<Token>, asset_id: u64)
    requires
        forall|k: int| 0 <= k < s.len() ==> (#[trigger] s[k]).asset_id != asset_id,
    ensures
        lots_of(s, asset_id) == 0,
    decreases s.len(),
{
    if s.len() > 0 {
        lemma_lots_of_absent(s.drop_last(), asset_id);
    }
}

/// Replacing a lot by one of the same asset and amount keeps every count.
pub proof fn lemma_lots_of_update(s: Seq<Token>, i: int, t: Token, asset_id: u64)
    requires
        0 <= i < s.len(),
        t.asset_id == s[i].asset_id,
        t.amount == s[i].amount,
    ensures
        lots_of(s.update(i, t), asset_id) == lots_of(s, asset_id),
    decreases s.len(),
{
    let u = s.update(i, t);
    if i < s.len() - 1 {
        assert(u.drop_last() =~= s.drop_last().update(i, t));
        lemma_lots_of_update(s.drop_last(), i, t, asset_id);
    } else {
        assert(u.drop_last() =~= s.drop_last());
    }
}

/// A prefix of the lots holds no more of an asset than all of them.
pub proof fn lemma_lots_of_prefix(s: Seq<Token>, k: int, asset_id: u64)
    requires
        0 <= k <= s.len(),
    ensures
        lots_of(s.take(k), asset_id) <= lots_of(s, asset_id),
    decreases s.len(),
{
    if k == s.len() {
        assert(s.take(k) =~= s);
    } else {
        assert(s.take(k) =~= s.drop_last().take(k));
        lemma_lots_of_prefix(s.drop_last(), k, asset_id);
    }
}

impl Ledger {
    pub open spec fn users_wf(self) -> bool {
        forall|i: int, j: int|
            0 <= i < self.users@.len() && 0 <= j < self.users@.len() && i != j
                ==> #[trigger] self.users@[i].id@ != #[trigger] self.users@[j].id@
    }

    pub open spec fn assets_wf(self) -> bool {
        &&& forall|i: int, j: int|
            0 <= i < j < self.assets@.len() ==> #[trigger] self.assets@[i].id
                < #[trigger] self.assets@[j].id
        &&& forall|i: int|
            0 <= i < self.assets@.len() ==> (#[trigger] self.assets@[i]).id < self.next_asset_id
        &&& forall|i: int|
            0 <= i < self.assets@.len() ==> (#[trigger] self.assets@[i]).available_tokens
                <= self.assets@[i].total_tokens
    }

    pub open spec fn tokens_wf(self) -> bool {
        &&& forall|i: int, j: int|
            0 <= i < j < self.tokens@.len() ==> #[trigger] self.tokens@[i].id
                < #[trigger] self.tokens@[j].id
        &&& forall|i: int|
            0 <= i < self.tokens@.len() ==> (#[trigger] self.tokens@[i]).id < self.next_token_id
        &&& forall|i: int|
            0 <= i < self.tokens@.len() ==> self.has_asset((#[trigger] self.tokens@[i]).asset_id)
        &&& forall|i: int|
            0 <= i < self.assets@.len() ==> lots_of(self.tokens@, (#[trigger] self.assets@[i]).id)
                + self.assets@[i].available_tokens <= self.assets@[i].total_tokens
    }

    pub open spec fn trades_wf(self) -> bool {
        &&& forall|i: int, j: int|
            0 <= i < j < self.trades@.len() ==> #[trigger] self.trades@[i].id
                < #[trigger] self.trades@[j].id
        &&& forall|i: int|
            0 <= i < self.trades@.len() ==> (#[trigger] self.trades@[i]).id < self.next_trade_id
        &&& forall|i: int|
            0 <= i < self.trades@.len() ==> (#[trigger] self.trades@[i]).filled
                <= self.trades@[i].quantity
    }

    pub open spec fn notifications_wf(self) -> bool {
        &&& forall|i: int, j: int|
            0 <= i < j < self.notifications@.len() ==> #[trigger] self.notifications@[i].id
                < #[trigger] self.notifications@[j].id
        &&& forall|i: int|
            0 <= i < self.notifications@.len() ==> (#[trigger] self.notifications@[i]).id
                < self.next_notification_id
    }

    pub open spec fn portfolios_wf(self) -> bool {
        forall|i: int, j: int|
            0 <= i < self.portfolios@.len() && 0 <= j < self.portfolios@.len() && i != j
                ==> #[trigger] self.portfolios@[i].user_id@
                != #[trigger] self.portfolios@[j].user_id@
    }

    /// The ledger's invariant: identifiers are unique (each arena is ordered by
    /// strictly increasing id, below the next id to hand out), no asset has more
    /// available than total supply, every token lot refers to an existing asset,
    /// the lots of each asset together with its available supply stay within
    /// its total supply,
    /// and no trade has filled more than its quantity.
    pub open spec fn wf(self) -> bool {
        &&& self.users_wf()
        &&& self.assets_wf()
        &&& self.tokens_wf()
        &&& self.trades_wf()
        &&& self.notifications_wf()
        &&& self.portfolios_wf()
    }

    pub open spec fn has_asset(self, id: u64) -> bool {
        exists|i: int| 0 <= i < self.assets@.len() && (#[trigger] self.assets@[i]).id == id
    }

    /// `p` is a registered administrator.
    pub open spec fn admin(self, p: Seq<char>) -> bool {
        exists|i: int|
            0 <= i < self.users@.len() && (#[trigger] self.users@[i]).id@ == p
                && self.users@[i].role == UserRole::Admin
    }

    /// `p` is a registered user whose KYC is approved.
    pub open spec fn kyc_approved(self, p: Seq<char>) -> bool {
        exists|i: int|
            0 <= i < self.users@.len() && (#[trigger] self.users@[i]).id@ == p
                && self.users@[i].kyc_status == KycStatus::Approved
    }

    /// Everything but the notification log is the same in `self` and `o`.
    pub open spec fn same_records(self, o: Ledger) -> bool {
        &&& self.users@ == o.users@
        &&& self.assets@ == o.assets@
        &&& self.tokens@ == o.tokens@
        &&& self.trades@ == o.trades@
        &&& self.portfolios@ == o.portfolios@
        &&& self.next_asset_id == o.next_asset_id
        &&& self.next_token_id == o.next_token_id
        &&& self.next_trade_id == o.next_trade_id
    }

    /// Everything but the users and the notification log is the same.
    pub open spec fn same_but_users(self, o: Ledger) -> bool {
        &&& self.assets@ == o.assets@
        &&& self.tokens@ == o.tokens@
        &&& self.trades@ == o.trades@
        &&& self.portfolios@ == o.portfolios@
        &&& self.next_asset_id == o.next_asset_id
        &&& self.next_token_id == o.next_token_id
        &&& self.next_trade_id == o.next_trade_id
    }

    /// Everything but the assets and the notification log is the same.
    pub open spec fn same_but_assets(self, o: Ledger) -> bool {
        &&& self.users@ == o.users@
        &&& self.tokens@ == o.tokens@
        &&& self.trades@ == o.trades@
        &&& self.portfolios@ == o.portfolios@
        &&& self.next_token_id == o.next_token_id
        &&& self.next_trade_id == o.next_trade_id
    }

    /// Everything but the tokens and the notification log is the same.
    pub open spec fn same_but_tokens(self, o: Ledger) -> bool {
        &&& self.users@ == o.users@
        &&& self.assets@ == o.assets@
        &&& self.trades@ == o.trades@
        &&& self.portfolios@ == o.portfolios@
        &&& self.next_asset_id == o.next_asset_id
        &&& self.next_trade_id == o.next_trade_id
    }

    /// Everything but the assets, the tokens and the notification log is the same.
    pub open spec fn same_but_assets_tokens(self, o: Ledger) -> bool {
        &&& self.users@ == o.users@
        &&& self.trades@ == o.trades@
        &&& self.portfolios@ == o.portfolios@
        &&& self.next_trade_id == o.next_trade_id
    }

    /// Everything but the trades, the tokens and the notification log is the same.
    pub open spec fn same_but_trades_tokens(self, o: Ledger) -> bool {
        &&& self.users@ == o.users@
        &&& self.assets@ == o.assets@
        &&& self.portfolios@ == o.portfolios@
        &&& self.next_asset_id == o.next_asset_id
    }

    /// Everything but the portfolios and the notification log is the same.
    pub open spec fn same_but_portfolios(self, o: Ledger) -> bool {
        &&& self.users@ == o.users@
        &&& self.assets@ == o.assets@
        &&& self.tokens@ == o.tokens@
        &&& self.trades@ == o.trades@
        &&& self.next_asset_id == o.next_asset_id
        &&& self.next_token_id == o.next_token_id
        &&& self.next_trade_id == o.next_trade_id
    }

    /// The position of the asset with identifier `id`, if there is one.
    pub open spec fn asset_at(self, id: u64, i: int) -> bool {
        0 <= i < self.assets@.len() && self.assets@[i].id == id
    }

    /// `p` owns the asset at `i` or is an administrator.
    pub open spec fn may_manage_asset(self, p: Seq<char>, i: int) -> bool {
        self.assets@[i].owner_id@ == p || self.admin(p)
    }

    /// An empty ledger whose one user, `admin`, is an approved administrator.
    pub fn new(admin: Principal) -> (r: Ledger)
        ensures
            r.wf(),
            r.users@.len() == 1,
            r.users@[0].id == admin,
            r.users@[0].role == UserRole::Admin,
            r.users@[0].kyc_status == KycStatus::Approved,
            r.assets@.len() == 0,
            r.tokens@.len() == 0,
            r.trades@.len() == 0,
            r.notifications@.len() == 0,
            r.portfolios@.len() == 0,
            r.next_asset_id == 1,
            r.next_token_id == 1,
            r.next_trade_id == 1,
            r.next_notification_id == 1,
    {
        let mut users: Vec<User> = Vec::new();
        users.push(
            User {
                id: admin,
                username: String::new(),
                email: String::new(),
                wallet_address: String::new(),
                kyc_status: KycStatus::Approved,
                role: UserRole::Admin,
                profile: None,
            },
        );
        Ledger {
            users,
            assets: Vec::new(),
            tokens: Vec::new(),
            trades: Vec::new(),
            notifications: Vec::new(),
            portfolios: Vec::new(),
            next_asset_id: 1,
            next_token_id: 1,
            next_trade_id: 1,
            next_notification_id: 1,
        }
    }

    /// How many tokens of asset `asset_id`, which stands at `i`, the lots hold.
    pub(crate) fn minted_of(&self, asset_id: u64, i: usize) -> (r: u64)
        requires
            self.wf(),
            i < self.assets@.len(),
            self.assets@[i as int].id == asset_id,
        ensures
            r == lots_of(self.tokens@, asset_id),
    {
        let mut sum: u64 = 0;
        let mut k: usize = 0;
        proof {
            assert(self.tokens@.take(0) =~= Seq::<Token>::empty());
        }
        while k < self.tokens.len()
            invariant
                self.wf(),
                i < self.assets@.len(),
                self.assets@[i as int].id == asset_id,
                k <= self.tokens@.len(),
                sum == lots_of(self.tokens@.take(k as int), asset_id),
            decreases self.tokens@.len() - k,
        {
            proof {
                let s = self.tokens@.take(k + 1);
                assert(s.drop_last() =~= self.tokens@.take(k as int));
                lemma_lots_of_prefix(self.tokens@, k + 1, asset_id);
                assert(lots_of(self.tokens@, self.assets@[i as int].id)
                    + self.assets@[i as int].available_tokens <= self.assets@[i as int].total_tokens);
            }
            if self.tokens[k].asset_id == asset_id {
                sum = sum + self.tokens[k].amount;
            }
            k = k + 1;
        }
        proof {
            assert(self.tokens@.take(k as int) =~= self.tokens@);
        }
        sum
    }

    /// Whether `p` is a registered administrator.
    pub fn is_admin(&self, p: &Principal) -> (r: bool)
        ensures
            r == self.admin(p@),
    {
        let mut i: usize = 0;
        while i < self.users.len()
            invariant
                i <= self.users@.len(),
                forall|k: int|
                    0 <= k < i ==> !((#[trigger] self.users@[k]).id@ == p@ && self.users@[k].role
                        == UserRole::Admin),
            decreases self.users@.len() - i,
        {
            if self.users[i].id.same_as(p) && self.users[i].role == UserRole::Admin {
                return true;
            }
            i = i + 1;
        }
        false
    }

    /// Whether `p` is a registered user whose KYC is approved.
    pub fn is_kyc_approved(&self, p: &Principal) -> (r: bool)
        ensures
            r == self.kyc_approved(p@),
    {
        let mut i: usize = 0;
        while i < self.users.len()
            invariant
                i <= self.users@.len(),
                forall|k: int|
                    0 <= k < i ==> !((#[trigger] self.users@[k]).id@ == p@
                        && self.users@[k].kyc_status == KycStatus::Approved),
            decreases self.users@.len() - i,
        {
            if self.users[i].id.same_as(p) && self.users[i].kyc_status == KycStatus::Approved {
                return true;
            }
            i = i + 1;
        }
        false
    }

    /// Appends a notification for `who`, unless notification identifiers are
    /// exhausted, in which case the log is left as it is.
    pub(crate) fn notify(
        &mut self,
        who: &Principal,
        kind: NotificationType,
        message: String,
        now: u64,
    )
        requires
            old(self).wf(),
        ensures
            final(self).wf(),
            final(self).same_records(*old(self)),
            emitted(
                old(self).notifications@,
                old(self).next_notification_id,
                final(self).notifications@,
                final(self).next_notification_id,
                who@,
                kind,
                message@,
                now,
            ),
    {
        if self.next_notification_id < u64::MAX {
            let n = Notification {
                id: self.next_notification_id,
                user_id: who.copy(),
                notification_type: kind,
                message,
                read: false,
                created_at: now,
            };
            self.notifications.push(n);
            self.next_notification_id = self.next_notification_id + 1;
            assert(self.notifications@.take(old(self).notifications@.len() as int)
                =~= old(self).notifications@);
        }
    }
}

} // verus!
