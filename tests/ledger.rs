use rwa_backend::{
    Asset, AssetStatus, Currency, KeyMetrics, KycStatus, Ledger, LedgerError, NotificationType,
    Principal, TokenStatus, TradeStatus, UserRole,
};

fn who(text: &str) -> Principal {
    Principal::from_text(text.to_string())
}

fn admin() -> Principal {
    who("admin-aaaa")
}

/// A ledger whose administrator has registered and approved each of `names`.
fn ledger_with(names: &[&str]) -> Ledger {
    let mut l = Ledger::new(admin());
    for n in names {
        let p = who(n);
        assert!(l.register_user(&p, n.to_string(), format!("{}@mail", n), "w".to_string()).is_some());
        assert!(l.set_kyc_status(&admin(), &p, KycStatus::Approved, 5).is_ok());
    }
    l
}

fn new_asset(l: &mut Ledger, owner: &Principal, total: u64) -> Result<Asset, LedgerError> {
    l.create_asset(
        owner,
        "Tower".to_string(),
        "Office tower".to_string(),
        "real-estate".to_string(),
        "Pune".to_string(),
        vec!["img1".to_string()],
        vec![],
        1_000_000,
        10_000,
        total,
        (7.5f64).to_bits(),
        None,
        None,
        Some(500),
        Some("A".to_string()),
        None,
    )
}

fn no_update(l: &mut Ledger, caller: &Principal, id: u64, name: Option<String>, total: Option<u64>) -> Result<Asset, LedgerError> {
    l.update_asset(
        caller, id, name, None, None, None, None, None, None, None, total, None, None, None, None,
        None, None,
    )
}

fn supply_bounded(l: &Ledger) -> bool {
    l.list_assets().iter().all(|a| a.available_tokens <= a.total_tokens)
}

#[test]
fn new_ledger_has_an_approved_admin() {
    let l = Ledger::new(admin());
    assert!(l.is_admin(&admin()));
    assert!(l.is_kyc_approved(&admin()));
    assert!(!l.is_admin(&who("x")));
    assert!(l.list_assets().is_empty());
}

#[test]
fn register_twice_fails() {
    let mut l = Ledger::new(admin());
    let a = who("alice");
    let u = l.register_user(&a, "alice".to_string(), "a@x".to_string(), "w".to_string()).unwrap();
    assert_eq!(u.kyc_status, KycStatus::Pending);
    assert_eq!(u.role, UserRole::User);
    assert!(l.register_user(&a, "again".to_string(), "b@x".to_string(), "w".to_string()).is_none());
    assert_eq!(l.get_user(&a).unwrap().username, "alice");
}

#[test]
fn kyc_and_role_changes_need_admin() {
    let mut l = ledger_with(&["alice"]);
    let b = who("bob");
    l.register_user(&b, "bob".to_string(), "b@x".to_string(), "w".to_string());
    assert_eq!(l.set_kyc_status(&who("alice"), &b, KycStatus::Approved, 1).err(), Some(LedgerError::Unauthorized));
    assert_eq!(l.set_kyc_status(&admin(), &who("nobody"), KycStatus::Approved, 1).err(), Some(LedgerError::NotFound));
    let u = l.set_user_role(&admin(), &b, UserRole::Admin, 2).unwrap();
    assert_eq!(u.role, UserRole::Admin);
    assert!(l.is_admin(&b));
    assert!(l.list_users(&who("alice")).is_empty());
    assert_eq!(l.list_users(&admin()).len(), 3);
}

#[test]
fn create_asset_requires_kyc() {
    let mut l = Ledger::new(admin());
    let p = who("pending");
    l.register_user(&p, "p".to_string(), "p@x".to_string(), "w".to_string());
    assert_eq!(new_asset(&mut l, &p, 100).err(), Some(LedgerError::PreconditionFailed));
    assert!(l.list_assets().is_empty());
}

#[test]
fn create_asset_starts_pending_with_full_supply() {
    let mut l = ledger_with(&["alice"]);
    let a = new_asset(&mut l, &who("alice"), 100).unwrap();
    assert_eq!(a.id, 1);
    assert_eq!(a.status, AssetStatus::Pending);
    assert_eq!(a.available_tokens, 100);
    assert_eq!(a.total_tokens, 100);
    assert_eq!(f64::from_bits(a.apy_bits), 7.5);
    let b = new_asset(&mut l, &who("alice"), 5).unwrap();
    assert_eq!(b.id, 2);
    assert_eq!(l.get_asset(2).unwrap().total_tokens, 5);
    assert!(l.get_asset(3).is_none());
}

#[test]
fn approve_asset_is_admin_only_and_notifies_owner() {
    let mut l = ledger_with(&["alice"]);
    let a = new_asset(&mut l, &who("alice"), 100).unwrap();
    assert_eq!(l.approve_asset(&who("alice"), a.id, 9).err(), Some(LedgerError::Unauthorized));
    assert_eq!(l.approve_asset(&admin(), 77, 9).err(), Some(LedgerError::NotFound));
    let before = l.list_notifications_by_user(&who("alice")).len();
    let ok = l.approve_asset(&admin(), a.id, 9).unwrap();
    assert_eq!(ok.status, AssetStatus::Approved);
    let notes = l.list_notifications_by_user(&who("alice"));
    assert_eq!(notes.len(), before + 1);
    assert_eq!(notes[before].notification_type, NotificationType::Admin);
    assert_eq!(notes[before].created_at, 9);
    assert!(notes[before].message.contains("Tower"));
}

#[test]
fn update_asset_by_stranger_leaves_record_unchanged() {
    let mut l = ledger_with(&["alice", "mallory"]);
    let a = new_asset(&mut l, &who("alice"), 100).unwrap();
    let r = no_update(&mut l, &who("mallory"), a.id, Some("Mine".to_string()), None);
    assert_eq!(r.err(), Some(LedgerError::Unauthorized));
    let after = l.get_asset(a.id).unwrap();
    assert_eq!(format!("{:?}", after), format!("{:?}", a));
}

#[test]
fn update_asset_patches_given_fields_only() {
    let mut l = ledger_with(&["alice"]);
    let a = new_asset(&mut l, &who("alice"), 100).unwrap();
    let u = no_update(&mut l, &who("alice"), a.id, Some("Renamed".to_string()), None).unwrap();
    assert_eq!(u.name, "Renamed");
    assert_eq!(u.description, "Office tower");
    assert_eq!(u.images, vec!["img1".to_string()]);
    let by_admin = no_update(&mut l, &admin(), a.id, None, Some(150)).unwrap();
    assert_eq!(by_admin.total_tokens, 150);
    assert_eq!(by_admin.available_tokens, 100);
    assert_eq!(no_update(&mut l, &admin(), 42, None, None).err(), Some(LedgerError::NotFound));
}

#[test]
fn update_asset_keeps_issued_tokens_out_of_supply() {
    let mut l = ledger_with(&["alice"]);
    let al = who("alice");
    let a = new_asset(&mut l, &al, 100).unwrap();
    l.mint_token(&al, a.id, &al, 60, 1).unwrap();
    // 60 minted and 40 available: the total cannot drop below 100.
    let before = format!("{:?}", l.get_asset(a.id).unwrap());
    assert_eq!(no_update(&mut l, &al, a.id, None, Some(50)).err(), Some(LedgerError::InvariantViolation));
    assert_eq!(no_update(&mut l, &al, a.id, None, Some(99)).err(), Some(LedgerError::InvariantViolation));
    assert_eq!(format!("{:?}", l.get_asset(a.id).unwrap()), before);
    let u = no_update(&mut l, &al, a.id, None, Some(100)).unwrap();
    assert_eq!(u.total_tokens, 100);
    assert_eq!(u.available_tokens, 40);
    let up = no_update(&mut l, &al, a.id, None, Some(130)).unwrap();
    assert_eq!(up.total_tokens, 130);
    assert_eq!(up.available_tokens, 40);
    assert!(supply_bounded(&l));
}

#[test]
fn delete_asset_rules() {
    let mut l = ledger_with(&["alice", "bob"]);
    let al = who("alice");
    let a = new_asset(&mut l, &al, 100).unwrap();
    let b = new_asset(&mut l, &al, 10).unwrap();
    l.mint_token(&al, a.id, &al, 1, 1).unwrap();
    assert_eq!(l.delete_asset(&who("bob"), b.id), Err(LedgerError::Unauthorized));
    assert_eq!(l.delete_asset(&al, a.id), Err(LedgerError::InvariantViolation));
    assert_eq!(l.delete_asset(&al, 99), Err(LedgerError::NotFound));
    assert_eq!(l.delete_asset(&al, b.id), Ok(()));
    assert!(l.get_asset(b.id).is_none());
    assert_eq!(l.list_assets().len(), 1);
}

#[test]
fn mint_for_unapproved_caller_fails_without_record() {
    let mut l = ledger_with(&["alice"]);
    let a = new_asset(&mut l, &who("alice"), 100).unwrap();
    let p = who("pending");
    l.register_user(&p, "p".to_string(), "p@x".to_string(), "w".to_string());
    assert_eq!(l.mint_token(&p, a.id, &p, 10, 1).err(), Some(LedgerError::PreconditionFailed));
    assert!(l.list_tokens().is_empty());
    assert_eq!(l.get_asset(a.id).unwrap().available_tokens, 100);
}

#[test]
fn mint_checks_asset_and_supply() {
    let mut l = ledger_with(&["alice", "bob"]);
    let al = who("alice");
    let a = new_asset(&mut l, &al, 100).unwrap();
    assert_eq!(l.mint_token(&al, 99, &al, 1, 1).err(), Some(LedgerError::NotFound));
    assert_eq!(l.mint_token(&al, a.id, &al, 101, 1).err(), Some(LedgerError::InvariantViolation));
    let t = l.mint_token(&al, a.id, &who("bob"), 40, 3).unwrap();
    assert_eq!(t.id, 1);
    assert_eq!(t.owner_id.text, "bob");
    assert_eq!(t.status, TokenStatus::Available);
    assert_eq!(l.get_asset(a.id).unwrap().available_tokens, 60);
    assert_eq!(l.mint_token(&al, a.id, &al, 61, 1).err(), Some(LedgerError::InvariantViolation));
    l.mint_token(&al, a.id, &al, 60, 1).unwrap();
    assert_eq!(l.get_asset(a.id).unwrap().available_tokens, 0);
    assert_eq!(l.list_tokens_by_user(&who("bob")).len(), 1);
    assert_eq!(l.list_tokens_by_asset(a.id).len(), 2);
    assert!(l.list_tokens_by_asset(a.id + 1).is_empty());
    assert!(supply_bounded(&l));
}

#[test]
fn transfer_to_unapproved_identity_fails_and_keeps_owner() {
    let mut l = ledger_with(&["alice"]);
    let al = who("alice");
    let a = new_asset(&mut l, &al, 100).unwrap();
    let t = l.mint_token(&al, a.id, &al, 10, 1).unwrap();
    let p = who("pending");
    l.register_user(&p, "p".to_string(), "p@x".to_string(), "w".to_string());
    assert_eq!(l.transfer_token(&al, t.id, &p, 3).err(), Some(LedgerError::PreconditionFailed));
    let after = l.get_token(t.id).unwrap();
    assert_eq!(after.owner_id.text, "alice");
    assert_eq!(after.status, TokenStatus::Available);
}

#[test]
fn transfer_by_stranger_fails_and_keeps_record() {
    let mut l = ledger_with(&["alice", "bob", "mallory"]);
    let al = who("alice");
    let a = new_asset(&mut l, &al, 100).unwrap();
    let t = l.mint_token(&al, a.id, &al, 10, 1).unwrap();
    assert_eq!(l.transfer_token(&who("mallory"), t.id, &who("bob"), 3).err(), Some(LedgerError::Unauthorized));
    assert_eq!(format!("{:?}", l.get_token(t.id).unwrap()), format!("{:?}", t));
    assert_eq!(l.transfer_token(&al, 55, &who("bob"), 3).err(), Some(LedgerError::NotFound));
}

#[test]
fn transfer_moves_lot_and_notifies() {
    let mut l = ledger_with(&["alice", "bob"]);
    let al = who("alice");
    let a = new_asset(&mut l, &al, 100).unwrap();
    let t = l.mint_token(&al, a.id, &al, 10, 1).unwrap();
    let moved = l.transfer_token(&al, t.id, &who("bob"), 8).unwrap();
    assert_eq!(moved.owner_id.text, "bob");
    assert_eq!(moved.status, TokenStatus::Sold);
    let notes = l.list_notifications_by_user(&who("bob"));
    let last = notes.last().unwrap();
    assert_eq!(last.notification_type, NotificationType::Investment);
    assert!(last.message.contains(&format!("#{}", t.id)));
    let by_admin = l.transfer_token(&admin(), t.id, &al, 9).unwrap();
    assert_eq!(by_admin.owner_id.text, "alice");
}

#[test]
fn trade_with_unapproved_party_fails_without_record() {
    let mut l = ledger_with(&["alice"]);
    let al = who("alice");
    let a = new_asset(&mut l, &al, 100).unwrap();
    let t = l.mint_token(&al, a.id, &al, 10, 1).unwrap();
    let p = who("pending");
    l.register_user(&p, "p".to_string(), "p@x".to_string(), "w".to_string());
    assert_eq!(l.create_trade(&p, &al, t.id, a.id, 10, 5, Currency::USD, 1).err(), Some(LedgerError::PreconditionFailed));
    assert_eq!(l.create_trade(&al, &p, t.id, a.id, 10, 5, Currency::USD, 1).err(), Some(LedgerError::PreconditionFailed));
    assert!(l.list_trades().is_empty());
}

#[test]
fn trade_creation_checks_the_lot() {
    let mut l = ledger_with(&["alice", "bob"]);
    let al = who("alice");
    let b = who("bob");
    let a = new_asset(&mut l, &al, 100).unwrap();
    let t = l.mint_token(&al, a.id, &al, 10, 1).unwrap();
    assert_eq!(l.create_trade(&b, &al, 9, a.id, 10, 5, Currency::ICP, 1).err(), Some(LedgerError::NotFound));
    assert_eq!(l.create_trade(&b, &al, t.id, a.id + 1, 10, 5, Currency::ICP, 1).err(), Some(LedgerError::InvariantViolation));
    assert_eq!(l.create_trade(&al, &b, t.id, a.id, 10, 5, Currency::ICP, 1).err(), Some(LedgerError::InvariantViolation));
    let tr = l.create_trade(&b, &al, t.id, a.id, 10, 5, Currency::INR, 4).unwrap();
    assert_eq!(tr.status, TradeStatus::Pending);
    assert_eq!(tr.filled, 0);
    assert_eq!(tr.created_at, 4);
    assert_eq!(l.list_trades_by_user(&b).len(), 1);
    assert_eq!(l.list_trades_by_user(&al).len(), 1);
    assert!(l.list_trades_by_user(&admin()).is_empty());
    assert_eq!(l.list_trades_by_asset(a.id).len(), 1);
    let nb = l.list_notifications_by_user(&b);
    assert_eq!(nb.last().unwrap().notification_type, NotificationType::Trade);
}

#[test]
fn completing_a_trade_moves_the_lot_once() {
    let mut l = ledger_with(&["alice", "bob"]);
    let al = who("alice");
    let b = who("bob");
    let a = new_asset(&mut l, &al, 100).unwrap();
    let t = l.mint_token(&al, a.id, &al, 10, 1).unwrap();
    let tr = l.create_trade(&b, &al, t.id, a.id, 10, 5, Currency::USD, 1).unwrap();
    assert_eq!(
        l.update_trade_status(&b, tr.id, TradeStatus::Completed, 10, 2).err(),
        Some(LedgerError::Unauthorized)
    );
    assert_eq!(l.get_token(t.id).unwrap().owner_id.text, "alice");
    assert_eq!(l.get_trade(tr.id).unwrap().status, TradeStatus::Pending);
    let done = l.update_trade_status(&al, tr.id, TradeStatus::Completed, 10, 2).unwrap();
    assert_eq!(done.status, TradeStatus::Completed);
    assert_eq!(l.get_token(t.id).unwrap().owner_id.text, "bob");
    assert_eq!(
        l.update_trade_status(&b, tr.id, TradeStatus::Completed, 10, 3).err(),
        Some(LedgerError::AlreadyFinalized)
    );
    assert_eq!(
        l.update_trade_status(&admin(), tr.id, TradeStatus::Cancelled, 0, 3).err(),
        Some(LedgerError::AlreadyFinalized)
    );
}

#[test]
fn trade_update_rules() {
    let mut l = ledger_with(&["alice", "bob", "mallory"]);
    let al = who("alice");
    let b = who("bob");
    let a = new_asset(&mut l, &al, 100).unwrap();
    let t = l.mint_token(&al, a.id, &al, 10, 1).unwrap();
    let tr = l.create_trade(&b, &al, t.id, a.id, 10, 5, Currency::USD, 1).unwrap();
    assert_eq!(l.update_trade_status(&b, 99, TradeStatus::Cancelled, 0, 2).err(), Some(LedgerError::NotFound));
    assert_eq!(l.update_trade_status(&who("mallory"), tr.id, TradeStatus::Cancelled, 0, 2).err(), Some(LedgerError::Unauthorized));
    assert_eq!(l.update_trade_status(&b, tr.id, TradeStatus::Pending, 11, 2).err(), Some(LedgerError::InvariantViolation));
    let part = l.update_trade_status(&al, tr.id, TradeStatus::Pending, 4, 2).unwrap();
    assert_eq!(part.filled, 4);
    // The seller gives the lot away before completion: completion is refused as a whole.
    l.transfer_token(&al, t.id, &who("mallory"), 3).unwrap();
    assert_eq!(l.update_trade_status(&b, tr.id, TradeStatus::Completed, 10, 4).err(), Some(LedgerError::InvariantViolation));
    assert_eq!(l.get_trade(tr.id).unwrap().status, TradeStatus::Pending);
    assert_eq!(l.get_token(t.id).unwrap().owner_id.text, "mallory");
    let c = l.update_trade_status(&al, tr.id, TradeStatus::Cancelled, 4, 5).unwrap();
    assert_eq!(c.status, TradeStatus::Cancelled);
}

#[test]
fn completion_refused_when_buyer_lost_kyc() {
    let mut l = ledger_with(&["alice", "bob"]);
    let al = who("alice");
    let b = who("bob");
    let a = new_asset(&mut l, &al, 100).unwrap();
    let t = l.mint_token(&al, a.id, &al, 10, 1).unwrap();
    let tr = l.create_trade(&b, &al, t.id, a.id, 10, 5, Currency::USD, 1).unwrap();
    l.set_kyc_status(&admin(), &b, KycStatus::Rejected, 2).unwrap();
    assert_eq!(l.update_trade_status(&al, tr.id, TradeStatus::Completed, 10, 3).err(), Some(LedgerError::PreconditionFailed));
    assert_eq!(l.get_token(t.id).unwrap().owner_id.text, "alice");
}

#[test]
fn end_to_end_sale() {
    let mut l = Ledger::new(admin());
    let a = who("identity-a");
    let b = who("identity-b");
    l.register_user(&a, "a".to_string(), "a@x".to_string(), "wa".to_string()).unwrap();
    l.register_user(&b, "b".to_string(), "b@x".to_string(), "wb".to_string()).unwrap();
    l.set_kyc_status(&admin(), &a, KycStatus::Approved, 1).unwrap();
    l.set_kyc_status(&admin(), &b, KycStatus::Approved, 1).unwrap();
    let asset = new_asset(&mut l, &a, 100).unwrap();
    let token = l.mint_token(&a, asset.id, &a, 100, 1).unwrap();
    let trade = l.create_trade(&b, &a, token.id, asset.id, 100, 100, Currency::ICP, 2).unwrap();
    let done = l.update_trade_status(&a, trade.id, TradeStatus::Completed, 100, 3).unwrap();
    assert_eq!(done.status, TradeStatus::Completed);
    let tk = l.get_token(token.id).unwrap();
    assert_eq!(tk.owner_id.text, "identity-b");
    assert_eq!(tk.status, TokenStatus::Sold);
    assert_eq!(l.get_trade(trade.id).unwrap().status, TradeStatus::Completed);
    assert_eq!(l.get_asset(asset.id).unwrap().available_tokens, 0);
    assert!(supply_bounded(&l));
}

#[test]
fn notifications_read_and_listing() {
    let mut l = ledger_with(&["alice", "bob"]);
    let al = who("alice");
    let n = l.create_notification(&al, NotificationType::Other, "hello".to_string(), 12).unwrap();
    assert!(!n.read);
    assert_eq!(n.message, "hello");
    assert_eq!(l.get_notification(n.id).unwrap().created_at, 12);
    assert_eq!(l.mark_notification_read(&who("bob"), n.id).err(), Some(LedgerError::Unauthorized));
    assert_eq!(l.mark_notification_read(&al, 10_000).err(), Some(LedgerError::NotFound));
    assert!(l.mark_notification_read(&al, n.id).unwrap().read);
    assert!(l.list_all_notifications(&al).is_empty());
    assert_eq!(l.list_all_notifications(&admin()).len(), 3);
}

#[test]
fn portfolio_rules() {
    let mut l = ledger_with(&["alice", "bob"]);
    let al = who("alice");
    let p = who("pending");
    l.register_user(&p, "p".to_string(), "p@x".to_string(), "w".to_string());
    assert_eq!(l.create_portfolio(&p).err(), Some(LedgerError::PreconditionFailed));
    let pf = l.create_portfolio(&al).unwrap();
    assert!(pf.tokens.is_empty() && pf.assets.is_empty());
    assert_eq!(l.update_portfolio(&who("bob"), &al, vec![1], vec![2], 3).err(), Some(LedgerError::Unauthorized));
    assert_eq!(l.update_portfolio(&who("bob"), &who("bob"), vec![1], vec![2], 3).err(), Some(LedgerError::NotFound));
    let up = l.update_portfolio(&al, &al, vec![1, 2], vec![7], 3).unwrap();
    assert_eq!(up.tokens, vec![1, 2]);
    assert_eq!(l.get_portfolio(&al).unwrap().assets, vec![7]);
    l.create_portfolio(&al).unwrap();
    assert!(l.get_portfolio(&al).unwrap().tokens.is_empty());
    assert_eq!(l.list_portfolios().len(), 1);
    let km = KeyMetrics { cap_rate_bits: None, occupancy_rate_bits: None, location_score_bits: None, liquidity_rating: None };
    assert!(km.liquidity_rating.is_none());
}

#[test]
fn profile_update() {
    let mut l = ledger_with(&["alice"]);
    assert!(l.update_profile(&who("ghost"), None, None).is_none());
    let u = l.update_profile(&who("alice"), Some("bio".to_string()), None).unwrap();
    assert_eq!(u.profile.unwrap().bio, Some("bio".to_string()));
}

#[test]
fn exhausted_identifiers_are_refused() {
    let mut l = ledger_with(&["alice", "bob"]);
    let al = who("alice");
    let a = new_asset(&mut l, &al, 100).unwrap();
    let t = l.mint_token(&al, a.id, &al, 10, 1).unwrap();
    l.next_asset_id = u64::MAX;
    assert_eq!(new_asset(&mut l, &al, 1).err(), Some(LedgerError::InvariantViolation));
    assert_eq!(l.list_assets().len(), 1);
    l.next_token_id = u64::MAX;
    assert_eq!(l.mint_token(&al, a.id, &al, 1, 1).err(), Some(LedgerError::InvariantViolation));
    assert_eq!(l.get_asset(a.id).unwrap().available_tokens, 90);
    l.next_trade_id = u64::MAX;
    assert_eq!(l.create_trade(&who("bob"), &al, t.id, a.id, 1, 1, Currency::USD, 1).err(), Some(LedgerError::InvariantViolation));
    assert!(l.list_trades().is_empty());
}

#[test]
fn notifications_never_block_operations() {
    let mut l = ledger_with(&["alice", "bob"]);
    let al = who("alice");
    let a = new_asset(&mut l, &al, 100).unwrap();
    let t = l.mint_token(&al, a.id, &al, 10, 1).unwrap();
    l.next_notification_id = u64::MAX;
    let before = l.list_all_notifications(&admin()).len();
    let moved = l.transfer_token(&al, t.id, &who("bob"), 4).unwrap();
    assert_eq!(moved.owner_id.text, "bob");
    assert_eq!(l.list_all_notifications(&admin()).len(), before);
    assert!(l.create_notification(&al, NotificationType::Other, "x".to_string(), 1).is_none());
}

#[test]
fn zero_supply_asset_admits_only_empty_lots() {
    let mut l = ledger_with(&["alice"]);
    let al = who("alice");
    let a = new_asset(&mut l, &al, 0).unwrap();
    assert_eq!(a.available_tokens, 0);
    assert_eq!(l.mint_token(&al, a.id, &al, 1, 1).err(), Some(LedgerError::InvariantViolation));
    let empty = l.mint_token(&al, a.id, &al, 0, 1).unwrap();
    assert_eq!(empty.amount, 0);
    assert!(supply_bounded(&l));
}

#[test]
fn approval_only_from_pending() {
    let mut l = ledger_with(&["alice"]);
    let a = new_asset(&mut l, &who("alice"), 100).unwrap();
    l.approve_asset(&admin(), a.id, 1).unwrap();
    let before = format!("{:?}", l.get_asset(a.id).unwrap());
    let notes = l.list_all_notifications(&admin()).len();
    assert_eq!(l.approve_asset(&admin(), a.id, 2).err(), Some(LedgerError::InvariantViolation));
    assert_eq!(format!("{:?}", l.get_asset(a.id).unwrap()), before);
    assert_eq!(l.list_all_notifications(&admin()).len(), notes);
}

#[test]
fn admin_may_complete_a_trade() {
    let mut l = ledger_with(&["alice", "bob"]);
    let al = who("alice");
    let b = who("bob");
    let a = new_asset(&mut l, &al, 100).unwrap();
    let t = l.mint_token(&al, a.id, &al, 10, 1).unwrap();
    let tr = l.create_trade(&b, &al, t.id, a.id, 10, 5, Currency::USD, 1).unwrap();
    l.update_trade_status(&admin(), tr.id, TradeStatus::Completed, 10, 2).unwrap();
    let tk = l.get_token(t.id).unwrap();
    assert_eq!(tk.owner_id.text, "bob");
    assert_eq!(tk.status, TokenStatus::Sold);
}

#[test]
fn notices_carry_their_text() {
    let mut l = Ledger::new(admin());
    let al = who("alice");
    let b = who("bob");
    l.register_user(&al, "alice".to_string(), "a@x".to_string(), "w".to_string()).unwrap();
    l.register_user(&b, "bob".to_string(), "b@x".to_string(), "w".to_string()).unwrap();
    l.set_kyc_status(&admin(), &al, KycStatus::Approved, 1).unwrap();
    l.set_kyc_status(&admin(), &b, KycStatus::Approved, 1).unwrap();
    let last = |l: &Ledger, p: &Principal| l.list_notifications_by_user(p).last().unwrap().message.clone();
    assert_eq!(last(&l, &al), "Your KYC status changed to Approved");
    l.set_user_role(&admin(), &b, UserRole::Admin, 2).unwrap();
    assert_eq!(last(&l, &b), "Your role changed to Admin");
    let a = new_asset(&mut l, &al, 100).unwrap();
    l.approve_asset(&admin(), a.id, 3).unwrap();
    assert_eq!(last(&l, &al), "Your asset 'Tower' has been approved");
    let t = l.mint_token(&al, a.id, &al, 10, 1).unwrap();
    let tr = l.create_trade(&b, &al, t.id, a.id, 10, 5, Currency::USD, 4).unwrap();
    assert_eq!(last(&l, &b), format!("Trade #{} created for token #{}", tr.id, t.id));
    assert_eq!(last(&l, &al), format!("Trade #{} created for token #{}", tr.id, t.id));
    l.update_trade_status(&al, tr.id, TradeStatus::Completed, 10, 5).unwrap();
    assert_eq!(last(&l, &b), format!("Trade #{} status updated to Completed", tr.id));
    l.transfer_token(&b, t.id, &al, 6).unwrap();
    assert_eq!(last(&l, &al), format!("You received token #{} for asset #{}", t.id, a.id));
    l.create_portfolio(&al).unwrap();
    l.update_portfolio(&al, &al, vec![t.id], vec![a.id], 7).unwrap();
    assert_eq!(last(&l, &al), "Your portfolio was updated");
}
