//! Ownership ledger for fractionally tokenized real-world assets: an asset
//! registry, a ledger of token lots, a trade engine, and the user, notification
//! and portfolio records around them.

mod identity;
mod ledger;
mod user;
mod notification;
mod asset;
mod token;
mod trade;
mod portfolio;
mod laws;

pub use laws::{
    lemma_supply_never_exceeds_total, lemma_lots_never_exceed_supply, lemma_completed_trade_is_final,
};

pub use identity::Principal;
pub use ledger::{Ledger, LedgerError, emitted, lots_of};
pub use user::{User, KycStatus, UserRole, UserProfile};
pub use notification::{
    Notification, NotificationType, kyc_text, role_text, asset_approved_text, token_received_text,
    trade_created_text, trade_status_text,
};
pub use asset::{Asset, AssetStatus, KeyMetrics, patched};
pub use token::{Token, TokenStatus};
pub use trade::{Trade, TradeStatus, Currency, emitted_twice};
pub use portfolio::{Portfolio, portfolio_updated_text};

