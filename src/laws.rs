use vstd::prelude::*;
use crate::ledger::{Ledger, LedgerError, lots_of};
use crate::token::TokenStatus;
use crate::trade::TradeStatus;

verus! {

/// No asset ever has more tokens available than its total supply: every
/// operation of the ledger keeps `wf`, and `wf` bounds each asset's supply.
pub proof fn lemma_supply_never_exceeds_total(l: Ledger, i: int)
    requires
        l.wf(),
        0 <= i < l.assets@.len(),
    ensures
        l.assets@[i].available_tokens <= l.assets@[i].total_tokens,
{
}

/// The lots minted against an asset never hold more tokens than its total
/// supply: together with its available supply they stay within it.
pub proof fn lemma_lots_never_exceed_supply(l: Ledger, i: int)
    requires
        l.wf(),
        0 <= i < l.assets@.len(),
    ensures
        lots_of(l.tokens@, l.assets@[i].id) + l.assets@[i].available_tokens
            <= l.assets@[i].total_tokens,
{
}

/// Completing a trade leaves its token lot held by the buyer and marked Sold,
/// and the trade Completed; from then on every further status update of that
/// trade, by anyone, fails as already finalized.
pub proof fn lemma_completed_trade_is_final(
    pre: Ledger,
    post: Ledger,
    caller: Seq<char>,
    id: u64,
    i: int,
    filled: u64,
    now: u64,
    next_caller: Seq<char>,
    next_status: TradeStatus,
    next_filled: u64,
)
    requires
        pre.wf(),
        pre.trade_at(id, i),
        pre.trade_update_error(caller, i, TradeStatus::Completed, filled) is None,
        Ledger::trade_update_applied(pre, post, i, TradeStatus::Completed, filled, now),
    ensures
        exists|j: int|
            #[trigger] post.token_at(pre.trades@[i].token_id, j) && post.tokens@[j].owner_id
                == pre.trades@[i].buyer_id && post.tokens@[j].status == TokenStatus::Sold,
        post.trade_at(id, i),
        post.trades@[i].status == TradeStatus::Completed,
        post.trade_update_error(next_caller, i, next_status, next_filled) == Some(
            LedgerError::AlreadyFinalized,
        ),
{
    let tr = pre.trades@[i];
    let j = choose|j: int|
        #[trigger] pre.token_at(tr.token_id, j) && post.tokens@ == pre.tokens@.update(
            j,
            pre.handed_over(j, tr.buyer_id),
        );
    assert(post.token_at(tr.token_id, j));
}

} // verus!
