//! A two-party betting ledger: wagers are created and escrow-checked, accepted
//! or rejected by the counterparty, and, once the underlying event has
//! concluded, resolved by the bettors' own outcome claims.
//!
//! The host environment (account identities, attached value, the clock) is
//! passed in as plain values; the ledger itself is verified.

mod datetime;
mod hashing;
mod ledger;
mod types;

pub use datetime::is_datetime_string;
pub use datetime::utc_ms_of;
pub use ledger::AccountId;
pub use ledger::Balance;
pub use ledger::Bet;
pub use ledger::BetView;
pub use ledger::Betting;
pub use ledger::BettingView;
pub use ledger::lemma_vote_order_independence;
pub use ledger::same_except_bets;
pub use ledger::spec_submit;
pub use types::BetOutcome;
pub use types::BetState;
pub use types::Error;
pub use types::decode_winner;
pub use types::lemma_reconciliation;
pub use types::reconcile_claims;
pub use types::spec_decode_winner;
pub use types::spec_reconcile;
