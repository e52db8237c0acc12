//! A ledger reducer for client accounts.
//!
//! An ordered stream of transaction records (deposits, withdrawals and the
//! dispute lifecycle of disputes, resolves and chargebacks) is folded into a
//! final state of every client account. Amounts are fixed-point decimals with
//! four fractional digits, so no binary rounding ever takes place.
//!
//! - `amount`: amounts and the two buckets of an account's funds;
//! - `record`: records, accounts, errors and outcomes;
//! - `ledger`: the effect of one record (`step`), the fold (`run`), and the
//!   executable `Ledger` and `process` that follow them exactly;
//! - `laws`: totals stay representable, settling twice is a no-op, the fold is
//!   deterministic;
//! - `disputes`: held funds equal the amounts under open dispute.
mod amount;
mod record;
mod ledger;
mod laws;
mod disputes;

pub use amount::{fits, Amount, Amounts, UNITS_PER_WHOLE};
pub use record::{Account, ClientId, Error, Outcome, Record, RecordType, TxId};
pub use ledger::{process, run, step, with_funds, Ledger, LedgerView};
pub use laws::{
    lemma_run_deterministic, lemma_run_prefix, lemma_run_wf, lemma_settle_idempotent, lemma_step_wf,
    lemma_total_always_defined,
};
pub use disputes::{
    amount_sum, fair, fair_run, held_of, holds_open_disputes, lemma_held_is_open_disputes,
    lemma_step_holds_open_disputes, lemma_sum_congruent, lemma_sum_insert, lemma_sum_remove,
    lemma_sum_subset, open_of,
};
