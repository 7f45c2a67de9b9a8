//! Persistence layer of a vault coordination service: the schema, the rows it
//! keeps for co-signing artifacts, and the rules by which those rows are
//! written and read back.
//!
//! `model` states what the tables hold and what each statement does to them;
//! `store` holds the tables in memory and is proved to follow that statement;
//! `laws` proves what holds across operations.

mod columns;
mod error;
mod laws;
mod model;
mod schema;
mod sigs;
mod store;

pub use columns::{bytes_eq, lemma_vout_col_injective, vout_col, vout_column};
pub use error::{check_fresh, DbError};
pub use laws::{
    law_duplicate_sig, law_reclaim_overwrites, law_store_spend_idempotent,
    law_store_then_fetch_sig, law_store_then_fetch_spend, tx_consistent,
};
pub use model::{
    claim_index, claimed, empty_store, has_txid, inserted_tx, sig_count, sig_present, sig_rows_for,
    sigs_of, spend_of, store_wf, stored_sig, stored_spend, tx_bytes, tx_conflict, upserted,
    upserted_all, OutPointView, StoreView,
};
pub use schema::{
    INSERT_SIG, INSERT_SPEND_TX, SCHEMA, SELECT_SIG, SELECT_SIGS, SELECT_SPEND_TX, UPSERT_OUTPOINT,
};
pub use sigs::{collect_sigs, lists_map, pair_view, pairs_map, pairs_view};
pub use store::{outpoints_view, OutPoint, Store};
