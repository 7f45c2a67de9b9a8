use vstd::prelude::*;

verus! {

/// The tables, created only where missing, so that running it on every
/// start leaves existing rows alone.
pub const SCHEMA: &'static str = "\
CREATE TABLE IF NOT EXISTS version (
    version INTEGER UNIQUE NOT NULL
);

CREATE TABLE IF NOT EXISTS signatures (
    txid BYTEA NOT NULL,
    pubkey BYTEA NOT NULL,
    signature BYTEA UNIQUE NOT NULL
);

CREATE TABLE IF NOT EXISTS spend_txs (
    txid BYTEA UNIQUE NOT NULL,
    transaction BYTEA UNIQUE NOT NULL
);

CREATE TABLE IF NOT EXISTS spend_outpoints (
    deposit_txid BYTEA NOT NULL,
    deposit_vout INTEGER NOT NULL,
    spend_txid BYTEA NOT NULL,
    UNIQUE (deposit_txid, deposit_vout)
);
";

/// Rows holding exactly these signature bytes.
pub const SELECT_SIG: &'static str = "SELECT signature FROM signatures WHERE signature = $1";

/// A new signature row.
pub const INSERT_SIG: &'static str = "INSERT INTO signatures (txid, pubkey, signature) VALUES ($1, $2, $3)";

/// The (pubkey, signature) columns of the rows for a transaction.
pub const SELECT_SIGS: &'static str = "SELECT pubkey, signature FROM signatures WHERE txid = $1";

/// A new spend transaction row, skipped when its id or bytes are there.
pub const INSERT_SPEND_TX: &'static str = "INSERT INTO spend_txs (txid, transaction) VALUES ($1, $2) \
     ON CONFLICT DO NOTHING";

/// A claim of an outpoint for a spend transaction, overwriting an earlier one.
pub const UPSERT_OUTPOINT: &'static str = "INSERT INTO spend_outpoints (deposit_txid, deposit_vout, spend_txid) \
     VALUES ($1, $2, $3) \
     ON CONFLICT (deposit_txid, deposit_vout) DO UPDATE \
     SET spend_txid = EXCLUDED.spend_txid";

/// The bytes of the spend transaction claiming an outpoint.
pub const SELECT_SPEND_TX: &'static str = "SELECT transaction FROM spend_txs AS txs \
     INNER JOIN spend_outpoints AS ops ON txs.txid = ops.spend_txid \
     WHERE ops.deposit_txid = $1 AND ops.deposit_vout = $2";

} // verus!
