use vstd::prelude::*;
use crate::columns::vout_col;
use crate::sigs::pairs_map;

verus! {

/// Column values of the persisted tables.
///
/// `signatures` rows are (txid, pubkey, signature); `spend_txs` rows are
/// (txid, transaction); `spend_outpoints` rows are (deposit_txid,
/// deposit_vout, spend_txid).
pub ghost struct StoreView {
    pub signatures: Seq<(Seq<u8>, Seq<u8>, Seq<u8>)>,
    pub spend_txs: Seq<(Seq<u8>, Seq<u8>)>,
    pub spend_outpoints: Seq<(Seq<u8>, i32, Seq<u8>)>,
}

/// An outpoint as column values: (txid, output index).
pub type OutPointView = (Seq<u8>, u32);

/// The uniqueness constraints of the schema: signature bytes, spend
/// transaction ids, spend transaction bytes and claimed outpoints.
pub open spec fn store_wf(v: StoreView) -> bool {
    &&& forall|i: int, j: int|
        0 <= i < j < v.signatures.len() ==> v.signatures[i].2 != v.signatures[j].2
    &&& forall|i: int, j: int|
        0 <= i < j < v.spend_txs.len() ==> v.spend_txs[i].0 != v.spend_txs[j].0
            && v.spend_txs[i].1 != v.spend_txs[j].1
    &&& forall|i: int, j: int|
        0 <= i < j < v.spend_outpoints.len() ==> !(v.spend_outpoints[i].0
            == v.spend_outpoints[j].0 && v.spend_outpoints[i].1 == v.spend_outpoints[j].1)
}

/// The empty tables of a freshly bootstrapped store.
pub open spec fn empty_store() -> StoreView {
    StoreView { signatures: Seq::empty(), spend_txs: Seq::empty(), spend_outpoints: Seq::empty() }
}

/// Whether a signature row with exactly these signature bytes exists.
pub open spec fn sig_present(rows: Seq<(Seq<u8>, Seq<u8>, Seq<u8>)>, sig: Seq<u8>) -> bool {
    exists|i: int| 0 <= i < rows.len() && rows[i].2 == sig
}

/// Number of signature rows holding these signature bytes.
pub open spec fn sig_count(rows: Seq<(Seq<u8>, Seq<u8>, Seq<u8>)>, sig: Seq<u8>) -> nat
    decreases rows.len(),
{
    if rows.len() == 0 {
        0
    } else {
        sig_count(rows.drop_last(), sig) + if rows.last().2 == sig {
            1nat
        } else {
            0nat
        }
    }
}

/// The (pubkey, signature) columns of the rows for `txid`, in row order.
pub open spec fn sig_rows_for(rows: Seq<(Seq<u8>, Seq<u8>, Seq<u8>)>, txid: Seq<u8>) -> Seq<
    (Seq<u8>, Seq<u8>),
>
    decreases rows.len(),
{
    if rows.len() == 0 {
        Seq::empty()
    } else {
        let prev = sig_rows_for(rows.drop_last(), txid);
        if rows.last().0 == txid {
            prev.push((rows.last().1, rows.last().2))
        } else {
            prev
        }
    }
}

/// What fetching the signatures of `txid` yields: public key to signature,
/// a later row winning over an earlier one for the same key.
pub open spec fn sigs_of(v: StoreView, txid: Seq<u8>) -> Map<Seq<u8>, Seq<u8>> {
    pairs_map(sig_rows_for(v.signatures, txid))
}

/// The store after a signature store: one new row unless the signature
/// bytes are already there.
pub open spec fn stored_sig(v: StoreView, txid: Seq<u8>, pubkey: Seq<u8>, sig: Seq<u8>) -> StoreView {
    if sig_present(v.signatures, sig) {
        v
    } else {
        StoreView { signatures: v.signatures.push((txid, pubkey, sig)), ..v }
    }
}

/// Whether a spend transaction row shares the id or the bytes.
pub open spec fn tx_conflict(txs: Seq<(Seq<u8>, Seq<u8>)>, txid: Seq<u8>, tx: Seq<u8>) -> bool {
    exists|i: int| 0 <= i < txs.len() && (txs[i].0 == txid || txs[i].1 == tx)
}

/// Insertion of a spend transaction row that does nothing on conflict.
pub open spec fn inserted_tx(txs: Seq<(Seq<u8>, Seq<u8>)>, txid: Seq<u8>, tx: Seq<u8>) -> Seq<
    (Seq<u8>, Seq<u8>),
> {
    if tx_conflict(txs, txid, tx) {
        txs
    } else {
        txs.push((txid, tx))
    }
}

/// Whether an outpoint row exists for these column values.
pub open spec fn claimed(ops: Seq<(Seq<u8>, i32, Seq<u8>)>, dtxid: Seq<u8>, dvout: i32) -> bool {
    exists|i: int| 0 <= i < ops.len() && ops[i].0 == dtxid && ops[i].1 == dvout
}

/// The outpoint row for these column values (meaningful when `claimed`).
pub open spec fn claim_index(ops: Seq<(Seq<u8>, i32, Seq<u8>)>, dtxid: Seq<u8>, dvout: i32) -> int {
    choose|i: int| 0 <= i < ops.len() && ops[i].0 == dtxid && ops[i].1 == dvout
}

/// Insertion of an outpoint row that, on conflict, overwrites the spend id.
pub open spec fn upserted(
    ops: Seq<(Seq<u8>, i32, Seq<u8>)>,
    dtxid: Seq<u8>,
    dvout: i32,
    spend: Seq<u8>,
) -> Seq<(Seq<u8>, i32, Seq<u8>)> {
    if claimed(ops, dtxid, dvout) {
        ops.update(claim_index(ops, dtxid, dvout), (dtxid, dvout, spend))
    } else {
        ops.push((dtxid, dvout, spend))
    }
}

/// The outpoint rows after claiming each of `outpoints`, in order, for `spend`.
pub open spec fn upserted_all(
    ops: Seq<(Seq<u8>, i32, Seq<u8>)>,
    outpoints: Seq<OutPointView>,
    spend: Seq<u8>,
) -> Seq<(Seq<u8>, i32, Seq<u8>)>
    decreases outpoints.len(),
{
    if outpoints.len() == 0 {
        ops
    } else {
        let o = outpoints.last();
        upserted(upserted_all(ops, outpoints.drop_last(), spend), o.0, vout_col(o.1), spend)
    }
}

/// The store after a committed spend transaction store.
pub open spec fn stored_spend(
    v: StoreView,
    outpoints: Seq<OutPointView>,
    txid: Seq<u8>,
    tx: Seq<u8>,
) -> StoreView {
    StoreView {
        spend_txs: inserted_tx(v.spend_txs, txid, tx),
        spend_outpoints: upserted_all(v.spend_outpoints, outpoints, txid),
        ..v
    }
}

/// Whether a spend transaction row has this id.
pub open spec fn has_txid(txs: Seq<(Seq<u8>, Seq<u8>)>, txid: Seq<u8>) -> bool {
    exists|j: int| 0 <= j < txs.len() && txs[j].0 == txid
}

/// The bytes of the spend transaction row with this id (meaningful when
/// `has_txid`).
pub open spec fn tx_bytes(txs: Seq<(Seq<u8>, Seq<u8>)>, txid: Seq<u8>) -> Seq<u8> {
    txs[choose|j: int| 0 <= j < txs.len() && txs[j].0 == txid].1
}

/// What fetching the spend transaction of an outpoint yields: the join of
/// its outpoint row with the spend transaction row it names.
pub open spec fn spend_of(v: StoreView, o: OutPointView) -> Option<Seq<u8>> {
    let col = vout_col(o.1);
    if claimed(v.spend_outpoints, o.0, col) {
        let spend = v.spend_outpoints[claim_index(v.spend_outpoints, o.0, col)].2;
        if has_txid(v.spend_txs, spend) {
            Some(tx_bytes(v.spend_txs, spend))
        } else {
            None
        }
    } else {
        None
    }
}

} // verus!
