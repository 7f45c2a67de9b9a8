use vstd::prelude::*;
use crate::columns::{lemma_vout_col_injective, vout_col};
use crate::model::{
    claim_index, claimed, has_txid, inserted_tx, sig_count, sig_present, sig_rows_for, sigs_of,
    spend_of, store_wf, stored_sig, stored_spend, tx_bytes, tx_conflict, upserted, upserted_all,
    OutPointView, StoreView,
};
use crate::sigs::pairs_map;

verus! {

/// No two outpoint rows share their (deposit_txid, deposit_vout) columns.
pub open spec fn claims_unique(ops: Seq<(Seq<u8>, i32, Seq<u8>)>) -> bool {
    forall|i: int, j: int|
        0 <= i < j < ops.len() ==> !(ops[i].0 == ops[j].0 && ops[i].1 == ops[j].1)
}

/// The spend id that the outpoint row for these column values names, if any.
pub open spec fn claim_of(ops: Seq<(Seq<u8>, i32, Seq<u8>)>, dtxid: Seq<u8>, dvout: i32) -> Option<
    Seq<u8>,
> {
    if claimed(ops, dtxid, dvout) {
        Some(ops[claim_index(ops, dtxid, dvout)].2)
    } else {
        None
    }
}

/// Whether one of `outpoints` has these column values.
pub open spec fn in_keys(outpoints: Seq<OutPointView>, dtxid: Seq<u8>, dvout: i32) -> bool {
    exists|i: int| 0 <= i < outpoints.len() && outpoints[i].0 == dtxid && vout_col(outpoints[i].1) == dvout
}

/// Whether `txid` and `tx` name the same transaction in every spend
/// transaction row: a row has the id exactly when it has the bytes.
pub open spec fn tx_consistent(txs: Seq<(Seq<u8>, Seq<u8>)>, txid: Seq<u8>, tx: Seq<u8>) -> bool {
    forall|i: int| 0 <= i < txs.len() ==> (txs[i].0 == txid <==> txs[i].1 == tx)
}

proof fn lemma_claim_index_unique(ops: Seq<(Seq<u8>, i32, Seq<u8>)>, dtxid: Seq<u8>, dvout: i32, i: int)
    requires
        claims_unique(ops),
        0 <= i < ops.len(),
        ops[i].0 == dtxid,
        ops[i].1 == dvout,
    ensures
        claimed(ops, dtxid, dvout),
        claim_index(ops, dtxid, dvout) == i,
{
    let c = claim_index(ops, dtxid, dvout);
    if c < i {
        assert(!(ops[c].0 == ops[i].0 && ops[c].1 == ops[i].1));
    } else if c > i {
        assert(!(ops[i].0 == ops[c].0 && ops[i].1 == ops[c].1));
    }
}

proof fn lemma_upserted(
    ops: Seq<(Seq<u8>, i32, Seq<u8>)>,
    k0: Seq<u8>,
    k1: i32,
    sp: Seq<u8>,
    q0: Seq<u8>,
    q1: i32,
)
    requires
        claims_unique(ops),
    ensures
        claims_unique(upserted(ops, k0, k1, sp)),
        claim_of(upserted(ops, k0, k1, sp), q0, q1) == if q0 == k0 && q1 == k1 {
            Some(sp)
        } else {
            claim_of(ops, q0, q1)
        },
{
    let n = upserted(ops, k0, k1, sp);
    if claimed(ops, k0, k1) {
        let c = claim_index(ops, k0, k1);
        assert(n == ops.update(c, (k0, k1, sp)));
        assert forall|l: int| 0 <= l < ops.len() implies n[l].0 == ops[l].0 && n[l].1 == ops[l].1 by {}
        assert(claims_unique(n));
        if q0 == k0 && q1 == k1 {
            lemma_claim_index_unique(n, q0, q1, c);
        } else if claimed(ops, q0, q1) {
            let i = claim_index(ops, q0, q1);
            assert(i != c);
            lemma_claim_index_unique(n, q0, q1, i);
        } else {
            if claimed(n, q0, q1) {
                let i = claim_index(n, q0, q1);
                assert(ops[i].0 == q0 && ops[i].1 == q1);
            }
        }
    } else {
        assert(n == ops.push((k0, k1, sp)));
        assert forall|i: int, j: int| 0 <= i < j < n.len() implies !(n[i].0 == n[j].0 && n[i].1
            == n[j].1) by {
            if j == ops.len() {
                assert(n[i] == ops[i]);
                if n[i].0 == k0 && n[i].1 == k1 {
                    assert(claimed(ops, k0, k1));
                }
            } else {
                assert(n[i] == ops[i] && n[j] == ops[j]);
            }
        }
        if q0 == k0 && q1 == k1 {
            lemma_claim_index_unique(n, q0, q1, ops.len() as int);
        } else if claimed(ops, q0, q1) {
            let i = claim_index(ops, q0, q1);
            assert(n[i] == ops[i]);
            lemma_claim_index_unique(n, q0, q1, i);
        } else {
            if claimed(n, q0, q1) {
                let i = claim_index(n, q0, q1);
                assert(i < ops.len());
                assert(ops[i] == n[i]);
            }
        }
    }
}

proof fn lemma_upserted_all(
    ops: Seq<(Seq<u8>, i32, Seq<u8>)>,
    outpoints: Seq<OutPointView>,
    sp: Seq<u8>,
    q0: Seq<u8>,
    q1: i32,
)
    requires
        claims_unique(ops),
    ensures
        claims_unique(upserted_all(ops, outpoints, sp)),
        claim_of(upserted_all(ops, outpoints, sp), q0, q1) == if in_keys(outpoints, q0, q1) {
            Some(sp)
        } else {
            claim_of(ops, q0, q1)
        },
    decreases outpoints.len(),
{
    if outpoints.len() > 0 {
        let prev = outpoints.drop_last();
        let o = outpoints.last();
        lemma_upserted_all(ops, prev, sp, q0, q1);
        lemma_upserted(upserted_all(ops, prev, sp), o.0, vout_col(o.1), sp, q0, q1);
        if in_keys(prev, q0, q1) {
            let i = choose|i: int| 0 <= i < prev.len() && prev[i].0 == q0 && vout_col(prev[i].1) == q1;
            assert(outpoints[i] == prev[i]);
        }
        if o.0 == q0 && vout_col(o.1) == q1 {
            assert(outpoints[outpoints.len() - 1] == o);
        }
        if in_keys(outpoints, q0, q1) {
            let i = choose|i: int|
                0 <= i < outpoints.len() && outpoints[i].0 == q0 && vout_col(outpoints[i].1) == q1;
            if i < prev.len() {
                assert(prev[i] == outpoints[i]);
            }
        }
    }
}

proof fn lemma_upserted_all_fixed(ops: Seq<(Seq<u8>, i32, Seq<u8>)>, outpoints: Seq<OutPointView>, sp: Seq<u8>)
    requires
        claims_unique(ops),
        forall|i: int| 0 <= i < outpoints.len() ==> claim_of(ops, #[trigger] outpoints[i].0, vout_col(outpoints[i].1)) == Some(sp),
    ensures
        upserted_all(ops, outpoints, sp) == ops,
    decreases outpoints.len(),
{
    if outpoints.len() > 0 {
        let prev = outpoints.drop_last();
        assert forall|i: int| 0 <= i < prev.len() implies claim_of(ops, #[trigger] prev[i].0, vout_col(prev[i].1)) == Some(sp) by {
            assert(prev[i] == outpoints[i]);
        }
        lemma_upserted_all_fixed(ops, prev, sp);
        let o = outpoints.last();
        assert(claim_of(ops, outpoints[outpoints.len() - 1].0, vout_col(outpoints[outpoints.len() - 1].1)) == Some(sp));
        let c = claim_index(ops, o.0, vout_col(o.1));
        assert(ops.update(c, (o.0, vout_col(o.1), sp)) =~= ops);
    }
}

proof fn lemma_sig_count(rows: Seq<(Seq<u8>, Seq<u8>, Seq<u8>)>, sig: Seq<u8>)
    requires
        forall|i: int, j: int| 0 <= i < j < rows.len() ==> rows[i].2 != rows[j].2,
    ensures
        sig_count(rows, sig) == if sig_present(rows, sig) {
            1nat
        } else {
            0nat
        },
    decreases rows.len(),
{
    if rows.len() > 0 {
        let prev = rows.drop_last();
        lemma_sig_count(prev, sig);
        if sig_present(prev, sig) {
            let i = choose|i: int| 0 <= i < prev.len() && prev[i].2 == sig;
            assert(rows[i] == prev[i]);
            assert(rows[i].2 != rows[rows.len() - 1].2);
        }
        if sig_present(rows, sig) {
            let i = choose|i: int| 0 <= i < rows.len() && rows[i].2 == sig;
            if i < prev.len() {
                assert(prev[i] == rows[i]);
            }
        }
    }
}

/// After a signature whose bytes were not stored yet is stored, the
/// signatures fetched for its transaction map its public key to it.
pub proof fn law_store_then_fetch_sig(v: StoreView, txid: Seq<u8>, pubkey: Seq<u8>, sig: Seq<u8>)
    requires
        store_wf(v),
        !sig_present(v.signatures, sig),
    ensures
        sigs_of(stored_sig(v, txid, pubkey, sig), txid).contains_key(pubkey),
        sigs_of(stored_sig(v, txid, pubkey, sig), txid)[pubkey] == sig,
{
    let rows = v.signatures.push((txid, pubkey, sig));
    assert(rows.drop_last() =~= v.signatures);
    let sel = sig_rows_for(rows, txid);
    assert(sel.drop_last() =~= sig_rows_for(v.signatures, txid));
}

/// Once a signature is stored, storing the same signature bytes again, under
/// any transaction and public key, is refused and changes nothing: exactly
/// one row holds those bytes.
pub proof fn law_duplicate_sig(
    v: StoreView,
    txid1: Seq<u8>,
    pubkey1: Seq<u8>,
    txid2: Seq<u8>,
    pubkey2: Seq<u8>,
    sig: Seq<u8>,
)
    requires
        store_wf(v),
    ensures
        sig_present(stored_sig(v, txid1, pubkey1, sig).signatures, sig),
        stored_sig(stored_sig(v, txid1, pubkey1, sig), txid2, pubkey2, sig) == stored_sig(
            v,
            txid1,
            pubkey1,
            sig,
        ),
        sig_count(stored_sig(v, txid1, pubkey1, sig).signatures, sig) == 1,
{
    let v1 = stored_sig(v, txid1, pubkey1, sig);
    if !sig_present(v.signatures, sig) {
        let n = v.signatures.len() as int;
        assert(v1.signatures[n].2 == sig);
        assert forall|i: int, j: int| 0 <= i < j < v1.signatures.len() implies v1.signatures[i].2
            != v1.signatures[j].2 by {
            if j == n {
                assert(v1.signatures[i] == v.signatures[i]);
            } else {
                assert(v1.signatures[i] == v.signatures[i] && v1.signatures[j] == v.signatures[j]);
            }
        }
    }
    lemma_sig_count(v1.signatures, sig);
}

/// After a spend transaction is stored with a set of outpoints, each of those
/// outpoints resolves to it, and an outpoint outside the set that had no
/// claim before still resolves to nothing. No row may hold the id without the
/// bytes, nor the bytes without the id.
pub proof fn law_store_then_fetch_spend(
    v: StoreView,
    outpoints: Seq<OutPointView>,
    txid: Seq<u8>,
    tx: Seq<u8>,
    o: OutPointView,
)
    requires
        store_wf(v),
        tx_consistent(v.spend_txs, txid, tx),
    ensures
        outpoints.contains(o) ==> spend_of(stored_spend(v, outpoints, txid, tx), o) == Some(tx),
        !outpoints.contains(o) && !claimed(v.spend_outpoints, o.0, vout_col(o.1)) ==> spend_of(
            stored_spend(v, outpoints, txid, tx),
            o,
        ) is None,
{
    let v1 = stored_spend(v, outpoints, txid, tx);
    let col = vout_col(o.1);
    lemma_upserted_all(v.spend_outpoints, outpoints, txid, o.0, col);
    if outpoints.contains(o) {
        let i = choose|i: int| 0 <= i < outpoints.len() && outpoints[i] == o;
        assert(in_keys(outpoints, o.0, col));
        let txs = v1.spend_txs;
        if tx_conflict(v.spend_txs, txid, tx) {
            assert(txs == v.spend_txs);
            let j = choose|j: int| 0 <= j < txs.len() && (txs[j].0 == txid || txs[j].1 == tx);
            assert(txs[j].0 == txid);
        } else {
            assert(txs == v.spend_txs.push((txid, tx)));
            assert(txs[txs.len() - 1].0 == txid);
        }
        assert(has_txid(txs, txid));
        let m = choose|j: int| 0 <= j < txs.len() && txs[j].0 == txid;
        if !tx_conflict(v.spend_txs, txid, tx) && m < v.spend_txs.len() {
            assert(txs[m] == v.spend_txs[m]);
        }
        assert(tx_bytes(txs, txid) == tx);
    } else if !claimed(v.spend_outpoints, o.0, col) {
        if in_keys(outpoints, o.0, col) {
            let i = choose|i: int| 0 <= i < outpoints.len() && outpoints[i].0 == o.0 && vout_col(outpoints[i].1) == col;
            lemma_vout_col_injective(outpoints[i].1, o.1);
            assert(outpoints[i] == o);
        }
    }
}

/// Storing the same spend transaction with the same outpoints a second time
/// leaves the store as the first time left it.
pub proof fn law_store_spend_idempotent(v: StoreView, outpoints: Seq<OutPointView>, txid: Seq<u8>, tx: Seq<u8>)
    requires
        store_wf(v),
    ensures
        stored_spend(stored_spend(v, outpoints, txid, tx), outpoints, txid, tx) == stored_spend(
            v,
            outpoints,
            txid,
            tx,
        ),
{
    let v1 = stored_spend(v, outpoints, txid, tx);
    let ops1 = v1.spend_outpoints;
    assert forall|i: int| 0 <= i < outpoints.len() implies claim_of(ops1, #[trigger] outpoints[i].0, vout_col(outpoints[i].1)) == Some(txid) by {
        lemma_upserted_all(v.spend_outpoints, outpoints, txid, outpoints[i].0, vout_col(outpoints[i].1));
    }
    lemma_upserted_all(v.spend_outpoints, outpoints, txid, Seq::empty(), 0);
    lemma_upserted_all_fixed(ops1, outpoints, txid);
    if !tx_conflict(v.spend_txs, txid, tx) {
        let txs = v1.spend_txs;
        assert(txs[txs.len() - 1] == (txid, tx));
        assert(tx_conflict(txs, txid, tx));
    }
    assert(inserted_tx(v1.spend_txs, txid, tx) == v1.spend_txs);
    assert(stored_spend(v1, outpoints, txid, tx) =~= v1);
}

/// Storing a spend transaction that claims an outpoint already claimed by
/// another transaction moves the claim: the outpoint now resolves to the new
/// transaction.
pub proof fn law_reclaim_overwrites(
    v: StoreView,
    outpoints: Seq<OutPointView>,
    txid: Seq<u8>,
    tx: Seq<u8>,
    o: OutPointView,
    earlier: Seq<u8>,
)
    requires
        store_wf(v),
        tx_consistent(v.spend_txs, txid, tx),
        outpoints.contains(o),
        spend_of(v, o) == Some(earlier),
        earlier != tx,
    ensures
        spend_of(stored_spend(v, outpoints, txid, tx), o) == Some(tx),
        spend_of(stored_spend(v, outpoints, txid, tx), o) != Some(earlier),
{
    law_store_then_fetch_spend(v, outpoints, txid, tx, o);
}

} // verus!
