use vstd::prelude::*;
use crate::columns::{bytes_eq, copy_bytes, vout_col, vout_column};
use crate::error::{check_fresh, DbError};
use crate::model::{
    claim_index, claimed, empty_store, has_txid, inserted_tx, sig_present, sig_rows_for, sigs_of,
    spend_of, store_wf, stored_sig, stored_spend, tx_bytes, tx_conflict, upserted, upserted_all,
    OutPointView, StoreView,
};
use crate::sigs::{collect_sigs, lists_map, pairs_view};

verus! {

/// A reference to one output of a prior transaction.
pub struct OutPoint {
    pub txid: Vec<u8>,
    pub vout: u32,
}

impl View for OutPoint {
    type V = OutPointView;

    open spec fn view(&self) -> OutPointView {
        (self.txid@, self.vout)
    }
}

/// Outpoints as column values.
pub open spec fn outpoints_view(v: Seq<OutPoint>) -> Seq<OutPointView> {
    v.map_values(|o: OutPoint| o@)
}

/// The rows of the persisted tables, held in memory, with the schema's
/// uniqueness constraints and the statements' conflict rules.
pub struct Store {
    signatures: Vec<(Vec<u8>, Vec<u8>, Vec<u8>)>,
    spend_txs: Vec<(Vec<u8>, Vec<u8>)>,
    spend_outpoints: Vec<(Vec<u8>, i32, Vec<u8>)>,
}

impl View for Store {
    type V = StoreView;

    closed spec fn view(&self) -> StoreView {
        StoreView {
            signatures: self.signatures@.map_values(
                |r: (Vec<u8>, Vec<u8>, Vec<u8>)| (r.0@, r.1@, r.2@),
            ),
            spend_txs: self.spend_txs@.map_values(|r: (Vec<u8>, Vec<u8>)| (r.0@, r.1@)),
            spend_outpoints: self.spend_outpoints@.map_values(
                |r: (Vec<u8>, i32, Vec<u8>)| (r.0@, r.1, r.2@),
            ),
        }
    }
}

impl Store {
    /// The schema's uniqueness constraints hold of the rows.
    pub open spec fn wf(&self) -> bool {
        store_wf(self@)
    }

    /// A store whose tables have just been created.
    pub fn new() -> (r: Store)
        ensures
            r@ == empty_store(),
            r.wf(),
    {
        let r = Store { signatures: Vec::new(), spend_txs: Vec::new(), spend_outpoints: Vec::new() };
        assert(r@.signatures =~= Seq::empty());
        assert(r@.spend_txs =~= Seq::empty());
        assert(r@.spend_outpoints =~= Seq::empty());
        r
    }

    /// Stores a signature for `txid` by `pubkey`, refusing signature bytes
    /// that are already stored.
    pub fn store_sig(&mut self, txid: Vec<u8>, pubkey: Vec<u8>, signature: Vec<u8>) -> (r: Result<
        (),
        DbError,
    >)
        requires
            old(self).wf(),
        ensures
            final(self).wf(),
            final(self)@ == stored_sig(old(self)@, txid@, pubkey@, signature@),
            r is Ok <==> !sig_present(old(self)@.signatures, signature@),
            r is Err ==> r->Err_0 is Duplicate,
    {
        let ghost old_v = self@;
        let mut i: usize = 0;
        while i < self.signatures.len()
            invariant
                self@ == old_v,
                self.wf(),
                0 <= i <= old_v.signatures.len(),
                forall|l: int| 0 <= l < i ==> old_v.signatures[l].2 != signature@,
            decreases old_v.signatures.len() - i,
        {
            if bytes_eq(&self.signatures[i].2, &signature) {
                assert(old_v.signatures[i as int].2 == signature@);
                return check_fresh(1);
            }
            i = i + 1;
        }
        self.signatures.push((txid, pubkey, signature));
        assert(self@.signatures =~= old_v.signatures.push((txid@, pubkey@, signature@)));
        assert(self@ =~= stored_sig(old_v, txid@, pubkey@, signature@));
        Ok(())
    }

    /// The signatures stored for `txid`, one entry per public key.
    pub fn fetch_sigs(&self, txid: &Vec<u8>) -> (r: Vec<(Vec<u8>, Vec<u8>)>)
        ensures
            lists_map(pairs_view(r@), sigs_of(self@, txid@)),
    {
        let mut rows: Vec<(Vec<u8>, Vec<u8>)> = Vec::new();
        let mut i: usize = 0;
        while i < self.signatures.len()
            invariant
                0 <= i <= self@.signatures.len(),
                pairs_view(rows@) == sig_rows_for(self@.signatures.take(i as int), txid@),
            decreases self@.signatures.len() - i,
        {
            assert(self@.signatures.take(i + 1).drop_last() =~= self@.signatures.take(i as int));
            if bytes_eq(&self.signatures[i].0, txid) {
                let pk = copy_bytes(&self.signatures[i].1);
                let sig = copy_bytes(&self.signatures[i].2);
                let ghost prev = pairs_view(rows@);
                rows.push((pk, sig));
                assert(pairs_view(rows@) =~= prev.push((pk@, sig@)));
            }
            i = i + 1;
        }
        assert(self@.signatures.take(self@.signatures.len() as int) =~= self@.signatures);
        collect_sigs(&rows)
    }

    /// Position of the outpoint row for these column values, if any.
    fn find_claim(&self, dtxid: &Vec<u8>, dvout: i32) -> (r: Option<usize>)
        requires
            self.wf(),
        ensures
            match r {
                Some(j) => claimed(self@.spend_outpoints, dtxid@, dvout) && j == claim_index(
                    self@.spend_outpoints,
                    dtxid@,
                    dvout,
                ),
                None => !claimed(self@.spend_outpoints, dtxid@, dvout),
            },
    {
        let ghost ops = self@.spend_outpoints;
        let mut j: usize = 0;
        while j < self.spend_outpoints.len()
            invariant
                ops == self@.spend_outpoints,
                self.wf(),
                0 <= j <= ops.len(),
                forall|l: int| 0 <= l < j ==> !(ops[l].0 == dtxid@ && ops[l].1 == dvout),
            decreases ops.len() - j,
        {
            if self.spend_outpoints[j].1 == dvout && bytes_eq(&self.spend_outpoints[j].0, dtxid) {
                assert(ops[j as int].0 == dtxid@ && ops[j as int].1 == dvout);
                assert(claimed(ops, dtxid@, dvout));
                let ghost c = claim_index(ops, dtxid@, dvout);
                assert(c == j) by {
                    if c < j {
                        assert(!(ops[c].0 == ops[j as int].0 && ops[c].1 == ops[j as int].1));
                    } else if c > j {
                        assert(!(ops[j as int].0 == ops[c].0 && ops[j as int].1 == ops[c].1));
                    }
                }
                return Some(j);
            }
            j = j + 1;
        }
        None
    }

    /// Position of the spend transaction row with this id, if any.
    fn find_tx(&self, txid: &Vec<u8>) -> (r: Option<usize>)
        requires
            self.wf(),
        ensures
            match r {
                Some(j) => has_txid(self@.spend_txs, txid@) && j < self@.spend_txs.len()
                    && self@.spend_txs[j as int].1 == tx_bytes(self@.spend_txs, txid@),
                None => !has_txid(self@.spend_txs, txid@),
            },
    {
        let ghost txs = self@.spend_txs;
        let mut j: usize = 0;
        while j < self.spend_txs.len()
            invariant
                txs == self@.spend_txs,
                self.wf(),
                0 <= j <= txs.len(),
                forall|l: int| 0 <= l < j ==> txs[l].0 != txid@,
            decreases txs.len() - j,
        {
            if bytes_eq(&self.spend_txs[j].0, txid) {
                assert(txs[j as int].0 == txid@);
                assert(has_txid(txs, txid@));
                let ghost c = choose|c: int| 0 <= c < txs.len() && txs[c].0 == txid@;
                assert(c == j) by {
                    if c < j {
                        assert(txs[c].0 != txs[j as int].0);
                    } else if c > j {
                        assert(txs[j as int].0 != txs[c].0);
                    }
                }
                return Some(j);
            }
            j = j + 1;
        }
        None
    }

    /// Whether a spend transaction row shares this id or these bytes.
    fn tx_conflicts(&self, txid: &Vec<u8>, transaction: &Vec<u8>) -> (r: bool)
        ensures
            r == tx_conflict(self@.spend_txs, txid@, transaction@),
    {
        let ghost txs = self@.spend_txs;
        let mut j: usize = 0;
        while j < self.spend_txs.len()
            invariant
                txs == self@.spend_txs,
                0 <= j <= txs.len(),
                forall|l: int| 0 <= l < j ==> !(txs[l].0 == txid@ || txs[l].1 == transaction@),
            decreases txs.len() - j,
        {
            if bytes_eq(&self.spend_txs[j].0, txid) || bytes_eq(&self.spend_txs[j].1, transaction) {
                assert(txs[j as int].0 == txid@ || txs[j as int].1 == transaction@);
                return true;
            }
            j = j + 1;
        }
        false
    }

    /// Inserts an outpoint row, or on conflict overwrites its spend id.
    fn upsert_outpoint(&mut self, dtxid: Vec<u8>, dvout: i32, spend: Vec<u8>)
        requires
            old(self).wf(),
        ensures
            final(self).wf(),
            final(self)@ == (StoreView {
                spend_outpoints: upserted(old(self)@.spend_outpoints, dtxid@, dvout, spend@),
                ..old(self)@
            }),
    {
        let ghost old_v = self@;
        let ghost ops = old_v.spend_outpoints;
        let ghost row = (dtxid@, dvout, spend@);
        match self.find_claim(&dtxid, dvout) {
            Some(j) => {
                self.spend_outpoints.set(j, (dtxid, dvout, spend));
                assert(self@.spend_outpoints =~= ops.update(j as int, row));
                assert forall|l: int| 0 <= l < ops.len() implies self@.spend_outpoints[l].0
                    == ops[l].0 && self@.spend_outpoints[l].1 == ops[l].1 by {}
            },
            None => {
                self.spend_outpoints.push((dtxid, dvout, spend));
                assert(self@.spend_outpoints =~= ops.push(row));
                assert forall|l: int| 0 <= l < ops.len() implies !(ops[l].0 == row.0 && ops[l].1
                    == row.1) by {}
            },
        }
        assert(self@ =~= (StoreView {
            spend_outpoints: upserted(ops, dtxid@, dvout, spend@),
            ..old_v
        }));
    }

    /// Stores a spend transaction (its id and bytes) and claims each of
    /// `outpoints` for it, all at once. A spend transaction row with the
    /// same id or bytes is left as it is; an outpoint already claimed is
    /// claimed anew.
    pub fn store_spend_tx(&mut self, outpoints: &Vec<OutPoint>, txid: Vec<u8>, transaction: Vec<u8>)
        requires
            old(self).wf(),
        ensures
            final(self).wf(),
            final(self)@ == stored_spend(
                old(self)@,
                outpoints_view(outpoints@),
                txid@,
                transaction@,
            ),
    {
        let ghost old_v = self@;
        let ghost ov = outpoints_view(outpoints@);
        if !self.tx_conflicts(&txid, &transaction) {
            let row_txid = copy_bytes(&txid);
            self.spend_txs.push((row_txid, transaction));
            assert(self@.spend_txs =~= old_v.spend_txs.push((txid@, transaction@)));
            assert forall|l: int| 0 <= l < old_v.spend_txs.len() implies old_v.spend_txs[l].0
                != txid@ && old_v.spend_txs[l].1 != transaction@ by {
                assert(!tx_conflict(old_v.spend_txs, txid@, transaction@));
            }
            let ghost txs = self@.spend_txs;
            assert forall|i: int, j: int| 0 <= i < j < txs.len() implies txs[i].0 != txs[j].0
                && txs[i].1 != txs[j].1 by {
                if j == old_v.spend_txs.len() {
                    assert(txs[i] == old_v.spend_txs[i]);
                } else {
                    assert(txs[i] == old_v.spend_txs[i] && txs[j] == old_v.spend_txs[j]);
                }
            }
        }
        assert(self@.spend_txs == inserted_tx(old_v.spend_txs, txid@, transaction@));
        assert(self@.signatures == old_v.signatures);
        assert(self@.spend_outpoints == old_v.spend_outpoints);
        assert(ov.take(0) =~= Seq::<OutPointView>::empty());
        let mut k: usize = 0;
        while k < outpoints.len()
            invariant
                0 <= k <= outpoints@.len(),
                ov == outpoints_view(outpoints@),
                self.wf(),
                self@.signatures == old_v.signatures,
                self@.spend_txs == inserted_tx(old_v.spend_txs, txid@, transaction@),
                self@.spend_outpoints == upserted_all(old_v.spend_outpoints, ov.take(k as int), txid@),
            decreases outpoints@.len() - k,
        {
            let dtxid = copy_bytes(&outpoints[k].txid);
            let dvout = vout_column(outpoints[k].vout);
            let spend = copy_bytes(&txid);
            assert(ov.take(k + 1).drop_last() =~= ov.take(k as int));
            assert(ov.take(k + 1).last() == outpoints@[k as int]@);
            self.upsert_outpoint(dtxid, dvout, spend);
            k = k + 1;
        }
        assert(ov.take(outpoints@.len() as int) =~= ov);
        assert(self@ =~= stored_spend(old_v, ov, txid@, transaction@));
    }

    /// The spend transaction that claims `outpoint`, if any.
    pub fn fetch_spend_tx(&self, outpoint: &OutPoint) -> (r: Option<Vec<u8>>)
        requires
            self.wf(),
        ensures
            match r {
                Some(t) => spend_of(self@, outpoint@) == Some(t@),
                None => spend_of(self@, outpoint@) is None,
            },
    {
        let dvout = vout_column(outpoint.vout);
        match self.find_claim(&outpoint.txid, dvout) {
            None => None,
            Some(j) => match self.find_tx(&self.spend_outpoints[j].2) {
                None => None,
                Some(m) => Some(copy_bytes(&self.spend_txs[m].1)),
            },
        }
    }
}

} // verus!
