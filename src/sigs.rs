use vstd::prelude::*;
use crate::columns::copy_bytes;

verus! {

/// A (public key, signature) row as column values.
pub open spec fn pair_view(p: (Vec<u8>, Vec<u8>)) -> (Seq<u8>, Seq<u8>) {
    (p.0@, p.1@)
}

/// (public key, signature) rows as column values.
pub open spec fn pairs_view(v: Seq<(Vec<u8>, Vec<u8>)>) -> Seq<(Seq<u8>, Seq<u8>)> {
    v.map_values(|p: (Vec<u8>, Vec<u8>)| pair_view(p))
}

/// The mapping from public key to signature that rows read in order give, a
/// later row overwriting an earlier one with the same public key.
pub open spec fn pairs_map(rows: Seq<(Seq<u8>, Seq<u8>)>) -> Map<Seq<u8>, Seq<u8>>
    decreases rows.len(),
{
    if rows.len() == 0 {
        Map::empty()
    } else {
        pairs_map(rows.drop_last()).insert(rows.last().0, rows.last().1)
    }
}

/// `s` lists the entries of `m`, each key exactly once.
pub open spec fn lists_map(s: Seq<(Seq<u8>, Seq<u8>)>, m: Map<Seq<u8>, Seq<u8>>) -> bool {
    &&& forall|i: int, j: int| 0 <= i < j < s.len() ==> s[i].0 != s[j].0
    &&& forall|i: int| 0 <= i < s.len() ==> m.contains_key(#[trigger] s[i].0) && m[s[i].0] == s[i].1
    &&& forall|k: Seq<u8>| #[trigger] m.contains_key(k) ==> exists|i: int| 0 <= i < s.len() && s[i].0 == k
}

/// Position of the entry with public key `key`, if any.
fn find_key(out: &Vec<(Vec<u8>, Vec<u8>)>, key: &Vec<u8>) -> (r: Option<usize>)
    ensures
        match r {
            Some(j) => j < out@.len() && out@[j as int].0@ == key@,
            None => forall|j: int| 0 <= j < out@.len() ==> out@[j].0@ != key@,
        },
{
    let mut j: usize = 0;
    while j < out.len()
        invariant
            0 <= j <= out@.len(),
            forall|l: int| 0 <= l < j ==> out@[l].0@ != key@,
        decreases out@.len() - j,
    {
        if crate::columns::bytes_eq(&out[j].0, key) {
            return Some(j);
        }
        j = j + 1;
    }
    None
}

/// Collapses `(public key, signature)` rows into one entry per public key, the
/// last row for a key giving its signature.
pub fn collect_sigs(rows: &Vec<(Vec<u8>, Vec<u8>)>) -> (r: Vec<(Vec<u8>, Vec<u8>)>)
    ensures
        lists_map(pairs_view(r@), pairs_map(pairs_view(rows@))),
{
    let mut out: Vec<(Vec<u8>, Vec<u8>)> = Vec::new();
    let mut i: usize = 0;
    while i < rows.len()
        invariant
            0 <= i <= rows@.len(),
            lists_map(pairs_view(out@), pairs_map(pairs_view(rows@).take(i as int))),
        decreases rows@.len() - i,
    {
        let ghost before = pairs_map(pairs_view(rows@).take(i as int));
        let ghost old_out = pairs_view(out@);
        let key = copy_bytes(&rows[i].0);
        let sig = copy_bytes(&rows[i].1);
        assert(pairs_view(rows@).take(i + 1).drop_last() =~= pairs_view(rows@).take(i as int));
        let ghost after = before.insert(key@, sig@);
        assert(pairs_map(pairs_view(rows@).take(i + 1)) == after);
        match find_key(&out, &key) {
            Some(j) => {
                out.set(j, (key, sig));
                assert(pairs_view(out@) =~= old_out.update(j as int, (key@, sig@)));
                let ghost s = pairs_view(out@);
                assert(old_out[j as int].0 == key@);
                assert forall|l: int| 0 <= l < s.len() implies s[l].0 == old_out[l].0 by {}
                assert forall|l: int| 0 <= l < s.len() implies after.contains_key(#[trigger] s[l].0)
                    && after[s[l].0] == s[l].1 by {
                    if l != j {
                        assert(old_out[l].0 != key@);
                    }
                }
                assert forall|k: Seq<u8>| #[trigger] after.contains_key(k) implies exists|l: int|
                    0 <= l < s.len() && s[l].0 == k by {
                    if k != key@ {
                        let l = choose|l: int| 0 <= l < old_out.len() && old_out[l].0 == k;
                        assert(s[l].0 == k);
                    } else {
                        assert(s[j as int].0 == k);
                    }
                }
            },
            None => {
                out.push((key, sig));
                assert(pairs_view(out@) =~= old_out.push((key@, sig@)));
                let ghost s = pairs_view(out@);
                assert forall|l: int| 0 <= l < old_out.len() implies old_out[l].0 != key@ by {
                    assert(out@[l].0@ == old_out[l].0);
                }
                assert forall|l: int| 0 <= l < s.len() implies after.contains_key(#[trigger] s[l].0)
                    && after[s[l].0] == s[l].1 by {
                    if l < old_out.len() {
                        assert(s[l] == old_out[l]);
                    }
                }
                assert forall|l: int, m: int| 0 <= l < m < s.len() implies s[l].0 != s[m].0 by {
                    if m < old_out.len() {
                        assert(s[l] == old_out[l] && s[m] == old_out[m]);
                    } else {
                        assert(s[l] == old_out[l]);
                    }
                }
                assert forall|k: Seq<u8>| #[trigger] after.contains_key(k) implies exists|l: int|
                    0 <= l < s.len() && s[l].0 == k by {
                    if k != key@ {
                        let l = choose|l: int| 0 <= l < old_out.len() && old_out[l].0 == k;
                        assert(s[l].0 == k);
                    } else {
                        assert(s[old_out.len() as int].0 == k);
                    }
                }
            },
        }
        i = i + 1;
    }
    assert(pairs_view(rows@).take(rows@.len() as int) =~= pairs_view(rows@));
    out
}

} // verus!
