use vstd::prelude::*;

verus! {

/// The value of the signed 4-byte `deposit_vout` column for an output index:
/// the index's bits read as a two's-complement integer.
pub open spec fn vout_col(vout: u32) -> i32 {
    if vout < 0x8000_0000 {
        vout as i32
    } else {
        (vout as int - 0x1_0000_0000) as i32
    }
}

/// Two distinct output indexes never share a column value.
pub proof fn lemma_vout_col_injective(a: u32, b: u32)
    ensures
        vout_col(a) == vout_col(b) ==> a == b,
{
}

/// The column value stored for an output index.
pub fn vout_column(vout: u32) -> (r: i32)
    ensures
        r == vout_col(vout),
{
    if vout < 0x8000_0000 {
        vout as i32
    } else {
        let low: u32 = vout - 0x8000_0000;
        (low as i32) - 0x7fff_ffff - 1
    }
}

/// Byte-wise equality of two column values.
pub fn bytes_eq(a: &Vec<u8>, b: &Vec<u8>) -> (r: bool)
    ensures
        r == (a@ == b@),
{
    if a.len() != b.len() {
        return false;
    }
    let mut i: usize = 0;
    while i < a.len()
        invariant
            a@.len() == b@.len(),
            0 <= i <= a@.len(),
            a@.subrange(0, i as int) == b@.subrange(0, i as int),
        decreases a@.len() - i,
    {
        if a[i] != b[i] {
            assert(a@[i as int] != b@[i as int]);
            return false;
        }
        assert(a@.subrange(0, i + 1) =~= a@.subrange(0, i as int).push(a@[i as int]));
        assert(b@.subrange(0, i + 1) =~= b@.subrange(0, i as int).push(b@[i as int]));
        i = i + 1;
    }
    assert(a@ =~= a@.subrange(0, a@.len() as int));
    assert(b@ =~= b@.subrange(0, b@.len() as int));
    true
}

/// A fresh copy of a column value.
pub fn copy_bytes(b: &Vec<u8>) -> (r: Vec<u8>)
    ensures
        r@ == b@,
{
    let r = b.clone();
    assert(r@ =~= b@);
    r
}

} // verus!
