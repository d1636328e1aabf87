use vstd::prelude::*;

verus! {

/// Generate a deterministic mock DB byte slice of the given `size`.
///
/// Each byte at index `i` equals `i mod 256`, giving predictable, non-zero
/// test data that exercises all variable parser paths without a real PLC.
pub fn make_mock_db(size: usize) -> (r: Vec<u8>)
    ensures
        r@ == Seq::new(size as nat, |i: int| (i % 256) as u8),
        r@.len() == size,
        forall|i: int| 0 <= i < size ==> r@[i] == i % 256,
{
    let mut v: Vec<u8> = Vec::with_capacity(size);
    let mut i: usize = 0;
    while i < size
        invariant
            i <= size,
            v@.len() == i,
            forall|j: int| 0 <= j < i ==> v@[j] == j % 256,
        decreases size - i,
    {
        v.push((i % 256) as u8);
        i = i + 1;
    }
    assert(v@ =~= Seq::new(size as nat, |i: int| (i % 256) as u8));
    v
}

} // verus!
