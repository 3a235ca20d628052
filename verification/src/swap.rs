use vstd::prelude::*;

verus! {

/// Exchanges the values behind two references.
pub fn swap<T: Copy>(a: &mut T, b: &mut T)
    ensures
        *final(a) == *old(b),
        *final(b) == *old(a),
{
    let tmp = *a;
    *a = *b;
    *b = tmp;
}

} // verus!
