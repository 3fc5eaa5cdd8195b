//! File names in the configuration directory, held as the raw bytes the
//! operating system gives for them.

use vstd::prelude::*;

verus! {

/// The name of the link that selects the live configuration: `config.json`.
pub open spec fn link_name() -> Seq<u8> {
    // c o n f i g . j s o n
    seq![99u8, 111, 110, 102, 105, 103, 46, 106, 115, 111, 110]
}

/// The bytes of `config.json`.
pub fn link_name_bytes() -> (r: Vec<u8>)
    ensures
        r@ == link_name(),
{
    let r: Vec<u8> = vec![99u8, 111, 110, 102, 105, 103, 46, 106, 115, 111, 110];
    assert(r@ =~= link_name());
    r
}

/// Whether two names are the same byte string.
pub fn same_name(a: &Vec<u8>, b: &Vec<u8>) -> (r: bool)
    ensures
        r == (a@ == b@),
{
    if a.len() != b.len() {
        return false;
    }
    let mut i: usize = 0;
    while i < a.len()
        invariant
            a.len() == b.len(),
            0 <= i <= a.len(),
            forall|j: int| 0 <= j < i ==> a@[j] == b@[j],
        decreases a.len() - i,
    {
        if a[i] != b[i] {
            return false;
        }
        i = i + 1;
    }
    assert(a@ =~= b@);
    true
}

/// A copy of a name.
pub fn copy_name(a: &Vec<u8>) -> (r: Vec<u8>)
    ensures
        r@ == a@,
{
    let r = a.clone();
    assert(r@ =~= a@);
    r
}

} // verus!
