//! When two roots are equal.

use crate::root::Root;
use vstd::prelude::*;
use vstd::std_specs::cmp::PartialEqSpec;

verus! {

/// Two roots are equal exactly where they stand for the same text, the same
/// kind and the same steps in the same order. Nothing else enters into it.
pub proof fn lemma_equal_roots_look_alike(a: Root, b: Root)
    ensures
        a.eq_spec(&b) <==> a@ == b@,
        a.eq_spec(&b) <==> a.text@ == b.text@ && a.kind == b.kind && a.steps@ == b.steps@,
{
}

/// Equality of roots is an equivalence.
pub proof fn lemma_root_equality_is_equivalence(a: Root, b: Root, c: Root)
    ensures
        a.eq_spec(&a),
        a.eq_spec(&b) ==> b.eq_spec(&a),
        a.eq_spec(&b) && b.eq_spec(&c) ==> a.eq_spec(&c),
{
}

} // verus!
