//! Shared ownership of instance buffers.
use vstd::prelude::*;

use std::sync::Arc;

verus! {

/// Relies on `Arc::get_mut`: a mutable borrow of the contents exactly when no
/// other handle shares them; `None` otherwise, leaving the value as it was.
#[verifier::external_body]
pub(crate) fn arc_get_mut<T>(a: &mut Arc<T>) -> (r: Option<&mut T>)
    ensures
        match r {
            Some(m) => *m == **old(a) && **final(a) == *final(m),
            None => *final(a) == *old(a),
        },
{
    Arc::get_mut(a)
}

/// Relies on `Arc::clone`: a new handle to the same contents.
#[verifier::external_body]
pub(crate) fn arc_share<T>(a: &Arc<T>) -> (r: Arc<T>)
    ensures
        *r == **a,
{
    Arc::clone(a)
}

} // verus!
