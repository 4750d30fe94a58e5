//! Shared values.

use std::sync::Arc;
use vstd::prelude::*;

verus! {

/// `Arc::clone`: the copy shares the value.
#[verifier::external_body]
pub(crate) fn share<T: ?Sized>(value: &Arc<T>) -> (copy: Arc<T>)
    ensures
        copy == *value,
{
    Arc::clone(value)
}

} // verus!
