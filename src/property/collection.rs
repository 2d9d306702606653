use vstd::prelude::*;

verus! {

/// Collections that properties may speak of.
pub trait Collection {

}

impl<T> Collection for Vec<T> {

}

} // verus!
