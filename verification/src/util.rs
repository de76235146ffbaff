use vstd::prelude::*;

use crate::location::Location;
use crate::object::{AnyObject, IntoAny, Object, ObjectModel};

verus! {

/// Places an entity on a cell; everything else about it is untouched.
pub fn move_location(obj: &mut AnyObject, location: Location)
    ensures
        final(obj).model() == (ObjectModel { location, ..old(obj).model() }),
{
    let loc = obj.get_location();
    *loc = location;
}

/// Wraps a batch of concrete entities into the closed sum the world
/// stores, keeping order and abstract state.
pub fn map_as_object<T: IntoAny>(vec: Vec<T>) -> (r: Vec<AnyObject>)
    ensures
        r@.len() == vec@.len(),
        forall|i: int| 0 <= i < vec@.len() ==> (#[trigger] r@[i]).model() == vec@[i].model(),
{
    let ghost orig = vec@;
    let mut vec = vec;
    let mut out: Vec<AnyObject> = Vec::new();
    while vec.len() > 0
        invariant
            out@.len() + vec@.len() == orig.len(),
            forall|i: int| 0 <= i < vec@.len() ==> vec@[i] == orig[out@.len() + i],
            forall|i: int| 0 <= i < out@.len() ==> (#[trigger] out@[i]).model() == orig[i].model(),
        decreases vec@.len(),
    {
        let first = vec.remove(0);
        out.push(first.into_any());
    }
    out
}

} // verus!
