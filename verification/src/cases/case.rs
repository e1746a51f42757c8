use vstd::prelude::*;

verus! {

/// A back-test scenario; it carries no state of its own.
pub struct Case {}

} // verus!
