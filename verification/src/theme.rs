use vstd::prelude::*;

verus! {

/// The colour palette and frames of the user interface, which draws them.
pub struct Theme;

} // verus!
