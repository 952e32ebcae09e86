use vstd::prelude::*;

verus! {

/// The river that splits the city into a west and an east side.
#[derive(Clone, Copy, Debug)]
pub struct River {}

impl Default for River {
    fn default() -> (r: Self)
        ensures
            r == (River {}),
    {
        River {}
    }
}

} // verus!
