//! A wrapper that centres its one child in the space it is given.

use vstd::prelude::*;
use crate::element::ElemRef;

verus! {

/// Centres `child` in the rectangle it is arranged into.
#[derive(Clone, Copy, Debug, PartialEq, Eq, Structural)]
pub struct CenterTest {
    pub child: ElemRef,
}

impl CenterTest {
    pub fn new(child: ElemRef) -> (r: CenterTest)
        ensures
            r.child == child,
    {
        CenterTest { child }
    }
}

} // verus!
