//! Physical memory frames.
use vstd::prelude::*;

verus! {

/// A run of `page_num` physical pages starting at address `pa`.
#[derive(Clone, Copy, Debug)]
pub struct PageFrame {
    pub pa: usize,
    pub page_num: usize,
}

impl PageFrame {
    /// Start address of the frame.
    pub fn pa(&self) -> (r: usize)
        ensures
            r == self.pa,
    {
        self.pa
    }
}

} // verus!
