//! Fences of a device whose operations all block.
use vstd::prelude::*;

verus! {

/// A fence that has nothing to wait for, since the operations before it block.
#[derive(Debug)]
pub struct Fence;

impl Fence {
    pub fn new() -> (fence: Self)
        ensures
            fence == Fence,
    {
        Fence
    }

    /// The fence has been passed.
    pub fn wait_sync(self) -> (result: Result<(), String>)
        ensures
            result is Ok,
    {
        Ok(())
    }
}

impl Default for Fence {
    fn default() -> (fence: Self)
        ensures
            fence == Fence,
    {
        Fence::new()
    }
}

} // verus!
