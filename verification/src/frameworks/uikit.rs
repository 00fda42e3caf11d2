//! UIKit: the device.

use vstd::prelude::*;

pub mod ui_device;

verus! {

/// What UIKit keeps for the lifetime of the process.
pub struct UikitState {
    pub ui_device: ui_device::State,
}

impl UikitState {
    /// The state in which UIKit has cached nothing.
    pub fn new() -> (s: UikitState)
        ensures
            s.ui_device@ is None,
    {
        UikitState { ui_device: ui_device::State::new() }
    }
}

} // verus!
