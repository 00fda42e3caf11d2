//! The framework facilities built on the object model.

use vstd::prelude::*;
use crate::frameworks::foundation::FoundationState;
use crate::frameworks::uikit::UikitState;

pub mod foundation;
pub mod uikit;

verus! {

/// What the frameworks keep for the lifetime of the process.
pub struct FrameworkState {
    pub foundation: FoundationState,
    pub uikit: UikitState,
}

impl FrameworkState {
    /// The state in which no framework has cached anything.
    pub fn new() -> (s: FrameworkState)
        ensures
            s.foundation.ns_user_defaults@ is None,
            s.uikit.ui_device@ is None,
    {
        FrameworkState { foundation: FoundationState::new(), uikit: UikitState::new() }
    }
}

} // verus!
