//! Foundation: strings, dictionaries and user defaults.

#![allow(non_upper_case_globals)]

use vstd::prelude::*;

pub mod ns_dictionary;
pub mod ns_string;
pub mod ns_user_defaults;

verus! {

/// The signed integer of the frameworks.
pub type NSInteger = i32;

/// The unsigned integer of the frameworks.
pub type NSUInteger = u32;

/// How two values are ordered.
pub type NSComparisonResult = NSInteger;

/// The left value comes first.
pub const NSOrderedAscending: NSComparisonResult = -1;

/// Neither value comes first.
pub const NSOrderedSame: NSComparisonResult = 0;

/// The right value comes first.
pub const NSOrderedDescending: NSComparisonResult = 1;

/// What Foundation keeps for the lifetime of the process.
pub struct FoundationState {
    pub ns_user_defaults: ns_user_defaults::State,
}

impl FoundationState {
    /// The state in which Foundation has cached nothing.
    pub fn new() -> (s: FoundationState)
        ensures
            s.ns_user_defaults@ is None,
    {
        FoundationState { ns_user_defaults: ns_user_defaults::State::new() }
    }
}

} // verus!
