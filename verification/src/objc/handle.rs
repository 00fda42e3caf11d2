//! Opaque identifiers of objects.

use vstd::prelude::*;

verus! {

/// Identifies an object of the object table. The null handle stands for
/// "no object"; every other value is either live, stale or never issued.
#[derive(Clone, Copy, Debug, PartialEq, Eq, Hash, Structural)]
pub struct Handle {
    pub raw: usize,
}

impl Handle {
    /// The handle that denotes no object.
    pub open spec fn spec_null() -> Handle {
        Handle { raw: 0 }
    }

    /// The handle that denotes no object.
    #[verifier::when_used_as_spec(spec_null)]
    pub fn null() -> (h: Handle)
        ensures
            h == Handle::spec_null(),
    {
        Handle { raw: 0 }
    }

    /// Whether this is the null handle.
    pub open spec fn spec_is_null(&self) -> bool {
        self.raw == 0
    }

    /// Whether this is the null handle.
    #[verifier::when_used_as_spec(spec_is_null)]
    pub fn is_null(&self) -> (r: bool)
        ensures
            r == self.spec_is_null(),
    {
        self.raw == 0
    }
}

} // verus!
