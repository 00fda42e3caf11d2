//! An object bridge: native payloads behind opaque handles, with a
//! single-inheritance class hierarchy, message resolution, retain counts and
//! autorelease pools, and the dictionary and singleton facilities built on them.

pub mod error;
pub mod objc;
pub mod frameworks;
pub mod environment;
