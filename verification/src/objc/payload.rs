//! The native state that an object carries, and its type tag.

use vstd::prelude::*;
use crate::frameworks::foundation::ns_dictionary::{DictionaryEntry, DictionaryHostObject};

verus! {

/// The type tag of a payload.
#[derive(Clone, Copy, Debug, PartialEq, Eq, Hash, Structural)]
pub enum PayloadTag {
    Trivial,
    Integer,
    Text,
    Instant,
    Dictionary,
}

/// The native state of one object.
#[derive(Clone, Debug, PartialEq, Eq)]
pub enum Payload {
    /// No state at all.
    Trivial,
    /// A signed integer, such as a counter.
    Integer(i64),
    /// A string.
    Text(String),
    /// A point in time: the bit pattern of a double-precision number of
    /// seconds since the reference epoch.
    Instant(u64),
    /// The slots of a dictionary.
    Dictionary(DictionaryHostObject),
}

/// What a payload holds, as mathematical values.
pub enum PayloadView {
    Trivial,
    Integer(i64),
    Text(Seq<char>),
    Instant(u64),
    Dictionary(Seq<DictionaryEntry>),
}

impl PayloadView {
    /// The tag of the variant.
    pub open spec fn tag(self) -> PayloadTag {
        match self {
            PayloadView::Trivial => PayloadTag::Trivial,
            PayloadView::Integer(_) => PayloadTag::Integer,
            PayloadView::Text(_) => PayloadTag::Text,
            PayloadView::Instant(_) => PayloadTag::Instant,
            PayloadView::Dictionary(_) => PayloadTag::Dictionary,
        }
    }

    /// The value that is left behind when a payload of the given tag is
    /// taken out of its object.
    pub open spec fn empty(tag: PayloadTag) -> PayloadView {
        match tag {
            PayloadTag::Trivial => PayloadView::Trivial,
            PayloadTag::Integer => PayloadView::Integer(0),
            PayloadTag::Text => PayloadView::Text(Seq::<char>::empty()),
            PayloadTag::Instant => PayloadView::Instant(0),
            PayloadTag::Dictionary => PayloadView::Dictionary(Seq::<DictionaryEntry>::empty()),
        }
    }
}

impl View for Payload {
    type V = PayloadView;

    open spec fn view(&self) -> PayloadView {
        match self {
            Payload::Trivial => PayloadView::Trivial,
            Payload::Integer(n) => PayloadView::Integer(*n),
            Payload::Text(s) => PayloadView::Text(s@),
            Payload::Instant(bits) => PayloadView::Instant(*bits),
            Payload::Dictionary(d) => PayloadView::Dictionary(d@),
        }
    }
}

impl Payload {
    /// The tag of this payload.
    pub fn tag(&self) -> (t: PayloadTag)
        ensures
            t == self@.tag(),
    {
        match self {
            Payload::Trivial => PayloadTag::Trivial,
            Payload::Integer(_) => PayloadTag::Integer,
            Payload::Text(_) => PayloadTag::Text,
            Payload::Instant(_) => PayloadTag::Instant,
            Payload::Dictionary(_) => PayloadTag::Dictionary,
        }
    }

    /// The empty payload of a tag: zero, the empty string, the empty
    /// dictionary.
    pub fn empty(tag: PayloadTag) -> (p: Payload)
        ensures
            p@ == PayloadView::empty(tag),
    {
        match tag {
            PayloadTag::Trivial => Payload::Trivial,
            PayloadTag::Integer => Payload::Integer(0),
            PayloadTag::Text => Payload::Text(String::new()),
            PayloadTag::Instant => Payload::Instant(0),
            PayloadTag::Dictionary => Payload::Dictionary(DictionaryHostObject::new()),
        }
    }
}

} // verus!
