//! The order-preserving dictionary of handles. Keys are compared by their
//! content, not by their identity.

use vstd::prelude::*;
use crate::error::Error;
use crate::objc::ObjC;
use crate::objc::handle::Handle;
use crate::objc::object_table::{ObjectTable, RetainRecord, TableView};
use crate::objc::payload::{Payload, PayloadTag, PayloadView};

verus! {

/// One slot of a dictionary: a key, its value, and the hash of the key's
/// content as it was when the slot was filled.
#[derive(Clone, Copy, Debug, PartialEq, Eq, Structural)]
pub struct DictionaryEntry {
    pub hash: u64,
    pub key: Handle,
    pub value: Handle,
}

/// The native state of a dictionary object: its slots in insertion order.
#[derive(Clone, Debug, PartialEq, Eq)]
pub struct DictionaryHostObject {
    pub entries: Vec<DictionaryEntry>,
}

impl View for DictionaryHostObject {
    type V = Seq<DictionaryEntry>;

    open spec fn view(&self) -> Seq<DictionaryEntry> {
        self.entries@
    }
}

/// The name of the class of the dictionaries that `from_pairs` builds.
pub const DICTIONARY_CLASS: &'static str = "NSDictionary";

/// The hash of the empty byte string.
pub const HASH_OFFSET: u64 = 0xcbf29ce484222325;

/// The factor of the hash.
pub const HASH_PRIME: u64 = 0x100000001b3;

/// The hash of a byte string: starting from the offset, each byte in turn is
/// folded in by exclusive or, and the result multiplied by the prime, modulo
/// two to the power of sixty-four.
pub open spec fn hash_bytes(bytes: Seq<u8>) -> u64
    decreases bytes.len(),
{
    if bytes.len() == 0 {
        HASH_OFFSET
    } else {
        (hash_bytes(bytes.drop_last()) ^ (bytes.last() as u64)).wrapping_mul(HASH_PRIME)
    }
}

/// The objects that have a content to compare, with that content: the
/// readable strings, integers and instants.
pub open spec fn contents(objects: TableView) -> Map<Handle, PayloadView> {
    Map::new(
        |h: Handle|
            objects.readable(h, PayloadTag::Text) || objects.readable(h, PayloadTag::Integer)
                || objects.readable(h, PayloadTag::Instant),
        |h: Handle| objects.objects[h].payload,
    )
}

/// Equality of keys: a handle equals itself, and two objects with a content
/// are equal where their contents are.
pub open spec fn content_equal(contents: Map<Handle, PayloadView>, a: Handle, b: Handle) -> bool {
    a == b || (contents.dom().contains(a) && contents.dom().contains(b) && contents[a] == contents[b])
}

/// The hash of a key: that of its content where it has one, else that of its
/// identity. Equal keys have equal hashes.
pub open spec fn content_hash(contents: Map<Handle, PayloadView>, h: Handle) -> u64 {
    if contents.dom().contains(h) {
        match contents[h] {
            PayloadView::Text(s) => hash_bytes(vstd::utf8::encode_utf8(s)),
            PayloadView::Integer(n) => n as u64,
            PayloadView::Instant(bits) => bits,
            _ => 0,
        }
    } else {
        h.raw as u64
    }
}

/// Whether a slot is the slot of `key`.
pub open spec fn entry_matches(contents: Map<Handle, PayloadView>, entry: DictionaryEntry, key: Handle) -> bool {
    entry.hash == content_hash(contents, key) && content_equal(contents, entry.key, key)
}

/// The position of the first slot of `key` at or after `from`.
pub open spec fn first_match(
    contents: Map<Handle, PayloadView>,
    entries: Seq<DictionaryEntry>,
    key: Handle,
    from: int,
) -> Option<int>
    decreases entries.len() - from,
{
    if from < 0 || from >= entries.len() {
        None
    } else if entry_matches(contents, entries[from], key) {
        Some(from)
    } else {
        first_match(contents, entries, key, from + 1)
    }
}

/// The value stored for `key`, if there is one.
pub open spec fn looked_up(contents: Map<Handle, PayloadView>, entries: Seq<DictionaryEntry>, key: Handle) -> Option<
    Handle,
> {
    match first_match(contents, entries, key, 0) {
        Some(i) => Some(entries[i].value),
        None => None,
    }
}

/// The slots after an insertion. A key without a slot gets a new one at the
/// end. A key with a slot keeps it: its value is replaced where `overwrite`
/// is set, and stays otherwise.
pub open spec fn inserted(
    contents: Map<Handle, PayloadView>,
    entries: Seq<DictionaryEntry>,
    key: Handle,
    value: Handle,
    overwrite: bool,
) -> Seq<DictionaryEntry> {
    match first_match(contents, entries, key, 0) {
        Some(i) => if overwrite {
            entries.update(i, DictionaryEntry { value, ..entries[i] })
        } else {
            entries
        },
        None => entries.push(DictionaryEntry { hash: content_hash(contents, key), key, value }),
    }
}

/// The slots of the dictionary built from the first `n` pairs: each pair is
/// inserted in turn, and none overwrites an earlier one.
pub open spec fn built(contents: Map<Handle, PayloadView>, keys: Seq<Handle>, values: Seq<Handle>, n: int) -> Seq<
    DictionaryEntry,
>
    decreases n,
{
    if n <= 0 {
        Seq::empty()
    } else {
        inserted(contents, built(contents, keys, values, n - 1), keys[n - 1], values[n - 1], false)
    }
}

/// The slots of the dictionary object `dict`.
pub open spec fn dictionary_of(objects: TableView, dict: Handle) -> Result<Seq<DictionaryEntry>, Error> {
    match objects.access(dict, PayloadTag::Dictionary) {
        Ok(PayloadView::Dictionary(entries)) => Ok(entries),
        Ok(_) => Err(Error::TypeMismatch),
        Err(e) => Err(e),
    }
}

/// Every slot holds the hash of its key, and no two slots have equal keys.
pub open spec fn slots_wf(contents: Map<Handle, PayloadView>, entries: Seq<DictionaryEntry>) -> bool {
    &&& forall|i: int|
        0 <= i < entries.len() ==> (#[trigger] entries[i]).hash == content_hash(contents, entries[i].key)
    &&& forall|i: int, j: int|
        0 <= i < j < entries.len() ==> !content_equal(
            contents,
            (#[trigger] entries[i]).key,
            (#[trigger] entries[j]).key,
        )
}

fn hash_text(text: &String) -> (h: u64)
    ensures
        h == hash_bytes(vstd::utf8::encode_utf8(text@)),
{
    let bytes: &[u8] = text.as_str().as_bytes();
    let mut h: u64 = HASH_OFFSET;
    let mut i: usize = 0;
    assert(bytes@.take(0).len() == 0);
    while i < bytes.len()
        invariant
            i <= bytes.len(),
            bytes@ == vstd::utf8::encode_utf8(text@),
            h == hash_bytes(bytes@.take(i as int)),
        decreases bytes.len() - i,
    {
        assert(bytes@.take(i + 1).drop_last() =~= bytes@.take(i as int));
        h = (h ^ (bytes[i] as u64)).wrapping_mul(HASH_PRIME);
        i = i + 1;
    }
    assert(bytes@.take(i as int) =~= bytes@);
    h
}

/// The hash of the content of `key`.
pub fn hash_of(objects: &ObjectTable, key: Handle) -> (h: u64)
    ensures
        h == content_hash(contents(objects@), key),
{
    match objects.borrow(key, PayloadTag::Text) {
        Ok(Payload::Text(s)) => {
            return hash_text(s);
        },
        _ => {},
    }
    match objects.borrow(key, PayloadTag::Integer) {
        Ok(Payload::Integer(n)) => {
            return *n as u64;
        },
        _ => {},
    }
    match objects.borrow(key, PayloadTag::Instant) {
        Ok(Payload::Instant(bits)) => {
            return *bits;
        },
        _ => {},
    }
    key.raw as u64
}

/// Whether two keys are equal by content.
pub fn keys_equal(objects: &ObjectTable, a: Handle, b: Handle) -> (r: bool)
    ensures
        r == content_equal(contents(objects@), a, b),
{
    if a == b {
        return true;
    }
    match objects.borrow(a, PayloadTag::Text) {
        Ok(Payload::Text(x)) => {
            return match objects.borrow(b, PayloadTag::Text) {
                Ok(Payload::Text(y)) => *x == *y,
                _ => false,
            };
        },
        _ => {},
    }
    match objects.borrow(a, PayloadTag::Integer) {
        Ok(Payload::Integer(x)) => {
            return match objects.borrow(b, PayloadTag::Integer) {
                Ok(Payload::Integer(y)) => *x == *y,
                _ => false,
            };
        },
        _ => {},
    }
    match objects.borrow(a, PayloadTag::Instant) {
        Ok(Payload::Instant(x)) => {
            return match objects.borrow(b, PayloadTag::Instant) {
                Ok(Payload::Instant(y)) => *x == *y,
                _ => false,
            };
        },
        _ => {},
    }
    false
}

impl DictionaryHostObject {
    /// A dictionary without slots.
    pub fn new() -> (d: DictionaryHostObject)
        ensures
            d@ == Seq::<DictionaryEntry>::empty(),
    {
        DictionaryHostObject { entries: Vec::new() }
    }

    /// A copy of the slots, in order.
    pub fn clone_slots(&self) -> (slots: Vec<DictionaryEntry>)
        ensures
            slots@ == self@,
    {
        let mut slots: Vec<DictionaryEntry> = Vec::new();
        let mut i: usize = 0;
        while i < self.entries.len()
            invariant
                i <= self.entries.len(),
                slots@ == self@.take(i as int),
            decreases self.entries.len() - i,
        {
            slots.push(self.entries[i]);
            assert(self@.take(i + 1) =~= self@.take(i as int).push(self@[i as int]));
            i = i + 1;
        }
        assert(self@.take(i as int) =~= self@);
        slots
    }

    /// The number of slots.
    pub fn count(&self) -> (n: usize)
        ensures
            n == self@.len(),
    {
        self.entries.len()
    }

    fn find(&self, objects: &ObjectTable, key: Handle) -> (r: Option<usize>)
        ensures
            match r {
                Some(i) => first_match(contents(objects@), self@, key, 0) == Some(i as int) && i
                    < self@.len(),
                None => first_match(contents(objects@), self@, key, 0) is None,
            },
    {
        let hash: u64 = hash_of(objects, key);
        let mut i: usize = 0;
        while i < self.entries.len()
            invariant
                i <= self.entries.len(),
                hash == content_hash(contents(objects@), key),
                first_match(contents(objects@), self@, key, 0) == first_match(
                    contents(objects@),
                    self@,
                    key,
                    i as int,
                ),
            decreases self.entries.len() - i,
        {
            if self.entries[i].hash == hash && keys_equal(objects, self.entries[i].key, key) {
                return Some(i);
            }
            i = i + 1;
        }
        None
    }

    /// The value stored for a key equal to `key`.
    pub fn lookup(&self, objects: &ObjectTable, key: Handle) -> (r: Option<Handle>)
        ensures
            r == looked_up(contents(objects@), self@, key),
    {
        match self.find(objects, key) {
            Some(i) => Some(self.entries[i].value),
            None => None,
        }
    }

    /// Stores `value` for `key`. Where a key equal to `key` has a slot
    /// already, the slot keeps its key, and its value is replaced only where
    /// `overwrite` is set.
    pub fn insert(&mut self, objects: &ObjectTable, key: Handle, value: Handle, overwrite: bool)
        ensures
            final(self)@ == inserted(contents(objects@), old(self)@, key, value, overwrite),
    {
        match self.find(objects, key) {
            Some(i) => {
                if overwrite {
                    let entry = self.entries[i];
                    self.entries.set(i, DictionaryEntry { value, ..entry });
                }
            },
            None => {
                let hash: u64 = hash_of(objects, key);
                self.entries.push(DictionaryEntry { hash, key, value });
            },
        }
    }
}

/// Builds a dictionary object from keys and values that are paired by
/// position, and returns its handle. A key that equals an earlier one is
/// passed over, so that the earlier pair stands. Fails where the two
/// sequences differ in length.
pub fn from_pairs(objc: &mut ObjC, keys: &Vec<Handle>, values: &Vec<Handle>) -> (r: Result<Handle, Error>)
    requires
        old(objc).wf(),
    ensures
        final(objc).wf(),
        final(objc).pools == old(objc).pools,
        match r {
            Ok(h) => {
                &&& keys@.len() == values@.len()
                &&& h == old(objc).objects@.next_handle()
                &&& !h.is_null()
                &&& !old(objc).objects@.was_issued(h)
                &&& final(objc).classes@.is_named(
                    final(objc).objects@.objects[h].class,
                    DICTIONARY_CLASS@,
                )
                &&& final(objc).objects@ == old(objc).objects@.allocated(
                    final(objc).objects@.objects[h].class,
                    PayloadView::Dictionary(
                        built(contents(old(objc).objects@), keys@, values@, keys@.len() as int),
                    ),
                    RetainRecord::Counted(1),
                )
                &&& final(objc).classes@ == old(objc).classes@.with_root_class(DICTIONARY_CLASS@)
            },
            Err(e) => {
                &&& e == Error::LengthMismatch
                &&& keys@.len() != values@.len()
                &&& final(objc).objects@ == old(objc).objects@
                &&& final(objc).classes@ == old(objc).classes@
            },
        },
{
    if keys.len() != values.len() {
        return Err(Error::LengthMismatch);
    }
    let mut dictionary = DictionaryHostObject::new();
    let mut i: usize = 0;
    while i < keys.len()
        invariant
            i <= keys.len(),
            keys.len() == values.len(),
            *objc == *old(objc),
            dictionary@ == built(contents(objc.objects@), keys@, values@, i as int),
        decreases keys.len() - i,
    {
        dictionary.insert(&objc.objects, keys[i], values[i], false);
        i = i + 1;
    }
    let class = match objc.classes.register_class(DICTIONARY_CLASS, None) {
        Ok(c) => c,
        Err(e) => {
            return Err(e);
        },
    };
    let h = objc.objects.allocate(class, Payload::Dictionary(dictionary));
    Ok(h)
}

/// Stores `value` for `key` in the dictionary object `dict`. The slots are
/// taken out of the object while they are worked on, and put back after.
pub fn insert(objc: &mut ObjC, dict: Handle, key: Handle, value: Handle, overwrite: bool) -> (r: Result<(), Error>)
    requires
        old(objc).wf(),
    ensures
        final(objc).wf(),
        final(objc).classes == old(objc).classes,
        final(objc).pools == old(objc).pools,
        match dictionary_of(old(objc).objects@, dict) {
            Ok(entries) => r is Ok && final(objc).objects@ == old(objc).objects@.with_payload(
                dict,
                PayloadView::Dictionary(
                    inserted(contents(old(objc).objects@), entries, key, value, overwrite),
                ),
            ),
            Err(e) => r == Err::<(), Error>(e) && final(objc).objects@ == old(objc).objects@,
        },
{
    let taken = match objc.objects.take(dict, PayloadTag::Dictionary) {
        Ok(p) => p,
        Err(e) => {
            return Err(e);
        },
    };
    proof {
        lemma_contents_ignore_dictionaries(
            old(objc).objects@,
            dict,
            PayloadView::empty(PayloadTag::Dictionary),
        );
    }
    match taken {
        Payload::Dictionary(mut dictionary) => {
            dictionary.insert(&objc.objects, key, value, overwrite);
            let restored = objc.objects.replace(dict, Payload::Dictionary(dictionary));
            assert(objc.objects@ =~= old(objc).objects@.with_payload(
                dict,
                PayloadView::Dictionary(
                    inserted(
                        contents(old(objc).objects@),
                        dictionary_of(old(objc).objects@, dict).unwrap(),
                        key,
                        value,
                        overwrite,
                    ),
                ),
            ));
            restored
        },
        other => {
            let _ = objc.objects.replace(dict, other);
            Err(Error::TypeMismatch)
        },
    }
}

/// The value stored in the dictionary object `dict` for a key equal to
/// `key`.
pub fn lookup(objc: &ObjC, dict: Handle, key: Handle) -> (r: Result<Option<Handle>, Error>)
    ensures
        r == match dictionary_of(objc.objects@, dict) {
            Ok(entries) => Ok::<Option<Handle>, Error>(
                looked_up(contents(objc.objects@), entries, key),
            ),
            Err(e) => Err::<Option<Handle>, Error>(e),
        },
{
    match objc.objects.borrow(dict, PayloadTag::Dictionary) {
        Ok(Payload::Dictionary(dictionary)) => Ok(dictionary.lookup(&objc.objects, key)),
        Ok(_) => Err(Error::TypeMismatch),
        Err(e) => Err(e),
    }
}

/// What a dictionary object holds is no content: the contents that keys are
/// compared by are the same whatever a dictionary object is made to hold.
pub proof fn lemma_contents_ignore_dictionaries(objects: TableView, dict: Handle, payload: PayloadView)
    requires
        objects.is_live(dict),
        objects.objects[dict].tag == PayloadTag::Dictionary,
    ensures
        contents(objects.with_payload(dict, payload)) == contents(objects),
{
    assert(contents(objects.with_payload(dict, payload)) =~= contents(objects));
}

/// What `first_match` finds is a slot of the key, and the first one.
pub proof fn lemma_first_match(
    contents: Map<Handle, PayloadView>,
    entries: Seq<DictionaryEntry>,
    key: Handle,
    from: int,
)
    requires
        0 <= from,
    ensures
        match first_match(contents, entries, key, from) {
            Some(i) => {
                &&& from <= i < entries.len()
                &&& entry_matches(contents, entries[i], key)
                &&& forall|j: int| from <= j < i ==> !entry_matches(contents, #[trigger] entries[j], key)
            },
            None => forall|j: int|
                from <= j < entries.len() ==> !entry_matches(contents, #[trigger] entries[j], key),
        },
    decreases entries.len() - from,
{
    if from < entries.len() && !entry_matches(contents, entries[from], key) {
        lemma_first_match(contents, entries, key, from + 1);
    }
}

/// The first slot of the key is what `first_match` finds.
pub proof fn lemma_first_match_at(
    contents: Map<Handle, PayloadView>,
    entries: Seq<DictionaryEntry>,
    key: Handle,
    from: int,
    at: int,
)
    requires
        0 <= from <= at < entries.len(),
        entry_matches(contents, entries[at], key),
        forall|j: int| from <= j < at ==> !entry_matches(contents, #[trigger] entries[j], key),
    ensures
        first_match(contents, entries, key, from) == Some(at),
    decreases at - from,
{
    if from < at {
        lemma_first_match_at(contents, entries, key, from + 1, at);
    }
}

/// After an insertion the key has a value: the inserted one where the key
/// had no slot or `overwrite` was set, and the one it had otherwise.
pub proof fn lemma_lookup_after_insert(
    contents: Map<Handle, PayloadView>,
    entries: Seq<DictionaryEntry>,
    key: Handle,
    value: Handle,
    overwrite: bool,
)
    ensures
        looked_up(contents, inserted(contents, entries, key, value, overwrite), key) == if overwrite
            || looked_up(contents, entries, key) is None {
            Some(value)
        } else {
            looked_up(contents, entries, key)
        },
{
    let after = inserted(contents, entries, key, value, overwrite);
    lemma_first_match(contents, entries, key, 0);
    match first_match(contents, entries, key, 0) {
        Some(i) => {
            lemma_first_match_at(contents, after, key, 0, i);
        },
        None => {
            lemma_first_match_at(contents, after, key, 0, entries.len() as int);
        },
    }
}

/// An insertion that may not overwrite leaves a value alone that an earlier
/// insertion stored for the key, and one that may overwrite replaces it.
pub proof fn lemma_insert_respects_overwrite(
    contents: Map<Handle, PayloadView>,
    entries: Seq<DictionaryEntry>,
    key: Handle,
    first: Handle,
    second: Handle,
)
    ensures
        looked_up(
            contents,
            inserted(contents, inserted(contents, entries, key, first, true), key, second, false),
            key,
        ) == Some(first),
        looked_up(
            contents,
            inserted(contents, inserted(contents, entries, key, first, true), key, second, true),
            key,
        ) == Some(second),
{
    let once = inserted(contents, entries, key, first, true);
    lemma_lookup_after_insert(contents, entries, key, first, true);
    lemma_lookup_after_insert(contents, once, key, second, false);
    lemma_lookup_after_insert(contents, once, key, second, true);
}

/// Keys are compared by content: in a well-formed dictionary, a key that
/// equals the inserted one, under whatever handle, finds the same value.
pub proof fn lemma_equal_keys_share_a_slot(
    contents: Map<Handle, PayloadView>,
    entries: Seq<DictionaryEntry>,
    key: Handle,
    other: Handle,
)
    requires
        content_equal(contents, key, other),
    ensures
        content_hash(contents, key) == content_hash(contents, other),
        first_match(contents, entries, key, 0) == first_match(contents, entries, other, 0),
        looked_up(contents, entries, key) == looked_up(contents, entries, other),
{
    lemma_first_match(contents, entries, key, 0);
    match first_match(contents, entries, key, 0) {
        Some(i) => {
            lemma_first_match_at(contents, entries, other, 0, i);
        },
        None => {
            lemma_first_match(contents, entries, other, 0);
        },
    }
}

/// An insertion leaves the values of the keys alone that differ from the
/// inserted one.
pub proof fn lemma_insert_leaves_other_keys(
    contents: Map<Handle, PayloadView>,
    entries: Seq<DictionaryEntry>,
    key: Handle,
    value: Handle,
    overwrite: bool,
    other: Handle,
)
    requires
        !content_equal(contents, key, other),
    ensures
        looked_up(contents, inserted(contents, entries, key, value, overwrite), other) == looked_up(
            contents,
            entries,
            other,
        ),
{
    let after = inserted(contents, entries, key, value, overwrite);
    lemma_first_match(contents, entries, key, 0);
    lemma_first_match(contents, entries, other, 0);
    match first_match(contents, entries, other, 0) {
        Some(i) => {
            lemma_first_match_at(contents, after, other, 0, i);
        },
        None => {
            lemma_first_match(contents, after, other, 0);
        },
    }
}

/// An insertion keeps a dictionary well formed: every slot holds the hash of
/// its key, and no two slots have equal keys.
pub proof fn lemma_insert_keeps_slots_wf(
    contents: Map<Handle, PayloadView>,
    entries: Seq<DictionaryEntry>,
    key: Handle,
    value: Handle,
    overwrite: bool,
)
    requires
        slots_wf(contents, entries),
    ensures
        slots_wf(contents, inserted(contents, entries, key, value, overwrite)),
{
    let after = inserted(contents, entries, key, value, overwrite);
    lemma_first_match(contents, entries, key, 0);
    assert forall|i: int, j: int| 0 <= i < j < after.len() implies !content_equal(
        contents,
        (#[trigger] after[i]).key,
        (#[trigger] after[j]).key,
    ) by {
        if j == entries.len() {
            assert(!entry_matches(contents, entries[i], key));
            if content_equal(contents, entries[i].key, key) {
                lemma_equal_keys_share_a_slot(contents, entries, entries[i].key, key);
            }
        } else {
            assert(!content_equal(contents, entries[i].key, entries[j].key));
        }
    }
}

/// What `from_pairs` builds is well formed, whatever the pairs.
pub proof fn lemma_built_is_wf(contents: Map<Handle, PayloadView>, keys: Seq<Handle>, values: Seq<Handle>, n: int)
    ensures
        slots_wf(contents, built(contents, keys, values, n)),
    decreases n,
{
    if n > 0 {
        lemma_built_is_wf(contents, keys, values, n - 1);
        lemma_insert_keeps_slots_wf(
            contents,
            built(contents, keys, values, n - 1),
            keys[n - 1],
            values[n - 1],
            false,
        );
    }
}

/// An insertion keeps the order of the slots: every slot stays where it is
/// and keeps its key, and a new slot comes last.
pub proof fn lemma_insert_keeps_order(
    contents: Map<Handle, PayloadView>,
    entries: Seq<DictionaryEntry>,
    key: Handle,
    value: Handle,
    overwrite: bool,
)
    ensures
        ({
            let after = inserted(contents, entries, key, value, overwrite);
            &&& entries.len() <= after.len() <= entries.len() + 1
            &&& forall|i: int| 0 <= i < entries.len() ==> (#[trigger] after[i]).key == entries[i].key
            &&& after.len() == entries.len() + 1 <==> looked_up(contents, entries, key) is None
            &&& after.len() == entries.len() + 1 ==> after.last().key == key && after.last().value
                == value
        }),
{
    lemma_first_match(contents, entries, key, 0);
}

} // verus!
