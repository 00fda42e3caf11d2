//! The object table: every live object's class, payload and retain record,
//! addressed by handle.

use vstd::prelude::*;
use crate::error::Error;
use crate::objc::classes::ClassId;
use crate::objc::handle::Handle;
use crate::objc::payload::{Payload, PayloadTag, PayloadView};

verus! {

/// How an object's lifetime is kept: by a count of references, or not at all
/// for an object that lives until it is destroyed explicitly.
#[derive(Clone, Copy, Debug, PartialEq, Eq, Structural)]
pub enum RetainRecord {
    Counted(u64),
    Static,
}

struct ObjectEntry {
    class: ClassId,
    tag: PayloadTag,
    payload: Payload,
    retain: RetainRecord,
}

/// One live object, as mathematical values. The tag is the one the object
/// was created with.
pub struct ObjectView {
    pub class: ClassId,
    pub tag: PayloadTag,
    pub payload: PayloadView,
    pub retain: RetainRecord,
}

impl View for ObjectEntry {
    type V = ObjectView;

    closed spec fn view(&self) -> ObjectView {
        ObjectView { class: self.class, tag: self.tag, payload: self.payload@, retain: self.retain }
    }
}

/// The abstract state of an object table: the live objects, and how many
/// handles have been issued so far. Handles are issued in ascending order
/// and never again.
#[verifier::ext_equal]
pub struct TableView {
    pub objects: Map<Handle, ObjectView>,
    pub issued: nat,
}

impl TableView {
    /// The table that has issued no handle.
    pub open spec fn empty() -> TableView {
        TableView { objects: Map::empty(), issued: 0 }
    }

    /// Every live handle has been issued, and every counted live object has a
    /// count of at least one.
    pub open spec fn wf(self) -> bool {
        &&& self.issued <= usize::MAX
        &&& forall|h: Handle| #[trigger]
            self.objects.dom().contains(h) ==> 1 <= h.raw <= self.issued
        &&& forall|h: Handle| #[trigger]
            self.objects.dom().contains(h) ==> (self.objects[h].retain matches RetainRecord::Counted(
                n,
            ) ==> n >= 1)
    }

    /// Whether `h` denotes a live object.
    pub open spec fn is_live(self, h: Handle) -> bool {
        self.objects.dom().contains(h)
    }

    /// Whether `h` was ever returned by an allocation.
    pub open spec fn was_issued(self, h: Handle) -> bool {
        1 <= h.raw <= self.issued
    }

    /// Issued once, and no longer live.
    pub open spec fn is_stale(self, h: Handle) -> bool {
        self.was_issued(h) && !self.is_live(h)
    }

    /// The handle that the next allocation returns.
    pub open spec fn next_handle(self) -> Handle {
        Handle { raw: (self.issued + 1) as usize }
    }

    /// The table after an allocation.
    pub open spec fn allocated(self, class: ClassId, payload: PayloadView, retain: RetainRecord) -> TableView {
        TableView {
            objects: self.objects.insert(
                self.next_handle(),
                ObjectView { class, tag: payload.tag(), payload, retain },
            ),
            issued: self.issued + 1,
        }
    }

    /// Whether the payload of `h` can be had under `tag`: the object is live,
    /// was created with that tag, and still holds a payload of it.
    pub open spec fn readable(self, h: Handle, tag: PayloadTag) -> bool {
        &&& self.is_live(h)
        &&& self.objects[h].tag == tag
        &&& self.objects[h].payload.tag() == tag
    }

    /// What a typed access to the payload of `h` yields.
    pub open spec fn access(self, h: Handle, tag: PayloadTag) -> Result<PayloadView, Error> {
        if !self.is_live(h) {
            Err(Error::InvalidHandle)
        } else if !self.readable(h, tag) {
            Err(Error::TypeMismatch)
        } else {
            Ok(self.objects[h].payload)
        }
    }

    /// The table in which `h` holds `payload`, and nothing else has changed.
    pub open spec fn with_payload(self, h: Handle, payload: PayloadView) -> TableView {
        TableView {
            objects: self.objects.insert(h, ObjectView { payload, ..self.objects[h] }),
            ..self
        }
    }

    /// The table in which `h` has the retain record `retain`, and nothing
    /// else has changed.
    pub open spec fn with_retain(self, h: Handle, retain: RetainRecord) -> TableView {
        TableView {
            objects: self.objects.insert(h, ObjectView { retain, ..self.objects[h] }),
            ..self
        }
    }

    /// Whether a payload of `tag` may be put into `h`.
    pub open spec fn replace_outcome(self, h: Handle, tag: PayloadTag) -> Result<(), Error> {
        if !self.is_live(h) {
            Err(Error::InvalidHandle)
        } else if self.objects[h].tag != tag {
            Err(Error::TypeMismatch)
        } else {
            Ok(())
        }
    }

    /// The table without `h`.
    pub open spec fn removed(self, h: Handle) -> TableView {
        TableView { objects: self.objects.remove(h), ..self }
    }
}

/// Owns every live object.
pub struct ObjectTable {
    slots: Vec<Option<ObjectEntry>>,
}

impl View for ObjectTable {
    type V = TableView;

    closed spec fn view(&self) -> TableView {
        TableView {
            objects: Map::new(
                |h: Handle| 1 <= h.raw <= self.slots@.len() && self.slots@[h.raw - 1] is Some,
                |h: Handle| self.slots@[h.raw - 1].unwrap()@,
            ),
            issued: self.slots@.len(),
        }
    }
}

impl ObjectTable {
    /// The invariant of the table.
    pub open spec fn wf(&self) -> bool {
        self@.wf()
    }

    /// A table without objects.
    pub fn new() -> (t: ObjectTable)
        ensures
            t.wf(),
            t@ == TableView::empty(),
    {
        let t = ObjectTable { slots: Vec::new() };
        assert(t@.objects =~= Map::<Handle, ObjectView>::empty());
        t
    }

    fn insert_object(&mut self, class: ClassId, payload: Payload, retain: RetainRecord) -> (h: Handle)
        requires
            old(self).wf(),
            retain matches RetainRecord::Counted(n) ==> n >= 1,
        ensures
            final(self).wf(),
            old(self)@.issued < usize::MAX,
            h == old(self)@.next_handle(),
            final(self)@ == old(self)@.allocated(class, payload@, retain),
    {
        let tag = payload.tag();
        self.slots.push(Some(ObjectEntry { class, tag, payload, retain }));
        let h = Handle { raw: self.slots.len() };
        proof {
            assert(self@.objects =~= old(self)@.allocated(class, payload@, retain).objects);
        }
        h
    }

    /// Creates an object of `class` with the given payload and a retain count
    /// of one, under a handle that was never issued before.
    pub fn allocate(&mut self, class: ClassId, payload: Payload) -> (h: Handle)
        requires
            old(self).wf(),
        ensures
            final(self).wf(),
            h == old(self)@.next_handle(),
            !h.is_null(),
            !old(self)@.was_issued(h),
            final(self)@ == old(self)@.allocated(class, payload@, RetainRecord::Counted(1)),
    {
        self.insert_object(class, payload, RetainRecord::Counted(1))
    }

    /// Creates an object that is kept outside reference counting: retaining
    /// and releasing leave it alone, and it lives until it is destroyed.
    pub fn allocate_static(&mut self, class: ClassId, payload: Payload) -> (h: Handle)
        requires
            old(self).wf(),
        ensures
            final(self).wf(),
            h == old(self)@.next_handle(),
            !h.is_null(),
            !old(self)@.was_issued(h),
            final(self)@ == old(self)@.allocated(class, payload@, RetainRecord::Static),
    {
        self.insert_object(class, payload, RetainRecord::Static)
    }

    /// Whether `handle` denotes a live object.
    pub fn is_live(&self, handle: Handle) -> (r: bool)
        ensures
            r == self@.is_live(handle),
    {
        if handle.raw == 0 || handle.raw > self.slots.len() {
            return false;
        }
        self.slots[handle.raw - 1].is_some()
    }

    /// Whether `handle` was ever returned by an allocation of this table.
    pub fn was_issued(&self, handle: Handle) -> (r: bool)
        ensures
            r == self@.was_issued(handle),
    {
        handle.raw >= 1 && handle.raw <= self.slots.len()
    }

    /// The class of a live object.
    pub fn class_of(&self, handle: Handle) -> (r: Result<ClassId, Error>)
        ensures
            r == if self@.is_live(handle) {
                Ok::<ClassId, Error>(self@.objects[handle].class)
            } else {
                Err::<ClassId, Error>(Error::InvalidHandle)
            },
    {
        if handle.raw == 0 || handle.raw > self.slots.len() {
            return Err(Error::InvalidHandle);
        }
        match &self.slots[handle.raw - 1] {
            Some(entry) => Ok(entry.class),
            None => Err(Error::InvalidHandle),
        }
    }

    /// The retain record of a live object.
    pub fn retain_record(&self, handle: Handle) -> (r: Result<RetainRecord, Error>)
        ensures
            r == if self@.is_live(handle) {
                Ok::<RetainRecord, Error>(self@.objects[handle].retain)
            } else {
                Err::<RetainRecord, Error>(Error::InvalidHandle)
            },
    {
        if handle.raw == 0 || handle.raw > self.slots.len() {
            return Err(Error::InvalidHandle);
        }
        match &self.slots[handle.raw - 1] {
            Some(entry) => Ok(entry.retain),
            None => Err(Error::InvalidHandle),
        }
    }

    /// Read access to the payload of `handle` under `tag`.
    pub fn borrow(&self, handle: Handle, tag: PayloadTag) -> (r: Result<&Payload, Error>)
        ensures
            match r {
                Ok(p) => self@.access(handle, tag) == Ok::<PayloadView, Error>(p@),
                Err(e) => self@.access(handle, tag) == Err::<PayloadView, Error>(e),
            },
    {
        if handle.raw == 0 || handle.raw > self.slots.len() {
            return Err(Error::InvalidHandle);
        }
        match &self.slots[handle.raw - 1] {
            Some(entry) => {
                if entry.tag == tag && entry.payload.tag() == tag {
                    Ok(&entry.payload)
                } else {
                    Err(Error::TypeMismatch)
                }
            },
            None => Err(Error::InvalidHandle),
        }
    }

    /// Write access to the payload of `handle` under `tag`. The table after
    /// the borrow holds whatever the borrower leaves behind the reference.
    pub fn borrow_mut(&mut self, handle: Handle, tag: PayloadTag) -> (r: Result<&mut Payload, Error>)
        ensures
            match r {
                Ok(p) => old(self)@.access(handle, tag) == Ok::<PayloadView, Error>(p@)
                    && final(self)@ =~= old(self)@.with_payload(handle, final(p)@),
                Err(e) => old(self)@.access(handle, tag) == Err::<PayloadView, Error>(e)
                    && final(self)@ == old(self)@,
            },
    {
        match self.borrow(handle, tag) {
            Err(e) => {
                return Err(e);
            },
            Ok(_) => {},
        }
        match &mut self.slots[handle.raw - 1] {
            Some(entry) => Ok(&mut entry.payload),
            None => Err(Error::InvalidHandle),
        }
    }

    /// Moves the payload of `handle` out, leaving the empty payload of its
    /// tag in its place, so that the caller may work on it while the table is
    /// free to be used.
    pub fn take(&mut self, handle: Handle, tag: PayloadTag) -> (r: Result<Payload, Error>)
        requires
            old(self).wf(),
        ensures
            final(self).wf(),
            match r {
                Ok(p) => old(self)@.access(handle, tag) == Ok::<PayloadView, Error>(p@)
                    && final(self)@ == old(self)@.with_payload(handle, PayloadView::empty(tag)),
                Err(e) => old(self)@.access(handle, tag) == Err::<PayloadView, Error>(e)
                    && final(self)@ == old(self)@,
            },
    {
        match self.borrow_mut(handle, tag) {
            Ok(p) => {
                let mut out = Payload::empty(tag);
                core::mem::swap(p, &mut out);
                Ok(out)
            },
            Err(e) => Err(e),
        }
    }

    /// Puts `payload` into the object `handle`, in place of what it holds.
    /// The payload must be of the tag the object was created with.
    pub fn replace(&mut self, handle: Handle, payload: Payload) -> (r: Result<(), Error>)
        requires
            old(self).wf(),
        ensures
            final(self).wf(),
            r == old(self)@.replace_outcome(handle, payload@.tag()),
            final(self)@ == if r is Ok {
                old(self)@.with_payload(handle, payload@)
            } else {
                old(self)@
            },
    {
        if !self.is_live(handle) {
            return Err(Error::InvalidHandle);
        }
        let tag = payload.tag();
        let fits = match &self.slots[handle.raw - 1] {
            Some(entry) => entry.tag == tag,
            None => false,
        };
        if !fits {
            return Err(Error::TypeMismatch);
        }
        match &mut self.slots[handle.raw - 1] {
            Some(entry) => {
                entry.payload = payload;
            },
            None => {},
        }
        assert(self@ =~= old(self)@.with_payload(handle, payload@));
        Ok(())
    }

    /// Sets the retain count of a live, counted object.
    pub(crate) fn set_retain_count(&mut self, handle: Handle, count: u64)
        requires
            old(self).wf(),
            old(self)@.is_live(handle),
            old(self)@.objects[handle].retain is Counted,
            count >= 1,
        ensures
            final(self).wf(),
            final(self)@ == old(self)@.with_retain(handle, RetainRecord::Counted(count)),
    {
        match &mut self.slots[handle.raw - 1] {
            Some(entry) => {
                entry.retain = RetainRecord::Counted(count);
            },
            None => {},
        }
        assert(self@ =~= old(self)@.with_retain(handle, RetainRecord::Counted(count)));
    }

    /// Destroys the object `handle`, whatever its retain record says. The
    /// handle is stale from then on.
    pub fn deallocate(&mut self, handle: Handle) -> (r: Result<(), Error>)
        requires
            old(self).wf(),
        ensures
            final(self).wf(),
            r == if old(self)@.is_live(handle) {
                Ok::<(), Error>(())
            } else {
                Err::<(), Error>(Error::InvalidHandle)
            },
            final(self)@ == if r is Ok {
                old(self)@.removed(handle)
            } else {
                old(self)@
            },
    {
        if !self.is_live(handle) {
            return Err(Error::InvalidHandle);
        }
        self.slots.set(handle.raw - 1, None);
        assert(self@ =~= old(self)@.removed(handle));
        Ok(())
    }
}

/// Whatever is written through a mutable borrow, the table keeps its
/// invariant, and the object keeps its class, its tag and its retain record.
pub proof fn lemma_with_payload_keeps_invariant(table: TableView, h: Handle, payload: PayloadView)
    requires
        table.wf(),
        table.is_live(h),
    ensures
        table.with_payload(h, payload).wf(),
        table.with_payload(h, payload).objects.dom() == table.objects.dom(),
        table.with_payload(h, payload).objects[h].class == table.objects[h].class,
        table.with_payload(h, payload).objects[h].tag == table.objects[h].tag,
        table.with_payload(h, payload).objects[h].retain == table.objects[h].retain,
{
    assert(table.with_payload(h, payload).objects.dom() =~= table.objects.dom());
}

} // verus!
