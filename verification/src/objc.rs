//! The object model: handles, payloads, the object table, the class
//! hierarchy, message dispatch and memory management.

use vstd::prelude::*;
use crate::error::Error;
use crate::objc::classes::{ClassId, ClassTable, HierarchyView};
use crate::objc::handle::Handle;
use crate::objc::object_table::{ObjectTable, RetainRecord, TableView};
use crate::objc::payload::Payload;

pub mod handle;
pub mod payload;
pub mod object_table;
pub mod classes;
pub mod messages;
pub mod memory;

verus! {

/// The state of the object model: the objects, the classes, and the stack of
/// autorelease pools, innermost last.
pub struct ObjC {
    pub objects: ObjectTable,
    pub classes: ClassTable,
    pub pools: Vec<Vec<Handle>>,
}

impl ObjC {
    /// The open pools, outermost first, each with the handles registered to
    /// it in order of registration.
    pub open spec fn pools_view(&self) -> Seq<Seq<Handle>> {
        Seq::new(self.pools@.len(), |i: int| self.pools@[i]@)
    }

    /// Both tables are well formed, and every live object is of a registered
    /// class.
    pub open spec fn wf(&self) -> bool {
        &&& self.objects.wf()
        &&& self.classes.wf()
        &&& forall|h: Handle| #[trigger]
            self.objects@.objects.dom().contains(h) ==> self.classes@.is_registered(
                self.objects@.objects[h].class,
            )
    }

    /// An object model without objects, classes or pools.
    pub fn new() -> (objc: ObjC)
        ensures
            objc.wf(),
            objc.objects@ == TableView::empty(),
            objc.classes@ == HierarchyView::empty(),
            objc.pools_view() == Seq::<Seq<Handle>>::empty(),
    {
        ObjC { objects: ObjectTable::new(), classes: ClassTable::new(), pools: Vec::new() }
    }

    /// The class registered under `name`.
    pub fn get_known_class(&self, name: &str) -> (r: Result<ClassId, Error>)
        requires
            self.wf(),
        ensures
            match r {
                Ok(c) => self.classes@.is_named(c, name@),
                Err(e) => e == Error::ClassNotFound && forall|d: ClassId|
                    !self.classes@.is_named(d, name@),
            },
    {
        match self.classes.find_class(name) {
            Some(c) => Ok(c),
            None => Err(Error::ClassNotFound),
        }
    }

    /// Creates an object of `class` with the given payload and a retain count
    /// of one. Fails where the class is not registered.
    pub fn allocate(&mut self, class: ClassId, payload: Payload) -> (r: Result<Handle, Error>)
        requires
            old(self).wf(),
        ensures
            final(self).wf(),
            final(self).classes == old(self).classes,
            final(self).pools == old(self).pools,
            match r {
                Ok(h) => {
                    &&& old(self).classes@.is_registered(class)
                    &&& h == old(self).objects@.next_handle()
                    &&& !h.is_null()
                    &&& !old(self).objects@.was_issued(h)
                    &&& final(self).objects@ == old(self).objects@.allocated(
                        class,
                        payload@,
                        RetainRecord::Counted(1),
                    )
                },
                Err(e) => {
                    &&& e == Error::ClassNotFound
                    &&& !old(self).classes@.is_registered(class)
                    &&& final(self).objects@ == old(self).objects@
                },
            },
    {
        if !self.classes.is_registered(class) {
            return Err(Error::ClassNotFound);
        }
        let h = self.objects.allocate(class, payload);
        Ok(h)
    }

    /// Creates an object of `class` that is kept outside reference counting
    /// and pools: it lives until it is destroyed explicitly. Fails where the
    /// class is not registered.
    pub fn allocate_static(&mut self, class: ClassId, payload: Payload) -> (r: Result<Handle, Error>)
        requires
            old(self).wf(),
        ensures
            final(self).wf(),
            final(self).classes == old(self).classes,
            final(self).pools == old(self).pools,
            match r {
                Ok(h) => {
                    &&& old(self).classes@.is_registered(class)
                    &&& h == old(self).objects@.next_handle()
                    &&& !h.is_null()
                    &&& !old(self).objects@.was_issued(h)
                    &&& final(self).objects@ == old(self).objects@.allocated(
                        class,
                        payload@,
                        RetainRecord::Static,
                    )
                },
                Err(e) => {
                    &&& e == Error::ClassNotFound
                    &&& !old(self).classes@.is_registered(class)
                    &&& final(self).objects@ == old(self).objects@
                },
            },
    {
        if !self.classes.is_registered(class) {
            return Err(Error::ClassNotFound);
        }
        let h = self.objects.allocate_static(class, payload);
        Ok(h)
    }
}

} // verus!
