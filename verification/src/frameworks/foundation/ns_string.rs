//! String objects, and the order of values.

use vstd::prelude::*;
use core::cmp::Ordering;
use crate::frameworks::foundation::{NSComparisonResult, NSOrderedAscending, NSOrderedDescending, NSOrderedSame};
use crate::objc::ObjC;
use crate::objc::handle::Handle;
use crate::objc::object_table::RetainRecord;
use crate::objc::payload::{Payload, PayloadView};

verus! {

/// The name of the class of string objects.
pub const STRING_CLASS: &'static str = "NSString";

/// The comparison result that stands for an ordering: ascending for less,
/// same for equal, descending for greater.
pub fn from_rust_ordering(ordering: Ordering) -> (r: NSComparisonResult)
    ensures
        r == match ordering {
            Ordering::Less => NSOrderedAscending,
            Ordering::Equal => NSOrderedSame,
            Ordering::Greater => NSOrderedDescending,
        },
{
    match ordering {
        Ordering::Less => NSOrderedAscending,
        Ordering::Equal => NSOrderedSame,
        Ordering::Greater => NSOrderedDescending,
    }
}

/// Creates a string object with the given text that lives as long as the
/// process: it is kept outside reference counting and pools. The class of
/// strings is registered where it was not.
pub fn get_static_str(objc: &mut ObjC, text: &str) -> (h: Handle)
    requires
        old(objc).wf(),
    ensures
        final(objc).wf(),
        final(objc).pools == old(objc).pools,
        h == old(objc).objects@.next_handle(),
        !h.is_null(),
        !old(objc).objects@.was_issued(h),
        final(objc).classes@.is_named(final(objc).objects@.objects[h].class, STRING_CLASS@),
        final(objc).objects@ == old(objc).objects@.allocated(
            final(objc).objects@.objects[h].class,
            PayloadView::Text(text@),
            RetainRecord::Static,
        ),
        final(objc).classes@ == old(objc).classes@.with_root_class(STRING_CLASS@),
{
    let class = match objc.classes.register_class(STRING_CLASS, None) {
        Ok(c) => c,
        Err(_) => {
            assert(false);
            return Handle::null();
        },
    };
    objc.objects.allocate_static(class, Payload::Text(text.to_owned()))
}

} // verus!
