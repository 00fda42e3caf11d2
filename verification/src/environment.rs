//! The state of one process: the object model and what the frameworks keep
//! beside it.

use vstd::prelude::*;
use crate::frameworks::FrameworkState;
use crate::objc::ObjC;
use crate::objc::classes::HierarchyView;
use crate::objc::handle::Handle;
use crate::objc::object_table::TableView;

verus! {

/// Everything the operations of the frameworks work on. It is handed to
/// each of them: nothing is kept in global variables.
pub struct Environment {
    pub objc: ObjC,
    pub framework_state: FrameworkState,
}

impl Environment {
    /// The object model is well formed, and the device object, once it was
    /// created, is a live object outside reference counting.
    pub open spec fn wf(&self) -> bool {
        &&& self.objc.wf()
        &&& self.framework_state.uikit.ui_device@ matches Some(device) ==> {
            &&& self.objc.objects@.is_live(device)
            &&& self.objc.objects@.objects[device].retain is Static
        }
    }

    /// A process that has created nothing yet.
    pub fn new() -> (env: Environment)
        ensures
            env.wf(),
            env.objc.objects@ == TableView::empty(),
            env.objc.classes@ == HierarchyView::empty(),
            env.objc.pools_view() == Seq::<Seq<Handle>>::empty(),
            env.framework_state.foundation.ns_user_defaults@ is None,
            env.framework_state.uikit.ui_device@ is None,
    {
        Environment { objc: ObjC::new(), framework_state: FrameworkState::new() }
    }
}

} // verus!
