//! The device: one object for the lifetime of the process, and its
//! orientation.

#![allow(non_upper_case_globals)]

use vstd::prelude::*;
use crate::environment::Environment;
use crate::error::Error;
use crate::frameworks::foundation::NSInteger;
use crate::objc::classes::ClassId;
use crate::objc::handle::Handle;
use crate::objc::object_table::RetainRecord;
use crate::objc::payload::{Payload, PayloadView};

verus! {

/// The name of the notification that tells of a change of orientation.
pub const UIDeviceOrientationDidChangeNotification: &'static str =
    "UIDeviceOrientationDidChangeNotification";

/// How the device is held.
pub type UIDeviceOrientation = NSInteger;

pub const UIDeviceOrientationUnknown: UIDeviceOrientation = 0;

pub const UIDeviceOrientationPortrait: UIDeviceOrientation = 1;

pub const UIDeviceOrientationPortraitUpsideDown: UIDeviceOrientation = 2;

pub const UIDeviceOrientationLandscapeLeft: UIDeviceOrientation = 3;

pub const UIDeviceOrientationLandscapeRight: UIDeviceOrientation = 4;

pub const UIDeviceOrientationFaceUp: UIDeviceOrientation = 5;

pub const UIDeviceOrientationFaceDown: UIDeviceOrientation = 6;

/// How the window is rotated.
#[derive(Clone, Copy, Debug, PartialEq, Eq, Structural)]
pub enum DeviceOrientation {
    Portrait,
    LandscapeLeft,
    LandscapeRight,
}

/// What the device keeps: the device object, once it was created.
pub struct State {
    current_device: Option<Handle>,
}

impl View for State {
    type V = Option<Handle>;

    closed spec fn view(&self) -> Option<Handle> {
        self.current_device
    }
}

impl Default for State {
    /// The state in which the device object was not created yet.
    fn default() -> (s: State)
        ensures
            s@ is None,
    {
        State { current_device: None }
    }
}

impl State {
    /// The state in which the device object was not created yet.
    pub fn new() -> (s: State)
        ensures
            s@ is None,
    {
        State { current_device: None }
    }

    /// The device object, if it was created.
    pub fn current_device(&self) -> (r: Option<Handle>)
        ensures
            r == self@,
    {
        self.current_device
    }
}

/// The device object, of class `this`. The first request creates it, outside
/// reference counting and pools, and every later request returns the same
/// handle and changes nothing. Fails where the object has to be created and
/// the class is not registered.
pub fn current_device(env: &mut Environment, this: ClassId) -> (r: Result<Handle, Error>)
    requires
        old(env).wf(),
    ensures
        final(env).wf(),
        final(env).objc.classes == old(env).objc.classes,
        final(env).objc.pools == old(env).objc.pools,
        final(env).framework_state.foundation == old(env).framework_state.foundation,
        match old(env).framework_state.uikit.ui_device@ {
            Some(device) => {
                &&& r == Ok::<Handle, Error>(device)
                &&& final(env).objc.objects@ == old(env).objc.objects@
                &&& final(env).framework_state.uikit.ui_device@ == Some(device)
            },
            None => match r {
                Ok(device) => {
                    &&& old(env).objc.classes@.is_registered(this)
                    &&& device == old(env).objc.objects@.next_handle()
                    &&& !device.is_null()
                    &&& !old(env).objc.objects@.was_issued(device)
                    &&& final(env).objc.objects@ == old(env).objc.objects@.allocated(
                        this,
                        PayloadView::Trivial,
                        RetainRecord::Static,
                    )
                    &&& final(env).framework_state.uikit.ui_device@ == Some(device)
                },
                Err(e) => {
                    &&& e == Error::ClassNotFound
                    &&& !old(env).objc.classes@.is_registered(this)
                    &&& final(env).objc.objects@ == old(env).objc.objects@
                    &&& final(env).framework_state.uikit.ui_device@ is None
                },
            },
        },
{
    match env.framework_state.uikit.ui_device.current_device {
        Some(device) => {
            return Ok(device);
        },
        None => {},
    }
    let new = match env.objc.allocate_static(this, Payload::Trivial) {
        Ok(h) => h,
        Err(e) => {
            return Err(e);
        },
    };
    env.framework_state.uikit.ui_device.current_device = Some(new);
    Ok(new)
}

/// The orientation of the device for a rotation of the window.
pub fn orientation(rotation: DeviceOrientation) -> (r: UIDeviceOrientation)
    ensures
        r == match rotation {
            DeviceOrientation::Portrait => UIDeviceOrientationPortrait,
            DeviceOrientation::LandscapeLeft => UIDeviceOrientationLandscapeLeft,
            DeviceOrientation::LandscapeRight => UIDeviceOrientationLandscapeRight,
        },
{
    match rotation {
        DeviceOrientation::Portrait => UIDeviceOrientationPortrait,
        DeviceOrientation::LandscapeLeft => UIDeviceOrientationLandscapeLeft,
        DeviceOrientation::LandscapeRight => UIDeviceOrientationLandscapeRight,
    }
}

} // verus!
