use core::cmp::Ordering;
use object_bridge::environment::Environment;
use object_bridge::error::Error;
use object_bridge::frameworks::foundation::ns_dictionary::{from_pairs, insert, lookup};
use object_bridge::frameworks::foundation::ns_string::{from_rust_ordering, get_static_str};
use object_bridge::frameworks::foundation::ns_user_defaults::{register_defaults, standard_user_defaults, State};
use object_bridge::frameworks::foundation::{NSOrderedAscending, NSOrderedDescending, NSOrderedSame};
use object_bridge::frameworks::uikit::ui_device::{
    current_device, orientation, DeviceOrientation, UIDeviceOrientationLandscapeLeft, UIDeviceOrientationLandscapeRight,
    UIDeviceOrientationPortrait,
};
use object_bridge::objc::classes::ClassId;
use object_bridge::objc::handle::Handle;
use object_bridge::objc::object_table::RetainRecord;
use object_bridge::objc::payload::{Payload, PayloadTag};

fn environment() -> (Environment, ClassId) {
    let mut env = Environment::new();
    let object = env.objc.classes.register_class("NSObject", None).unwrap();
    let device = env.objc.classes.register_class("UIDevice", Some(object)).unwrap();
    (env, device)
}

#[test]
fn current_device_is_one_object_that_survives_pool_drains() {
    let (mut env, device_class) = environment();
    env.objc.push_pool();
    let first = current_device(&mut env, device_class).unwrap();
    env.objc.push_pool();
    let second = current_device(&mut env, device_class).unwrap();
    assert_eq!(first, second);
    env.objc.autorelease(second);
    assert_eq!(env.objc.drain_pool(), Ok(()));
    assert!(env.objc.objects.is_live(first));
    assert_eq!(env.objc.drain_pool(), Ok(()));
    assert!(env.objc.objects.is_live(first));
    assert_eq!(current_device(&mut env, device_class), Ok(first));
    assert_eq!(env.objc.objects.retain_record(first), Ok(RetainRecord::Static));
    assert_eq!(env.objc.objects.class_of(first), Ok(device_class));
    assert_eq!(env.objc.objects.borrow(first, PayloadTag::Trivial), Ok(&Payload::Trivial));
    assert_eq!(env.framework_state.uikit.ui_device.current_device(), Some(first));
}

#[test]
fn current_device_of_an_unregistered_class_fails_and_caches_nothing() {
    let (mut env, device_class) = environment();
    assert_eq!(current_device(&mut env, ClassId { index: 9 }), Err(Error::ClassNotFound));
    assert_eq!(env.framework_state.uikit.ui_device.current_device(), None);
    let device = current_device(&mut env, device_class).unwrap();
    assert_eq!(current_device(&mut env, ClassId { index: 9 }), Ok(device));
}

#[test]
fn standard_user_defaults_are_built_once() {
    let (mut env, _device_class) = environment();
    let object = env.objc.get_known_class("NSObject").unwrap();
    let languages = env.objc.allocate(object, Payload::Text("en".to_string())).unwrap();
    assert_eq!(State::get(&mut env).standard_defaults(), None);
    let defaults = standard_user_defaults(&mut env, languages).unwrap();
    assert_eq!(defaults, Handle { raw: 3 });
    assert_eq!(State::get(&mut env).standard_defaults(), Some(defaults));
    let issued_before = env.objc.objects.was_issued(Handle { raw: 4 });
    assert_eq!(standard_user_defaults(&mut env, Handle::null()), Ok(defaults));
    assert_eq!(env.objc.objects.was_issued(Handle { raw: 4 }), issued_before);
    assert!(!issued_before);
    let key = env.objc.allocate(object, Payload::Text("AppleLanguages".to_string())).unwrap();
    assert_eq!(lookup(&env.objc, defaults, key), Ok(Some(languages)));
    let stored_key = Handle { raw: 2 };
    assert_eq!(env.objc.objects.retain_record(stored_key), Ok(RetainRecord::Static));
    assert_eq!(
        env.objc.objects.borrow(stored_key, PayloadTag::Text),
        Ok(&Payload::Text("AppleLanguages".to_string()))
    );
    assert_eq!(env.objc.objects.class_of(stored_key), env.objc.get_known_class("NSString"));
    assert_eq!(env.objc.objects.retain_record(defaults), Ok(RetainRecord::Counted(1)));
}

#[test]
fn state_is_reached_through_the_environment() {
    let (mut env, _device_class) = environment();
    let state = State::get(&mut env);
    assert_eq!(state.standard_defaults(), None);
    *state = State::new();
    assert_eq!(env.framework_state.foundation.ns_user_defaults.standard_defaults(), None);
}

#[test]
fn register_defaults_fills_in_what_is_missing() {
    let (mut env, _device_class) = environment();
    let object = env.objc.get_known_class("NSObject").unwrap();
    let objc = &mut env.objc;
    let a = objc.allocate(object, Payload::Text("a".to_string())).unwrap();
    let b = objc.allocate(object, Payload::Text("b".to_string())).unwrap();
    let c = objc.allocate(object, Payload::Text("c".to_string())).unwrap();
    let one = objc.allocate(object, Payload::Integer(1)).unwrap();
    let two = objc.allocate(object, Payload::Integer(2)).unwrap();
    let three = objc.allocate(object, Payload::Integer(3)).unwrap();
    let defaults = from_pairs(objc, &vec![a], &vec![one]).unwrap();
    let more = from_pairs(objc, &vec![c, a, b], &vec![three, two, two]).unwrap();
    assert_eq!(register_defaults(objc, defaults, more), Ok(()));
    assert_eq!(lookup(objc, defaults, a), Ok(Some(one)));
    assert_eq!(lookup(objc, defaults, b), Ok(Some(two)));
    assert_eq!(lookup(objc, defaults, c), Ok(Some(three)));
    match objc.objects.borrow(defaults, PayloadTag::Dictionary) {
        Ok(Payload::Dictionary(d)) => {
            let keys: Vec<Handle> = d.entries.iter().map(|e| e.key).collect();
            assert_eq!(keys, vec![a, c, b]);
        }
        other => panic!("not a dictionary: {:?}", other),
    }
    assert_eq!(lookup(objc, more, a), Ok(Some(two)));
    assert_eq!(register_defaults(objc, defaults, defaults), Ok(()));
    assert_eq!(lookup(objc, defaults, a), Ok(Some(one)));
}

#[test]
fn register_defaults_needs_two_dictionaries() {
    let (mut env, _device_class) = environment();
    let object = env.objc.get_known_class("NSObject").unwrap();
    let objc = &mut env.objc;
    let number = objc.allocate(object, Payload::Integer(1)).unwrap();
    let dict = from_pairs(objc, &vec![number], &vec![number]).unwrap();
    assert_eq!(register_defaults(objc, dict, number), Err(Error::TypeMismatch));
    assert_eq!(register_defaults(objc, number, dict), Err(Error::TypeMismatch));
    assert_eq!(register_defaults(objc, dict, Handle::null()), Err(Error::InvalidHandle));
    assert_eq!(register_defaults(objc, Handle { raw: 50 }, dict), Err(Error::InvalidHandle));
    assert_eq!(insert(objc, dict, number, dict, true), Ok(()));
    assert_eq!(lookup(objc, dict, number), Ok(Some(dict)));
}

#[test]
fn static_strings_live_outside_reference_counting() {
    let (mut env, _device_class) = environment();
    let s = get_static_str(&mut env.objc, "iPhone OS");
    assert_eq!(env.objc.objects.retain_record(s), Ok(RetainRecord::Static));
    assert_eq!(env.objc.objects.borrow(s, PayloadTag::Text), Ok(&Payload::Text("iPhone OS".to_string())));
    assert_eq!(env.objc.objects.class_of(s), env.objc.get_known_class("NSString"));
    env.objc.push_pool();
    env.objc.autorelease(s);
    assert_eq!(env.objc.drain_pool(), Ok(()));
    assert_eq!(env.objc.release(s), Ok(false));
    assert!(env.objc.objects.is_live(s));
}

#[test]
fn orderings_as_comparison_results() {
    assert_eq!(from_rust_ordering(Ordering::Less), -1);
    assert_eq!(from_rust_ordering(Ordering::Equal), 0);
    assert_eq!(from_rust_ordering(Ordering::Greater), 1);
    assert_eq!(from_rust_ordering(1.cmp(&2)), NSOrderedAscending);
    assert_eq!(from_rust_ordering(2.cmp(&2)), NSOrderedSame);
    assert_eq!(from_rust_ordering(3.cmp(&2)), NSOrderedDescending);
}

#[test]
fn orientation_of_the_device_follows_the_window() {
    assert_eq!(orientation(DeviceOrientation::Portrait), 1);
    assert_eq!(orientation(DeviceOrientation::LandscapeLeft), 3);
    assert_eq!(orientation(DeviceOrientation::LandscapeRight), 4);
    assert_eq!(UIDeviceOrientationPortrait, 1);
    assert_eq!(UIDeviceOrientationLandscapeLeft, 3);
    assert_eq!(UIDeviceOrientationLandscapeRight, 4);
}

#[test]
fn a_new_environment_is_empty() {
    let env = Environment::new();
    assert_eq!(env.objc.pool_depth(), 0);
    assert_eq!(env.objc.classes.class_count(), 0);
    assert!(!env.objc.objects.was_issued(Handle { raw: 1 }));
    assert_eq!(env.framework_state.foundation.ns_user_defaults.standard_defaults(), None);
    assert_eq!(env.framework_state.uikit.ui_device.current_device(), None);
}
