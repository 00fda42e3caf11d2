use object_bridge::error::Error;
use object_bridge::objc::classes::{ClassId, ClassTable, Imp, MethodKind, Resolution};
use object_bridge::objc::handle::Handle;
use object_bridge::objc::messages::{or_empty, Dispatch, ResultKind, Value};
use object_bridge::objc::payload::Payload;
use object_bridge::objc::ObjC;

struct Zoo {
    objc: ObjC,
    object: ClassId,
    view: ClassId,
    alert: ClassId,
}

fn zoo() -> Zoo {
    let mut objc = ObjC::new();
    let object = objc.classes.register_class("NSObject", None).unwrap();
    let view = objc.classes.register_class("UIView", Some(object)).unwrap();
    let alert = objc.classes.register_class("UIAlertView", Some(view)).unwrap();
    objc.classes.register_method(object, MethodKind::Instance, "init", Imp { id: 1 }).unwrap();
    objc.classes.register_method(object, MethodKind::Instance, "description", Imp { id: 2 }).unwrap();
    objc.classes.register_method(view, MethodKind::Instance, "init", Imp { id: 3 }).unwrap();
    objc.classes.register_method(alert, MethodKind::Instance, "init", Imp { id: 4 }).unwrap();
    objc.classes.register_method(alert, MethodKind::Instance, "show", Imp { id: 5 }).unwrap();
    objc.classes.register_method(object, MethodKind::Class, "alloc", Imp { id: 6 }).unwrap();
    Zoo { objc, object, view, alert }
}

fn invoke(class: ClassId, id: usize) -> Result<Dispatch, Error> {
    Ok(Dispatch::Invoke(Resolution { class, imp: Imp { id } }))
}

#[test]
fn message_to_null_has_the_empty_result_of_its_kind() {
    let z = zoo();
    let null = Handle::null();
    assert_eq!(z.objc.send(null, "init", ResultKind::Object), Ok(Dispatch::Empty(Value::Object(Handle::null()))));
    assert_eq!(z.objc.send(null, "count", ResultKind::Integer), Ok(Dispatch::Empty(Value::Integer(0))));
    assert_eq!(z.objc.send(null, "boolValue", ResultKind::Boolean), Ok(Dispatch::Empty(Value::Boolean(false))));
    assert_eq!(z.objc.send(null, "show", ResultKind::Void), Ok(Dispatch::Empty(Value::Void)));
    assert_eq!(z.objc.send(null, "timeIntervalSinceNow", ResultKind::Real), Ok(Dispatch::Empty(Value::Real(0))));
    assert_eq!(z.objc.send(null, "nobodyImplementsThis", ResultKind::Integer), Ok(Dispatch::Empty(Value::Integer(0))));
    assert_eq!(z.objc.send_super(null, z.alert, "init", ResultKind::Object), Ok(Dispatch::Empty(Value::Object(Handle::null()))));
    assert_eq!(
        z.objc.send_super(null, ClassId { index: 99 }, "init", ResultKind::Boolean),
        Ok(Dispatch::Empty(Value::Boolean(false)))
    );
    let empty = ObjC::new();
    assert_eq!(empty.send(null, "init", ResultKind::Object), Ok(Dispatch::Empty(Value::Object(Handle::null()))));
}

#[test]
fn empty_values() {
    assert_eq!(ResultKind::Void.empty_value(), Value::Void);
    assert_eq!(ResultKind::Integer.empty_value(), Value::Integer(0));
    assert_eq!(ResultKind::Boolean.empty_value(), Value::Boolean(false));
    assert_eq!(ResultKind::Object.empty_value(), Value::Object(Handle { raw: 0 }));
    assert_eq!(ResultKind::Real.empty_value(), Value::Real(0));
}

#[test]
fn the_closest_class_wins() {
    let mut z = zoo();
    let alert = z.objc.allocate(z.alert, Payload::Trivial).unwrap();
    let view = z.objc.allocate(z.view, Payload::Trivial).unwrap();
    let object = z.objc.allocate(z.object, Payload::Trivial).unwrap();
    assert_eq!(z.objc.send(alert, "init", ResultKind::Object), invoke(z.alert, 4));
    assert_eq!(z.objc.send(view, "init", ResultKind::Object), invoke(z.view, 3));
    assert_eq!(z.objc.send(object, "init", ResultKind::Object), invoke(z.object, 1));
}

#[test]
fn a_message_is_inherited_from_the_nearest_ancestor() {
    let mut z = zoo();
    let alert = z.objc.allocate(z.alert, Payload::Trivial).unwrap();
    let view = z.objc.allocate(z.view, Payload::Trivial).unwrap();
    assert_eq!(z.objc.send(alert, "description", ResultKind::Object), invoke(z.object, 2));
    assert_eq!(z.objc.send(view, "description", ResultKind::Object), invoke(z.object, 2));
    assert_eq!(z.objc.send(view, "show", ResultKind::Void), Err(Error::UnknownSelector));
}

#[test]
fn super_dispatch_starts_at_the_parent_of_the_issuing_class() {
    let mut z = zoo();
    let alert = z.objc.allocate(z.alert, Payload::Trivial).unwrap();
    assert_eq!(z.objc.send_super(alert, z.alert, "init", ResultKind::Object), invoke(z.view, 3));
    assert_eq!(z.objc.send_super(alert, z.view, "init", ResultKind::Object), invoke(z.object, 1));
    assert_eq!(z.objc.send_super(alert, z.object, "init", ResultKind::Object), Err(Error::UnknownSelector));
    assert_eq!(z.objc.send_super(alert, z.alert, "show", ResultKind::Void), Err(Error::UnknownSelector));
    assert_eq!(
        z.objc.send_super(alert, ClassId { index: 99 }, "init", ResultKind::Object),
        Err(Error::ClassNotFound)
    );
}

#[test]
fn the_latest_registration_of_a_name_wins() {
    let mut z = zoo();
    let alert = z.objc.allocate(z.alert, Payload::Trivial).unwrap();
    z.objc.classes.register_method(z.alert, MethodKind::Instance, "show", Imp { id: 50 }).unwrap();
    assert_eq!(z.objc.send(alert, "show", ResultKind::Void), invoke(z.alert, 50));
    z.objc.classes.register_method(z.alert, MethodKind::Instance, "other", Imp { id: 51 }).unwrap();
    z.objc.classes.register_method(z.alert, MethodKind::Instance, "show", Imp { id: 52 }).unwrap();
    assert_eq!(z.objc.send(alert, "show", ResultKind::Void), invoke(z.alert, 52));
    assert_eq!(z.objc.send(alert, "other", ResultKind::Void), invoke(z.alert, 51));
}

#[test]
fn class_messages_and_instance_messages_do_not_mix() {
    let mut z = zoo();
    let object = z.objc.allocate(z.object, Payload::Trivial).unwrap();
    assert_eq!(z.objc.send_class(z.alert, "alloc"), invoke(z.object, 6));
    assert_eq!(z.objc.send_class(z.object, "alloc"), invoke(z.object, 6));
    assert_eq!(z.objc.send_class(z.alert, "init"), Err(Error::UnknownSelector));
    assert_eq!(z.objc.send(object, "alloc", ResultKind::Object), Err(Error::UnknownSelector));
    z.objc.classes.register_method(z.view, MethodKind::Class, "alloc", Imp { id: 60 }).unwrap();
    assert_eq!(z.objc.send_class(z.alert, "alloc"), invoke(z.view, 60));
    assert_eq!(z.objc.send_class(z.object, "alloc"), invoke(z.object, 6));
    assert_eq!(z.objc.send_class(ClassId { index: 99 }, "alloc"), Err(Error::ClassNotFound));
}

#[test]
fn a_stale_receiver_is_an_invalid_handle() {
    let mut z = zoo();
    let alert = z.objc.allocate(z.alert, Payload::Trivial).unwrap();
    assert_eq!(z.objc.release(alert), Ok(true));
    assert_eq!(z.objc.send(alert, "init", ResultKind::Object), Err(Error::InvalidHandle));
    assert_eq!(z.objc.send_super(alert, z.alert, "init", ResultKind::Object), Err(Error::InvalidHandle));
    assert_eq!(z.objc.send(Handle { raw: 1234 }, "init", ResultKind::Object), Err(Error::InvalidHandle));
}

#[test]
fn an_unknown_selector_goes_to_the_fallback_if_there_is_one() {
    let mut z = zoo();
    let alert = z.objc.allocate(z.alert, Payload::Trivial).unwrap();
    assert_eq!(z.objc.send(alert, "dance", ResultKind::Void), Err(Error::UnknownSelector));
    assert_eq!(z.objc.classes.fallback(), None);
    z.objc.classes.register_fallback(Imp { id: 70 });
    assert_eq!(z.objc.classes.fallback(), Some(Imp { id: 70 }));
    assert_eq!(z.objc.send(alert, "dance", ResultKind::Void), invoke(z.alert, 70));
    assert_eq!(z.objc.send(alert, "show", ResultKind::Void), invoke(z.alert, 5));
    assert_eq!(z.objc.send_super(alert, z.object, "init", ResultKind::Object), invoke(z.alert, 70));
    assert_eq!(z.objc.send_class(z.view, "dance"), invoke(z.view, 70));
}

#[test]
fn an_unknown_selector_softens_to_the_empty_result() {
    let mut z = zoo();
    let alert = z.objc.allocate(z.alert, Payload::Trivial).unwrap();
    let hard = z.objc.send(alert, "dance", ResultKind::Integer);
    assert_eq!(hard, Err(Error::UnknownSelector));
    assert_eq!(or_empty(hard, ResultKind::Integer), Ok(Dispatch::Empty(Value::Integer(0))));
    assert_eq!(or_empty(Err(Error::UnknownSelector), ResultKind::Object), Ok(Dispatch::Empty(Value::Object(Handle::null()))));
    assert_eq!(or_empty(Err(Error::InvalidHandle), ResultKind::Integer), Err(Error::InvalidHandle));
    assert_eq!(or_empty(Err(Error::ClassNotFound), ResultKind::Integer), Err(Error::ClassNotFound));
    assert_eq!(or_empty(invoke(z.alert, 5), ResultKind::Void), invoke(z.alert, 5));
}

#[test]
fn registering_a_class_twice_returns_the_first() {
    let mut classes = ClassTable::new();
    let object = classes.register_class("NSObject", None).unwrap();
    let date = classes.register_class("NSDate", Some(object)).unwrap();
    assert_eq!(object, ClassId { index: 0 });
    assert_eq!(date, ClassId { index: 1 });
    assert_eq!(classes.register_class("NSDate", None), Ok(date));
    assert_eq!(classes.register_class("NSObject", Some(date)), Ok(object));
    assert_eq!(classes.class_count(), 2);
    assert_eq!(classes.parent_of(date), Ok(Some(object)));
    assert_eq!(classes.parent_of(object), Ok(None));
    assert_eq!(classes.parent_of(ClassId { index: 2 }), Err(Error::ClassNotFound));
    assert_eq!(classes.find_class("NSDate"), Some(date));
    assert_eq!(classes.find_class("NSDat"), None);
    assert!(classes.is_registered(date));
    assert!(!classes.is_registered(ClassId { index: 2 }));
}

#[test]
fn a_parent_must_be_registered_first() {
    let mut classes = ClassTable::new();
    assert_eq!(classes.register_class("Child", Some(ClassId { index: 0 })), Err(Error::ClassNotFound));
    assert_eq!(classes.class_count(), 0);
    assert_eq!(
        classes.register_method(ClassId { index: 0 }, MethodKind::Instance, "init", Imp { id: 1 }),
        Err(Error::ClassNotFound)
    );
}

#[test]
fn resolution_without_a_start_finds_nothing() {
    let z = zoo();
    assert_eq!(z.objc.classes.resolve(None, MethodKind::Instance, "init"), None);
    assert_eq!(
        z.objc.classes.resolve(Some(z.alert), MethodKind::Instance, "description"),
        Some(Resolution { class: z.object, imp: Imp { id: 2 } })
    );
    assert_eq!(z.objc.classes.resolve(Some(ClassId { index: 9 }), MethodKind::Instance, "init"), None);
}

#[test]
fn known_classes_are_found_by_name() {
    let z = zoo();
    assert_eq!(z.objc.get_known_class("UIView"), Ok(z.view));
    assert_eq!(z.objc.get_known_class("UIWindow"), Err(Error::ClassNotFound));
}
