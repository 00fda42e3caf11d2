use object_bridge::error::Error;
use object_bridge::objc::classes::ClassId;
use object_bridge::objc::handle::Handle;
use object_bridge::objc::object_table::{ObjectTable, RetainRecord};
use object_bridge::objc::payload::{Payload, PayloadTag};
use object_bridge::objc::ObjC;

fn counter_class(objc: &mut ObjC) -> ClassId {
    objc.classes.register_class("Counter", None).unwrap()
}

fn read_integer(objc: &ObjC, handle: Handle) -> i64 {
    match objc.objects.borrow(handle, PayloadTag::Integer) {
        Ok(Payload::Integer(value)) => *value,
        other => panic!("not an integer: {:?}", other),
    }
}

#[test]
fn counter_is_read_written_and_read_again() {
    let mut objc = ObjC::new();
    let class = counter_class(&mut objc);
    let counter = objc.allocate(class, Payload::Integer(5)).unwrap();
    assert_eq!(read_integer(&objc, counter), 5);
    match objc.objects.borrow_mut(counter, PayloadTag::Integer) {
        Ok(Payload::Integer(value)) => *value = 10,
        other => panic!("not an integer: {:?}", other),
    }
    assert_eq!(read_integer(&objc, counter), 10);
}

#[test]
fn allocation_starts_with_one_reference() {
    let mut objc = ObjC::new();
    let class = counter_class(&mut objc);
    let h = objc.allocate(class, Payload::Trivial).unwrap();
    assert!(!h.is_null());
    assert!(objc.objects.is_live(h));
    assert_eq!(objc.objects.retain_record(h), Ok(RetainRecord::Counted(1)));
    assert_eq!(objc.objects.class_of(h), Ok(class));
}

#[test]
fn handles_are_issued_in_ascending_order_and_never_again() {
    let mut objc = ObjC::new();
    let class = counter_class(&mut objc);
    let first = objc.allocate(class, Payload::Trivial).unwrap();
    let second = objc.allocate(class, Payload::Trivial).unwrap();
    assert_eq!(first, Handle { raw: 1 });
    assert_eq!(second, Handle { raw: 2 });
    assert_eq!(objc.release(first), Ok(true));
    let third = objc.allocate(class, Payload::Trivial).unwrap();
    assert_eq!(third, Handle { raw: 3 });
    assert!(!objc.objects.is_live(first));
    assert!(objc.objects.was_issued(first));
    assert!(!objc.objects.was_issued(Handle { raw: 4 }));
}

#[test]
fn allocation_of_an_unregistered_class_fails() {
    let mut objc = ObjC::new();
    let missing = ClassId { index: 0 };
    assert_eq!(objc.allocate(missing, Payload::Trivial), Err(Error::ClassNotFound));
    assert_eq!(objc.allocate_static(missing, Payload::Trivial), Err(Error::ClassNotFound));
    let class = counter_class(&mut objc);
    assert_eq!(class, ClassId { index: 0 });
    assert_eq!(objc.allocate(ClassId { index: 1 }, Payload::Trivial), Err(Error::ClassNotFound));
    assert!(objc.allocate(class, Payload::Trivial).is_ok());
}

#[test]
fn borrow_of_null_stale_and_unknown_handles_fails() {
    let mut objc = ObjC::new();
    let class = counter_class(&mut objc);
    let h = objc.allocate(class, Payload::Integer(1)).unwrap();
    assert_eq!(objc.release(h), Ok(true));
    assert_eq!(objc.objects.borrow(Handle::null(), PayloadTag::Integer), Err(Error::InvalidHandle));
    assert_eq!(objc.objects.borrow(h, PayloadTag::Integer), Err(Error::InvalidHandle));
    assert_eq!(objc.objects.borrow(Handle { raw: 77 }, PayloadTag::Integer), Err(Error::InvalidHandle));
    assert!(matches!(objc.objects.borrow_mut(h, PayloadTag::Integer), Err(Error::InvalidHandle)));
    assert_eq!(objc.objects.take(h, PayloadTag::Integer), Err(Error::InvalidHandle));
    assert_eq!(objc.objects.replace(h, Payload::Integer(2)), Err(Error::InvalidHandle));
    assert_eq!(objc.objects.class_of(h), Err(Error::InvalidHandle));
    assert_eq!(objc.objects.retain_record(h), Err(Error::InvalidHandle));
    assert_eq!(objc.objects.deallocate(h), Err(Error::InvalidHandle));
}

#[test]
fn borrow_under_the_wrong_tag_fails() {
    let mut objc = ObjC::new();
    let class = counter_class(&mut objc);
    let h = objc.allocate(class, Payload::Integer(1)).unwrap();
    assert_eq!(objc.objects.borrow(h, PayloadTag::Text), Err(Error::TypeMismatch));
    assert_eq!(objc.objects.borrow(h, PayloadTag::Trivial), Err(Error::TypeMismatch));
    assert!(matches!(objc.objects.borrow_mut(h, PayloadTag::Dictionary), Err(Error::TypeMismatch)));
    assert_eq!(objc.objects.take(h, PayloadTag::Instant), Err(Error::TypeMismatch));
    assert_eq!(objc.objects.borrow(h, PayloadTag::Integer), Ok(&Payload::Integer(1)));
}

#[test]
fn take_leaves_the_empty_payload_and_replace_restores() {
    let mut objc = ObjC::new();
    let class = counter_class(&mut objc);
    let text = objc.allocate(class, Payload::Text("hello".to_string())).unwrap();
    let taken = objc.objects.take(text, PayloadTag::Text).unwrap();
    assert_eq!(taken, Payload::Text("hello".to_string()));
    assert_eq!(objc.objects.borrow(text, PayloadTag::Text), Ok(&Payload::Text(String::new())));
    assert_eq!(objc.objects.replace(text, Payload::Text("world".to_string())), Ok(()));
    assert_eq!(objc.objects.borrow(text, PayloadTag::Text), Ok(&Payload::Text("world".to_string())));
}

#[test]
fn empty_payloads_of_each_tag() {
    assert_eq!(Payload::empty(PayloadTag::Trivial), Payload::Trivial);
    assert_eq!(Payload::empty(PayloadTag::Integer), Payload::Integer(0));
    assert_eq!(Payload::empty(PayloadTag::Text), Payload::Text(String::new()));
    assert_eq!(Payload::empty(PayloadTag::Instant), Payload::Instant(0));
    assert_eq!(Payload::empty(PayloadTag::Dictionary).tag(), PayloadTag::Dictionary);
    assert_eq!(Payload::Integer(3).tag(), PayloadTag::Integer);
    assert_eq!(Payload::Text("x".to_string()).tag(), PayloadTag::Text);
    assert_eq!(Payload::Instant(9).tag(), PayloadTag::Instant);
    assert_eq!(Payload::Trivial.tag(), PayloadTag::Trivial);
}

#[test]
fn replace_with_a_payload_of_another_tag_fails() {
    let mut objc = ObjC::new();
    let class = counter_class(&mut objc);
    let h = objc.allocate(class, Payload::Integer(1)).unwrap();
    assert_eq!(objc.objects.replace(h, Payload::Text("no".to_string())), Err(Error::TypeMismatch));
    assert_eq!(read_integer(&objc, h), 1);
    assert_eq!(objc.objects.replace(h, Payload::Integer(2)), Ok(()));
    assert_eq!(read_integer(&objc, h), 2);
}

#[test]
fn the_tag_of_an_object_never_changes() {
    let mut objc = ObjC::new();
    let class = counter_class(&mut objc);
    let h = objc.allocate(class, Payload::Integer(1)).unwrap();
    match objc.objects.borrow_mut(h, PayloadTag::Integer) {
        Ok(payload) => *payload = Payload::Text("other".to_string()),
        Err(e) => panic!("{:?}", e),
    }
    assert_eq!(objc.objects.borrow(h, PayloadTag::Text), Err(Error::TypeMismatch));
    assert_eq!(objc.objects.borrow(h, PayloadTag::Integer), Err(Error::TypeMismatch));
    assert_eq!(objc.objects.replace(h, Payload::Integer(4)), Ok(()));
    assert_eq!(read_integer(&objc, h), 4);
}

#[test]
fn deallocate_destroys_a_static_object() {
    let mut objc = ObjC::new();
    let class = counter_class(&mut objc);
    let h = objc.allocate_static(class, Payload::Trivial).unwrap();
    assert_eq!(objc.objects.retain_record(h), Ok(RetainRecord::Static));
    assert_eq!(objc.objects.deallocate(h), Ok(()));
    assert!(!objc.objects.is_live(h));
    assert_eq!(objc.objects.deallocate(h), Err(Error::InvalidHandle));
}

#[test]
fn a_table_of_its_own_works_without_classes() {
    let mut table = ObjectTable::new();
    let h = table.allocate(ClassId { index: 3 }, Payload::Instant(42));
    assert_eq!(table.borrow(h, PayloadTag::Instant), Ok(&Payload::Instant(42)));
    assert_eq!(table.class_of(h), Ok(ClassId { index: 3 }));
    assert!(!table.is_live(Handle::null()));
    assert!(Handle::null().is_null());
    assert!(!h.is_null());
}

#[test]
fn only_an_unknown_selector_is_recoverable() {
    assert!(Error::UnknownSelector.is_recoverable());
    assert!(!Error::ClassNotFound.is_recoverable());
    assert!(!Error::InvalidHandle.is_recoverable());
    assert!(!Error::TypeMismatch.is_recoverable());
    assert!(!Error::DoubleRelease.is_recoverable());
    assert!(!Error::LengthMismatch.is_recoverable());
}
