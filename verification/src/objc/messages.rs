//! Message dispatch: from a receiver and a message name to the
//! implementation that the host is to invoke.

use vstd::prelude::*;
use crate::error::Error;
use crate::objc::ObjC;
use crate::objc::classes::{ClassId, HierarchyView, Imp, MethodKind, Resolution, lookup_method};
use crate::objc::handle::Handle;
use crate::objc::object_table::TableView;

verus! {

/// The kind of result that a message is declared to have.
#[derive(Clone, Copy, Debug, PartialEq, Eq, Hash, Structural)]
pub enum ResultKind {
    Void,
    Integer,
    Boolean,
    Object,
    Real,
}

/// A result of a message. A real number is held as the bit pattern of a
/// double-precision value.
#[derive(Clone, Copy, Debug, PartialEq, Eq, Hash, Structural)]
pub enum Value {
    Void,
    Integer(i64),
    Boolean(bool),
    Object(Handle),
    Real(u64),
}

impl ResultKind {
    /// The empty value of the kind: nothing, zero, false, the null handle.
    pub open spec fn spec_empty_value(&self) -> Value {
        match self {
            ResultKind::Void => Value::Void,
            ResultKind::Integer => Value::Integer(0),
            ResultKind::Boolean => Value::Boolean(false),
            ResultKind::Object => Value::Object(Handle::null()),
            ResultKind::Real => Value::Real(0),
        }
    }

    /// The value that a message of this kind has when it is sent to no
    /// object.
    #[verifier::when_used_as_spec(spec_empty_value)]
    pub fn empty_value(&self) -> (v: Value)
        ensures
            v == self.spec_empty_value(),
    {
        match self {
            ResultKind::Void => Value::Void,
            ResultKind::Integer => Value::Integer(0),
            ResultKind::Boolean => Value::Boolean(false),
            ResultKind::Object => Value::Object(Handle::null()),
            ResultKind::Real => Value::Real(0),
        }
    }
}

/// What the host is to do with a message.
#[derive(Clone, Copy, Debug, PartialEq, Eq, Structural)]
pub enum Dispatch {
    /// Invoke nothing: the message has this result.
    Empty(Value),
    /// Invoke the implementation, which was found on the class.
    Invoke(Resolution),
}

/// What a message comes to once its receiver is known to be an object of
/// `receiver_class`: the resolution that starts at `start` if it finds an
/// implementation, else the fallback on the receiver's class, else a failure.
pub open spec fn dispatch_outcome(
    hierarchy: HierarchyView,
    start: Option<ClassId>,
    receiver_class: ClassId,
    kind: MethodKind,
    selector: Seq<char>,
) -> Result<Dispatch, Error> {
    match hierarchy.resolve_from(start, kind, selector) {
        Some(found) => Ok(Dispatch::Invoke(found)),
        None => match hierarchy.fallback {
            Some(imp) => Ok(Dispatch::Invoke(Resolution { class: receiver_class, imp })),
            None => Err(Error::UnknownSelector),
        },
    }
}

/// What an ordinary message to `receiver` comes to.
pub open spec fn send_outcome(
    objects: TableView,
    hierarchy: HierarchyView,
    receiver: Handle,
    selector: Seq<char>,
    result: ResultKind,
) -> Result<Dispatch, Error> {
    if receiver.is_null() {
        Ok(Dispatch::Empty(result.empty_value()))
    } else if !objects.is_live(receiver) {
        Err(Error::InvalidHandle)
    } else {
        let class = objects.objects[receiver].class;
        dispatch_outcome(hierarchy, Some(class), class, MethodKind::Instance, selector)
    }
}

/// What a message to `receiver` comes to when an implementation found on
/// `issuing_class` sends it to its parent.
pub open spec fn send_super_outcome(
    objects: TableView,
    hierarchy: HierarchyView,
    receiver: Handle,
    issuing_class: ClassId,
    selector: Seq<char>,
    result: ResultKind,
) -> Result<Dispatch, Error> {
    if receiver.is_null() {
        Ok(Dispatch::Empty(result.empty_value()))
    } else if !objects.is_live(receiver) {
        Err(Error::InvalidHandle)
    } else if !hierarchy.is_registered(issuing_class) {
        Err(Error::ClassNotFound)
    } else {
        dispatch_outcome(
            hierarchy,
            hierarchy.classes[issuing_class.index as int].parent,
            objects.objects[receiver].class,
            MethodKind::Instance,
            selector,
        )
    }
}

/// What a message to a class itself comes to.
pub open spec fn send_class_outcome(hierarchy: HierarchyView, class: ClassId, selector: Seq<char>) -> Result<
    Dispatch,
    Error,
> {
    if !hierarchy.is_registered(class) {
        Err(Error::ClassNotFound)
    } else {
        dispatch_outcome(hierarchy, Some(class), class, MethodKind::Class, selector)
    }
}

/// The policy for messages that nothing implements: such a message has the
/// empty result of its kind. Every other outcome stands.
pub open spec fn softened(outcome: Result<Dispatch, Error>, result: ResultKind) -> Result<Dispatch, Error> {
    match outcome {
        Err(Error::UnknownSelector) => Ok(Dispatch::Empty(result.empty_value())),
        _ => outcome,
    }
}

/// Applies the policy for messages that nothing implements.
pub fn or_empty(outcome: Result<Dispatch, Error>, result: ResultKind) -> (r: Result<Dispatch, Error>)
    ensures
        r == softened(outcome, result),
{
    match outcome {
        Err(Error::UnknownSelector) => Ok(Dispatch::Empty(result.empty_value())),
        _ => outcome,
    }
}

impl ObjC {
    /// Ordinary dispatch. A message to the null handle has the empty result
    /// of its kind and invokes nothing. Otherwise the search starts at the
    /// class of the receiver and goes up the chain of parents.
    pub fn send(&self, receiver: Handle, selector: &str, result: ResultKind) -> (r: Result<Dispatch, Error>)
        ensures
            r == send_outcome(self.objects@, self.classes@, receiver, selector@, result),
            receiver.is_null() ==> r == Ok::<Dispatch, Error>(Dispatch::Empty(result.empty_value())),
    {
        if receiver.is_null() {
            return Ok(Dispatch::Empty(result.empty_value()));
        }
        let class = match self.objects.class_of(receiver) {
            Ok(c) => c,
            Err(e) => {
                return Err(e);
            },
        };
        self.dispatch(Some(class), class, MethodKind::Instance, selector)
    }

    /// Dispatch to the parent of the class whose implementation sends the
    /// message: the search skips the class of the receiver and starts at the
    /// parent of `issuing_class`.
    pub fn send_super(&self, receiver: Handle, issuing_class: ClassId, selector: &str, result: ResultKind) -> (r:
        Result<Dispatch, Error>)
        ensures
            r == send_super_outcome(
                self.objects@,
                self.classes@,
                receiver,
                issuing_class,
                selector@,
                result,
            ),
            receiver.is_null() ==> r == Ok::<Dispatch, Error>(Dispatch::Empty(result.empty_value())),
    {
        if receiver.is_null() {
            return Ok(Dispatch::Empty(result.empty_value()));
        }
        let class = match self.objects.class_of(receiver) {
            Ok(c) => c,
            Err(e) => {
                return Err(e);
            },
        };
        let start = match self.classes.parent_of(issuing_class) {
            Ok(p) => p,
            Err(e) => {
                return Err(e);
            },
        };
        self.dispatch(start, class, MethodKind::Instance, selector)
    }

    /// Dispatch of a message to a class itself: the search goes through the
    /// class-level registrations of the class and of its ancestors.
    pub fn send_class(&self, class: ClassId, selector: &str) -> (r: Result<Dispatch, Error>)
        ensures
            r == send_class_outcome(self.classes@, class, selector@),
    {
        if !self.classes.is_registered(class) {
            return Err(Error::ClassNotFound);
        }
        self.dispatch(Some(class), class, MethodKind::Class, selector)
    }

    fn dispatch(&self, start: Option<ClassId>, receiver_class: ClassId, kind: MethodKind, selector: &str) -> (r:
        Result<Dispatch, Error>)
        ensures
            r == dispatch_outcome(self.classes@, start, receiver_class, kind, selector@),
    {
        match self.classes.resolve(start, kind, selector) {
            Some(found) => Ok(Dispatch::Invoke(found)),
            None => match self.classes.fallback() {
                Some(imp) => Ok(Dispatch::Invoke(Resolution { class: receiver_class, imp })),
                None => Err(Error::UnknownSelector),
            },
        }
    }
}

/// A message to the null handle has the empty result of its kind, whatever
/// the objects, the classes, the message name and the class that sends it to
/// its parent: no implementation is invoked.
pub proof fn lemma_null_receiver_yields_empty(
    objects: TableView,
    hierarchy: HierarchyView,
    issuing_class: ClassId,
    selector: Seq<char>,
    result: ResultKind,
)
    ensures
        send_outcome(objects, hierarchy, Handle::null(), selector, result) == Ok::<Dispatch, Error>(
            Dispatch::Empty(result.empty_value()),
        ),
        send_super_outcome(objects, hierarchy, Handle::null(), issuing_class, selector, result) == Ok::<
            Dispatch,
            Error,
        >(Dispatch::Empty(result.empty_value())),
        softened(send_outcome(objects, hierarchy, Handle::null(), selector, result), result) == Ok::<
            Dispatch,
            Error,
        >(Dispatch::Empty(result.empty_value())),
{
}

/// The class closest to the receiver wins: where the class at which the
/// search starts has a registration of the name itself, its latest one is
/// the resolution, whatever its ancestors register.
pub proof fn lemma_own_registration_wins(hierarchy: HierarchyView, class: ClassId, kind: MethodKind, selector: Seq<char>)
    requires
        hierarchy.is_registered(class),
        lookup_method(
            hierarchy.classes[class.index as int].methods(kind),
            selector,
        ) is Some,
    ensures
        hierarchy.resolve_from(Some(class), kind, selector) == Some(
            Resolution {
                class,
                imp: lookup_method(
                    hierarchy.classes[class.index as int].methods(kind),
                    selector,
                ).unwrap(),
            },
        ),
{
}

/// A class that has no registration of the name resolves it as its parent
/// does.
pub proof fn lemma_inherits_from_parent(hierarchy: HierarchyView, class: ClassId, kind: MethodKind, selector: Seq<char>)
    requires
        hierarchy.wf(),
        hierarchy.is_registered(class),
        lookup_method(
            hierarchy.classes[class.index as int].methods(kind),
            selector,
        ) is None,
    ensures
        hierarchy.resolve_from(Some(class), kind, selector) == hierarchy.resolve_from(
            hierarchy.classes[class.index as int].parent,
            kind,
            selector,
        ),
{
}

/// The latest registration wins: once `imp` is registered for a name on a
/// class, messages of that name and kind that start at the class resolve to
/// it, whatever was registered for the name before.
pub proof fn lemma_latest_registration_wins(
    hierarchy: HierarchyView,
    class: ClassId,
    kind: MethodKind,
    selector: Seq<char>,
    imp: Imp,
)
    requires
        hierarchy.is_registered(class),
    ensures
        hierarchy.with_method(class, kind, selector, imp).resolve_from(Some(class), kind, selector)
            == Some(Resolution { class, imp }),
{
}

/// A registration changes the resolution of its own name and kind only:
/// messages of another name, and messages of the other kind, resolve as
/// before, wherever the search starts. Class-directed dispatch and the
/// dispatch to instances do not touch each other.
pub proof fn lemma_registration_leaves_others(
    hierarchy: HierarchyView,
    class: ClassId,
    kind: MethodKind,
    selector: Seq<char>,
    imp: Imp,
    start: int,
    other_kind: MethodKind,
    other_selector: Seq<char>,
)
    requires
        hierarchy.is_registered(class),
        other_kind != kind || other_selector != selector,
    ensures
        hierarchy.with_method(class, kind, selector, imp).resolve(start, other_kind, other_selector)
            == hierarchy.resolve(start, other_kind, other_selector),
    decreases start,
{
    let after = hierarchy.with_method(class, kind, selector, imp);
    if 0 <= start < hierarchy.classes.len() {
        let before_methods = hierarchy.classes[start].methods(other_kind);
        let after_methods = after.classes[start].methods(other_kind);
        if start == class.index && other_kind == kind {
            assert(after_methods.drop_last() =~= before_methods);
        } else {
            assert(after_methods == before_methods);
        }
        match hierarchy.classes[start].parent {
            Some(p) => {
                if p.index < start {
                    lemma_registration_leaves_others(
                        hierarchy,
                        class,
                        kind,
                        selector,
                        imp,
                        p.index as int,
                        other_kind,
                        other_selector,
                    );
                }
            },
            None => {},
        }
    }
}

} // verus!
