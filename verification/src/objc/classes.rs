//! The single-inheritance class hierarchy and the resolution of messages
//! against it.

use vstd::prelude::*;
use crate::error::Error;

verus! {

/// Identifies a class of the hierarchy: its position in order of
/// registration.
#[derive(Clone, Copy, Debug, PartialEq, Eq, Hash, Structural)]
pub struct ClassId {
    pub index: usize,
}

/// Identifies an implementation that the host can invoke.
#[derive(Clone, Copy, Debug, PartialEq, Eq, Hash, Structural)]
pub struct Imp {
    pub id: usize,
}

/// Whether a message is meant for the instances of a class or for the class
/// itself.
#[derive(Clone, Copy, Debug, PartialEq, Eq, Hash, Structural)]
pub enum MethodKind {
    Instance,
    Class,
}

/// Where the resolution of a message ended: the class that implements it, and
/// the implementation.
#[derive(Clone, Copy, Debug, PartialEq, Eq, Structural)]
pub struct Resolution {
    pub class: ClassId,
    pub imp: Imp,
}

struct Method {
    selector: String,
    imp: Imp,
}

/// One registration of a message name on a class.
pub struct MethodView {
    pub selector: Seq<char>,
    pub imp: Imp,
}

impl View for Method {
    type V = MethodView;

    closed spec fn view(&self) -> MethodView {
        MethodView { selector: self.selector@, imp: self.imp }
    }
}

struct ClassDescriptor {
    name: String,
    parent: Option<ClassId>,
    instance_methods: Vec<Method>,
    class_methods: Vec<Method>,
}

/// One class: its name, its parent if it has one, and its registrations in
/// the order in which they were made.
#[verifier::ext_equal]
pub struct ClassView {
    pub name: Seq<char>,
    pub parent: Option<ClassId>,
    pub instance_methods: Seq<MethodView>,
    pub class_methods: Seq<MethodView>,
}

impl ClassView {
    /// The registrations of one kind.
    pub open spec fn methods(self, kind: MethodKind) -> Seq<MethodView> {
        match kind {
            MethodKind::Instance => self.instance_methods,
            MethodKind::Class => self.class_methods,
        }
    }

    /// The class with one more registration of the given kind.
    pub open spec fn with_method(self, kind: MethodKind, method: MethodView) -> ClassView {
        match kind {
            MethodKind::Instance => ClassView {
                instance_methods: self.instance_methods.push(method),
                ..self
            },
            MethodKind::Class => ClassView { class_methods: self.class_methods.push(method), ..self },
        }
    }
}

spec fn methods_view(methods: Seq<Method>) -> Seq<MethodView> {
    Seq::new(methods.len(), |i: int| methods[i]@)
}

impl View for ClassDescriptor {
    type V = ClassView;

    closed spec fn view(&self) -> ClassView {
        ClassView {
            name: self.name@,
            parent: self.parent,
            instance_methods: methods_view(self.instance_methods@),
            class_methods: methods_view(self.class_methods@),
        }
    }
}

/// The implementation that a list of registrations gives a message name: that
/// of the latest registration of the name.
pub open spec fn lookup_method(methods: Seq<MethodView>, selector: Seq<char>) -> Option<Imp>
    decreases methods.len(),
{
    if methods.len() == 0 {
        None
    } else if methods.last().selector == selector {
        Some(methods.last().imp)
    } else {
        lookup_method(methods.drop_last(), selector)
    }
}

/// The abstract state of the hierarchy: the classes in order of registration,
/// and the implementation that takes the messages nothing else implements.
#[verifier::ext_equal]
pub struct HierarchyView {
    pub classes: Seq<ClassView>,
    pub fallback: Option<Imp>,
}

impl HierarchyView {
    /// The hierarchy without classes.
    pub open spec fn empty() -> HierarchyView {
        HierarchyView { classes: Seq::empty(), fallback: None }
    }

    /// A parent is registered before its children, so that the parent links
    /// form no cycle, and no two classes have one name.
    pub open spec fn wf(self) -> bool {
        &&& forall|i: int|
            0 <= i < self.classes.len() ==> ((#[trigger] self.classes[i]).parent matches Some(p)
                ==> p.index < i)
        &&& forall|i: int, j: int|
            0 <= i < j < self.classes.len() ==> (#[trigger] self.classes[i]).name != (
            #[trigger] self.classes[j]).name
    }

    /// Whether `class` is a class of the hierarchy.
    pub open spec fn is_registered(self, class: ClassId) -> bool {
        class.index < self.classes.len()
    }

    /// Whether `class` is registered under `name`.
    pub open spec fn is_named(self, class: ClassId, name: Seq<char>) -> bool {
        self.is_registered(class) && self.classes[class.index as int].name == name
    }

    /// Resolution that starts at the class of index `start`: the class
    /// itself, then its parent, then the parent of that, and so on; the
    /// first class that has a registration of the name decides.
    pub open spec fn resolve(self, start: int, kind: MethodKind, selector: Seq<char>) -> Option<Resolution>
        decreases start,
    {
        if start < 0 || start >= self.classes.len() {
            None
        } else {
            match lookup_method(self.classes[start].methods(kind), selector) {
                Some(imp) => Some(Resolution { class: ClassId { index: start as usize }, imp }),
                None => match self.classes[start].parent {
                    Some(p) => if p.index < start {
                        self.resolve(p.index as int, kind, selector)
                    } else {
                        None
                    },
                    None => None,
                },
            }
        }
    }

    /// Resolution that starts at `start`, or finds nothing where there is no
    /// class to start at.
    pub open spec fn resolve_from(self, start: Option<ClassId>, kind: MethodKind, selector: Seq<char>) -> Option<Resolution> {
        match start {
            Some(c) => self.resolve(c.index as int, kind, selector),
            None => None,
        }
    }

    /// The hierarchy with one more class, which has no registrations yet.
    pub open spec fn with_class(self, name: Seq<char>, parent: Option<ClassId>) -> HierarchyView {
        HierarchyView {
            classes: self.classes.push(
                ClassView { name, parent, instance_methods: Seq::empty(), class_methods: Seq::empty() },
            ),
            ..self
        }
    }

    /// The hierarchy in which a class of the given name is sure to exist: the
    /// hierarchy itself where it has one, else the hierarchy with such a
    /// class added, without a parent.
    pub open spec fn with_root_class(self, name: Seq<char>) -> HierarchyView {
        if exists|d: ClassId| self.is_named(d, name) {
            self
        } else {
            self.with_class(name, None)
        }
    }

    /// The hierarchy with one more registration on `class`.
    pub open spec fn with_method(self, class: ClassId, kind: MethodKind, selector: Seq<char>, imp: Imp) -> HierarchyView {
        HierarchyView {
            classes: self.classes.update(
                class.index as int,
                self.classes[class.index as int].with_method(kind, MethodView { selector, imp }),
            ),
            ..self
        }
    }
}

/// The classes, their parent links and their registrations.
pub struct ClassTable {
    classes: Vec<ClassDescriptor>,
    fallback: Option<Imp>,
}

impl View for ClassTable {
    type V = HierarchyView;

    closed spec fn view(&self) -> HierarchyView {
        HierarchyView {
            classes: Seq::new(self.classes@.len(), |i: int| self.classes@[i]@),
            fallback: self.fallback,
        }
    }
}

fn find_method(methods: &Vec<Method>, selector: &String) -> (r: Option<Imp>)
    ensures
        r == lookup_method(methods_view(methods@), selector@),
{
    let ghost all = methods_view(methods@);
    let mut i: usize = methods.len();
    assert(all.take(i as int) =~= all);
    while i > 0
        invariant
            i <= methods.len(),
            all == methods_view(methods@),
            lookup_method(all, selector@) == lookup_method(all.take(i as int), selector@),
        decreases i,
    {
        i = i - 1;
        assert(all.take(i + 1).drop_last() =~= all.take(i as int));
        if methods[i].selector == *selector {
            return Some(methods[i].imp);
        }
    }
    assert(all.take(0).len() == 0);
    None
}

impl ClassTable {
    /// The invariant of the hierarchy.
    pub open spec fn wf(&self) -> bool {
        self@.wf()
    }

    /// A hierarchy without classes.
    pub fn new() -> (t: ClassTable)
        ensures
            t.wf(),
            t@ == HierarchyView::empty(),
    {
        let t = ClassTable { classes: Vec::new(), fallback: None };
        assert(t@ =~= HierarchyView::empty());
        t
    }

    /// Whether `class` is a class of this hierarchy.
    pub fn is_registered(&self, class: ClassId) -> (r: bool)
        ensures
            r == self@.is_registered(class),
    {
        class.index < self.classes.len()
    }

    /// The number of classes.
    pub fn class_count(&self) -> (n: usize)
        ensures
            n == self@.classes.len(),
    {
        self.classes.len()
    }

    /// The class registered under `name`: the first one, where the
    /// invariant does not hold and there are several.
    pub fn find_class(&self, name: &str) -> (r: Option<ClassId>)
        ensures
            match r {
                Some(c) => self@.is_named(c, name@) && forall|d: ClassId|
                    d.index < c.index ==> !self@.is_named(d, name@),
                None => forall|d: ClassId| !self@.is_named(d, name@),
            },
    {
        let wanted: String = name.to_owned();
        let mut i: usize = 0;
        while i < self.classes.len()
            invariant
                i <= self.classes.len(),
                wanted@ == name@,
                forall|d: ClassId| d.index < i ==> !self@.is_named(d, name@),
            decreases self.classes.len() - i,
        {
            if self.classes[i].name == wanted {
                return Some(ClassId { index: i });
            }
            i = i + 1;
        }
        None
    }

    /// The parent of a registered class.
    pub fn parent_of(&self, class: ClassId) -> (r: Result<Option<ClassId>, Error>)
        ensures
            r == if self@.is_registered(class) {
                Ok::<Option<ClassId>, Error>(self@.classes[class.index as int].parent)
            } else {
                Err::<Option<ClassId>, Error>(Error::ClassNotFound)
            },
    {
        if class.index < self.classes.len() {
            Ok(self.classes[class.index].parent)
        } else {
            Err(Error::ClassNotFound)
        }
    }

    /// Registers a class under `name` as a child of `parent`, and returns it.
    /// Where a class of that name exists already, that class is returned and
    /// nothing changes. A parent must have been registered before.
    pub fn register_class(&mut self, name: &str, parent: Option<ClassId>) -> (r: Result<ClassId, Error>)
        requires
            old(self).wf(),
        ensures
            final(self).wf(),
            match r {
                Ok(c) => if exists|d: ClassId| old(self)@.is_named(d, name@) {
                    old(self)@.is_named(c, name@) && final(self)@ == old(self)@
                } else {
                    &&& parent matches Some(p) ==> old(self)@.is_registered(p)
                    &&& c.index == old(self)@.classes.len()
                    &&& final(self)@ == old(self)@.with_class(name@, parent)
                },
                Err(e) => {
                    &&& e == Error::ClassNotFound
                    &&& forall|d: ClassId| !old(self)@.is_named(d, name@)
                    &&& parent matches Some(p) && !old(self)@.is_registered(p)
                    &&& final(self)@ == old(self)@
                },
            },
    {
        match self.find_class(name) {
            Some(c) => {
                return Ok(c);
            },
            None => {},
        }
        match parent {
            Some(p) => {
                if p.index >= self.classes.len() {
                    return Err(Error::ClassNotFound);
                }
            },
            None => {},
        }
        let index: usize = self.classes.len();
        self.classes.push(
            ClassDescriptor {
                name: name.to_owned(),
                parent,
                instance_methods: Vec::new(),
                class_methods: Vec::new(),
            },
        );
        proof {
            assert(self@ =~~= old(self)@.with_class(name@, parent));
            assert forall|i: int, j: int| 0 <= i < j < self@.classes.len() implies (
            #[trigger] self@.classes[i]).name != (#[trigger] self@.classes[j]).name by {
                if j == index {
                    assert(!old(self)@.is_named(ClassId { index: i as usize }, name@));
                }
            }
        }
        Ok(ClassId { index })
    }

    /// Registers `imp` as the implementation of `selector` on `class`. A
    /// later registration of a name takes precedence over an earlier one.
    pub fn register_method(&mut self, class: ClassId, kind: MethodKind, selector: &str, imp: Imp) -> (r: Result<(), Error>)
        requires
            old(self).wf(),
        ensures
            final(self).wf(),
            r == if old(self)@.is_registered(class) {
                Ok::<(), Error>(())
            } else {
                Err::<(), Error>(Error::ClassNotFound)
            },
            final(self)@ == if r is Ok {
                old(self)@.with_method(class, kind, selector@, imp)
            } else {
                old(self)@
            },
    {
        if class.index >= self.classes.len() {
            return Err(Error::ClassNotFound);
        }
        let method = Method { selector: selector.to_owned(), imp };
        match kind {
            MethodKind::Instance => {
                self.classes[class.index].instance_methods.push(method);
            },
            MethodKind::Class => {
                self.classes[class.index].class_methods.push(method);
            },
        }
        proof {
            assert(self@ =~~= old(self)@.with_method(class, kind, selector@, imp));
        }
        Ok(())
    }

    /// Registers the implementation that takes every message that no class
    /// in the resolution chain implements.
    pub fn register_fallback(&mut self, imp: Imp)
        ensures
            final(self)@ == (HierarchyView { fallback: Some(imp), ..old(self)@ }),
    {
        self.fallback = Some(imp);
    }

    /// The registered fallback, if there is one.
    pub fn fallback(&self) -> (r: Option<Imp>)
        ensures
            r == self@.fallback,
    {
        self.fallback
    }

    /// Resolves `selector` along the chain of classes that starts at `start`.
    pub fn resolve(&self, start: Option<ClassId>, kind: MethodKind, selector: &str) -> (r: Option<Resolution>)
        ensures
            r == self@.resolve_from(start, kind, selector@),
    {
        let wanted: String = selector.to_owned();
        let mut current: usize = match start {
            Some(c) => c.index,
            None => {
                return None;
            },
        };
        loop
            invariant
                wanted@ == selector@,
                self@.resolve_from(start, kind, selector@) == self@.resolve(
                    current as int,
                    kind,
                    selector@,
                ),
            decreases current,
        {
            if current >= self.classes.len() {
                return None;
            }
            let class = &self.classes[current];
            let found = match kind {
                MethodKind::Instance => find_method(&class.instance_methods, &wanted),
                MethodKind::Class => find_method(&class.class_methods, &wanted),
            };
            match found {
                Some(imp) => {
                    return Some(Resolution { class: ClassId { index: current }, imp });
                },
                None => {},
            }
            match class.parent {
                Some(p) => {
                    if p.index < current {
                        current = p.index;
                    } else {
                        return None;
                    }
                },
                None => {
                    return None;
                },
            }
        }
    }
}

} // verus!
