//! The standard user defaults: a dictionary that is built on first request
//! and kept for the lifetime of the process.

use vstd::prelude::*;
use crate::environment::Environment;
use crate::error::Error;
use crate::frameworks::FrameworkState;
use crate::frameworks::foundation::FoundationState;
use crate::frameworks::foundation::ns_dictionary::{
    DICTIONARY_CLASS,
    DictionaryEntry,
    built,
    contents,
    dictionary_of,
    from_pairs,
    inserted,
    insert,
    lemma_contents_ignore_dictionaries,
};
use crate::frameworks::foundation::ns_string::{STRING_CLASS, get_static_str};
use crate::objc::ObjC;
use crate::objc::handle::Handle;
use crate::objc::object_table::RetainRecord;
use crate::objc::payload::{Payload, PayloadTag, PayloadView};

verus! {

/// The key under which the standard defaults hold the preferred languages.
pub const LANGUAGES_KEY: &'static str = "AppleLanguages";

/// What the user defaults keep: the dictionary object of the standard
/// defaults, once it was built.
pub struct State {
    standard_defaults: Option<Handle>,
}

impl View for State {
    type V = Option<Handle>;

    closed spec fn view(&self) -> Option<Handle> {
        self.standard_defaults
    }
}

impl Default for State {
    /// The state in which the standard defaults were not built yet.
    fn default() -> (s: State)
        ensures
            s@ is None,
    {
        State { standard_defaults: None }
    }
}

impl State {
    /// The state in which the standard defaults were not built yet.
    pub fn new() -> (s: State)
        ensures
            s@ is None,
    {
        State { standard_defaults: None }
    }

    /// The state of the user defaults within the state of the process.
    pub fn get(env: &mut Environment) -> (state: &mut State)
        ensures
            *state == old(env).framework_state.foundation.ns_user_defaults,
            *final(env) == (Environment {
                framework_state: FrameworkState {
                    foundation: FoundationState { ns_user_defaults: *final(state) },
                    ..old(env).framework_state
                },
                ..*old(env)
            }),
    {
        &mut env.framework_state.foundation.ns_user_defaults
    }

    /// The dictionary object of the standard defaults, if it was built.
    pub fn standard_defaults(&self) -> (r: Option<Handle>)
        ensures
            r == self@,
    {
        self.standard_defaults
    }
}

/// The dictionary object of the standard user defaults. The first request
/// builds it, with the preferred languages under their key, and every later
/// request returns the same handle and changes nothing.
pub fn standard_user_defaults(env: &mut Environment, preferred_languages: Handle) -> (r: Result<Handle, Error>)
    requires
        old(env).wf(),
    ensures
        final(env).wf(),
        final(env).objc.pools == old(env).objc.pools,
        final(env).framework_state.uikit == old(env).framework_state.uikit,
        match old(env).framework_state.foundation.ns_user_defaults@ {
            Some(existing) => {
                &&& r == Ok::<Handle, Error>(existing)
                &&& final(env).objc.objects@ == old(env).objc.objects@
                &&& final(env).objc.classes@ == old(env).objc.classes@
                &&& final(env).framework_state.foundation.ns_user_defaults@ == Some(existing)
            },
            None => {
                &&& r matches Ok(dict)
                &&& final(env).framework_state.foundation.ns_user_defaults@ == Some(dict)
                &&& final(env).objc.classes@ == old(env).objc.classes@.with_root_class(
                    STRING_CLASS@,
                ).with_root_class(DICTIONARY_CLASS@)
                &&& final(env).objc.classes@.is_named(
                    final(env).objc.objects@.objects[old(env).objc.objects@.next_handle()].class,
                    STRING_CLASS@,
                )
                &&& final(env).objc.classes@.is_named(
                    final(env).objc.objects@.objects[dict].class,
                    DICTIONARY_CLASS@,
                )
                &&& final(env).objc.objects@.issued == old(env).objc.objects@.issued + 2
                &&& dict.raw == old(env).objc.objects@.issued + 2
                &&& !old(env).objc.objects@.was_issued(dict)
                &&& ({
                    let key = old(env).objc.objects@.next_handle();
                    let with_key = old(env).objc.objects@.allocated(
                        final(env).objc.objects@.objects[key].class,
                        PayloadView::Text(LANGUAGES_KEY@),
                        RetainRecord::Static,
                    );
                    final(env).objc.objects@ == with_key.allocated(
                        final(env).objc.objects@.objects[dict].class,
                        PayloadView::Dictionary(
                            built(contents(with_key), seq![key], seq![preferred_languages], 1),
                        ),
                        RetainRecord::Counted(1),
                    )
                })
            },
        },
{
    match State::get(env).standard_defaults {
        Some(existing) => {
            return Ok(existing);
        },
        None => {},
    }
    let langs_key = get_static_str(&mut env.objc, LANGUAGES_KEY);
    let mut keys: Vec<Handle> = Vec::new();
    keys.push(langs_key);
    let mut values: Vec<Handle> = Vec::new();
    values.push(preferred_languages);
    assert(keys@ =~= seq![langs_key]);
    assert(values@ =~= seq![preferred_languages]);
    let dict = match from_pairs(&mut env.objc, &keys, &values) {
        Ok(d) => d,
        Err(e) => {
            return Err(e);
        },
    };
    State::get(env).standard_defaults = Some(dict);
    Ok(dict)
}

/// The slots of `target` after every pair of `source` from position `from`
/// on was inserted in order, none overwriting a value that `target` holds.
pub open spec fn registered(
    contents: Map<Handle, PayloadView>,
    target: Seq<DictionaryEntry>,
    source: Seq<DictionaryEntry>,
    from: int,
) -> Seq<DictionaryEntry>
    decreases source.len() - from,
{
    if from < 0 || from >= source.len() {
        target
    } else {
        registered(
            contents,
            inserted(contents, target, source[from].key, source[from].value, false),
            source,
            from + 1,
        )
    }
}

/// Registers defaults: every pair of the dictionary object `dict` is
/// inserted into the dictionary object `defaults`, in the order of the slots
/// of `dict`, and none overwrites a value that `defaults` holds already.
pub fn register_defaults(objc: &mut ObjC, defaults: Handle, dict: Handle) -> (r: Result<(), Error>)
    requires
        old(objc).wf(),
    ensures
        final(objc).wf(),
        final(objc).classes == old(objc).classes,
        final(objc).pools == old(objc).pools,
        match dictionary_of(old(objc).objects@, dict) {
            Ok(source) => match dictionary_of(old(objc).objects@, defaults) {
                Ok(target) => r is Ok && final(objc).objects@ == old(objc).objects@.with_payload(
                    defaults,
                    PayloadView::Dictionary(
                        registered(contents(old(objc).objects@), target, source, 0),
                    ),
                ),
                Err(e) => r == Err::<(), Error>(e) && final(objc).objects@ == old(objc).objects@,
            },
            Err(e) => r == Err::<(), Error>(e) && final(objc).objects@ == old(objc).objects@,
        },
{
    let source = match objc.objects.borrow(dict, PayloadTag::Dictionary) {
        Ok(Payload::Dictionary(d)) => d.clone_slots(),
        Ok(_) => {
            return Err(Error::TypeMismatch);
        },
        Err(e) => {
            return Err(e);
        },
    };
    match objc.objects.borrow(defaults, PayloadTag::Dictionary) {
        Ok(_) => {},
        Err(e) => {
            return Err(e);
        },
    }
    let ghost start = dictionary_of(old(objc).objects@, defaults).unwrap();
    let ghost known = contents(old(objc).objects@);
    let ghost mut current = start;
    proof {
        assert(objc.objects@ =~= old(objc).objects@.with_payload(
            defaults,
            PayloadView::Dictionary(start),
        ));
    }
    let mut i: usize = 0;
    while i < source.len()
        invariant
            i <= source.len(),
            objc.wf(),
            objc.classes == old(objc).classes,
            objc.pools == old(objc).pools,
            old(objc).objects@.readable(defaults, PayloadTag::Dictionary),
            dictionary_of(old(objc).objects@, dict) == Ok::<Seq<DictionaryEntry>, Error>(source@),
            dictionary_of(old(objc).objects@, defaults) == Ok::<Seq<DictionaryEntry>, Error>(start),
            known == contents(old(objc).objects@),
            registered(known, current, source@, i as int) == registered(known, start, source@, 0),
            objc.objects@ == old(objc).objects@.with_payload(
                defaults,
                PayloadView::Dictionary(current),
            ),
        decreases source.len() - i,
    {
        proof {
            lemma_contents_ignore_dictionaries(
                old(objc).objects@,
                defaults,
                PayloadView::Dictionary(current),
            );
        }
        let step = insert(objc, defaults, source[i].key, source[i].value, false);
        proof {
            let next = inserted(known, current, source@[i as int].key, source@[i as int].value, false);
            assert(objc.objects@ =~= old(objc).objects@.with_payload(
                defaults,
                PayloadView::Dictionary(next),
            ));
            current = next;
        }
        i = i + 1;
    }
    Ok(())
}

} // verus!
