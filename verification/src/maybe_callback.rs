//! The optional-callback slot: a value that is either absent or holds one
//! invocable handler.  Invoking an empty slot is a no-op for every event
//! value: its precondition is trivial when the slot is empty, and the
//! handler is simply not called, so invocation is total and panic-free.

use vstd::prelude::*;

verus! {

/// Collapsing a doubly-nested optional into one layer.
pub open spec fn flatten_opt<F>(o: Option<Option<F>>) -> Option<F> {
    match o {
        Some(inner) => inner,
        None => None,
    }
}

/// A wrapper around an optional handler that provides convenient
/// conversion and a single invocation entry point that is a no-op when no
/// handler is held.
#[derive(Clone)]
pub struct MaybeCallback<F>(pub Option<F>);

/// A standalone zero-or-one-handler invocable, detached from the slot it
/// came from.
#[derive(Clone)]
pub struct Dispatcher<F>(pub Option<F>);

impl<F> Dispatcher<F> {
    /// Runs the held handler on the event if present; otherwise returns
    /// without effect, for every event value.
    pub fn invoke<E>(&self, event: E) where F: Fn(E)
        requires
            self.0 matches Some(f) ==> call_requires(f, (event,)),
        ensures
            self.0 matches Some(f) ==> call_ensures(f, (event,), ()),
    {
        match &self.0 {
            Some(cb) => {
                (*cb)(event);
            },
            None => {},
        }
    }

    /// Whether a handler is held.
    pub fn is_some(&self) -> (r: bool)
        ensures
            r == (self.0 is Some),
    {
        self.0.is_some()
    }
}

impl<F> MaybeCallback<F> {
    /// A slot holding the given handler.
    pub fn new(callback: F) -> (r: Self)
        ensures
            r.0 == Some(callback),
    {
        MaybeCallback(Some(callback))
    }

    /// A slot holding the given optional handler.
    pub fn make(callback: Option<F>) -> (r: Self)
        ensures
            r.0 == callback,
    {
        MaybeCallback(callback)
    }

    /// A slot built from a doubly-nested optional; the two layers collapse,
    /// so a present outer layer around an absent handler gives the empty
    /// slot.
    pub fn from_nested(callback: Option<Option<F>>) -> (r: Self)
        ensures
            r.0 == flatten_opt(callback),
    {
        match callback {
            Some(inner) => MaybeCallback(inner),
            None => MaybeCallback(None),
        }
    }

    /// A reference to the contained handler, if any.
    pub fn as_ref(&self) -> (r: Option<&F>)
        ensures
            r is Some <==> self.0 is Some,
            (match r {
                Some(f) => self.0 == Some(*f),
                None => self.0 is None,
            }),
    {
        self.0.as_ref()
    }

    /// Runs the stored handler on the event if available; otherwise
    /// returns without effect, for every event value.
    pub fn run<E>(&self, event: E) where F: Fn(E)
        requires
            self.0 matches Some(f) ==> call_requires(f, (event,)),
        ensures
            self.0 matches Some(f) ==> call_ensures(f, (event,), ()),
    {
        match &self.0 {
            Some(cb) => {
                (*cb)(event);
            },
            None => {},
        }
    }

    /// Transforms the contained handler while preserving absence.
    pub fn map<G>(self, f: impl FnOnce(F) -> G) -> (r: MaybeCallback<G>)
        requires
            self.0 matches Some(cb) ==> call_requires(f, (cb,)),
        ensures
            r.0 is Some <==> self.0 is Some,
            (match (self.0, r.0) {
                (Some(cb), Some(g)) => call_ensures(f, (cb,), g),
                (None, None) => true,
                _ => false,
            }),
    {
        match self.0 {
            Some(cb) => MaybeCallback(Some(f(cb))),
            None => MaybeCallback(None),
        }
    }

    /// Whether a handler is held.
    pub fn is_some(&self) -> (r: bool)
        ensures
            r == (self.0 is Some),
    {
        self.0.is_some()
    }

    /// Whether the slot is empty.
    pub fn is_none(&self) -> (r: bool)
        ensures
            r == (self.0 is None),
    {
        self.0.is_none()
    }

    /// A dispatcher that conditionally runs a duplicate of the held
    /// handler; the slot stays usable.
    pub fn as_callback(&self) -> (r: Dispatcher<F>) where F: Clone
        ensures
            r.0 is Some <==> self.0 is Some,
            (match (self.0, r.0) {
                (Some(f), Some(g)) => vstd::pervasive::cloned::<F>(f, g),
                (None, None) => true,
                _ => false,
            }),
    {
        match &self.0 {
            Some(cb) => Dispatcher(Some(cb.clone())),
            None => Dispatcher(None),
        }
    }

    /// Consumes the slot and returns a standalone dispatcher holding the
    /// same optional handler.
    pub fn into_handler(self) -> (r: Dispatcher<F>)
        ensures
            r.0 == self.0,
    {
        Dispatcher(self.0)
    }

    /// A standalone dispatcher over a duplicate of the held handler; the
    /// slot stays usable.
    pub fn as_handler(&self) -> (r: Dispatcher<F>) where F: Clone
        ensures
            r.0 is Some <==> self.0 is Some,
            (match (self.0, r.0) {
                (Some(f), Some(g)) => vstd::pervasive::cloned::<F>(f, g),
                (None, None) => true,
                _ => false,
            }),
    {
        match &self.0 {
            Some(cb) => Dispatcher(Some(cb.clone())),
            None => Dispatcher(None),
        }
    }
}

impl<F> Default for MaybeCallback<F> {
    /// The empty slot.
    fn default() -> (r: Self)
        ensures
            r.0 is None,
    {
        MaybeCallback(None)
    }
}

/// A dispatcher that runs the slot's handler if present.
pub fn generate_handler<F>(callback: MaybeCallback<F>) -> (r: Dispatcher<F>)
    ensures
        r.0 == callback.0,
{
    Dispatcher(callback.0)
}

/// Builds a dispatcher from a [`MaybeCallback`].
pub struct Handler;

impl Handler {
    /// A dispatcher holding the slot's optional handler.
    pub fn from<F>(callback: MaybeCallback<F>) -> (r: Dispatcher<F>)
        ensures
            r.0 == callback.0,
    {
        Dispatcher(callback.0)
    }
}

/// Building a slot from a doubly-nested optional collapses the layers: a
/// present outer layer around an absent handler yields the same slot
/// contents as building from the absent optional directly.
pub proof fn lemma_nested_absent_collapses<F>(o: Option<Option<F>>)
    requires
        o matches Some(inner) && inner is None,
    ensures
        flatten_opt(o) == None::<F>,
{
}

} // verus!
