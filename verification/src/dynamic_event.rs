//! A container for one event of any type, built on `dynamic::Dynamic`.

use dynamic::Dynamic;
use vstd::prelude::*;

verus! {

/// Marks every `'static` type, so that a value of any such type can be spoken of
/// as one trait object.
pub trait Payload {

}

impl<T: 'static> Payload for T {

}

/// One event of some type, kept together with the identity of that type.
///
/// The container wraps a `Box<dynamic::Dynamic>`. `Dynamic` is laid out over a
/// private trait of its crate, so it cannot be declared to Verus by itself, and
/// the whole container is opaque: what it holds is named by [`held`].
#[verifier::external_body]
pub struct DynamicEvent {
    inner: Box<Dynamic>,
}

/// The value that a container holds, as a trait object.
pub uninterp spec fn held(event: &DynamicEvent) -> Box<dyn Payload>;

/// A typed value as the trait object that a container holds for it.
pub open spec fn erased<E: 'static>(value: E) -> Box<dyn Payload> {
    Box::new(value)
}

impl DynamicEvent {
    /// The held value seen as an `E`: `Some` exactly when the container holds a
    /// value of that type.
    pub open spec fn view_as<E: 'static>(&self) -> Option<E> {
        if exists|e: E| held(self) == erased(e) {
            Some(choose|e: E| held(self) == erased(e))
        } else {
            None
        }
    }

    /// Whether the container holds a value of type `E`.
    pub open spec fn is_a<E: 'static>(&self) -> bool {
        self.view_as::<E>() is Some
    }

    /// Puts `event` into a new container.
    pub fn new<E: 'static>(event: E) -> (d: DynamicEvent)
        ensures
            d.view_as::<E>() == Some(event),
    {
        wrap(event)
    }

    /// The held event, if it is of type `E`.
    pub fn downcast_ref<E: 'static>(&self) -> (found: Option<&E>)
        ensures
            match found {
                Some(e) => self.view_as::<E>() == Some(*e),
                None => self.view_as::<E>() is None,
            },
    {
        unwrap_ref(self)
    }
}

/// Calls `Dynamic::new`, which boxes the value beside the `TypeId` of `E`.
///
/// Claimed, not proved: the new container holds `event`, so that seen as an `E`
/// it gives `event` back.
#[verifier::external_body]
fn wrap<E: 'static>(event: E) -> (d: DynamicEvent)
    ensures
        held(&d) == erased(event),
        d.view_as::<E>() == Some(event),
{
    DynamicEvent { inner: Dynamic::new(event) }
}

/// Calls `Dynamic::downcast_ref`, which compares the stored `TypeId` with that of
/// `E` and hands out a reference to the stored value when they are equal.
///
/// Claimed, not proved: the result is the held value when it is of type `E`, and
/// `None` when it is of another type.
#[verifier::external_body]
fn unwrap_ref<E: 'static>(event: &DynamicEvent) -> (found: Option<&E>)
    ensures
        match found {
            Some(e) => held(event) == erased(*e) && event.view_as::<E>() == Some(*e),
            None => event.view_as::<E>() is None,
        },
{
    event.inner.downcast_ref::<E>()
}

} // verus!
