//! The handler registry: handlers for events of any type, kept in registration
//! order, and the dispatch of one event to those registered for its type.

use crate::dynamic_event::DynamicEvent;
use std::marker::PhantomData;
use vstd::prelude::*;

verus! {

/// A handler for events of type `E` on a model of type `M`.
///
/// What a handler does is described by a relation between the model before the
/// call, the event, and the model after it. The relation belongs to the handler
/// for good: a call may change the handler, but not what it is said to do.
pub trait EventHandler<M, E> {
    /// Whether the handler can be called, on any model and any event. Unless an
    /// implementation says otherwise, it can.
    open spec fn ready(&self) -> bool {
        true
    }

    /// Whether one call with `event` may take the model from `pre` to `post`.
    /// Unless an implementation says otherwise, every outcome is admitted.
    open spec fn handles(&self, pre: M, event: E, post: M) -> bool {
        true
    }

    /// Handles one event: the model may change as the relation allows.
    fn handle(&mut self, model: &mut M, event: &E)
        requires
            old(self).ready(),
        ensures
            final(self).ready(),
            old(self).handles(*old(model), *event, *final(model)),
            forall|a: M, e: E, b: M| #[trigger]
                final(self).handles(a, e, b) == old(self).handles(a, e, b),
    ;
}

/// Every callable of the right shape is a handler. Its relation admits every
/// outcome; what one call does is stated by `handle`, over the callable's own
/// contract.
impl<M, E, F: Fn(&mut M, &E)> EventHandler<M, E> for F {
    open spec fn ready(&self) -> bool {
        forall|model: &mut M, event: &E| call_requires(*self, (model, event))
    }

    open spec fn handles(&self, pre: M, event: E, post: M) -> bool {
        true
    }

    /// Calls the callable once, on the model and the event that were handed in.
    /// The model is left as that call left it, and the callable stays as it was.
    fn handle(&mut self, model: &mut M, event: &E)
        ensures
            *final(self) == *old(self),
            exists|handed: &mut M|
                *handed == *old(model) && *final(handed) == *final(model) && #[trigger] call_ensures(
                    *old(self),
                    (handed, event),
                    (),
                ),
    {
        self(model, event);
    }
}

/// A callable that can be called on every model and every event is ready to be
/// registered.
pub proof fn callable_is_ready<M, E, F: Fn(&mut M, &E)>(callable: F)
    requires
        forall|model: &mut M, event: &E| call_requires(callable, (model, event)),
    ensures
        callable.ready(),
{
}

/// What one registered handler does, whatever the type of its events: which
/// events it accepts, and how handling an accepted event may change the model.
#[verifier::reject_recursive_types(M)]
#[verifier::ext_equal]
pub struct Route<M> {
    pub accepts: spec_fn(DynamicEvent) -> bool,
    pub effect: spec_fn(M, DynamicEvent, M) -> bool,
}

impl<M> Route<M> {
    /// Whether offering `event` to the handler may take the model from `pre` to
    /// `post`: an accepted event is handled, any other leaves the model as it was.
    pub open spec fn step(self, pre: M, event: DynamicEvent, post: M) -> bool {
        if (self.accepts)(event) {
            (self.effect)(pre, event, post)
        } else {
            post == pre
        }
    }
}

/// The route of a handler for events of type `E`: it accepts the events of that
/// type, and handles the value that the container holds.
pub open spec fn route_of<M, E: 'static, H: EventHandler<M, E>>(handler: H) -> Route<M> {
    Route {
        accepts: |event: DynamicEvent| event.is_a::<E>(),
        effect: |pre: M, event: DynamicEvent, post: M|
            handler.handles(pre, event.view_as::<E>()->0, post),
    }
}

/// A handler without the type of its events: it is offered every event, and
/// decides by the event's type whether to handle it.
pub trait HandlerWrapper<M> {
    /// Whether the wrapped handler can be called.
    spec fn wf(&self) -> bool;

    /// What the wrapped handler does.
    spec fn route(&self) -> Route<M>;

    /// Offers `event` to the handler: it is handled if it is accepted, and the
    /// model stays as it was if it is not.
    fn attempt_dispatch(&mut self, model: &mut M, event: &DynamicEvent)
        requires
            old(self).wf(),
        ensures
            final(self).wf(),
            final(self).route() == old(self).route(),
            old(self).route().step(*old(model), *event, *final(model)),
    ;
}

/// A handler together with the type of the events that it was registered for.
pub struct ConcreteHandlerWrapper<M, E, H> {
    handler: H,
    _m: PhantomData<M>,
    _e: PhantomData<E>,
}

impl<M, E: 'static, H: EventHandler<M, E>> ConcreteHandlerWrapper<M, E, H> {
    /// The wrapped handler.
    pub closed spec fn handler(&self) -> H {
        self.handler
    }

    /// Wraps `handler` as a handler for events of type `E`.
    pub fn new(handler: H) -> (wrapper: Self)
        ensures
            wrapper.handler() == handler,
    {
        ConcreteHandlerWrapper { handler: handler, _m: PhantomData, _e: PhantomData }
    }

    /// Hands `found` to the handler if there is one, and leaves the model alone
    /// if there is none.
    pub fn deliver(&mut self, model: &mut M, found: Option<&E>)
        requires
            old(self).handler().ready(),
        ensures
            final(self).handler().ready(),
            forall|a: M, e: E, b: M| #[trigger]
                final(self).handler().handles(a, e, b) == old(self).handler().handles(a, e, b),
            match found {
                Some(event) => old(self).handler().handles(*old(model), *event, *final(model)),
                None => *final(model) == *old(model),
            },
    {
        if let Some(event) = found {
            self.handler.handle(model, event);
        }
    }
}

impl<M, E: 'static, H: EventHandler<M, E>> HandlerWrapper<M> for ConcreteHandlerWrapper<M, E, H> {
    open spec fn wf(&self) -> bool {
        self.handler().ready()
    }

    open spec fn route(&self) -> Route<M> {
        route_of::<M, E, H>(self.handler())
    }

    fn attempt_dispatch(&mut self, model: &mut M, event: &DynamicEvent) {
        let found = event.downcast_ref::<E>();
        self.deliver(model, found);
        assert(final(self).route() =~~= old(self).route());
    }
}

/// One place in the registry: a boxed handler of any event type.
pub struct Registered<T: ?Sized> {
    adapter: Box<T>,
}

/// Whether `states` are the models that a dispatch of `event` passes through: one
/// for the start, and one more after each route, in order.
pub open spec fn is_trace<M>(routes: Seq<Route<M>>, event: DynamicEvent, states: Seq<M>) -> bool {
    &&& states.len() == routes.len() + 1
    &&& forall|i: int|
        0 <= i < routes.len() ==> (#[trigger] routes[i]).step(states[i], event, states[i + 1])
}

/// Whether offering `event` to every route, first registered first, each on the
/// model that the one before left, may take the model from `pre` to `post`.
pub open spec fn dispatches<M>(routes: Seq<Route<M>>, pre: M, event: DynamicEvent, post: M) -> bool {
    exists|states: Seq<M>|
        #[trigger] is_trace(routes, event, states) && states.first() == pre && states.last() == post
}

/// The registry of handlers for one model type.
#[verifier::reject_recursive_types(M)]
pub struct EventDispatcher<M> {
    handlers: Vec<Registered<dyn HandlerWrapper<M>>>,
}

impl<M: 'static> EventDispatcher<M> {
    /// The routes of the registered handlers, in registration order.
    pub closed spec fn view(&self) -> Seq<Route<M>> {
        Seq::new(self.handlers@.len(), |i: int| self.handlers@[i].adapter.route())
    }

    /// Whether every registered handler can be called.
    pub closed spec fn wf(&self) -> bool {
        forall|i: int| 0 <= i < self.handlers@.len() ==> (#[trigger] self.handlers@[i]).adapter.wf()
    }

    /// A registry without handlers.
    pub fn new() -> (dispatcher: Self)
        ensures
            dispatcher@ == Seq::<Route<M>>::empty(),
            dispatcher.wf(),
    {
        let dispatcher = EventDispatcher { handlers: Vec::new() };
        assert(dispatcher@ =~= Seq::<Route<M>>::empty());
        dispatcher
    }

    /// Wraps `handler` for events of type `E` and boxes it without that type.
    fn register<E: 'static, H: EventHandler<M, E> + 'static>(handler: H) -> (place: Registered<
        dyn HandlerWrapper<M>,
    >)
        requires
            handler.ready(),
        ensures
            place.adapter.wf(),
            place.adapter.route() == route_of::<M, E, H>(handler),
    {
        let wrapper = ConcreteHandlerWrapper::<M, E, H>::new(handler);
        let adapter: Box<dyn HandlerWrapper<M>> = Box::new(wrapper);
        assert(adapter.route() == route_of::<M, E, H>(handler));
        let place = Registered { adapter: adapter };
        assert(place.adapter == adapter);
        place
    }

    /// Registers `handler` for events of type `E`, after all handlers registered
    /// so far. The handlers registered before stay as they are.
    pub fn add_handler<E: 'static, H: EventHandler<M, E> + 'static>(&mut self, handler: H)
        requires
            old(self).wf(),
            handler.ready(),
        ensures
            final(self).wf(),
            final(self)@ == old(self)@.push(route_of::<M, E, H>(handler)),
    {
        let place = Self::register::<E, H>(handler);
        self.handlers.push(place);
        assert(self@ =~= old(self)@.push(route_of::<M, E, H>(handler)));
    }

    /// Offers a held event to every registered handler, in registration order.
    pub fn dispatch_dynamic(&mut self, model: &mut M, event: DynamicEvent)
        requires
            old(self).wf(),
        ensures
            final(self).wf(),
            final(self)@ == old(self)@,
            dispatches(old(self)@, *old(model), event, *final(model)),
    {
        let n = self.handlers.len();
        let ghost routes = self@;
        let ghost mut states: Seq<M> = seq![*model];
        let mut i: usize = 0;
        while i < n
            invariant
                i <= n,
                n == self.handlers@.len(),
                self.wf(),
                self@ == routes,
                routes == old(self)@,
                states.len() == i + 1,
                states.first() == *old(model),
                states.last() == *model,
                forall|k: int|
                    0 <= k < i ==> (#[trigger] routes[k]).step(states[k], event, states[k + 1]),
            decreases n - i,
        {
            let ghost before = self.handlers@;
            self.handlers[i].adapter.attempt_dispatch(model, &event);
            proof {
                assert forall|k: int| 0 <= k < n implies (#[trigger] self.handlers@[k]).adapter.wf()
                    && self.handlers@[k].adapter.route() == before[k].adapter.route() by {
                    if k != i as int {
                        assert(self.handlers@[k] == before[k]);
                    }
                }
                assert(self@ =~= routes);
                states = states.push(*model);
            }
            i += 1;
        }
        assert(is_trace(routes, event, states));
    }

    /// Wraps `event` and offers it to every registered handler, in registration
    /// order.
    pub fn dispatch<E: 'static>(&mut self, model: &mut M, event: E)
        requires
            old(self).wf(),
        ensures
            final(self).wf(),
            final(self)@ == old(self)@,
            exists|held: DynamicEvent|
                held.view_as::<E>() == Some(event) && #[trigger] dispatches(
                    old(self)@,
                    *old(model),
                    held,
                    *final(model),
                ),
    {
        let dyn_event = DynamicEvent::new(event);
        let ghost held = dyn_event;
        self.dispatch_dynamic(model, dyn_event);
        assert(dispatches(old(self)@, *old(model), held, *model));
    }
}

} // verus!
