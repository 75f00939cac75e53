//! What holds of every dispatch, proved from the definitions of routes and
//! traces.

use crate::dynamic_event::DynamicEvent;
use crate::event_dispatcher::{dispatches, is_trace, route_of, EventHandler, Route};
use vstd::prelude::*;

verus! {

/// A handler registered for events of type `E` handles an event of that type,
/// and handles the very value that the container holds.
pub proof fn handler_handles_event_of_its_type<M, E: 'static, H: EventHandler<M, E>>(
    handler: H,
    pre: M,
    event: DynamicEvent,
    value: E,
    post: M,
)
    requires
        event.view_as::<E>() == Some(value),
    ensures
        route_of::<M, E, H>(handler).step(pre, event, post) <==> handler.handles(pre, value, post),
{
}

/// A handler registered for events of type `E` leaves the model as it was when
/// it is offered an event of another type.
pub proof fn handler_ignores_event_of_other_type<M, E: 'static, H: EventHandler<M, E>>(
    handler: H,
    pre: M,
    event: DynamicEvent,
    post: M,
)
    requires
        !event.is_a::<E>(),
    ensures
        route_of::<M, E, H>(handler).step(pre, event, post) <==> post == pre,
{
}

/// In one dispatch every registered handler is offered the event exactly once:
/// the trace has one step for each route, and the step at a route's place is that
/// route's own.
pub proof fn each_handler_is_offered_once<M>(
    routes: Seq<Route<M>>,
    event: DynamicEvent,
    states: Seq<M>,
    place: int,
)
    requires
        is_trace(routes, event, states),
        0 <= place < routes.len(),
    ensures
        states.len() == routes.len() + 1,
        routes[place].step(states[place], event, states[place + 1]),
{
}

/// Dispatch order is registration order: the handler registered last is offered
/// the event last, on the model that the handlers before it have left.
pub proof fn last_registered_runs_last<M>(
    routes: Seq<Route<M>>,
    last: Route<M>,
    pre: M,
    event: DynamicEvent,
    post: M,
)
    ensures
        dispatches(routes.push(last), pre, event, post) <==> exists|mid: M|
            #[trigger] dispatches(routes, pre, event, mid) && last.step(mid, event, post),
{
    let longer = routes.push(last);
    if dispatches(longer, pre, event, post) {
        let states = choose|states: Seq<M>|
            #[trigger] is_trace(longer, event, states) && states.first() == pre && states.last()
                == post;
        let shorter = states.drop_last();
        let mid = shorter.last();
        assert forall|i: int| 0 <= i < routes.len() implies (#[trigger] routes[i]).step(
            shorter[i],
            event,
            shorter[i + 1],
        ) by {
            assert(longer[i] == routes[i]);
            assert(longer[i].step(states[i], event, states[i + 1]));
        }
        assert(is_trace(routes, event, shorter));
        assert(longer[routes.len() as int].step(
            states[routes.len() as int],
            event,
            states[routes.len() as int + 1],
        ));
        assert(dispatches(routes, pre, event, mid) && last.step(mid, event, post));
    }
    if exists|mid: M| #[trigger] dispatches(routes, pre, event, mid) && last.step(mid, event, post) {
        let mid = choose|mid: M| #[trigger]
            dispatches(routes, pre, event, mid) && last.step(mid, event, post);
        let shorter = choose|states: Seq<M>|
            #[trigger] is_trace(routes, event, states) && states.first() == pre && states.last()
                == mid;
        let states = shorter.push(post);
        assert forall|i: int| 0 <= i < longer.len() implies (#[trigger] longer[i]).step(
            states[i],
            event,
            states[i + 1],
        ) by {
            if i < routes.len() {
                assert(longer[i] == routes[i]);
                assert(routes[i].step(shorter[i], event, shorter[i + 1]));
            }
        }
        assert(is_trace(longer, event, states));
    }
}

/// With no handler registered, a dispatch leaves the model as it was.
pub proof fn empty_registry_changes_nothing<M>(pre: M, event: DynamicEvent, post: M)
    ensures
        dispatches(Seq::<Route<M>>::empty(), pre, event, post) <==> post == pre,
{
    let routes = Seq::<Route<M>>::empty();
    if post == pre {
        assert(is_trace(routes, event, seq![pre]));
    }
}

/// Given two handlers registered for the same events, the first registered acts
/// first and the second acts on what the first has left.
pub proof fn two_handlers_run_in_order<M>(
    first: Route<M>,
    second: Route<M>,
    pre: M,
    event: DynamicEvent,
    post: M,
)
    ensures
        dispatches(seq![first, second], pre, event, post) <==> exists|mid: M|
            #[trigger] first.step(pre, event, mid) && second.step(mid, event, post),
{
    let none = Seq::<Route<M>>::empty();
    let one = none.push(first);
    assert(seq![first, second] =~= one.push(second));
    last_registered_runs_last(one, second, pre, event, post);
    assert forall|mid: M| #[trigger] dispatches(one, pre, event, mid) <==> first.step(pre, event, mid) by {
        last_registered_runs_last(none, first, pre, event, mid);
        if dispatches(one, pre, event, mid) {
            let start = choose|start: M| #[trigger]
                dispatches(none, pre, event, start) && first.step(start, event, mid);
            empty_registry_changes_nothing(pre, event, start);
        }
        if first.step(pre, event, mid) {
            empty_registry_changes_nothing(pre, event, pre);
        }
    }
    if dispatches(seq![first, second], pre, event, post) {
        let mid = choose|mid: M| #[trigger]
            dispatches(one, pre, event, mid) && second.step(mid, event, post);
        assert(first.step(pre, event, mid) && second.step(mid, event, post));
    }
    if exists|mid: M| #[trigger] first.step(pre, event, mid) && second.step(mid, event, post) {
        let mid = choose|mid: M| #[trigger]
            first.step(pre, event, mid) && second.step(mid, event, post);
        assert(dispatches(one, pre, event, mid) && second.step(mid, event, post));
    }
}

/// Dispatching an event that no registered handler accepts leaves the model as
/// it was.
pub proof fn unmatched_event_changes_nothing<M>(
    routes: Seq<Route<M>>,
    pre: M,
    event: DynamicEvent,
    post: M,
)
    requires
        forall|i: int| 0 <= i < routes.len() ==> !((#[trigger] routes[i]).accepts)(event),
    ensures
        dispatches(routes, pre, event, post) <==> post == pre,
    decreases routes.len(),
{
    if routes.len() == 0 {
        assert(routes =~= Seq::<Route<M>>::empty());
        empty_registry_changes_nothing(pre, event, post);
    } else {
        let front = routes.drop_last();
        let last = routes.last();
        assert(routes =~= front.push(last));
        last_registered_runs_last(front, last, pre, event, post);
        assert forall|i: int| 0 <= i < front.len() implies !((#[trigger] front[i]).accepts)(
            event,
        ) by {
            assert(front[i] == routes[i]);
        }
        assert(!(last.accepts)(event)) by {
            assert(routes[routes.len() - 1] == last);
        }
        assert forall|mid: M| #[trigger] dispatches(front, pre, event, mid) <==> mid == pre by {
            unmatched_event_changes_nothing(front, pre, event, mid);
        }
        if dispatches(routes, pre, event, post) {
            let mid = choose|mid: M| #[trigger]
                dispatches(front, pre, event, mid) && last.step(mid, event, post);
            assert(mid == pre);
        }
        if post == pre {
            assert(dispatches(front, pre, event, pre) && last.step(pre, event, post));
        }
    }
}

/// The routes among `routes` that accept `event`, in the same order.
pub open spec fn accepting<M>(routes: Seq<Route<M>>, event: DynamicEvent) -> Seq<Route<M>> {
    routes.filter(|route: Route<M>| (route.accepts)(event))
}

/// A dispatch is the work of the handlers that accept the event, and of no
/// others: each of them handles it once, in registration order.
pub proof fn only_accepting_handlers_act<M>(
    routes: Seq<Route<M>>,
    pre: M,
    event: DynamicEvent,
    post: M,
)
    ensures
        dispatches(routes, pre, event, post) <==> dispatches(
            accepting(routes, event),
            pre,
            event,
            post,
        ),
    decreases routes.len(),
{
    let accepts = |route: Route<M>| (route.accepts)(event);
    if routes.len() == 0 {
        assert(routes =~= Seq::<Route<M>>::empty());
        assert(accepting(routes, event) =~= Seq::<Route<M>>::empty()) by {
            reveal(Seq::filter);
        }
    } else {
        let front = routes.drop_last();
        let last = routes.last();
        assert(routes =~= front.push(last));
        assert(accepting(routes, event) == if (last.accepts)(event) {
            accepting(front, event).push(last)
        } else {
            accepting(front, event)
        }) by {
            reveal(Seq::filter);
        }
        last_registered_runs_last(front, last, pre, event, post);
        assert forall|mid: M| #[trigger]
            dispatches(front, pre, event, mid) <==> dispatches(
                accepting(front, event),
                pre,
                event,
                mid,
            ) by {
            only_accepting_handlers_act(front, pre, event, mid);
        }
        if (last.accepts)(event) {
            last_registered_runs_last(accepting(front, event), last, pre, event, post);
            if dispatches(routes, pre, event, post) {
                let mid = choose|mid: M| #[trigger]
                    dispatches(front, pre, event, mid) && last.step(mid, event, post);
                assert(dispatches(accepting(front, event), pre, event, mid));
            }
            if dispatches(accepting(routes, event), pre, event, post) {
                let mid = choose|mid: M| #[trigger]
                    dispatches(accepting(front, event), pre, event, mid) && last.step(
                        mid,
                        event,
                        post,
                    );
                assert(dispatches(front, pre, event, mid));
            }
        } else {
            if dispatches(routes, pre, event, post) {
                let mid = choose|mid: M| #[trigger]
                    dispatches(front, pre, event, mid) && last.step(mid, event, post);
                assert(mid == post);
            }
            if dispatches(accepting(routes, event), pre, event, post) {
                assert(dispatches(front, pre, event, post) && last.step(post, event, post));
            }
        }
    }
}

} // verus!
