//! The driver: one model, one frontend and one registry, taken through ticks.

use crate::dynamic_event::DynamicEvent;
use crate::event_dispatcher::{dispatches, EventDispatcher, Route};
use crate::tick_clock::{reference_after, step_at, Step, TickClock};
use vstd::prelude::*;

verus! {

/// The platform side of an application: it turns what happened on the platform
/// into events, and draws the model.
///
/// What an implementation does is described by two relations of its own. The
/// driver promises only the order in which it calls the two operations.
pub trait Frontend<M> {
    /// Whether the frontend can be called. Unless an implementation says
    /// otherwise, it can.
    open spec fn ready(&self) -> bool {
        true
    }

    /// Whether processing the pending events may take the frontend from `self`
    /// to `after`, the registered routes from `routes` to `routes_after`, and the
    /// model from `pre` to `post`. Unless an implementation says otherwise, every
    /// outcome is admitted.
    open spec fn processed(
        &self,
        after: &Self,
        routes: Seq<Route<M>>,
        pre: M,
        routes_after: Seq<Route<M>>,
        post: M,
    ) -> bool {
        true
    }

    /// Whether drawing `model` may take the frontend from `self` to `after`.
    /// Unless an implementation says otherwise, every outcome is admitted.
    open spec fn rendered(&self, after: &Self, model: M) -> bool {
        true
    }

    /// Feeds the pending platform events into the dispatcher.
    fn process_events(&mut self, dispatcher: &mut EventDispatcher<M>, model: &mut M)
        requires
            old(self).ready(),
            old(dispatcher).wf(),
        ensures
            final(self).ready(),
            final(dispatcher).wf(),
            old(self).processed(
                final(self),
                old(dispatcher)@,
                *old(model),
                final(dispatcher)@,
                *final(model),
            ),
    ;

    /// Draws the model.
    fn render(&mut self, model: &M)
        requires
            old(self).ready(),
        ensures
            final(self).ready(),
            old(self).rendered(final(self), *model),
    ;
}

/// A model with the frontend and the registry that act on it, and the clock
/// that paces them.
#[verifier::reject_recursive_types(M)]
pub struct Framework<M, F> {
    model: M,
    frontend: F,
    dispatcher: EventDispatcher<M>,
    clock: TickClock,
}

impl<M: 'static, F: Frontend<M>> Framework<M, F> {
    /// The model.
    pub closed spec fn spec_model(&self) -> &M {
        &self.model
    }

    /// The frontend.
    pub closed spec fn spec_frontend(&self) -> &F {
        &self.frontend
    }

    /// The registry.
    pub closed spec fn spec_dispatcher(&self) -> &EventDispatcher<M> {
        &self.dispatcher
    }

    /// The reading at which the last tick took place.
    pub closed spec fn last_update(&self) -> u64 {
        self.clock.last_update()
    }

    /// Whether the frontend and every registered handler can be called.
    pub open spec fn wf(&self) -> bool {
        self.frontend().ready() && self.dispatcher().wf()
    }

    /// Puts the three parts together. The last tick counts from now.
    pub fn new(model: M, frontend: F, dispatcher: EventDispatcher<M>) -> (framework: Self)
        requires
            frontend.ready(),
            dispatcher.wf(),
        ensures
            framework.wf(),
            *framework.model() == model,
            *framework.frontend() == frontend,
            *framework.dispatcher() == dispatcher,
    {
        Framework { model: model, frontend: frontend, dispatcher: dispatcher, clock: TickClock::start() }
    }

    /// The model.
    #[verifier::when_used_as_spec(spec_model)]
    pub fn model(&self) -> (model: &M)
        ensures
            model == self.spec_model(),
    {
        &self.model
    }

    /// The frontend.
    #[verifier::when_used_as_spec(spec_frontend)]
    pub fn frontend(&self) -> (frontend: &F)
        ensures
            frontend == self.spec_frontend(),
    {
        &self.frontend
    }

    /// The registry.
    #[verifier::when_used_as_spec(spec_dispatcher)]
    pub fn dispatcher(&self) -> (dispatcher: &EventDispatcher<M>)
        ensures
            dispatcher == self.spec_dispatcher(),
    {
        &self.dispatcher
    }

    /// Makes the last tick count from now, as at the start of a run.
    pub fn restart_clock(&mut self)
        ensures
            *final(self).model() == *old(self).model(),
            *final(self).frontend() == *old(self).frontend(),
            *final(self).dispatcher() == *old(self).dispatcher(),
    {
        self.clock = TickClock::start();
    }

    /// Decides what the loop does next: asks the run condition, reads the clock,
    /// and counts a real tick from this reading on. Nothing else changes.
    pub fn advance<RC: Fn(&M) -> bool>(&mut self, run_condition: &RC) -> (step: Step)
        requires
            call_requires(*run_condition, (old(self).model(),)),
        ensures
            *final(self).model() == *old(self).model(),
            *final(self).frontend() == *old(self).frontend(),
            *final(self).dispatcher() == *old(self).dispatcher(),
            exists|running: bool, now: u64|
                call_ensures(*run_condition, (old(self).model(),), running) && step
                    == #[trigger] step_at(running, old(self).last_update(), now)
                    && final(self).last_update() == reference_after(
                    running,
                    old(self).last_update(),
                    now,
                ),
    {
        let running = run_condition(&self.model);
        let ghost before = self.clock.last_update();
        assert(call_ensures(*run_condition, (old(self).model(),), running));
        assert(before == old(self).last_update());
        let step = self.clock.poll(running);
        proof {
            let now = choose|now: u64|
                step == #[trigger] step_at(running, before, now) && self.clock.last_update()
                    == reference_after(running, before, now);
            assert(step == step_at(running, before, now));
        }
        step
    }

    /// Whether one tick on `held` may take the driver from `self` to `after`,
    /// passing through the frontend `processing` and the model `fed` that the
    /// processing of pending events leaves: the held event is dispatched on
    /// `fed`, and the model that the dispatch leaves is the one drawn.
    pub open spec fn ticks_to(
        &self,
        after: &Self,
        processing: F,
        fed: M,
        held: DynamicEvent,
    ) -> bool {
        &&& self.frontend().processed(
            &processing,
            self.dispatcher()@,
            *self.model(),
            after.dispatcher()@,
            fed,
        )
        &&& dispatches(after.dispatcher()@, fed, held, *after.model())
        &&& processing.rendered(after.frontend(), *after.model())
    }

    /// One real tick: the frontend processes its pending events, then the
    /// update event is dispatched, then the frontend draws the model.
    pub fn tick<U: 'static>(&mut self, update: U)
        requires
            old(self).wf(),
        ensures
            final(self).wf(),
            final(self).last_update() == old(self).last_update(),
            exists|processing: F, fed: M, held: DynamicEvent|
                held.view_as::<U>() == Some(update) && #[trigger] old(self).ticks_to(
                    final(self),
                    processing,
                    fed,
                    held,
                ),
    {
        self.frontend.process_events(&mut self.dispatcher, &mut self.model);
        let ghost processing = self.frontend;
        let ghost fed = self.model;
        let ghost routes = self.dispatcher@;
        self.dispatcher.dispatch(&mut self.model, update);
        self.frontend.render(&self.model);
        proof {
            let held = choose|held: DynamicEvent|
                held.view_as::<U>() == Some(update) && #[trigger] dispatches(
                    routes,
                    fed,
                    held,
                    self.model,
                );
            assert(old(self).ticks_to(self, processing, fed, held));
        }
    }
}

} // verus!
