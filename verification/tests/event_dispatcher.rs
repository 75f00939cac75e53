use event_runtime::{DynamicEvent, EventDispatcher, EventHandler};

struct Foo;

struct Bar;

struct Amount(u32);

#[test]
fn dispatches_event_correctly() {
    struct Model {
        raised_a: bool,
        raised_b: bool,
    }
    struct CorrectEvt;
    struct IgnoreEvt;

    let mut model = Model { raised_a: false, raised_b: false };
    let mut dispatcher = EventDispatcher::new();
    dispatcher.add_handler(|m: &mut Model, _e: &CorrectEvt| m.raised_a = true);
    dispatcher.add_handler(|m: &mut Model, _e: &IgnoreEvt| m.raised_b = true);

    dispatcher.dispatch(&mut model, CorrectEvt);

    assert!(model.raised_a);
    assert!(!model.raised_b);
}

#[test]
fn handler_of_other_type_is_not_invoked() {
    struct Model {
        flag_a: bool,
        flag_b: bool,
    }

    let mut model = Model { flag_a: false, flag_b: false };
    let mut dispatcher = EventDispatcher::new();
    dispatcher.add_handler(|m: &mut Model, _e: &Foo| m.flag_a = true);
    dispatcher.add_handler(|m: &mut Model, _e: &Bar| m.flag_b = true);

    dispatcher.dispatch(&mut model, Foo);

    assert_eq!(model.flag_a, true);
    assert_eq!(model.flag_b, false);
}

#[test]
fn handlers_run_in_registration_order() {
    struct Model {
        log: Vec<String>,
    }

    let mut model = Model { log: Vec::new() };
    let mut dispatcher = EventDispatcher::new();
    dispatcher.add_handler(|m: &mut Model, _e: &Foo| m.log.push(String::from("a")));
    dispatcher.add_handler(|m: &mut Model, _e: &Foo| m.log.push(String::from("b")));

    dispatcher.dispatch(&mut model, Foo);

    assert_eq!(model.log, vec![String::from("a"), String::from("b")]);
}

#[test]
fn each_matching_handler_runs_once_per_dispatch() {
    let mut calls: Vec<u32> = Vec::new();
    let mut dispatcher = EventDispatcher::new();
    dispatcher.add_handler(|m: &mut Vec<u32>, e: &Amount| m.push(e.0));
    dispatcher.add_handler(|m: &mut Vec<u32>, _e: &Bar| m.push(1000));
    dispatcher.add_handler(|m: &mut Vec<u32>, e: &Amount| m.push(e.0 + 1));

    dispatcher.dispatch(&mut calls, Amount(7));
    assert_eq!(calls, vec![7, 8]);

    dispatcher.dispatch(&mut calls, Amount(20));
    assert_eq!(calls, vec![7, 8, 20, 21]);

    dispatcher.dispatch(&mut calls, Bar);
    assert_eq!(calls, vec![7, 8, 20, 21, 1000]);
}

#[test]
fn later_handler_sees_what_earlier_one_left() {
    let mut total: u64 = 1;
    let mut dispatcher = EventDispatcher::new();
    dispatcher.add_handler(|m: &mut u64, e: &Amount| *m += u64::from(e.0));
    dispatcher.add_handler(|m: &mut u64, _e: &Amount| *m *= 10);

    dispatcher.dispatch(&mut total, Amount(4));

    assert_eq!(total, 50);
}

#[test]
fn unmatched_event_leaves_model_unchanged() {
    let mut model: Vec<u32> = vec![1, 2, 3];
    let mut dispatcher = EventDispatcher::new();
    dispatcher.add_handler(|m: &mut Vec<u32>, _e: &Foo| m.clear());

    dispatcher.dispatch(&mut model, Bar);
    dispatcher.dispatch(&mut model, 5u32);

    assert_eq!(model, vec![1, 2, 3]);
}

#[test]
fn empty_registry_leaves_model_unchanged() {
    let mut model: u64 = 42;
    let mut dispatcher: EventDispatcher<u64> = EventDispatcher::new();

    dispatcher.dispatch(&mut model, Foo);
    dispatcher.dispatch_dynamic(&mut model, DynamicEvent::new(Amount(3)));

    assert_eq!(model, 42);
}

#[test]
fn dispatch_dynamic_routes_like_dispatch() {
    let mut seen: Vec<u32> = Vec::new();
    let mut dispatcher = EventDispatcher::new();
    dispatcher.add_handler(|m: &mut Vec<u32>, e: &Amount| m.push(e.0));
    dispatcher.add_handler(|m: &mut Vec<u32>, _e: &Foo| m.push(0));

    dispatcher.dispatch_dynamic(&mut seen, DynamicEvent::new(Amount(11)));
    dispatcher.dispatch_dynamic(&mut seen, DynamicEvent::new(Foo));
    dispatcher.dispatch_dynamic(&mut seen, DynamicEvent::new(Bar));

    assert_eq!(seen, vec![11, 0]);
}

#[test]
fn types_match_by_identity_only() {
    let mut hits: Vec<&'static str> = Vec::new();
    let mut dispatcher = EventDispatcher::new();
    dispatcher.add_handler(|m: &mut Vec<&'static str>, _e: &u32| m.push("u32"));
    dispatcher.add_handler(|m: &mut Vec<&'static str>, _e: &u64| m.push("u64"));
    dispatcher.add_handler(|m: &mut Vec<&'static str>, _e: &Amount| m.push("amount"));

    dispatcher.dispatch(&mut hits, 1u64);
    dispatcher.dispatch(&mut hits, Amount(1));
    dispatcher.dispatch(&mut hits, 1u32);
    dispatcher.dispatch(&mut hits, 1i32);

    assert_eq!(hits, vec!["u64", "amount", "u32"]);
}

struct Counter {
    step: u64,
    calls: u64,
}

impl EventHandler<u64, Amount> for Counter {
    fn handle(&mut self, model: &mut u64, event: &Amount) {
        self.calls += 1;
        *model += self.step * u64::from(event.0);
    }
}

#[test]
fn a_type_of_ones_own_can_be_a_handler() {
    let mut model: u64 = 0;
    let mut dispatcher = EventDispatcher::new();
    dispatcher.add_handler(Counter { step: 3, calls: 0 });

    dispatcher.dispatch(&mut model, Amount(2));
    dispatcher.dispatch(&mut model, Foo);
    dispatcher.dispatch(&mut model, Amount(5));

    assert_eq!(model, 21);
}

fn double_it(model: &mut u64, _event: &Foo) {
    *model *= 2;
}

#[test]
fn a_plain_function_can_be_a_handler() {
    let mut model: u64 = 21;
    let mut dispatcher = EventDispatcher::new();
    dispatcher.add_handler(double_it);

    dispatcher.dispatch(&mut model, Foo);

    assert_eq!(model, 42);
}

#[test]
fn handlers_can_be_added_between_dispatches() {
    let mut model: Vec<u32> = Vec::new();
    let mut dispatcher = EventDispatcher::new();
    dispatcher.add_handler(|m: &mut Vec<u32>, _e: &Foo| m.push(1));
    dispatcher.dispatch(&mut model, Foo);
    dispatcher.add_handler(|m: &mut Vec<u32>, _e: &Foo| m.push(2));
    dispatcher.dispatch(&mut model, Foo);

    assert_eq!(model, vec![1, 1, 2]);
}

#[test]
fn a_callable_handles_by_being_called_once() {
    let mut model: Vec<u32> = vec![1];
    let mut callable = |m: &mut Vec<u32>, e: &Amount| m.push(e.0);

    callable.handle(&mut model, &Amount(5));
    assert_eq!(model, vec![1, 5]);

    callable.handle(&mut model, &Amount(6));
    assert_eq!(model, vec![1, 5, 6]);
}
