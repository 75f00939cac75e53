use event_runtime::DynamicEvent;

#[derive(Debug, PartialEq)]
struct Point {
    x: i32,
    y: i32,
}

#[test]
fn container_gives_back_what_was_put_in() {
    let held = DynamicEvent::new(Point { x: 3, y: -4 });
    assert_eq!(held.downcast_ref::<Point>(), Some(&Point { x: 3, y: -4 }));
}

#[test]
fn container_gives_nothing_for_another_type() {
    let held = DynamicEvent::new(100usize);
    assert_eq!(held.downcast_ref::<i32>(), None);
    assert_eq!(held.downcast_ref::<Point>(), None);
    assert_eq!(held.downcast_ref::<usize>(), Some(&100usize));
}

#[test]
fn containers_hold_their_own_values() {
    let first = DynamicEvent::new(String::from("first"));
    let second = DynamicEvent::new(String::from("second"));
    assert_eq!(first.downcast_ref::<String>(), Some(&String::from("first")));
    assert_eq!(second.downcast_ref::<String>(), Some(&String::from("second")));
}

#[test]
fn reference_and_value_are_different_types() {
    let held = DynamicEvent::new(7u8);
    assert!(held.downcast_ref::<&'static u8>().is_none());
    assert!(held.downcast_ref::<Box<u8>>().is_none());
    assert_eq!(held.downcast_ref::<u8>(), Some(&7u8));
}
