use sp1_helios_script::{trigger_result, EventDispatcher, PrintListener1, PrintListener2};

#[test]
fn new_dispatcher_is_empty() {
    let d: EventDispatcher<u32> = EventDispatcher::new();
    assert_eq!(d.len(), 0);
}

#[test]
fn listeners_keep_insertion_order() {
    let mut d = EventDispatcher::new();
    d.add_listener("first");
    d.add_listener("second");
    d.add_listener("third");
    assert_eq!(d.len(), 3);
    assert_eq!(d.listeners_mut().as_slice(), &["first", "second", "third"]);
}

#[test]
fn all_listeners_succeed() {
    let results: Vec<Result<(), String>> = vec![Ok(()), Ok(())];
    assert_eq!(trigger_result(results), Ok(()));
}

#[test]
fn no_listeners_succeed() {
    let results: Vec<Result<(), String>> = vec![];
    assert_eq!(trigger_result(results), Ok(()));
}

#[test]
fn first_failure_is_reported() {
    let results: Vec<Result<(), &str>> = vec![Ok(()), Err("second"), Ok(()), Err("fourth")];
    assert_eq!(trigger_result(results), Err("second"));
}

#[test]
fn print_listener_messages() {
    assert_eq!(PrintListener1.message("1"), "PrintListener1 received data: 1");
    assert_eq!(PrintListener2.message("abc"), "PrintListener2 received data: abc");
}
