use dap::dispatcher::{Dispatcher, Routed};
use dap::message::{Event, Payload, Request, Response};

fn response(request_seq: u64, command: &str) -> Response {
    Response {
        seq: 100 + request_seq,
        request_seq,
        success: true,
        command: command.to_string(),
        message: None,
        body: None,
    }
}

fn event(seq: u64, name: &str) -> Event {
    Event { seq, event: name.to_string(), body: None }
}

#[test]
fn dispatcher_starts_open_and_empty() {
    let d: Dispatcher<&str> = Dispatcher::new();
    assert!(!d.is_closed());
    assert_eq!(d.in_flight(), 0);
    assert!(!d.is_waiting(0));
}

#[test]
fn each_request_receives_the_response_that_names_it() {
    let mut d: Dispatcher<&str> = Dispatcher::new();
    for (seq, waiter) in [(0, "zero"), (1, "one"), (2, "two"), (3, "three")] {
        assert_eq!(d.register(seq, waiter), Ok(()));
    }
    for seq in [2u64, 0, 3, 1] {
        match d.dispatch(Payload::Response(response(seq, "c"))) {
            Routed::Deliver { waiter, response } => {
                assert_eq!(response.request_seq, seq);
                assert_eq!(waiter, ["zero", "one", "two", "three"][seq as usize]);
            }
            other => panic!("unexpected {:?}", other),
        }
    }
    assert_eq!(d.in_flight(), 0);
}

#[test]
fn resume_and_pause_answered_in_reverse_do_not_cross() {
    let mut d: Dispatcher<&str> = Dispatcher::new();
    assert_eq!(d.register(0, "resume caller"), Ok(()));
    assert_eq!(d.register(1, "pause caller"), Ok(()));
    match d.dispatch(Payload::Response(response(1, "pause"))) {
        Routed::Deliver { waiter, response } => {
            assert_eq!(waiter, "pause caller");
            assert_eq!(response.command, "pause");
        }
        other => panic!("unexpected {:?}", other),
    }
    assert!(d.is_waiting(0));
    match d.dispatch(Payload::Response(response(0, "continue"))) {
        Routed::Deliver { waiter, response } => {
            assert_eq!(waiter, "resume caller");
            assert_eq!(response.command, "continue");
        }
        other => panic!("unexpected {:?}", other),
    }
    assert_eq!(d.in_flight(), 0);
}

#[test]
fn unmatched_response_is_dropped_and_nothing_changes() {
    let mut d: Dispatcher<u32> = Dispatcher::new();
    assert_eq!(d.register(4, 40), Ok(()));
    match d.dispatch(Payload::Response(response(5, "c"))) {
        Routed::Unmatched(r) => assert_eq!(r.request_seq, 5),
        other => panic!("unexpected {:?}", other),
    }
    assert_eq!(d.in_flight(), 1);
    assert!(d.is_waiting(4));
    assert!(!d.is_closed());
    match d.dispatch(Payload::Response(response(4, "c"))) {
        Routed::Deliver { waiter, .. } => assert_eq!(waiter, 40),
        other => panic!("unexpected {:?}", other),
    }
}

#[test]
fn second_response_to_one_request_is_dropped() {
    let mut d: Dispatcher<u32> = Dispatcher::new();
    assert_eq!(d.register(1, 10), Ok(()));
    assert!(matches!(
        d.dispatch(Payload::Response(response(1, "c"))),
        Routed::Deliver { waiter: 10, .. }
    ));
    assert!(matches!(d.dispatch(Payload::Response(response(1, "c"))), Routed::Unmatched(_)));
}

#[test]
fn events_and_adapter_requests_pass_through() {
    let mut d: Dispatcher<u32> = Dispatcher::new();
    assert_eq!(d.register(1, 10), Ok(()));
    match d.dispatch(Payload::Event(event(7, "output"))) {
        Routed::Event(e) => assert_eq!(e, event(7, "output")),
        other => panic!("unexpected {:?}", other),
    }
    let reverse = Request { seq: 1, command: "runInTerminal".to_string(), arguments: None };
    match d.dispatch(Payload::Request(reverse.clone())) {
        Routed::ReverseRequest(r) => assert_eq!(r, reverse),
        other => panic!("unexpected {:?}", other),
    }
    assert_eq!(d.in_flight(), 1);
    assert!(d.is_waiting(1));
}

#[test]
fn register_refuses_a_number_in_flight() {
    let mut d: Dispatcher<&str> = Dispatcher::new();
    assert_eq!(d.register(1, "first"), Ok(()));
    assert_eq!(d.register(1, "second"), Err("second"));
    assert_eq!(d.in_flight(), 1);
    match d.dispatch(Payload::Response(response(1, "c"))) {
        Routed::Deliver { waiter, .. } => assert_eq!(waiter, "first"),
        other => panic!("unexpected {:?}", other),
    }
    assert_eq!(d.register(1, "third"), Ok(()));
}

#[test]
fn cancel_hands_the_waiter_back_and_a_late_response_is_dropped() {
    let mut d: Dispatcher<&str> = Dispatcher::new();
    assert_eq!(d.register(1, "a"), Ok(()));
    assert_eq!(d.register(2, "b"), Ok(()));
    assert_eq!(d.cancel(1), Some("a"));
    assert_eq!(d.cancel(1), None);
    assert_eq!(d.cancel(9), None);
    assert!(matches!(d.dispatch(Payload::Response(response(1, "c"))), Routed::Unmatched(_)));
    assert!(matches!(
        d.dispatch(Payload::Response(response(2, "c"))),
        Routed::Deliver { waiter: "b", .. }
    ));
}

#[test]
fn close_hands_back_every_request_in_flight_once() {
    let mut d: Dispatcher<&str> = Dispatcher::new();
    assert_eq!(d.register(3, "c"), Ok(()));
    assert_eq!(d.register(1, "a"), Ok(()));
    assert_eq!(d.register(2, "b"), Ok(()));
    assert!(matches!(
        d.dispatch(Payload::Response(response(1, "x"))),
        Routed::Deliver { waiter: "a", .. }
    ));
    assert_eq!(d.close(), vec![(3, "c"), (2, "b")]);
    assert!(d.is_closed());
    assert_eq!(d.in_flight(), 0);
    assert_eq!(d.close(), Vec::<(u64, &str)>::new());
    assert!(d.is_closed());
}

#[test]
fn after_close_nothing_is_registered_or_delivered() {
    let mut d: Dispatcher<&str> = Dispatcher::new();
    assert_eq!(d.register(1, "a"), Ok(()));
    assert_eq!(d.close(), vec![(1, "a")]);
    assert_eq!(d.register(2, "b"), Err("b"));
    assert!(matches!(d.dispatch(Payload::Response(response(1, "x"))), Routed::Unmatched(_)));
    assert!(matches!(d.dispatch(Payload::Event(event(1, "e"))), Routed::Event(_)));
    assert_eq!(d.in_flight(), 0);
}
