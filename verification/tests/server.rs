use echo_bench::server::{EchoServer, StreamAction, StreamEvent};

#[test]
fn unary_echo_returns_payload_unchanged() {
    let server = EchoServer {};
    let reply = server.unary_echo(String::from("msg 07"));
    assert_eq!(reply, "msg 07");
}

#[test]
fn streaming_echo_answers_each_request_in_order() {
    let server = EchoServer {};
    let events = vec![
        StreamEvent::Request(String::from("msg 00")),
        StreamEvent::Request(String::from("msg 01")),
        StreamEvent::Closed,
    ];
    let actions = server.bidirectional_streaming_echo(&events);
    assert_eq!(actions.len(), 3);
    assert!(matches!(&actions[0], StreamAction::Reply(m) if m == "msg 00"));
    assert!(matches!(&actions[1], StreamAction::Reply(m) if m == "msg 01"));
    assert!(matches!(&actions[2], StreamAction::Stop));
}

#[test]
fn broken_pipe_stops_the_stream_quietly() {
    let server = EchoServer {};
    let events = vec![
        StreamEvent::Request(String::from("msg 00")),
        StreamEvent::Failure { broken_pipe: true },
        StreamEvent::Request(String::from("msg 01")),
    ];
    let actions = server.bidirectional_streaming_echo(&events);
    // Nothing is read past the disconnect.
    assert_eq!(actions.len(), 2);
    assert!(matches!(&actions[0], StreamAction::Reply(m) if m == "msg 00"));
    assert!(matches!(&actions[1], StreamAction::Disconnect));
}

#[test]
fn ordinary_failures_are_forwarded_and_the_stream_goes_on() {
    let server = EchoServer {};
    let events = vec![
        StreamEvent::Failure { broken_pipe: false },
        StreamEvent::Request(String::from("msg 00")),
        StreamEvent::Closed,
    ];
    let actions = server.bidirectional_streaming_echo(&events);
    assert_eq!(actions.len(), 3);
    assert!(matches!(&actions[0], StreamAction::ForwardFailure));
    assert!(matches!(&actions[1], StreamAction::Reply(m) if m == "msg 00"));
    assert!(matches!(&actions[2], StreamAction::Stop));
}
