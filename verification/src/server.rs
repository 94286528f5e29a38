//! The echo service's decision logic.
//!
//! The service echoes every payload back in order, one response per
//! request. On its streaming path it distinguishes an abrupt peer
//! disconnect (a broken pipe surfaced by the transport) from any other
//! failure: a disconnect ends the stream quietly, any other failure is
//! forwarded to the peer and the stream goes on. The transport shell
//! classifies raw errors and feeds plain events in here.

use vstd::prelude::*;

verus! {

/// One thing the transport observed on the inbound stream.
pub enum StreamEvent {
    /// A payload arrived.
    Request(String),
    /// The transport failed; `broken_pipe` says whether the failure was an
    /// abrupt peer disconnect.
    Failure { broken_pipe: bool },
    /// The inbound stream ended normally.
    Closed,
}

/// What the service does in response to one stream event.
pub enum StreamAction {
    /// Send the echoed payload back.
    Reply(String),
    /// The peer disconnected abruptly: note it and stop quietly.
    Disconnect,
    /// Forward the failure to the peer and keep the stream open.
    ForwardFailure,
    /// The stream ended: stop.
    Stop,
}

/// The action the service takes on one event.
pub open spec fn stream_action(ev: StreamEvent) -> StreamAction {
    match ev {
        StreamEvent::Request(m) => StreamAction::Reply(m),
        StreamEvent::Failure { broken_pipe } => if broken_pipe {
            StreamAction::Disconnect
        } else {
            StreamAction::ForwardFailure
        },
        StreamEvent::Closed => StreamAction::Stop,
    }
}

/// Whether the service stops reading the stream after this event.
pub open spec fn stream_stops(ev: StreamEvent) -> bool {
    match ev {
        StreamEvent::Request(_) => false,
        StreamEvent::Failure { broken_pipe } => broken_pipe,
        StreamEvent::Closed => true,
    }
}

/// The actions taken for the events from position `i` on: one action per
/// event, up to and including the first stopping event.
pub open spec fn responses_from(events: Seq<StreamEvent>, i: int) -> Seq<StreamAction>
    decreases (if i < events.len() { events.len() - i } else { 0 }),
{
    if i < 0 || i >= events.len() {
        Seq::empty()
    } else if stream_stops(events[i]) {
        seq![stream_action(events[i])]
    } else {
        seq![stream_action(events[i])] + responses_from(events, i + 1)
    }
}

/// The full response of the streaming path to an inbound event sequence.
pub open spec fn stream_responses(events: Seq<StreamEvent>) -> Seq<StreamAction> {
    responses_from(events, 0)
}

/// The echo service.
pub struct EchoServer {}

impl EchoServer {
    /// The request/response operation: return the payload unchanged.
    pub fn unary_echo(&self, message: String) -> (r: String)
        ensures
            r@ == message@,
    {
        message
    }

    /// The duplex streaming operation's decision on a single event.
    pub fn stream_step(&self, ev: &StreamEvent) -> (a: StreamAction)
        ensures
            a == stream_action(*ev),
    {
        match ev {
            StreamEvent::Request(m) => StreamAction::Reply(m.clone()),
            StreamEvent::Failure { broken_pipe } => {
                if *broken_pipe {
                    StreamAction::Disconnect
                } else {
                    StreamAction::ForwardFailure
                }
            }
            StreamEvent::Closed => StreamAction::Stop,
        }
    }

    /// The duplex streaming operation over a whole inbound sequence: echo
    /// every payload in order, one response per request, forward ordinary
    /// failures, and stop at a peer disconnect or at the end of the stream.
    pub fn bidirectional_streaming_echo(&self, events: &Vec<StreamEvent>) -> (actions: Vec<
        StreamAction,
    >)
        ensures
            actions@ == stream_responses(events@),
    {
        let mut actions: Vec<StreamAction> = Vec::new();
        let mut i: usize = 0;
        loop
            invariant_except_break
                0 <= i <= events@.len(),
                stream_responses(events@) == actions@ + responses_from(events@, i as int),
            ensures
                actions@ == stream_responses(events@),
            decreases events@.len() - i,
        {
            if i >= events.len() {
                proof {
                    assert(actions@ + responses_from(events@, i as int) =~= actions@);
                }
                break;
            }
            let ghost before = actions@;
            let ev = &events[i];
            let action = self.stream_step(ev);
            let stops = match ev {
                StreamEvent::Request(_) => false,
                StreamEvent::Failure { broken_pipe } => *broken_pipe,
                StreamEvent::Closed => true,
            };
            actions.push(action);
            if stops {
                proof {
                    assert(before + responses_from(events@, i as int) =~= actions@);
                }
                break;
            }
            proof {
                assert(before + responses_from(events@, i as int) =~= actions@
                    + responses_from(events@, i + 1)) by {
                    assert(responses_from(events@, i as int) =~= seq![
                        stream_action(events@[i as int]),
                    ] + responses_from(events@, i + 1));
                }
            }
            i = i + 1;
        }
        actions
    }
}

} // verus!
