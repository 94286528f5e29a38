use echo_bench::streaming::{SignalChannel, StreamingPacer};

#[test]
fn single_message_transaction_never_waits() {
    // With one command per transaction the pacer emits its only message at
    // once and completes without awaiting any signal.
    let mut pacer = StreamingPacer::new(1);
    assert_eq!(pacer.try_emit(), Some(0));
    assert!(pacer.is_done());
    assert_eq!(pacer.try_emit(), None);
}

#[test]
fn production_suspends_between_messages() {
    let mut pacer = StreamingPacer::new(3);
    assert_eq!(pacer.try_emit(), Some(0));
    // Suspended until a response is observed.
    assert_eq!(pacer.try_emit(), None);
    pacer.on_signal();
    assert_eq!(pacer.try_emit(), Some(1));
    assert_eq!(pacer.try_emit(), None);
    pacer.on_signal();
    // The last message goes out with no further wait behind it.
    assert_eq!(pacer.try_emit(), Some(2));
    assert!(pacer.is_done());
    assert_eq!(pacer.try_emit(), None);
}

#[test]
fn full_channel_drops_signals_silently() {
    let mut ch = SignalChannel::new(2);
    assert!(ch.try_post());
    assert!(ch.try_post());
    // A full channel drops the signal instead of blocking the response path.
    assert!(!ch.try_post());
    assert!(ch.try_take());
    assert!(ch.try_take());
    assert!(!ch.try_take());
}

#[test]
fn paced_exchange_over_a_channel() {
    // The response path posts one signal per observed response; the
    // producer takes at least one signal before each non-final emission.
    let commands = 4u64;
    let mut pacer = StreamingPacer::new(commands);
    let mut ch = SignalChannel::new(128);
    let mut emitted = Vec::new();
    while !pacer.is_done() {
        if let Some(i) = pacer.try_emit() {
            emitted.push(i);
            // The echo service answers; the response path signals.
            assert!(ch.try_post());
        } else {
            assert!(ch.try_take());
            pacer.on_signal();
        }
    }
    assert_eq!(emitted, vec![0, 1, 2, 3]);
}
