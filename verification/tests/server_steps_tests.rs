use ethproofs_client::protocol::parse_message;
use ethproofs_client::server::{
    handler_step, listener_step, HandlerAction, HandlerEvent, HandlerState, ListenerAction,
    ListenerEvent, ListenerState,
};

#[test]
fn listener_round_for_a_multiple() {
    let (s, a) = listener_step(ListenerState::Polling, ListenerEvent::LatestBlock(300), 100);
    assert_eq!(s, ListenerState::Fetching(300));
    assert!(matches!(a, ListenerAction::FetchBlock(300)));
    let (s, a) = listener_step(s, ListenerEvent::Done, 100);
    assert_eq!(s, ListenerState::Announcing(300));
    match a {
        ListenerAction::Broadcast(t) => assert_eq!(t, "queued 300"),
        _ => panic!("expected the queued broadcast"),
    }
    let (s, a) = listener_step(s, ListenerEvent::Delivered(true), 100);
    assert_eq!(s, ListenerState::Generating(300));
    assert!(matches!(a, ListenerAction::GenerateInput(300)));
    let (s, a) = listener_step(s, ListenerEvent::Done, 100);
    assert_eq!(s, ListenerState::Publishing(300));
    match a {
        ListenerAction::Broadcast(t) => assert_eq!(t, "input 300.bin"),
        _ => panic!("expected the input broadcast"),
    }
    let (s, a) = listener_step(s, ListenerEvent::Delivered(false), 100);
    assert_eq!(s, ListenerState::Polling);
    assert!(matches!(a, ListenerAction::Rest));
}

#[test]
fn listener_waits_past_other_blocks() {
    let (s, a) = listener_step(ListenerState::Polling, ListenerEvent::LatestBlock(301), 100);
    assert_eq!(s, ListenerState::Polling);
    match a {
        ListenerAction::Wait { next, seconds } => assert_eq!((next, seconds), (400, 99 * 12)),
        _ => panic!("expected a wait"),
    }
}

#[test]
fn listener_skips_unheard_or_failed_blocks() {
    let (s, a) = listener_step(ListenerState::Announcing(5), ListenerEvent::Delivered(false), 1);
    assert_eq!(s, ListenerState::Polling);
    assert!(matches!(a, ListenerAction::Rest));
    let (s, a) = listener_step(ListenerState::Fetching(5), ListenerEvent::Failed, 1);
    assert_eq!(s, ListenerState::Polling);
    assert!(matches!(a, ListenerAction::Rest));
    let (s, a) = listener_step(ListenerState::Generating(5), ListenerEvent::Failed, 1);
    assert_eq!(s, ListenerState::Polling);
    assert!(matches!(a, ListenerAction::Rest));
}

#[test]
fn handler_passes_queued_commands_on() {
    let (s, a) = handler_step(
        HandlerState::Listening,
        HandlerEvent::Command("queued 42".to_string()),
        "inputs",
    );
    assert!(matches!(s, HandlerState::Sending));
    match a {
        HandlerAction::Announce { block, text } => {
            assert_eq!(block, "42");
            assert_eq!(text, "queued 42");
        }
        _ => panic!("expected an announcement"),
    }
    let (s, a) = handler_step(s, HandlerEvent::Sent, "inputs");
    assert!(matches!(s, HandlerState::Listening));
    assert!(matches!(a, HandlerAction::Ignore));
}

#[test]
fn handler_sends_input_files_framed() {
    let (s, a) = handler_step(
        HandlerState::Listening,
        HandlerEvent::Command("input 42.bin".to_string()),
        "inputs",
    );
    match (&s, a) {
        (HandlerState::Reading(f), HandlerAction::ReadFile { file, path }) => {
            assert_eq!(f, "42.bin");
            assert_eq!(file, "42.bin");
            assert_eq!(path, "inputs/42.bin");
        }
        _ => panic!("expected a read"),
    }
    let (s, a) = handler_step(s, HandlerEvent::FileRead(vec![1, 2, 10]), "inputs");
    assert!(matches!(s, HandlerState::Sending));
    match a {
        HandlerAction::SendFile { file, payload } => {
            assert_eq!(file, "42.bin");
            let (name, content) = parse_message(&payload).unwrap();
            assert_eq!(name, "42.bin");
            assert_eq!(content, &[1u8, 2, 10][..]);
        }
        _ => panic!("expected a file frame"),
    }
    let (s, a) = handler_step(s, HandlerEvent::SendFailed, "inputs");
    assert!(matches!(s, HandlerState::Closed));
    assert!(matches!(a, HandlerAction::Disconnect));
}

#[test]
fn handler_passes_over_unknown_commands_and_unreadable_files() {
    let (s, a) = handler_step(
        HandlerState::Listening,
        HandlerEvent::Command("proved 1".to_string()),
        "inputs",
    );
    assert!(matches!(s, HandlerState::Listening));
    assert!(matches!(a, HandlerAction::Ignore));
    let (s, a) = handler_step(
        HandlerState::Reading("1.bin".to_string()),
        HandlerEvent::ReadFailed,
        "inputs",
    );
    assert!(matches!(s, HandlerState::Listening));
    assert!(matches!(a, HandlerAction::Ignore));
}
