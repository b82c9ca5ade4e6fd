use corro_types::error::{MatcherError, UnpackError};

#[test]
fn only_a_closed_receiver_is_a_closed_receiver() {
    assert!(MatcherError::EventReceiverClosed.is_event_recv_closed());
    assert!(!MatcherError::QueueFull.is_event_recv_closed());
    assert!(!MatcherError::Unpack(UnpackError::Abort).is_event_recv_closed());
    assert!(!MatcherError::TableNotFound("t".to_string()).is_event_recv_closed());
}
