use dictate_core::session::{
    ResponseRecord, SessionAction, SessionEvent, SessionPhase, SessionState, FINALIZE_TIMEOUT_MS,
};
use dictate_core::token::RecognitionToken;

fn tok(text: &str, is_final: bool) -> RecognitionToken {
    RecognitionToken { text: text.to_string(), is_final, speaker: None, language: None }
}

fn response(tokens: Vec<RecognitionToken>, finished: Option<bool>) -> ResponseRecord {
    ResponseRecord { error_code: None, error_message: None, tokens: Some(tokens), finished }
}

#[test]
fn connect_sends_config_exactly_once_first() {
    let mut s = SessionState::new();
    assert_eq!(s.phase, SessionPhase::Connecting);
    let acts = s.step(SessionEvent::Connected);
    assert_eq!(acts.len(), 1);
    assert!(matches!(acts[0], SessionAction::SendConfig));
    assert_eq!(s.phase, SessionPhase::Streaming);
}

#[test]
fn frames_are_forwarded_in_order_while_streaming() {
    let mut s = SessionState::new();
    s.step(SessionEvent::Connected);
    let acts = s.step(SessionEvent::Frame(vec![1, 2, 3]));
    assert_eq!(acts.len(), 1);
    match &acts[0] {
        SessionAction::SendFrame(d) => assert_eq!(d, &vec![1, 2, 3]),
        _ => panic!("expected a frame send"),
    }
}

#[test]
fn stop_sends_end_marker_once_and_arms_one_timer() {
    let mut s = SessionState::new();
    s.step(SessionEvent::Connected);
    let acts = s.step(SessionEvent::StopObserved);
    assert_eq!(acts.len(), 2);
    assert!(matches!(acts[0], SessionAction::SendEndMarker));
    match acts[1] {
        SessionAction::ArmFinalizeTimer(ms) => assert_eq!(ms, FINALIZE_TIMEOUT_MS),
        _ => panic!("expected the finalize timer"),
    }
    assert_eq!(s.phase, SessionPhase::Draining);
    // A second stop observation, and the source closing, add no second marker.
    let again = s.step(SessionEvent::StopObserved);
    assert_eq!(again.len(), 0);
    let closed = s.step(SessionEvent::FrameSourceClosed);
    assert_eq!(closed.len(), 0);
    assert_eq!(s.phase, SessionPhase::Finalizing);
}

#[test]
fn queued_frames_still_flow_while_draining() {
    let mut s = SessionState::new();
    s.step(SessionEvent::Connected);
    s.step(SessionEvent::StopObserved);
    assert_eq!(s.phase, SessionPhase::Draining);
    let acts = s.step(SessionEvent::Frame(vec![9]));
    assert_eq!(acts.len(), 1);
    assert!(matches!(acts[0], SessionAction::SendFrame(_)));
}

#[test]
fn exhausted_frame_source_sends_end_marker() {
    let mut s = SessionState::new();
    s.step(SessionEvent::Connected);
    let acts = s.step(SessionEvent::FrameSourceClosed);
    assert_eq!(acts.len(), 2);
    assert!(matches!(acts[0], SessionAction::SendEndMarker));
    assert!(matches!(acts[1], SessionAction::ArmFinalizeTimer(_)));
    assert_eq!(s.phase, SessionPhase::Finalizing);
}

#[test]
fn timeout_without_finished_terminates_session() {
    let mut s = SessionState::new();
    s.step(SessionEvent::Connected);
    s.step(SessionEvent::StopObserved);
    let acts = s.step(SessionEvent::FinalizeTimeout);
    assert_eq!(acts.len(), 0);
    assert_eq!(s.phase, SessionPhase::Finished);
    // Nothing moves a finished session.
    let after = s.step(SessionEvent::Frame(vec![1]));
    assert_eq!(after.len(), 0);
}

#[test]
fn spurious_timeout_before_end_marker_is_ignored() {
    let mut s = SessionState::new();
    s.step(SessionEvent::Connected);
    s.step(SessionEvent::FinalizeTimeout);
    assert_eq!(s.phase, SessionPhase::Streaming);
}

#[test]
fn finished_flag_concludes_cleanly() {
    let mut s = SessionState::new();
    s.step(SessionEvent::Connected);
    let acts = s.step(SessionEvent::Response(response(vec![tok("done", true)], Some(true))));
    assert_eq!(acts.len(), 2);
    match &acts[0] {
        SessionAction::EmitDelta(d) => assert_eq!(d, "done"),
        _ => panic!("expected the delta event"),
    }
    match &acts[1] {
        SessionAction::EmitPreview(p) => assert_eq!(p, "done"),
        _ => panic!("expected the preview event"),
    }
    assert_eq!(s.phase, SessionPhase::Finished);
    assert_eq!(s.into_result(), Ok("done".to_string()));
}

#[test]
fn server_error_is_terminal_and_surfaced() {
    let mut s = SessionState::new();
    s.step(SessionEvent::Connected);
    s.step(SessionEvent::Response(response(vec![tok("partial", true)], None)));
    let err = ResponseRecord {
        error_code: Some("quota_exceeded".to_string()),
        error_message: Some("limit reached".to_string()),
        tokens: None,
        finished: None,
    };
    let acts = s.step(SessionEvent::Response(err));
    assert_eq!(acts.len(), 1);
    match &acts[0] {
        SessionAction::EmitError(m) => assert_eq!(m, "quota_exceeded - limit reached"),
        _ => panic!("expected the error event"),
    }
    assert_eq!(s.phase, SessionPhase::Failed);
    // The transcript accumulated before the failure is still returned.
    assert_eq!(s.into_result(), Ok("partial".to_string()));
}

#[test]
fn malformed_messages_are_dropped_not_fatal() {
    let mut s = SessionState::new();
    s.step(SessionEvent::Connected);
    let acts = s.step(SessionEvent::Malformed);
    assert_eq!(acts.len(), 0);
    assert_eq!(s.phase, SessionPhase::Streaming);
    let after = s.step(SessionEvent::Response(response(vec![tok("still here", true)], None)));
    assert_eq!(after.len(), 2);
}

#[test]
fn connect_failure_bubbles_to_result() {
    let mut s = SessionState::new();
    let acts = s.step(SessionEvent::ConnectFailed("refused".to_string()));
    assert_eq!(acts.len(), 0);
    assert_eq!(s.phase, SessionPhase::Failed);
    assert_eq!(s.into_result(), Err("refused".to_string()));
}

#[test]
fn transport_error_is_fatal_and_surfaced() {
    let mut s = SessionState::new();
    s.step(SessionEvent::Connected);
    let acts = s.step(SessionEvent::TransportError("reset".to_string()));
    assert_eq!(acts.len(), 1);
    assert!(matches!(&acts[0], SessionAction::EmitError(m) if m == "reset"));
    assert_eq!(s.phase, SessionPhase::Failed);
    assert_eq!(s.into_result(), Err("reset".to_string()));
}

#[test]
fn remote_close_ends_session_without_error() {
    let mut s = SessionState::new();
    s.step(SessionEvent::Connected);
    s.step(SessionEvent::Response(response(vec![tok("text", true)], None)));
    let acts = s.step(SessionEvent::RemoteClosed);
    assert_eq!(acts.len(), 0);
    assert_eq!(s.phase, SessionPhase::Finished);
    assert_eq!(s.into_result(), Ok("text".to_string()));
}

#[test]
fn empty_delta_emits_no_insertion_but_preview_still_fires() {
    let mut s = SessionState::new();
    s.step(SessionEvent::Connected);
    let acts = s.step(SessionEvent::Response(response(vec![tok("tentative", false)], None)));
    assert_eq!(acts.len(), 1);
    assert!(matches!(&acts[0], SessionAction::EmitPreview(p) if p == "tentative"));
}
