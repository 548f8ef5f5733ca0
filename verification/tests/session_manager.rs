//! Model-level tests of the session manager: registry lifecycle, error
//! surface, pipeline transitions and output accumulation.

use lito_kernel::{
    lito_read_pty, lito_spawn, lito_write_pty, pipeline_event_sent, pipeline_step, ChunkOutcome,
    KernelError, KernelErrorKind, KernelState, PipelineAction, TransportOutcome,
};

fn spawn_ok(state: &mut KernelState) -> String {
    let r = lito_spawn(state, TransportOutcome::Ready);
    assert!(r.is_ok());
    r.unwrap()
}

fn feed(state: &mut KernelState, id: &String, bytes: &[u8]) -> PipelineAction {
    let r = pipeline_step(state, id, ChunkOutcome::Data(bytes.to_vec()));
    assert!(r.is_ok());
    r.unwrap()
}

#[test]
fn spawn_registers_empty_session() {
    let mut state = KernelState::new();
    assert_eq!(state.session_count(), 0);
    let id = spawn_ok(&mut state);
    assert_eq!(id.len(), 36);
    assert_eq!(state.session_count(), 1);
    let output = lito_read_pty(&state, &id).unwrap();
    assert_eq!(output, "");
    assert_eq!(state.session_alive(&id).unwrap(), true);
}

#[test]
fn read_returns_monotonic_snapshots() {
    let mut state = KernelState::new();
    let id = spawn_ok(&mut state);
    let first = lito_read_pty(&state, &id).unwrap();
    feed(&mut state, &id, b"alpha ");
    let second = lito_read_pty(&state, &id).unwrap();
    feed(&mut state, &id, b"beta");
    let third = lito_read_pty(&state, &id).unwrap();
    assert!(second.starts_with(&first));
    assert!(third.starts_with(&second));
    assert_eq!(third, "alpha beta");
}

#[test]
fn write_on_unknown_id_fails_and_changes_nothing() {
    let mut state = KernelState::new();
    let id = spawn_ok(&mut state);
    feed(&mut state, &id, b"kept");
    let bogus = "no-such-session".to_string();
    let w = lito_write_pty(&state, &bogus);
    assert!(w.is_err());
    let e = w.unwrap_err();
    assert_eq!(e.kind, KernelErrorKind::SessionNotFound);
    assert_eq!(e.message, format!("session not found: {}", bogus));
    let r = lito_read_pty(&state, &bogus);
    assert!(r.is_err());
    assert_eq!(r.unwrap_err().kind, KernelErrorKind::SessionNotFound);
    assert_eq!(state.session_count(), 1);
    assert_eq!(lito_read_pty(&state, &id).unwrap(), "kept");
}

#[test]
fn write_on_registered_id_is_authorized_repeatedly() {
    let mut state = KernelState::new();
    let id = spawn_ok(&mut state);
    assert!(lito_write_pty(&state, &id).is_ok());
    feed(&mut state, &id, b"between the writes");
    assert!(lito_write_pty(&state, &id).is_ok());
}

#[test]
fn spawn_transport_failure_registers_nothing() {
    let mut state = KernelState::new();
    let earlier = spawn_ok(&mut state);
    let r = lito_spawn(&mut state, TransportOutcome::Failed("boom".to_string()));
    assert!(r.is_err());
    let e = r.unwrap_err();
    assert_eq!(e.kind, KernelErrorKind::Transport);
    assert_eq!(e.message, "transport failure: boom");
    assert_eq!(state.session_count(), 1);
    assert_eq!(lito_read_pty(&state, &earlier).unwrap(), "");
}

#[test]
fn sessions_are_distinct_and_isolated() {
    let mut state = KernelState::new();
    let a = spawn_ok(&mut state);
    let b = spawn_ok(&mut state);
    let c = spawn_ok(&mut state);
    assert_ne!(a, b);
    assert_ne!(a, c);
    assert_ne!(b, c);
    assert_eq!(state.session_count(), 3);
    feed(&mut state, &b, b"only for b");
    assert_eq!(lito_read_pty(&state, &a).unwrap(), "");
    assert_eq!(lito_read_pty(&state, &b).unwrap(), "only for b");
    assert_eq!(lito_read_pty(&state, &c).unwrap(), "");
}

#[test]
fn pipeline_data_emits_event_and_accumulates_in_order() {
    let mut state = KernelState::new();
    let id = spawn_ok(&mut state);
    let action = feed(&mut state, &id, b"hello ");
    match action {
        PipelineAction::Emit(event) => {
            assert_eq!(event, format!("(pty-output \"{}\")", id));
        }
        _ => panic!("a non-empty chunk must emit a notification event"),
    }
    feed(&mut state, &id, b"world");
    assert_eq!(lito_read_pty(&state, &id).unwrap(), "hello world");
    assert_eq!(state.session_alive(&id).unwrap(), true);
}

#[test]
fn pipeline_eof_closes_but_output_stays_readable() {
    let mut state = KernelState::new();
    let id = spawn_ok(&mut state);
    feed(&mut state, &id, b"last words");
    let action = pipeline_step(&mut state, &id, ChunkOutcome::Eof).unwrap();
    assert!(matches!(action, PipelineAction::Stop));
    assert_eq!(state.session_alive(&id).unwrap(), false);
    assert_eq!(lito_read_pty(&state, &id).unwrap(), "last words");
}

#[test]
fn pipeline_empty_chunk_is_end_of_stream() {
    let mut state = KernelState::new();
    let id = spawn_ok(&mut state);
    let action = pipeline_step(&mut state, &id, ChunkOutcome::Data(Vec::new())).unwrap();
    assert!(matches!(action, PipelineAction::Stop));
    assert_eq!(state.session_alive(&id).unwrap(), false);
}

#[test]
fn pipeline_read_error_closes() {
    let mut state = KernelState::new();
    let id = spawn_ok(&mut state);
    let action =
        pipeline_step(&mut state, &id, ChunkOutcome::Failed("input/output error".to_string()))
            .unwrap();
    assert!(matches!(action, PipelineAction::Stop));
    assert_eq!(state.session_alive(&id).unwrap(), false);
}

#[test]
fn pipeline_event_queue_closure_is_a_normal_termination() {
    let mut state = KernelState::new();
    let id = spawn_ok(&mut state);
    feed(&mut state, &id, b"buffered");
    let keep = pipeline_event_sent(&mut state, &id, true).unwrap();
    assert!(matches!(keep, PipelineAction::Continue));
    assert_eq!(state.session_alive(&id).unwrap(), true);
    let stop = pipeline_event_sent(&mut state, &id, false).unwrap();
    assert!(matches!(stop, PipelineAction::Stop));
    assert_eq!(state.session_alive(&id).unwrap(), false);
    assert_eq!(lito_read_pty(&state, &id).unwrap(), "buffered");
}

#[test]
fn pipeline_on_unknown_id_reports_not_found() {
    let mut state = KernelState::new();
    let bogus = "never-spawned".to_string();
    let r = pipeline_step(&mut state, &bogus, ChunkOutcome::Data(b"x".to_vec()));
    assert!(r.is_err());
    assert_eq!(r.unwrap_err().kind, KernelErrorKind::SessionNotFound);
    assert_eq!(state.session_count(), 0);
}

#[test]
fn invalid_bytes_decode_to_replacement_characters() {
    let mut state = KernelState::new();
    let id = spawn_ok(&mut state);
    feed(&mut state, &id, &[0xff, b'A']);
    assert_eq!(lito_read_pty(&state, &id).unwrap(), "\u{FFFD}A");
}

#[test]
fn write_failure_message_carries_the_cause() {
    let e = KernelError::write_failure(&"broken pipe".to_string());
    assert_eq!(e.kind, KernelErrorKind::WriteFailure);
    assert_eq!(e.message, "write failure: broken pipe");
}

#[test]
fn rendered_event_has_the_symbolic_tuple_form() {
    let id = "aaaaaaaa-bbbb-cccc-dddd-eeeeeeeeeeee".to_string();
    let event = lito_kernel::render_event(&id);
    assert_eq!(event, "(pty-output \"aaaaaaaa-bbbb-cccc-dddd-eeeeeeeeeeee\")");
}
