//! Session lifecycle: admission cap, handshake phases, close semantics and
//! bind ordering.

use eis_bridge::admission::{AdmissionController, DEFAULT_MAX_SESSIONS};
use eis_bridge::geometry::{OutputRect, Pos};
use eis_bridge::manager::SessionManager;
use eis_bridge::session::{
    BindAction, FrameDisposition, FrameEvent, ProtocolRequest, SessionPhase, CAP_ALL,
    CAP_KEYBOARD, CAP_POINTER, CAP_TOUCH,
};
use eis_bridge::translate::{HostSnapshot, InputRequest, Injection};

fn snapshot() -> HostSnapshot {
    HostSnapshot {
        pointer: Pos { x: 100, y: 100 },
        outputs: vec![OutputRect { x: 0, y: 0, w: 1920, h: 1080 }],
        active_output: OutputRect { x: 0, y: 0, w: 1920, h: 1080 },
    }
}

fn activated_session(m: &mut SessionManager) -> u64 {
    let id = m.accept().expect("session admitted");
    assert!(m.begin_handshake(id));
    assert_eq!(m.complete_handshake(id), Some(CAP_ALL));
    id
}

#[test]
fn admit_then_release_restores_counter() {
    let mut a = AdmissionController::new(2);
    assert_eq!(a.active_count(), 0);
    assert!(a.try_admit());
    assert_eq!(a.active_count(), 1);
    a.release();
    assert_eq!(a.active_count(), 0);
}

#[test]
fn rejected_admission_leaves_counter_unchanged() {
    let mut a = AdmissionController::new(1);
    assert!(a.try_admit());
    assert!(!a.try_admit());
    assert_eq!(a.active_count(), 1);
    assert_eq!(a.capacity(), 1);
}

#[test]
fn eight_sessions_admitted_ninth_rejected_without_handshake() {
    let mut m = SessionManager::new(DEFAULT_MAX_SESSIONS);
    let mut ids = Vec::new();
    for _ in 0..8 {
        ids.push(m.accept().expect("within cap"));
    }
    assert_eq!(m.session_count(), 8);
    // The ninth concurrent attempt is refused: no session is created, so no
    // handshake can ever be attempted for it.
    assert_eq!(m.accept(), None);
    assert_eq!(m.session_count(), 8);
    for id in &ids {
        assert_eq!(m.phase_of(*id), Some(SessionPhase::Connecting));
    }
    // Closing one session frees a slot again.
    assert!(m.close(ids[0]));
    assert!(m.accept().is_some());
}

#[test]
fn accept_then_close_restores_count() {
    let mut m = SessionManager::new(4);
    assert_eq!(m.session_count(), 0);
    let id = m.accept().expect("admitted");
    assert_eq!(m.session_count(), 1);
    assert!(m.close(id));
    assert_eq!(m.session_count(), 0);
}

#[test]
fn handshake_walks_phases_in_order() {
    let mut m = SessionManager::new(2);
    let id = m.accept().expect("admitted");
    assert_eq!(m.phase_of(id), Some(SessionPhase::Connecting));
    // Completing a handshake that never began does nothing.
    assert_eq!(m.complete_handshake(id), None);
    assert!(m.begin_handshake(id));
    assert_eq!(m.phase_of(id), Some(SessionPhase::Handshaking));
    // A second readiness event does not restart the handshake.
    assert!(!m.begin_handshake(id));
    assert_eq!(m.complete_handshake(id), Some(CAP_ALL));
    assert_eq!(m.phase_of(id), Some(SessionPhase::Active));
}

#[test]
fn end_of_stream_mid_session_closes_exactly_once() {
    let mut m = SessionManager::new(2);
    let id = activated_session(&mut m);
    assert_eq!(m.session_count(), 1);
    // End-of-stream: the embedder closes the session.
    assert!(m.close(id));
    assert_eq!(m.session_count(), 0);
    assert_eq!(m.phase_of(id), None);
    // A second close finds nothing; the admission is not released twice.
    assert!(!m.close(id));
    assert_eq!(m.session_count(), 0);
    // No further frames are processed for the closed session.
    let snap = snapshot();
    let d = m.handle_frame(
        id,
        FrameEvent::Request(ProtocolRequest::Input(InputRequest::Key {
            keycode: 0x010,
            pressed: true,
        })),
        &snap,
    );
    assert_eq!(d, FrameDisposition::NoSession);
}

#[test]
fn disconnect_request_closes_session() {
    let mut m = SessionManager::new(2);
    let id = activated_session(&mut m);
    let snap = snapshot();
    let d = m.handle_frame(id, FrameEvent::Request(ProtocolRequest::Disconnect), &snap);
    assert_eq!(d, FrameDisposition::SessionClosed);
    assert_eq!(m.session_count(), 0);
}

#[test]
fn malformed_frame_skipped_when_active_fatal_during_handshake() {
    let mut m = SessionManager::new(2);
    let snap = snapshot();
    let id = activated_session(&mut m);
    let d = m.handle_frame(id, FrameEvent::Malformed, &snap);
    assert_eq!(d, FrameDisposition::SkippedMalformed);
    assert_eq!(m.phase_of(id), Some(SessionPhase::Active));
    // During the handshake the same event is session-fatal.
    let id2 = m.accept().expect("admitted");
    assert!(m.begin_handshake(id2));
    let d2 = m.handle_frame(id2, FrameEvent::Malformed, &snap);
    assert_eq!(d2, FrameDisposition::SessionClosed);
    assert_eq!(m.phase_of(id2), None);
}

#[test]
fn bookkeeping_requests_make_no_injection() {
    let mut m = SessionManager::new(2);
    let id = activated_session(&mut m);
    let snap = snapshot();
    for req in [
        ProtocolRequest::StartEmulating,
        ProtocolRequest::StopEmulating,
        ProtocolRequest::FrameBoundary,
        ProtocolRequest::Unknown,
    ] {
        let d = m.handle_frame(id, FrameEvent::Request(req), &snap);
        assert_eq!(d, FrameDisposition::Bookkeeping);
    }
}

#[test]
fn frames_before_active_are_ignored() {
    let mut m = SessionManager::new(2);
    let id = m.accept().expect("admitted");
    let snap = snapshot();
    let d = m.handle_frame(
        id,
        FrameEvent::Request(ProtocolRequest::Input(InputRequest::TouchCancel)),
        &snap,
    );
    assert_eq!(d, FrameDisposition::NotReady);
    assert_eq!(m.phase_of(id), Some(SessionPhase::Connecting));
}

#[test]
fn keymap_transfer_precedes_resume() {
    let mut m = SessionManager::new(2);
    let id = activated_session(&mut m);
    let snap = snapshot();
    let caps = CAP_KEYBOARD | CAP_POINTER;
    let d = m.handle_frame(id, FrameEvent::Request(ProtocolRequest::Bind { caps }), &snap);
    assert_eq!(d, FrameDisposition::BindRequested { caps, needs_keymap: true });
    let (device, plan) = m.bind_device(id, caps, Some(4096)).expect("active session");
    assert_eq!(device, 0);
    assert_eq!(
        plan,
        vec![BindAction::AttachKeymap { size: 4096 }, BindAction::ResumeDevice]
    );
}

#[test]
fn bind_without_keyboard_needs_no_keymap() {
    let mut m = SessionManager::new(2);
    let id = activated_session(&mut m);
    let snap = snapshot();
    let d = m.handle_frame(
        id,
        FrameEvent::Request(ProtocolRequest::Bind { caps: CAP_TOUCH }),
        &snap,
    );
    assert_eq!(d, FrameDisposition::BindRequested { caps: CAP_TOUCH, needs_keymap: false });
    let (device, plan) = m.bind_device(id, CAP_TOUCH, None).expect("active session");
    assert_eq!(device, 0);
    assert_eq!(plan, vec![BindAction::ResumeDevice]);
}

#[test]
fn bind_before_active_creates_no_device() {
    let mut m = SessionManager::new(2);
    let id = m.accept().expect("admitted");
    assert_eq!(m.bind_device(id, CAP_KEYBOARD, Some(16)), None);
    // Unknown identifiers bind nothing either.
    assert_eq!(m.bind_device(999, CAP_KEYBOARD, Some(16)), None);
}

#[test]
fn session_identifiers_are_never_reused() {
    let mut m = SessionManager::new(1);
    let a = m.accept().expect("admitted");
    assert!(m.close(a));
    let b = m.accept().expect("slot free again");
    assert_ne!(a, b);
}

#[test]
fn failed_keymap_compilation_degrades_to_plain_resume() {
    let mut m = SessionManager::new(2);
    let id = activated_session(&mut m);
    // Keyboard capability was asked for but compilation yielded nothing:
    // the device still resumes, without the keymap transfer.
    let (_, plan) = m.bind_device(id, CAP_KEYBOARD, None).expect("active session");
    assert_eq!(plan, vec![BindAction::ResumeDevice]);
    // Second bind on the same session gets the next device index.
    let (device, _) = m.bind_device(id, CAP_POINTER, None).expect("active session");
    assert_eq!(device, 1);
}
