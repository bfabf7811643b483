use cmrt_tui::keyboard_connection::{
    KeyboardConnectionPhase, KeyboardConnectionStatus, KeyboardTransport, KeyboardVoicingStatus,
    PatchVoicing, VoicingReport,
};
use std::time::Duration;

#[test]
fn transport_toggle_is_symmetric() {
    assert_eq!(KeyboardTransport::Http.toggled(), KeyboardTransport::SharedMemory);
    assert_eq!(KeyboardTransport::SharedMemory.toggled(), KeyboardTransport::Http);
}

#[test]
fn default_status_starts_with_shm_x4() {
    let status = KeyboardConnectionStatus::default();
    assert_eq!(status.transport, KeyboardTransport::SharedMemory);
    assert_eq!(status.phase, KeyboardConnectionPhase::Idle);
    assert_eq!(status.last_send, None);
    assert_eq!(status.buffer_multiplier, 4);
    assert_eq!(status.voicing, KeyboardVoicingStatus::Unavailable);
}

#[test]
fn begin_connecting_updates_initialization_status_synchronously() {
    let mut status = KeyboardConnectionStatus {
        last_send: Some(Duration::from_millis(12)),
        ..KeyboardConnectionStatus::default()
    };

    status.begin_connecting(KeyboardTransport::Http, 8, Some("Leads/Mono.fxp"), None);

    assert_eq!(status.transport, KeyboardTransport::Http);
    assert_eq!(status.phase, KeyboardConnectionPhase::Connecting);
    assert_eq!(status.last_send, None);
    assert_eq!(status.buffer_multiplier, 8);
    assert_eq!(status.voicing, KeyboardVoicingStatus::Detecting { previous: None });
}

#[test]
fn begin_patch_setting_preserves_transport_and_buffer() {
    let mut status = KeyboardConnectionStatus {
        transport: KeyboardTransport::Http,
        buffer_multiplier: 8,
        phase: KeyboardConnectionPhase::Ready,
        last_send: Some(Duration::from_millis(12)),
        voicing: KeyboardVoicingStatus::Unavailable,
        voicing_patch: None,
    };

    status.begin_patch_setting(Some("Leads/Mono.fxp"), None);

    assert_eq!(status.transport, KeyboardTransport::Http);
    assert_eq!(status.buffer_multiplier, 8);
    assert_eq!(status.phase, KeyboardConnectionPhase::PatchSetting);
    assert_eq!(status.last_send, Some(Duration::from_millis(12)));
    assert_eq!(status.voicing, KeyboardVoicingStatus::Detecting { previous: None });
}

#[test]
fn begin_patch_setting_keeps_the_previous_detection_visible() {
    let report = VoicingReport { decision: PatchVoicing::Mono };
    let mut status = KeyboardConnectionStatus {
        voicing: KeyboardVoicingStatus::Detected(report),
        ..KeyboardConnectionStatus::default()
    };

    status.begin_patch_setting(Some("Leads/Mono.fxp"), None);

    assert_eq!(status.voicing, KeyboardVoicingStatus::Detecting { previous: Some(report) });
    assert_eq!(status.voicing.effective_decision(), report.decision);
}

#[test]
fn begin_patch_setting_with_cached_voicing_skips_probing() {
    let mut status = KeyboardConnectionStatus::default();

    status.begin_patch_setting(Some("Leads/Mono.fxp"), Some(PatchVoicing::Mono));

    assert_eq!(status.voicing, KeyboardVoicingStatus::Cached(PatchVoicing::Mono));
    assert_eq!(status.voicing.effective_decision(), PatchVoicing::Mono);
    assert_eq!(status.voicing_patch.as_deref(), Some("Leads/Mono.fxp"));
}

#[test]
fn transport_labels_name_http_and_shared_memory() {
    assert_eq!(KeyboardTransport::Http.label(), "HTTP");
    assert_eq!(KeyboardTransport::SharedMemory.label(), "SHM");
}

#[test]
fn only_a_ready_connection_accepts_notes() {
    assert!(KeyboardConnectionPhase::Ready.accepts_notes());
    assert!(!KeyboardConnectionPhase::Idle.accepts_notes());
    assert!(!KeyboardConnectionPhase::Connecting.accepts_notes());
    assert!(!KeyboardConnectionPhase::Error("down".to_string()).accepts_notes());
}
