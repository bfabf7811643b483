use cmrt_tui::keyboard_connection::{KeyboardTransport, WorkerState};
use cmrt_tui::keyboard_screen::SenderCommand;
use cmrt_tui::midi_message::note_off;
use cmrt_tui::sender_plan::{outcome, reconfigure, stops_now, worker_plan, StopStep, WorkerCall, WorkerRecord};

#[test]
fn a_switch_sends_note_offs_then_stops_then_prepares_on_the_new_transport() {
    let plan = worker_plan(&SenderCommand::Switch {
        transport: KeyboardTransport::Http,
        note_offs: vec![note_off(60)],
        patch: Some("Pad".to_string()),
        known_voicing: None,
    });
    assert_eq!(plan.note_offs, Some((vec![note_off(60)], Some("Pad".to_string()))));
    assert_eq!(plan.stop, StopStep::AfterNoteOffs);
    assert_eq!(plan.call, WorkerCall::Prepare { patch: Some("Pad".to_string()) });
    assert_eq!(plan.record, WorkerRecord::Prepare { patch: Some("Pad".to_string()), known_voicing: None, timed: true });

    let mut worker = WorkerState::new(KeyboardTransport::SharedMemory, 4);
    worker.fast_client_connected = true;
    reconfigure(&mut worker, &plan);
    assert_eq!(worker.transport, KeyboardTransport::Http);
    assert_eq!(worker.buffer_multiplier, 4);
    assert!(!worker.fast_client_connected);

    assert!(!stops_now(plan.stop, &Some(Err("down".to_string()))));
    assert!(stops_now(plan.stop, &None));
    let failed: Result<Option<u8>, String> = outcome(plan.stop, Some(Err("down".to_string())), None, Ok(Some(1)));
    assert_eq!(failed, Err("down".to_string()));
    let stop_failed: Result<Option<u8>, String> = outcome(plan.stop, Some(Ok(())), Some(Err("stop".to_string())), Ok(None));
    assert_eq!(stop_failed, Err("stop".to_string()));
}

#[test]
fn prepare_stops_whatever_comes_of_it_and_is_recorded_without_timing() {
    let plan = worker_plan(&SenderCommand::Prepare {
        transport: KeyboardTransport::SharedMemory,
        buffer_multiplier: 8,
        patch: None,
        known_voicing: None,
    });
    assert!(plan.note_offs.is_none());
    assert!(stops_now(plan.stop, &None));
    let result: Result<u8, String> = outcome(plan.stop, None, Some(Err("ignored".to_string())), Ok(3));
    assert_eq!(result, Ok(3));
    assert_eq!(plan.new_buffer_multiplier, Some(8));
    assert_eq!(plan.record, WorkerRecord::Prepare { patch: None, known_voicing: None, timed: false });
}

#[test]
fn stop_leaves_the_connection_idle_and_empty_note_offs_are_skipped() {
    let plan = worker_plan(&SenderCommand::Stop);
    assert_eq!(plan.call, WorkerCall::Stop);
    assert_eq!(plan.record, WorkerRecord::Result { idle_on_success: true });
    let plan = worker_plan(&SenderCommand::SetPatch { note_offs: vec![], previous: None, patch: None });
    assert!(plan.note_offs.is_none());
    assert!(!stops_now(plan.stop, &None));
}

#[test]
fn a_send_is_recorded_as_its_own_result() {
    let plan = worker_plan(&SenderCommand::Send { messages: vec![note_off(60)], patch: None });
    assert!(plan.note_offs.is_none());
    assert_eq!(plan.stop, StopStep::No);
    assert_eq!(plan.record, WorkerRecord::Result { idle_on_success: false });
    assert_eq!(outcome(plan.stop, None, None, Err::<(), String>("pipe".to_string())), Err("pipe".to_string()));
    assert_eq!(outcome(plan.stop, None, None, Ok::<(), String>(())), Ok(()));
}
