//! How the MIDI sender's worker carries out one command: which calls it makes
//! on the realtime play server and in which order, how it reconfigures itself
//! between them, and which outcome it records. The app's worker loop makes the
//! calls; the decisions are here.
use vstd::prelude::*;
use crate::keyboard_connection::{opt_string_view, KeyboardTransport, PatchVoicing, WorkerState};
use crate::keyboard_screen::{CommandView, SenderCommand};
use crate::midi_message::MidiMessage;
use crate::text::copy_string;

verus! {

/// Whether the worker stops the server before its main call.
#[derive(Clone, Copy, Debug, PartialEq, Eq, Structural)]
pub enum StopStep {
    No,
    /// Always, and its result does not count.
    Always,
    /// Only when the note-offs (if any) went out; its result counts.
    AfterNoteOffs,
}

/// The main call of a command.
#[derive(Clone, Debug, PartialEq, Eq)]
pub enum WorkerCall {
    Send { messages: Vec<MidiMessage>, patch: Option<String> },
    Stop,
    /// Apply the worker's buffer size on the server.
    ApplyBufferMultiplier,
    /// Connect and load `patch`, probing its voicing.
    Prepare { patch: Option<String> },
}

pub ghost enum CallView {
    Send { messages: Seq<MidiMessage>, patch: Option<Seq<char>> },
    Stop,
    ApplyBufferMultiplier,
    Prepare { patch: Option<Seq<char>> },
}

impl View for WorkerCall {
    type V = CallView;

    open spec fn view(&self) -> CallView {
        match self {
            WorkerCall::Send { messages, patch } => CallView::Send { messages: messages@, patch: opt_string_view(*patch) },
            WorkerCall::Stop => CallView::Stop,
            WorkerCall::ApplyBufferMultiplier => CallView::ApplyBufferMultiplier,
            WorkerCall::Prepare { patch } => CallView::Prepare { patch: opt_string_view(*patch) },
        }
    }
}

/// How the outcome goes into the connection status.
#[derive(Clone, Debug, PartialEq, Eq)]
pub enum WorkerRecord {
    /// As a send result; a success leaves the connection idle when asked.
    Result { idle_on_success: bool },
    /// As the result of preparing `patch`; `timed` says whether the time the
    /// command took is shown.
    Prepare { patch: Option<String>, known_voicing: Option<PatchVoicing>, timed: bool },
}

pub ghost enum RecordView {
    Result { idle_on_success: bool },
    Prepare { patch: Option<Seq<char>>, known_voicing: Option<PatchVoicing>, timed: bool },
}

impl View for WorkerRecord {
    type V = RecordView;

    open spec fn view(&self) -> RecordView {
        match self {
            WorkerRecord::Result { idle_on_success } => RecordView::Result { idle_on_success: *idle_on_success },
            WorkerRecord::Prepare { patch, known_voicing, timed } => RecordView::Prepare {
                patch: opt_string_view(*patch),
                known_voicing: *known_voicing,
                timed: *timed,
            },
        }
    }
}

/// The steps of one command, in order: the note-offs to send first (with the
/// patch they sound on), the stop, the new transport and buffer size the
/// worker takes (and whether its shared-memory client is dropped), the main
/// call, and how the outcome is recorded.
pub struct WorkerPlan {
    pub note_offs: Option<(Vec<MidiMessage>, Option<String>)>,
    pub stop: StopStep,
    pub new_transport: Option<KeyboardTransport>,
    pub new_buffer_multiplier: Option<u8>,
    pub reset_fast_client: bool,
    pub call: WorkerCall,
    pub record: WorkerRecord,
}

pub ghost struct PlanView {
    pub note_offs: Option<(Seq<MidiMessage>, Option<Seq<char>>)>,
    pub stop: StopStep,
    pub new_transport: Option<KeyboardTransport>,
    pub new_buffer_multiplier: Option<u8>,
    pub reset_fast_client: bool,
    pub call: CallView,
    pub record: RecordView,
}

impl View for WorkerPlan {
    type V = PlanView;

    open spec fn view(&self) -> PlanView {
        PlanView {
            note_offs: match &self.note_offs {
                Some((m, p)) => Some((m@, opt_string_view(*p))),
                None => None,
            },
            stop: self.stop,
            new_transport: self.new_transport,
            new_buffer_multiplier: self.new_buffer_multiplier,
            reset_fast_client: self.reset_fast_client,
            call: self.call@,
            record: self.record@,
        }
    }
}

/// Note-offs worth sending: none when the list is empty.
pub open spec fn note_off_step(m: Seq<MidiMessage>, patch: Option<Seq<char>>) -> Option<(Seq<MidiMessage>, Option<Seq<char>>)> {
    if m.len() == 0 { None } else { Some((m, patch)) }
}

/// The steps of each command:
/// - `Send` sends, recorded as a send result;
/// - `Stop` stops, and a success leaves the connection idle;
/// - `SetBufferMultiplier` takes the new size, then applies it;
/// - `Prepare` stops the server (whatever comes of it), drops the
///   shared-memory client, takes the transport and size, then prepares the
///   patch, recorded without timing;
/// - `SetPatch` sends the note-offs on the previous patch, then prepares the
///   new one, timed;
/// - `Switch` sends the note-offs, stops if they went out, takes the new
///   transport and drops the client, then prepares the patch, timed.
pub open spec fn spec_plan(c: CommandView) -> PlanView {
    let base = PlanView {
        note_offs: None,
        stop: StopStep::No,
        new_transport: None,
        new_buffer_multiplier: None,
        reset_fast_client: false,
        call: CallView::Stop,
        record: RecordView::Result { idle_on_success: false },
    };
    match c {
        CommandView::Send { messages, patch } => PlanView { call: CallView::Send { messages, patch }, ..base },
        CommandView::Stop => PlanView { record: RecordView::Result { idle_on_success: true }, ..base },
        CommandView::SetBufferMultiplier(m) => PlanView {
            new_buffer_multiplier: Some(m),
            call: CallView::ApplyBufferMultiplier,
            ..base
        },
        CommandView::Prepare { transport, buffer_multiplier, patch, known_voicing } => PlanView {
            stop: StopStep::Always,
            new_transport: Some(transport),
            new_buffer_multiplier: Some(buffer_multiplier),
            reset_fast_client: true,
            call: CallView::Prepare { patch },
            record: RecordView::Prepare { patch, known_voicing, timed: false },
            ..base
        },
        CommandView::SetPatch { note_offs, previous, patch } => PlanView {
            note_offs: note_off_step(note_offs, previous),
            call: CallView::Prepare { patch },
            record: RecordView::Prepare { patch, known_voicing: None, timed: true },
            ..base
        },
        CommandView::Switch { transport, note_offs, patch, known_voicing } => PlanView {
            note_offs: note_off_step(note_offs, patch),
            stop: StopStep::AfterNoteOffs,
            new_transport: Some(transport),
            reset_fast_client: true,
            call: CallView::Prepare { patch },
            record: RecordView::Prepare { patch, known_voicing, timed: true },
            ..base
        },
    }
}

fn copy_opt(p: &Option<String>) -> (copy: Option<String>)
    ensures
        opt_string_view(copy) == opt_string_view(*p),
{
    match p {
        Some(s) => Some(copy_string(s)),
        None => None,
    }
}

fn copy_messages(m: &Vec<MidiMessage>) -> (copy: Vec<MidiMessage>)
    ensures
        copy@ == m@,
{
    let mut copy: Vec<MidiMessage> = Vec::new();
    let mut i: usize = 0;
    while i < m.len()
        invariant
            i <= m@.len(),
            copy@ == m@.subrange(0, i as int),
        decreases m@.len() - i,
    {
        copy.push(m[i]);
        i = i + 1;
        assert(copy@ =~= m@.subrange(0, i as int));
    }
    assert(copy@ =~= m@);
    copy
}

fn note_offs_of(m: &Vec<MidiMessage>, patch: &Option<String>) -> (step: Option<(Vec<MidiMessage>, Option<String>)>)
    ensures
        match step {
            Some((ms, p)) => Some((ms@, opt_string_view(p))),
            None => None::<(Seq<MidiMessage>, Option<Seq<char>>)>,
        } == note_off_step(m@, opt_string_view(*patch)),
{
    if m.len() == 0 {
        None
    } else {
        Some((copy_messages(m), copy_opt(patch)))
    }
}

/// The steps of `command` (see `spec_plan`).
pub fn worker_plan(command: &SenderCommand) -> (plan: WorkerPlan)
    ensures
        plan@ == spec_plan(command@),
{
    match command {
        SenderCommand::Send { messages, patch } => WorkerPlan {
            note_offs: None,
            stop: StopStep::No,
            new_transport: None,
            new_buffer_multiplier: None,
            reset_fast_client: false,
            call: WorkerCall::Send { messages: copy_messages(messages), patch: copy_opt(patch) },
            record: WorkerRecord::Result { idle_on_success: false },
        },
        SenderCommand::Stop => WorkerPlan {
            note_offs: None,
            stop: StopStep::No,
            new_transport: None,
            new_buffer_multiplier: None,
            reset_fast_client: false,
            call: WorkerCall::Stop,
            record: WorkerRecord::Result { idle_on_success: true },
        },
        SenderCommand::SetBufferMultiplier(m) => WorkerPlan {
            note_offs: None,
            stop: StopStep::No,
            new_transport: None,
            new_buffer_multiplier: Some(*m),
            reset_fast_client: false,
            call: WorkerCall::ApplyBufferMultiplier,
            record: WorkerRecord::Result { idle_on_success: false },
        },
        SenderCommand::Prepare { transport, buffer_multiplier, patch, known_voicing } => WorkerPlan {
            note_offs: None,
            stop: StopStep::Always,
            new_transport: Some(*transport),
            new_buffer_multiplier: Some(*buffer_multiplier),
            reset_fast_client: true,
            call: WorkerCall::Prepare { patch: copy_opt(patch) },
            record: WorkerRecord::Prepare { patch: copy_opt(patch), known_voicing: *known_voicing, timed: false },
        },
        SenderCommand::SetPatch { note_offs, previous, patch } => WorkerPlan {
            note_offs: note_offs_of(note_offs, previous),
            stop: StopStep::No,
            new_transport: None,
            new_buffer_multiplier: None,
            reset_fast_client: false,
            call: WorkerCall::Prepare { patch: copy_opt(patch) },
            record: WorkerRecord::Prepare { patch: copy_opt(patch), known_voicing: None, timed: true },
        },
        SenderCommand::Switch { transport, note_offs, patch, known_voicing } => WorkerPlan {
            note_offs: note_offs_of(note_offs, patch),
            stop: StopStep::AfterNoteOffs,
            new_transport: Some(*transport),
            new_buffer_multiplier: None,
            reset_fast_client: true,
            call: WorkerCall::Prepare { patch: copy_opt(patch) },
            record: WorkerRecord::Prepare { patch: copy_opt(patch), known_voicing: *known_voicing, timed: true },
        },
    }
}

/// Whether the worker stops the server now, given how the note-offs went
/// (`None` when there were none to send).
pub fn stops_now(stop: StopStep, note_offs: &Option<Result<(), String>>) -> (stops: bool)
    ensures
        stops == match stop {
            StopStep::No => false,
            StopStep::Always => true,
            StopStep::AfterNoteOffs => !(note_offs matches Some(Err(_))),
        },
{
    match stop {
        StopStep::No => false,
        StopStep::Always => true,
        StopStep::AfterNoteOffs => match note_offs {
            Some(Err(_)) => false,
            _ => true,
        },
    }
}

/// The worker takes the plan's transport and buffer size, and drops its
/// shared-memory client when the plan says so.
pub fn reconfigure(worker: &mut WorkerState, plan: &WorkerPlan)
    ensures
        final(worker).transport == match plan.new_transport {
            Some(t) => t,
            None => old(worker).transport,
        },
        final(worker).buffer_multiplier == match plan.new_buffer_multiplier {
            Some(m) => m,
            None => old(worker).buffer_multiplier,
        },
        final(worker).fast_client_connected == (old(worker).fast_client_connected && !plan.reset_fast_client),
{
    if let Some(t) = plan.new_transport {
        worker.transport = t;
    }
    if let Some(m) = plan.new_buffer_multiplier {
        worker.buffer_multiplier = m;
    }
    if plan.reset_fast_client {
        worker.fast_client_connected = false;
    }
}

/// A patch change with note-offs to send first sends exactly those, on the
/// previous patch, and then prepares the new patch without stopping; with no
/// note-offs it sends none.
pub proof fn patch_change_releases_notes_on_the_previous_patch(
    note_offs: Seq<MidiMessage>,
    previous: Option<Seq<char>>,
    patch: Option<Seq<char>>,
)
    ensures
        ({
            let plan = spec_plan(CommandView::SetPatch { note_offs, previous, patch });
            &&& note_offs.len() > 0 ==> plan.note_offs == Some((note_offs, previous))
            &&& note_offs.len() == 0 ==> plan.note_offs is None
            &&& plan.stop == StopStep::No
            &&& plan.call == (CallView::Prepare { patch })
        }),
{
}

/// The steps of each command, field by field: a buffer change takes the new
/// size and applies it; a prepare stops the server whatever comes of it, takes
/// the transport and size, drops the shared-memory client and prepares the
/// patch untimed; a transport switch sends its note-offs on the patch, stops
/// once they went out, takes the new transport (keeping the size), drops the
/// client and prepares the patch, timed.
pub proof fn commands_take_their_own_steps(c: CommandView)
    ensures
        c matches CommandView::SetBufferMultiplier(m) ==> {
            let plan = spec_plan(c);
            &&& plan.note_offs is None
            &&& plan.stop == StopStep::No
            &&& plan.new_transport is None
            &&& plan.new_buffer_multiplier == Some(m)
            &&& !plan.reset_fast_client
            &&& plan.call == CallView::ApplyBufferMultiplier
            &&& plan.record == (RecordView::Result { idle_on_success: false })
        },
        c matches CommandView::Prepare { transport, buffer_multiplier, patch, known_voicing } ==> {
            let plan = spec_plan(c);
            &&& plan.note_offs is None
            &&& plan.stop == StopStep::Always
            &&& plan.new_transport == Some(transport)
            &&& plan.new_buffer_multiplier == Some(buffer_multiplier)
            &&& plan.reset_fast_client
            &&& plan.call == (CallView::Prepare { patch })
            &&& plan.record == (RecordView::Prepare { patch, known_voicing, timed: false })
        },
        c matches CommandView::Switch { transport, note_offs, patch, known_voicing } ==> {
            let plan = spec_plan(c);
            &&& note_offs.len() > 0 ==> plan.note_offs == Some((note_offs, patch))
            &&& note_offs.len() == 0 ==> plan.note_offs is None
            &&& plan.stop == StopStep::AfterNoteOffs
            &&& plan.new_transport == Some(transport)
            &&& plan.new_buffer_multiplier is None
            &&& plan.reset_fast_client
            &&& plan.call == (CallView::Prepare { patch })
            &&& plan.record == (RecordView::Prepare { patch, known_voicing, timed: true })
        },
        c matches CommandView::SetPatch { note_offs, previous, patch } ==> {
            let plan = spec_plan(c);
            &&& plan.new_transport is None
            &&& plan.new_buffer_multiplier is None
            &&& !plan.reset_fast_client
            &&& plan.record == (RecordView::Prepare { patch, known_voicing: None, timed: true })
        },
{
}

/// A send and a stop have no step before their main call, so what is recorded
/// is that call's own result (see `outcome`): after a send the connection is
/// ready when it went through and in error otherwise; after a stop that went
/// through it is idle.
pub proof fn sends_and_stops_record_their_own_result(c: CommandView)
    requires
        c is Send || c is Stop,
    ensures
        spec_plan(c).note_offs is None,
        spec_plan(c).stop == StopStep::No,
        spec_plan(c).new_transport is None,
        spec_plan(c).new_buffer_multiplier is None,
        spec_plan(c).record == (RecordView::Result { idle_on_success: c is Stop }),
        c matches CommandView::Send { messages, patch } ==> spec_plan(c).call == (CallView::Send { messages, patch }),
        c is Stop ==> spec_plan(c).call == CallView::Stop,
{
}

/// The error of a step, if it failed.
pub open spec fn step_error(r: Option<Result<(), String>>) -> Option<Seq<char>> {
    match r {
        Some(Err(e)) => Some(e@),
        _ => None,
    }
}

/// The outcome of a command: the first failure among the note-offs, the
/// stop (when its result counts) and the main call, else the main call's
/// value.
pub fn outcome<T>(stop: StopStep, note_offs: Option<Result<(), String>>, stopped: Option<Result<(), String>>, main: Result<T, String>)
    -> (result: Result<T, String>)
    ensures
        match step_error(note_offs) {
            Some(e) => result matches Err(r) && r@ == e,
            None => match (if stop == StopStep::AfterNoteOffs { step_error(stopped) } else { None }) {
                Some(e) => result matches Err(r) && r@ == e,
                None => match main {
                    Ok(v) => result == Ok::<T, String>(v),
                    Err(e) => result matches Err(r) && r@ == e@,
                },
            },
        },
{
    if let Some(Err(e)) = note_offs {
        return Err(e);
    }
    if stop == StopStep::AfterNoteOffs {
        if let Some(Err(e)) = stopped {
            return Err(e);
        }
    }
    main
}

} // verus!
