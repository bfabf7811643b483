use vstd::prelude::*;
use std::time::Duration;

verus! {

/// How keyboard MIDI reaches the play server.
#[derive(Clone, Copy, Debug, PartialEq, Eq, Structural)]
pub enum KeyboardTransport {
    Http,
    SharedMemory,
}

impl KeyboardTransport {
    /// The label shown in the status line.
    pub fn label(self) -> (label: &'static str)
        ensures
            label@ == (match self {
                KeyboardTransport::Http => "HTTP"@,
                KeyboardTransport::SharedMemory => "SHM"@,
            }),
    {
        match self {
            KeyboardTransport::Http => "HTTP",
            KeyboardTransport::SharedMemory => "SHM",
        }
    }

    pub open spec fn spec_toggled(self) -> KeyboardTransport {
        match self {
            KeyboardTransport::Http => KeyboardTransport::SharedMemory,
            KeyboardTransport::SharedMemory => KeyboardTransport::Http,
        }
    }

    /// The other transport.
    pub fn toggled(self) -> (other: Self)
        ensures
            other == self.spec_toggled(),
    {
        match self {
            KeyboardTransport::Http => KeyboardTransport::SharedMemory,
            KeyboardTransport::SharedMemory => KeyboardTransport::Http,
        }
    }
}

/// Toggling the transport twice gives it back, and a toggle always changes it.
pub proof fn transport_toggle_is_an_involution(transport: KeyboardTransport)
    ensures
        transport.spec_toggled().spec_toggled() == transport,
        transport.spec_toggled() != transport,
{
}

/// Whether a patch plays one note at a time.
#[derive(Clone, Copy, Debug, PartialEq, Eq, Structural)]
pub enum PatchVoicing {
    Unknown,
    Mono,
    Poly,
}

/// The outcome of probing a patch for mono or poly playback.
#[derive(Clone, Copy, Debug, PartialEq, Eq, Structural)]
pub struct VoicingReport {
    pub decision: PatchVoicing,
}

/// Where the keyboard connection stands.
#[derive(Clone, Debug, PartialEq, Eq)]
pub enum KeyboardConnectionPhase {
    Idle,
    Connecting,
    PatchSetting,
    Ready,
    Error(String),
}

impl KeyboardConnectionPhase {
    /// Notes are sent only once the connection is ready.
    pub fn accepts_notes(&self) -> (accepts: bool)
        ensures
            accepts == (*self is Ready),
    {
        match self {
            KeyboardConnectionPhase::Ready => true,
            _ => false,
        }
    }
}

/// What is known of the current patch's voicing.
#[derive(Clone, Debug, PartialEq, Eq)]
pub enum KeyboardVoicingStatus {
    Unavailable,
    /// A probe is running; the previous result stays visible meanwhile.
    Detecting { previous: Option<VoicingReport> },
    Detected(VoicingReport),
    /// Restored from the voicing cache; no probe was run.
    Cached(PatchVoicing),
}

impl KeyboardVoicingStatus {
    pub open spec fn spec_effective_decision(&self) -> PatchVoicing {
        match self {
            KeyboardVoicingStatus::Detected(report) => report.decision,
            KeyboardVoicingStatus::Detecting { previous: Some(report) } => report.decision,
            KeyboardVoicingStatus::Cached(voicing) => *voicing,
            _ => PatchVoicing::Unknown,
        }
    }

    /// The voicing that playback should assume now.
    pub fn effective_decision(&self) -> (voicing: PatchVoicing)
        ensures
            voicing == self.spec_effective_decision(),
    {
        match self {
            KeyboardVoicingStatus::Detected(report) => report.decision,
            KeyboardVoicingStatus::Detecting { previous: Some(report) } => report.decision,
            KeyboardVoicingStatus::Cached(voicing) => *voicing,
            _ => PatchVoicing::Unknown,
        }
    }
}

/// The voicing status once a probe has started from `previous`: a detected or a
/// still-shown result stays visible; a cached one does not.
pub open spec fn spec_probe_started(previous: KeyboardVoicingStatus) -> KeyboardVoicingStatus {
    KeyboardVoicingStatus::Detecting {
        previous: match previous {
            KeyboardVoicingStatus::Detected(report) => Some(report),
            KeyboardVoicingStatus::Detecting { previous } => previous,
            _ => None,
        },
    }
}

/// The connection status shown on the keyboard screen.
#[derive(Clone, Debug, PartialEq, Eq)]
pub struct KeyboardConnectionStatus {
    pub transport: KeyboardTransport,
    pub phase: KeyboardConnectionPhase,
    pub last_send: Option<Duration>,
    pub buffer_multiplier: u8,
    pub voicing: KeyboardVoicingStatus,
    /// Which patch `voicing` belongs to.
    pub voicing_patch: Option<String>,
}

pub open spec fn opt_str_view(s: Option<&str>) -> Option<Seq<char>> {
    match s {
        Some(s) => Some(s@),
        None => None,
    }
}

pub open spec fn opt_string_view(s: Option<String>) -> Option<Seq<char>> {
    match s {
        Some(s) => Some(s@),
        None => None,
    }
}

/// An owned copy of an optional string.
pub fn owned_opt(s: Option<&str>) -> (owned: Option<String>)
    ensures
        opt_string_view(owned) == opt_str_view(s),
{
    match s {
        Some(s) => Some(s.to_owned()),
        None => None,
    }
}

/// The patch a prepare or a patch change asks for, and its cached voicing if any.
pub struct PatchRequest<'a> {
    pub patch: Option<&'a str>,
    pub known_voicing: Option<PatchVoicing>,
}

impl KeyboardConnectionStatus {
    /// An idle connection on `transport`, nothing sent yet, voicing unknown.
    pub fn new(transport: KeyboardTransport, buffer_multiplier: u8) -> (status: Self)
        ensures
            status.transport == transport,
            status.phase is Idle,
            status.last_send is None,
            status.buffer_multiplier == buffer_multiplier,
            status.voicing is Unavailable,
            status.voicing_patch is None,
    {
        KeyboardConnectionStatus {
            transport,
            phase: KeyboardConnectionPhase::Idle,
            last_send: None,
            buffer_multiplier,
            voicing: KeyboardVoicingStatus::Unavailable,
            voicing_patch: None,
        }
    }

    /// The status before anything was configured: shared memory, buffer ×4.
    pub fn default() -> (status: Self)
        ensures
            status.transport == KeyboardTransport::SharedMemory,
            status.phase is Idle,
            status.last_send is None,
            status.buffer_multiplier == 4,
            status.voicing is Unavailable,
            status.voicing_patch is None,
    {
        Self::new(KeyboardTransport::SharedMemory, 4)
    }

    /// Starts connecting on `transport`: the phase becomes `Connecting`, the last
    /// send time is forgotten, and the voicing of `patch` is taken from the cache
    /// or probed.
    pub fn begin_connecting(
        &mut self,
        transport: KeyboardTransport,
        buffer_multiplier: u8,
        patch: Option<&str>,
        known_voicing: Option<PatchVoicing>,
    )
        ensures
            final(self).transport == transport,
            final(self).phase is Connecting,
            final(self).last_send is None,
            final(self).buffer_multiplier == buffer_multiplier,
            opt_string_view(final(self).voicing_patch) == opt_str_view(patch),
            final(self).voicing == match known_voicing {
                Some(voicing) => KeyboardVoicingStatus::Cached(voicing),
                None => spec_probe_started(old(self).voicing),
            },
    {
        self.transport = transport;
        self.phase = KeyboardConnectionPhase::Connecting;
        self.last_send = None;
        self.buffer_multiplier = buffer_multiplier;
        self.begin_voicing(patch, known_voicing);
    }

    /// Starts applying `patch` on the current connection; transport, buffer and
    /// last send time stay as they are.
    pub fn begin_patch_setting(&mut self, patch: Option<&str>, known_voicing: Option<PatchVoicing>)
        ensures
            final(self).transport == old(self).transport,
            final(self).phase is PatchSetting,
            final(self).last_send == old(self).last_send,
            final(self).buffer_multiplier == old(self).buffer_multiplier,
            opt_string_view(final(self).voicing_patch) == opt_str_view(patch),
            final(self).voicing == match known_voicing {
                Some(voicing) => KeyboardVoicingStatus::Cached(voicing),
                None => spec_probe_started(old(self).voicing),
            },
    {
        self.phase = KeyboardConnectionPhase::PatchSetting;
        self.begin_voicing(patch, known_voicing);
    }

    /// Records which patch the voicing is for; a cached voicing settles it at once,
    /// otherwise a probe starts.
    pub fn begin_voicing(&mut self, patch: Option<&str>, known_voicing: Option<PatchVoicing>)
        ensures
            final(self).transport == old(self).transport,
            final(self).phase == old(self).phase,
            final(self).last_send == old(self).last_send,
            final(self).buffer_multiplier == old(self).buffer_multiplier,
            opt_string_view(final(self).voicing_patch) == opt_str_view(patch),
            final(self).voicing == match known_voicing {
                Some(voicing) => KeyboardVoicingStatus::Cached(voicing),
                None => spec_probe_started(old(self).voicing),
            },
    {
        self.voicing_patch = owned_opt(patch);
        match known_voicing {
            Some(voicing) => {
                self.voicing = KeyboardVoicingStatus::Cached(voicing);
            },
            None => self.begin_voicing_probe(),
        }
    }

    /// Marks a probe as running, keeping a detected result visible meanwhile.
    pub fn begin_voicing_probe(&mut self)
        ensures
            final(self).transport == old(self).transport,
            final(self).phase == old(self).phase,
            final(self).last_send == old(self).last_send,
            final(self).buffer_multiplier == old(self).buffer_multiplier,
            final(self).voicing_patch == old(self).voicing_patch,
            final(self).voicing == spec_probe_started(old(self).voicing),
    {
        let previous = match &self.voicing {
            KeyboardVoicingStatus::Detected(report) => Some(*report),
            KeyboardVoicingStatus::Detecting { previous } => *previous,
            _ => None,
        };
        self.voicing = KeyboardVoicingStatus::Detecting { previous };
    }
}

/// Records the outcome of a send, stop or buffer change: the phase becomes
/// `Error` with the message on failure, and `Idle` (after a stop) or `Ready`
/// on success.
pub fn set_result(
    status: &mut KeyboardConnectionStatus,
    transport: KeyboardTransport,
    buffer_multiplier: u8,
    result: Result<(), String>,
    elapsed: Option<Duration>,
    idle_on_success: bool,
)
    ensures
        final(status).transport == transport,
        final(status).buffer_multiplier == buffer_multiplier,
        final(status).last_send == elapsed,
        final(status).voicing == old(status).voicing,
        final(status).voicing_patch == old(status).voicing_patch,
        final(status).phase == match result {
            Ok(()) => if idle_on_success {
                KeyboardConnectionPhase::Idle
            } else {
                KeyboardConnectionPhase::Ready
            },
            Err(message) => KeyboardConnectionPhase::Error(message),
        },
{
    status.transport = transport;
    status.buffer_multiplier = buffer_multiplier;
    status.phase = match result {
        Ok(()) => if idle_on_success {
            KeyboardConnectionPhase::Idle
        } else {
            KeyboardConnectionPhase::Ready
        },
        Err(message) => KeyboardConnectionPhase::Error(message),
    };
    status.last_send = elapsed;
}

/// Records the outcome of preparing a connection or a patch: ready with the probed
/// voicing, ready with the cached voicing when no probe ran, or an error that
/// leaves the voicing unavailable.
pub fn set_prepare_result(
    status: &mut KeyboardConnectionStatus,
    transport: KeyboardTransport,
    buffer_multiplier: u8,
    result: Result<Option<VoicingReport>, String>,
    request: PatchRequest<'_>,
    elapsed: Option<Duration>,
)
    ensures
        final(status).transport == transport,
        final(status).buffer_multiplier == buffer_multiplier,
        final(status).last_send == elapsed,
        opt_string_view(final(status).voicing_patch) == opt_str_view(request.patch),
        match result {
            Ok(Some(report)) => final(status).phase is Ready
                && final(status).voicing == KeyboardVoicingStatus::Detected(report),
            Ok(None) => final(status).phase is Ready && final(status).voicing == match request.known_voicing {
                Some(voicing) => KeyboardVoicingStatus::Cached(voicing),
                None => KeyboardVoicingStatus::Unavailable,
            },
            Err(message) => final(status).phase == KeyboardConnectionPhase::Error(message)
                && final(status).voicing is Unavailable,
        },
{
    status.transport = transport;
    status.buffer_multiplier = buffer_multiplier;
    status.last_send = elapsed;
    status.voicing_patch = owned_opt(request.patch);
    match result {
        Ok(Some(report)) => {
            status.phase = KeyboardConnectionPhase::Ready;
            status.voicing = KeyboardVoicingStatus::Detected(report);
        },
        Ok(None) => {
            status.phase = KeyboardConnectionPhase::Ready;
            status.voicing = match request.known_voicing {
                Some(voicing) => KeyboardVoicingStatus::Cached(voicing),
                None => KeyboardVoicingStatus::Unavailable,
            };
        },
        Err(message) => {
            status.phase = KeyboardConnectionPhase::Error(message);
            status.voicing = KeyboardVoicingStatus::Unavailable;
        },
    }
}

/// What the MIDI sender's worker thread holds between commands.
pub struct WorkerState {
    pub transport: KeyboardTransport,
    /// Whether a shared-memory client is connected.
    pub fast_client_connected: bool,
    pub buffer_multiplier: u8,
}

impl WorkerState {
    /// A worker on `transport` with no shared-memory client yet.
    pub fn new(transport: KeyboardTransport, buffer_multiplier: u8) -> (worker: Self)
        ensures
            worker.transport == transport,
            !worker.fast_client_connected,
            worker.buffer_multiplier == buffer_multiplier,
    {
        WorkerState { transport, fast_client_connected: false, buffer_multiplier }
    }
}

} // verus!
