//! The stream orchestrator: what it remembers, and what it asks of the media
//! engine for each control command and each event of the engine's bus.
//!
//! The orchestrator here decides and never touches the engine. Each step
//! takes a command or an event and answers with the list of engine commands
//! to carry out, in order.
use crate::invariants::{
    lemma_handle_keeps_wf, lemma_on_event_keeps_wf, lemma_started_keeps_wf, lemma_tick_keeps_wf,
};
use crate::text::{location, location_of, path_of, request_path};
use vstd::prelude::*;

verus! {

/// The sound system that the sink stage talks to.
#[derive(Debug, Clone, Copy, PartialEq, Eq, Structural)]
pub enum AudioService {
    Auto,
    Alsa,
    Pulse,
}

/// The output device: a sound system and, optionally, a device of it.
#[derive(Debug, Clone, PartialEq, Eq)]
pub struct AudioDevice {
    pub service: AudioService,
    pub device: Option<String>,
}

/// An output device as a mathematical value.
pub struct AudioDeviceView {
    pub service: AudioService,
    pub device: Option<Seq<char>>,
}

impl View for AudioDevice {
    type V = AudioDeviceView;

    open spec fn view(&self) -> AudioDeviceView {
        AudioDeviceView {
            service: self.service,
            device: match self.device {
                Some(name) => Some(name@),
                None => None,
            },
        }
    }
}

/// The lower-case form that `str::to_lowercase` gives a text.
pub uninterp spec fn lowercase(text: Seq<char>) -> Seq<char>;

/// `str::to_lowercase`: the text in lower case, by Unicode's rules.
#[verifier::external_body]
fn to_lowercase(text: &str) -> (lower: String)
    ensures
        lower@ == lowercase(text@),
{
    text.to_lowercase()
}

/// The sound system that a service name in lower case selects. Any name but
/// `alsa` and `pulse` selects automatic choice.
pub open spec fn service_of(name: Seq<char>) -> AudioService {
    if name == seq!['a', 'l', 's', 'a'] {
        AudioService::Alsa
    } else if name == seq!['p', 'u', 'l', 's', 'e'] {
        AudioService::Pulse
    } else {
        AudioService::Auto
    }
}

/// The output device that a service name in lower case and an optional
/// device name select. With automatic choice the device name is dropped.
pub open spec fn device_of(name: Seq<char>, device: Option<Seq<char>>) -> AudioDeviceView {
    AudioDeviceView {
        service: service_of(name),
        device: if service_of(name) is Auto {
            None
        } else {
            device
        },
    }
}

/// The output device that the parts of a `SERVICE[#DEVICE]` option select:
/// the first part names the service, in any case of letters, the second the
/// device. No parts at all select automatic choice.
pub open spec fn device_of_parts(parts: Seq<Seq<char>>) -> AudioDeviceView {
    if parts.len() == 0 {
        AudioDeviceView { service: AudioService::Auto, device: None }
    } else {
        device_of(
            lowercase(parts[0]),
            if parts.len() > 1 {
                Some(parts[1])
            } else {
                None
            },
        )
    }
}

impl Default for AudioDevice {
    fn default() -> (d: AudioDevice)
        ensures
            d@ == (AudioDeviceView { service: AudioService::Auto, device: None }),
    {
        AudioDevice { service: AudioService::Auto, device: None }
    }
}

impl AudioDevice {
    /// The output device for a service name that is already in lower case.
    pub fn select(name: &str, device: Option<String>) -> (d: AudioDevice)
        ensures
            d@ == device_of(
                name@,
                match device {
                    Some(text) => Some(text@),
                    None => None,
                },
            ),
    {
        proof {
            reveal_strlit("alsa");
            reveal_strlit("pulse");
        }
        let alsa = "alsa";
        let pulse = "pulse";
        assert(alsa@ =~= seq!['a', 'l', 's', 'a']);
        assert(pulse@ =~= seq!['p', 'u', 'l', 's', 'e']);
        if same_text(name, alsa) {
            AudioDevice { service: AudioService::Alsa, device }
        } else if same_text(name, pulse) {
            AudioDevice { service: AudioService::Pulse, device }
        } else {
            AudioDevice { service: AudioService::Auto, device: None }
        }
    }

    /// The output device that the parts of a `SERVICE[#DEVICE]` option select.
    pub fn from(v: Vec<&str>) -> (d: AudioDevice)
        ensures
            d@ == device_of_parts(Seq::new(v@.len(), |i: int| v@[i]@)),
    {
        if v.len() == 0 {
            return AudioDevice::default();
        }
        let name = to_lowercase(v[0]);
        let device = if v.len() > 1 {
            Some(v[1].to_owned())
        } else {
            None
        };
        AudioDevice::select(name.as_str(), device)
    }
}

/// Whether two texts are the same, character by character.
fn same_text(a: &str, b: &str) -> (same: bool)
    ensures
        same == (a@ == b@),
{
    let x = a.to_owned();
    let y = b.to_owned();
    x == y
}

/// Unity gain. Gains are fixed-point numbers in units of 1/65536.
pub const UNITY_GAIN: u32 = 0x1_0000;

/// What the session asks of the orchestrator.
#[derive(Debug, Clone, PartialEq, Eq)]
pub enum PlayerControl {
    Gain(u32, u32),
    Enable(bool),
    Stream {
        autostart: bool,
        threshold: u32,
        output_threshold: u64,
        replay_gain: u32,
        server_port: u16,
        server_ip: [u8; 4],
        control_ip: [u8; 4],
        http_headers: String,
    },
    Stop,
    Pause(bool),
    Unpause(bool),
    Skip(u32),
}

/// A control command as a mathematical value.
pub enum PlayerControlView {
    Gain(u32, u32),
    Enable(bool),
    Stream {
        autostart: bool,
        threshold: u32,
        output_threshold: u64,
        replay_gain: u32,
        server_port: u16,
        server_ip: Seq<u8>,
        control_ip: Seq<u8>,
        http_headers: Seq<char>,
    },
    Stop,
    Pause(bool),
    Unpause(bool),
    Skip(u32),
}

impl View for PlayerControl {
    type V = PlayerControlView;

    open spec fn view(&self) -> PlayerControlView {
        match *self {
            PlayerControl::Gain(left, right) => PlayerControlView::Gain(left, right),
            PlayerControl::Enable(on) => PlayerControlView::Enable(on),
            PlayerControl::Stream {
                autostart,
                threshold,
                output_threshold,
                replay_gain,
                server_port,
                server_ip,
                control_ip,
                http_headers,
            } => PlayerControlView::Stream {
                autostart,
                threshold,
                output_threshold,
                replay_gain,
                server_port,
                server_ip: server_ip@,
                control_ip: control_ip@,
                http_headers: http_headers@,
            },
            PlayerControl::Stop => PlayerControlView::Stop,
            PlayerControl::Pause(quiet) => PlayerControlView::Pause(quiet),
            PlayerControl::Unpause(quiet) => PlayerControlView::Unpause(quiet),
            PlayerControl::Skip(interval) => PlayerControlView::Skip(interval),
        }
    }
}

/// What the orchestrator reports to the session.
#[derive(Debug, Clone, Copy, PartialEq, Eq, Structural)]
pub enum PlayerMessages {
    Flushed,
    Paused,
    Unpaused,
    Eos,
    Established,
    Headers(u8),
    Error,
    Start,
    Streamdata { position: u64, fullness: u32, output_buffer_fullness: u32 },
    Bufsize(usize),
    Sendstatus,
    Overrun,
}

/// Where a segment is in its life. A segment only ever moves forward
/// through these states.
#[derive(Debug, Clone, Copy, PartialEq, Eq, Structural)]
pub enum SegmentState {
    /// Its stages exist; the decode stage has no output yet.
    Building,
    /// Its output is attached to the merge point.
    Linked,
    /// Its retirement has begun.
    Draining,
    /// It is off the graph and waits to be dropped.
    Zombie,
    /// It is dropped.
    Reclaimed,
}

/// One track's part of the graph: source, input buffer and decoder.
#[derive(Debug, Clone, Copy, PartialEq, Eq, Structural)]
pub struct Segment {
    pub id: u64,
    pub state: SegmentState,
    /// Whether the segment's output is blocked and closed, which the
    /// engine makes known by the segment's delete request.
    pub blocked: bool,
}

/// A play state that the shared graph can be driven to.
#[derive(Debug, Clone, Copy, PartialEq, Eq, Structural)]
pub enum PlayState {
    Paused,
    Playing,
}

/// What the orchestrator needs to know of the engine to carry out a command.
#[derive(Debug, Clone, Copy, PartialEq, Eq, Structural)]
pub struct EngineStatus {
    /// The play position in milliseconds.
    pub position: u64,
    /// Whether the shared graph is playing.
    pub playing: bool,
}

/// What the orchestrator asks of the media engine.
#[derive(Debug, Clone, PartialEq, Eq)]
pub enum EngineCommand {
    /// Build the shared output chain and start polling its bus.
    BuildChain,
    SetVolume(u32),
    SetMute(bool),
    SetOutputThreshold(u64),
    /// Build a segment that fetches `location`, with an input buffer of
    /// `threshold` bytes, and add it to the graph.
    BuildSegment { id: u64, location: String, threshold: u32 },
    /// Drive the shared graph to `target`, and report `on_success` to the
    /// session if the engine accepts the change.
    SetPlayState { target: PlayState, on_success: Option<PlayerMessages> },
    /// Seek to `position` milliseconds with skip semantics, flushing if
    /// `flush` is set.
    Seek { position: u64, flush: bool },
    /// Begin the block phase on the segment's output.
    Block(u64),
    /// Drive the segment to idle.
    DriveIdle(u64),
    /// Take the segment off the graph and release its slot of the merge
    /// point.
    Detach(u64),
    RecalculateLatency,
    /// Send a message to the session.
    Report(PlayerMessages),
}

/// An engine command as a mathematical value.
pub enum EngineCommandView {
    BuildChain,
    SetVolume(u32),
    SetMute(bool),
    SetOutputThreshold(u64),
    BuildSegment { id: u64, location: Seq<char>, threshold: u32 },
    SetPlayState { target: PlayState, on_success: Option<PlayerMessages> },
    Seek { position: u64, flush: bool },
    Block(u64),
    DriveIdle(u64),
    Detach(u64),
    RecalculateLatency,
    Report(PlayerMessages),
}

impl View for EngineCommand {
    type V = EngineCommandView;

    open spec fn view(&self) -> EngineCommandView {
        match *self {
            EngineCommand::BuildChain => EngineCommandView::BuildChain,
            EngineCommand::SetVolume(gain) => EngineCommandView::SetVolume(gain),
            EngineCommand::SetMute(mute) => EngineCommandView::SetMute(mute),
            EngineCommand::SetOutputThreshold(t) => EngineCommandView::SetOutputThreshold(t),
            EngineCommand::BuildSegment { id, location, threshold } => {
                EngineCommandView::BuildSegment { id, location: location@, threshold }
            },
            EngineCommand::SetPlayState { target, on_success } => EngineCommandView::SetPlayState {
                target,
                on_success,
            },
            EngineCommand::Seek { position, flush } => EngineCommandView::Seek { position, flush },
            EngineCommand::Block(id) => EngineCommandView::Block(id),
            EngineCommand::DriveIdle(id) => EngineCommandView::DriveIdle(id),
            EngineCommand::Detach(id) => EngineCommandView::Detach(id),
            EngineCommand::RecalculateLatency => EngineCommandView::RecalculateLatency,
            EngineCommand::Report(msg) => EngineCommandView::Report(msg),
        }
    }
}

/// The commands of a list as mathematical values, in order.
pub open spec fn views(cmds: Seq<EngineCommand>) -> Seq<EngineCommandView> {
    Seq::new(cmds.len(), |i: int| cmds[i]@)
}

/// What the engine's bus, its callbacks and the poll timeout tell the
/// orchestrator.
#[allow(inconsistent_fields)]
#[derive(Debug, Clone, Copy, PartialEq, Eq, Structural)]
pub enum BusEvent {
    /// No event within the poll timeout; the engine's current levels.
    Timeout { position: u64, input_fullness: u32, output_fullness: u32 },
    /// An error, and the segment it came from if that is known.
    Error { segment: Option<u64> },
    /// The active source received response headers with `fields` fields.
    HttpHeaders { fields: usize },
    Latency,
    /// The decode stage of a segment was attached to the merge point.
    SegmentLinked { segment: u64 },
    /// A segment asks to be deleted: its output is blocked and closed.
    DeleteRequested { segment: u64 },
    /// A segment of the shared graph reached the idle state.
    SegmentIdle { segment: u64 },
    /// A stream starts on the merge point's output.
    StreamStart,
}

/// The orchestrator as a mathematical value.
#[verifier::ext_equal]
pub struct PlayerView {
    /// The persisted gain, never above unity.
    pub gain: u32,
    pub enable: bool,
    pub output_device: AudioDeviceView,
    /// Whether the shared output chain is built.
    pub built: bool,
    /// The segments on the graph, most recent first.
    pub segments: Seq<Segment>,
    /// The segments off the graph that wait to be dropped, oldest first.
    pub zombies: Seq<Segment>,
    /// The id of the next segment.
    pub next_id: u64,
}

/// Whether a segment is neither retiring nor retired.
pub open spec fn live(s: Segment) -> bool {
    s.state is Building || s.state is Linked
}

/// A segment after its retirement has begun, if it had not begun before.
pub open spec fn retire(s: Segment) -> Segment {
    if live(s) {
        Segment { state: SegmentState::Draining, ..s }
    } else {
        s
    }
}

/// The segments after the retirement of each has begun.
pub open spec fn retire_all(segs: Seq<Segment>) -> Seq<Segment> {
    Seq::new(segs.len(), |i: int| retire(segs[i]))
}

/// One block command for each segment that is live, in order.
pub open spec fn block_commands(segs: Seq<Segment>) -> Seq<EngineCommandView>
    decreases segs.len(),
{
    if segs.len() == 0 {
        Seq::empty()
    } else if live(segs.last()) {
        block_commands(segs.drop_last()).push(EngineCommandView::Block(segs.last().id))
    } else {
        block_commands(segs.drop_last())
    }
}

/// Whether `i` is the first position of a segment with the given id.
pub open spec fn first_with(segs: Seq<Segment>, id: u64, i: int) -> bool {
    &&& 0 <= i < segs.len()
    &&& segs[i].id == id
    &&& forall|j: int| 0 <= j < i ==> segs[j].id != id
}

/// The first position of a segment with the given id, if there is one.
pub open spec fn index_of(segs: Seq<Segment>, id: u64) -> Option<int> {
    if exists|i: int| first_with(segs, id, i) {
        Some(choose|i: int| first_with(segs, id, i))
    } else {
        None
    }
}

/// The gain that a gain command sets: the larger of the two channels, and
/// never more than unity.
pub open spec fn effective_gain(left: u32, right: u32) -> u32 {
    let larger = if left > right {
        left
    } else {
        right
    };
    if larger > UNITY_GAIN {
        UNITY_GAIN
    } else {
        larger
    }
}

/// The gain of a new stream: its replay gain, or the persisted gain where
/// the replay gain is below one ten-thousandth and so counts as absent.
pub open spec fn stream_gain(replay_gain: u32, persisted: u32) -> u32 {
    if replay_gain * 10000 < UNITY_GAIN {
        persisted
    } else {
        replay_gain
    }
}

/// The host that a stream is fetched from: the one that the server names,
/// or the control connection's peer where the server names `0.0.0.0`.
pub open spec fn stream_host(server_ip: Seq<u8>, control_ip: Seq<u8>) -> Seq<u8> {
    if server_ip == seq![0u8, 0u8, 0u8, 0u8] {
        control_ip
    } else {
        server_ip
    }
}

impl PlayerView {
    /// What holds of every orchestrator: the gain is at most unity; the
    /// segments on the graph are not yet zombies, carry ids that fall from
    /// the most recent to the oldest, and are blocked only while draining;
    /// the zombies are blocked; and no id is in use twice.
    pub open spec fn wf(self) -> bool {
        &&& self.gain <= UNITY_GAIN
        &&& forall|i: int|
            0 <= i < self.segments.len() ==> {
                &&& (#[trigger] self.segments[i]).id < self.next_id
                &&& (live(self.segments[i]) || self.segments[i].state is Draining)
                &&& (self.segments[i].blocked ==> self.segments[i].state is Draining)
            }
        &&& forall|i: int, j: int|
            0 <= i < j < self.segments.len() ==> (#[trigger] self.segments[i]).id
                > (#[trigger] self.segments[j]).id
        &&& forall|i: int|
            0 <= i < self.zombies.len() ==> {
                &&& (#[trigger] self.zombies[i]).id < self.next_id
                &&& self.zombies[i].state is Zombie
                &&& self.zombies[i].blocked
            }
        &&& forall|i: int, j: int|
            0 <= i < j < self.zombies.len() ==> (#[trigger] self.zombies[i]).id
                != (#[trigger] self.zombies[j]).id
        &&& forall|i: int, j: int|
            0 <= i < self.segments.len() && 0 <= j < self.zombies.len() ==> (
            #[trigger] self.segments[i]).id != (#[trigger] self.zombies[j]).id
    }

    /// The orchestrator before anything is built.
    pub open spec fn initial(output_device: AudioDeviceView) -> PlayerView {
        PlayerView {
            gain: UNITY_GAIN,
            enable: false,
            output_device,
            built: false,
            segments: Seq::empty(),
            zombies: Seq::empty(),
            next_id: 0,
        }
    }

    /// Start of the orchestrator: the shared output chain is built, unless it
    /// is built already.
    pub open spec fn started(self) -> (PlayerView, Seq<EngineCommandView>) {
        if self.built {
            (self, Seq::empty())
        } else {
            (PlayerView { built: true, ..self }, seq![EngineCommandView::BuildChain])
        }
    }

    /// A stream command: a new segment in front of the others, the output
    /// threshold, the gain and the mute state for it, and playing if the
    /// server asks for it. Nothing happens before the chain is built, or
    /// when the ids have run out.
    pub open spec fn stream(
        self,
        autostart: bool,
        threshold: u32,
        output_threshold: u64,
        replay_gain: u32,
        server_port: u16,
        server_ip: Seq<u8>,
        control_ip: Seq<u8>,
        http_headers: Seq<char>,
    ) -> (PlayerView, Seq<EngineCommandView>) {
        if !self.built || self.next_id == u64::MAX {
            (self, Seq::empty())
        } else {
            let segment = Segment {
                id: self.next_id,
                state: SegmentState::Building,
                blocked: false,
            };
            let cmds = seq![
                EngineCommandView::SetOutputThreshold(output_threshold),
                EngineCommandView::SetVolume(stream_gain(replay_gain, self.gain)),
                EngineCommandView::SetMute(!self.enable),
                EngineCommandView::BuildSegment {
                    id: self.next_id,
                    location: location_of(
                        stream_host(server_ip, control_ip),
                        server_port,
                        request_path(http_headers),
                    ),
                    threshold,
                },
            ];
            (
                PlayerView {
                    segments: seq![segment] + self.segments,
                    next_id: (self.next_id + 1) as u64,
                    ..self
                },
                if autostart {
                    cmds.push(
                        EngineCommandView::SetPlayState {
                            target: PlayState::Playing,
                            on_success: None,
                        },
                    )
                } else {
                    cmds
                },
            )
        }
    }

    /// What a control command does, given the engine's status.
    pub open spec fn handle(self, msg: PlayerControlView, status: EngineStatus) -> (
        PlayerView,
        Seq<EngineCommandView>,
    ) {
        match msg {
            PlayerControlView::Gain(left, right) => (
                PlayerView { gain: effective_gain(left, right), ..self },
                if self.built {
                    seq![EngineCommandView::SetVolume(effective_gain(left, right))]
                } else {
                    Seq::empty()
                },
            ),
            PlayerControlView::Enable(on) => (
                PlayerView { enable: on, ..self },
                if self.built {
                    seq![EngineCommandView::SetMute(!on)]
                } else {
                    Seq::empty()
                },
            ),
            PlayerControlView::Stream {
                autostart,
                threshold,
                output_threshold,
                replay_gain,
                server_port,
                server_ip,
                control_ip,
                http_headers,
            } => self.stream(
                autostart,
                threshold,
                output_threshold,
                replay_gain,
                server_port,
                server_ip,
                control_ip,
                http_headers,
            ),
            PlayerControlView::Stop => (
                PlayerView { segments: retire_all(self.segments), ..self },
                if self.segments.len() == 0 {
                    seq![EngineCommandView::Report(PlayerMessages::Flushed)]
                } else {
                    block_commands(self.segments)
                },
            ),
            PlayerControlView::Pause(quiet) => (
                self,
                seq![
                    EngineCommandView::SetPlayState {
                        target: PlayState::Paused,
                        on_success: if quiet {
                            None
                        } else {
                            Some(PlayerMessages::Paused)
                        },
                    },
                ],
            ),
            PlayerControlView::Unpause(quiet) => (
                self,
                seq![
                    EngineCommandView::SetPlayState {
                        target: PlayState::Playing,
                        on_success: if quiet {
                            None
                        } else {
                            Some(PlayerMessages::Unpaused)
                        },
                    },
                ],
            ),
            PlayerControlView::Skip(interval) => (
                self,
                seq![
                    EngineCommandView::Seek {
                        position: (status.position + interval) as u64,
                        flush: !status.playing,
                    },
                ],
            ),
        }
    }

    /// What an event of the engine does.
    pub open spec fn on_event(self, event: BusEvent) -> (PlayerView, Seq<EngineCommandView>) {
        match event {
            BusEvent::Timeout { position, input_fullness, output_fullness } => (
                self,
                seq![
                    EngineCommandView::Report(
                        PlayerMessages::Streamdata {
                            position,
                            fullness: input_fullness,
                            output_buffer_fullness: output_fullness,
                        },
                    ),
                ],
            ),
            BusEvent::Error { segment } => {
                let report = EngineCommandView::Report(PlayerMessages::Error);
                match segment {
                    Some(id) => match index_of(self.segments, id) {
                        Some(i) => if live(self.segments[i]) {
                            (
                                PlayerView {
                                    segments: self.segments.update(i, retire(self.segments[i])),
                                    ..self
                                },
                                seq![EngineCommandView::Block(id), report],
                            )
                        } else {
                            (self, seq![report])
                        },
                        None => (self, seq![report]),
                    },
                    None => (self, seq![report]),
                }
            },
            BusEvent::HttpHeaders { fields } => (
                self,
                seq![
                    EngineCommandView::Report(PlayerMessages::Established),
                    EngineCommandView::Report(PlayerMessages::Headers((fields % 256) as u8)),
                ],
            ),
            BusEvent::Latency => (self, seq![EngineCommandView::RecalculateLatency]),
            BusEvent::SegmentLinked { segment } => match index_of(self.segments, segment) {
                Some(i) => if self.segments[i].state is Building {
                    (
                        PlayerView {
                            segments: self.segments.update(
                                i,
                                Segment { state: SegmentState::Linked, ..self.segments[i] },
                            ),
                            ..self
                        },
                        Seq::empty(),
                    )
                } else {
                    (self, Seq::empty())
                },
                None => (self, Seq::empty()),
            },
            BusEvent::DeleteRequested { segment } => match index_of(self.segments, segment) {
                Some(i) => (
                    PlayerView {
                        segments: self.segments.update(
                            i,
                            Segment {
                                id: segment,
                                state: SegmentState::Draining,
                                blocked: true,
                            },
                        ),
                        ..self
                    },
                    seq![EngineCommandView::DriveIdle(segment)],
                ),
                None => (self, Seq::empty()),
            },
            BusEvent::SegmentIdle { segment } => match index_of(self.segments, segment) {
                Some(i) => if self.segments[i].state is Draining && self.segments[i].blocked {
                    (
                        PlayerView {
                            segments: self.segments.remove(i),
                            zombies: self.zombies.push(
                                Segment {
                                    id: segment,
                                    state: SegmentState::Zombie,
                                    blocked: true,
                                },
                            ),
                            ..self
                        },
                        seq![
                            EngineCommandView::Detach(segment),
                            EngineCommandView::Report(PlayerMessages::Flushed),
                        ],
                    )
                } else {
                    (self, Seq::empty())
                },
                None => (self, Seq::empty()),
            },
            BusEvent::StreamStart => {
                let kept = if self.segments.len() < 2 {
                    self.segments.len() as int
                } else {
                    2
                };
                (
                    PlayerView {
                        segments: self.segments.take(kept) + retire_all(self.segments.skip(kept)),
                        ..self
                    },
                    seq![EngineCommandView::Report(PlayerMessages::Start)] + block_commands(
                        self.segments.skip(kept),
                    ),
                )
            },
        }
    }

    /// One tick of the final reclaim, where `idle` says whether every stage
    /// of the oldest zombie is idle: the zombie is dropped if so, and goes to
    /// the back of the queue if not.
    pub open spec fn tick(self, idle: bool) -> (PlayerView, Option<Segment>) {
        if self.zombies.len() == 0 {
            (self, None)
        } else if idle {
            (
                PlayerView { zombies: self.zombies.drop_first(), ..self },
                Some(Segment { state: SegmentState::Reclaimed, ..self.zombies[0] }),
            )
        } else {
            (
                PlayerView { zombies: self.zombies.drop_first().push(self.zombies[0]), ..self },
                None,
            )
        }
    }
}

/// The stream orchestrator.
#[derive(Debug, Clone, PartialEq, Eq)]
pub struct Player {
    gain: u32,
    enable: bool,
    output_device: AudioDevice,
    built: bool,
    segments: Vec<Segment>,
    zombies: Vec<Segment>,
    next_id: u64,
}

impl View for Player {
    type V = PlayerView;

    closed spec fn view(&self) -> PlayerView {
        PlayerView {
            gain: self.gain,
            enable: self.enable,
            output_device: self.output_device@,
            built: self.built,
            segments: self.segments@,
            zombies: self.zombies@,
            next_id: self.next_id,
        }
    }
}

fn emit(cmds: &mut Vec<EngineCommand>, cmd: EngineCommand)
    ensures
        views(final(cmds)@) == views(old(cmds)@).push(cmd@),
{
    cmds.push(cmd);
    assert(views(cmds@) =~= views(old(cmds)@).push(cmd@));
}

fn is_live(s: &Segment) -> (yes: bool)
    ensures
        yes == live(*s),
{
    match s.state {
        SegmentState::Building => true,
        SegmentState::Linked => true,
        _ => false,
    }
}

proof fn lemma_first_is_unique(segs: Seq<Segment>, id: u64, i: int)
    requires
        first_with(segs, id, i),
    ensures
        index_of(segs, id) == Some(i),
{
    let k = choose|k: int| first_with(segs, id, k);
    if k < i {
        assert(segs[k].id != id);
    } else if i < k {
        assert(segs[i].id != id);
    }
}

fn find(segs: &Vec<Segment>, id: u64) -> (at: Option<usize>)
    ensures
        match at {
            Some(i) => index_of(segs@, id) == Some(i as int) && i < segs@.len(),
            None => index_of(segs@, id) is None,
        },
{
    let mut i: usize = 0;
    while i < segs.len()
        invariant
            i <= segs@.len(),
            forall|j: int| 0 <= j < i ==> segs@[j].id != id,
        decreases segs@.len() - i,
    {
        if segs[i].id == id {
            proof {
                lemma_first_is_unique(segs@, id, i as int);
            }
            return Some(i);
        }
        i = i + 1;
    }
    None
}

fn retire_from(segs: &mut Vec<Segment>, from: usize, cmds: &mut Vec<EngineCommand>)
    requires
        from <= old(segs)@.len(),
    ensures
        final(segs)@ == old(segs)@.take(from as int) + retire_all(old(segs)@.skip(from as int)),
        views(final(cmds)@) == views(old(cmds)@) + block_commands(old(segs)@.skip(from as int)),
{
    let ghost before = segs@;
    let ghost sent = views(cmds@);
    let mut i: usize = from;
    while i < segs.len()
        invariant
            from <= i <= segs@.len(),
            segs@.len() == before.len(),
            forall|j: int| 0 <= j < from ==> segs@[j] == before[j],
            forall|j: int| from <= j < i ==> segs@[j] == retire(before[j]),
            forall|j: int| i <= j < before.len() ==> segs@[j] == before[j],
            views(cmds@) == sent + block_commands(before.subrange(from as int, i as int)),
        decreases segs@.len() - i,
    {
        let s = segs[i];
        proof {
            assert(before.subrange(from as int, i + 1).drop_last() =~= before.subrange(
                from as int,
                i as int,
            ));
            assert(before.subrange(from as int, i + 1).last() == before[i as int]);
        }
        if is_live(&s) {
            segs.set(i, Segment { id: s.id, state: SegmentState::Draining, blocked: s.blocked });
            emit(cmds, EngineCommand::Block(s.id));
        }
        i = i + 1;
        assert(views(cmds@) =~= sent + block_commands(before.subrange(from as int, i as int)));
    }
    assert(before.subrange(from as int, i as int) =~= before.skip(from as int));
    assert(segs@ =~= before.take(from as int) + retire_all(before.skip(from as int)));
}

impl Player {
    /// An orchestrator with nothing built: unity gain, output disabled, no
    /// segments.
    pub fn new(output_device: AudioDevice) -> (player: Player)
        ensures
            player@ == PlayerView::initial(output_device@),
            player@.wf(),
    {
        Player {
            gain: UNITY_GAIN,
            enable: false,
            output_device,
            built: false,
            segments: Vec::new(),
            zombies: Vec::new(),
            next_id: 0,
        }
    }

    /// Start of the orchestrator: asks for the shared output chain, once.
    pub fn started(&mut self) -> (cmds: Vec<EngineCommand>)
        ensures
            final(self)@ == old(self)@.started().0,
            views(cmds@) == old(self)@.started().1,
            old(self)@.wf() ==> final(self)@.wf(),
    {
        proof {
            if old(self)@.wf() {
                lemma_started_keeps_wf(old(self)@);
            }
        }
        let mut cmds: Vec<EngineCommand> = Vec::new();
        assert(views(cmds@) =~= Seq::empty());
        if !self.built {
            self.built = true;
            emit(&mut cmds, EngineCommand::BuildChain);
            assert(views(cmds@) =~= seq![EngineCommandView::BuildChain]);
        }
        cmds
    }

    fn stream(
        &mut self,
        autostart: bool,
        threshold: u32,
        output_threshold: u64,
        replay_gain: u32,
        server_port: u16,
        server_ip: [u8; 4],
        control_ip: [u8; 4],
        http_headers: &str,
    ) -> (cmds: Vec<EngineCommand>)
        ensures
            final(self)@ == old(self)@.stream(
                autostart,
                threshold,
                output_threshold,
                replay_gain,
                server_port,
                server_ip@,
                control_ip@,
                http_headers@,
            ).0,
            views(cmds@) == old(self)@.stream(
                autostart,
                threshold,
                output_threshold,
                replay_gain,
                server_port,
                server_ip@,
                control_ip@,
                http_headers@,
            ).1,
    {
        let mut cmds: Vec<EngineCommand> = Vec::new();
        assert(views(cmds@) =~= Seq::empty());
        if !self.built || self.next_id == u64::MAX {
            return cmds;
        }
        let unnamed = server_ip[0] == 0 && server_ip[1] == 0 && server_ip[2] == 0 && server_ip[3]
            == 0;
        proof {
            let zero = seq![0u8, 0u8, 0u8, 0u8];
            if unnamed {
                assert(server_ip@ =~= zero);
            } else {
                assert(zero[0] == 0 && zero[1] == 0 && zero[2] == 0 && zero[3] == 0);
            }
        }
        let host = if unnamed {
            control_ip
        } else {
            server_ip
        };
        let path = path_of(http_headers);
        let url = location(&host, server_port, path.as_str());
        let gain = if (replay_gain as u64) * 10000 < UNITY_GAIN as u64 {
            self.gain
        } else {
            replay_gain
        };
        let id = self.next_id;
        emit(&mut cmds, EngineCommand::SetOutputThreshold(output_threshold));
        emit(&mut cmds, EngineCommand::SetVolume(gain));
        emit(&mut cmds, EngineCommand::SetMute(!self.enable));
        emit(&mut cmds, EngineCommand::BuildSegment { id, location: url, threshold });
        if autostart {
            emit(
                &mut cmds,
                EngineCommand::SetPlayState { target: PlayState::Playing, on_success: None },
            );
        }
        self.segments.insert(0, Segment { id, state: SegmentState::Building, blocked: false });
        self.next_id = id + 1;
        proof {
            let want = old(self)@.stream(
                autostart,
                threshold,
                output_threshold,
                replay_gain,
                server_port,
                server_ip@,
                control_ip@,
                http_headers@,
            );
            assert(self.segments@ =~= want.0.segments);
            assert(views(cmds@) =~= want.1);
        }
        cmds
    }

    /// Carries out a control command: changes what the orchestrator
    /// remembers and answers with the engine commands to run, in order.
    /// `status` is read for a skip only.
    pub fn handle(&mut self, msg: PlayerControl, status: EngineStatus) -> (cmds: Vec<EngineCommand>)
        requires
            msg matches PlayerControl::Skip(interval) ==> status.position + interval <= u64::MAX,
        ensures
            final(self)@ == old(self)@.handle(msg@, status).0,
            views(cmds@) == old(self)@.handle(msg@, status).1,
            old(self)@.wf() ==> final(self)@.wf(),
    {
        proof {
            if old(self)@.wf() {
                lemma_handle_keeps_wf(old(self)@, msg@, status);
            }
        }
        let mut cmds: Vec<EngineCommand> = Vec::new();
        assert(views(cmds@) =~= Seq::empty());
        match msg {
            PlayerControl::Gain(left, right) => {
                let larger = if left > right {
                    left
                } else {
                    right
                };
                self.gain = if larger > UNITY_GAIN {
                    UNITY_GAIN
                } else {
                    larger
                };
                if self.built {
                    emit(&mut cmds, EngineCommand::SetVolume(self.gain));
                }
                assert(views(cmds@) =~= old(self)@.handle(msg@, status).1);
                cmds
            },
            PlayerControl::Enable(on) => {
                self.enable = on;
                if self.built {
                    emit(&mut cmds, EngineCommand::SetMute(!on));
                }
                assert(views(cmds@) =~= old(self)@.handle(msg@, status).1);
                cmds
            },
            PlayerControl::Stream {
                autostart,
                threshold,
                output_threshold,
                replay_gain,
                server_port,
                server_ip,
                control_ip,
                http_headers,
            } => self.stream(
                autostart,
                threshold,
                output_threshold,
                replay_gain,
                server_port,
                server_ip,
                control_ip,
                http_headers.as_str(),
            ),
            PlayerControl::Stop => {
                if self.segments.len() == 0 {
                    emit(&mut cmds, EngineCommand::Report(PlayerMessages::Flushed));
                    assert(self.segments@ =~= retire_all(old(self).segments@));
                } else {
                    retire_from(&mut self.segments, 0, &mut cmds);
                    assert(old(self).segments@.skip(0) =~= old(self).segments@);
                    assert(self.segments@ =~= retire_all(old(self).segments@));
                }
                assert(views(cmds@) =~= old(self)@.handle(msg@, status).1);
                cmds
            },
            PlayerControl::Pause(quiet) => {
                let on_success = if quiet {
                    None
                } else {
                    Some(PlayerMessages::Paused)
                };
                emit(&mut cmds, EngineCommand::SetPlayState { target: PlayState::Paused, on_success });
                assert(views(cmds@) =~= old(self)@.handle(msg@, status).1);
                cmds
            },
            PlayerControl::Unpause(quiet) => {
                let on_success = if quiet {
                    None
                } else {
                    Some(PlayerMessages::Unpaused)
                };
                emit(
                    &mut cmds,
                    EngineCommand::SetPlayState { target: PlayState::Playing, on_success },
                );
                assert(views(cmds@) =~= old(self)@.handle(msg@, status).1);
                cmds
            },
            PlayerControl::Skip(interval) => {
                emit(
                    &mut cmds,
                    EngineCommand::Seek {
                        position: status.position + interval as u64,
                        flush: !status.playing,
                    },
                );
                assert(views(cmds@) =~= old(self)@.handle(msg@, status).1);
                cmds
            },
        }
    }

    /// Reacts to an event of the engine: changes what the orchestrator
    /// remembers and answers with the engine commands to run, in order.
    pub fn on_event(&mut self, event: BusEvent) -> (cmds: Vec<EngineCommand>)
        ensures
            final(self)@ == old(self)@.on_event(event).0,
            views(cmds@) == old(self)@.on_event(event).1,
            old(self)@.wf() ==> final(self)@.wf(),
    {
        proof {
            if old(self)@.wf() {
                lemma_on_event_keeps_wf(old(self)@, event);
            }
        }
        let mut cmds: Vec<EngineCommand> = Vec::new();
        assert(views(cmds@) =~= Seq::empty());
        match event {
            BusEvent::Timeout { position, input_fullness, output_fullness } => {
                emit(
                    &mut cmds,
                    EngineCommand::Report(
                        PlayerMessages::Streamdata {
                            position,
                            fullness: input_fullness,
                            output_buffer_fullness: output_fullness,
                        },
                    ),
                );
            },
            BusEvent::Error { segment } => {
                if let Some(id) = segment {
                    if let Some(i) = find(&self.segments, id) {
                        let s = self.segments[i];
                        if is_live(&s) {
                            self.segments.set(
                                i,
                                Segment {
                                    id: s.id,
                                    state: SegmentState::Draining,
                                    blocked: s.blocked,
                                },
                            );
                            emit(&mut cmds, EngineCommand::Block(id));
                        }
                    }
                }
                emit(&mut cmds, EngineCommand::Report(PlayerMessages::Error));
            },
            BusEvent::HttpHeaders { fields } => {
                emit(&mut cmds, EngineCommand::Report(PlayerMessages::Established));
                emit(
                    &mut cmds,
                    EngineCommand::Report(PlayerMessages::Headers((fields % 256) as u8)),
                );
            },
            BusEvent::Latency => {
                emit(&mut cmds, EngineCommand::RecalculateLatency);
            },
            BusEvent::SegmentLinked { segment } => {
                if let Some(i) = find(&self.segments, segment) {
                    let s = self.segments[i];
                    if let SegmentState::Building = s.state {
                        self.segments.set(
                            i,
                            Segment { id: s.id, state: SegmentState::Linked, blocked: s.blocked },
                        );
                    }
                }
            },
            BusEvent::DeleteRequested { segment } => {
                if let Some(i) = find(&self.segments, segment) {
                    self.segments.set(
                        i,
                        Segment { id: segment, state: SegmentState::Draining, blocked: true },
                    );
                    emit(&mut cmds, EngineCommand::DriveIdle(segment));
                }
            },
            BusEvent::SegmentIdle { segment } => {
                if let Some(i) = find(&self.segments, segment) {
                    let s = self.segments[i];
                    if let SegmentState::Draining = s.state {
                        if s.blocked {
                            let _ = self.segments.remove(i);
                            self.zombies.push(
                                Segment { id: segment, state: SegmentState::Zombie, blocked: true },
                            );
                            emit(&mut cmds, EngineCommand::Detach(segment));
                            emit(&mut cmds, EngineCommand::Report(PlayerMessages::Flushed));
                        }
                    }
                }
            },
            BusEvent::StreamStart => {
                let kept: usize = if self.segments.len() < 2 {
                    self.segments.len()
                } else {
                    2
                };
                emit(&mut cmds, EngineCommand::Report(PlayerMessages::Start));
                retire_from(&mut self.segments, kept, &mut cmds);
            },
        }
        proof {
            let want = old(self)@.on_event(event);
            assert(self.segments@ =~= want.0.segments);
            assert(self.zombies@ =~= want.0.zombies);
            assert(views(cmds@) =~= want.1);
        }
        cmds
    }

    /// The id of the zombie that the next tick looks at, if there is one.
    pub fn oldest_zombie(&self) -> (id: Option<u64>)
        ensures
            id == if self@.zombies.len() == 0 {
                None
            } else {
                Some(self@.zombies[0].id)
            },
    {
        if self.zombies.len() == 0 {
            None
        } else {
            Some(self.zombies[0].id)
        }
    }

    /// One tick of the final reclaim. `idle` says whether every stage of the
    /// oldest zombie is idle. The zombie is dropped and handed back as
    /// reclaimed if so; it goes to the back of the queue if not.
    pub fn tick(&mut self, idle: bool) -> (dropped: Option<Segment>)
        ensures
            final(self)@ == old(self)@.tick(idle).0,
            dropped == old(self)@.tick(idle).1,
            old(self)@.wf() ==> final(self)@.wf(),
    {
        proof {
            if old(self)@.wf() {
                lemma_tick_keeps_wf(old(self)@, idle);
            }
        }
        if self.zombies.len() == 0 {
            return None;
        }
        let oldest = self.zombies.remove(0);
        if idle {
            assert(self.zombies@ =~= old(self).zombies@.drop_first());
            Some(Segment { id: oldest.id, state: SegmentState::Reclaimed, blocked: oldest.blocked })
        } else {
            self.zombies.push(oldest);
            assert(self.zombies@ =~= old(self).zombies@.drop_first().push(old(self).zombies@[0]));
            None
        }
    }
}

/// The fill level of one stage of the graph, as the engine reports it: the
/// stage's name and its buffered bytes, if the engine could tell them.
#[derive(Debug, Clone, PartialEq, Eq)]
pub struct Level {
    pub name: String,
    pub bytes: Option<u32>,
}

/// The buffered bytes of a stage; zero where the engine could not tell.
pub open spec fn bytes_of(level: Level) -> u32 {
    match level.bytes {
        Some(bytes) => bytes,
        None => 0,
    }
}

/// The fullness of the input and of the output buffer: the largest level
/// among the stages named `ibuf`, and the level of the last stage named
/// `obuf`; zero where there is no such stage.
pub open spec fn fullness_of(levels: Seq<Level>) -> (u32, u32)
    decreases levels.len(),
{
    if levels.len() == 0 {
        (0, 0)
    } else {
        let before = fullness_of(levels.drop_last());
        let last = levels.last();
        if last.name@ == seq!['i', 'b', 'u', 'f'] {
            (
                if bytes_of(last) > before.0 {
                    bytes_of(last)
                } else {
                    before.0
                },
                before.1,
            )
        } else if last.name@ == seq!['o', 'b', 'u', 'f'] {
            (before.0, bytes_of(last))
        } else {
            before
        }
    }
}

/// The fullness of the input and of the output buffer, from the levels of
/// the graph's stages in the order in which the engine walks them.
pub fn buffer_fullness(levels: &Vec<Level>) -> (fullness: (u32, u32))
    ensures
        fullness == fullness_of(levels@),
{
    proof {
        reveal_strlit("ibuf");
        reveal_strlit("obuf");
    }
    let ibuf = "ibuf";
    let obuf = "obuf";
    assert(ibuf@ =~= seq!['i', 'b', 'u', 'f']);
    assert(obuf@ =~= seq!['o', 'b', 'u', 'f']);
    let mut input: u32 = 0;
    let mut output: u32 = 0;
    let mut i: usize = 0;
    while i < levels.len()
        invariant
            i <= levels@.len(),
            ibuf@ == seq!['i', 'b', 'u', 'f'],
            obuf@ == seq!['o', 'b', 'u', 'f'],
            (input, output) == fullness_of(levels@.take(i as int)),
        decreases levels@.len() - i,
    {
        let level = &levels[i];
        let bytes: u32 = match level.bytes {
            Some(bytes) => bytes,
            None => 0,
        };
        proof {
            assert(levels@.take(i + 1).drop_last() =~= levels@.take(i as int));
            assert(levels@.take(i + 1).last() == levels@[i as int]);
        }
        if same_text(level.name.as_str(), ibuf) {
            if bytes > input {
                input = bytes;
            }
        } else if same_text(level.name.as_str(), obuf) {
            output = bytes;
        }
        i = i + 1;
    }
    assert(levels@.take(i as int) =~= levels@);
    (input, output)
}

impl Player {
    /// The persisted gain.
    pub fn gain(&self) -> (gain: u32)
        ensures
            gain == self@.gain,
    {
        self.gain
    }

    /// Whether output is enabled.
    pub fn enabled(&self) -> (on: bool)
        ensures
            on == self@.enable,
    {
        self.enable
    }

    /// The output device that the sink stage is built for.
    pub fn output_device(&self) -> (device: &AudioDevice)
        ensures
            device@ == self@.output_device,
    {
        &self.output_device
    }

    /// Whether the shared output chain is built.
    pub fn is_built(&self) -> (built: bool)
        ensures
            built == self@.built,
    {
        self.built
    }

    /// The segments on the graph, most recent first.
    pub fn segments(&self) -> (segments: &Vec<Segment>)
        ensures
            segments@ == self@.segments,
    {
        &self.segments
    }

    /// The segments off the graph that wait to be dropped, oldest first.
    pub fn zombies(&self) -> (zombies: &Vec<Segment>)
        ensures
            zombies@ == self@.zombies,
    {
        &self.zombies
    }
}

} // verus!
