//! The session of one control connection: the handshake, what each server
//! message leads to, and the telemetry that goes back to the server.
use crate::codec::{
    fresh_stat, ClientMessage, ClientMessageView, ServerMessage, ServerMessageView, StatData,
};
use crate::player::{PlayerControl, PlayerControlView, PlayerMessages};
use mac_address::MacAddressError;
use std::time::{Duration, Instant};
use vstd::prelude::*;
use vstd::string::StringExecFns;

verus! {

#[verifier::external_type_specification]
#[verifier::external_body]
pub struct ExInstant(Instant);

#[verifier::external_type_specification]
#[verifier::external_body]
pub struct ExMacAddressError(MacAddressError);

/// `Instant::now`: the present moment. Nothing is claimed of it.
#[verifier::external_body]
fn now() -> Instant {
    Instant::now()
}

/// `Instant::elapsed`: the time since the instant. Nothing is claimed of it.
#[verifier::external_body]
fn elapsed(since: &Instant) -> Duration {
    since.elapsed()
}

/// `Duration::as_secs`: the whole seconds of a duration. Nothing is claimed
/// of them.
#[verifier::external_body]
fn whole_seconds(d: &Duration) -> u64 {
    d.as_secs()
}

/// `Duration::subsec_millis`: the milliseconds beyond the whole seconds.
/// Nothing is claimed of them.
#[verifier::external_body]
fn subsec_millis(d: &Duration) -> u32 {
    d.subsec_millis()
}

/// `mac_address::get_mac_address`: the hardware address of the first
/// network interface that has one, as six octets. It depends on the host, so
/// nothing is claimed of it.
#[verifier::external_body]
fn hardware_mac() -> Result<Option<[u8; 6]>, MacAddressError> {
    mac_address::get_mac_address().map(|found| found.map(|mac| mac.bytes()))
}

/// `rand::thread_rng` and `Rng::gen`: one random octet. Nothing is claimed
/// of it. The generator panics if the system gives it no seed.
#[verifier::external_body]
fn random_octet() -> u8 {
    rand::Rng::gen::<u8>(&mut rand::thread_rng())
}

/// Where a session is in its life.
#[derive(Debug, Clone, Copy, PartialEq, Eq, Structural)]
pub enum SessionState {
    /// Made, but the connection is not up yet.
    Connecting,
    /// Connected; the greeting is not sent yet.
    Handshaking,
    /// Greeted: server messages are handled.
    Active,
    /// The farewell is sent.
    Closing,
    Closed,
}

/// The session of one control connection.
#[derive(Debug)]
pub struct Proto {
    state: SessionState,
    sync_group_id: Option<String>,
    creation_time: Instant,
    stat_data: StatData,
    server_ip: [u8; 4],
}

/// A session as a mathematical value. The moment of its creation is not
/// part of it.
#[verifier::ext_equal]
pub struct ProtoView {
    pub state: SessionState,
    pub sync_group_id: Option<Seq<char>>,
    pub stat_data: StatData,
    pub server_ip: Seq<u8>,
}

impl View for Proto {
    type V = ProtoView;

    closed spec fn view(&self) -> ProtoView {
        ProtoView {
            state: self.state,
            sync_group_id: match self.sync_group_id {
                Some(id) => Some(id@),
                None => None,
            },
            stat_data: self.stat_data,
            server_ip: self.server_ip@,
        }
    }
}

/// A server to connect to in place of the present one.
#[derive(Debug, Clone, PartialEq, Eq)]
pub struct Redirect {
    pub ip_address: [u8; 4],
    pub sync_group_id: Option<String>,
}

/// What the session does on a server message: a frame for the server, a
/// command for the orchestrator, a redirect, or any of them together. The
/// frame goes out first.
#[derive(Debug, Clone, PartialEq, Eq)]
pub struct Reaction {
    pub reply: Option<ClientMessage>,
    pub control: Option<PlayerControl>,
    pub redirect: Option<Redirect>,
}

/// A reaction as a mathematical value.
#[verifier::ext_equal]
pub struct ReactionView {
    pub reply: Option<ClientMessageView>,
    pub control: Option<PlayerControlView>,
    pub redirect: Option<(Seq<u8>, Option<Seq<char>>)>,
}

impl View for Reaction {
    type V = ReactionView;

    open spec fn view(&self) -> ReactionView {
        ReactionView {
            reply: match self.reply {
                Some(msg) => Some(msg@),
                None => None,
            },
            control: match self.control {
                Some(msg) => Some(msg@),
                None => None,
            },
            redirect: match self.redirect {
                Some(to) => Some(
                    (
                        to.ip_address@,
                        match to.sync_group_id {
                            Some(id) => Some(id@),
                            None => None,
                        },
                    ),
                ),
                None => None,
            },
        }
    }
}

/// Milliseconds since the start of a session, counted modulo 2^32.
pub open spec fn jiffies_of(seconds: u64, millis: u32) -> u32 {
    ((seconds * 1000 + millis) % 0x1_0000_0000) as u32
}

/// The capabilities that the greeting always names.
pub open spec fn base_capabilities() -> Seq<char> {
    "flc,ogg,mp3,wma,aac,Model=Storm,ModelName=Storm,AccuratePlayPoints=1,HasDigitalOut=1,HasPolarityInversion=1"@
}

/// The capabilities of the greeting: the fixed list, and the sync group if
/// the session has one.
pub open spec fn capabilities_of(sync_group_id: Option<Seq<char>>) -> Seq<char> {
    match sync_group_id {
        Some(id) => base_capabilities() + ",SyncgroupID="@ + id,
        None => base_capabilities(),
    }
}

/// The telemetry frame with the given event code.
pub open spec fn stat_of(event_code: Seq<char>, stat_data: StatData) -> ClientMessageView {
    ClientMessageView::Stat { event_code, stat_data }
}

/// The reaction that does nothing.
pub open spec fn no_reaction() -> ReactionView {
    ReactionView { reply: None, control: None, redirect: None }
}

impl ProtoView {
    /// The greeting that a session sends with the given hardware address.
    pub open spec fn helo(self, mac: Seq<u8>) -> ClientMessageView {
        ClientMessageView::Helo {
            device_id: 12,
            revision: 0,
            mac,
            uuid: Seq::new(16, |i: int| 0u8),
            wlan_channel_list: 0,
            bytes_received: 0,
            capabilities: capabilities_of(self.sync_group_id),
        }
    }

    /// What a server message leads to at the moment `jiffies`. Only an
    /// active session reacts.
    pub open spec fn handle(self, msg: ServerMessageView, jiffies: u32) -> (
        ProtoView,
        ReactionView,
    ) {
        if !(self.state is Active) {
            (self, no_reaction())
        } else {
            match msg {
                ServerMessageView::Serv { ip_address, sync_group_id } => (
                    ProtoView { state: SessionState::Closing, ..self },
                    ReactionView {
                        reply: Some(ClientMessageView::Bye(0)),
                        control: None,
                        redirect: Some((ip_address, sync_group_id)),
                    },
                ),
                ServerMessageView::Status(timestamp) => {
                    let stat_data = StatData { timestamp, jiffies, ..self.stat_data };
                    (
                        ProtoView { stat_data, ..self },
                        ReactionView {
                            reply: Some(stat_of("STMt"@, stat_data)),
                            control: None,
                            redirect: None,
                        },
                    )
                },
                ServerMessageView::Stream {
                    autostart,
                    format,
                    threshold,
                    output_threshold,
                    replay_gain,
                    server_port,
                    server_ip,
                    http_headers,
                } => (
                    self,
                    ReactionView {
                        reply: Some(stat_of("STMc"@, self.stat_data)),
                        control: Some(
                            PlayerControlView::Stream {
                                autostart,
                                threshold,
                                output_threshold,
                                replay_gain,
                                server_port,
                                server_ip,
                                control_ip: self.server_ip,
                                http_headers,
                            },
                        ),
                        redirect: None,
                    },
                ),
                ServerMessageView::Gain(left, right) => (
                    self,
                    ReactionView {
                        reply: None,
                        control: Some(PlayerControlView::Gain(left, right)),
                        redirect: None,
                    },
                ),
                ServerMessageView::Enable(on) => (
                    self,
                    ReactionView {
                        reply: None,
                        control: Some(PlayerControlView::Enable(on)),
                        redirect: None,
                    },
                ),
                ServerMessageView::Stop => (
                    self,
                    ReactionView {
                        reply: None,
                        control: Some(PlayerControlView::Stop),
                        redirect: None,
                    },
                ),
                ServerMessageView::Pause(_) => (
                    self,
                    ReactionView {
                        reply: None,
                        control: Some(PlayerControlView::Pause(false)),
                        redirect: None,
                    },
                ),
                ServerMessageView::Unpause(_) => (
                    self,
                    ReactionView {
                        reply: None,
                        control: Some(PlayerControlView::Unpause(false)),
                        redirect: None,
                    },
                ),
                ServerMessageView::Unrecognised(_) => (self, no_reaction()),
                ServerMessageView::Error => (
                    ProtoView { state: SessionState::Closing, ..self },
                    ReactionView {
                        reply: Some(ClientMessageView::Bye(0)),
                        control: None,
                        redirect: None,
                    },
                ),
            }
        }
    }

    /// The start of closing. A session that was connected says farewell
    /// once; one that is closing or closed already stays as it is.
    pub open spec fn stopping(self) -> (ProtoView, Option<ClientMessageView>) {
        match self.state {
            SessionState::Handshaking | SessionState::Active => (
                ProtoView { state: SessionState::Closing, ..self },
                Some(ClientMessageView::Bye(0)),
            ),
            SessionState::Connecting => (ProtoView { state: SessionState::Closing, ..self }, None),
            _ => (self, None),
        }
    }

    /// What a message of the orchestrator leads to: a telemetry frame for
    /// the three state events, and an updated record for the measurements.
    /// Only an active session reacts.
    pub open spec fn handle_player(self, msg: PlayerMessages) -> (
        ProtoView,
        Option<ClientMessageView>,
    ) {
        if !(self.state is Active) {
            (self, None)
        } else {
            match msg {
                PlayerMessages::Flushed => (self, Some(stat_of("STMf"@, self.stat_data))),
                PlayerMessages::Paused => (self, Some(stat_of("STMp"@, self.stat_data))),
                PlayerMessages::Unpaused => (self, Some(stat_of("STMr"@, self.stat_data))),
                PlayerMessages::Streamdata { position, fullness, output_buffer_fullness } => (
                    ProtoView {
                        stat_data: StatData {
                            fullness,
                            output_buffer_fullness,
                            elapsed_seconds: (position / 1000 % 0x1_0000_0000) as u32,
                            elapsed_milliseconds: (position % 0x1_0000_0000) as u32,
                            ..self.stat_data
                        },
                        ..self
                    },
                    None,
                ),
                PlayerMessages::Bufsize(bytes) => (
                    ProtoView {
                        stat_data: StatData {
                            bytes_received: ((self.stat_data.bytes_received + bytes)
                                % 0x1_0000_0000_0000_0000) as u64,
                            ..self.stat_data
                        },
                        ..self
                    },
                    None,
                ),
                PlayerMessages::Headers(lines) => (
                    ProtoView { stat_data: StatData { crlf: lines, ..self.stat_data }, ..self },
                    None,
                ),
                _ => (self, None),
            }
        }
    }
}

impl Proto {
    /// A session for the server at `server_ip`, not yet connected. Its
    /// telemetry record is that of a fresh session.
    pub fn new(server_ip: [u8; 4], sync_group_id: Option<String>) -> (session: Proto)
        ensures
            session@.state is Connecting,
            session@.server_ip == server_ip@,
            session@.sync_group_id == match sync_group_id {
                Some(id) => Some(id@),
                None => None,
            },
            session@.stat_data == fresh_stat(),
    {
        let stat_data = StatData::default();
        Proto {
            state: SessionState::Connecting,
            sync_group_id,
            creation_time: now(),
            stat_data,
            server_ip,
        }
    }

    /// The connection is up: the session's clock starts, and the greeting is
    /// due. Does nothing unless the session is connecting.
    pub fn connected(&mut self)
        ensures
            final(self)@ == if old(self)@.state is Connecting {
                ProtoView { state: SessionState::Handshaking, ..old(self)@ }
            } else {
                old(self)@
            },
    {
        if let SessionState::Connecting = self.state {
            self.creation_time = now();
            self.state = SessionState::Handshaking;
        }
    }

    /// The greeting with the given hardware address, which makes the session
    /// active. Nothing is sent unless the greeting is due.
    pub fn greet(&mut self, mac: [u8; 6]) -> (helo: Option<ClientMessage>)
        ensures
            old(self)@.state is Handshaking ==> final(self)@ == (ProtoView {
                state: SessionState::Active,
                ..old(self)@
            }) && helo is Some && helo->0@ == old(self)@.helo(mac@),
            !(old(self)@.state is Handshaking) ==> final(self)@ == old(self)@ && helo is None,
    {
        if let SessionState::Handshaking = self.state {
            self.state = SessionState::Active;
            let uuid: [u8; 16] = [0, 0, 0, 0, 0, 0, 0, 0, 0, 0, 0, 0, 0, 0, 0, 0];
            assert(uuid@ =~= Seq::new(16, |i: int| 0u8));
            Some(
                ClientMessage::Helo {
                    device_id: 12,
                    revision: 0,
                    mac,
                    uuid,
                    wlan_channel_list: 0,
                    bytes_received: 0,
                    capabilities: capabilities(&self.sync_group_id),
                },
            )
        } else {
            None
        }
    }

    /// The greeting, with the host's hardware address or a random one. Which
    /// address it carries depends on the host.
    pub fn started(&mut self) -> (helo: Option<ClientMessage>)
        ensures
            old(self)@.state is Handshaking ==> final(self)@ == (ProtoView {
                state: SessionState::Active,
                ..old(self)@
            }) && helo is Some && exists|mac: Seq<u8>|
                mac.len() == 6 && helo->0@ == #[trigger] old(self)@.helo(mac),
            !(old(self)@.state is Handshaking) ==> final(self)@ == old(self)@ && helo is None,
    {
        let mac = get_mac();
        let helo = self.greet(mac);
        proof {
            if old(self)@.state is Handshaking {
                assert(mac@.len() == 6 && helo->0@ == old(self)@.helo(mac@));
            }
        }
        helo
    }

    /// The farewell, `Bye(0)`, which a session sends once, when it begins to
    /// close after it was connected.
    pub fn stopping(&mut self) -> (bye: Option<ClientMessage>)
        ensures
            final(self)@ == old(self)@.stopping().0,
            match bye {
                Some(msg) => old(self)@.stopping().1 == Some(msg@),
                None => old(self)@.stopping().1 is None,
            },
    {
        match self.state {
            SessionState::Handshaking | SessionState::Active => {
                self.state = SessionState::Closing;
                Some(ClientMessage::Bye(0))
            },
            SessionState::Connecting => {
                self.state = SessionState::Closing;
                None
            },
            _ => None,
        }
    }

    /// The connection is gone: the session is closed.
    pub fn stopped(&mut self)
        ensures
            final(self)@ == (ProtoView { state: SessionState::Closed, ..old(self)@ }),
    {
        self.state = SessionState::Closed;
    }

    /// Milliseconds since the session's clock started, counted modulo 2^32.
    pub fn jiffies(&self) -> u32 {
        let age = elapsed(&self.creation_time);
        jiffies_from(whole_seconds(&age), subsec_millis(&age))
    }

    /// Reacts to a server message at the moment `jiffies`.
    pub fn handle_at(&mut self, msg: ServerMessage, jiffies: u32) -> (reaction: Reaction)
        ensures
            final(self)@ == old(self)@.handle(msg@, jiffies).0,
            reaction@ == old(self)@.handle(msg@, jiffies).1,
    {
        let nothing = Reaction { reply: None, control: None, redirect: None };
        if let SessionState::Active = self.state {
        } else {
            return nothing;
        }
        match msg {
            ServerMessage::Serv { ip_address, sync_group_id } => {
                self.state = SessionState::Closing;
                Reaction {
                    reply: Some(ClientMessage::Bye(0)),
                    control: None,
                    redirect: Some(Redirect { ip_address, sync_group_id }),
                }
            },
            ServerMessage::Status(timestamp) => {
                self.stat_data.timestamp = timestamp;
                self.stat_data.jiffies = jiffies;
                Reaction {
                    reply: Some(self.stat_data.make_stat_message("STMt")),
                    control: None,
                    redirect: None,
                }
            },
            ServerMessage::Stream {
                autostart,
                format: _,
                threshold,
                output_threshold,
                replay_gain,
                server_port,
                server_ip,
                http_headers,
            } => Reaction {
                reply: Some(self.stat_data.make_stat_message("STMc")),
                control: Some(
                    PlayerControl::Stream {
                        autostart,
                        threshold,
                        output_threshold,
                        replay_gain,
                        server_port,
                        server_ip,
                        control_ip: self.server_ip,
                        http_headers,
                    },
                ),
                redirect: None,
            },
            ServerMessage::Gain(left, right) => Reaction {
                reply: None,
                control: Some(PlayerControl::Gain(left, right)),
                redirect: None,
            },
            ServerMessage::Enable(on) => Reaction {
                reply: None,
                control: Some(PlayerControl::Enable(on)),
                redirect: None,
            },
            ServerMessage::Stop => Reaction {
                reply: None,
                control: Some(PlayerControl::Stop),
                redirect: None,
            },
            ServerMessage::Pause(_) => Reaction {
                reply: None,
                control: Some(PlayerControl::Pause(false)),
                redirect: None,
            },
            ServerMessage::Unpause(_) => Reaction {
                reply: None,
                control: Some(PlayerControl::Unpause(false)),
                redirect: None,
            },
            ServerMessage::Unrecognised(_) => nothing,
            ServerMessage::Error => {
                self.state = SessionState::Closing;
                Reaction { reply: Some(ClientMessage::Bye(0)), control: None, redirect: None }
            },
        }
    }

    /// Reacts to a server message now. The moment enters the reaction to a
    /// status request only.
    pub fn handle(&mut self, msg: ServerMessage) -> (reaction: Reaction)
        ensures
            exists|jiffies: u32|
                {
                    &&& final(self)@ == (#[trigger] old(self)@.handle(msg@, jiffies)).0
                    &&& reaction@ == old(self)@.handle(msg@, jiffies).1
                },
    {
        let jiffies = self.jiffies();
        let reaction = self.handle_at(msg, jiffies);
        proof {
            let ghost at = old(self)@.handle(msg@, jiffies);
            assert(self@ == at.0 && reaction@ == at.1);
        }
        reaction
    }

    /// Reacts to a message of the orchestrator: the telemetry frame to send,
    /// if the message calls for one.
    pub fn handle_player(&mut self, msg: PlayerMessages) -> (frame: Option<ClientMessage>)
        ensures
            final(self)@ == old(self)@.handle_player(msg).0,
            match frame {
                Some(stat) => old(self)@.handle_player(msg).1 == Some(stat@),
                None => old(self)@.handle_player(msg).1 is None,
            },
    {
        if let SessionState::Active = self.state {
        } else {
            return None;
        }
        match msg {
            PlayerMessages::Flushed => Some(self.stat_data.make_stat_message("STMf")),
            PlayerMessages::Paused => Some(self.stat_data.make_stat_message("STMp")),
            PlayerMessages::Unpaused => Some(self.stat_data.make_stat_message("STMr")),
            PlayerMessages::Streamdata { position, fullness, output_buffer_fullness } => {
                self.stat_data.fullness = fullness;
                self.stat_data.output_buffer_fullness = output_buffer_fullness;
                self.stat_data.elapsed_seconds = (position / 1000 % 0x1_0000_0000) as u32;
                self.stat_data.elapsed_milliseconds = (position % 0x1_0000_0000) as u32;
                None
            },
            PlayerMessages::Bufsize(bytes) => {
                let held = self.stat_data.bytes_received;
                let more = bytes as u64;
                self.stat_data.bytes_received = if more > u64::MAX - held {
                    more - (u64::MAX - held) - 1
                } else {
                    held + more
                };
                None
            },
            PlayerMessages::Headers(lines) => {
                self.stat_data.crlf = lines;
                None
            },
            _ => None,
        }
    }

    /// Where the session is in its life.
    pub fn state(&self) -> (state: SessionState)
        ensures
            state == self@.state,
    {
        self.state
    }

    /// The session's telemetry record.
    pub fn stat_data(&self) -> (stat_data: StatData)
        ensures
            stat_data == self@.stat_data,
    {
        self.stat_data
    }

    /// The address of the server of this session.
    pub fn server_ip(&self) -> (ip: [u8; 4])
        ensures
            ip@ == self@.server_ip,
    {
        self.server_ip
    }
}

/// Milliseconds since the start of a session, counted modulo 2^32, for a
/// duration given as whole seconds and the milliseconds beyond them.
pub fn jiffies_from(seconds: u64, millis: u32) -> (jiffies: u32)
    ensures
        jiffies == jiffies_of(seconds, millis),
{
    let low: u64 = seconds % 0x1_0000_0000;
    let total: u64 = low * 1000 + millis as u64;
    let wrapped: u64 = total % 0x1_0000_0000;
    assert(wrapped == (seconds * 1000 + millis) % 0x1_0000_0000) by {
        let q = seconds as int / 0x1_0000_0000;
        assert(seconds as int == q * 0x1_0000_0000 + low as int);
        assert(seconds * 1000 + millis == (q * 1000) * 0x1_0000_0000 + total as int);
        vstd::arithmetic::div_mod::lemma_mod_multiples_vanish(
            q * 1000,
            total as int,
            0x1_0000_0000,
        );
    }
    wrapped as u32
}

/// The capabilities of the greeting.
pub fn capabilities(sync_group_id: &Option<String>) -> (caps: String)
    ensures
        caps@ == capabilities_of(
            match *sync_group_id {
                Some(id) => Some(id@),
                None => None,
            },
        ),
{
    let mut caps = String::from_str(
        "flc,ogg,mp3,wma,aac,Model=Storm,ModelName=Storm,AccuratePlayPoints=1,HasDigitalOut=1,HasPolarityInversion=1",
    );
    if let Some(id) = sync_group_id {
        caps.append(",SyncgroupID=");
        caps.append(id.as_str());
    }
    caps
}

/// The address with its locally-administered bit set: the second lowest bit
/// of the first octet. The other octets stay.
pub fn local_mac(octets: [u8; 6]) -> (mac: [u8; 6])
    ensures
        mac@ == octets@.update(0, octets@[0] | 0x02),
        mac@[0] & 0x02 == 0x02,
{
    let head: u8 = octets[0];
    let first: u8 = head | 0x02;
    assert(first & 0x02 == 0x02) by (bit_vector)
        requires
            first == head | 0x02,
    ;
    let mac: [u8; 6] = [first, octets[1], octets[2], octets[3], octets[4], octets[5]];
    assert(mac@ =~= octets@.update(0, octets@[0] | 0x02));
    mac
}

/// A random locally-administered address.
pub fn random_mac() -> (mac: [u8; 6])
    ensures
        mac@[0] & 0x02 == 0x02,
{
    let octets: [u8; 6] = [
        random_octet(),
        random_octet(),
        random_octet(),
        random_octet(),
        random_octet(),
        random_octet(),
    ];
    local_mac(octets)
}

/// The address to greet with: the hardware address where the lookup found
/// one, else the fallback.
pub fn mac_or(found: Result<Option<[u8; 6]>, MacAddressError>, fallback: [u8; 6]) -> (mac: [u8; 6])
    ensures
        mac == match found {
            Ok(Some(hardware)) => hardware,
            _ => fallback,
        },
{
    match found {
        Ok(Some(hardware)) => hardware,
        _ => fallback,
    }
}

/// The address to greet with: the host's hardware address if it can be had,
/// else a random locally-administered one.
pub fn get_mac() -> (mac: [u8; 6]) {
    let fallback = random_mac();
    mac_or(hardware_mac(), fallback)
}

/// The position of a session's state in the order in which states follow
/// each other.
pub open spec fn stage(state: SessionState) -> nat {
    match state {
        SessionState::Connecting => 0,
        SessionState::Handshaking => 1,
        SessionState::Active => 2,
        SessionState::Closing => 3,
        SessionState::Closed => 4,
    }
}

/// A session only moves forward through its states, whatever it is handed,
/// and keeps its server and its sync group.
pub proof fn lemma_session_moves_forward(
    m: ProtoView,
    msg: ServerMessageView,
    jiffies: u32,
    note: PlayerMessages,
)
    ensures
        stage(m.handle(msg, jiffies).0.state) >= stage(m.state),
        stage(m.handle_player(note).0.state) == stage(m.state),
        stage(m.stopping().0.state) >= stage(m.state),
        m.handle(msg, jiffies).0.server_ip == m.server_ip,
        m.handle(msg, jiffies).0.sync_group_id == m.sync_group_id,
        m.handle_player(note).0.server_ip == m.server_ip,
        m.handle_player(note).0.sync_group_id == m.sync_group_id,
{
}

/// A session that is not active neither answers nor changes, whatever
/// arrives.
pub proof fn lemma_only_an_active_session_reacts(
    m: ProtoView,
    msg: ServerMessageView,
    jiffies: u32,
    note: PlayerMessages,
)
    requires
        !(m.state is Active),
    ensures
        m.handle(msg, jiffies) == (m, no_reaction()),
        m.handle_player(note) == (m, None::<ClientMessageView>),
{
}

/// Whenever a session begins to close it says farewell, and it redirects
/// only as it begins to close.
pub proof fn lemma_closing_says_farewell(m: ProtoView, msg: ServerMessageView, jiffies: u32)
    ensures
        m.state is Active && m.handle(msg, jiffies).0.state is Closing ==> m.handle(
            msg,
            jiffies,
        ).1.reply == Some(ClientMessageView::Bye(0)),
        m.handle(msg, jiffies).1.redirect is Some ==> m.state is Active && msg is Serv && m.handle(
            msg,
            jiffies,
        ).0.state is Closing,
        (m.state is Handshaking || m.state is Active) ==> m.stopping().1 == Some(
            ClientMessageView::Bye(0),
        ),
{
}

/// A telemetry frame always carries the record as the session holds it
/// after the step that sends the frame.
pub proof fn lemma_frames_carry_the_record(
    m: ProtoView,
    msg: ServerMessageView,
    jiffies: u32,
    note: PlayerMessages,
)
    ensures
        m.handle(msg, jiffies).1.reply matches Some(ClientMessageView::Stat { stat_data, .. })
            ==> stat_data == m.handle(msg, jiffies).0.stat_data,
        m.handle_player(note).1 matches Some(ClientMessageView::Stat { stat_data, .. })
            ==> stat_data == m.handle_player(note).0.stat_data,
        msg is Status ==> m.handle(msg, jiffies).0.stat_data.jiffies == if m.state is Active {
            jiffies
        } else {
            m.stat_data.jiffies
        },
{
}

} // verus!
