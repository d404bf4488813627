//! Frames of the control protocol: what the client sends and what the
//! server sends, and their layout in bytes.
//!
//! The two directions are framed differently. A client frame is a four-byte
//! tag, the payload's length as four bytes least significant first, and the
//! payload. A server frame is the length of tag and payload as two bytes most
//! significant first, the four-byte tag, and the payload.
use crate::ascii;
use crate::buffer::{
    buffer_byte, buffer_extend, buffer_len, buffer_split_to, buffer_to_vec, buffered,
};
use crate::wire::{
    be16, be32, be64, latin1, le32, lemma_le32_reads_back, push_char, put_bytes, put_u16, put_u32,
    put_u32_le, put_u64, read_u16, read_u32, text_of, u16_at, u32_at,
};
use bytes::BytesMut;
use vstd::prelude::*;
use vstd::slice::slice_subrange;
use vstd::utf8::encode_utf8;

verus! {

/// The codec of one connection. It keeps no state between frames.
#[derive(Debug, Clone, Copy, Default)]
pub struct SlimCodec;

/// Why a frame could not be encoded or decoded.
#[derive(Debug, Clone, Copy, PartialEq, Eq)]
pub enum CodecError {
    /// A frame of a known kind is too short for its fields: the stream can no
    /// longer be trusted.
    Corrupted,
    /// The payload's length does not fit the length field, or the frame does
    /// not fit the buffer.
    TooLong,
}

/// The telemetry record of a `STAT` frame. Field order and widths are those
/// of the wire.
#[derive(Debug, Clone, Copy, PartialEq, Eq)]
pub struct StatData {
    pub crlf: u8,
    pub buffer_size: u32,
    pub fullness: u32,
    pub bytes_received: u64,
    pub sig_strength: u16,
    pub jiffies: u32,
    pub output_buffer_size: u32,
    pub output_buffer_fullness: u32,
    pub elapsed_seconds: u32,
    pub voltage: u16,
    pub elapsed_milliseconds: u32,
    pub timestamp: u32,
    pub error_code: u16,
}

/// What the client sends.
#[derive(Debug, Clone, PartialEq, Eq)]
pub enum ClientMessage {
    Helo {
        device_id: u8,
        revision: u8,
        mac: [u8; 6],
        uuid: [u8; 16],
        wlan_channel_list: u16,
        bytes_received: u64,
        capabilities: String,
    },
    Stat { event_code: String, stat_data: StatData },
    Bye(u8),
}

/// A client message as a mathematical value.
pub enum ClientMessageView {
    Helo {
        device_id: u8,
        revision: u8,
        mac: Seq<u8>,
        uuid: Seq<u8>,
        wlan_channel_list: u16,
        bytes_received: u64,
        capabilities: Seq<char>,
    },
    Stat { event_code: Seq<char>, stat_data: StatData },
    Bye(u8),
}

impl View for ClientMessage {
    type V = ClientMessageView;

    open spec fn view(&self) -> ClientMessageView {
        match *self {
            ClientMessage::Helo {
                device_id,
                revision,
                mac,
                uuid,
                wlan_channel_list,
                bytes_received,
                capabilities,
            } => ClientMessageView::Helo {
                device_id,
                revision,
                mac: mac@,
                uuid: uuid@,
                wlan_channel_list,
                bytes_received,
                capabilities: capabilities@,
            },
            ClientMessage::Stat { event_code, stat_data } => ClientMessageView::Stat {
                event_code: event_code@,
                stat_data,
            },
            ClientMessage::Bye(code) => ClientMessageView::Bye(code),
        }
    }
}

/// The encoding that the server announces for a stream.
#[derive(Debug, Clone, Copy, PartialEq, Eq, Structural)]
pub enum AudioFormat {
    Pcm,
    Mp3,
    Flac,
    Wma,
    Ogg,
    Aac,
    Alac,
    Unknown,
}

/// What the server sends. Gains are fixed-point numbers in units of 1/65536,
/// as on the wire; addresses are four octets in network order.
#[derive(Debug, Clone, PartialEq, Eq)]
pub enum ServerMessage {
    Serv { ip_address: [u8; 4], sync_group_id: Option<String> },
    Status(u32),
    Stream {
        autostart: bool,
        format: AudioFormat,
        threshold: u32,
        output_threshold: u64,
        replay_gain: u32,
        server_port: u16,
        server_ip: [u8; 4],
        http_headers: String,
    },
    Gain(u32, u32),
    Enable(bool),
    Stop,
    Pause(u32),
    Unpause(u32),
    Unrecognised(String),
    /// A frame of a known kind that is too short. The codec never hands this
    /// value out: it reports the stream as corrupted instead.
    Error,
}

/// A server message as a mathematical value.
pub enum ServerMessageView {
    Serv { ip_address: Seq<u8>, sync_group_id: Option<Seq<char>> },
    Status(u32),
    Stream {
        autostart: bool,
        format: AudioFormat,
        threshold: u32,
        output_threshold: u64,
        replay_gain: u32,
        server_port: u16,
        server_ip: Seq<u8>,
        http_headers: Seq<char>,
    },
    Gain(u32, u32),
    Enable(bool),
    Stop,
    Pause(u32),
    Unpause(u32),
    Unrecognised(Seq<char>),
    Error,
}

impl View for ServerMessage {
    type V = ServerMessageView;

    open spec fn view(&self) -> ServerMessageView {
        match *self {
            ServerMessage::Serv { ip_address, sync_group_id } => ServerMessageView::Serv {
                ip_address: ip_address@,
                sync_group_id: match sync_group_id {
                    Some(id) => Some(id@),
                    None => None,
                },
            },
            ServerMessage::Status(timestamp) => ServerMessageView::Status(timestamp),
            ServerMessage::Stream {
                autostart,
                format,
                threshold,
                output_threshold,
                replay_gain,
                server_port,
                server_ip,
                http_headers,
            } => ServerMessageView::Stream {
                autostart,
                format,
                threshold,
                output_threshold,
                replay_gain,
                server_port,
                server_ip: server_ip@,
                http_headers: http_headers@,
            },
            ServerMessage::Gain(left, right) => ServerMessageView::Gain(left, right),
            ServerMessage::Enable(on) => ServerMessageView::Enable(on),
            ServerMessage::Stop => ServerMessageView::Stop,
            ServerMessage::Pause(timestamp) => ServerMessageView::Pause(timestamp),
            ServerMessage::Unpause(timestamp) => ServerMessageView::Unpause(timestamp),
            ServerMessage::Unrecognised(tag) => ServerMessageView::Unrecognised(tag@),
            ServerMessage::Error => ServerMessageView::Error,
        }
    }
}

impl StatData {
    /// A `STAT` message with the given event code and this record.
    pub fn make_stat_message(&self, head: &str) -> (msg: ClientMessage)
        ensures
            msg@ == (ClientMessageView::Stat { event_code: head@, stat_data: *self }),
    {
        ClientMessage::Stat { event_code: head.to_owned(), stat_data: *self }
    }
}

/// The record of a fresh session: the two configured buffer sizes, and
/// zero everywhere else.
pub open spec fn fresh_stat() -> StatData {
    StatData {
        crlf: 0,
        buffer_size: 65536,
        fullness: 0,
        bytes_received: 0,
        sig_strength: 0,
        jiffies: 0,
        output_buffer_size: 1_764_000,
        output_buffer_fullness: 0,
        elapsed_seconds: 0,
        voltage: 0,
        elapsed_milliseconds: 0,
        timestamp: 0,
        error_code: 0,
    }
}

impl Default for StatData {
    fn default() -> (d: StatData)
        ensures
            d == fresh_stat(),
    {
        StatData {
            crlf: 0,
            buffer_size: 256 * 256,
            fullness: 0,
            bytes_received: 0,
            sig_strength: 0,
            jiffies: 0,
            output_buffer_size: 44100 * 4 * 10,
            output_buffer_fullness: 0,
            elapsed_seconds: 0,
            voltage: 0,
            elapsed_milliseconds: 0,
            timestamp: 0,
            error_code: 0,
        }
    }
}

/// The bytes of a telemetry record: the line-ending count, two reserved
/// zero bytes, then the fields in their order, each most significant byte
/// first.
pub open spec fn stat_layout(d: StatData) -> Seq<u8> {
    seq![d.crlf] + be16(0) + be32(d.buffer_size) + be32(d.fullness) + be64(
        d.bytes_received,
    ) + be16(d.sig_strength) + be32(d.jiffies) + be32(d.output_buffer_size) + be32(
        d.output_buffer_fullness,
    ) + be32(d.elapsed_seconds) + be16(d.voltage) + be32(d.elapsed_milliseconds) + be32(
        d.timestamp,
    ) + be16(d.error_code)
}

/// The tag of a client message: `HELO`, `STAT` or `BYE!`.
pub open spec fn tag_of(msg: ClientMessageView) -> Seq<u8> {
    match msg {
        ClientMessageView::Helo { .. } => seq![
            ascii::UPPER_H,
            ascii::UPPER_E,
            ascii::UPPER_L,
            ascii::UPPER_O,
        ],
        ClientMessageView::Stat { .. } => seq![
            ascii::UPPER_S,
            ascii::UPPER_T,
            ascii::UPPER_A,
            ascii::UPPER_T,
        ],
        ClientMessageView::Bye(_) => seq![
            ascii::UPPER_B,
            ascii::UPPER_Y,
            ascii::UPPER_E,
            ascii::BANG,
        ],
    }
}

/// The payload of a client message: its fields in their order, integers
/// most significant byte first, text as UTF-8.
pub open spec fn payload_of(msg: ClientMessageView) -> Seq<u8> {
    match msg {
        ClientMessageView::Helo {
            device_id,
            revision,
            mac,
            uuid,
            wlan_channel_list,
            bytes_received,
            capabilities,
        } => seq![device_id, revision] + mac + uuid + be16(wlan_channel_list) + be64(
            bytes_received,
        ) + encode_utf8(capabilities),
        ClientMessageView::Stat { event_code, stat_data } => encode_utf8(event_code) + stat_layout(
            stat_data,
        ),
        ClientMessageView::Bye(code) => seq![code],
    }
}

/// The frame of a client message: the tag, the payload's length as four
/// bytes least significant first, and the payload.
pub open spec fn frame_of(msg: ClientMessageView) -> Seq<u8>
    recommends
        payload_of(msg).len() <= u32::MAX,
{
    tag_of(msg) + le32(payload_of(msg).len() as u32) + payload_of(msg)
}

/// Whether a buffer does not hold a whole server frame yet: fewer than three
/// bytes, or fewer than the two length bytes declare.
pub open spec fn incomplete(buf: Seq<u8>) -> bool {
    buf.len() <= 2 || buf.len() < u16_at(buf, 0) + 2
}

/// The body of the first frame in a buffer that holds a whole one: what
/// follows the two length bytes, as long as they declare.
pub open spec fn first_frame(buf: Seq<u8>) -> Seq<u8>
    recommends
        !incomplete(buf),
{
    buf.subrange(2, 2 + u16_at(buf, 0))
}

/// Whether a frame body starts with the four given tag bytes.
pub open spec fn has_tag(frame: Seq<u8>, a: u8, b: u8, c: u8, d: u8) -> bool {
    frame.len() >= 4 && frame[0] == a && frame[1] == b && frame[2] == c && frame[3] == d
}

/// The audio format that a format letter of a `strm` frame selects.
pub open spec fn format_of(letter: u8) -> AudioFormat {
    if letter == ascii::LOWER_P {
        AudioFormat::Pcm
    } else if letter == ascii::LOWER_M {
        AudioFormat::Mp3
    } else if letter == ascii::LOWER_F {
        AudioFormat::Flac
    } else if letter == ascii::LOWER_W {
        AudioFormat::Wma
    } else if letter == ascii::LOWER_O {
        AudioFormat::Ogg
    } else if letter == ascii::LOWER_A {
        AudioFormat::Aac
    } else if letter == ascii::LOWER_L {
        AudioFormat::Alac
    } else {
        AudioFormat::Unknown
    }
}

/// The meaning of the payload of a `serv` frame: an address, then an optional
/// sync-group id.
pub open spec fn serv_of(p: Seq<u8>) -> ServerMessageView {
    if p.len() < 4 {
        ServerMessageView::Error
    } else {
        ServerMessageView::Serv {
            ip_address: p.subrange(0, 4),
            sync_group_id: if p.len() > 4 {
                Some(latin1(p.skip(4)))
            } else {
                None
            },
        }
    }
}

/// The meaning of the payload of a `strm` frame: its first byte selects the
/// operation.
pub open spec fn strm_of(p: Seq<u8>) -> ServerMessageView {
    if p.len() < 24 {
        ServerMessageView::Error
    } else if p[0] == ascii::LOWER_T {
        ServerMessageView::Status(u32_at(p, 14))
    } else if p[0] == ascii::LOWER_S {
        ServerMessageView::Stream {
            autostart: p[1] == ascii::DIGIT_1 || p[1] == ascii::DIGIT_3,
            format: format_of(p[2]),
            threshold: p[7] as u32,
            output_threshold: p[12] as u64,
            replay_gain: u32_at(p, 14),
            server_port: u16_at(p, 18),
            server_ip: p.subrange(20, 24),
            http_headers: latin1(p.skip(24)),
        }
    } else if p[0] == ascii::LOWER_Q {
        ServerMessageView::Stop
    } else if p[0] == ascii::LOWER_P {
        ServerMessageView::Pause(u32_at(p, 14))
    } else if p[0] == ascii::LOWER_U {
        ServerMessageView::Unpause(u32_at(p, 14))
    } else {
        ServerMessageView::Unrecognised(seq!['s', 't', 'r', 'm', '_', p[0] as char])
    }
}

/// The meaning of a frame body, that is of a tag and its payload.
pub open spec fn message_of(frame: Seq<u8>) -> ServerMessageView {
    let p = frame.skip(4);
    if frame.len() < 4 {
        ServerMessageView::Error
    } else if has_tag(frame, ascii::LOWER_S, ascii::LOWER_E, ascii::LOWER_R, ascii::LOWER_V) {
        serv_of(p)
    } else if has_tag(frame, ascii::LOWER_S, ascii::LOWER_T, ascii::LOWER_R, ascii::LOWER_M) {
        strm_of(p)
    } else if has_tag(frame, ascii::LOWER_A, ascii::LOWER_U, ascii::LOWER_D, ascii::LOWER_E) {
        if p.len() < 2 {
            ServerMessageView::Error
        } else {
            ServerMessageView::Enable(p[1] != 0)
        }
    } else if has_tag(frame, ascii::LOWER_A, ascii::LOWER_U, ascii::LOWER_D, ascii::LOWER_G) {
        if p.len() < 18 {
            ServerMessageView::Error
        } else {
            ServerMessageView::Gain(u32_at(p, 10), u32_at(p, 14))
        }
    } else {
        ServerMessageView::Unrecognised(latin1(frame.subrange(0, 4)))
    }
}

fn tag_is(frame: &[u8], a: u8, b: u8, c: u8, d: u8) -> (yes: bool)
    ensures
        yes == has_tag(frame@, a, b, c, d),
{
    frame.len() >= 4 && frame[0] == a && frame[1] == b && frame[2] == c && frame[3] == d
}

fn octets_at(s: &[u8], at: usize) -> (ip: [u8; 4])
    requires
        at + 4 <= s@.len(),
    ensures
        ip@ == s@.subrange(at as int, at + 4),
{
    let ip: [u8; 4] = [s[at], s[at + 1], s[at + 2], s[at + 3]];
    assert(ip@ =~= s@.subrange(at as int, at + 4));
    ip
}

fn put_stat(buf: &mut Vec<u8>, d: &StatData)
    ensures
        final(buf)@ == old(buf)@ + stat_layout(*d),
{
    buf.push(d.crlf);
    put_u16(buf, 0);
    put_u32(buf, d.buffer_size);
    put_u32(buf, d.fullness);
    put_u64(buf, d.bytes_received);
    put_u16(buf, d.sig_strength);
    put_u32(buf, d.jiffies);
    put_u32(buf, d.output_buffer_size);
    put_u32(buf, d.output_buffer_fullness);
    put_u32(buf, d.elapsed_seconds);
    put_u16(buf, d.voltage);
    put_u32(buf, d.elapsed_milliseconds);
    put_u32(buf, d.timestamp);
    put_u16(buf, d.error_code);
    assert(buf@ =~= old(buf)@ + stat_layout(*d));
}

impl ClientMessage {
    fn tag(&self) -> (tag: [u8; 4])
        ensures
            tag@ == tag_of(self@),
    {
        let tag: [u8; 4] = match self {
            ClientMessage::Helo { .. } => [
                ascii::UPPER_H,
                ascii::UPPER_E,
                ascii::UPPER_L,
                ascii::UPPER_O,
            ],
            ClientMessage::Stat { .. } => [
                ascii::UPPER_S,
                ascii::UPPER_T,
                ascii::UPPER_A,
                ascii::UPPER_T,
            ],
            ClientMessage::Bye(_) => [ascii::UPPER_B, ascii::UPPER_Y, ascii::UPPER_E, ascii::BANG],
        };
        assert(tag@ =~= tag_of(self@));
        tag
    }

    /// The payload of the message, without tag and length.
    pub fn payload(&self) -> (bytes: Vec<u8>)
        ensures
            bytes@ == payload_of(self@),
    {
        let mut buf: Vec<u8> = Vec::new();
        match self {
            ClientMessage::Helo {
                device_id,
                revision,
                mac,
                uuid,
                wlan_channel_list,
                bytes_received,
                capabilities,
            } => {
                buf.push(*device_id);
                buf.push(*revision);
                put_bytes(&mut buf, mac.as_slice());
                put_bytes(&mut buf, uuid.as_slice());
                put_u16(&mut buf, *wlan_channel_list);
                put_u64(&mut buf, *bytes_received);
                put_bytes(&mut buf, capabilities.as_str().as_bytes());
                assert(buf@ =~= payload_of(self@));
            },
            ClientMessage::Stat { event_code, stat_data } => {
                put_bytes(&mut buf, event_code.as_str().as_bytes());
                put_stat(&mut buf, stat_data);
                assert(buf@ =~= payload_of(self@));
            },
            ClientMessage::Bye(code) => {
                buf.push(*code);
                assert(buf@ =~= payload_of(self@));
            },
        }
        buf
    }

    /// The whole frame of the message.
    pub fn to_bytes(&self) -> (bytes: Vec<u8>)
        requires
            payload_of(self@).len() <= u32::MAX,
        ensures
            bytes@ == frame_of(self@),
    {
        let payload = self.payload();
        let tag = self.tag();
        let mut buf: Vec<u8> = Vec::new();
        put_bytes(&mut buf, tag.as_slice());
        put_u32_le(&mut buf, payload.len() as u32);
        put_bytes(&mut buf, payload.as_slice());
        assert(buf@ =~= frame_of(self@));
        buf
    }
}

impl SlimCodec {
    /// Appends the frame of `item` to `dst`. The message is refused, and
    /// `dst` left as it was, when the payload is longer than the length field
    /// can say or the frame would not fit the buffer.
    pub fn encode(&mut self, item: ClientMessage, dst: &mut BytesMut) -> (r: Result<(), CodecError>)
        ensures
            encodable(item@, buffered(*old(dst)).len()) ==> r is Ok && buffered(*final(dst))
                == buffered(*old(dst)) + frame_of(item@),
            !encodable(item@, buffered(*old(dst)).len()) ==> r == Err::<(), CodecError>(
                CodecError::TooLong,
            ) && buffered(*final(dst)) == buffered(*old(dst)),
    {
        let payload = item.payload();
        let held = buffer_len(dst);
        if payload.len() > 0xffff_ffff || payload.len() > usize::MAX - 8 || held > usize::MAX - 8
            - payload.len() {
            return Err(CodecError::TooLong);
        }
        let frame = item.to_bytes();
        buffer_extend(dst, frame.as_slice());
        Ok(())
    }

    /// Takes the first frame off `buf` and classifies it. While the buffer
    /// holds less than a whole frame nothing is taken and the answer is
    /// `Ok(None)`. A whole frame is taken off whatever it holds; one that is
    /// too short for its kind is reported as a corrupted stream.
    pub fn decode(&mut self, buf: &mut BytesMut) -> (r: Result<Option<ServerMessage>, CodecError>)
        ensures
            incomplete(buffered(*old(buf))) ==> r == Ok::<Option<ServerMessage>, CodecError>(None)
                && buffered(*final(buf)) == buffered(*old(buf)),
            !incomplete(buffered(*old(buf))) ==> buffered(*final(buf)) == buffered(*old(buf)).skip(
                2 + u16_at(buffered(*old(buf)), 0),
            ),
            !incomplete(buffered(*old(buf))) && message_of(first_frame(buffered(*old(buf))))
                is Error ==> r == Err::<Option<ServerMessage>, CodecError>(CodecError::Corrupted),
            !incomplete(buffered(*old(buf))) && !(message_of(first_frame(buffered(*old(buf))))
                is Error) ==> (r matches Ok(Some(msg)) && msg@ == message_of(
                first_frame(buffered(*old(buf))),
            )),
    {
        let held = buffer_len(buf);
        if held <= 2 {
            return Ok(None);
        }
        let hi: usize = buffer_byte(buf, 0) as usize;
        let lo: usize = buffer_byte(buf, 1) as usize;
        let size: usize = hi * 0x100 + lo;
        if held < size + 2 {
            return Ok(None);
        }
        let _ = buffer_split_to(buf, 2);
        let body = buffer_split_to(buf, size);
        let frame = buffer_to_vec(&body);
        assert(frame@ =~= first_frame(buffered(*old(buf))));
        assert(buffered(*buf) =~= buffered(*old(buf)).skip(2 + size));
        let msg = ServerMessage::parse(frame.as_slice());
        match msg {
            ServerMessage::Error => Err(CodecError::Corrupted),
            msg => Ok(Some(msg)),
        }
    }
}

/// Whether a message can be framed and appended to a buffer that holds
/// `held` bytes.
pub open spec fn encodable(msg: ClientMessageView, held: nat) -> bool {
    payload_of(msg).len() <= u32::MAX && held + 8 + payload_of(msg).len() <= usize::MAX
}

impl AudioFormat {
    /// The format that a format letter selects; `Unknown` for any other byte.
    pub fn from_letter(letter: u8) -> (format: AudioFormat)
        ensures
            format == format_of(letter),
    {
        if letter == ascii::LOWER_P {
            AudioFormat::Pcm
        } else if letter == ascii::LOWER_M {
            AudioFormat::Mp3
        } else if letter == ascii::LOWER_F {
            AudioFormat::Flac
        } else if letter == ascii::LOWER_W {
            AudioFormat::Wma
        } else if letter == ascii::LOWER_O {
            AudioFormat::Ogg
        } else if letter == ascii::LOWER_A {
            AudioFormat::Aac
        } else if letter == ascii::LOWER_L {
            AudioFormat::Alac
        } else {
            AudioFormat::Unknown
        }
    }
}

impl ServerMessage {
    fn serv(p: &[u8]) -> (msg: ServerMessage)
        ensures
            msg@ == serv_of(p@),
    {
        if p.len() < 4 {
            ServerMessage::Error
        } else {
            let ip_address = octets_at(p, 0);
            let sync_group_id = if p.len() > 4 {
                Some(text_of(p, 4))
            } else {
                None
            };
            ServerMessage::Serv { ip_address, sync_group_id }
        }
    }

    fn strm(p: &[u8]) -> (msg: ServerMessage)
        ensures
            msg@ == strm_of(p@),
    {
        if p.len() < 24 {
            return ServerMessage::Error;
        }
        let op = p[0];
        if op == ascii::LOWER_T {
            ServerMessage::Status(read_u32(p, 14))
        } else if op == ascii::LOWER_S {
            ServerMessage::Stream {
                autostart: p[1] == ascii::DIGIT_1 || p[1] == ascii::DIGIT_3,
                format: AudioFormat::from_letter(p[2]),
                threshold: p[7] as u32,
                output_threshold: p[12] as u64,
                replay_gain: read_u32(p, 14),
                server_port: read_u16(p, 18),
                server_ip: octets_at(p, 20),
                http_headers: text_of(p, 24),
            }
        } else if op == ascii::LOWER_Q {
            ServerMessage::Stop
        } else if op == ascii::LOWER_P {
            ServerMessage::Pause(read_u32(p, 14))
        } else if op == ascii::LOWER_U {
            ServerMessage::Unpause(read_u32(p, 14))
        } else {
            let mut tag = String::new();
            push_char(&mut tag, 's');
            push_char(&mut tag, 't');
            push_char(&mut tag, 'r');
            push_char(&mut tag, 'm');
            push_char(&mut tag, '_');
            push_char(&mut tag, op as char);
            assert(tag@ =~= seq!['s', 't', 'r', 'm', '_', op as char]);
            ServerMessage::Unrecognised(tag)
        }
    }

    /// Classifies a frame body, that is a tag and its payload without the
    /// length field. A frame of a known kind that is too short for its fields
    /// gives `Error`, as does one too short to hold a tag; an unknown tag gives
    /// `Unrecognised` with the tag as text.
    pub fn parse(frame: &[u8]) -> (msg: ServerMessage)
        ensures
            msg@ == message_of(frame@),
    {
        if frame.len() < 4 {
            return ServerMessage::Error;
        }
        let p = slice_subrange(frame, 4, frame.len());
        assert(p@ =~= frame@.skip(4));
        if tag_is(frame, ascii::LOWER_S, ascii::LOWER_E, ascii::LOWER_R, ascii::LOWER_V) {
            ServerMessage::serv(p)
        } else if tag_is(frame, ascii::LOWER_S, ascii::LOWER_T, ascii::LOWER_R, ascii::LOWER_M) {
            ServerMessage::strm(p)
        } else if tag_is(frame, ascii::LOWER_A, ascii::LOWER_U, ascii::LOWER_D, ascii::LOWER_E) {
            if p.len() < 2 {
                ServerMessage::Error
            } else {
                ServerMessage::Enable(p[1] != 0)
            }
        } else if tag_is(frame, ascii::LOWER_A, ascii::LOWER_U, ascii::LOWER_D, ascii::LOWER_G) {
            if p.len() < 18 {
                ServerMessage::Error
            } else {
                ServerMessage::Gain(read_u32(p, 10), read_u32(p, 14))
            }
        } else {
            let head = slice_subrange(frame, 0, 4);
            let tag = text_of(head, 0);
            assert(head@.skip(0) =~= frame@.subrange(0, 4));
            ServerMessage::Unrecognised(tag)
        }
    }
}

/// A `serv` frame with fewer than four payload bytes is an error.
pub proof fn lemma_short_serv_is_error(frame: Seq<u8>)
    requires
        has_tag(frame, ascii::LOWER_S, ascii::LOWER_E, ascii::LOWER_R, ascii::LOWER_V),
        frame.len() < 8,
    ensures
        message_of(frame) is Error,
{
}

/// A `serv` frame with four payload bytes or more names the server at those
/// four octets, and a sync group exactly when more bytes follow: the text of
/// those bytes.
pub proof fn lemma_serv_names_a_server(frame: Seq<u8>)
    requires
        has_tag(frame, ascii::LOWER_S, ascii::LOWER_E, ascii::LOWER_R, ascii::LOWER_V),
        frame.len() >= 8,
    ensures
        message_of(frame) == (ServerMessageView::Serv {
            ip_address: frame.subrange(4, 8),
            sync_group_id: if frame.len() > 8 {
                Some(latin1(frame.skip(8)))
            } else {
                None
            },
        }),
{
    let p = frame.skip(4);
    assert(p.subrange(0, 4) =~= frame.subrange(4, 8));
    assert(p.skip(4) =~= frame.skip(8));
}

/// A `strm` frame with fewer than twenty-four payload bytes is an error,
/// whatever its operation.
pub proof fn lemma_short_strm_is_error(frame: Seq<u8>)
    requires
        has_tag(frame, ascii::LOWER_S, ascii::LOWER_T, ascii::LOWER_R, ascii::LOWER_M),
        frame.len() < 28,
    ensures
        message_of(frame) is Error,
{
}

/// A frame with a tag that is none of `serv`, `strm`, `aude` and `audg` is
/// never an error: it is passed on as unrecognised, with its tag as text.
pub proof fn lemma_unknown_tag_is_passed_on(frame: Seq<u8>)
    requires
        frame.len() >= 4,
        !has_tag(frame, ascii::LOWER_S, ascii::LOWER_E, ascii::LOWER_R, ascii::LOWER_V),
        !has_tag(frame, ascii::LOWER_S, ascii::LOWER_T, ascii::LOWER_R, ascii::LOWER_M),
        !has_tag(frame, ascii::LOWER_A, ascii::LOWER_U, ascii::LOWER_D, ascii::LOWER_E),
        !has_tag(frame, ascii::LOWER_A, ascii::LOWER_U, ascii::LOWER_D, ascii::LOWER_G),
    ensures
        message_of(frame) == ServerMessageView::Unrecognised(latin1(frame.subrange(0, 4))),
        latin1(frame.subrange(0, 4)).len() == 4,
{
}

/// A `strm` frame of full length with an operation that is none of `t`,
/// `s`, `q`, `p` and `u` is unrecognised too, and no error.
pub proof fn lemma_unknown_operation_is_passed_on(frame: Seq<u8>)
    requires
        has_tag(frame, ascii::LOWER_S, ascii::LOWER_T, ascii::LOWER_R, ascii::LOWER_M),
        frame.len() >= 28,
        frame[4] != ascii::LOWER_T,
        frame[4] != ascii::LOWER_S,
        frame[4] != ascii::LOWER_Q,
        frame[4] != ascii::LOWER_P,
        frame[4] != ascii::LOWER_U,
    ensures
        message_of(frame) is Unrecognised,
{
}

/// The frame of a client message starts with the message's tag, and its
/// length field, read least significant byte first, is the number of bytes
/// that follow the field.
pub proof fn lemma_length_field_counts_the_payload(msg: ClientMessageView)
    requires
        payload_of(msg).len() <= u32::MAX,
    ensures
        frame_of(msg).len() == 8 + payload_of(msg).len(),
        frame_of(msg).subrange(0, 4) == tag_of(msg),
        frame_of(msg)[4] + frame_of(msg)[5] * 0x100 + frame_of(msg)[6] * 0x1_0000 + frame_of(
            msg,
        )[7] * 0x100_0000 == frame_of(msg).len() - 8,
        frame_of(msg).skip(8) == payload_of(msg),
{
    let n = payload_of(msg).len() as u32;
    let field = le32(n);
    let tag = tag_of(msg);
    let payload = payload_of(msg);
    let frame = tag + field + payload;
    assert(tag.len() == 4);
    lemma_le32_reads_back(n);
    assert(frame.subrange(0, 4) =~= tag);
    assert(frame.skip(8) =~= payload);
    assert(frame[4] == field[0]);
    assert(frame[5] == field[1]);
    assert(frame[6] == field[2]);
    assert(frame[7] == field[3]);
}

/// A buffer that holds less than the frame it announces is never cut: to
/// any such prefix the codec answers that it needs more.
pub proof fn lemma_prefix_of_frame_is_incomplete(buf: Seq<u8>, n: int)
    requires
        buf.len() >= 2,
        0 <= n < u16_at(buf, 0) + 2,
        n <= buf.len(),
    ensures
        incomplete(buf.take(n)),
{
    if n > 2 {
        assert(buf.take(n)[0] == buf[0]);
        assert(buf.take(n)[1] == buf[1]);
    }
}

} // verus!
