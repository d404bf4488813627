use mac_address::MacAddressError;
use storm::codec::{AudioFormat, ClientMessage, ServerMessage, StatData};
use storm::player::{PlayerControl, PlayerMessages};
use storm::proto::{
    capabilities, get_mac, jiffies_from, local_mac, mac_or, random_mac, Proto, Reaction, Redirect,
    SessionState,
};

const BASE: &str = "flc,ogg,mp3,wma,aac,Model=Storm,ModelName=Storm,AccuratePlayPoints=1,HasDigitalOut=1,HasPolarityInversion=1";

fn active(sync_group: Option<&str>) -> Proto {
    let mut session = Proto::new([192, 168, 1, 5], sync_group.map(|s| s.to_owned()));
    session.connected();
    assert!(session.greet([2, 0, 0, 0, 0, 1]).is_some());
    session
}

fn nothing() -> Reaction {
    Reaction { reply: None, control: None, redirect: None }
}

fn stat(code: &str, data: StatData) -> ClientMessage {
    ClientMessage::Stat { event_code: code.to_owned(), stat_data: data }
}

#[test]
fn jiffies_wrap_at_the_u32_boundary() {
    assert_eq!(jiffies_from(0, 0), 0);
    assert_eq!(jiffies_from(1, 1), 1001);
    assert_eq!(jiffies_from(4_294_967, 295), u32::MAX);
    assert_eq!(jiffies_from(4_294_967, 296), 0);
    assert_eq!(jiffies_from(4_294_967, 297), 1);
    assert_eq!(jiffies_from(4_294_968, 0), 704);
    for (secs, millis) in [
        (u64::MAX, 999u32),
        (u64::MAX, u32::MAX),
        (u64::MAX / 1000, 999),
        (u64::MAX / 1000 + 1, 0),
        (1 << 32, 5),
        ((1 << 32) - 1, 999),
    ] {
        let want = ((secs as u128 * 1000 + millis as u128) % (1u128 << 32)) as u32;
        assert_eq!(jiffies_from(secs, millis), want);
    }
}

#[test]
fn jiffies_of_a_fresh_session_are_small() {
    let session = Proto::new([10, 0, 0, 1], None);
    assert!(session.jiffies() < 60_000);
}

#[test]
fn capabilities_of_the_greeting() {
    assert_eq!(capabilities(&None), BASE);
    assert_eq!(
        capabilities(&Some("abc123".to_owned())),
        format!("{},SyncgroupID=abc123", BASE)
    );
    assert_eq!(capabilities(&Some(String::new())), format!("{},SyncgroupID=", BASE));
}

#[test]
fn local_mac_sets_the_local_bit() {
    assert_eq!(local_mac([0, 1, 2, 3, 4, 5]), [2, 1, 2, 3, 4, 5]);
    assert_eq!(local_mac([0xfd, 1, 2, 3, 4, 5]), [0xff, 1, 2, 3, 4, 5]);
    assert_eq!(local_mac([0x02, 0, 0, 0, 0, 0]), [0x02, 0, 0, 0, 0, 0]);
}

#[test]
fn random_mac_is_locally_administered() {
    let mut seen = Vec::new();
    for _ in 0..32 {
        let mac = random_mac();
        assert_eq!(mac[0] & 0x02, 0x02);
        seen.push(mac);
    }
    assert!(seen.iter().any(|m| *m != seen[0]));
}

#[test]
fn hardware_mac_wins_over_the_fallback() {
    let fallback = [2, 9, 9, 9, 9, 9];
    assert_eq!(mac_or(Ok(Some([1, 2, 3, 4, 5, 6])), fallback), [1, 2, 3, 4, 5, 6]);
    assert_eq!(mac_or(Ok(None), fallback), fallback);
    assert_eq!(mac_or(Err(MacAddressError::InternalError), fallback), fallback);
}

#[test]
fn get_mac_gives_some_address() {
    let mac = get_mac();
    assert!(mac.iter().any(|b| *b != 0));
}

#[test]
fn session_life() {
    let mut session = Proto::new([192, 168, 1, 5], None);
    assert_eq!(session.state(), SessionState::Connecting);
    assert_eq!(session.server_ip(), [192, 168, 1, 5]);
    assert_eq!(session.stat_data(), StatData::default());
    assert_eq!(session.greet([0; 6]), None);
    assert_eq!(session.state(), SessionState::Connecting);
    session.connected();
    assert_eq!(session.state(), SessionState::Handshaking);
    session.connected();
    assert_eq!(session.state(), SessionState::Handshaking);
    let helo = session.greet([0; 6]);
    assert_eq!(
        helo,
        Some(ClientMessage::Helo {
            device_id: 12,
            revision: 0,
            mac: [0; 6],
            uuid: [0; 16],
            wlan_channel_list: 0,
            bytes_received: 0,
            capabilities: BASE.to_owned(),
        })
    );
    assert_eq!(session.state(), SessionState::Active);
    assert_eq!(session.greet([0; 6]), None);
    assert_eq!(session.stopping(), Some(ClientMessage::Bye(0)));
    assert_eq!(session.state(), SessionState::Closing);
    assert_eq!(session.stopping(), None);
    session.stopped();
    assert_eq!(session.state(), SessionState::Closed);
    assert_eq!(session.stopping(), None);
    assert_eq!(session.state(), SessionState::Closed);
}

#[test]
fn stopping_before_the_greeting() {
    let mut session = Proto::new([10, 0, 0, 1], None);
    assert_eq!(session.stopping(), None);
    assert_eq!(session.state(), SessionState::Closing);
    let mut session = Proto::new([10, 0, 0, 1], None);
    session.connected();
    assert_eq!(session.stopping(), Some(ClientMessage::Bye(0)));
}

#[test]
fn started_greets_with_the_sync_group() {
    let mut session = Proto::new([10, 0, 0, 1], Some("g7".to_owned()));
    assert_eq!(session.started(), None);
    session.connected();
    match session.started() {
        Some(ClientMessage::Helo { device_id, revision, uuid, capabilities, .. }) => {
            assert_eq!(device_id, 12);
            assert_eq!(revision, 0);
            assert_eq!(uuid, [0; 16]);
            assert_eq!(capabilities, format!("{},SyncgroupID=g7", BASE));
        }
        other => panic!("no greeting: {:?}", other),
    }
    assert_eq!(session.state(), SessionState::Active);
}

#[test]
fn serv_redirects_and_closes() {
    let mut session = active(None);
    let reaction = session.handle_at(
        ServerMessage::Serv { ip_address: [10, 9, 8, 7], sync_group_id: Some("grp".to_owned()) },
        5,
    );
    assert_eq!(
        reaction,
        Reaction {
            reply: Some(ClientMessage::Bye(0)),
            control: None,
            redirect: Some(Redirect {
                ip_address: [10, 9, 8, 7],
                sync_group_id: Some("grp".to_owned()),
            }),
        }
    );
    assert_eq!(session.state(), SessionState::Closing);
    assert_eq!(session.stopping(), None);
    assert_eq!(session.handle_at(ServerMessage::Stop, 6), nothing());
}

#[test]
fn status_is_answered_with_the_clock() {
    let mut session = active(None);
    let reaction = session.handle_at(ServerMessage::Status(0xdead_beef), 4242);
    let mut want = StatData::default();
    want.timestamp = 0xdead_beef;
    want.jiffies = 4242;
    assert_eq!(
        reaction,
        Reaction { reply: Some(stat("STMt", want)), control: None, redirect: None }
    );
    assert_eq!(session.stat_data(), want);
}

#[test]
fn status_now_carries_the_session_age() {
    let mut session = active(None);
    match session.handle(ServerMessage::Status(77)).reply {
        Some(ClientMessage::Stat { event_code, stat_data }) => {
            assert_eq!(event_code, "STMt");
            assert_eq!(stat_data.timestamp, 77);
            assert!(stat_data.jiffies < 60_000);
        }
        other => panic!("no status: {:?}", other),
    }
    assert_eq!(
        session.handle(ServerMessage::Enable(true)),
        Reaction { reply: None, control: Some(PlayerControl::Enable(true)), redirect: None }
    );
}

#[test]
fn stream_is_acknowledged_and_forwarded() {
    let mut session = active(None);
    let reaction = session.handle_at(
        ServerMessage::Stream {
            autostart: true,
            format: AudioFormat::Flac,
            threshold: 200,
            output_threshold: 3,
            replay_gain: 0x8000,
            server_port: 9000,
            server_ip: [0, 0, 0, 0],
            http_headers: "GET /x HTTP/1.0".to_owned(),
        },
        0,
    );
    assert_eq!(
        reaction,
        Reaction {
            reply: Some(stat("STMc", StatData::default())),
            control: Some(PlayerControl::Stream {
                autostart: true,
                threshold: 200,
                output_threshold: 3,
                replay_gain: 0x8000,
                server_port: 9000,
                server_ip: [0, 0, 0, 0],
                control_ip: [192, 168, 1, 5],
                http_headers: "GET /x HTTP/1.0".to_owned(),
            }),
            redirect: None,
        }
    );
    assert_eq!(session.state(), SessionState::Active);
}

#[test]
fn playback_commands_are_forwarded() {
    let mut session = active(None);
    let forwarded = |control| Reaction { reply: None, control: Some(control), redirect: None };
    assert_eq!(
        session.handle_at(ServerMessage::Gain(1, 2), 0),
        forwarded(PlayerControl::Gain(1, 2))
    );
    assert_eq!(
        session.handle_at(ServerMessage::Enable(false), 0),
        forwarded(PlayerControl::Enable(false))
    );
    assert_eq!(session.handle_at(ServerMessage::Stop, 0), forwarded(PlayerControl::Stop));
    assert_eq!(
        session.handle_at(ServerMessage::Pause(9), 0),
        forwarded(PlayerControl::Pause(false))
    );
    assert_eq!(
        session.handle_at(ServerMessage::Unpause(9), 0),
        forwarded(PlayerControl::Unpause(false))
    );
    assert_eq!(session.stat_data(), StatData::default());
}

#[test]
fn unrecognised_is_ignored() {
    let mut session = active(None);
    assert_eq!(session.handle_at(ServerMessage::Unrecognised("vers".to_owned()), 0), nothing());
    assert_eq!(session.state(), SessionState::Active);
}

#[test]
fn a_corrupted_stream_closes_the_session() {
    let mut session = active(None);
    assert_eq!(
        session.handle_at(ServerMessage::Error, 0),
        Reaction { reply: Some(ClientMessage::Bye(0)), control: None, redirect: None }
    );
    assert_eq!(session.state(), SessionState::Closing);
}

#[test]
fn only_an_active_session_reacts() {
    let mut session = Proto::new([10, 0, 0, 1], None);
    assert_eq!(session.handle_at(ServerMessage::Status(1), 2), nothing());
    assert_eq!(session.handle_player(PlayerMessages::Flushed), None);
    session.connected();
    assert_eq!(session.handle_at(ServerMessage::Status(1), 2), nothing());
    assert_eq!(session.handle_player(PlayerMessages::Paused), None);
    assert_eq!(session.stat_data(), StatData::default());
}

#[test]
fn state_events_become_stat_frames() {
    let mut session = active(None);
    let data = StatData::default();
    assert_eq!(session.handle_player(PlayerMessages::Flushed), Some(stat("STMf", data)));
    assert_eq!(session.handle_player(PlayerMessages::Paused), Some(stat("STMp", data)));
    assert_eq!(session.handle_player(PlayerMessages::Unpaused), Some(stat("STMr", data)));
    for quiet in [
        PlayerMessages::Eos,
        PlayerMessages::Established,
        PlayerMessages::Error,
        PlayerMessages::Start,
        PlayerMessages::Sendstatus,
        PlayerMessages::Overrun,
    ] {
        assert_eq!(session.handle_player(quiet), None);
    }
    assert_eq!(session.stat_data(), data);
}

#[test]
fn measurements_update_the_record() {
    let mut session = active(None);
    assert_eq!(
        session.handle_player(PlayerMessages::Streamdata {
            position: 61_500,
            fullness: 1000,
            output_buffer_fullness: 2000,
        }),
        None
    );
    assert_eq!(session.handle_player(PlayerMessages::Bufsize(4096)), None);
    assert_eq!(session.handle_player(PlayerMessages::Bufsize(4)), None);
    assert_eq!(session.handle_player(PlayerMessages::Headers(7)), None);
    let mut want = StatData::default();
    want.fullness = 1000;
    want.output_buffer_fullness = 2000;
    want.elapsed_seconds = 61;
    want.elapsed_milliseconds = 61_500;
    want.bytes_received = 4100;
    want.crlf = 7;
    assert_eq!(session.stat_data(), want);
    assert_eq!(session.handle_player(PlayerMessages::Flushed), Some(stat("STMf", want)));
}

#[test]
fn a_long_position_wraps_in_the_record() {
    let mut session = active(None);
    session.handle_player(PlayerMessages::Streamdata {
        position: (1u64 << 32) + 5,
        fullness: 0,
        output_buffer_fullness: 0,
    });
    assert_eq!(session.stat_data().elapsed_milliseconds, 5);
    assert_eq!(session.stat_data().elapsed_seconds, 4_294_967);
    session.handle_player(PlayerMessages::Bufsize(usize::MAX));
    session.handle_player(PlayerMessages::Bufsize(2));
    assert_eq!(session.stat_data().bytes_received, (usize::MAX as u64).wrapping_add(2));
}
