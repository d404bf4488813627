use bytes::BytesMut;
use storm::codec::{
    AudioFormat, ClientMessage, CodecError, ServerMessage, SlimCodec, StatData,
};

fn server_frame(tag: &[u8], payload: &[u8]) -> Vec<u8> {
    let len = (tag.len() + payload.len()) as u16;
    let mut frame = vec![(len >> 8) as u8, (len & 0xff) as u8];
    frame.extend_from_slice(tag);
    frame.extend_from_slice(payload);
    frame
}

fn decode_one(bytes: &[u8]) -> (Result<Option<ServerMessage>, CodecError>, Vec<u8>) {
    let mut codec = SlimCodec;
    let mut buf = BytesMut::from(bytes.to_vec());
    let result = codec.decode(&mut buf);
    (result, buf.to_vec())
}

fn strm_payload(op: u8) -> Vec<u8> {
    let mut p = vec![0u8; 24];
    p[0] = op;
    p[14] = 0x01;
    p[15] = 0x02;
    p[16] = 0x03;
    p[17] = 0x04;
    p
}

#[test]
fn decode_waits_for_a_whole_frame() {
    let mut codec = SlimCodec;
    let mut buf = BytesMut::from(vec![0u8, 8, b's', b'e', b'r', b'v', 10, 0, 0]);
    assert_eq!(codec.decode(&mut buf), Ok(None));
    assert_eq!(&buf[..], &[0u8, 8, b's', b'e', b'r', b'v', 10, 0, 0][..]);
    buf.extend_from_slice(&[7]);
    assert_eq!(
        codec.decode(&mut buf),
        Ok(Some(ServerMessage::Serv { ip_address: [10, 0, 0, 7], sync_group_id: None }))
    );
    assert!(buf.is_empty());
}

#[test]
fn every_proper_prefix_needs_more_input() {
    let frame = server_frame(b"serv", &[192, 168, 1, 2, b'g', b'1']);
    for n in 0..frame.len() {
        let (result, left) = decode_one(&frame[..n]);
        assert_eq!(result, Ok(None), "prefix of {} bytes", n);
        assert_eq!(left, frame[..n].to_vec());
    }
    let (result, left) = decode_one(&frame);
    assert!(matches!(result, Ok(Some(_))));
    assert!(left.is_empty());
}

#[test]
fn fewer_than_three_bytes_need_more_input() {
    assert_eq!(decode_one(&[]), (Ok(None), vec![]));
    assert_eq!(decode_one(&[0]), (Ok(None), vec![0]));
    assert_eq!(decode_one(&[0, 0]), (Ok(None), vec![0, 0]));
}

#[test]
fn decode_takes_one_frame_and_leaves_the_rest() {
    let mut bytes = server_frame(b"aude", &[0, 1]);
    bytes.extend_from_slice(&server_frame(b"aude", &[0, 0]));
    bytes.push(0);
    let mut codec = SlimCodec;
    let mut buf = BytesMut::from(bytes);
    assert_eq!(codec.decode(&mut buf), Ok(Some(ServerMessage::Enable(true))));
    assert_eq!(buf.len(), 9);
    assert_eq!(codec.decode(&mut buf), Ok(Some(ServerMessage::Enable(false))));
    assert_eq!(&buf[..], &[0u8][..]);
    assert_eq!(codec.decode(&mut buf), Ok(None));
    assert_eq!(&buf[..], &[0u8][..]);
}

#[test]
fn short_serv_is_corrupted() {
    for n in 0..4 {
        let frame = server_frame(b"serv", &[10, 0, 0][..n.min(3)]);
        let (result, left) = decode_one(&frame);
        if n < 4 {
            assert_eq!(result, Err(CodecError::Corrupted));
        }
        assert!(left.is_empty());
    }
    let mut codec = SlimCodec;
    let mut buf = BytesMut::from(vec![0u8, 7, b's', b'e', b'r', b'v', 10, 0, 0, 99]);
    assert_eq!(codec.decode(&mut buf), Err(CodecError::Corrupted));
    assert_eq!(&buf[..], &[99u8][..]);
}

#[test]
fn serv_with_every_short_payload_length() {
    let payload = [10u8, 1, 2, 3];
    for n in 0..4 {
        let (result, _) = decode_one(&server_frame(b"serv", &payload[..n]));
        assert_eq!(result, Err(CodecError::Corrupted), "payload of {} bytes", n);
    }
    let (result, _) = decode_one(&server_frame(b"serv", &payload));
    assert_eq!(
        result,
        Ok(Some(ServerMessage::Serv { ip_address: [10, 1, 2, 3], sync_group_id: None }))
    );
}

#[test]
fn serv_with_sync_group() {
    let (result, _) = decode_one(&server_frame(b"serv", &[172, 16, 0, 9, b'a', b'b', b'4', b'2']));
    assert_eq!(
        result,
        Ok(Some(ServerMessage::Serv {
            ip_address: [172, 16, 0, 9],
            sync_group_id: Some("ab42".to_owned()),
        }))
    );
}

#[test]
fn text_bytes_above_ascii_map_to_their_code_points() {
    let (result, _) = decode_one(&server_frame(b"serv", &[1, 2, 3, 4, 0xe9, 0x41]));
    assert_eq!(
        result,
        Ok(Some(ServerMessage::Serv {
            ip_address: [1, 2, 3, 4],
            sync_group_id: Some("\u{e9}A".to_owned()),
        }))
    );
}

#[test]
fn short_strm_is_corrupted() {
    for n in 0..24 {
        let payload = vec![b's'; n];
        let (result, left) = decode_one(&server_frame(b"strm", &payload));
        assert_eq!(result, Err(CodecError::Corrupted), "payload of {} bytes", n);
        assert!(left.is_empty());
    }
}

#[test]
fn stream_of_thirty_bytes() {
    let mut p = vec![0u8; 24];
    p[0] = b's';
    p[1] = b'1';
    p[2] = b'm';
    p[7] = 255;
    p[12] = 10;
    p[14..18].copy_from_slice(&[0x00, 0x00, 0xc0, 0x00]);
    p[18..20].copy_from_slice(&[0x23, 0x28]);
    p[20..24].copy_from_slice(&[0, 0, 0, 0]);
    p.extend_from_slice(b"GET /a");
    assert_eq!(p.len(), 30);
    let (result, _) = decode_one(&server_frame(b"strm", &p));
    match result {
        Ok(Some(ServerMessage::Stream {
            autostart,
            format,
            threshold,
            output_threshold,
            replay_gain,
            server_port,
            server_ip,
            http_headers,
        })) => {
            assert!(autostart);
            assert_eq!(format, AudioFormat::Mp3);
            assert_eq!(threshold, 255);
            assert_eq!(output_threshold, 10);
            assert_eq!(replay_gain, 0xc000);
            assert!((replay_gain as f64 / 65536.0 - 0.75).abs() < 1e-9);
            assert_eq!(server_port, 9000);
            assert_eq!(server_ip, [0, 0, 0, 0]);
            assert_eq!(http_headers, "GET /a");
        }
        other => panic!("not a stream: {:?}", other),
    }
}

#[test]
fn autostart_follows_the_second_byte() {
    for (flag, want) in [(b'0', false), (b'1', true), (b'2', false), (b'3', true), (1u8, false)] {
        let mut p = strm_payload(b's');
        p[1] = flag;
        match decode_one(&server_frame(b"strm", &p)).0 {
            Ok(Some(ServerMessage::Stream { autostart, http_headers, .. })) => {
                assert_eq!(autostart, want);
                assert_eq!(http_headers, "");
            }
            other => panic!("not a stream: {:?}", other),
        }
    }
}

#[test]
fn format_letters() {
    let table = [
        (b'p', AudioFormat::Pcm),
        (b'm', AudioFormat::Mp3),
        (b'f', AudioFormat::Flac),
        (b'w', AudioFormat::Wma),
        (b'o', AudioFormat::Ogg),
        (b'a', AudioFormat::Aac),
        (b'l', AudioFormat::Alac),
        (b'?', AudioFormat::Unknown),
    ];
    for (letter, want) in table {
        assert_eq!(AudioFormat::from_letter(letter), want);
        let mut p = strm_payload(b's');
        p[2] = letter;
        match decode_one(&server_frame(b"strm", &p)).0 {
            Ok(Some(ServerMessage::Stream { format, .. })) => assert_eq!(format, want),
            other => panic!("not a stream: {:?}", other),
        }
    }
}

#[test]
fn replay_gain_is_the_raw_number_over_65536() {
    let mut p = strm_payload(b's');
    p[14..18].copy_from_slice(&[0x00, 0x01, 0x80, 0x00]);
    match decode_one(&server_frame(b"strm", &p)).0 {
        Ok(Some(ServerMessage::Stream { replay_gain, .. })) => {
            assert_eq!(replay_gain, 0x0001_8000);
            assert!((replay_gain as f64 / 65536.0 - 1.5).abs() < 1e-9);
        }
        other => panic!("not a stream: {:?}", other),
    }
}

#[test]
fn strm_operations() {
    let stamp = 0x0102_0304;
    assert_eq!(
        decode_one(&server_frame(b"strm", &strm_payload(b't'))).0,
        Ok(Some(ServerMessage::Status(stamp)))
    );
    assert_eq!(
        decode_one(&server_frame(b"strm", &strm_payload(b'q'))).0,
        Ok(Some(ServerMessage::Stop))
    );
    assert_eq!(
        decode_one(&server_frame(b"strm", &strm_payload(b'p'))).0,
        Ok(Some(ServerMessage::Pause(stamp)))
    );
    assert_eq!(
        decode_one(&server_frame(b"strm", &strm_payload(b'u'))).0,
        Ok(Some(ServerMessage::Unpause(stamp)))
    );
}

#[test]
fn unknown_strm_operation_is_unrecognised() {
    assert_eq!(
        decode_one(&server_frame(b"strm", &strm_payload(b'a'))).0,
        Ok(Some(ServerMessage::Unrecognised("strm_a".to_owned())))
    );
    assert_eq!(
        decode_one(&server_frame(b"strm", &strm_payload(b'f'))).0,
        Ok(Some(ServerMessage::Unrecognised("strm_f".to_owned())))
    );
}

#[test]
fn unknown_tag_is_unrecognised() {
    for tag in [&b"vers"[..], &b"setd"[..], &b"SERV"[..], &b"\0\0\0\0"[..], &b"grfe"[..]] {
        let text: String = tag.iter().map(|b| *b as char).collect();
        let (result, left) = decode_one(&server_frame(tag, &[1, 2, 3]));
        assert_eq!(result, Ok(Some(ServerMessage::Unrecognised(text))));
        assert!(left.is_empty());
    }
    let (result, _) = decode_one(&server_frame(b"vers", &[]));
    assert_eq!(result, Ok(Some(ServerMessage::Unrecognised("vers".to_owned()))));
}

#[test]
fn frame_too_short_for_a_tag_is_corrupted() {
    for n in 0..4 {
        let (result, left) = decode_one(&server_frame(&b"ser"[..n.min(3)], &[]));
        if n < 4 {
            assert_eq!(result, if n == 0 { Ok(None) } else { Err(CodecError::Corrupted) });
        }
        if n > 0 {
            assert!(left.is_empty());
        }
    }
    assert_eq!(decode_one(&[0, 0, 9]), (Err(CodecError::Corrupted), vec![9]));
}

#[test]
fn enable_follows_the_second_payload_byte() {
    assert_eq!(
        decode_one(&server_frame(b"aude", &[1, 0])).0,
        Ok(Some(ServerMessage::Enable(false)))
    );
    assert_eq!(
        decode_one(&server_frame(b"aude", &[0, 1])).0,
        Ok(Some(ServerMessage::Enable(true)))
    );
    assert_eq!(
        decode_one(&server_frame(b"aude", &[0, 200, 7])).0,
        Ok(Some(ServerMessage::Enable(true)))
    );
    assert_eq!(decode_one(&server_frame(b"aude", &[1])).0, Err(CodecError::Corrupted));
    assert_eq!(decode_one(&server_frame(b"aude", &[])).0, Err(CodecError::Corrupted));
}

#[test]
fn gains_at_their_offsets() {
    let mut p = vec![0u8; 18];
    p[10..14].copy_from_slice(&[0x00, 0x00, 0xcc, 0xcd]);
    p[14..18].copy_from_slice(&[0x00, 0x00, 0x4c, 0xcd]);
    match decode_one(&server_frame(b"audg", &p)).0 {
        Ok(Some(ServerMessage::Gain(left, right))) => {
            assert_eq!(left, 0xcccd);
            assert_eq!(right, 0x4ccd);
            assert!((left as f64 / 65536.0 - 0.8).abs() < 1e-4);
            assert!((right as f64 / 65536.0 - 0.3).abs() < 1e-4);
        }
        other => panic!("not a gain: {:?}", other),
    }
    assert_eq!(decode_one(&server_frame(b"audg", &p[..17])).0, Err(CodecError::Corrupted));
}

#[test]
fn parse_classifies_a_frame_body() {
    assert_eq!(ServerMessage::parse(b""), ServerMessage::Error);
    assert_eq!(ServerMessage::parse(b"abc"), ServerMessage::Error);
    assert_eq!(ServerMessage::parse(b"serv"), ServerMessage::Error);
    assert_eq!(ServerMessage::parse(b"abcd"), ServerMessage::Unrecognised("abcd".to_owned()));
    assert_eq!(
        ServerMessage::parse(b"serv\x7f\x00\x00\x01"),
        ServerMessage::Serv { ip_address: [127, 0, 0, 1], sync_group_id: None }
    );
}

#[test]
fn helo_frame() {
    let helo = ClientMessage::Helo {
        device_id: 12,
        revision: 0,
        mac: [0; 6],
        uuid: [0; 16],
        wlan_channel_list: 0,
        bytes_received: 0,
        capabilities: "flc,mp3".to_owned(),
    };
    let frame = helo.to_bytes();
    assert_eq!(&frame[..4], b"HELO");
    let declared = u32::from_le_bytes([frame[4], frame[5], frame[6], frame[7]]) as usize;
    assert_eq!(declared, frame.len() - 8);
    assert_eq!(declared, 41);
    let mut want = b"HELO".to_vec();
    want.extend_from_slice(&[41, 0, 0, 0, 12, 0]);
    want.extend_from_slice(&[0; 6]);
    want.extend_from_slice(&[0; 16]);
    want.extend_from_slice(&[0, 0]);
    want.extend_from_slice(&[0; 8]);
    want.extend_from_slice(b"flc,mp3");
    assert_eq!(frame, want);
    assert_eq!(helo.payload(), want[8..].to_vec());
}

#[test]
fn helo_fields_are_big_endian() {
    let helo = ClientMessage::Helo {
        device_id: 1,
        revision: 2,
        mac: [0xa, 0xb, 0xc, 0xd, 0xe, 0xf],
        uuid: [7; 16],
        wlan_channel_list: 0x1234,
        bytes_received: 0x0102_0304_0506_0708,
        capabilities: String::new(),
    };
    let mut want = b"HELO".to_vec();
    want.extend_from_slice(&[34, 0, 0, 0, 1, 2, 0xa, 0xb, 0xc, 0xd, 0xe, 0xf]);
    want.extend_from_slice(&[7; 16]);
    want.extend_from_slice(&[0x12, 0x34, 1, 2, 3, 4, 5, 6, 7, 8]);
    assert_eq!(helo.to_bytes(), want);
}

#[test]
fn long_capabilities_grow_the_frame() {
    let caps = "x".repeat(70_000);
    let helo = ClientMessage::Helo {
        device_id: 12,
        revision: 0,
        mac: [0; 6],
        uuid: [0; 16],
        wlan_channel_list: 0,
        bytes_received: 0,
        capabilities: caps,
    };
    let frame = helo.to_bytes();
    assert_eq!(frame.len(), 8 + 34 + 70_000);
    assert_eq!(&frame[4..8], &(70_034u32).to_le_bytes()[..]);
}

#[test]
fn text_goes_out_as_utf8() {
    let stat = StatData::default().make_stat_message("é");
    let frame = stat.to_bytes();
    assert_eq!(&frame[4..8], &[51, 0, 0, 0][..]);
    assert_eq!(&frame[8..10], &[0xc3, 0xa9][..]);
}

#[test]
fn stat_frame() {
    let mut data = StatData::default();
    data.crlf = 2;
    data.fullness = 0x0a0b_0c0d;
    data.bytes_received = 0x1112_1314_1516_1718;
    data.jiffies = 0x2122_2324;
    data.output_buffer_fullness = 0x3132_3334;
    data.elapsed_seconds = 0x4142_4344;
    data.elapsed_milliseconds = 0x5152_5354;
    data.timestamp = 0x6162_6364;
    let msg = data.make_stat_message("STMt");
    assert_eq!(
        msg,
        ClientMessage::Stat { event_code: "STMt".to_owned(), stat_data: data }
    );
    let mut want = b"STAT".to_vec();
    want.extend_from_slice(&[53, 0, 0, 0]);
    want.extend_from_slice(b"STMt");
    want.extend_from_slice(&[2, 0, 0]);
    want.extend_from_slice(&[0x00, 0x01, 0x00, 0x00]);
    want.extend_from_slice(&[0x0a, 0x0b, 0x0c, 0x0d]);
    want.extend_from_slice(&[0x11, 0x12, 0x13, 0x14, 0x15, 0x16, 0x17, 0x18]);
    want.extend_from_slice(&[0, 0]);
    want.extend_from_slice(&[0x21, 0x22, 0x23, 0x24]);
    want.extend_from_slice(&[0x00, 0x1a, 0xea, 0xa0]);
    want.extend_from_slice(&[0x31, 0x32, 0x33, 0x34]);
    want.extend_from_slice(&[0x41, 0x42, 0x43, 0x44]);
    want.extend_from_slice(&[0, 0]);
    want.extend_from_slice(&[0x51, 0x52, 0x53, 0x54]);
    want.extend_from_slice(&[0x61, 0x62, 0x63, 0x64]);
    want.extend_from_slice(&[0, 0]);
    assert_eq!(msg.to_bytes(), want);
}

#[test]
fn default_stat_data() {
    let data = StatData::default();
    assert_eq!(data.buffer_size, 65536);
    assert_eq!(data.output_buffer_size, 1_764_000);
    assert_eq!(
        data,
        StatData {
            crlf: 0,
            buffer_size: 65536,
            fullness: 0,
            bytes_received: 0,
            sig_strength: 0,
            jiffies: 0,
            output_buffer_size: 1_764_000,
            output_buffer_fullness: 0,
            elapsed_seconds: 0,
            voltage: 0,
            elapsed_milliseconds: 0,
            timestamp: 0,
            error_code: 0,
        }
    );
}

#[test]
fn bye_frame() {
    let mut codec = SlimCodec;
    let mut dst = BytesMut::new();
    assert_eq!(codec.encode(ClientMessage::Bye(0), &mut dst), Ok(()));
    assert_eq!(&dst[..], &[b'B', b'Y', b'E', b'!', 1, 0, 0, 0, 0][..]);
}

#[test]
fn encode_appends_to_what_the_buffer_holds() {
    let mut codec = SlimCodec;
    let mut dst = BytesMut::from(vec![9u8, 8]);
    assert_eq!(codec.encode(ClientMessage::Bye(3), &mut dst), Ok(()));
    assert_eq!(codec.encode(ClientMessage::Bye(4), &mut dst), Ok(()));
    assert_eq!(
        &dst[..],
        &[9u8, 8, b'B', b'Y', b'E', b'!', 1, 0, 0, 0, 3, b'B', b'Y', b'E', b'!', 1, 0, 0, 0, 4][..]
    );
}
