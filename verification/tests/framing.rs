use p2p_gossip::addr::Addr;
use p2p_gossip::codec::{encode_frame, parse_frame};
use p2p_gossip::connection::Connection;
use p2p_gossip::message::{Message, ProtocolError};

fn addr(a: u8, b: u8, c: u8, d: u8, port: u16) -> Addr {
    Addr::new([a, b, c, d], port)
}

fn round_trip(msg: Message) {
    let frame = Connection::new().write_msg(msg.clone());
    let mut reader = Connection::new();
    let got = reader.read_msg(&frame).unwrap();
    assert_eq!(got, Some(msg.clone()));
    assert_eq!(reader.pending_len(), 0);
    assert_eq!(parse_frame(&frame), Ok(Some((msg, frame.len()))));
}

#[test]
fn ping_with_empty_text_encodes_to_nine_bytes() {
    let frame = encode_frame(&Message::Ping(String::new()));
    assert_eq!(frame, vec![0x01, 0, 0, 0, 0, 0, 0, 0, 0]);
    assert_eq!(frame.len(), 9);
}

#[test]
fn get_peers_request_encodes_to_its_tag() {
    assert_eq!(encode_frame(&Message::GetPeersRequest), vec![0x00]);
}

#[test]
fn connected_encodes_octets_then_port() {
    let frame = encode_frame(&Message::Connected(addr(127, 0, 0, 1, 2050)));
    assert_eq!(frame, vec![0x04, 127, 0, 0, 1, 0x08, 0x02]);
}

#[test]
fn empty_peer_list_encodes_to_a_zero_count() {
    let frame = encode_frame(&Message::GetPeersResponse(vec![]));
    assert_eq!(frame, vec![0x02, 0, 0, 0, 0, 0, 0, 0, 0]);
}

#[test]
fn connect_encodes_to_its_tag() {
    assert_eq!(encode_frame(&Message::Connect), vec![0x03]);
}

#[test]
fn ping_encodes_length_then_text() {
    let frame = encode_frame(&Message::Ping("hi".to_string()));
    assert_eq!(frame, vec![0x01, 0, 0, 0, 0, 0, 0, 0, 2, b'h', b'i']);
}

#[test]
fn ping_length_counts_bytes_not_characters() {
    let frame = encode_frame(&Message::Ping("é".to_string()));
    assert_eq!(frame, vec![0x01, 0, 0, 0, 0, 0, 0, 0, 2, 0xC3, 0xA9]);
}

#[test]
fn long_ping_length_is_big_endian() {
    let text = "x".repeat(300);
    let frame = encode_frame(&Message::Ping(text.clone()));
    assert_eq!(&frame[..9], &[0x01, 0, 0, 0, 0, 0, 0, 0x01, 0x2C]);
    assert_eq!(frame.len(), 309);
    assert_eq!(parse_frame(&frame), Ok(Some((Message::Ping(text), 309))));
    assert_eq!(parse_frame(&frame[..308]), Ok(None));
}

#[test]
fn peer_list_encodes_each_address_in_order() {
    let frame = encode_frame(&Message::GetPeersResponse(vec![
        addr(10, 0, 0, 1, 80),
        addr(192, 168, 1, 2, 65535),
    ]));
    assert_eq!(
        frame,
        vec![0x02, 0, 0, 0, 0, 0, 0, 0, 2, 10, 0, 0, 1, 0, 80, 192, 168, 1, 2, 0xFF, 0xFF]
    );
}

#[test]
fn test_read_write() {
    round_trip(Message::Connect);
    round_trip(Message::GetPeersRequest);
    round_trip(Message::Connected(addr(127, 0, 0, 1, 2050)));
    round_trip(Message::Connected(addr(0, 0, 0, 0, 0)));
    round_trip(Message::Connected(addr(255, 255, 255, 255, 65535)));
    round_trip(Message::Ping(String::new()));
    round_trip(Message::Ping("Random message".to_string()));
    round_trip(Message::Ping("héllo, wörld — ✓ 🦀".to_string()));
    round_trip(Message::GetPeersResponse(vec![]));
    round_trip(Message::GetPeersResponse(vec![addr(1, 2, 3, 4, 5)]));
    round_trip(Message::GetPeersResponse(vec![
        addr(0, 0, 0, 0, 0),
        addr(255, 255, 255, 255, 65535),
        addr(127, 0, 0, 1, 256),
    ]));
}

#[test]
fn round_trip_of_long_peer_lists() {
    for n in [2usize, 7, 64, 1000] {
        let addrs: Vec<Addr> = (0..n)
            .map(|i| addr((i % 256) as u8, (i / 256) as u8, 7, 9, (i * 61 % 65536) as u16))
            .collect();
        round_trip(Message::GetPeersResponse(addrs));
    }
}

#[test]
fn feeding_byte_by_byte_yields_one_message() {
    let messages = vec![
        Message::Ping("byte by byte".to_string()),
        Message::GetPeersResponse(vec![addr(10, 1, 2, 3, 4000), addr(10, 1, 2, 4, 4001)]),
        Message::Connected(addr(127, 0, 0, 1, 2555)),
        Message::GetPeersRequest,
        Message::Connect,
    ];
    for msg in messages {
        let frame = encode_frame(&msg);
        let mut reader = Connection::new();
        let mut seen = Vec::new();
        for (i, byte) in frame.iter().enumerate() {
            match reader.read_msg(&[*byte]).unwrap() {
                Some(m) => seen.push((i, m)),
                None => assert_eq!(reader.pending_len(), i + 1),
            }
        }
        assert_eq!(seen, vec![(frame.len() - 1, msg)]);
        assert_eq!(reader.pending_len(), 0);
    }
}

#[test]
fn every_proper_prefix_asks_for_more() {
    let frame = encode_frame(&Message::GetPeersResponse(vec![
        addr(1, 1, 1, 1, 1),
        addr(2, 2, 2, 2, 2),
    ]));
    for k in 0..frame.len() {
        assert_eq!(parse_frame(&frame[..k]), Ok(None));
    }
}

#[test]
fn parsing_leaves_what_follows_the_frame() {
    let mut bytes = encode_frame(&Message::Ping("one".to_string()));
    let first_len = bytes.len();
    bytes.extend(encode_frame(&Message::Connected(addr(9, 8, 7, 6, 515))));
    bytes.push(0x01);
    let mut reader = Connection::new();
    assert_eq!(reader.read_msg(&bytes).unwrap(), Some(Message::Ping("one".to_string())));
    assert_eq!(reader.pending_len(), bytes.len() - first_len);
    assert_eq!(
        reader.parse_msg().unwrap(),
        Some(Message::Connected(addr(9, 8, 7, 6, 515)))
    );
    assert_eq!(reader.pending_len(), 1);
    assert_eq!(reader.parse_msg().unwrap(), None);
    assert_eq!(reader.pending_len(), 1);
}

#[test]
fn end_of_stream_on_an_empty_buffer_is_closed() {
    let mut reader = Connection::new();
    assert_eq!(reader.parse_msg(), Ok(None));
    assert_eq!(reader.read_msg(&[]), Err(ProtocolError::Closed));
}

#[test]
fn end_of_stream_inside_a_frame_is_closed() {
    let frame = encode_frame(&Message::Ping("cut short".to_string()));
    let mut reader = Connection::new();
    assert_eq!(reader.read_msg(&frame[..12]), Ok(None));
    assert_eq!(reader.read_msg(&[]), Err(ProtocolError::Closed));
    assert_eq!(reader.pending_len(), 12);
}

#[test]
fn invalid_text_fails_the_read_and_keeps_the_bytes() {
    let bytes = [0x01, 0, 0, 0, 0, 0, 0, 0, 2, 0xFF, 0xFE];
    assert_eq!(parse_frame(&bytes), Err(ProtocolError::InvalidText));
    let mut reader = Connection::new();
    assert_eq!(reader.read_msg(&bytes), Err(ProtocolError::InvalidText));
    assert_eq!(reader.pending_len(), bytes.len());
}

#[test]
fn unknown_tag_is_a_framing_error() {
    assert_eq!(parse_frame(&[5]), Err(ProtocolError::UnknownTag));
    assert_eq!(parse_frame(&[0xFF, 0, 0]), Err(ProtocolError::UnknownTag));
    let mut reader = Connection::new();
    assert_eq!(reader.read_msg(&[9, 1, 2]), Err(ProtocolError::UnknownTag));
    assert_eq!(reader.pending_len(), 3);
}

#[test]
fn a_count_no_buffer_can_hold_asks_for_more() {
    let mut bytes = vec![0x02];
    bytes.extend([0xFF; 8]);
    bytes.extend([1, 2, 3, 4, 5, 6]);
    assert_eq!(parse_frame(&bytes), Ok(None));
    let mut ping = vec![0x01];
    ping.extend([0xFF; 8]);
    ping.extend([b'a', b'b']);
    assert_eq!(parse_frame(&ping), Ok(None));
}

#[test]
fn port_is_read_most_significant_byte_first() {
    let got = parse_frame(&[0x04, 1, 2, 3, 4, 0x08, 0x02]);
    assert_eq!(got, Ok(Some((Message::Connected(addr(1, 2, 3, 4, 2050)), 7))));
    assert_eq!(parse_frame(&[0x04, 1, 2, 3, 4, 0x08]), Ok(None));
}

#[test]
fn address_accessors_return_what_was_given() {
    let a = addr(203, 0, 113, 9, 8080);
    assert_eq!(a.octets(), [203, 0, 113, 9]);
    assert_eq!(a.port(), 8080);
}
