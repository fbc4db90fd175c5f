use xbee_rust_modem_library::api_mode::{
    api_checksum, encode_tx_request_ap2, needs_escape, next_frame_id, ApiError, ApiParser,
    PushOutcome, ScanOutcome,
    BROADCAST_ADDR_64, ESCAPE, ESCAPE_XOR, FRAME_RX_PACKET, FRAME_TX_REQUEST,
    FRAME_TX_STATUS_EXT, MAX_RF_PAYLOAD, START_DELIMITER, UNKNOWN_ADDR_16,
};

#[test]
fn constants_match_digi_spec() {
    assert_eq!(START_DELIMITER, 0x7E);
    assert_eq!(ESCAPE, 0x7D);
    assert_eq!(ESCAPE_XOR, 0x20);
    assert_eq!(FRAME_TX_REQUEST, 0x10);
    assert_eq!(FRAME_TX_STATUS_EXT, 0x8B);
    assert_eq!(FRAME_RX_PACKET, 0x90);
}

#[test]
fn extended_tx_status_ap1_example_parses() {
    let wire = [
        0x7E, 0x00, 0x07, 0x8B, 0x01, 0xFF, 0xFE, 0x00, 0x00, 0x00, 0x76,
    ];
    let mut p = ApiParser::new();
    for (i, &b) in wire.iter().enumerate() {
        let r = p.push(b).unwrap();
        if i + 1 < wire.len() {
            assert_eq!(r, PushOutcome::Continue);
        } else {
            assert_eq!(r, PushOutcome::IgnoredFrame);
        }
    }
}

#[test]
fn encode_then_feed_no_escape_small_payload() {
    let mut out = [0u8; 512];
    let dest = 0x0013A20041AEB54E_u64;
    let rf = [0x54, 0x78, 0x44, 0x61, 0x74, 0x61];
    let wire = encode_tx_request_ap2(&mut out, 0x52, dest, UNKNOWN_ADDR_16, 0, 0, &rf).unwrap();

    assert_eq!(wire[0], START_DELIMITER);
    assert!(wire.len() > 20);

    let mut p = ApiParser::new();
    for &b in wire {
        let _ = p.push(b).unwrap();
    }
}

#[test]
fn receive_packet_minimal_rf() {
    let frame_data: [u8; 13] = [
        0x90, 0x00, 0x13, 0xA2, 0x00, 0x87, 0x65, 0x43, 0x21, 0xFF, 0xFE, 0x01, 0xAB,
    ];
    let chk = api_checksum(&frame_data);
    let len = frame_data.len() as u16;
    let mut wire = heapless::Vec::<u8, 32>::new();
    wire.push(START_DELIMITER).unwrap();
    for b in len.to_be_bytes() {
        wire.push(b).unwrap();
    }
    for &b in &frame_data {
        wire.push(b).unwrap();
    }
    wire.push(chk).unwrap();

    let mut p = ApiParser::new();
    let mut got = None;
    for &b in wire.iter() {
        match p.push(b).unwrap() {
            PushOutcome::RfPayload(v) => got = Some(v),
            PushOutcome::Continue | PushOutcome::IgnoredFrame => {}
        }
    }
    assert_eq!(got.as_ref().map(|v| v.as_slice()), Some(&[0xAB][..]));
}

#[test]
fn escape_special_bytes_in_rf_payload() {
    let mut out = [0u8; 512];
    let rf = [0x7E, 0x7D, 0x11, 0x13, 0x00];
    let wire =
        encode_tx_request_ap2(&mut out, 1, BROADCAST_ADDR_64, UNKNOWN_ADDR_16, 0, 0, &rf)
            .unwrap();
    assert_eq!(wire[0], START_DELIMITER);
    assert!(
        !wire[1..].contains(&START_DELIMITER),
        "no unescaped 0x7E inside the frame after the start delimiter"
    );
}

#[test]
fn only_the_four_reserved_bytes_are_escaped() {
    for b in 0..=255u8 {
        let expected = b == 0x7E || b == 0x7D || b == 0x11 || b == 0x13;
        assert_eq!(needs_escape(b), expected);
    }
}

#[test]
fn checksum_is_ff_minus_low_byte_of_sum() {
    // 0x8B + 0x01 + 0xFF + 0xFE = 0x289; 0xFF - 0x89 = 0x76.
    assert_eq!(api_checksum(&[0x8B, 0x01, 0xFF, 0xFE, 0x00, 0x00, 0x00]), 0x76);
    assert_eq!(api_checksum(&[]), 0xFF);
}

#[test]
fn tx_request_has_exact_bytes() {
    let mut out = [0u8; 64];
    let wire = encode_tx_request_ap2(&mut out, 0x01, 0x0013A200_4105_0B0C, 0xFFFE, 0, 0, &[0x41])
        .unwrap();
    // frame data: 10 01 00 13 A2 00 41 05 0B 0C FF FE 00 00 41; the 0x13
    // of the address goes out escaped as 7D 33.
    let data = [
        0x10, 0x01, 0x00, 0x13, 0xA2, 0x00, 0x41, 0x05, 0x0B, 0x0C, 0xFF, 0xFE, 0x00, 0x00, 0x41,
    ];
    let chk = api_checksum(&data);
    assert_eq!(chk, 0x9E);
    let expected = vec![
        0x7E, 0x00, 0x0F, 0x10, 0x01, 0x00, 0x7D, 0x33, 0xA2, 0x00, 0x41, 0x05, 0x0B, 0x0C, 0xFF,
        0xFE, 0x00, 0x00, 0x41, 0x9E,
    ];
    assert_eq!(wire, &expected[..]);
}

#[test]
fn rf_payload_over_limit_is_refused() {
    let mut out = [0u8; 4096];
    let rf = vec![0u8; MAX_RF_PAYLOAD + 1];
    assert_eq!(
        encode_tx_request_ap2(&mut out, 1, BROADCAST_ADDR_64, UNKNOWN_ADDR_16, 0, 0, &rf),
        Err(ApiError::PayloadTooLarge)
    );
    let rf = vec![0u8; MAX_RF_PAYLOAD];
    assert!(encode_tx_request_ap2(&mut out, 1, BROADCAST_ADDR_64, UNKNOWN_ADDR_16, 0, 0, &rf).is_ok());
}

#[test]
fn small_output_buffer_is_refused() {
    let mut out = [0u8; 10];
    assert_eq!(
        encode_tx_request_ap2(&mut out, 1, BROADCAST_ADDR_64, UNKNOWN_ADDR_16, 0, 0, &[1, 2, 3]),
        Err(ApiError::OutputBufferTooSmall)
    );
}

#[test]
fn oversized_length_field_is_an_error() {
    let mut p = ApiParser::new();
    assert_eq!(p.push(0x7E), Ok(PushOutcome::Continue));
    assert_eq!(p.push(0x04), Ok(PushOutcome::Continue));
    // 0x0401 = 1025 > 1024
    assert_eq!(p.push(0x01), Err(ApiError::PayloadTooLarge));
}

#[test]
fn bad_checksum_frame_is_ignored() {
    let frame_data = [0x90, 0, 0, 0, 0, 0, 0, 0, 1, 0xFF, 0xFE, 0x01, 0x42];
    let chk = api_checksum(&frame_data);
    let mut p = ApiParser::new();
    let mut last = None;
    let mut wire = vec![0x7E, 0x00, frame_data.len() as u8];
    wire.extend_from_slice(&frame_data);
    wire.push(chk.wrapping_add(1));
    for &b in &wire {
        last = Some(p.push(b).unwrap());
    }
    assert_eq!(last, Some(PushOutcome::IgnoredFrame));
}

/// A transmitted frame fed back to the parser is recognised as a frame and
/// yields no RF payload (it is not a 0x90 frame).
#[test]
fn own_tx_request_is_not_taken_for_rf_data() {
    let mut out = [0u8; 128];
    let wire = encode_tx_request_ap2(&mut out, 7, 1, 2, 0, 0, &[0x7E, 0x7D, 0x13, 0x11, 9]).unwrap();
    let mut p = ApiParser::new();
    let mut outcomes = Vec::new();
    for &b in wire {
        outcomes.push(p.push(b).unwrap());
    }
    let (last, rest) = outcomes.split_last().unwrap();
    assert!(rest.iter().all(|o| *o == PushOutcome::Continue));
    assert_eq!(*last, PushOutcome::IgnoredFrame);
}

/// An escaped receive frame decodes to its payload and addresses.
#[test]
fn escaped_receive_frame_decodes() {
    let frame_data = [
        0x90, 0x00, 0x13, 0xA2, 0x00, 0x41, 0x05, 0x0B, 0x0C, 0x7D, 0x11, 0x01, 0x7E, 0x13, 0x55,
    ];
    let chk = api_checksum(&frame_data);
    let mut body = vec![0x00, frame_data.len() as u8];
    body.extend_from_slice(&frame_data);
    body.push(chk);
    let mut wire = vec![0x7E];
    for b in body {
        if needs_escape(b) {
            wire.push(0x7D);
            wire.push(b ^ 0x20);
        } else {
            wire.push(b);
        }
    }
    let mut p = ApiParser::new();
    let mut got = None;
    for &b in &wire {
        if let PushOutcome::RfPayload(pkt) = p.push(b).unwrap() {
            got = Some(pkt);
        }
    }
    let pkt = got.expect("payload");
    assert_eq!(pkt.source_addr_64, 0x0013A200_4105_0B0C);
    assert_eq!(pkt.source_addr_16, 0x7D11);
    assert_eq!(pkt.as_slice(), &[0x7E, 0x13, 0x55][..]);
}

#[test]
fn reset_drops_a_partial_frame() {
    let mut p = ApiParser::new();
    p.push(0x7E).unwrap();
    p.push(0x00).unwrap();
    p.reset();
    // Bytes outside a frame are ignored until the next start delimiter.
    assert_eq!(p.push(0x05), Ok(PushOutcome::Continue));
}

#[test]
fn frame_ids_cycle_through_1_to_255() {
    assert_eq!(next_frame_id(1), 2);
    assert_eq!(next_frame_id(254), 255);
    assert_eq!(next_frame_id(255), 1);
}

#[test]
fn scan_stops_after_the_first_payload() {
    let frame_data = [0x90, 0, 0, 0, 0, 0, 0, 0, 2, 0xFF, 0xFE, 0x01, 0x61, 0x62];
    let chk = api_checksum(&frame_data);
    let mut wire = vec![0x00, 0x11, 0x7E, 0x00, frame_data.len() as u8];
    wire.extend_from_slice(&frame_data);
    wire.push(chk);
    let frame_end = wire.len();
    wire.extend_from_slice(&[0x7E, 0x00]);

    let mut p = ApiParser::new();
    match p.scan(&wire) {
        (ScanOutcome::Payload(pkt), used) => {
            assert_eq!(used, frame_end);
            assert_eq!(pkt.source_addr_64, 2);
            assert_eq!(pkt.as_slice(), b"ab");
        }
        other => panic!("unexpected {other:?}"),
    }
    // Nothing after the payload was read: the parser waits for a frame.
    assert_eq!(p.scan(&[0x05]), (ScanOutcome::NoPayload, 1));
}

#[test]
fn scan_reports_an_oversized_frame() {
    let mut p = ApiParser::new();
    assert_eq!(
        p.scan(&[0x7E, 0x05, 0x00, 0x01]),
        (ScanOutcome::Failed(ApiError::PayloadTooLarge), 3)
    );
}

#[test]
fn start_delimiter_resynchronizes_any_two_parsers() {
    let frame_data = [0x90, 0, 0, 0, 0, 0, 0, 0, 3, 0xFF, 0xFE, 0x01, 0x7A];
    let chk = api_checksum(&frame_data);
    let mut tail = vec![0x00, frame_data.len() as u8];
    tail.extend_from_slice(&frame_data);
    tail.push(chk);

    // One parser mid-body, one with a pending escape, one fresh.
    let mut a = ApiParser::new();
    for b in [0x7E, 0x00, 0x20, 0x90, 0x01] {
        a.push(b).unwrap();
    }
    let mut b = ApiParser::new();
    for x in [0x7E, 0x00, 0x7D] {
        b.push(x).unwrap();
    }
    let mut c = ApiParser::new();
    for p in [&mut a, &mut b, &mut c] {
        assert_eq!(p.push(0x7E), Ok(PushOutcome::Continue));
    }
    let run = |p: &mut ApiParser| tail.iter().map(|&x| p.push(x)).collect::<Vec<_>>();
    let ra = run(&mut a);
    assert_eq!(ra, run(&mut b));
    assert_eq!(ra, run(&mut c));
    assert!(matches!(ra.last(), Some(Ok(PushOutcome::RfPayload(_)))));
}
