use jabraw::gnp::{
    battery_charging, battery_percent, parse, parse_body, read_body, read_request, text,
    write_ack, write_body, write_reply, write_request, Ack, CMD_CONFIG, CMD_IDENT, CMD_STATUS,
    DST_DONGLE, DST_HEADSET, REPORT_ID, SUB_HS_BATTERY, SUB_NAME, TYPE_RESPONSE,
};

#[test]
fn a_request_is_not_a_response() {
    let req = read_body(DST_HEADSET, 7, CMD_IDENT, SUB_NAME, &[]);
    assert!(parse_body(&req).is_none());
}

#[test]
fn a_length_past_the_packet_is_rejected() {
    let body = [0, DST_HEADSET, 7, (TYPE_RESPONSE << 6) | 20, CMD_IDENT, SUB_NAME];
    assert!(parse_body(&body).is_none());
}

#[test]
fn the_payload_is_cut_at_the_length_field() {
    let mut body = vec![
        0,
        DST_HEADSET,
        7,
        (TYPE_RESPONSE << 6) | 8,
        CMD_IDENT,
        SUB_NAME,
    ];
    body.extend_from_slice(&[0xaa, 0xbb, 0xcc]);
    let r = parse_body(&body).unwrap();
    assert_eq!(
        (r.src, r.seq, r.cmd, r.sub),
        (DST_HEADSET, 7, CMD_IDENT, SUB_NAME)
    );
    assert_eq!(r.data, &[0xaa, 0xbb]);
}

#[test]
fn over_hidraw_the_report_id_has_to_be_there() {
    let body = [0, DST_HEADSET, 7, (TYPE_RESPONSE << 6) | 6, CMD_IDENT, SUB_NAME];
    assert!(parse(&body).is_none());
    let mut report = vec![REPORT_ID];
    report.extend_from_slice(&body);
    assert!(parse(&report).is_some());
}

#[test]
fn a_write_says_command_in_the_type_bits() {
    let w = write_body(DST_HEADSET, 7, CMD_CONFIG, 21, &[1]);
    assert_eq!(w, vec![DST_HEADSET, 0, 7, (2 << 6) | 7, CMD_CONFIG, 21, 1]);
}

#[test]
fn an_acceptance_is_five_bytes_and_still_counts() {
    // One shorter than a read reply. The first byte is the address the
    // device answers to, 0x00 over hidraw and 0x09 over RFCOMM.
    let ok = [0, DST_HEADSET, 7, (TYPE_RESPONSE << 6) | 5, 0xff];
    assert_eq!(write_reply(&ok, DST_HEADSET, 7), Some(Ack::Accepted));
    let rfcomm = [0x09, DST_HEADSET, 7, (TYPE_RESPONSE << 6) | 5, 0xff];
    assert_eq!(write_reply(&rfcomm, DST_HEADSET, 7), Some(Ack::Accepted));
    // Another sequence number is another packet.
    assert_eq!(write_reply(&ok, DST_HEADSET, 8), None);
    let nak = [0, DST_HEADSET, 7, (TYPE_RESPONSE << 6) | 6, 0xfe, 0x23];
    assert_eq!(write_reply(&nak, DST_HEADSET, 7), Some(Ack::Nak(0x23)));
}

#[test]
fn text_stops_at_the_length_byte() {
    assert_eq!(text(&[3, b'a', b'b', b'c', b'd']).as_deref(), Some("abc"));
}

#[test]
fn text_rejects_what_it_cannot_show() {
    // Length past the end, a control character, and nothing at all.
    assert!(text(&[9, b'a']).is_none());
    assert!(text(&[2, b'a', 0x07]).is_none());
    assert!(text(&[0]).is_none());
    assert!(text(&[]).is_none());
}

#[test]
fn the_charge_level_is_the_second_byte() {
    assert_eq!(battery_percent(&[0x00, 32, 0, 0]), Some(32));
    // Above 100 is not a percentage, so it is no answer either.
    assert_eq!(battery_percent(&[0x00, 101]), None);
    assert_eq!(battery_percent(&[0x00]), None);
}

#[test]
fn charging_is_bit_zero_of_the_first() {
    assert!(battery_charging(&[0x25]));
    assert!(!battery_charging(&[0x24]));
    assert!(!battery_charging(&[]));
}

#[test]
fn a_read_request_fills_the_report() {
    let r = read_request(DST_DONGLE, 3, CMD_STATUS, SUB_HS_BATTERY, &[]);
    assert_eq!(r.len(), 64);
    assert_eq!(&r[..7], &[REPORT_ID, DST_DONGLE, 0, 3, (1 << 6) | 6, CMD_STATUS, SUB_HS_BATTERY]);
    assert!(r[7..].iter().all(|&b| b == 0));
}

#[test]
fn a_write_request_carries_the_value() {
    let r = write_request(DST_HEADSET, 0x21, CMD_CONFIG, 39, &[0, 0, 20]);
    assert_eq!(&r[..10], &[REPORT_ID, DST_HEADSET, 0, 0x21, (2 << 6) | 9, CMD_CONFIG, 39, 0, 0, 20]);
    assert!(r[10..].iter().all(|&b| b == 0));
}

#[test]
fn data_past_the_six_bit_length_is_cut() {
    let data = [7u8; 80];
    let b = read_body(DST_HEADSET, 1, CMD_CONFIG, 1, &data);
    assert_eq!(b.len(), 63);
    assert_eq!(b[3], (1 << 6) | 63);
}

#[test]
fn a_write_ack_needs_the_report_id() {
    let ok = [REPORT_ID, 0, DST_HEADSET, 7, (TYPE_RESPONSE << 6) | 5, 0xff];
    assert_eq!(write_ack(&ok, DST_HEADSET, 7), Some(Ack::Accepted));
    assert_eq!(write_ack(&ok[1..], DST_HEADSET, 7), None);
}

#[test]
fn a_refusal_without_its_reason_is_no_answer() {
    let nak = [0, DST_HEADSET, 7, (TYPE_RESPONSE << 6) | 5, 0xfe, 0x23];
    assert_eq!(write_reply(&nak, DST_HEADSET, 7), None);
    let other = [0, DST_HEADSET, 7, (TYPE_RESPONSE << 6) | 5, 0x13];
    assert_eq!(write_reply(&other, DST_HEADSET, 7), None);
    let read_type = [0, DST_HEADSET, 7, (1 << 6) | 5, 0xff];
    assert_eq!(write_reply(&read_type, DST_HEADSET, 7), None);
}

#[test]
fn a_built_reply_round_trips() {
    let mut pkt = vec![0x09, DST_HEADSET, 0x42, (TYPE_RESPONSE << 6) | 9, CMD_STATUS, SUB_HS_BATTERY, 0x25, 93, 0x10];
    pkt.extend_from_slice(&[0xde, 0xad]);
    let r = parse_body(&pkt).unwrap();
    assert_eq!((r.src, r.seq, r.cmd, r.sub), (DST_HEADSET, 0x42, CMD_STATUS, SUB_HS_BATTERY));
    assert_eq!(r.data, &[0x25, 93, 0x10]);
    assert_eq!(battery_percent(r.data), Some(93));
    assert!(battery_charging(r.data));
}

#[test]
fn a_short_or_headerless_packet_is_no_reply() {
    assert!(parse_body(&[0, 4, 7, 0xc5, 2]).is_none());
    let too_short_len = [0, 4, 7, (TYPE_RESPONSE << 6) | 5, 2, 0];
    assert!(parse_body(&too_short_len).is_none());
    assert!(parse(&[]).is_none());
}
