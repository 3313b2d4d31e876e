use jabraw::config::{accept_report, from_sweep, settings, subs, sweep_requests, write_packet, def_of, raw_of, WRITE_SEQ};
use jabraw::daemon::{next_wait, Pending, Requests, Update, Slot, DeviceInfo, record, slot, bluetooth_view, ident_queries, shown_device};
use jabraw::bluetooth::BtDevice;
use jabraw::gnp::{CMD_CONFIG, CMD_IDENT, CMD_STATUS, DST_DONGLE, DST_HEADSET, REPORT_ID, SUB_HS_BATTERY, SUB_NAME, SUB_VERSION};
use jabraw::rfcomm::{next_seq, reply_for, sweep_packet, sweep_rows, Collector, Cut, Reply, Stream};

fn reply(src: u8, seq: u8, cmd: u8, sub: u8, data: &[u8]) -> Vec<u8> {
    let mut p = vec![0x09, src, seq, (3 << 6) | (6 + data.len() as u8), cmd, sub];
    p.extend_from_slice(data);
    p
}

#[test]
fn sequence_numbers_skip_zero() {
    assert_eq!(next_seq(0x40), 0x41);
    assert_eq!(next_seq(255), 1);
}

#[test]
fn the_stream_is_cut_on_the_length_field() {
    let a = reply(4, 1, CMD_IDENT, SUB_NAME, &[3, b'a', b'b', b'c']);
    let b = reply(4, 2, CMD_STATUS, SUB_HS_BATTERY, &[0x24, 93]);
    let mut s = Stream::new();
    s.extend(&a[..3]);
    assert!(matches!(s.next_packet(), Cut::NeedMore));
    s.extend(&a[3..]);
    s.extend(&b[..7]);
    match s.next_packet() {
        Cut::Packet(p) => assert_eq!(p, a),
        _ => panic!("packet expected"),
    }
    assert!(matches!(s.next_packet(), Cut::NeedMore));
    s.extend(&b[7..]);
    match s.next_packet() {
        Cut::Packet(p) => assert_eq!(p, b),
        _ => panic!("packet expected"),
    }
    s.extend(&[0, 4, 1, 0xc2, 2, 0, 9]);
    assert!(matches!(s.next_packet(), Cut::OutOfStep));
    assert!(matches!(s.next_packet(), Cut::NeedMore));
}

#[test]
fn only_the_own_reply_counts() {
    let p = reply(4, 7, CMD_IDENT, SUB_VERSION, &[5, b'2', b'.', b'9', b'.', b'2']);
    assert_eq!(reply_for(&p, 7, CMD_IDENT, SUB_VERSION), Some(vec![5, b'2', b'.', b'9', b'.', b'2']));
    assert_eq!(reply_for(&p, 8, CMD_IDENT, SUB_VERSION), None);
    assert_eq!(reply_for(&p, 7, CMD_IDENT, SUB_NAME), None);
    assert_eq!(Reply::Data(vec![1]).data(), Some(vec![1]));
    assert_eq!(Reply::Silent.data(), None);
    assert_eq!(Reply::Dead.data(), None);
}

#[test]
fn a_sweep_collects_by_sequence_number_and_sorts_by_name() {
    let mut c = Collector::new();
    c.expect(1, "soundMode");
    c.expect(2, "anc");
    assert!(!c.is_done());
    assert!(sweep_packet(&mut c, &reply(4, 1, CMD_CONFIG, 21, &[2]), CMD_CONFIG));
    // Twice is once.
    assert!(!sweep_packet(&mut c, &reply(4, 1, CMD_CONFIG, 21, &[2]), CMD_CONFIG));
    // Another group does not count.
    assert!(!sweep_packet(&mut c, &reply(4, 2, CMD_IDENT, 0, &[1]), CMD_CONFIG));
    assert!(sweep_packet(&mut c, &reply(4, 2, CMD_CONFIG, 135, &[1]), CMD_CONFIG));
    assert!(c.is_done());
    let rows = sweep_rows(c);
    assert_eq!(rows, vec![("anc", vec![1]), ("soundMode", vec![2])]);
    let shown = from_sweep(rows, false);
    assert_eq!(shown.len(), 2);
    assert_eq!(shown[0].label, "Active noise cancellation");
    assert_eq!(shown[1].label, "Sound mode");
    assert_eq!(shown[1].raw, Some(2));
    assert_eq!(shown[0].device, "Headset");
}

#[test]
fn a_hidraw_sweep_asks_every_setting() {
    let (reqs, mut c) = sweep_requests(DST_HEADSET);
    assert_eq!(reqs.len(), settings().len());
    assert_eq!(subs().len(), reqs.len());
    assert_eq!(&reqs[0][..7], &[REPORT_ID, DST_HEADSET, 0, 1, (1 << 6) | 6, CMD_CONFIG, 0]);
    let mut report = vec![REPORT_ID];
    report.extend_from_slice(&reply(DST_HEADSET, 10, CMD_CONFIG, 21, &[1]));
    // From the dongle it is another device's answer.
    let mut from_dongle = vec![REPORT_ID];
    from_dongle.extend_from_slice(&reply(DST_DONGLE, 10, CMD_CONFIG, 21, &[1]));
    assert!(!accept_report(&mut c, &from_dongle, DST_HEADSET));
    assert!(accept_report(&mut c, &report, DST_HEADSET));
}

#[test]
fn a_masked_setting_is_not_written() {
    let boom = def_of("boomarmRotationAction").unwrap();
    assert!(write_packet(DST_HEADSET, &boom, 1).is_none());
    assert_eq!(raw_of(Some(&boom), &[0xff]), Some(0x0d));
    let ring = def_of("ringerVolume").unwrap();
    let p = write_packet(DST_HEADSET, &ring, 2).unwrap();
    assert_eq!(&p[..9], &[REPORT_ID, DST_HEADSET, 0, WRITE_SEQ, (2 << 6) | 8, CMD_CONFIG, 3, 0, 2]);
    assert_eq!(raw_of(Some(&ring), &[0]), None);
    assert!(def_of("nothing").is_none());
}

#[test]
fn replies_fill_what_was_asked() {
    let mut reqs = Requests::new();
    reqs.ask(1, Pending::Battery);
    reqs.ask(2, Pending::Ident { dst: DST_DONGLE, sub: SUB_NAME });
    let mut bat = vec![REPORT_ID];
    bat.extend_from_slice(&reply(DST_DONGLE, 1, CMD_STATUS, SUB_HS_BATTERY, &[1, 58, 0, 0]));
    match reqs.on_vendor_report(&bat) {
        Update::Battery { level, charging } => {
            assert_eq!(level, Some(58));
            assert!(charging);
        }
        _ => panic!("battery expected"),
    }
    // Answered once, the number is free again.
    assert!(matches!(reqs.on_vendor_report(&bat), Update::Nothing));
    let mut name = vec![REPORT_ID];
    name.extend_from_slice(&reply(DST_DONGLE, 2, CMD_IDENT, SUB_NAME, &[4, b'L', b'i', b'n', b'k']));
    match reqs.on_vendor_report(&name) {
        Update::Ident { slot: s, text } => {
            assert_eq!(s, Slot::DongleName);
            assert_eq!(text, "Link");
            let mut info = DeviceInfo::default();
            record(&mut info, s, text);
            assert_eq!(info.dongle_name.as_deref(), Some("Link"));
        }
        _ => panic!("ident expected"),
    }
    assert_eq!(slot(DST_HEADSET, SUB_VERSION), Slot::HeadsetVersion);
}

#[test]
fn the_retry_wait_doubles_up_to_five_minutes() {
    assert_eq!(next_wait(false, 5), 10);
    assert_eq!(next_wait(false, 80), 150);
    assert_eq!(next_wait(true, 150), 5);
}

#[test]
fn the_session_figure_wins_over_hfp() {
    let d = BtDevice { name: "Evolve2 65".to_string(), battery: Some(100), path: "/org/bluez/x".to_string() };
    let (info, battery, charging) = bluetooth_view(&DeviceInfo::default(), Some((93, true)), Some(&d));
    assert_eq!(info.headset_name.as_deref(), Some("Evolve2 65"));
    assert_eq!((battery, charging), (Some(93), true));
    let (_, battery, charging) = bluetooth_view(&DeviceInfo::default(), None, Some(&d));
    assert_eq!((battery, charging), (Some(100), false));
}

#[test]
fn a_new_device_is_asked_for_its_identity_once() {
    assert_eq!(
        ident_queries(),
        vec![
            (DST_DONGLE, SUB_NAME),
            (DST_DONGLE, SUB_VERSION),
            (DST_DONGLE, jabraw::gnp::SUB_SERIAL),
            (DST_HEADSET, SUB_NAME),
            (DST_HEADSET, SUB_VERSION),
            (DST_HEADSET, jabraw::gnp::SUB_SERIAL),
        ]
    );
}

#[test]
fn the_tray_names_the_headset_before_the_dongle() {
    let some = |s: &str| Some(s.to_string());
    assert_eq!(shown_device(&some("Evolve2"), &some("Link 380"), &None).as_deref(), Some("Evolve2"));
    assert_eq!(shown_device(&None, &some("Link 380"), &some("BT")).as_deref(), Some("Link 380"));
    assert_eq!(shown_device(&None, &None, &some("BT")).as_deref(), Some("BT"));
    assert_eq!(shown_device(&None, &None, &None), None);
}

fn candidate(path: &str, connected: bool, paired: bool, modalias: Option<&str>, alias: Option<&str>) -> jabraw::bluetooth::BtCandidate {
    jabraw::bluetooth::BtCandidate {
        path: path.to_string(),
        connected: Some(connected),
        paired: Some(paired),
        modalias: modalias.map(|m| m.to_string()),
        alias: alias.map(|a| a.to_string()),
        battery: Some(70),
    }
}

#[test]
fn the_first_connected_paired_jabra_is_the_headset() {
    let cs = vec![
        candidate("/a", true, true, Some("bluetooth:v004Cp0001"), Some("Phone")),
        candidate("/b", true, false, Some("bluetooth:v0067p24B3"), Some("Unpaired")),
        candidate("/c", true, true, Some("bluetooth:v0067p24B3d0100"), None),
        candidate("/d", true, true, Some("bluetooth:v0067p24B3"), Some("Second")),
    ];
    let d = jabraw::bluetooth::first_jabra(cs).unwrap();
    assert_eq!((d.name.as_str(), d.path.as_str(), d.battery), ("Jabra", "/c", Some(70)));
    let none = vec![candidate("/x", false, true, Some("bluetooth:v0067"), None)];
    assert!(jabraw::bluetooth::first_jabra(none).is_none());
    assert!(jabraw::bluetooth::first_jabra(vec![]).is_none());
}

#[test]
fn each_tick_plans_its_polls() {
    let p = jabraw::daemon::tick_plan(0, true);
    assert!(p.battery && p.bluetooth && !p.sinks);
    let p = jabraw::daemon::tick_plan(9, true);
    assert!(!p.battery && !p.bluetooth && p.sinks);
    assert!(jabraw::daemon::tick_plan(3, false).sinks);
    assert!(jabraw::daemon::tick_plan(30, true).battery);
    assert!(jabraw::daemon::tick_plan(u32::MAX, true).sinks);
}

#[test]
fn an_unanswered_request_is_silence_unless_the_link_died() {
    assert!(matches!(Reply::unanswered(true), Reply::Dead));
    assert!(matches!(Reply::unanswered(false), Reply::Silent));
}
