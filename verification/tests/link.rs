use jabraw::bluetooth::BtDevice;
use jabraw::daemon::BtWork;
use jabraw::link::{BtEvent, BtLink, BtStep};

const PATH: &str = "/org/bluez/hci0/dev_50_C2_ED_00_00_01";

fn headset(path: &str, battery: Option<u8>) -> BtDevice {
    BtDevice { name: "Evolve2 65".to_string(), battery, path: path.to_string() }
}

fn connect_path(step: BtStep<u32>) -> Option<String> {
    match step {
        BtStep::Connect(p) => Some(p),
        _ => None,
    }
}

fn run(step: BtStep<u32>) -> Option<(u32, BtWork, String)> {
    match step {
        BtStep::Run(s, w, p) => Some((s, w, p)),
        _ => None,
    }
}

#[test]
fn a_session_asks_the_identity_once_and_then_the_charge() {
    let mut link: BtLink<u32> = BtLink::new();
    link.scan(Some(headset(PATH, Some(100))), 0);
    assert_eq!(connect_path(link.step(true, 0)).as_deref(), Some(PATH));
    // While the attempt runs nothing else starts.
    assert!(matches!(link.step(true, 1), BtStep::Idle));
    assert!(link.active());
    assert!(link.on_result(PATH, Some(7), BtEvent::Connected, 1));

    let (s, w, p) = run(link.step(false, 2)).unwrap();
    assert_eq!((s, w, p.as_str()), (7, BtWork::Ident, PATH));
    let name = Some(vec![7, b'E', b'v', b'o', b'l', b'v', b'e', b'2']);
    let event = BtEvent::Ident { name, version: Some(vec![5, b'1', b'.', b'2', b'.', b'3']), serial: None };
    assert!(link.on_result(PATH, Some(s), event, 2));

    // Identity done: only the slow ticks read the charge.
    assert!(matches!(link.step(false, 3), BtStep::Idle));
    let (s, w, _) = run(link.step(true, 5)).unwrap();
    assert_eq!(w, BtWork::Battery);
    assert!(link.on_result(PATH, Some(s), BtEvent::Battery(Some(vec![0x01, 93])), 5));

    let (info, level, charging) = link.shown();
    assert_eq!(info.headset_name.as_deref(), Some("Evolve2"));
    assert_eq!(info.headset_version.as_deref(), Some("1.2.3"));
    assert_eq!(info.headset_serial, None);
    assert_eq!((level, charging), (Some(93), true));
}

#[test]
fn without_a_session_figure_bluez_speaks() {
    let mut link: BtLink<u32> = BtLink::new();
    link.scan(Some(headset(PATH, Some(100))), 0);
    let (info, level, charging) = link.shown();
    assert_eq!(info.headset_name.as_deref(), Some("Evolve2 65"));
    assert_eq!((level, charging), (Some(100), false));
    assert_eq!(link.device_name().as_deref(), Some("Evolve2 65"));
}

#[test]
fn failed_attempts_back_off_up_to_five_minutes() {
    let mut link: BtLink<u32> = BtLink::new();
    link.scan(Some(headset(PATH, None)), 0);
    let mut tick = 0u32;
    let mut gaps = Vec::new();
    for _ in 0..8 {
        // Find the tick the next attempt is due on.
        let mut t = tick;
        let p = loop {
            if let Some(p) = connect_path(link.step(false, t)) {
                break p;
            }
            t += 1;
        };
        gaps.push(t - tick);
        assert!(link.on_result(&p, None, BtEvent::Connected, t));
        tick = t;
    }
    assert_eq!(gaps, vec![0, 10, 20, 40, 80, 150, 150, 150]);
}

#[test]
fn an_answer_for_another_device_is_dropped() {
    let mut link: BtLink<u32> = BtLink::new();
    link.scan(Some(headset(PATH, None)), 0);
    let _ = link.step(true, 0);
    assert!(!link.on_result("/org/bluez/hci0/dev_other", Some(1), BtEvent::Connected, 0));
    // Nothing holds the session now, and none came back.
    assert!(!link.active());
    assert!(link.take_for_job().is_none());
}

#[test]
fn another_headset_starts_from_nothing() {
    let mut link: BtLink<u32> = BtLink::new();
    link.scan(Some(headset(PATH, None)), 0);
    let _ = link.step(true, 0);
    assert!(link.on_result(PATH, Some(3), BtEvent::Connected, 0));
    let (s, _, _) = run(link.step(true, 1)).unwrap();
    let name = Some(vec![3, b'O', b'n', b'e']);
    assert!(link.on_result(PATH, Some(s), BtEvent::Ident { name, version: None, serial: None }, 1));
    assert_eq!(link.shown().0.headset_name.as_deref(), Some("One"));

    link.scan(Some(headset("/org/bluez/hci0/dev_other", None)), 2);
    assert!(!link.active());
    assert_eq!(link.shown().0.headset_name.as_deref(), Some("Evolve2 65"));
    // The first attempt on the new device is due at once.
    assert_eq!(connect_path(link.step(false, 2)).as_deref(), Some("/org/bluez/hci0/dev_other"));
}

#[test]
fn a_dialog_gets_the_session_only_while_it_is_free() {
    let mut link: BtLink<u32> = BtLink::new();
    assert!(link.take_for_job().is_none());
    link.scan(Some(headset(PATH, None)), 0);
    let _ = link.step(true, 0);
    assert!(link.on_result(PATH, Some(9), BtEvent::Connected, 0));
    let (s, p) = link.take_for_job().unwrap();
    assert_eq!((s, p.as_str()), (9, PATH));
    assert!(link.take_for_job().is_none());
    assert!(matches!(link.step(true, 1), BtStep::Idle));
    assert!(link.on_result(PATH, Some(s), BtEvent::Other, 1));
    assert!(link.take_for_job().is_some());
}

#[test]
fn losing_the_device_forgets_the_session() {
    let mut link: BtLink<u32> = BtLink::new();
    link.scan(Some(headset(PATH, Some(50))), 0);
    let _ = link.step(true, 0);
    assert!(link.on_result(PATH, Some(1), BtEvent::Connected, 0));
    link.scan(None, 5);
    assert!(matches!(link.step(true, 5), BtStep::Idle));
    assert!(!link.active());
    let (info, level, _) = link.shown();
    assert!(info.headset_name.is_none() && level.is_none());
}

#[test]
fn a_dongle_hides_the_bluetooth_device() {
    let mut link: BtLink<u32> = BtLink::new();
    link.scan(Some(headset(PATH, Some(40))), 0);
    link.forget_device();
    assert!(link.device_name().is_none());
    // Without a device the next round forgets the session too.
    assert!(matches!(link.step(false, 1), BtStep::Idle));
    assert!(link.shown().1.is_none());
}
