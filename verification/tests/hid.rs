use jabraw::hid::{action_for, bit_name, clean, is_jabra, payload_bits, rising_actions, shown_name, uevent_name, vendor_of, Action};

#[test]
fn control_characters_leave_the_name() {
    assert_eq!(clean(" Jabra\u{7}\nLink 380 "), "JabraLink 380");
}

#[test]
fn the_first_four_payload_bytes_are_the_bit_field() {
    assert_eq!(payload_bits(&[0x01, 0x02, 0, 0, 0x01]), 0x0100_0002);
}

#[test]
fn short_reports_give_fewer_bits() {
    assert_eq!(payload_bits(&[0x01]), 0);
    assert_eq!(payload_bits(&[]), 0);
    assert_eq!(payload_bits(&[0x01, 0x00, 0x06]), 0x0600);
    assert_eq!(payload_bits(&[0x01, 1, 2, 3, 4, 5, 6]), 0x0403_0201);
}

#[test]
fn play_and_pause_both_toggle() {
    assert!(matches!(action_for(1, 9), Some(Action::Mpris("PlayPause"))));
    assert!(matches!(action_for(1, 10), Some(Action::Mpris("PlayPause"))));
    assert!(action_for(1, 1).is_none());
    assert!(action_for(2, 2).is_none());
}

#[test]
fn bits_have_names() {
    assert_eq!(bit_name(1, 9), "Pause");
    assert_eq!(bit_name(4, 3), "Line (Streamstatus, vendor)");
    assert_eq!(bit_name(3, 0), "?");
}

#[test]
fn only_a_rising_edge_acts() {
    let pause = 1u32 << 9;
    assert_eq!(rising_actions(1, 0, pause), vec!["PlayPause"]);
    // Held: the same state again does nothing.
    assert!(rising_actions(1, pause, pause).is_empty());
    // Released: a falling edge does nothing.
    assert!(rising_actions(1, pause, 0).is_empty());
    // Volume bits are the desktop's.
    assert!(rising_actions(1, 0, 0b11).is_empty());
    assert!(rising_actions(2, 0, pause).is_empty());
}

#[test]
fn the_vendor_comes_from_hid_id() {
    let uevent = "DRIVER=hid-generic\nHID_ID=0003:00000B0E:000024C8\nHID_NAME=GN Audio A/S Jabra Link 380\n";
    assert!(is_jabra(uevent));
    assert_eq!(uevent_name(uevent).as_deref(), Some("GN Audio A/S Jabra Link 380"));
    assert!(!is_jabra("HID_ID=0003:0000046D:0000C52B\n"));
    assert!(!is_jabra("HID_NAME=x\n"));
    assert_eq!(vendor_of("0003:+b0e"), Some(0x0b0e));
    assert_eq!(vendor_of("0003: 0B0E :1"), Some(0x0b0e));
    assert_eq!(vendor_of("0003"), None);
    assert_eq!(vendor_of("0003::1"), None);
    assert_eq!(vendor_of("0003:1FFFFFFFF:1"), None);
}

#[test]
fn a_device_without_name_is_jabra() {
    assert_eq!(shown_name("HID_ID=0003:00000B0E:1\r\n"), "Jabra");
    assert_eq!(shown_name("HID_NAME= Evolve2\u{1b} 65 \r\n"), "Evolve2 65");
    assert_eq!(uevent_name("HID_ID=1"), None);
}

#[test]
fn key_states_remember_per_node_and_report() {
    let mut keys = jabraw::hid::KeyStates::new();
    assert_eq!(keys.swap("/dev/hidraw1", 1, 1 << 9), 0);
    assert_eq!(keys.swap("/dev/hidraw1", 2, 7), 0);
    assert_eq!(keys.swap("/dev/hidraw2", 1, 3), 0);
    assert_eq!(keys.swap("/dev/hidraw1", 1, 0), 1 << 9);
    keys.forget("/dev/hidraw1");
    assert_eq!(keys.swap("/dev/hidraw1", 2, 1), 0);
    assert_eq!(keys.swap("/dev/hidraw2", 1, 0), 3);
}
