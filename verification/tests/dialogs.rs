use jabraw::config::{settings, Choice, Kind};
use jabraw::display::{escape_markup, format_value, one_line, told_about, write_outcome, about, device_info_text, status_body};
use jabraw::mpris::PlayerInfo;
use jabraw::daemon::DeviceInfo;
use jabraw::gnp::Ack;

#[test]
fn a_choice_without_names_keeps_its_number() {
    let none: &[Choice] = &[];
    assert_eq!(format_value(Kind::Choice, none, Some(0), &[0], false), "0");
    assert_ne!(format_value(Kind::Switch, none, Some(0), &[0], false), "0");
}

#[test]
fn a_named_value_wins_over_both() {
    // soundMode 0 is Normal, not off and not "0".
    let table = settings();
    let d = table.iter().find(|d| d.name == "soundMode").unwrap();
    assert_eq!(
        format_value(d.kind, d.values, Some(0), &[0], false),
        d.values[0].label(false)
    );
    // A byte the table does not name falls back to the number.
    assert_eq!(format_value(d.kind, d.values, Some(9), &[9], false), "9");
}

#[test]
fn the_settings_the_model_files_cover_are_marked() {
    let table = settings();
    let by_name = |n| table.iter().find(|d| d.name == n).unwrap();
    assert!(by_name("soundMode").kind == Kind::Choice);
    assert!(by_name("hsRinger").kind == Kind::Switch);
}

#[test]
fn what_a_dialog_parses_as_markup_is_escaped() {
    assert_eq!(
        escape_markup("Jabra & <b>Evolve</b>"),
        "Jabra &amp; &lt;b&gt;Evolve&lt;/b&gt;"
    );
}

#[test]
fn a_switch_reads_as_off_and_on() {
    let none: &[Choice] = &[];
    assert_eq!(format_value(Kind::Switch, none, Some(0), &[0], false), "off");
    assert_eq!(format_value(Kind::Switch, none, Some(1), &[1], true), "ein");
    assert_eq!(format_value(Kind::Switch, none, Some(7), &[7], false), "7");
    assert_eq!(format_value(Kind::Switch, none, None, &[], false), "—");
    assert_eq!(format_value(Kind::Switch, none, None, &[0x0a, 0xff, 0], false), "0a ff 00");
    assert_eq!(format_value(Kind::Choice, none, None, &[200], false), "200");
}

#[test]
fn a_change_is_told_by_name_or_number() {
    let table = settings();
    let d = table.iter().find(|d| d.name == "soundMode").unwrap();
    assert_eq!(told_about(d, 2, false), "Sound mode set to Treble");
    assert_eq!(told_about(d, 2, true), "Klangmodus gesetzt auf Höhen");
    assert_eq!(told_about(d, 42, false), "Sound mode set to 42");
}

#[test]
fn a_write_report_says_what_came_back() {
    assert_eq!(write_outcome("X set to Y", Some(Ack::Accepted), false), "X set to Y");
    assert_eq!(
        write_outcome("X set to Y", Some(Ack::Nak(0x23)), false),
        "X set to Y: The device refused the change (0x23)"
    );
    assert_eq!(
        write_outcome("X set to Y", None, false),
        "X set to Y: The device did not answer"
    );
}

#[test]
fn the_information_dialog_lists_what_is_known() {
    let info = DeviceInfo {
        headset_name: Some("Evolve2 65".to_string()),
        headset_version: Some("2.9.2".to_string()),
        dongle_name: Some("Link 380".to_string()),
        ..Default::default()
    };
    let text = device_info_text(&info, Some(58), true, false);
    assert_eq!(
        text,
        "Headset\n  Model: Evolve2 65\n  Firmware: 2.9.2\n  Battery: 58 % (charging)\n\nDongle\n  Model: Link 380\n"
    );
    let bt = DeviceInfo { headset_name: Some("Evolve".to_string()), ..Default::default() };
    assert_eq!(
        device_info_text(&bt, None, false, false),
        "Headset\n  Model: Evolve\n\nConnected over Bluetooth.\n"
    );
    assert_eq!(one_line("a\nb"), "a · b");
}

#[test]
fn the_footer_names_holder_and_licence() {
    assert_eq!(
        about("1.2.3", " Jane Doe <jane@example.org>", "GPL-3.0-or-later", "https://example.org/jabraw"),
        "\nJabraw 1.2.3\n© 2026 Jane Doe · GPL-3.0-or-later\nhttps://example.org/jabraw\n"
    );
}

#[test]
fn the_status_notification_has_a_line_for_each_part() {
    let player = PlayerInfo {
        bus: "org.mpris.MediaPlayer2.mpv".to_string(),
        identity: "mpv".to_string(),
        status: "Paused".to_string(),
        track: None,
    };
    let body = status_body(Some("Jabra Link 380"), 65, false, 0, true, Some(&player), false);
    assert_eq!(
        body,
        "Jabra Link 380: connected\nSpeaker: 65 %\nMicrophone: 0 % (muted)\nmpv: Paused"
    );
    let none = status_body(None, -3, false, 100, false, None, false);
    assert_eq!(none.lines().count(), 3);
    assert!(none.contains(": -3 %"));
}

#[test]
fn an_entity_in_the_input_is_escaped_once_more() {
    assert_eq!(escape_markup("&lt;"), "&amp;lt;");
    assert_eq!(escape_markup("a&b<c>d"), "a&amp;b&lt;c&gt;d");
}
