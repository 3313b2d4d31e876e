use jabraw::audio::{pactl_muted, pactl_step, sinks_from_dump, sinks_from_json, wpctl_step, PwObject, Target};
use jabraw::bluetooth::is_jabra;
use jabraw::dialog::{changes_from_form, editable, form_args, list_args, settings_lines};
use jabraw::config::from_sweep;
use jabraw::gnp::{DST_DONGLE, DST_HEADSET};
use jabraw::i18n::{german_locale, strings};
use jabraw::mpris::{default_identity, is_player, pick_active, track_text, PlayerInfo};
use jabraw::tray::{battery_text, chosen_sink, command, header, menu, play_label, title, Act, Cmd, Entry};
use jabraw::audio::{pactl_level_text, wpctl_level_text, wpctl_muted, Sink};

fn player(bus: &str, status: &str) -> PlayerInfo {
    PlayerInfo { bus: bus.to_string(), identity: bus.to_string(), status: status.to_string(), track: None }
}

#[test]
fn a_playing_player_wins_and_ties_go_to_the_first() {
    let p = pick_active(vec![player("a", "Stopped"), player("b", "Paused"), player("c", "Playing"), player("d", "Playing")]);
    assert_eq!(p.unwrap().bus, "c");
    let p = pick_active(vec![player("a", "Stopped"), player("b", "Stopped")]);
    assert_eq!(p.unwrap().bus, "a");
    assert!(pick_active(vec![]).is_none());
}

#[test]
fn players_are_named_by_bus_until_they_say_otherwise() {
    assert!(is_player("org.mpris.MediaPlayer2.vlc"));
    assert!(!is_player("org.freedesktop.DBus"));
    assert_eq!(default_identity("org.mpris.MediaPlayer2.spotify"), "spotify");
    assert_eq!(track_text(Some("Song".into()), Some("Band".into())).as_deref(), Some("Band — Song"));
    assert_eq!(track_text(Some("Song".into()), None).as_deref(), Some("Song"));
    assert_eq!(track_text(None, Some("Band".into())), None);
}

#[test]
fn the_locale_decides_the_language() {
    assert!(german_locale(&vec![None, Some("de_DE.UTF-8".into()), Some("en_US".into())]));
    assert!(!german_locale(&vec![Some("".into()), Some("de_DE".into())]));
    assert!(!german_locale(&vec![None, None, None]));
    assert_eq!(strings(true).quit, "Beenden");
    assert_eq!(strings(false).quit, "Quit");
}

#[test]
fn tray_texts() {
    assert_eq!(battery_text(58, true, false), "58 % (charging)");
    assert_eq!(title(Some("Evolve"), Some(7), false, false), "Evolve — 7 %");
    assert_eq!(title(None, Some(7), false, false), "No Jabra device");
    assert_eq!(header(Some("Evolve"), None, false, true), "Evolve — verbunden");
    assert_eq!(play_label("Playing", false), "Pause");
    assert_eq!(play_label("Paused", false), "Play");
}

#[test]
fn volume_steps_for_both_tools() {
    assert_eq!(wpctl_step(5), "5%+");
    assert_eq!(wpctl_step(-5), "5%-");
    assert_eq!(pactl_step(-5), "-5%");
    assert_eq!(pactl_step(10), "+10%");
    assert!(pactl_muted("Mute: yes\n"));
    assert!(!pactl_muted("Mute: no\n"));
    assert_eq!(Target::Source.wpctl(), "@DEFAULT_AUDIO_SOURCE@");
}

fn node(id: u64, class: &str, name: &str, desc: Option<&str>) -> PwObject {
    PwObject {
        kind: Some("PipeWire:Interface:Node".to_string()),
        metadata: vec![],
        id: Some(id),
        media_class: Some(class.to_string()),
        node_name: Some(name.to_string()),
        node_description: desc.map(|d| d.to_string()),
        node_nick: None,
    }
}

#[test]
fn sinks_come_sorted_with_the_default_marked() {
    let meta = PwObject {
        kind: Some("PipeWire:Interface:Metadata".to_string()),
        metadata: vec![
            (Some("default.audio.source".to_string()), Some("mic".to_string())),
            (Some("default.audio.sink".to_string()), Some("jabra".to_string())),
        ],
        id: Some(30),
        media_class: None,
        node_name: None,
        node_description: None,
        node_nick: None,
    };
    let objs = vec![
        node(50, "Audio/Sink", "speakers", Some("Speakers")),
        meta,
        node(51, "Audio/Source", "mic", Some("Mic")),
        node(52, "Audio/Sink", "jabra", Some("Jabra Link 380")),
        node(53, "Audio/Sink", "hdmi", None),
    ];
    let sinks = sinks_from_dump(&objs);
    let names: Vec<&str> = sinks.iter().map(|s| s.description.as_str()).collect();
    assert_eq!(names, vec!["Jabra Link 380", "Speakers", "hdmi"]);
    assert!(sinks[0].is_default && !sinks[1].is_default);
    assert_eq!(sinks[0].id, 52);
}

#[test]
fn a_dump_is_read_from_its_json_text() {
    let json = r#"[
        {"id": 30, "type": "PipeWire:Interface:Metadata",
         "metadata": [{"subject": 0, "key": "default.audio.sink", "type": "Spa:String:JSON",
                       "value": {"name": "jabra"}}]},
        {"id": 50, "type": "PipeWire:Interface:Node",
         "info": {"props": {"media.class": "Audio/Sink", "node.name": "speakers",
                            "node.description": "Speakers"}}},
        {"id": 52, "type": "PipeWire:Interface:Node",
         "info": {"props": {"media.class": "Audio/Sink", "node.name": "jabra",
                            "node.nick": "Link 380"}}},
        {"id": 51, "type": "PipeWire:Interface:Node",
         "info": {"props": {"media.class": "Audio/Source", "node.name": "mic"}}}
    ]"#;
    let sinks = sinks_from_json(json);
    let names: Vec<&str> = sinks.iter().map(|s| s.description.as_str()).collect();
    assert_eq!(names, vec!["Link 380", "Speakers"]);
    assert!(sinks[0].is_default && !sinks[1].is_default);
    assert_eq!((sinks[0].id, sinks[1].id), (52, 50));
}

#[test]
fn a_dump_that_is_no_json_array_lists_nothing() {
    assert!(sinks_from_json("not json").is_empty());
    assert!(sinks_from_json("{\"id\": 1}").is_empty());
    assert!(sinks_from_json("[]").is_empty());
}

#[test]
fn a_jabra_headset_is_found_by_vendor() {
    assert!(is_jabra(Some(true), Some(true), Some("bluetooth:v0067p24B3d0200")));
    assert!(!is_jabra(Some(true), Some(false), Some("bluetooth:v0067p24B3d0200")));
    assert!(!is_jabra(Some(true), Some(true), Some("bluetooth:v004C")));
    assert!(!is_jabra(None, Some(true), Some("bluetooth:v0067")));
}

#[test]
fn the_form_sends_only_what_moved() {
    let rows = vec![
        ("soundMode", vec![0u8]),
        ("anc", vec![1u8]),
        ("muteReminderInterval", vec![20u8]),
        ("boomarmRotationAction", vec![1u8]),
    ];
    let settings = from_sweep(rows, false);
    let labels: Vec<&str> = settings.iter().map(|s| s.label).collect();
    assert_eq!(labels, vec!["Active noise cancellation", "Boom arm rotation", "Mute reminder", "Sound mode"]);
    let ed = editable(&settings);
    // Neither ANC nor the boom arm has value names.
    assert_eq!(ed, vec![2, 3]);
    let args = form_args(&settings, &ed, false);
    assert_eq!(args[2], "--text=Change settings");
    assert_eq!(args[4], "--add-combo=Headset · Mute reminder (now: 20 seconds)");
    assert_eq!(args[5], "--combo-values=leave as it is|Off|10 seconds|20 seconds|30 seconds|40 seconds|50 seconds|60 seconds");
    let changes = changes_from_form(&settings, &ed, " 20 seconds|Treble \n", false);
    assert_eq!(changes.len(), 1);
    assert_eq!((changes[0].name, changes[0].dst, changes[0].raw), ("soundMode", DST_HEADSET, 2));
    assert!(changes_from_form(&settings, &ed, "leave as it is|", false).is_empty());
    let _ = DST_DONGLE;
    let list = list_args(&settings, false);
    assert_eq!(list[2], "--text=Device settings");
    assert_eq!(&list[11..14], &["Headset".to_string(), "Active noise cancellation".to_string(), "on".to_string()]);
    assert_eq!(settings_lines(&settings, false)[3], "Headset Sound mode: Normal");
}

fn label(e: &Entry) -> Option<&str> {
    match e {
        Entry::Note(l) => Some(l),
        Entry::Action { label, .. } | Entry::Check { label, .. } | Entry::Sinks { label, .. } => Some(label),
        Entry::Separator => None,
    }
}

#[test]
fn the_menu_lists_player_levels_devices_and_dialogs() {
    let player = PlayerInfo {
        bus: "org.mpris.MediaPlayer2.spotify".to_string(),
        identity: "Spotify".to_string(),
        status: "Playing".to_string(),
        track: Some("Artist — Song".to_string()),
    };
    let sinks = vec![
        Sink { id: 50, description: "Speakers".to_string(), is_default: false },
        Sink { id: 52, description: "Jabra".to_string(), is_default: true },
    ];
    let m = menu(Some("Evolve2 65"), Some(80), false, Some(&player), 65, false, 40, true, &sinks, false, false);
    let labels: Vec<Option<&str>> = m.iter().map(label).collect();
    assert_eq!(
        labels,
        vec![
            Some("Evolve2 65 — Battery 80 %"),
            None,
            Some("Spotify — Artist — Song"),
            Some("Pause"),
            Some("Previous track"),
            Some("Next track"),
            None,
            Some("Mute speaker (65%)"),
            Some("Louder"),
            Some("Quieter"),
            Some("Mute microphone (40%)"),
            None,
            Some("Output device"),
            None,
            Some("Device information …"),
            Some("Device settings …"),
            None,
            Some("Quit"),
        ]
    );
    assert!(matches!(m[10], Entry::Check { checked: true, act: Act::ToggleSourceMute, .. }));
    match &m[12] {
        Entry::Sinks { enabled, options, selected, .. } => {
            assert!(*enabled);
            assert_eq!(options, &vec!["Speakers".to_string(), "Jabra".to_string()]);
            assert_eq!(*selected, 1);
        }
        _ => panic!("no device list"),
    }
    // Without a GNP channel the settings overview stays greyed out.
    assert!(matches!(m[15], Entry::Action { enabled: false, act: Act::ShowSettings, .. }));
    assert!(matches!(m[14], Entry::Action { enabled: true, act: Act::ShowInfo, .. }));
}

#[test]
fn without_player_or_devices_the_menu_says_so() {
    let m = menu(None, None, false, None, 0, false, 0, false, &vec![], true, false);
    assert_eq!(label(&m[0]), Some("Not connected"));
    assert_eq!(label(&m[2]), Some("No player active"));
    assert_eq!(m.len(), 15);
    match &m[9] {
        Entry::Sinks { enabled, options, selected, .. } => {
            assert!(!*enabled && options.is_empty() && *selected == 0);
        }
        _ => panic!("no device list"),
    }
    assert!(matches!(m[11], Entry::Action { enabled: false, act: Act::ShowInfo, .. }));
    assert!(matches!(m[12], Entry::Action { enabled: true, act: Act::ShowSettings, .. }));
}

#[test]
fn entries_raise_their_requests() {
    assert!(matches!(command(Act::Louder), Cmd::Volume(5)));
    assert!(matches!(command(Act::Quieter), Cmd::Volume(-5)));
    assert!(matches!(command(Act::ShowSettings), Cmd::ShowSettings));
    let sinks = vec![Sink { id: 7, description: "A".to_string(), is_default: false }];
    assert_eq!(chosen_sink(&sinks, 0), Some(7));
    assert_eq!(chosen_sink(&sinks, 1), None);
}

#[test]
fn sinks_with_the_same_name_keep_the_dump_order() {
    let objs = vec![
        node(61, "Audio/Sink", "b", Some("USB Audio")),
        node(40, "Audio/Sink", "a", Some("Speakers")),
        node(60, "Audio/Sink", "c", Some("USB Audio")),
    ];
    let ids: Vec<u32> = sinks_from_dump(&objs).iter().map(|s| s.id).collect();
    assert_eq!(ids, vec![40, 61, 60]);
}

#[test]
fn the_volume_answers_give_their_figures() {
    assert_eq!(wpctl_level_text("Volume: 0.65\n").as_deref(), Some("0.65"));
    assert_eq!(wpctl_level_text("  Volume:\t0.40 [MUTED]").as_deref(), Some("0.40"));
    assert_eq!(wpctl_level_text("Volume:"), None);
    assert_eq!(wpctl_level_text(""), None);
    assert!(wpctl_muted("Volume: 0.40 [MUTED]"));
    assert!(!wpctl_muted("Volume: 0.40"));
    let pa = "Volume: front-left: 42598 /  65% / -11.23 dB,   front-right: 42598 /  65% / -11.23 dB\n";
    assert_eq!(pactl_level_text(pa), "65");
    assert_eq!(pactl_level_text("no figure"), "figure");
}

#[test]
fn a_form_confirmed_as_shown_changes_nothing() {
    let rows = vec![("soundMode", vec![0u8]), ("muteReminderInterval", vec![20u8])];
    let settings = from_sweep(rows, false);
    let ed = editable(&settings);
    assert_eq!(ed.len(), 2);
    assert!(changes_from_form(&settings, &ed, "leave as it is|leave as it is\n", false).is_empty());
    // Picking the value a setting already has is no change either.
    assert!(changes_from_form(&settings, &ed, "20 seconds|Normal", false).is_empty());
}

#[test]
fn only_plainly_read_settings_name_their_values() {
    let named = [
        "intellitoneLevel",
        "soundMode",
        "muteReminderInterval",
        "hsVoicePrompts",
        "sidetoneLevel",
        "inactivityInterval",
        "callAcceptedSound",
    ];
    for d in jabraw::config::settings() {
        assert_eq!(!d.values.is_empty(), named.contains(&d.name), "{}", d.name);
    }
    // A prefixed setting shows its byte as a number and is not offered.
    let settings = from_sweep(vec![("ringerVolume", vec![0u8, 2])], false);
    assert_eq!(settings_lines(&settings, false)[0], "Headset Ringtone volume: 00 02");
    assert!(editable(&settings).is_empty());
}
