//! The tray menu as a StatusNotifierItem: the requests it raises and the
//! texts it shows.
use vstd::prelude::*;
use vstd::string::StringExecFns;

use crate::display::texts;
use crate::i18n::strings;
use crate::audio::Sink;
use crate::daemon::opt_view;
use crate::mpris::PlayerInfo;
use crate::textual::{decimal, decimal_u8, owned, signed_decimal, signed_text, text_eq};

verus! {

/// A setting the form asks to change.
#[derive(Clone, Copy, Debug)]
pub struct Change {
    pub name: &'static str,
    pub dst: u8,
    pub raw: u8,
}

/// Requests raised from the menu. The callbacks run in the tray task and must
/// not block, so the actual work is handed to the main loop.
pub enum Cmd {
    PlayPause,
    Previous,
    Next,
    ToggleSinkMute,
    ToggleSourceMute,
    Volume(i32),
    ShowInfo,
    ShowSettings,
    ShowEditor,
    Refresh,
    SetSink(u32),
    SetSettings(Vec<Change>),
    Quit,
}

/// The charge level with its unit, and the charging note while charging.
pub open spec fn spec_battery_text(level: u8, charging: bool, german: bool) -> Seq<char> {
    decimal(level as nat) + " %"@ + if charging {
        " ("@ + texts(german).charging_suffix@ + ")"@
    } else {
        Seq::empty()
    }
}

pub fn battery_text(level: u8, charging: bool, german: bool) -> (r: String)
    ensures
        r@ == spec_battery_text(level, charging, german),
{
    let mut r = decimal_u8(level);
    r.append(" %");
    if charging {
        let s = strings(german);
        r.append(" (");
        r.append(s.charging_suffix);
        r.append(")");
    }
    r
}

/// The tooltip title: device and charge, the device alone, or that there is
/// none.
pub open spec fn spec_title(device: Option<Seq<char>>, battery: Option<u8>, charging: bool, german: bool) -> Seq<char> {
    match device {
        Some(d) => match battery {
            Some(p) => d + " — "@ + spec_battery_text(p, charging, german),
            None => d,
        },
        None => texts(german).no_device@,
    }
}

pub fn title(device: Option<&str>, battery: Option<u8>, charging: bool, german: bool) -> (r: String)
    ensures
        r@ == spec_title(
            match device {
                Some(d) => Some(d@),
                None => None,
            },
            battery,
            charging,
            german,
        ),
{
    match device {
        Some(d) => match battery {
            Some(p) => {
                let mut r = owned(d);
                r.append(" — ");
                let b = battery_text(p, charging, german);
                r.append(b.as_str());
                r
            },
            None => owned(d),
        },
        None => owned(strings(german).no_device),
    }
}

/// The first, inactive line of the menu: device and charge, the device as
/// connected, or that nothing is.
pub open spec fn spec_header(device: Option<Seq<char>>, battery: Option<u8>, charging: bool, german: bool) -> Seq<char> {
    match device {
        Some(d) => match battery {
            Some(p) => d + " — "@ + texts(german).battery@ + " "@ + spec_battery_text(
                p,
                charging,
                german,
            ),
            None => d + " — "@ + texts(german).connected@,
        },
        None => texts(german).not_connected@,
    }
}

pub fn header(device: Option<&str>, battery: Option<u8>, charging: bool, german: bool) -> (r: String)
    ensures
        r@ == spec_header(
            match device {
                Some(d) => Some(d@),
                None => None,
            },
            battery,
            charging,
            german,
        ),
{
    let s = strings(german);
    match device {
        Some(d) => {
            let mut r = owned(d);
            r.append(" — ");
            match battery {
                Some(p) => {
                    r.append(s.battery);
                    r.append(" ");
                    let b = battery_text(p, charging, german);
                    r.append(b.as_str());
                },
                None => r.append(s.connected),
            }
            r
        },
        None => owned(s.not_connected),
    }
}

/// The player line: its name, and the track where one is known.
pub fn player_line(identity: &str, track: Option<&str>) -> (r: String)
    ensures
        r@ == (match track {
            Some(t) => identity@ + " — "@ + t@,
            None => identity@,
        }),
{
    let mut r = owned(identity);
    if let Some(t) = track {
        r.append(" — ");
        r.append(t);
    }
    r
}

/// The play entry offers to pause while the player plays, and to play
/// otherwise.
pub fn play_label(status: &str, german: bool) -> (r: &'static str)
    ensures
        r == (if status@ == "Playing"@ {
            texts(german).pause
        } else {
            texts(german).play
        }),
{
    let s = strings(german);
    if text_eq(status, "Playing") {
        s.pause
    } else {
        s.play
    }
}

/// What a menu entry raises when it is chosen.
#[derive(Clone, Copy, PartialEq, Eq, Structural, Debug)]
pub enum Act {
    PlayPause,
    Previous,
    Next,
    ToggleSinkMute,
    ToggleSourceMute,
    Louder,
    Quieter,
    ShowInfo,
    ShowSettings,
    Quit,
}

/// The request an entry raises: the volume entries step by five points.
pub fn command(act: Act) -> (r: Cmd)
    ensures
        match act {
            Act::PlayPause => r is PlayPause,
            Act::Previous => r is Previous,
            Act::Next => r is Next,
            Act::ToggleSinkMute => r is ToggleSinkMute,
            Act::ToggleSourceMute => r is ToggleSourceMute,
            Act::Louder => r matches Cmd::Volume(d) && d == 5,
            Act::Quieter => r matches Cmd::Volume(d) && d == -5,
            Act::ShowInfo => r is ShowInfo,
            Act::ShowSettings => r is ShowSettings,
            Act::Quit => r is Quit,
        },
{
    match act {
        Act::PlayPause => Cmd::PlayPause,
        Act::Previous => Cmd::Previous,
        Act::Next => Cmd::Next,
        Act::ToggleSinkMute => Cmd::ToggleSinkMute,
        Act::ToggleSourceMute => Cmd::ToggleSourceMute,
        Act::Louder => Cmd::Volume(5),
        Act::Quieter => Cmd::Volume(-5),
        Act::ShowInfo => Cmd::ShowInfo,
        Act::ShowSettings => Cmd::ShowSettings,
        Act::Quit => Cmd::Quit,
    }
}

/// One entry of the tray menu.
pub enum Entry {
    /// A line that shows something and does nothing.
    Note(String),
    /// An entry that raises `act` when chosen, where it is enabled.
    Action { label: String, enabled: bool, act: Act },
    /// An entry with a check mark.
    Check { label: String, checked: bool, act: Act },
    /// The output devices, one radio item each, `selected` marked.
    Sinks { label: String, enabled: bool, options: Vec<String>, selected: usize },
    Separator,
}

pub enum EntryView {
    Note(Seq<char>),
    Action { label: Seq<char>, enabled: bool, act: Act },
    Check { label: Seq<char>, checked: bool, act: Act },
    Sinks { label: Seq<char>, enabled: bool, options: Seq<Seq<char>>, selected: int },
    Separator,
}

pub open spec fn entry_view(e: Entry) -> EntryView {
    match e {
        Entry::Note(l) => EntryView::Note(l@),
        Entry::Action { label, enabled, act } => EntryView::Action { label: label@, enabled, act },
        Entry::Check { label, checked, act } => EntryView::Check { label: label@, checked, act },
        Entry::Sinks { label, enabled, options, selected } => EntryView::Sinks {
            label: label@,
            enabled,
            options: options@.map_values(|o: String| o@),
            selected: selected as int,
        },
        Entry::Separator => EntryView::Separator,
    }
}

/// The first output device marked as default, from `i` on; the first one
/// where none is.
pub open spec fn default_from(sinks: Seq<Sink>, i: int) -> int
    decreases sinks.len() - i,
{
    if i >= sinks.len() {
        0
    } else if sinks[i].is_default {
        i
    } else {
        default_from(sinks, i + 1)
    }
}

/// A mute entry: its label with the level in whole percent.
pub open spec fn mute_label(label: Seq<char>, percent: int) -> Seq<char> {
    label + " ("@ + signed_decimal(percent) + "%)"@
}

/// The menu: the device line; the player with its controls, or that there is
/// none; mute and volume for speaker and microphone; the output devices;
/// device information, and the settings overview, which needs a GNP channel;
/// and quit.
pub open spec fn spec_menu(
    device: Option<Seq<char>>,
    battery: Option<u8>,
    charging: bool,
    player: Option<PlayerInfo>,
    sink_percent: int,
    sink_muted: bool,
    source_percent: int,
    source_muted: bool,
    sinks: Seq<Sink>,
    has_gnp: bool,
    german: bool,
) -> Seq<EntryView> {
    let s = texts(german);
    let head = seq![
        EntryView::Note(spec_header(device, battery, charging, german)),
        EntryView::Separator,
    ];
    let playing = match player {
        Some(p) => seq![
            EntryView::Note(
                match opt_view(p.track) {
                    Some(t) => p.identity@ + " — "@ + t,
                    None => p.identity@,
                },
            ),
            EntryView::Action {
                label: if p.status@ == "Playing"@ {
                    s.pause@
                } else {
                    s.play@
                },
                enabled: true,
                act: Act::PlayPause,
            },
            EntryView::Action { label: s.previous@, enabled: true, act: Act::Previous },
            EntryView::Action { label: s.next@, enabled: true, act: Act::Next },
        ],
        None => seq![EntryView::Note(s.no_player@)],
    };
    let rest = seq![
        EntryView::Separator,
        EntryView::Check {
            label: mute_label(s.speaker_muted@, sink_percent),
            checked: sink_muted,
            act: Act::ToggleSinkMute,
        },
        EntryView::Action { label: s.louder@, enabled: true, act: Act::Louder },
        EntryView::Action { label: s.quieter@, enabled: true, act: Act::Quieter },
        EntryView::Check {
            label: mute_label(s.mic_muted@, source_percent),
            checked: source_muted,
            act: Act::ToggleSourceMute,
        },
        EntryView::Separator,
        EntryView::Sinks {
            label: s.output_device@,
            enabled: sinks.len() > 0,
            options: sinks.map_values(|x: Sink| x.description@),
            selected: default_from(sinks, 0),
        },
        EntryView::Separator,
        EntryView::Action { label: s.device_info@, enabled: device is Some, act: Act::ShowInfo },
        EntryView::Action { label: s.settings@, enabled: has_gnp, act: Act::ShowSettings },
        EntryView::Separator,
        EntryView::Action { label: s.quit@, enabled: true, act: Act::Quit },
    ];
    head + playing + rest
}

fn mute_entry(label: &str, percent: i32, checked: bool, act: Act) -> (r: Entry)
    ensures
        entry_view(r) == (EntryView::Check { label: mute_label(label@, percent as int), checked, act }),
{
    let level = signed_text(percent);
    let mut l = owned(label);
    l.append(" (");
    l.append(level.as_str());
    l.append("%)");
    Entry::Check { label: l, checked, act }
}

fn sinks_entry(label: &str, sinks: &Vec<Sink>) -> (r: Entry)
    ensures
        entry_view(r) == (EntryView::Sinks {
            label: label@,
            enabled: sinks@.len() > 0,
            options: sinks@.map_values(|x: Sink| x.description@),
            selected: default_from(sinks@, 0),
        }),
{
    let mut options: Vec<String> = Vec::new();
    let mut selected: usize = 0;
    let mut found = false;
    let mut i: usize = 0;
    while i < sinks.len()
        invariant
            i <= sinks@.len(),
            options@.map_values(|o: String| o@) == sinks@.take(i as int).map_values(
                |x: Sink| x.description@,
            ),
            found ==> selected < i && sinks@[selected as int].is_default && default_from(sinks@, 0)
                == selected,
            !found ==> selected == 0 && default_from(sinks@, 0) == default_from(sinks@, i as int),
        decreases sinks@.len() - i,
    {
        if !found && sinks[i].is_default {
            found = true;
            selected = i;
        }
        let ghost before = options@;
        let d = sinks[i].description.clone();
        assert(d@ == sinks@[i as int].description@);
        options.push(d);
        assert(options@ == before.push(d));
        let ghost lhs = options@.map_values(|o: String| o@);
        let ghost rhs = sinks@.take(i + 1).map_values(|x: Sink| x.description@);
        let ghost prev = before.map_values(|o: String| o@);
        let ghost prev_r = sinks@.take(i as int).map_values(|x: Sink| x.description@);
        assert(prev == prev_r);
        assert(prev.len() == i);
        assert(lhs.len() == i + 1);
        assert(rhs.len() == i + 1);
        assert(lhs[i as int] == rhs[i as int]);
        assert forall|j: int| 0 <= j < i + 1 implies lhs[j] == rhs[j] by {
            if j < i {
                assert(prev[j] == prev_r[j]);
            }
        }
        assert(lhs =~= rhs);
        i = i + 1;
    }
    assert(sinks@.take(sinks@.len() as int) =~= sinks@);
    Entry::Sinks { label: owned(label), enabled: sinks.len() > 0, options, selected }
}

fn action(label: &str, enabled: bool, act: Act) -> (r: Entry)
    ensures
        entry_view(r) == (EntryView::Action { label: label@, enabled, act }),
{
    Entry::Action { label: owned(label), enabled, act }
}

/// The entries of the tray menu, in order. The levels are in whole percent.
pub fn menu(
    device: Option<&str>,
    battery: Option<u8>,
    charging: bool,
    player: Option<&PlayerInfo>,
    sink_percent: i32,
    sink_muted: bool,
    source_percent: i32,
    source_muted: bool,
    sinks: &Vec<Sink>,
    has_gnp: bool,
    german: bool,
) -> (r: Vec<Entry>)
    ensures
        r@.map_values(|e: Entry| entry_view(e)) == spec_menu(
            match device {
                Some(d) => Some(d@),
                None => None,
            },
            battery,
            charging,
            match player {
                Some(p) => Some(*p),
                None => None,
            },
            sink_percent as int,
            sink_muted,
            source_percent as int,
            source_muted,
            sinks@,
            has_gnp,
            german,
        ),
{
    let s = strings(german);
    let mut r: Vec<Entry> = Vec::new();
    r.push(Entry::Note(header(device, battery, charging, german)));
    r.push(Entry::Separator);
    match player {
        Some(p) => {
            let track = match &p.track {
                Some(t) => Some(t.as_str()),
                None => None,
            };
            r.push(Entry::Note(player_line(p.identity.as_str(), track)));
            r.push(action(play_label(p.status.as_str(), german), true, Act::PlayPause));
            r.push(action(s.previous, true, Act::Previous));
            r.push(action(s.next, true, Act::Next));
        },
        None => r.push(Entry::Note(owned(s.no_player))),
    }
    r.push(Entry::Separator);
    r.push(mute_entry(s.speaker_muted, sink_percent, sink_muted, Act::ToggleSinkMute));
    r.push(action(s.louder, true, Act::Louder));
    r.push(action(s.quieter, true, Act::Quieter));
    r.push(mute_entry(s.mic_muted, source_percent, source_muted, Act::ToggleSourceMute));
    r.push(Entry::Separator);
    r.push(sinks_entry(s.output_device, sinks));
    r.push(Entry::Separator);
    r.push(action(s.device_info, device.is_some(), Act::ShowInfo));
    r.push(action(s.settings, has_gnp, Act::ShowSettings));
    r.push(Entry::Separator);
    r.push(action(s.quit, true, Act::Quit));
    let ghost want = spec_menu(
        match device {
            Some(d) => Some(d@),
            None => None,
        },
        battery,
        charging,
        match player {
            Some(p) => Some(*p),
            None => None,
        },
        sink_percent as int,
        sink_muted,
        source_percent as int,
        source_muted,
        sinks@,
        has_gnp,
        german,
    );
    assert(r@.map_values(|e: Entry| entry_view(e)) =~= want);
    r
}

/// The output device the radio item at `index` stands for.
pub fn chosen_sink(sinks: &Vec<Sink>, index: usize) -> (r: Option<u32>)
    ensures
        r == (if index < sinks@.len() {
            Some(sinks@[index as int].id)
        } else {
            None
        }),
{
    if index < sinks.len() {
        Some(sinks[index].id)
    } else {
        None
    }
}

/// The labels the volume entries carry differ from every other entry's.
proof fn lemma_volume_labels(german: bool)
    ensures
        ({
            let s = texts(german);
            &&& s.louder@ != s.quieter@
            &&& s.louder@ != s.play@ && s.louder@ != s.pause@ && s.louder@ != s.previous@
            &&& s.louder@ != s.next@ && s.louder@ != s.device_info@ && s.louder@ != s.settings@
            &&& s.louder@ != s.quit@
            &&& s.quieter@ != s.play@ && s.quieter@ != s.pause@ && s.quieter@ != s.previous@
            &&& s.quieter@ != s.next@ && s.quieter@ != s.device_info@ && s.quieter@ != s.settings@
            &&& s.quieter@ != s.quit@
        }),
{
    reveal_strlit("Louder");
    assert("Louder"@.len() == 6);
    reveal_strlit("Quieter");
    assert("Quieter"@.len() == 7);
    reveal_strlit("Play");
    assert("Play"@.len() == 4);
    reveal_strlit("Pause");
    assert("Pause"@.len() == 5);
    reveal_strlit("Previous track");
    assert("Previous track"@.len() == 14);
    reveal_strlit("Next track");
    assert("Next track"@.len() == 10);
    reveal_strlit("Device information …");
    assert("Device information …"@.len() == 20);
    reveal_strlit("Device settings …");
    assert("Device settings …"@.len() == 17);
    reveal_strlit("Quit");
    assert("Quit"@.len() == 4);
    reveal_strlit("Lauter");
    assert("Lauter"@.len() == 6);
    reveal_strlit("Leiser");
    assert("Leiser"@.len() == 6);
    reveal_strlit("Wiedergabe");
    assert("Wiedergabe"@.len() == 10);
    reveal_strlit("Pause");
    assert("Pause"@.len() == 5);
    reveal_strlit("Vorheriger Titel");
    assert("Vorheriger Titel"@.len() == 16);
    reveal_strlit("Nächster Titel");
    assert("Nächster Titel"@.len() == 14);
    reveal_strlit("Geräteinformationen …");
    assert("Geräteinformationen …"@.len() == 21);
    reveal_strlit("Geräteeinstellungen …");
    assert("Geräteeinstellungen …"@.len() == 21);
    reveal_strlit("Beenden");
    assert("Beenden"@.len() == 7);
    assert("Lauter"@[1] == 'a');
    assert("Leiser"@[1] == 'e');
}

/// Law: the entry labelled louder raises the volume and the one labelled
/// quieter lowers it. Both are in the menu, enabled, and no entry with either
/// label raises anything else.
pub proof fn law_volume_entries(
    device: Option<Seq<char>>,
    battery: Option<u8>,
    charging: bool,
    player: Option<PlayerInfo>,
    sink_percent: int,
    sink_muted: bool,
    source_percent: int,
    source_muted: bool,
    sinks: Seq<Sink>,
    has_gnp: bool,
    german: bool,
)
    ensures
        ({
            let m = spec_menu(
                device,
                battery,
                charging,
                player,
                sink_percent,
                sink_muted,
                source_percent,
                source_muted,
                sinks,
                has_gnp,
                german,
            );
            let s = texts(german);
            &&& forall|i: int|
                0 <= i < m.len() ==> (#[trigger] m[i] matches EntryView::Action { label, act, .. }
                    ==> (label == s.louder@ ==> act == Act::Louder))
            &&& forall|i: int|
                0 <= i < m.len() ==> (#[trigger] m[i] matches EntryView::Action { label, act, .. }
                    ==> (label == s.quieter@ ==> act == Act::Quieter))
            &&& exists|i: int|
                0 <= i < m.len() && #[trigger] m[i] == (EntryView::Action {
                    label: s.louder@,
                    enabled: true,
                    act: Act::Louder,
                })
            &&& exists|i: int|
                0 <= i < m.len() && #[trigger] m[i] == (EntryView::Action {
                    label: s.quieter@,
                    enabled: true,
                    act: Act::Quieter,
                })
        }),
{
    let m = spec_menu(
        device,
        battery,
        charging,
        player,
        sink_percent,
        sink_muted,
        source_percent,
        source_muted,
        sinks,
        has_gnp,
        german,
    );
    let s = texts(german);
    lemma_volume_labels(german);
    let o: int = if player is Some {
        3
    } else {
        0
    };
    assert(m.len() == 15 + o);
    assert(m[5 + o] == (EntryView::Action { label: s.louder@, enabled: true, act: Act::Louder }));
    assert(m[6 + o] == (EntryView::Action { label: s.quieter@, enabled: true, act: Act::Quieter }));
}

} // verus!
