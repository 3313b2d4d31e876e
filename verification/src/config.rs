//! Reading device settings through the GNP group `config`.
//!
//! Jabra's SDK knows 212 subcommands, and which of them a device answers
//! depends on the model. The daemon therefore asks a fixed list of known
//! settings and shows what comes back — a headset without ANC simply does not
//! answer `anc`, and that row is missing. This works without model detection.
//!
//! Reading is the normal case. The same subcommands can be written, which
//! changes device settings for good; only a value with a byte of its own is
//! ever written.
//!
//! The byte for each value comes from jabridge (github.com/Watchdog0x/jLink,
//! Apache-2.0), whose table was established against hardware. Only the
//! settings it addresses without a prefix byte or a bit mask are taken over,
//! because those are the ones a plain read returns as a single byte.
use vstd::prelude::*;
use vstd::slice::slice_to_vec;

use crate::gnp::{self, spec_body, spec_parse, spec_report, CMD_CONFIG, TYPE_READ, TYPE_WRITE};
use crate::rfcomm::Collector;
use crate::textual::{lemma_stable_sort_map, sort_by_key, sorted_by_key, stable_sort_of, text_eq, Keyed};

verus! {

/// A value a setting can take, and the byte the device uses for it.
#[derive(Clone, Copy)]
pub struct Choice {
    pub raw: u8,
    pub label: &'static str,
    pub label_de: &'static str,
}

impl Choice {
    /// The name shown for this value, in German or in English.
    pub fn label(&self, german: bool) -> (r: &'static str)
        ensures
            r == (if german {
                self.label_de
            } else {
                self.label
            }),
    {
        if german {
            self.label_de
        } else {
            self.label
        }
    }
}

pub open spec fn spec_audio_protection() -> Seq<Choice> {
    seq![
        Choice { raw: 0, label: "Basic PeakStop", label_de: "Basic PeakStop" },
        Choice { raw: 1, label: "Level 1", label_de: "Stufe 1" },
        Choice { raw: 2, label: "Level 2", label_de: "Stufe 2" },
        Choice { raw: 3, label: "Level 3", label_de: "Stufe 3" },
        Choice { raw: 4, label: "Level 4", label_de: "Stufe 4" },
        Choice { raw: 5, label: "G616", label_de: "G616" },
    ]
}

pub fn audio_protection() -> (r: &'static [Choice])
    ensures
        r@ == spec_audio_protection(),
{
    &[
        Choice { raw: 0, label: "Basic PeakStop", label_de: "Basic PeakStop" },
        Choice { raw: 1, label: "Level 1", label_de: "Stufe 1" },
        Choice { raw: 2, label: "Level 2", label_de: "Stufe 2" },
        Choice { raw: 3, label: "Level 3", label_de: "Stufe 3" },
        Choice { raw: 4, label: "Level 4", label_de: "Stufe 4" },
        Choice { raw: 5, label: "G616", label_de: "G616" },
    ]
}

pub open spec fn spec_sound_mode() -> Seq<Choice> {
    seq![
        Choice { raw: 0, label: "Normal", label_de: "Normal" },
        Choice { raw: 1, label: "Bass", label_de: "Bass" },
        Choice { raw: 2, label: "Treble", label_de: "Höhen" },
    ]
}

pub fn sound_mode() -> (r: &'static [Choice])
    ensures
        r@ == spec_sound_mode(),
{
    &[
        Choice { raw: 0, label: "Normal", label_de: "Normal" },
        Choice { raw: 1, label: "Bass", label_de: "Bass" },
        Choice { raw: 2, label: "Treble", label_de: "Höhen" },
    ]
}

pub open spec fn spec_mute_reminder() -> Seq<Choice> {
    seq![
        Choice { raw: 0, label: "Off", label_de: "Aus" },
        Choice { raw: 10, label: "10 seconds", label_de: "10 Sekunden" },
        Choice { raw: 20, label: "20 seconds", label_de: "20 Sekunden" },
        Choice { raw: 30, label: "30 seconds", label_de: "30 Sekunden" },
        Choice { raw: 40, label: "40 seconds", label_de: "40 Sekunden" },
        Choice { raw: 50, label: "50 seconds", label_de: "50 Sekunden" },
        Choice { raw: 60, label: "60 seconds", label_de: "60 Sekunden" },
    ]
}

pub fn mute_reminder() -> (r: &'static [Choice])
    ensures
        r@ == spec_mute_reminder(),
{
    &[
        Choice { raw: 0, label: "Off", label_de: "Aus" },
        Choice { raw: 10, label: "10 seconds", label_de: "10 Sekunden" },
        Choice { raw: 20, label: "20 seconds", label_de: "20 Sekunden" },
        Choice { raw: 30, label: "30 seconds", label_de: "30 Sekunden" },
        Choice { raw: 40, label: "40 seconds", label_de: "40 Sekunden" },
        Choice { raw: 50, label: "50 seconds", label_de: "50 Sekunden" },
        Choice { raw: 60, label: "60 seconds", label_de: "60 Sekunden" },
    ]
}

pub open spec fn spec_voice_prompts() -> Seq<Choice> {
    seq![
        Choice { raw: 0, label: "Tones", label_de: "Töne" },
        Choice { raw: 1, label: "Voice", label_de: "Sprache" },
        Choice { raw: 2, label: "Off", label_de: "Aus" },
    ]
}

pub fn voice_prompts() -> (r: &'static [Choice])
    ensures
        r@ == spec_voice_prompts(),
{
    &[
        Choice { raw: 0, label: "Tones", label_de: "Töne" },
        Choice { raw: 1, label: "Voice", label_de: "Sprache" },
        Choice { raw: 2, label: "Off", label_de: "Aus" },
    ]
}

pub open spec fn spec_sidetone_level() -> Seq<Choice> {
    seq![
        Choice { raw: 0xf7, label: "-9 dB", label_de: "-9 dB" },
        Choice { raw: 0xfa, label: "-6 dB", label_de: "-6 dB" },
        Choice { raw: 0xfc, label: "-4 dB", label_de: "-4 dB" },
        Choice { raw: 0xfd, label: "-3 dB", label_de: "-3 dB" },
        Choice { raw: 0xfe, label: "-2 dB", label_de: "-2 dB" },
        Choice { raw: 0, label: "0 dB", label_de: "0 dB" },
        Choice { raw: 2, label: "+2 dB", label_de: "+2 dB" },
        Choice { raw: 3, label: "+3 dB", label_de: "+3 dB" },
        Choice { raw: 4, label: "+4 dB", label_de: "+4 dB" },
        Choice { raw: 6, label: "+6 dB", label_de: "+6 dB" },
    ]
}

pub fn sidetone_level() -> (r: &'static [Choice])
    ensures
        r@ == spec_sidetone_level(),
{
    &[
        Choice { raw: 0xf7, label: "-9 dB", label_de: "-9 dB" },
        Choice { raw: 0xfa, label: "-6 dB", label_de: "-6 dB" },
        Choice { raw: 0xfc, label: "-4 dB", label_de: "-4 dB" },
        Choice { raw: 0xfd, label: "-3 dB", label_de: "-3 dB" },
        Choice { raw: 0xfe, label: "-2 dB", label_de: "-2 dB" },
        Choice { raw: 0, label: "0 dB", label_de: "0 dB" },
        Choice { raw: 2, label: "+2 dB", label_de: "+2 dB" },
        Choice { raw: 3, label: "+3 dB", label_de: "+3 dB" },
        Choice { raw: 4, label: "+4 dB", label_de: "+4 dB" },
        Choice { raw: 6, label: "+6 dB", label_de: "+6 dB" },
    ]
}

pub open spec fn spec_auto_sleep() -> Seq<Choice> {
    seq![
        Choice { raw: 0, label: "Never", label_de: "Nie" },
        Choice { raw: 3, label: "30 minutes", label_de: "30 Minuten" },
        Choice { raw: 6, label: "1 hour", label_de: "1 Stunde" },
        Choice { raw: 12, label: "2 hours", label_de: "2 Stunden" },
        Choice { raw: 24, label: "4 hours", label_de: "4 Stunden" },
        Choice { raw: 48, label: "8 hours", label_de: "8 Stunden" },
        Choice { raw: 72, label: "12 hours", label_de: "12 Stunden" },
        Choice { raw: 96, label: "16 hours", label_de: "16 Stunden" },
    ]
}

pub fn auto_sleep() -> (r: &'static [Choice])
    ensures
        r@ == spec_auto_sleep(),
{
    &[
        Choice { raw: 0, label: "Never", label_de: "Nie" },
        Choice { raw: 3, label: "30 minutes", label_de: "30 Minuten" },
        Choice { raw: 6, label: "1 hour", label_de: "1 Stunde" },
        Choice { raw: 12, label: "2 hours", label_de: "2 Stunden" },
        Choice { raw: 24, label: "4 hours", label_de: "4 Stunden" },
        Choice { raw: 48, label: "8 hours", label_de: "8 Stunden" },
        Choice { raw: 72, label: "12 hours", label_de: "12 Stunden" },
        Choice { raw: 96, label: "16 hours", label_de: "16 Stunden" },
    ]
}

pub open spec fn spec_call_accepted() -> Seq<Choice> {
    seq![
        Choice { raw: 0, label: "Sound effects", label_de: "Klangeffekte" },
        Choice { raw: 1, label: "Voice prompts", label_de: "Sprachansagen" },
        Choice { raw: 2, label: "Off", label_de: "Aus" },
    ]
}

pub fn call_accepted() -> (r: &'static [Choice])
    ensures
        r@ == spec_call_accepted(),
{
    &[
        Choice { raw: 0, label: "Sound effects", label_de: "Klangeffekte" },
        Choice { raw: 1, label: "Voice prompts", label_de: "Sprachansagen" },
        Choice { raw: 2, label: "Off", label_de: "Aus" },
    ]
}

/// Whether a value may be read as a switch.
///
/// Jabra's device model files say which settings are On/Off and which are a
/// choice from a longer list. Where they say choice, 0 and 1 are two of
/// several values, and calling them off and on puts a wrong word on the
/// screen. Everything the model files do not cover stays `Switch`.
#[derive(Clone, Copy, PartialEq, Eq, Structural, Debug)]
pub enum Kind {
    Switch,
    Choice,
}

/// One setting the daemon asks for.
#[derive(Clone, Copy)]
pub struct Def {
    pub sub: u8,
    /// Jabra's own identifier, and the key that joins this table to the model
    /// files.
    pub name: &'static str,
    pub kind: Kind,
    /// What the dialog shows.
    pub label: &'static str,
    pub label_de: &'static str,
    /// Empty where the byte for each value is not established.
    pub values: &'static [Choice],
    /// Sub-item to ask for, where one subcommand addresses several.
    pub request: &'static [u8],
    /// Which byte of the reply carries the value, and which of its bits.
    pub index: usize,
    /// Zero means the whole byte.
    pub mask: u8,
}

/// A setting's definition with its lists as sequences.
#[verifier::ext_equal]
pub struct DefView {
    pub sub: u8,
    pub name: &'static str,
    pub kind: Kind,
    pub label: &'static str,
    pub label_de: &'static str,
    pub values: Seq<Choice>,
    pub request: Seq<u8>,
    pub index: usize,
    pub mask: u8,
}

impl View for Def {
    type V = DefView;

    open spec fn view(&self) -> DefView {
        DefView {
            sub: self.sub,
            name: self.name,
            kind: self.kind,
            label: self.label,
            label_de: self.label_de,
            values: self.values@,
            request: self.request@,
            index: self.index,
            mask: self.mask,
        }
    }
}

impl Def {
    /// The name shown for this setting, in German or in English.
    pub fn label(&self, german: bool) -> (r: &'static str)
        ensures
            r == (if german {
                self.label_de
            } else {
                self.label
            }),
    {
        if german {
            self.label_de
        } else {
            self.label
        }
    }
}

pub open spec fn dv(
    sub: u8,
    name: &'static str,
    kind: Kind,
    label: &'static str,
    label_de: &'static str,
    values: Seq<Choice>,
    request: Seq<u8>,
    index: usize,
    mask: u8,
) -> DefView {
    DefView { sub, name, kind, label, label_de, values, request, index, mask }
}

/// Settings that mean something to a user. Other subcommands in the group are
/// operational data — clock, feature masks, password fields — and do not belong
/// in an overview.
pub open spec fn spec_settings() -> Seq<DefView> {
    seq![
        dv(0, "audioType", Kind::Switch, "Audio type", "Audiotyp", seq![], seq![], 0, 0x00),
        dv(1, "intellitoneLevel", Kind::Choice, "Hearing protection", "Gehörschutz", spec_audio_protection(), seq![], 0, 0x00),
        dv(2, "touchAudioFeedback", Kind::Switch, "Touch feedback sounds", "Töne bei Berührung", seq![], seq![], 0, 0x00),
        dv(3, "ringerVolume", Kind::Choice, "Ringtone volume", "Klingellautstärke", seq![], seq![0u8], 1, 0x00),
        dv(5, "phonePresence", Kind::Switch, "Phone presence", "Telefon-Präsenz", seq![], seq![], 0, 0x00),
        dv(8, "currentLanguage", Kind::Choice, "Device language", "Gerätesprache", seq![], seq![], 0, 0x00),
        dv(13, "micGain", Kind::Switch, "Microphone gain", "Mikrofonverstärkung", seq![], seq![], 0, 0x00),
        dv(14, "rfPower", Kind::Choice, "Wireless range", "Funkreichweite", seq![], seq![], 0, 0x00),
        dv(19, "hsRinger", Kind::Switch, "Ringtone in headset", "Klingelton im Headset", seq![], seq![], 0, 0x00),
        dv(21, "soundMode", Kind::Choice, "Sound mode", "Klangmodus", spec_sound_mode(), seq![], 0, 0x00),
        dv(27, "powersave", Kind::Switch, "Power saving", "Energiesparen", seq![], seq![], 0, 0x00),
        dv(30, "muteReminderInterval", Kind::Choice, "Mute reminder", "Stummschalt-Erinnerung", spec_mute_reminder(), seq![], 0, 0x00),
        dv(33, "autoOpenHardphone", Kind::Switch, "Open desk phone line automatically", "Tischtelefon-Leitung automatisch öffnen", seq![], seq![], 0, 0x00),
        dv(36, "autoOpenSoftphone", Kind::Switch, "Open softphone line automatically", "Softphone-Leitung automatisch öffnen", seq![], seq![], 0, 0x00),
        dv(37, "musicMode", Kind::Switch, "Music mode", "Musikmodus", seq![], seq![], 0, 0x00),
        dv(39, "buttonFunction", Kind::Choice, "Button function", "Tastenbelegung", seq![], seq![0u8, 0u8], 2, 0x00),
        dv(50, "singleCallConf", Kind::Switch, "Single call", "Einzelanruf", seq![], seq![], 0, 0x00),
        dv(51, "idlePowerSave", Kind::Switch, "Power saving when idle", "Energiesparen im Leerlauf", seq![], seq![], 0, 0x00),
        dv(53, "hsTouchSensor", Kind::Switch, "Touch sensor", "Berührungssensor", seq![], seq![], 0, 0x00),
        dv(55, "ancGain", Kind::Switch, "Noise cancellation strength", "Stärke der Geräuschunterdrückung", seq![], seq![], 0, 0x00),
        dv(57, "busylight", Kind::Switch, "Busylight", "Besetztlicht", seq![], seq![], 0, 0x00),
        dv(58, "hsVoicePrompts", Kind::Choice, "Audio announcements", "Sprachansagen", spec_voice_prompts(), seq![], 0, 0x00),
        dv(59, "hsMotionSensor", Kind::Switch, "Motion sensor", "Bewegungssensor", seq![], seq![], 0, 0x00),
        dv(60, "autoRejectBgWaiting", Kind::Switch, "Reject waiting calls automatically", "Wartende Anrufe automatisch abweisen", seq![], seq![], 0, 0x00),
        dv(61, "ringtoneType", Kind::Choice, "Ringtone", "Klingelton", seq![], seq![0u8], 1, 0x00),
        dv(62, "ringOnSecondIncomingCall", Kind::Switch, "Ring on a second call", "Klingeln bei zweitem Anruf", seq![], seq![], 0, 0x00),
        dv(63, "buttonSounds", Kind::Switch, "Button sounds", "Tastentöne", seq![], seq![], 0, 0x00),
        dv(64, "autoPairing", Kind::Switch, "Automatic pairing", "Automatisches Koppeln", seq![], seq![], 0, 0x00),
        dv(69, "acceptCallOnUndock", Kind::Switch, "Accept a call on undocking", "Anruf beim Entnehmen annehmen", seq![], seq![], 0, 0x00),
        dv(74, "ctrlBusylight", Kind::Switch, "Busylight control", "Besetztlicht-Steuerung", seq![], seq![], 0, 0x00),
        dv(80, "undockOpenAudioLink", Kind::Switch, "Open the audio link on undocking", "Audioverbindung beim Entnehmen öffnen", seq![], seq![], 0, 0x00),
        dv(82, "ancLed", Kind::Switch, "Noise cancellation indicator", "Anzeige der Geräuschunterdrückung", seq![], seq![], 0, 0x00),
        dv(83, "ancMonitorLed", Kind::Switch, "Monitor mode indicator", "Anzeige des Monitor-Modus", seq![], seq![], 0, 0x00),
        dv(84, "audioStreaming", Kind::Switch, "Audio streaming", "Audio-Streaming", seq![], seq![], 0, 0x00),
        dv(92, "buttonSwapFunction", Kind::Switch, "Swapped button functions", "Vertauschte Tastenbelegung", seq![], seq![], 0, 0x00),
        dv(104, "sidetoneLevel", Kind::Choice, "Sidetone level", "Mithörton-Pegel", spec_sidetone_level(), seq![], 0, 0x00),
        dv(112, "lowBatteryAudioNotifications", Kind::Switch, "Low battery announcement", "Ansage bei schwachem Akku", seq![], seq![], 0, 0x00),
        dv(114, "echoCancel", Kind::Switch, "Echo cancellation", "Echounterdrückung", seq![], seq![], 0, 0x00),
        dv(120, "powerNap", Kind::Switch, "Power nap", "Power Nap", seq![], seq![], 0, 0x00),
        dv(124, "dspSidetone", Kind::Choice, "Sidetone", "Mithörton", seq![], seq![], 1, 0x00),
        dv(125, "equalizer", Kind::Switch, "Equalizer", "Equalizer", seq![], seq![], 0, 0x00),
        dv(126, "equalizerEnable", Kind::Switch, "Equalizer on", "Equalizer aktiv", seq![], seq![], 0, 0x00),
        dv(133, "sidetoneMute", Kind::Switch, "Sidetone while muted", "Mithörton bei Stummschaltung", seq![], seq![], 0, 0x00),
        dv(134, "hallSensor", Kind::Switch, "Hall sensor", "Hall-Sensor", seq![], seq![], 0, 0x00),
        dv(135, "anc", Kind::Switch, "Active noise cancellation", "Aktive Geräuschunterdrückung", seq![], seq![], 0, 0x00),
        dv(138, "selectButtonFunction", Kind::Switch, "Select button function", "Belegung der Auswahltaste", seq![], seq![], 0, 0x00),
        dv(142, "autoPauseMusic", Kind::Switch, "Pause music when taken off", "Musik beim Absetzen pausieren", seq![], seq![], 0, 0x00),
        dv(143, "autoMuteCallAudio", Kind::Switch, "Mute call audio automatically", "Gesprächston automatisch stummschalten", seq![], seq![], 0, 0x00),
        dv(144, "inactivityInterval", Kind::Choice, "Auto sleep after", "Ruhezustand nach", spec_auto_sleep(), seq![], 0, 0x00),
        dv(145, "autoAnswerCall", Kind::Switch, "Answer calls automatically", "Anrufe automatisch annehmen", seq![], seq![], 0, 0x00),
        dv(146, "onHeadDetection", Kind::Switch, "On-head detection", "Trageerkennung", seq![], seq![], 0, 0x00),
        dv(147, "alwaysOnVoice", Kind::Switch, "Always-on voice assistant", "Sprachassistent immer aktiv", seq![], seq![], 0, 0x00),
        dv(149, "automaticSpeechRecognition", Kind::Switch, "Speech recognition", "Spracherkennung", seq![], seq![], 0, 0x00),
        dv(152, "boomarmRotationAction", Kind::Choice, "Boom arm rotation", "Mikrofonarm-Drehung", seq![], seq![], 0, 0x0d),
        dv(153, "streamPriority", Kind::Switch, "Stream priority", "Stream-Priorität", seq![], seq![], 0, 0x00),
        dv(188, "callAcceptedSound", Kind::Choice, "Call accepted sound", "Ton bei angenommenem Anruf", spec_call_accepted(), seq![], 0, 0x00),
    ]
}

/// The table of [`spec_settings`], in its order.
#[verifier::rlimit(50)]
pub fn settings() -> (r: Vec<Def>)
    ensures
        r@.map_values(|d: Def| d@) == spec_settings(),
{
    let mut v: Vec<Def> = Vec::new();
    v.push(Def { sub: 0, name: "audioType", kind: Kind::Switch, label: "Audio type", label_de: "Audiotyp", values: &[], request: &[], index: 0, mask: 0x00 });
    v.push(Def { sub: 1, name: "intellitoneLevel", kind: Kind::Choice, label: "Hearing protection", label_de: "Gehörschutz", values: audio_protection(), request: &[], index: 0, mask: 0x00 });
    v.push(Def { sub: 2, name: "touchAudioFeedback", kind: Kind::Switch, label: "Touch feedback sounds", label_de: "Töne bei Berührung", values: &[], request: &[], index: 0, mask: 0x00 });
    v.push(Def { sub: 3, name: "ringerVolume", kind: Kind::Choice, label: "Ringtone volume", label_de: "Klingellautstärke", values: &[], request: &[0u8], index: 1, mask: 0x00 });
    v.push(Def { sub: 5, name: "phonePresence", kind: Kind::Switch, label: "Phone presence", label_de: "Telefon-Präsenz", values: &[], request: &[], index: 0, mask: 0x00 });
    v.push(Def { sub: 8, name: "currentLanguage", kind: Kind::Choice, label: "Device language", label_de: "Gerätesprache", values: &[], request: &[], index: 0, mask: 0x00 });
    v.push(Def { sub: 13, name: "micGain", kind: Kind::Switch, label: "Microphone gain", label_de: "Mikrofonverstärkung", values: &[], request: &[], index: 0, mask: 0x00 });
    v.push(Def { sub: 14, name: "rfPower", kind: Kind::Choice, label: "Wireless range", label_de: "Funkreichweite", values: &[], request: &[], index: 0, mask: 0x00 });
    v.push(Def { sub: 19, name: "hsRinger", kind: Kind::Switch, label: "Ringtone in headset", label_de: "Klingelton im Headset", values: &[], request: &[], index: 0, mask: 0x00 });
    v.push(Def { sub: 21, name: "soundMode", kind: Kind::Choice, label: "Sound mode", label_de: "Klangmodus", values: sound_mode(), request: &[], index: 0, mask: 0x00 });
    v.push(Def { sub: 27, name: "powersave", kind: Kind::Switch, label: "Power saving", label_de: "Energiesparen", values: &[], request: &[], index: 0, mask: 0x00 });
    v.push(Def { sub: 30, name: "muteReminderInterval", kind: Kind::Choice, label: "Mute reminder", label_de: "Stummschalt-Erinnerung", values: mute_reminder(), request: &[], index: 0, mask: 0x00 });
    v.push(Def { sub: 33, name: "autoOpenHardphone", kind: Kind::Switch, label: "Open desk phone line automatically", label_de: "Tischtelefon-Leitung automatisch öffnen", values: &[], request: &[], index: 0, mask: 0x00 });
    v.push(Def { sub: 36, name: "autoOpenSoftphone", kind: Kind::Switch, label: "Open softphone line automatically", label_de: "Softphone-Leitung automatisch öffnen", values: &[], request: &[], index: 0, mask: 0x00 });
    v.push(Def { sub: 37, name: "musicMode", kind: Kind::Switch, label: "Music mode", label_de: "Musikmodus", values: &[], request: &[], index: 0, mask: 0x00 });
    v.push(Def { sub: 39, name: "buttonFunction", kind: Kind::Choice, label: "Button function", label_de: "Tastenbelegung", values: &[], request: &[0u8, 0u8], index: 2, mask: 0x00 });
    v.push(Def { sub: 50, name: "singleCallConf", kind: Kind::Switch, label: "Single call", label_de: "Einzelanruf", values: &[], request: &[], index: 0, mask: 0x00 });
    v.push(Def { sub: 51, name: "idlePowerSave", kind: Kind::Switch, label: "Power saving when idle", label_de: "Energiesparen im Leerlauf", values: &[], request: &[], index: 0, mask: 0x00 });
    v.push(Def { sub: 53, name: "hsTouchSensor", kind: Kind::Switch, label: "Touch sensor", label_de: "Berührungssensor", values: &[], request: &[], index: 0, mask: 0x00 });
    v.push(Def { sub: 55, name: "ancGain", kind: Kind::Switch, label: "Noise cancellation strength", label_de: "Stärke der Geräuschunterdrückung", values: &[], request: &[], index: 0, mask: 0x00 });
    v.push(Def { sub: 57, name: "busylight", kind: Kind::Switch, label: "Busylight", label_de: "Besetztlicht", values: &[], request: &[], index: 0, mask: 0x00 });
    v.push(Def { sub: 58, name: "hsVoicePrompts", kind: Kind::Choice, label: "Audio announcements", label_de: "Sprachansagen", values: voice_prompts(), request: &[], index: 0, mask: 0x00 });
    v.push(Def { sub: 59, name: "hsMotionSensor", kind: Kind::Switch, label: "Motion sensor", label_de: "Bewegungssensor", values: &[], request: &[], index: 0, mask: 0x00 });
    v.push(Def { sub: 60, name: "autoRejectBgWaiting", kind: Kind::Switch, label: "Reject waiting calls automatically", label_de: "Wartende Anrufe automatisch abweisen", values: &[], request: &[], index: 0, mask: 0x00 });
    v.push(Def { sub: 61, name: "ringtoneType", kind: Kind::Choice, label: "Ringtone", label_de: "Klingelton", values: &[], request: &[0u8], index: 1, mask: 0x00 });
    v.push(Def { sub: 62, name: "ringOnSecondIncomingCall", kind: Kind::Switch, label: "Ring on a second call", label_de: "Klingeln bei zweitem Anruf", values: &[], request: &[], index: 0, mask: 0x00 });
    v.push(Def { sub: 63, name: "buttonSounds", kind: Kind::Switch, label: "Button sounds", label_de: "Tastentöne", values: &[], request: &[], index: 0, mask: 0x00 });
    v.push(Def { sub: 64, name: "autoPairing", kind: Kind::Switch, label: "Automatic pairing", label_de: "Automatisches Koppeln", values: &[], request: &[], index: 0, mask: 0x00 });
    v.push(Def { sub: 69, name: "acceptCallOnUndock", kind: Kind::Switch, label: "Accept a call on undocking", label_de: "Anruf beim Entnehmen annehmen", values: &[], request: &[], index: 0, mask: 0x00 });
    v.push(Def { sub: 74, name: "ctrlBusylight", kind: Kind::Switch, label: "Busylight control", label_de: "Besetztlicht-Steuerung", values: &[], request: &[], index: 0, mask: 0x00 });
    v.push(Def { sub: 80, name: "undockOpenAudioLink", kind: Kind::Switch, label: "Open the audio link on undocking", label_de: "Audioverbindung beim Entnehmen öffnen", values: &[], request: &[], index: 0, mask: 0x00 });
    v.push(Def { sub: 82, name: "ancLed", kind: Kind::Switch, label: "Noise cancellation indicator", label_de: "Anzeige der Geräuschunterdrückung", values: &[], request: &[], index: 0, mask: 0x00 });
    v.push(Def { sub: 83, name: "ancMonitorLed", kind: Kind::Switch, label: "Monitor mode indicator", label_de: "Anzeige des Monitor-Modus", values: &[], request: &[], index: 0, mask: 0x00 });
    v.push(Def { sub: 84, name: "audioStreaming", kind: Kind::Switch, label: "Audio streaming", label_de: "Audio-Streaming", values: &[], request: &[], index: 0, mask: 0x00 });
    v.push(Def { sub: 92, name: "buttonSwapFunction", kind: Kind::Switch, label: "Swapped button functions", label_de: "Vertauschte Tastenbelegung", values: &[], request: &[], index: 0, mask: 0x00 });
    v.push(Def { sub: 104, name: "sidetoneLevel", kind: Kind::Choice, label: "Sidetone level", label_de: "Mithörton-Pegel", values: sidetone_level(), request: &[], index: 0, mask: 0x00 });
    v.push(Def { sub: 112, name: "lowBatteryAudioNotifications", kind: Kind::Switch, label: "Low battery announcement", label_de: "Ansage bei schwachem Akku", values: &[], request: &[], index: 0, mask: 0x00 });
    v.push(Def { sub: 114, name: "echoCancel", kind: Kind::Switch, label: "Echo cancellation", label_de: "Echounterdrückung", values: &[], request: &[], index: 0, mask: 0x00 });
    v.push(Def { sub: 120, name: "powerNap", kind: Kind::Switch, label: "Power nap", label_de: "Power Nap", values: &[], request: &[], index: 0, mask: 0x00 });
    v.push(Def { sub: 124, name: "dspSidetone", kind: Kind::Choice, label: "Sidetone", label_de: "Mithörton", values: &[], request: &[], index: 1, mask: 0x00 });
    v.push(Def { sub: 125, name: "equalizer", kind: Kind::Switch, label: "Equalizer", label_de: "Equalizer", values: &[], request: &[], index: 0, mask: 0x00 });
    v.push(Def { sub: 126, name: "equalizerEnable", kind: Kind::Switch, label: "Equalizer on", label_de: "Equalizer aktiv", values: &[], request: &[], index: 0, mask: 0x00 });
    v.push(Def { sub: 133, name: "sidetoneMute", kind: Kind::Switch, label: "Sidetone while muted", label_de: "Mithörton bei Stummschaltung", values: &[], request: &[], index: 0, mask: 0x00 });
    v.push(Def { sub: 134, name: "hallSensor", kind: Kind::Switch, label: "Hall sensor", label_de: "Hall-Sensor", values: &[], request: &[], index: 0, mask: 0x00 });
    v.push(Def { sub: 135, name: "anc", kind: Kind::Switch, label: "Active noise cancellation", label_de: "Aktive Geräuschunterdrückung", values: &[], request: &[], index: 0, mask: 0x00 });
    v.push(Def { sub: 138, name: "selectButtonFunction", kind: Kind::Switch, label: "Select button function", label_de: "Belegung der Auswahltaste", values: &[], request: &[], index: 0, mask: 0x00 });
    v.push(Def { sub: 142, name: "autoPauseMusic", kind: Kind::Switch, label: "Pause music when taken off", label_de: "Musik beim Absetzen pausieren", values: &[], request: &[], index: 0, mask: 0x00 });
    v.push(Def { sub: 143, name: "autoMuteCallAudio", kind: Kind::Switch, label: "Mute call audio automatically", label_de: "Gesprächston automatisch stummschalten", values: &[], request: &[], index: 0, mask: 0x00 });
    v.push(Def { sub: 144, name: "inactivityInterval", kind: Kind::Choice, label: "Auto sleep after", label_de: "Ruhezustand nach", values: auto_sleep(), request: &[], index: 0, mask: 0x00 });
    v.push(Def { sub: 145, name: "autoAnswerCall", kind: Kind::Switch, label: "Answer calls automatically", label_de: "Anrufe automatisch annehmen", values: &[], request: &[], index: 0, mask: 0x00 });
    v.push(Def { sub: 146, name: "onHeadDetection", kind: Kind::Switch, label: "On-head detection", label_de: "Trageerkennung", values: &[], request: &[], index: 0, mask: 0x00 });
    v.push(Def { sub: 147, name: "alwaysOnVoice", kind: Kind::Switch, label: "Always-on voice assistant", label_de: "Sprachassistent immer aktiv", values: &[], request: &[], index: 0, mask: 0x00 });
    v.push(Def { sub: 149, name: "automaticSpeechRecognition", kind: Kind::Switch, label: "Speech recognition", label_de: "Spracherkennung", values: &[], request: &[], index: 0, mask: 0x00 });
    v.push(Def { sub: 152, name: "boomarmRotationAction", kind: Kind::Choice, label: "Boom arm rotation", label_de: "Mikrofonarm-Drehung", values: &[], request: &[], index: 0, mask: 0x0d });
    v.push(Def { sub: 153, name: "streamPriority", kind: Kind::Switch, label: "Stream priority", label_de: "Stream-Priorität", values: &[], request: &[], index: 0, mask: 0x00 });
    v.push(Def { sub: 188, name: "callAcceptedSound", kind: Kind::Choice, label: "Call accepted sound", label_de: "Ton bei angenommenem Anruf", values: call_accepted(), request: &[], index: 0, mask: 0x00 });
    assert(v@.map_values(|d: Def| d@) =~~= spec_settings());
    v
}


/// Whether `i` is the first entry of `t` with this name.
pub open spec fn first_named(t: Seq<DefView>, name: Seq<char>, i: int) -> bool {
    &&& 0 <= i < t.len()
    &&& t[i].name@ == name
    &&& forall|j: int| 0 <= j < i ==> t[j].name@ != name
}

/// The definition a name stands for: the first in the table with that name.
pub open spec fn spec_def_of(name: Seq<char>) -> Option<DefView> {
    let t = spec_settings();
    if exists|i: int| first_named(t, name, i) {
        Some(t[choose|i: int| first_named(t, name, i)])
    } else {
        None
    }
}

/// The definition for Jabra's identifier `name`. The list is short enough that
/// a scan beats carrying a map around.
pub fn def_of(name: &str) -> (r: Option<Def>)
    ensures
        r is Some <==> spec_def_of(name@) is Some,
        r matches Some(d) ==> spec_def_of(name@) == Some(d@),
{
    let table = settings();
    let ghost t = spec_settings();
    let mut i: usize = 0;
    while i < table.len()
        invariant
            table@.map_values(|d: Def| d@) == t,
            t == spec_settings(),
            i <= table@.len(),
            forall|j: int| 0 <= j < i ==> t[j].name@ != name@,
        decreases table@.len() - i,
    {
        assert(table@[i as int]@ == t[i as int]);
        if text_eq(table[i].name, name) {
            proof {
                assert(first_named(t, name@, i as int));
                let k = choose|k: int| first_named(t, name@, k);
                assert(k == i);
            }
            return Some(table[i]);
        }
        i = i + 1;
    }
    proof {
        assert forall|k: int| !first_named(t, name@, k) by {
            if 0 <= k < t.len() {
                assert(t[k].name@ != name@);
            }
        }
    }
    None
}

/// The byte a setting's value lives in, once index and mask have been applied.
pub open spec fn spec_raw_of(def: Option<DefView>, data: Seq<u8>) -> Option<u8> {
    match def {
        None => None,
        Some(d) => if d.index < data.len() {
            Some(
                if d.mask == 0 {
                    data[d.index as int]
                } else {
                    data[d.index as int] & d.mask
                },
            )
        } else {
            None
        },
    }
}

pub fn raw_of(def: Option<&Def>, data: &[u8]) -> (r: Option<u8>)
    ensures
        r == spec_raw_of(
            match def {
                Some(d) => Some(d@),
                None => None,
            },
            data@,
        ),
{
    let def = match def {
        Some(d) => d,
        None => return None,
    };
    if def.index >= data.len() {
        return None;
    }
    let byte = data[def.index];
    Some(
        if def.mask == 0 {
            byte
        } else {
            byte & def.mask
        },
    )
}

/// Subcommand, name and the sub-item to ask for, in table order.
pub fn subs() -> (r: Vec<(u8, &'static str, &'static [u8])>)
    ensures
        r@.len() == spec_settings().len(),
        forall|i: int|
            0 <= i < r@.len() ==> {
                &&& (#[trigger] r@[i]).0 == spec_settings()[i].sub
                &&& r@[i].1 == spec_settings()[i].name
                &&& r@[i].2@ == spec_settings()[i].request
            },
{
    let table = settings();
    let ghost t = spec_settings();
    let mut out: Vec<(u8, &'static str, &'static [u8])> = Vec::new();
    let mut i: usize = 0;
    while i < table.len()
        invariant
            table@.map_values(|d: Def| d@) == t,
            t == spec_settings(),
            i <= table@.len(),
            out@.len() == i,
            forall|k: int|
                0 <= k < i ==> {
                    &&& (#[trigger] out@[k]).0 == t[k].sub
                    &&& out@[k].1 == t[k].name
                    &&& out@[k].2@ == t[k].request
                },
        decreases table@.len() - i,
    {
        assert(table@[i as int]@ == t[i as int]);
        out.push((table[i].sub, table[i].name, table[i].request));
        i = i + 1;
    }
    out
}

/// The subcommands of the table from row `i` on rise strictly.
spec fn rising_from(t: Seq<DefView>, i: int) -> bool
    decreases t.len() - i,
{
    if i + 1 >= t.len() {
        true
    } else {
        t[i].sub < t[i + 1].sub && rising_from(t, i + 1)
    }
}

/// Row `i`'s name differs from the names of the rows from `j` up to `i`.
spec fn name_is_new(t: Seq<DefView>, i: int, j: int) -> bool
    decreases i - j,
{
    if j >= i {
        true
    } else {
        t[j].name@ != t[i].name@ && name_is_new(t, i, j + 1)
    }
}

/// From row `i` on, every row's name differs from those of the rows before it.
spec fn names_new_from(t: Seq<DefView>, i: int) -> bool
    decreases t.len() - i,
{
    if i >= t.len() {
        true
    } else {
        name_is_new(t, i, 0) && names_new_from(t, i + 1)
    }
}

proof fn lemma_rising(t: Seq<DefView>, i: int, j: int)
    requires
        0 <= i < j < t.len(),
        rising_from(t, 0),
    ensures
        t[i].sub < t[j].sub,
    decreases j,
{
    lemma_rising_step(t, 0, j - 1);
    if i < j - 1 {
        lemma_rising(t, i, j - 1);
    }
}

proof fn lemma_rising_step(t: Seq<DefView>, k: int, m: int)
    requires
        0 <= k <= m,
        m + 1 < t.len(),
        rising_from(t, k),
    ensures
        t[m].sub < t[m + 1].sub,
    decreases m - k,
{
    if k < m {
        lemma_rising_step(t, k + 1, m);
    }
}

proof fn lemma_name_new(t: Seq<DefView>, i: int, j: int, k: int)
    requires
        0 <= j <= k < i,
        name_is_new(t, i, j),
    ensures
        t[k].name@ != t[i].name@,
    decreases k - j,
{
    if j < k {
        lemma_name_new(t, i, j + 1, k);
    }
}

proof fn lemma_names_new(t: Seq<DefView>, k: int, i: int)
    requires
        0 <= k <= i < t.len(),
        names_new_from(t, k),
    ensures
        name_is_new(t, i, 0),
    decreases i - k,
{
    if k < i {
        lemma_names_new(t, k + 1, i);
    }
}

/// The settings whose value bytes have names: only those a plain read
/// returns alone, with neither a request prefix nor a bit mask.
pub open spec fn has_value_names(name: Seq<char>) -> bool {
    ||| name == "intellitoneLevel"@
    ||| name == "soundMode"@
    ||| name == "muteReminderInterval"@
    ||| name == "hsVoicePrompts"@
    ||| name == "sidetoneLevel"@
    ||| name == "inactivityInterval"@
    ||| name == "callAcceptedSound"@
}

/// From row `i` on, a row names its values exactly where its setting is one
/// of those, and then is read plainly.
spec fn names_values_from(t: Seq<DefView>, i: int) -> bool
    decreases t.len() - i,
{
    if i >= t.len() {
        true
    } else {
        &&& (t[i].values.len() > 0 <==> has_value_names(t[i].name@))
        &&& (t[i].values.len() > 0 ==> t[i].request.len() == 0 && t[i].mask == 0)
        &&& names_values_from(t, i + 1)
    }
}

proof fn lemma_names_values(t: Seq<DefView>, k: int, i: int)
    requires
        0 <= k <= i < t.len(),
        names_values_from(t, k),
    ensures
        t[i].values.len() > 0 <==> has_value_names(t[i].name@),
        t[i].values.len() > 0 ==> t[i].request.len() == 0 && t[i].mask == 0,
    decreases i - k,
{
    if k < i {
        lemma_names_values(t, k + 1, i);
    }
}

/// What the table's names say, checked row by row: each is new, and each
/// names its values exactly where it should.
#[verifier::rlimit(100)]
#[verifier::spinoff_prover]
proof fn lemma_table_names()
    ensures
        names_new_from(spec_settings(), 0),
        names_values_from(spec_settings(), 0),
{
    let t = spec_settings();
    // The names as the table spells them: length, and the letters that tell
    // names of one length apart.
    reveal_strlit("audioType");
    assert(t[0].name == "audioType" && "audioType"@.len() == 9);
    assert("audioType"@[0] == 'a');
    reveal_strlit("intellitoneLevel");
    assert(t[1].name == "intellitoneLevel" && "intellitoneLevel"@.len() == 16);
    reveal_strlit("touchAudioFeedback");
    assert(t[2].name == "touchAudioFeedback" && "touchAudioFeedback"@.len() == 18);
    assert("touchAudioFeedback"@[0] == 't');
    reveal_strlit("ringerVolume");
    assert(t[3].name == "ringerVolume" && "ringerVolume"@.len() == 12);
    assert("ringerVolume"@[8] == 'l');
    reveal_strlit("phonePresence");
    assert(t[4].name == "phonePresence" && "phonePresence"@.len() == 13);
    assert("phonePresence"@[1] == 'h');
    reveal_strlit("currentLanguage");
    assert(t[5].name == "currentLanguage" && "currentLanguage"@.len() == 15);
    assert("currentLanguage"@[0] == 'c');
    reveal_strlit("micGain");
    assert(t[6].name == "micGain" && "micGain"@.len() == 7);
    assert("micGain"@[0] == 'm');
    reveal_strlit("rfPower");
    assert(t[7].name == "rfPower" && "rfPower"@.len() == 7);
    assert("rfPower"@[0] == 'r');
    reveal_strlit("hsRinger");
    assert(t[8].name == "hsRinger" && "hsRinger"@.len() == 8);
    assert("hsRinger"@[0] == 'h');
    reveal_strlit("soundMode");
    assert(t[9].name == "soundMode" && "soundMode"@.len() == 9);
    assert("soundMode"@[0] == 's');
    reveal_strlit("powersave");
    assert(t[10].name == "powersave" && "powersave"@.len() == 9);
    assert("powersave"@[0] == 'p');
    reveal_strlit("muteReminderInterval");
    assert(t[11].name == "muteReminderInterval" && "muteReminderInterval"@.len() == 20);
    assert("muteReminderInterval"@[0] == 'm');
    reveal_strlit("autoOpenHardphone");
    assert(t[12].name == "autoOpenHardphone" && "autoOpenHardphone"@.len() == 17);
    assert("autoOpenHardphone"@[8] == 'H');
    reveal_strlit("autoOpenSoftphone");
    assert(t[13].name == "autoOpenSoftphone" && "autoOpenSoftphone"@.len() == 17);
    assert("autoOpenSoftphone"@[8] == 'S');
    reveal_strlit("musicMode");
    assert(t[14].name == "musicMode" && "musicMode"@.len() == 9);
    assert("musicMode"@[0] == 'm');
    reveal_strlit("buttonFunction");
    assert(t[15].name == "buttonFunction" && "buttonFunction"@.len() == 14);
    assert("buttonFunction"@[6] == 'F');
    reveal_strlit("singleCallConf");
    assert(t[16].name == "singleCallConf" && "singleCallConf"@.len() == 14);
    assert("singleCallConf"@[6] == 'C');
    reveal_strlit("idlePowerSave");
    assert(t[17].name == "idlePowerSave" && "idlePowerSave"@.len() == 13);
    assert("idlePowerSave"@[1] == 'd');
    reveal_strlit("hsTouchSensor");
    assert(t[18].name == "hsTouchSensor" && "hsTouchSensor"@.len() == 13);
    assert("hsTouchSensor"@[1] == 's');
    reveal_strlit("ancGain");
    assert(t[19].name == "ancGain" && "ancGain"@.len() == 7);
    assert("ancGain"@[0] == 'a');
    reveal_strlit("busylight");
    assert(t[20].name == "busylight" && "busylight"@.len() == 9);
    assert("busylight"@[0] == 'b');
    reveal_strlit("hsVoicePrompts");
    assert(t[21].name == "hsVoicePrompts" && "hsVoicePrompts"@.len() == 14);
    assert("hsVoicePrompts"@[6] == 'e');
    reveal_strlit("hsMotionSensor");
    assert(t[22].name == "hsMotionSensor" && "hsMotionSensor"@.len() == 14);
    assert("hsMotionSensor"@[6] == 'o');
    reveal_strlit("autoRejectBgWaiting");
    assert(t[23].name == "autoRejectBgWaiting" && "autoRejectBgWaiting"@.len() == 19);
    assert("autoRejectBgWaiting"@[0] == 'a');
    reveal_strlit("ringtoneType");
    assert(t[24].name == "ringtoneType" && "ringtoneType"@.len() == 12);
    assert("ringtoneType"@[8] == 'T');
    reveal_strlit("ringOnSecondIncomingCall");
    assert(t[25].name == "ringOnSecondIncomingCall" && "ringOnSecondIncomingCall"@.len() == 24);
    reveal_strlit("buttonSounds");
    assert(t[26].name == "buttonSounds" && "buttonSounds"@.len() == 12);
    assert("buttonSounds"@[8] == 'u');
    reveal_strlit("autoPairing");
    assert(t[27].name == "autoPairing" && "autoPairing"@.len() == 11);
    assert("autoPairing"@[0] == 'a');
    reveal_strlit("acceptCallOnUndock");
    assert(t[28].name == "acceptCallOnUndock" && "acceptCallOnUndock"@.len() == 18);
    assert("acceptCallOnUndock"@[0] == 'a');
    reveal_strlit("ctrlBusylight");
    assert(t[29].name == "ctrlBusylight" && "ctrlBusylight"@.len() == 13);
    assert("ctrlBusylight"@[1] == 't');
    reveal_strlit("undockOpenAudioLink");
    assert(t[30].name == "undockOpenAudioLink" && "undockOpenAudioLink"@.len() == 19);
    assert("undockOpenAudioLink"@[0] == 'u');
    reveal_strlit("ancLed");
    assert(t[31].name == "ancLed" && "ancLed"@.len() == 6);
    reveal_strlit("ancMonitorLed");
    assert(t[32].name == "ancMonitorLed" && "ancMonitorLed"@.len() == 13);
    assert("ancMonitorLed"@[1] == 'n');
    reveal_strlit("audioStreaming");
    assert(t[33].name == "audioStreaming" && "audioStreaming"@.len() == 14);
    assert("audioStreaming"@[6] == 't');
    reveal_strlit("buttonSwapFunction");
    assert(t[34].name == "buttonSwapFunction" && "buttonSwapFunction"@.len() == 18);
    assert("buttonSwapFunction"@[0] == 'b');
    reveal_strlit("sidetoneLevel");
    assert(t[35].name == "sidetoneLevel" && "sidetoneLevel"@.len() == 13);
    assert("sidetoneLevel"@[1] == 'i');
    reveal_strlit("lowBatteryAudioNotifications");
    assert(t[36].name == "lowBatteryAudioNotifications" && "lowBatteryAudioNotifications"@.len() == 28);
    reveal_strlit("echoCancel");
    assert(t[37].name == "echoCancel" && "echoCancel"@.len() == 10);
    assert("echoCancel"@[0] == 'e');
    reveal_strlit("powerNap");
    assert(t[38].name == "powerNap" && "powerNap"@.len() == 8);
    assert("powerNap"@[0] == 'p');
    reveal_strlit("dspSidetone");
    assert(t[39].name == "dspSidetone" && "dspSidetone"@.len() == 11);
    assert("dspSidetone"@[0] == 'd');
    reveal_strlit("equalizer");
    assert(t[40].name == "equalizer" && "equalizer"@.len() == 9);
    assert("equalizer"@[0] == 'e');
    reveal_strlit("equalizerEnable");
    assert(t[41].name == "equalizerEnable" && "equalizerEnable"@.len() == 15);
    assert("equalizerEnable"@[0] == 'e');
    reveal_strlit("sidetoneMute");
    assert(t[42].name == "sidetoneMute" && "sidetoneMute"@.len() == 12);
    assert("sidetoneMute"@[8] == 'M');
    reveal_strlit("hallSensor");
    assert(t[43].name == "hallSensor" && "hallSensor"@.len() == 10);
    assert("hallSensor"@[0] == 'h');
    reveal_strlit("anc");
    assert(t[44].name == "anc" && "anc"@.len() == 3);
    reveal_strlit("selectButtonFunction");
    assert(t[45].name == "selectButtonFunction" && "selectButtonFunction"@.len() == 20);
    assert("selectButtonFunction"@[0] == 's');
    reveal_strlit("autoPauseMusic");
    assert(t[46].name == "autoPauseMusic" && "autoPauseMusic"@.len() == 14);
    assert("autoPauseMusic"@[6] == 'u');
    reveal_strlit("autoMuteCallAudio");
    assert(t[47].name == "autoMuteCallAudio" && "autoMuteCallAudio"@.len() == 17);
    assert("autoMuteCallAudio"@[8] == 'C');
    reveal_strlit("inactivityInterval");
    assert(t[48].name == "inactivityInterval" && "inactivityInterval"@.len() == 18);
    assert("inactivityInterval"@[0] == 'i');
    reveal_strlit("autoAnswerCall");
    assert(t[49].name == "autoAnswerCall" && "autoAnswerCall"@.len() == 14);
    assert("autoAnswerCall"@[6] == 's');
    reveal_strlit("onHeadDetection");
    assert(t[50].name == "onHeadDetection" && "onHeadDetection"@.len() == 15);
    assert("onHeadDetection"@[0] == 'o');
    reveal_strlit("alwaysOnVoice");
    assert(t[51].name == "alwaysOnVoice" && "alwaysOnVoice"@.len() == 13);
    assert("alwaysOnVoice"@[1] == 'l');
    reveal_strlit("automaticSpeechRecognition");
    assert(t[52].name == "automaticSpeechRecognition" && "automaticSpeechRecognition"@.len() == 26);
    reveal_strlit("boomarmRotationAction");
    assert(t[53].name == "boomarmRotationAction" && "boomarmRotationAction"@.len() == 21);
    reveal_strlit("streamPriority");
    assert(t[54].name == "streamPriority" && "streamPriority"@.len() == 14);
    assert("streamPriority"@[6] == 'P');
    reveal_strlit("callAcceptedSound");
    assert(t[55].name == "callAcceptedSound" && "callAcceptedSound"@.len() == 17);
    assert("callAcceptedSound"@[8] == 'p');
    reveal_with_fuel(name_is_new, 57);
    reveal_with_fuel(names_new_from, 57);
    assert(name_is_new(t, 1, 0));
    assert(name_is_new(t, 2, 0));
    assert(name_is_new(t, 3, 0));
    assert(name_is_new(t, 4, 0));
    assert(name_is_new(t, 5, 0));
    assert(name_is_new(t, 6, 0));
    assert(name_is_new(t, 7, 0));
    assert(name_is_new(t, 8, 0));
    assert(name_is_new(t, 9, 0));
    assert(name_is_new(t, 10, 0));
    assert(name_is_new(t, 11, 0));
    assert(name_is_new(t, 12, 0));
    assert(name_is_new(t, 13, 0));
    assert(name_is_new(t, 14, 0));
    assert(name_is_new(t, 15, 0));
    assert(name_is_new(t, 16, 0));
    assert(name_is_new(t, 17, 0));
    assert(name_is_new(t, 18, 0));
    assert(name_is_new(t, 19, 0));
    assert(name_is_new(t, 20, 0));
    assert(name_is_new(t, 21, 1));
    assert(name_is_new(t, 21, 0));
    assert(name_is_new(t, 22, 2));
    assert(name_is_new(t, 22, 0));
    assert(name_is_new(t, 23, 3));
    assert(name_is_new(t, 23, 0));
    assert(name_is_new(t, 24, 4));
    assert(name_is_new(t, 24, 0));
    assert(name_is_new(t, 25, 5));
    assert(name_is_new(t, 25, 0));
    assert(name_is_new(t, 26, 6));
    assert(name_is_new(t, 26, 0));
    assert(name_is_new(t, 27, 7));
    assert(name_is_new(t, 27, 0));
    assert(name_is_new(t, 28, 8));
    assert(name_is_new(t, 28, 0));
    assert(name_is_new(t, 29, 9));
    assert(name_is_new(t, 29, 0));
    assert(name_is_new(t, 30, 10));
    assert(name_is_new(t, 30, 0));
    assert(name_is_new(t, 31, 11));
    assert(name_is_new(t, 31, 0));
    assert(name_is_new(t, 32, 12));
    assert(name_is_new(t, 32, 0));
    assert(name_is_new(t, 33, 13));
    assert(name_is_new(t, 33, 0));
    assert(name_is_new(t, 34, 14));
    assert(name_is_new(t, 34, 0));
    assert(name_is_new(t, 35, 15));
    assert(name_is_new(t, 35, 0));
    assert(name_is_new(t, 36, 16));
    assert(name_is_new(t, 36, 0));
    assert(name_is_new(t, 37, 17));
    assert(name_is_new(t, 37, 0));
    assert(name_is_new(t, 38, 18));
    assert(name_is_new(t, 38, 0));
    assert(name_is_new(t, 39, 19));
    assert(name_is_new(t, 39, 0));
    assert(name_is_new(t, 40, 20));
    assert(name_is_new(t, 40, 0));
    assert(name_is_new(t, 41, 21));
    assert(name_is_new(t, 41, 1));
    assert(name_is_new(t, 41, 0));
    assert(name_is_new(t, 42, 22));
    assert(name_is_new(t, 42, 2));
    assert(name_is_new(t, 42, 0));
    assert(name_is_new(t, 43, 23));
    assert(name_is_new(t, 43, 3));
    assert(name_is_new(t, 43, 0));
    assert(name_is_new(t, 44, 24));
    assert(name_is_new(t, 44, 4));
    assert(name_is_new(t, 44, 0));
    assert(name_is_new(t, 45, 25));
    assert(name_is_new(t, 45, 5));
    assert(name_is_new(t, 45, 0));
    assert(name_is_new(t, 46, 26));
    assert(name_is_new(t, 46, 6));
    assert(name_is_new(t, 46, 0));
    assert(name_is_new(t, 47, 27));
    assert(name_is_new(t, 47, 7));
    assert(name_is_new(t, 47, 0));
    assert(name_is_new(t, 48, 28));
    assert(name_is_new(t, 48, 8));
    assert(name_is_new(t, 48, 0));
    assert(name_is_new(t, 49, 29));
    assert(name_is_new(t, 49, 9));
    assert(name_is_new(t, 49, 0));
    assert(name_is_new(t, 50, 30));
    assert(name_is_new(t, 50, 10));
    assert(name_is_new(t, 50, 0));
    assert(name_is_new(t, 51, 31));
    assert(name_is_new(t, 51, 11));
    assert(name_is_new(t, 51, 0));
    assert(name_is_new(t, 52, 32));
    assert(name_is_new(t, 52, 12));
    assert(name_is_new(t, 52, 0));
    assert(name_is_new(t, 53, 33));
    assert(name_is_new(t, 53, 13));
    assert(name_is_new(t, 53, 0));
    assert(name_is_new(t, 54, 34));
    assert(name_is_new(t, 54, 14));
    assert(name_is_new(t, 54, 0));
    assert(name_is_new(t, 55, 35));
    assert(name_is_new(t, 55, 15));
    assert(name_is_new(t, 55, 0));
    assert(names_new_from(t, 0));
    reveal_with_fuel(names_values_from, 57);
    assert(names_values_from(t, 0));
}

/// Law: the table is keyed both ways. Its subcommands rise strictly in table
/// order, no name occurs twice, and so each row is the definition its name
/// stands for.
#[verifier::rlimit(100)]
#[verifier::spinoff_prover]
pub proof fn law_table_is_keyed()
    ensures
        forall|i: int, j: int|
            0 <= i < j < spec_settings().len() ==> #[trigger] spec_settings()[i].sub
                < #[trigger] spec_settings()[j].sub,
        forall|i: int, j: int|
            0 <= i < j < spec_settings().len() ==> #[trigger] spec_settings()[i].name@
                != #[trigger] spec_settings()[j].name@,
        forall|i: int|
            0 <= i < spec_settings().len() ==> spec_def_of(#[trigger] spec_settings()[i].name@)
                == Some(spec_settings()[i]),
{
    let t = spec_settings();
    reveal_with_fuel(rising_from, 56);
    assert(rising_from(t, 0));
    lemma_table_names();
    assert forall|i: int, j: int| 0 <= i < j < t.len() implies #[trigger] t[i].sub
        < #[trigger] t[j].sub by {
        lemma_rising(t, i, j);
    }
    assert forall|i: int, j: int| 0 <= i < j < t.len() implies #[trigger] t[i].name@
        != #[trigger] t[j].name@ by {
        lemma_names_new(t, 0, j);
        lemma_name_new(t, j, 0, i);
    }
    assert forall|i: int| 0 <= i < t.len() implies spec_def_of(#[trigger] t[i].name@) == Some(t[i]) by {
        assert forall|j: int| 0 <= j < i implies t[j].name@ != t[i].name@ by {
            lemma_names_new(t, 0, i);
            lemma_name_new(t, i, 0, j);
        }
        assert(first_named(t, t[i].name@, i));
        let k = choose|k: int| first_named(t, t[i].name@, k);
        if k != i {
            if k < i {
                assert(t[k].name@ != t[i].name@);
            } else {
                assert(t[i].name@ != t[k].name@);
            }
        }
    }
}

/// Law: values have names only where a plain read returns the value alone.
/// Exactly seven settings name their values, and each of them is read without
/// a request prefix and as a whole byte; every other value shows as a number
/// and is not offered for change.
pub proof fn law_value_names_only_where_read_plainly()
    ensures
        forall|i: int|
            0 <= i < spec_settings().len() ==> (#[trigger] spec_settings()[i].values.len() > 0
                <==> has_value_names(spec_settings()[i].name@)),
        forall|i: int|
            0 <= i < spec_settings().len() && #[trigger] spec_settings()[i].values.len() > 0
                ==> spec_settings()[i].request.len() == 0 && spec_settings()[i].mask == 0,
{
    lemma_table_names();
    let t = spec_settings();
    assert forall|i: int| 0 <= i < t.len() implies (#[trigger] t[i].values.len() > 0
        <==> has_value_names(t[i].name@)) by {
        lemma_names_values(t, 0, i);
    }
    assert forall|i: int| 0 <= i < t.len() && #[trigger] t[i].values.len() > 0 implies t[i].request.len()
        == 0 && t[i].mask == 0 by {
        lemma_names_values(t, 0, i);
    }
}

/// One row of the settings overview.
pub struct Setting {
    pub device: &'static str,
    /// Jabra's identifier, carried through the dialog to name the setting a
    /// write is meant for.
    pub name: &'static str,
    pub label: &'static str,
    pub kind: Kind,
    pub values: &'static [Choice],
    /// The byte the value lives in, once index and mask have been applied.
    pub raw: Option<u8>,
    pub value: Vec<u8>,
}

#[verifier::ext_equal]
pub struct SettingView {
    pub device: &'static str,
    pub name: &'static str,
    pub label: &'static str,
    pub kind: Kind,
    pub values: Seq<Choice>,
    pub raw: Option<u8>,
    pub value: Seq<u8>,
}

impl View for Setting {
    type V = SettingView;

    open spec fn view(&self) -> SettingView {
        SettingView {
            device: self.device,
            name: self.name,
            label: self.label,
            kind: self.kind,
            values: self.values@,
            raw: self.raw,
            value: self.value@,
        }
    }
}

impl Keyed for Setting {
    open spec fn key_view(&self) -> Seq<char> {
        self.label@
    }

    fn key(&self) -> (k: &str) {
        self.label
    }
}

/// The row for setting `name` as `device` answered it with `data`. A name the
/// table does not know keeps its identifier as label and reads as a switch.
pub open spec fn spec_setting_row(
    device: &'static str,
    name: &'static str,
    data: Seq<u8>,
    german: bool,
) -> SettingView {
    let def = spec_def_of(name@);
    SettingView {
        device,
        name,
        label: match def {
            Some(d) => if german {
                d.label_de
            } else {
                d.label
            },
            None => name,
        },
        kind: match def {
            Some(d) => d.kind,
            None => Kind::Switch,
        },
        values: match def {
            Some(d) => d.values,
            None => Seq::<Choice>::empty(),
        },
        raw: spec_raw_of(def, data),
        value: data,
    }
}

pub fn setting_row(device: &'static str, name: &'static str, data: Vec<u8>, german: bool) -> (r: Setting)
    ensures
        r@ == spec_setting_row(device, name, data@, german),
{
    let def = def_of(name);
    let raw = match &def {
        Some(d) => raw_of(Some(d), data.as_slice()),
        None => raw_of(None, data.as_slice()),
    };
    match def {
        Some(d) => Setting {
            device,
            name,
            label: d.label(german),
            kind: d.kind,
            values: d.values,
            raw,
            value: data,
        },
        None => {
            let none: &'static [Choice] = &[];
            assert(none@ =~= Seq::<Choice>::empty());
            Setting { device, name, label: name, kind: Kind::Switch, values: none, raw, value: data }
        },
    }
}

/// How an answer becomes a row of `device`.
pub open spec fn row_setting(device: &'static str, german: bool) -> spec_fn((&'static str, Vec<u8>)) -> SettingView {
    |row: (&'static str, Vec<u8>)| spec_setting_row(device, row.0, row.1@, german)
}

/// Turns answers into display rows of `device`, in the order the dialog shows
/// them: by label, not in Jabra's order.
pub fn rows_to_settings(device: &'static str, rows: Vec<(&'static str, Vec<u8>)>, german: bool) -> (r: Vec<Setting>)
    ensures
        sorted_by_key(r@),
        r@.map_values(|s: Setting| s@).to_multiset() == rows@.map_values(
            row_setting(device, german),
        ).to_multiset(),
        stable_sort_of(
            r@.map_values(|s: Setting| s@),
            rows@.map_values(row_setting(device, german)),
            |v: SettingView| v.label@,
        ),
{
    let ghost orig = rows@;
    let mut rest = rows;
    let mut out: Vec<Setting> = Vec::new();
    let ghost f = row_setting(device, german);
    while rest.len() > 0
        invariant
            f == row_setting(device, german),
            out@.map_values(|s: Setting| s@) + rest@.map_values(f) == orig.map_values(f),
        decreases rest@.len(),
    {
        let ghost before = rest@;
        let row = rest.remove(0);
        assert(row == before[0]);
        let ghost o = out@;
        let (name, data) = row;
        assert(name == before[0].0);
        assert(data@ == before[0].1@);
        let s = setting_row(device, name, data, german);
        assert(s@ == spec_setting_row(device, before[0].0, before[0].1@, german));
        assert(s@ == f(before[0]));
        out.push(s);
        proof {
            assert(out@ == o.push(s));
            assert(before.map_values(f) =~= seq![f(before[0])] + rest@.map_values(f));
            assert(out@.map_values(|s: Setting| s@) =~~= o.map_values(|s: Setting| s@).push(
                f(before[0]),
            ));
            assert(out@.map_values(|s: Setting| s@) + rest@.map_values(f) =~= o.map_values(
                |s: Setting| s@,
            ) + before.map_values(f));
        }
    }
    assert(out@.map_values(|s: Setting| s@) =~= orig.map_values(f));
    let sorted = sort_by_key(out);
    proof {
        crate::rfcomm::lemma_map_multiset(out@, sorted@, |s: Setting| s@);
        lemma_stable_sort_map(
            sorted@,
            out@,
            |t: Setting| t.key_view(),
            |s: Setting| s@,
            |v: SettingView| v.label@,
        );
    }
    sorted
}

/// Turns the replies of an RFCOMM sweep into display rows of the headset.
pub fn from_sweep(rows: Vec<(&'static str, Vec<u8>)>, german: bool) -> (r: Vec<Setting>)
    ensures
        sorted_by_key(r@),
        r@.map_values(|s: Setting| s@).to_multiset() == rows@.map_values(
            row_setting("Headset", german),
        ).to_multiset(),
        stable_sort_of(
            r@.map_values(|s: Setting| s@),
            rows@.map_values(row_setting("Headset", german)),
            |v: SettingView| v.label@,
        ),
{
    rows_to_settings("Headset", rows, german)
}

/// The sequence number the `i`th setting is asked with in a hidraw sweep:
/// counting from one, so it stands apart from an empty report.
pub open spec fn sweep_seq(i: int) -> u8 {
    (i + 1) as u8
}

/// The requests of a hidraw sweep at address `dst`, one per setting in table
/// order, and what waits for their answers.
pub fn sweep_requests(dst: u8) -> (r: (Vec<[u8; 64]>, Collector))
    ensures
        r.0@.len() == spec_settings().len(),
        forall|i: int|
            0 <= i < r.0@.len() ==> (#[trigger] r.0@[i])@ == spec_report(
                spec_body(
                    TYPE_READ,
                    dst,
                    sweep_seq(i),
                    CMD_CONFIG,
                    spec_settings()[i].sub,
                    spec_settings()[i].request,
                ),
            ),
        r.1.pending() == Map::new(
            |k: u8| 1 <= k <= spec_settings().len(),
            |k: u8| spec_settings()[k - 1].name,
        ),
        r.1.found() == Seq::<(&'static str, Seq<u8>)>::empty(),
{
    let table = settings();
    let ghost t = spec_settings();
    assert(t.len() == 56);
    let mut reqs: Vec<[u8; 64]> = Vec::new();
    let mut c = Collector::new();
    let mut i: usize = 0;
    while i < table.len()
        invariant
            table@.map_values(|d: Def| d@) == t,
            t == spec_settings(),
            t.len() == 56,
            i <= table@.len(),
            reqs@.len() == i,
            forall|k: int|
                0 <= k < i ==> (#[trigger] reqs@[k])@ == spec_report(
                    spec_body(TYPE_READ, dst, sweep_seq(k), CMD_CONFIG, t[k].sub, t[k].request),
                ),
            c.pending() == Map::new(|k: u8| 1 <= k <= i, |k: u8| t[k - 1].name),
            c.found() == Seq::<(&'static str, Seq<u8>)>::empty(),
        decreases table@.len() - i,
    {
        assert(table@[i as int]@ == t[i as int]);
        let seq = (i as u8) + 1;
        let def = table[i];
        reqs.push(gnp::read_request(dst, seq, CMD_CONFIG, def.sub, def.request));
        let ghost before = c.pending();
        c.expect(seq, def.name);
        proof {
            assert(c.pending() =~= Map::new(
                |k: u8| 1 <= k <= i + 1,
                |k: u8| t[k - 1].name,
            ));
        }
        i = i + 1;
    }
    (reqs, c)
}

/// Takes a report that arrived during a hidraw sweep at address `dst`: a
/// config reply from that address to a waiting request is recorded.
pub fn accept_report(c: &mut Collector, report: &[u8], dst: u8) -> (taken: bool)
    ensures
        ({
            let r = spec_parse(report@);
            if r is Some && r->0.cmd == CMD_CONFIG && r->0.src == dst && old(c).pending().contains_key(
                r->0.seq,
            ) {
                &&& taken
                &&& final(c).pending() == old(c).pending().remove(r->0.seq)
                &&& final(c).found() == old(c).found().push(
                    (old(c).pending()[r->0.seq], r->0.data),
                )
            } else {
                &&& !taken
                &&& final(c).pending() == old(c).pending()
                &&& final(c).found() == old(c).found()
            }
        }),
{
    match gnp::parse(report) {
        Some(r) => {
            if r.cmd != CMD_CONFIG || r.src != dst {
                return false;
            }
            c.offer(r.seq, r.data)
        },
        None => false,
    }
}

/// Sequence number of a write request.
pub const WRITE_SEQ: u8 = 0x21;

/// What a write of `raw` to `def` carries: the sub-item, then the value.
pub fn write_payload(def: &Def, raw: u8) -> (r: Vec<u8>)
    ensures
        r@ == def.request@.push(raw),
{
    let mut out = slice_to_vec(def.request);
    out.push(raw);
    out
}

/// The hidraw request that sets `def` to `raw` at address `dst`.
///
/// Only where the value has a byte to itself: a setting that shares one with
/// its neighbours would need the rest of that byte carried over, and that is
/// not established, so there is no request for it.
pub fn write_packet(dst: u8, def: &Def, raw: u8) -> (r: Option<[u8; 64]>)
    ensures
        def.mask != 0 ==> r is None,
        def.mask == 0 ==> (r matches Some(p) && p@ == spec_report(
            spec_body(TYPE_WRITE, dst, WRITE_SEQ, CMD_CONFIG, def.sub, def.request@.push(raw)),
        )),
{
    if def.mask != 0 {
        return None;
    }
    let payload = write_payload(def, raw);
    Some(gnp::write_request(dst, WRITE_SEQ, CMD_CONFIG, def.sub, payload.as_slice()))
}

} // verus!
