//! Raw reports of the Jabra hidraw nodes.
//!
//! The detour through hidraw is necessary because the Link 380 declares the
//! multi-function button as `81 07` in its report descriptor. Bit 0 of that
//! input flag means Constant, and `hid-input.c` skips constant fields, so the
//! kernel allocates no key code for it. Over evdev the button is unreachable
//! for that reason, while the raw report states it plainly.
use vstd::prelude::*;

use crate::textual::{
    chars_of, chars_to_string, control, first_field, is_control, lemma_first_sep, lemma_no_sep,
    line_field, lines, pieces, text_eq, trim, trimmed_range,
};

verus! {

pub const JABRA_VENDOR: u32 = 0x0b0e;

/// What the reader of a hidraw node hands to the daemon.
pub enum Msg {
    Report(String, Vec<u8>),
    Closed(String),
}

/// Actions the daemon derives from a bit change.
pub enum Action {
    /// MPRIS method, triggered on the rising edge.
    Mpris(&'static str),
}

pub open spec fn spec_action_for(report: u8, bit: u32) -> Option<&'static str> {
    if report == 1 && (bit == 9 || bit == 10) {
        Some("PlayPause")
    } else {
        None
    }
}

/// Only the bits the kernel discards over the constant flag. Anything arriving
/// as `KEY_*` — the volume rocker above all — is handled by the desktop
/// already; repeating it here would fire every key twice.
///
/// The multi-function button alternates between Pause (bit 9) and Play
/// (bit 10), following whatever state the headset assumes. Mapping both to
/// PlayPause is sturdier than taking the bits literally: once that assumption
/// drifts, a literal "Pause" on an already paused player would do nothing.
pub fn action_for(report: u8, bit: u32) -> (r: Option<Action>)
    ensures
        match r {
            Some(Action::Mpris(m)) => spec_action_for(report, bit) == Some(m),
            None => spec_action_for(report, bit) is None,
        },
{
    if report == 1 && (bit == 9 || bit == 10) {
        Some(Action::Mpris("PlayPause"))
    } else {
        // Report 2 bit 2 (Line) tracks playback state rather than the boom
        // arm; mapping it would make every key press toggle something else as
        // well. The arm reports nothing over hidraw at all.
        None
    }
}

pub open spec fn spec_bit_name(report: u8, bit: u32) -> &'static str {
    if report == 1 && bit == 0 {
        "VolumeDown"
    } else if report == 1 && bit == 1 {
        "VolumeUp"
    } else if report == 1 && bit == 2 {
        "Mute"
    } else if report == 1 && bit == 3 {
        "PlayPause"
    } else if report == 1 && bit == 4 {
        "Stop"
    } else if report == 1 && bit == 5 {
        "Next"
    } else if report == 1 && bit == 6 {
        "Previous"
    } else if report == 1 && bit == 7 {
        "FastForward"
    } else if report == 1 && bit == 8 {
        "Rewind"
    } else if report == 1 && bit == 9 {
        "Pause"
    } else if report == 1 && bit == 10 {
        "Play"
    } else if report == 2 && bit == 0 {
        "HookSwitch"
    } else if report == 2 && bit == 2 {
        "Line (Streamstatus)"
    } else if report == 2 && bit == 3 {
        "PhoneMute"
    } else if report == 2 && bit == 4 {
        "Flash"
    } else if report == 2 && bit == 5 {
        "Redial"
    } else if report == 2 && bit == 6 {
        "SpeedDial"
    } else if report == 2 && bit == 11 {
        "ProgrammableButton"
    } else if report == 4 && bit == 0 {
        "HookSwitch (vendor)"
    } else if report == 4 && bit == 3 {
        "Line (Streamstatus, vendor)"
    } else if report == 4 && bit == 4 {
        "PhoneMute (vendor)"
    } else {
        "?"
    }
}

/// The usage behind a bit of a report, for the debug output. Report 4 mirrors
/// report 2 on a vendor page, offset by one bit.
pub fn bit_name(report: u8, bit: u32) -> (r: &'static str)
    ensures
        r == spec_bit_name(report, bit),
{
    match (report, bit) {
        (1, 0) => "VolumeDown",
        (1, 1) => "VolumeUp",
        (1, 2) => "Mute",
        (1, 3) => "PlayPause",
        (1, 4) => "Stop",
        (1, 5) => "Next",
        (1, 6) => "Previous",
        (1, 7) => "FastForward",
        (1, 8) => "Rewind",
        (1, 9) => "Pause",
        (1, 10) => "Play",
        (2, 0) => "HookSwitch",
        (2, 2) => "Line (Streamstatus)",
        (2, 3) => "PhoneMute",
        (2, 4) => "Flash",
        (2, 5) => "Redial",
        (2, 6) => "SpeedDial",
        (2, 11) => "ProgrammableButton",
        (4, 0) => "HookSwitch (vendor)",
        (4, 3) => "Line (Streamstatus, vendor)",
        (4, 4) => "PhoneMute (vendor)",
        _ => "?",
    }
}

/// 256 to the power `n`.
pub open spec fn place(n: nat) -> nat
    decreases n,
{
    if n == 0 {
        1
    } else {
        256 * place((n - 1) as nat)
    }
}

/// The number little-endian bytes stand for.
pub open spec fn le_value(s: Seq<u8>) -> nat
    decreases s.len(),
{
    if s.len() == 0 {
        0
    } else {
        le_value(s.drop_last()) + s.last() as nat * place((s.len() - 1) as nat)
    }
}

/// The bytes of a report that make up its bit field: up to four after the
/// report id.
pub open spec fn payload(data: Seq<u8>) -> Seq<u8> {
    if data.len() <= 1 {
        Seq::empty()
    } else if data.len() <= 5 {
        data.subrange(1, data.len() as int)
    } else {
        data.subrange(1, 5)
    }
}

/// The first four payload bytes of a report as a bit field, little-endian.
#[verifier::spinoff_prover]
pub fn payload_bits(data: &[u8]) -> (bits: u32)
    ensures
        bits as nat == le_value(payload(data@)),
{
    let n: usize = if data.len() <= 1 {
        0
    } else if data.len() <= 5 {
        data.len() - 1
    } else {
        4
    };
    let ghost p = payload(data@);
    assert(p.len() == n);
    let mut bits: u32 = 0;
    let mut i: usize = 0;
    while i < n
        invariant
            n <= 4,
            n == p.len(),
            p == payload(data@),
            n <= data@.len(),
            n > 0 ==> n + 1 <= data@.len(),
            i <= n,
            bits as nat == le_value(p.take(i as int)),
            (bits as nat) < place(i as nat),
        decreases n - i,
    {
        let b = data[1 + i];
        assert(b == p[i as int]);
        let shifted = (b as u32) << ((8 * i) as u32);
        let ghost old_bits = bits;
        proof {
            reveal_with_fuel(place, 5);
            if i == 0 {
                assert(shifted == (b as u32) << 0u32);
                assert(old_bits == 0);
                assert(((b as u32) << 0u32) == b as u32) by (bit_vector);
                assert(0u32 | (b as u32) == b as u32) by (bit_vector);
            } else if i == 1 {
                assert(shifted == (b as u32) << 8u32);
                assert(old_bits < 256 ==> old_bits | ((b as u32) << 8u32) == old_bits + (b as u32)
                    * 256) by (bit_vector);
            } else if i == 2 {
                assert(shifted == (b as u32) << 16u32);
                assert(old_bits < 65536 ==> old_bits | ((b as u32) << 16u32) == old_bits + (b
                    as u32) * 65536) by (bit_vector);
            } else {
                assert(shifted == (b as u32) << 24u32);
                assert(old_bits < 16777216 ==> old_bits | ((b as u32) << 24u32) == old_bits + (b
                    as u32) * 16777216) by (bit_vector);
            }
        }
        bits = bits | shifted;
        proof {
            let t = p.take(i + 1);
            assert(t.drop_last() =~= p.take(i as int));
            assert(t.last() == b);
        }
        i = i + 1;
    }
    assert(p.take(n as int) =~= p);
    bits
}

/// The methods a report's bit change triggers: for every bit from low to
/// high that went from 0 to 1 and has an action.
pub open spec fn rising(report: u8, prev: u32, bits: u32, n: nat) -> Seq<&'static str>
    decreases n,
{
    if n == 0 {
        Seq::empty()
    } else {
        let k = (n - 1) as u32;
        let before = rising(report, prev, bits, (n - 1) as nat);
        if (prev >> k) & 1 == 0 && (bits >> k) & 1 == 1 && spec_action_for(report, k) is Some {
            before.push(spec_action_for(report, k)->0)
        } else {
            before
        }
    }
}

/// The MPRIS methods a new bit state of `report` triggers, given the state
/// before: on the rising edge only, so a held key fires once.
pub fn rising_actions(report: u8, prev: u32, bits: u32) -> (r: Vec<&'static str>)
    ensures
        r@ == rising(report, prev, bits, 32),
{
    let changed = bits ^ prev;
    let mut out: Vec<&'static str> = Vec::new();
    let mut bit: u32 = 0;
    while bit < 32
        invariant
            bit <= 32,
            changed == bits ^ prev,
            out@ == rising(report, prev, bits, bit as nat),
        decreases 32 - bit,
    {
        let c = (changed >> bit) & 1;
        let on = (bits >> bit) & 1 == 1;
        assert(((bits ^ prev) >> bit) & 1 == 1 && (bits >> bit) & 1 == 1 <==> (prev >> bit) & 1
            == 0 && (bits >> bit) & 1 == 1) by (bit_vector);
        if c != 0 && on {
            assert(c == 1) by (bit_vector)
                requires
                    c == (changed >> bit) & 1,
                    c != 0,
            ;
            match action_for(report, bit) {
                Some(Action::Mpris(m)) => {
                    out.push(m);
                },
                None => {},
            }
        } else {
            assert(c == 0 || c == 1) by (bit_vector)
                requires
                    c == (changed >> bit) & 1,
            ;
        }
        bit = bit + 1;
    }
    out
}

/// Law: the same state twice triggers nothing — a key that is held does not
/// repeat its action.
pub proof fn law_unchanged_state_is_quiet(report: u8, bits: u32, n: nat)
    ensures
        rising(report, bits, bits, n) == Seq::<&'static str>::empty(),
    decreases n,
{
    if n > 0 {
        law_unchanged_state_is_quiet(report, bits, (n - 1) as nat);
    }
}

/// Law: only the play and pause bits of report 1 ever trigger anything, and
/// what they trigger is PlayPause.
pub proof fn law_only_play_pause(report: u8, prev: u32, bits: u32, n: nat, i: int)
    requires
        0 <= i < rising(report, prev, bits, n).len(),
    ensures
        report == 1,
        rising(report, prev, bits, n)[i] == "PlayPause",
    decreases n,
{
    if n > 0 {
        let k = (n - 1) as u32;
        let before = rising(report, prev, bits, (n - 1) as nat);
        if i < before.len() {
            law_only_play_pause(report, prev, bits, (n - 1) as nat, i);
        }
    }
}

/// The product string reaches a menu label, a dialog and a notification body,
/// and the device is free to put control characters in it. White space at
/// either end goes as well.
pub open spec fn cleaned(name: Seq<char>) -> Seq<char> {
    trim(name).filter(|c: char| !is_control(c))
}

pub fn clean(name: &str) -> (r: String)
    ensures
        r@ == cleaned(name@),
{
    let s = chars_of(name);
    let (i, j) = trimmed_range(&s, 0, s.len());
    assert(s@.subrange(0, s@.len() as int) =~= s@);
    let ghost t = s@.subrange(i as int, j as int);
    let ghost keep = |c: char| !is_control(c);
    let mut out: Vec<char> = Vec::new();
    let mut k = i;
    while k < j
        invariant
            i <= k <= j <= s@.len(),
            t == s@.subrange(i as int, j as int),
            keep == (|c: char| !is_control(c)),
            out@ == t.take(k - i).filter(keep),
        decreases j - k,
    {
        let c = s[k];
        proof {
            assert(t.take(k - i + 1) =~= t.take(k - i).push(c));
            t.take(k - i).lemma_filter_push(c, keep);
        }
        if !control(c) {
            out.push(c);
        }
        k = k + 1;
    }
    assert(t.take(j - i) =~= t);
    chars_to_string(&out)
}

/// Law: a cleaned name holds no control character.
pub proof fn law_clean_has_no_controls(name: Seq<char>, i: int)
    requires
        0 <= i < cleaned(name).len(),
    ensures
        !is_control(cleaned(name)[i]),
{
    let keep = |c: char| !is_control(c);
    trim(name).lemma_filter_pred(keep, i);
}

/// The name of the device a hidraw uevent describes: its `HID_NAME`, cleaned.
pub fn uevent_name(uevent: &str) -> (r: Option<String>)
    ensures
        r is Some <==> first_field(lines(uevent@), "HID_NAME="@) is Some,
        r matches Some(n) ==> n@ == cleaned(first_field(lines(uevent@), "HID_NAME="@)->0),
{
    match line_field(uevent, "HID_NAME=") {
        Some(v) => Some(clean(v.as_str())),
        None => None,
    }
}

/// The name shown for a Jabra device: its `HID_NAME`, or "Jabra" without one,
/// cleaned either way.
pub fn shown_name(uevent: &str) -> (r: String)
    ensures
        r@ == cleaned(
            match first_field(lines(uevent@), "HID_NAME="@) {
                Some(v) => v,
                None => "Jabra"@,
            },
        ),
{
    match line_field(uevent, "HID_NAME=") {
        Some(v) => clean(v.as_str()),
        None => clean("Jabra"),
    }
}

/// The value of a hexadecimal digit, if `c` is one.
pub open spec fn hex_val(c: char) -> Option<nat> {
    let u = c as u32;
    if 0x30 <= u && u <= 0x39 {
        Some((u - 0x30) as nat)
    } else if 0x61 <= u && u <= 0x66 {
        Some((u - 0x61 + 10) as nat)
    } else if 0x41 <= u && u <= 0x46 {
        Some((u - 0x41 + 10) as nat)
    } else {
        None
    }
}

/// The number hexadecimal digits stand for, if they all are digits.
pub open spec fn hex_number(s: Seq<char>) -> Option<nat>
    decreases s.len(),
{
    if s.len() == 0 {
        Some(0)
    } else {
        match (hex_number(s.drop_last()), hex_val(s.last())) {
            (Some(a), Some(d)) => Some(a * 16 + d),
            _ => None,
        }
    }
}

/// A hexadecimal `u32` as `u32::from_str_radix(s, 16)` reads it: an optional
/// leading `+`, then at least one digit, and no overflow.
pub open spec fn spec_parse_hex(s: Seq<char>) -> Option<u32> {
    let d = if s.len() > 1 && s[0] == '+' {
        s.drop_first()
    } else {
        s
    };
    if d.len() == 0 {
        None
    } else {
        match hex_number(d) {
            Some(v) => if v <= u32::MAX {
                Some(v as u32)
            } else {
                None
            },
            None => None,
        }
    }
}

proof fn lemma_hex_number_grows(s: Seq<char>, i: int)
    requires
        0 <= i <= s.len(),
        hex_number(s) is Some,
    ensures
        hex_number(s.take(i)) is Some,
        hex_number(s.take(i))->0 <= hex_number(s)->0,
    decreases s.len() - i,
{
    if i < s.len() {
        assert(s.drop_last().take(i) =~= s.take(i));
        lemma_hex_number_grows(s.drop_last(), i);
    } else {
        assert(s.take(i) =~= s);
    }
}

fn hex_digit_value(c: char) -> (r: Option<u32>)
    ensures
        r matches Some(v) ==> hex_val(c) == Some(v as nat) && v < 16,
        r is None ==> hex_val(c) is None,
{
    let u = c as u32;
    if 0x30 <= u && u <= 0x39 {
        Some(u - 0x30)
    } else if 0x61 <= u && u <= 0x66 {
        Some(u - 0x61 + 10)
    } else if 0x41 <= u && u <= 0x46 {
        Some(u - 0x41 + 10)
    } else {
        None
    }
}

fn parse_hex(s: &Vec<char>, from: usize, to: usize) -> (r: Option<u32>)
    requires
        from <= to <= s@.len(),
    ensures
        r == spec_parse_hex(s@.subrange(from as int, to as int)),
{
    let ghost all = s@.subrange(from as int, to as int);
    let start = if to - from > 1 && s[from] == '+' {
        from + 1
    } else {
        from
    };
    let ghost d = s@.subrange(start as int, to as int);
    assert(d =~= (if all.len() > 1 && all[0] == '+' {
        all.drop_first()
    } else {
        all
    }));
    if start == to {
        return None;
    }
    let mut v: u64 = 0;
    let mut i = start;
    while i < to
        invariant
            from <= start <= i <= to <= s@.len(),
            start < to,
            d == s@.subrange(start as int, to as int),
            all == s@.subrange(from as int, to as int),
            d == (if all.len() > 1 && all[0] == '+' {
                all.drop_first()
            } else {
                all
            }),
            hex_number(d.take(i - start)) == Some(v as nat),
            v <= u32::MAX,
        decreases to - i,
    {
        assert(d.take(i - start + 1).drop_last() =~= d.take(i - start));
        assert(d.take(i - start + 1).last() == s@[i as int]);
        match hex_digit_value(s[i]) {
            Some(x) => {
                let w = v * 16 + (x as u64);
                assert(hex_number(d.take(i - start + 1)) == Some(w as nat));
                if w > 0xffff_ffff {
                    proof {
                        if hex_number(d) is Some {
                            lemma_hex_number_grows(d, i - start + 1);
                            let len = d.len();
                            assert(hex_number(d)->0 > u32::MAX);
                        }
                    }
                    return None;
                }
                v = w;
            },
            None => {
                assert(hex_number(d.take(i - start + 1)) is None);
                proof {
                    if hex_number(d) is Some {
                        lemma_hex_number_grows(d, i - start + 1);
                    }
                }
                return None;
            },
        }
        i = i + 1;
    }
    assert(d.take(to - start) =~= d);
    Some(v as u32)
}

/// The vendor in a `HID_ID` of the form `BUS:VENDOR:PRODUCT` in hex: the second
/// piece between colons, trimmed.
pub open spec fn spec_vendor_of(id: Seq<char>) -> Option<u32> {
    let p = pieces(id, ':');
    if p.len() > 1 {
        spec_parse_hex(trim(p[1]))
    } else {
        None
    }
}

pub fn vendor_of(id: &str) -> (r: Option<u32>)
    ensures
        r == spec_vendor_of(id@),
{
    let s = chars_of(id);
    let n = s.len();
    let mut i: usize = 0;
    while i < n && s[i] != ':'
        invariant
            n == s@.len(),
            i <= n,
            forall|j: int| 0 <= j < i ==> s@[j] != ':',
        decreases n - i,
    {
        i = i + 1;
    }
    if i == n {
        proof {
            lemma_no_sep(s@, ':');
        }
        return None;
    }
    proof {
        lemma_first_sep(s@, ':', i as int);
    }
    let ghost rest = s@.skip(i + 1);
    let mut j: usize = i + 1;
    while j < n && s[j] != ':'
        invariant
            n == s@.len(),
            i < j <= n,
            forall|k: int| i < k < j ==> s@[k] != ':',
        decreases n - j,
    {
        j = j + 1;
    }
    proof {
        if j < n {
            assert(rest[j - i - 1] == ':');
            lemma_first_sep(rest, ':', j - i - 1);
            assert(rest.take(j - i - 1) =~= s@.subrange(i + 1, j as int));
        } else {
            assert forall|k: int| 0 <= k < rest.len() implies rest[k] != ':' by {
                assert(rest[k] == s@[i + 1 + k]);
            }
            lemma_no_sep(rest, ':');
            assert(rest =~= s@.subrange(i + 1, j as int));
        }
        assert(pieces(s@, ':')[1] == s@.subrange(i + 1, j as int));
    }
    let (a, b) = trimmed_range(&s, i + 1, j);
    parse_hex(&s, a, b)
}

/// The vendor a hidraw uevent names in its `HID_ID` line, if it names one.
pub open spec fn spec_uevent_vendor(uevent: Seq<char>) -> Option<u32> {
    match first_field(lines(uevent), "HID_ID="@) {
        Some(id) => spec_vendor_of(id),
        None => None,
    }
}

/// Whether a hidraw uevent describes a Jabra device, by vendor id rather than
/// by model.
pub fn is_jabra(uevent: &str) -> (r: bool)
    ensures
        r == (spec_uevent_vendor(uevent@) == Some(JABRA_VENDOR)),
{
    match line_field(uevent, "HID_ID=") {
        Some(id) => vendor_of(id.as_str()) == Some(JABRA_VENDOR),
        None => false,
    }
}

/// The bits last seen per node and report, as recorded in `s`: the first entry
/// for them, and 0 for a pair never seen.
pub open spec fn first_bits(s: Seq<(Seq<char>, u8, u32)>, node: Seq<char>, report: u8) -> u32
    decreases s.len(),
{
    if s.len() == 0 {
        0
    } else if s[0].0 == node && s[0].1 == report {
        s[0].2
    } else {
        first_bits(s.skip(1), node, report)
    }
}

/// `s` without the entries of `node`.
pub open spec fn without_node(s: Seq<(Seq<char>, u8, u32)>, node: Seq<char>) -> Seq<(Seq<char>, u8, u32)>
    decreases s.len(),
{
    if s.len() == 0 {
        s
    } else if s[0].0 == node {
        without_node(s.skip(1), node)
    } else {
        seq![s[0]] + without_node(s.skip(1), node)
    }
}

proof fn lemma_first_bits_update(s: Seq<(Seq<char>, u8, u32)>, i: int, b: u32, node: Seq<char>, report: u8)
    requires
        0 <= i < s.len(),
        forall|j: int| 0 <= j < i ==> !(s[j].0 == s[i].0 && s[j].1 == s[i].1),
    ensures
        first_bits(s.update(i, (s[i].0, s[i].1, b)), node, report) == (if node == s[i].0 && report
            == s[i].1 {
            b
        } else {
            first_bits(s, node, report)
        }),
    decreases i,
{
    let t = s.update(i, (s[i].0, s[i].1, b));
    if i > 0 {
        assert(t[0] == s[0]);
        assert(s.skip(1)[i - 1] == s[i]);
        assert(t.skip(1) =~= s.skip(1).update(i - 1, (s[i].0, s[i].1, b)));
        lemma_first_bits_update(s.skip(1), i - 1, b, node, report);
    } else {
        assert(t[0] == (s[0].0, s[0].1, b));
        assert(t.skip(1) =~= s.skip(1));
    }
}

proof fn lemma_first_bits_push(s: Seq<(Seq<char>, u8, u32)>, x: (Seq<char>, u8, u32), node: Seq<char>, report: u8)
    requires
        forall|j: int| 0 <= j < s.len() ==> !(s[j].0 == x.0 && s[j].1 == x.1),
    ensures
        first_bits(s.push(x), node, report) == (if node == x.0 && report == x.1 {
            x.2
        } else {
            first_bits(s, node, report)
        }),
    decreases s.len(),
{
    if s.len() == 0 {
        assert(s.push(x)[0] == x);
        assert(s.push(x).skip(1) =~= Seq::<(Seq<char>, u8, u32)>::empty());
        assert(first_bits(Seq::<(Seq<char>, u8, u32)>::empty(), node, report) == 0);
    } else {
        assert(s.push(x)[0] == s[0]);
        assert(s.push(x).skip(1) =~= s.skip(1).push(x));
        assert forall|j: int| 0 <= j < s.skip(1).len() implies !(s.skip(1)[j].0 == x.0
            && s.skip(1)[j].1 == x.1) by {
            assert(s.skip(1)[j] == s[j + 1]);
        }
        lemma_first_bits_push(s.skip(1), x, node, report);
    }
}

proof fn lemma_first_bits_without(s: Seq<(Seq<char>, u8, u32)>, gone: Seq<char>, node: Seq<char>, report: u8)
    ensures
        first_bits(without_node(s, gone), node, report) == (if node == gone {
            0
        } else {
            first_bits(s, node, report)
        }),
    decreases s.len(),
{
    if s.len() > 0 {
        lemma_first_bits_without(s.skip(1), gone, node, report);
        if s[0].0 != gone {
            let w = without_node(s, gone);
            assert(w.skip(1) =~= without_node(s.skip(1), gone));
        }
    }
}

/// The key bits last seen per hidraw node and report, so that only a change
/// acts. A pair never seen counts as all bits released.
pub struct KeyStates {
    entries: Vec<(String, u8, u32)>,
}

impl KeyStates {
    pub closed spec fn entries_view(&self) -> Seq<(Seq<char>, u8, u32)> {
        self.entries@.map_values(|e: (String, u8, u32)| (e.0@, e.1, e.2))
    }

    /// The bits last seen for `report` of `node`.
    pub open spec fn bits(&self, node: Seq<char>, report: u8) -> u32 {
        first_bits(self.entries_view(), node, report)
    }

    /// Nothing seen yet.
    pub fn new() -> (r: Self)
        ensures
            forall|node: Seq<char>, report: u8| r.bits(node, report) == 0,
    {
        let r = KeyStates { entries: Vec::new() };
        assert(r.entries_view() =~= Seq::<(Seq<char>, u8, u32)>::empty());
        r
    }

    /// Records `bits` for `report` of `node` and hands back what was recorded
    /// before.
    pub fn swap(&mut self, node: &str, report: u8, bits: u32) -> (before: u32)
        ensures
            before == old(self).bits(node@, report),
            forall|n: Seq<char>, r: u8|
                #[trigger] final(self).bits(n, r) == (if n == node@ && r == report {
                    bits
                } else {
                    old(self).bits(n, r)
                }),
    {
        let ghost s = self.entries_view();
        let mut i: usize = 0;
        assert(s.skip(0) =~= s);
        while i < self.entries.len()
            invariant
                s == self.entries_view(),
                s == old(self).entries_view(),
                s.len() == self.entries@.len(),
                i <= s.len(),
                forall|j: int| 0 <= j < i ==> !(s[j].0 == node@ && s[j].1 == report),
                first_bits(s, node@, report) == first_bits(s.skip(i as int), node@, report),
            decreases s.len() - i,
        {
            assert(s[i as int] == (self.entries@[i as int].0@, self.entries@[i as int].1, self.entries@[i as int].2));
            assert(s.skip(i as int).skip(1) =~= s.skip(i + 1));
            if text_eq(self.entries[i].0.as_str(), node) && self.entries[i].1 == report {
                let before = self.entries[i].2;
                assert(s.skip(i as int)[0] == s[i as int]);
                let name = self.entries[i].0.clone();
                let ghost k = s[i as int];
                self.entries.set(i, (name, report, bits));
                proof {
                    assert(self.entries_view() =~= s.update(i as int, (k.0, k.1, bits)));
                    assert forall|n: Seq<char>, r: u8| #[trigger] self.bits(n, r) == (if n == node@
                        && r == report {
                        bits
                    } else {
                        first_bits(s, n, r)
                    }) by {
                        lemma_first_bits_update(s, i as int, bits, n, r);
                    }
                }
                return before;
            }
            i = i + 1;
        }
        let ghost x = (node@, report, bits);
        self.entries.push((chars_to_string(&chars_of(node)), report, bits));
        proof {
            assert(self.entries_view() =~= s.push(x));
            assert(s.skip(s.len() as int) =~= Seq::<(Seq<char>, u8, u32)>::empty());
            assert forall|n: Seq<char>, r: u8| #[trigger] self.bits(n, r) == (if n == node@ && r
                == report {
                bits
            } else {
                first_bits(s, n, r)
            }) by {
                lemma_first_bits_push(s, x, n, r);
            }
        }
        0
    }

    /// Forgets everything seen of `node`, as when it goes away.
    pub fn forget(&mut self, node: &str)
        ensures
            forall|n: Seq<char>, r: u8|
                #[trigger] final(self).bits(n, r) == (if n == node@ {
                    0
                } else {
                    old(self).bits(n, r)
                }),
    {
        let ghost s = self.entries_view();
        let mut kept: Vec<(String, u8, u32)> = Vec::new();
        let mut i: usize = 0;
        assert(s.skip(0) =~= s);
        while i < self.entries.len()
            invariant
                s == self.entries_view(),
                s == old(self).entries_view(),
                s.len() == self.entries@.len(),
                i <= s.len(),
                without_node(s, node@) == kept@.map_values(|e: (String, u8, u32)| (e.0@, e.1, e.2))
                    + without_node(s.skip(i as int), node@),
            decreases s.len() - i,
        {
            assert(s[i as int] == (self.entries@[i as int].0@, self.entries@[i as int].1, self.entries@[i as int].2));
            assert(s.skip(i as int).skip(1) =~= s.skip(i + 1));
            let ghost kv = kept@.map_values(|e: (String, u8, u32)| (e.0@, e.1, e.2));
            if !text_eq(self.entries[i].0.as_str(), node) {
                let e = (self.entries[i].0.clone(), self.entries[i].1, self.entries[i].2);
                kept.push(e);
                assert(kept@.map_values(|e: (String, u8, u32)| (e.0@, e.1, e.2)) =~= kv.push(
                    s[i as int],
                ));
                assert(kv.push(s[i as int]) + without_node(s.skip(i + 1), node@) =~= kv + (seq![
                    s[i as int],
                ] + without_node(s.skip(i + 1), node@)));
            }
            i = i + 1;
        }
        proof {
            assert(s.skip(s.len() as int) =~= Seq::<(Seq<char>, u8, u32)>::empty());
            assert(kept@.map_values(|e: (String, u8, u32)| (e.0@, e.1, e.2)) =~= without_node(s, node@));
        }
        self.entries = kept;
        proof {
            assert forall|n: Seq<char>, r: u8| #[trigger] self.bits(n, r) == (if n == node@ {
                0
            } else {
                first_bits(s, n, r)
            }) by {
                lemma_first_bits_without(s, node@, n, r);
            }
        }
    }
}

} // verus!
