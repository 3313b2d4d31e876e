//! The texts the dialogs and notifications show: setting values, reports on
//! writes, the device information, and the escaping that keeps a device name
//! from styling the text it is shown in.
use vstd::prelude::*;
use vstd::string::StringExecFns;

use crate::config::{Choice, Def, Kind};
use crate::daemon::{opt_view, DeviceInfo};
use crate::mpris::PlayerInfo;
use crate::gnp::Ack;
use crate::i18n::{spec_de, spec_en, strings, Strings};
use crate::textual::{
    before_sep, chars_of, chars_to_string, decimal, decimal_u8, hex2, hex_byte, join, owned,
    pieces, seq_join, signed_decimal, signed_text, trim, trim_text,
};

verus! {

/// The texts of the interface language.
pub open spec fn texts(german: bool) -> Strings {
    if german {
        spec_de()
    } else {
        spec_en()
    }
}

/// How a character reads in markup: the three that markup parses become
/// entities.
pub open spec fn esc(c: char) -> Seq<char> {
    if c == '&' {
        seq!['&', 'a', 'm', 'p', ';']
    } else if c == '<' {
        seq!['&', 'l', 't', ';']
    } else if c == '>' {
        seq!['&', 'g', 't', ';']
    } else {
        seq![c]
    }
}

pub open spec fn escaped(s: Seq<char>) -> Seq<char>
    decreases s.len(),
{
    if s.len() == 0 {
        Seq::empty()
    } else {
        escaped(s.drop_last()) + esc(s.last())
    }
}

/// Whether an entity that `esc` writes begins at `i` of `t`, all of it
/// inside `t`.
pub open spec fn entity_at(t: Seq<char>, i: int) -> bool {
    ||| (i + 5 <= t.len() && t.subrange(i, i + 5) == esc('&'))
    ||| (i + 4 <= t.len() && t.subrange(i, i + 4) == esc('<'))
    ||| (i + 4 <= t.len() && t.subrange(i, i + 4) == esc('>'))
}

/// Reads escaped text back: each entity `esc` writes turns into its character
/// again, everything else stays.
pub open spec fn unescaped(t: Seq<char>) -> Seq<char>
    decreases t.len(),
{
    if t.len() >= 5 && t.skip(t.len() - 5) == esc('&') {
        unescaped(t.take(t.len() - 5)).push('&')
    } else if t.len() >= 4 && t.skip(t.len() - 4) == esc('<') {
        unescaped(t.take(t.len() - 4)).push('<')
    } else if t.len() >= 4 && t.skip(t.len() - 4) == esc('>') {
        unescaped(t.take(t.len() - 4)).push('>')
    } else if t.len() > 0 {
        unescaped(t.drop_last()).push(t.last())
    } else {
        t
    }
}

/// Law: in escaped text every `&` begins a whole entity, `&amp;`, `&lt;` or
/// `&gt;`; no ampersand is left bare and none is escaped twice over.
pub proof fn law_escaped_ampersands_open_entities(s: Seq<char>, i: int)
    requires
        0 <= i < escaped(s).len(),
        escaped(s)[i] == '&',
    ensures
        entity_at(escaped(s), i),
    decreases s.len(),
{
    if s.len() > 0 {
        let a = escaped(s.drop_last());
        let t = escaped(s);
        assert(t == a + esc(s.last()));
        if i < a.len() {
            assert(a[i] == t[i]);
            law_escaped_ampersands_open_entities(s.drop_last(), i);
            if i + 5 <= a.len() && a.subrange(i, i + 5) == esc('&') {
                assert(t.subrange(i, i + 5) =~= a.subrange(i, i + 5));
            } else if i + 4 <= a.len() && a.subrange(i, i + 4) == esc('<') {
                assert(t.subrange(i, i + 4) =~= a.subrange(i, i + 4));
            } else {
                assert(t.subrange(i, i + 4) =~= a.subrange(i, i + 4));
            }
        } else {
            let c = s.last();
            assert(t[i] == esc(c)[i - a.len()]);
            if c == '&' {
                assert(t.subrange(i, i + 5) =~= esc('&'));
            } else if c == '<' {
                assert(t.subrange(i, i + 4) =~= esc('<'));
            } else if c == '>' {
                assert(t.subrange(i, i + 4) =~= esc('>'));
            }
        }
    }
}

/// Law: escaping loses nothing. Reading the escaped text back gives the
/// text it was made from.
pub proof fn law_escape_round_trip(s: Seq<char>)
    ensures
        unescaped(escaped(s)) == s,
    decreases s.len(),
{
    if s.len() > 0 {
        let p = s.drop_last();
        let c = s.last();
        let a = escaped(p);
        let t = escaped(s);
        assert(t == a + esc(c));
        law_escape_round_trip(p);
        assert(s =~= p.push(c));
        if c == '&' {
            assert(t.skip(t.len() - 5) =~= esc('&'));
            assert(t.take(t.len() - 5) =~= a);
        } else if c == '<' {
            assert(t.skip(t.len() - 4) =~= esc('<'));
            assert(t.take(t.len() - 4) =~= a);
            assert(!(t.len() >= 5 && t.skip(t.len() - 5) == esc('&'))) by {
                if t.len() >= 5 {
                    assert(t[t.len() - 4] == '&');
                    assert(t.skip(t.len() - 5)[1] == t[t.len() - 4]);
                    assert(esc('&')[1] == 'a');
                }
            }
        } else if c == '>' {
            assert(t.skip(t.len() - 4) =~= esc('>'));
            assert(t.take(t.len() - 4) =~= a);
            assert(!(t.len() >= 5 && t.skip(t.len() - 5) == esc('&'))) by {
                if t.len() >= 5 {
                    assert(t[t.len() - 4] == '&');
                    assert(t.skip(t.len() - 5)[1] == t[t.len() - 4]);
                    assert(esc('&')[1] == 'a');
                }
            }
        } else {
            assert(t =~= a.push(c));
            assert(t.drop_last() =~= a);
            // No entity ends at `c`: an `&` four or three places back would
            // begin an entity that runs past the end of `a`.
            if t.len() >= 5 && t.skip(t.len() - 5) == esc('&') {
                let i = a.len() - 4;
                assert(a[i] == '&');
                law_escaped_ampersands_open_entities(p, i);
                assert(a[i + 1] == 'a');
            }
            if t.len() >= 4 && t.skip(t.len() - 4) == esc('<') {
                let i = a.len() - 3;
                assert(a[i] == '&');
                law_escaped_ampersands_open_entities(p, i);
                assert(a[i + 1] == 'l');
            }
            if t.len() >= 4 && t.skip(t.len() - 4) == esc('>') {
                let i = a.len() - 3;
                assert(a[i] == '&');
                law_escaped_ampersands_open_entities(p, i);
                assert(a[i + 1] == 'g');
            }
        }
    }
}

/// `t` with every occurrence of `pat` replaced by `by`, scanning from the
/// front as `str::replace` does.
pub open spec fn replaced(t: Seq<char>, pat: Seq<char>, by: Seq<char>) -> Seq<char>
    decreases t.len(),
{
    if pat.len() == 0 || t.len() < pat.len() {
        t
    } else if t.take(pat.len() as int) == pat {
        by + replaced(t.skip(pat.len() as int), pat, by)
    } else {
        seq![t[0]] + replaced(t.skip(1), pat, by)
    }
}

/// `s` with each character written as `f` writes it.
pub open spec fn mapped(s: Seq<char>, f: spec_fn(char) -> Seq<char>) -> Seq<char>
    decreases s.len(),
{
    if s.len() == 0 {
        Seq::empty()
    } else {
        f(s[0]) + mapped(s.skip(1), f)
    }
}

proof fn lemma_mapped_push(s: Seq<char>, c: char, f: spec_fn(char) -> Seq<char>)
    ensures
        mapped(s.push(c), f) == mapped(s, f) + f(c),
    decreases s.len(),
{
    if s.len() == 0 {
        assert(s.push(c).skip(1) =~= Seq::<char>::empty());
        assert(s.push(c)[0] == c);
        assert(mapped(Seq::<char>::empty(), f) == Seq::<char>::empty());
        assert(mapped(s.push(c), f) =~= f(c));
    } else {
        assert(s.push(c).skip(1) =~= s.skip(1).push(c));
        lemma_mapped_push(s.skip(1), c, f);
        assert(mapped(s.push(c), f) =~= mapped(s, f) + f(c));
    }
}

proof fn lemma_escaped_mapped(s: Seq<char>)
    ensures
        escaped(s) == mapped(s, |c: char| esc(c)),
    decreases s.len(),
{
    if s.len() > 0 {
        lemma_escaped_mapped(s.drop_last());
        lemma_mapped_push(s.drop_last(), s.last(), |c: char| esc(c));
        assert(s.drop_last().push(s.last()) =~= s);
    }
}

proof fn lemma_mapped_identity(s: Seq<char>)
    ensures
        mapped(s, |c: char| seq![c]) == s,
    decreases s.len(),
{
    if s.len() > 0 {
        lemma_mapped_identity(s.skip(1));
        assert(s =~= seq![s[0]] + s.skip(1));
    }
}

/// A piece the replacement of `pat` passes over whole: either `pat` itself,
/// or something whose only `&` is its first character and is not followed as
/// in `pat`.
pub open spec fn passes(u: Seq<char>, pat: Seq<char>) -> bool {
    &&& forall|k: int| 1 <= k < u.len() ==> u[k] != '&'
    &&& (u.len() > 0 && u[0] == '&' ==> u.len() >= 2 && pat.len() >= 2 && u[1] != pat[1])
}

proof fn lemma_replaced_plain(u: Seq<char>, rest: Seq<char>, pat: Seq<char>, by: Seq<char>)
    requires
        pat.len() > 0,
        pat[0] == '&',
        forall|k: int| 0 <= k < u.len() ==> u[k] != '&',
    ensures
        replaced(u + rest, pat, by) == u + replaced(rest, pat, by),
    decreases u.len(),
{
    if u.len() > 0 {
        let t = u + rest;
        lemma_replaced_plain(u.skip(1), rest, pat, by);
        assert(t.skip(1) =~= u.skip(1) + rest);
        if t.len() >= pat.len() {
            assert(t.take(pat.len() as int)[0] == u[0]);
        } else {
            assert(rest.len() < pat.len());
            assert(replaced(rest, pat, by) == rest);
            assert(replaced(u.skip(1) + rest, pat, by) == u.skip(1) + rest);
        }
        assert(u =~= seq![u[0]] + u.skip(1));
    } else {
        assert(u + rest =~= rest);
    }
}

proof fn lemma_replaced_piece(u: Seq<char>, rest: Seq<char>, pat: Seq<char>, by: Seq<char>)
    requires
        pat.len() > 0,
        pat[0] == '&',
        u == pat || passes(u, pat),
    ensures
        replaced(u + rest, pat, by) == (if u == pat {
            by
        } else {
            u
        }) + replaced(rest, pat, by),
{
    let t = u + rest;
    if u == pat {
        assert(t.take(pat.len() as int) =~= pat);
        assert(t.skip(pat.len() as int) =~= rest);
    } else if u.len() > 0 && u[0] == '&' {
        lemma_replaced_plain(u.skip(1), rest, pat, by);
        assert(t.skip(1) =~= u.skip(1) + rest);
        if t.len() >= pat.len() {
            assert(t.take(pat.len() as int)[1] == u[1]);
        } else {
            assert(rest.len() < pat.len());
            assert(replaced(rest, pat, by) == rest);
        }
        assert(u =~= seq![u[0]] + u.skip(1));
    } else {
        lemma_replaced_plain(u, rest, pat, by);
    }
}

proof fn lemma_replaced_mapped(
    s: Seq<char>,
    f: spec_fn(char) -> Seq<char>,
    g: spec_fn(char) -> Seq<char>,
    pat: Seq<char>,
    by: Seq<char>,
)
    requires
        pat.len() > 0,
        pat[0] == '&',
        forall|c: char|
            (#[trigger] f(c) == pat && g(c) == by) || (f(c) != pat && g(c) == f(c) && passes(
                f(c),
                pat,
            )),
    ensures
        replaced(mapped(s, f), pat, by) == mapped(s, g),
    decreases s.len(),
{
    if s.len() == 0 {
        assert(replaced(Seq::<char>::empty(), pat, by) == Seq::<char>::empty());
    } else {
        lemma_replaced_mapped(s.skip(1), f, g, pat, by);
        lemma_replaced_piece(f(s[0]), mapped(s.skip(1), f), pat, by);
    }
}

/// Law: replacing `&lt;` by `<`, then `&gt;` by `>`, then `&amp;` by `&` in
/// escaped text, each from the front as `str::replace` does, gives the text
/// back that was escaped.
pub proof fn law_escape_undone_by_replacing(s: Seq<char>)
    ensures
        replaced(
            replaced(replaced(escaped(s), esc('<'), seq!['<']), esc('>'), seq!['>']),
            esc('&'),
            seq!['&'],
        ) == s,
{
    let f0 = |c: char| esc(c);
    let f1 = |c: char|
        if c == '<' {
            seq![c]
        } else {
            esc(c)
        };
    let f2 = |c: char|
        if c == '<' || c == '>' {
            seq![c]
        } else {
            esc(c)
        };
    let f3 = |c: char| seq![c];
    lemma_escaped_mapped(s);
    assert forall|c: char|
        (#[trigger] f0(c) == esc('<') && f1(c) == seq!['<']) || (f0(c) != esc('<') && f1(c) == f0(c)
            && passes(f0(c), esc('<'))) by {
        if c == '&' {
            assert(f0(c) != esc('<')) by { assert(f0(c)[1] != esc('<')[1]); }
        } else if c == '>' {
            assert(f0(c) != esc('<')) by { assert(f0(c)[1] != esc('<')[1]); }
        } else if c != '<' {
            assert(f0(c) != esc('<')) by { assert(f0(c).len() != esc('<').len()); }
        }
    }
    lemma_replaced_mapped(s, f0, f1, esc('<'), seq!['<']);
    assert forall|c: char|
        (#[trigger] f1(c) == esc('>') && f2(c) == seq!['>']) || (f1(c) != esc('>') && f2(c) == f1(c)
            && passes(f1(c), esc('>'))) by {
        if c == '&' {
            assert(f1(c) != esc('>')) by { assert(f1(c)[1] != esc('>')[1]); }
        } else if c != '>' {
            assert(f1(c) != esc('>')) by { assert(f1(c).len() != esc('>').len()); }
        }
    }
    lemma_replaced_mapped(s, f1, f2, esc('>'), seq!['>']);
    assert forall|c: char|
        (#[trigger] f2(c) == esc('&') && f3(c) == seq!['&']) || (f2(c) != esc('&') && f3(c) == f2(c)
            && passes(f2(c), esc('&'))) by {
        if c != '&' {
            assert(f2(c) != esc('&')) by { assert(f2(c).len() != esc('&').len()); }
            assert(f3(c) =~= f2(c));
        }
    }
    lemma_replaced_mapped(s, f2, f3, esc('&'), seq!['&']);
    lemma_mapped_identity(s);
}

/// Escapes the markup both sinks understand.
///
/// zenity parses its text as Pango markup and the notification body allows a
/// subset of HTML, so a device that calls itself `<b>` would otherwise style
/// what it is displayed in.
pub fn escape_markup(s: &str) -> (r: String)
    ensures
        r@ == escaped(s@),
{
    let v = chars_of(s);
    let mut out: Vec<char> = Vec::new();
    let mut i: usize = 0;
    while i < v.len()
        invariant
            i <= v@.len(),
            out@ == escaped(v@.take(i as int)),
        decreases v@.len() - i,
    {
        let c = v[i];
        let ghost before = out@;
        if c == '&' {
            out.push('&');
            out.push('a');
            out.push('m');
            out.push('p');
            out.push(';');
        } else if c == '<' {
            out.push('&');
            out.push('l');
            out.push('t');
            out.push(';');
        } else if c == '>' {
            out.push('&');
            out.push('g');
            out.push('t');
            out.push(';');
        } else {
            out.push(c);
        }
        proof {
            assert(out@ =~= before + esc(c));
            assert(v@.take(i + 1).drop_last() =~= v@.take(i as int));
        }
        i = i + 1;
    }
    assert(v@.take(v@.len() as int) =~= v@);
    chars_to_string(&out)
}

/// Law: escaped text holds no angle bracket, so it cannot open a tag.
pub proof fn law_escaped_has_no_tags(s: Seq<char>, i: int)
    requires
        0 <= i < escaped(s).len(),
    ensures
        escaped(s)[i] != '<' && escaped(s)[i] != '>',
    decreases s.len(),
{
    if s.len() > 0 {
        let a = escaped(s.drop_last());
        if i < a.len() {
            law_escaped_has_no_tags(s.drop_last(), i);
        }
    }
}

/// The first value of `values` with byte `v`.
pub open spec fn first_choice(values: Seq<Choice>, v: u8) -> Option<Choice>
    decreases values.len(),
{
    if values.len() == 0 {
        None
    } else if values[0].raw == v {
        Some(values[0])
    } else {
        first_choice(values.drop_first(), v)
    }
}

pub fn find_choice(values: &[Choice], v: u8) -> (r: Option<Choice>)
    ensures
        r == first_choice(values@, v),
{
    let mut i: usize = 0;
    assert(values@.skip(0) =~= values@);
    while i < values.len()
        invariant
            i <= values@.len(),
            first_choice(values@, v) == first_choice(values@.skip(i as int), v),
        decreases values@.len() - i,
    {
        assert(values@.skip(i as int).drop_first() =~= values@.skip(i + 1));
        if values[i].raw == v {
            return Some(values[i]);
        }
        i = i + 1;
    }
    None
}

/// A value's name in the interface language.
pub open spec fn choice_label(c: Choice, german: bool) -> Seq<char> {
    if german {
        c.label_de@
    } else {
        c.label@
    }
}

/// Bytes as hex pairs separated by spaces.
pub open spec fn hex_join(data: Seq<u8>) -> Seq<char>
    decreases data.len(),
{
    if data.len() == 0 {
        Seq::empty()
    } else if data.len() == 1 {
        hex2(data[0])
    } else {
        hex_join(data.drop_last()) + seq![' '] + hex2(data.last())
    }
}

pub fn hex_bytes(data: &[u8]) -> (r: String)
    ensures
        r@ == hex_join(data@),
{
    let mut r = String::new();
    let mut i: usize = 0;
    while i < data.len()
        invariant
            i <= data@.len(),
            r@ == hex_join(data@.take(i as int)),
        decreases data@.len() - i,
    {
        assert(data@.take(i + 1).drop_last() =~= data@.take(i as int));
        if i > 0 {
            r.append(" ");
            proof {
                reveal_strlit(" ");
            }
        }
        let h = hex_byte(data[i]);
        r.append(h.as_str());
        proof {
            if i == 0 {
                assert(data@.take(0) =~= Seq::<u8>::empty());
            }
        }
        i = i + 1;
    }
    assert(data@.take(data@.len() as int) =~= data@);
    r
}

/// What a setting's value shows as. A named value wins; a switch reads as off
/// and on; anything else keeps its number rather than being dressed up as
/// something it may not be. Longer replies show as hex.
pub open spec fn spec_format_value(
    kind: Kind,
    values: Seq<Choice>,
    raw: Option<u8>,
    data: Seq<u8>,
    german: bool,
) -> Seq<char> {
    if raw is Some && first_choice(values, raw->0) is Some {
        choice_label(first_choice(values, raw->0)->0, german)
    } else if data.len() == 0 {
        "—"@
    } else if data.len() == 1 {
        if kind == Kind::Choice {
            decimal(data[0] as nat)
        } else if data[0] == 0 {
            texts(german).off@
        } else if data[0] == 1 {
            texts(german).on@
        } else {
            decimal(data[0] as nat)
        }
    } else {
        hex_join(data)
    }
}

pub fn format_value(kind: Kind, values: &[Choice], raw: Option<u8>, data: &[u8], german: bool) -> (r: String)
    ensures
        r@ == spec_format_value(kind, values@, raw, data@, german),
{
    let s = strings(german);
    if let Some(v) = raw {
        if let Some(c) = find_choice(values, v) {
            return owned(c.label(german));
        }
    }
    if data.len() == 0 {
        return owned("—");
    }
    if data.len() == 1 {
        let v = data[0];
        if kind == Kind::Choice {
            return decimal_u8(v);
        } else if v == 0 {
            return owned(s.off);
        } else if v == 1 {
            return owned(s.on);
        } else {
            return decimal_u8(v);
        }
    }
    hex_bytes(data)
}

/// The sentence a change is reported with: the setting, "set to", and the
/// value's name or, without one, its number.
pub open spec fn spec_told_about(def: Def, raw: u8, german: bool) -> Seq<char> {
    (if german {
        def.label_de@
    } else {
        def.label@
    }) + " "@ + texts(german).set_to@ + " "@ + match first_choice(def.values@, raw) {
        Some(c) => choice_label(c, german),
        None => decimal(raw as nat),
    }
}

pub fn told_about(def: &Def, raw: u8, german: bool) -> (r: String)
    ensures
        r@ == spec_told_about(*def, raw, german),
{
    let s = strings(german);
    let mut r = owned(def.label(german));
    r.append(" ");
    r.append(s.set_to);
    r.append(" ");
    match find_choice(def.values, raw) {
        Some(c) => r.append(c.label(german)),
        None => {
            let n = decimal_u8(raw);
            r.append(n.as_str());
        },
    }
    r
}

/// What became of one write, as a line of the report: the sentence alone
/// where the device accepted, with the refusal and its reason byte, or with
/// the note that no answer came.
pub open spec fn spec_write_outcome(told: Seq<char>, ack: Option<Ack>, german: bool) -> Seq<char> {
    match ack {
        Some(Ack::Accepted) => told,
        Some(Ack::Nak(code)) => told + ": "@ + texts(german).refused@ + " (0x"@ + hex2(code) + ")"@,
        None => told + ": "@ + texts(german).no_answer@,
    }
}

pub fn write_outcome(told: &str, ack: Option<Ack>, german: bool) -> (r: String)
    ensures
        r@ == spec_write_outcome(told@, ack, german),
{
    let s = strings(german);
    let mut r = owned(told);
    match ack {
        Some(Ack::Accepted) => {},
        Some(Ack::Nak(code)) => {
            r.append(": ");
            r.append(s.refused);
            r.append(" (0x");
            let h = hex_byte(code);
            r.append(h.as_str());
            r.append(")");
        },
        None => {
            r.append(": ");
            r.append(s.no_answer);
        },
    }
    r
}

/// The text with every line break replaced by a separator, for a single-line
/// notification.
pub open spec fn spec_one_line(s: Seq<char>) -> Seq<char>
    decreases s.len(),
{
    if s.len() == 0 {
        Seq::empty()
    } else {
        spec_one_line(s.drop_last()) + if s.last() == '\n' {
            seq![' ', '·', ' ']
        } else {
            seq![s.last()]
        }
    }
}

pub fn one_line(s: &str) -> (r: String)
    ensures
        r@ == spec_one_line(s@),
{
    let v = chars_of(s);
    let mut out: Vec<char> = Vec::new();
    let mut i: usize = 0;
    while i < v.len()
        invariant
            i <= v@.len(),
            out@ == spec_one_line(v@.take(i as int)),
        decreases v@.len() - i,
    {
        let ghost before = out@;
        if v[i] == '\n' {
            out.push(' ');
            out.push('·');
            out.push(' ');
        } else {
            out.push(v[i]);
        }
        proof {
            assert(v@.take(i + 1).drop_last() =~= v@.take(i as int));
            assert(out@ =~= spec_one_line(v@.take(i + 1)));
        }
        i = i + 1;
    }
    assert(v@.take(v@.len() as int) =~= v@);
    chars_to_string(&out)
}

/// A level in percent, with the muted note where it is muted.
pub open spec fn spec_level_text(percent: int, muted: bool, s: Strings) -> Seq<char> {
    signed_decimal(percent) + " %"@ + if muted {
        " ("@ + s.muted_suffix@ + ")"@
    } else {
        Seq::empty()
    }
}

/// The lines of the status notification: the device or that none was found,
/// the speaker and microphone levels, and the active player with its track,
/// or its status where no track is known.
pub open spec fn spec_status_lines(
    device: Option<Seq<char>>,
    speaker: int,
    speaker_muted: bool,
    microphone: int,
    microphone_muted: bool,
    player: Option<PlayerInfo>,
    german: bool,
) -> Seq<Seq<char>> {
    let s = texts(german);
    let head = seq![
        match device {
            Some(d) => d + ": "@ + s.connected@,
            None => s.none_found@,
        },
        s.speaker@ + ": "@ + spec_level_text(speaker, speaker_muted, s),
        s.microphone@ + ": "@ + spec_level_text(microphone, microphone_muted, s),
    ];
    match player {
        Some(p) => head.push(
            p.identity@ + ": "@ + match p.track {
                Some(t) => t@,
                None => p.status@,
            },
        ),
        None => head,
    }
}

fn level_text(percent: i32, muted: bool, german: bool) -> (r: String)
    ensures
        r@ == spec_level_text(percent as int, muted, texts(german)),
{
    let s = strings(german);
    let mut r = signed_text(percent);
    r.append(" %");
    if muted {
        r.append(" (");
        r.append(s.muted_suffix);
        r.append(")");
    }
    r
}

fn labelled(label: &str, value: &str) -> (r: String)
    ensures
        r@ == label@ + ": "@ + value@,
{
    let mut r = owned(label);
    r.append(": ");
    r.append(value);
    r
}

/// The body of the status notification, one line each for the device, the
/// speaker and microphone levels (in whole percent) and the active player.
pub fn status_body(
    device: Option<&str>,
    speaker: i32,
    speaker_muted: bool,
    microphone: i32,
    microphone_muted: bool,
    player: Option<&PlayerInfo>,
    german: bool,
) -> (r: String)
    ensures
        r@ == seq_join(
            spec_status_lines(
                match device {
                    Some(d) => Some(d@),
                    None => None,
                },
                speaker as int,
                speaker_muted,
                microphone as int,
                microphone_muted,
                match player {
                    Some(p) => Some(*p),
                    None => None,
                },
                german,
            ),
            "\n"@,
        ),
{
    let s = strings(german);
    let mut lines: Vec<String> = Vec::new();
    match device {
        Some(d) => lines.push(labelled(d, s.connected)),
        None => lines.push(owned(s.none_found)),
    }
    let sp = level_text(speaker, speaker_muted, german);
    lines.push(labelled(s.speaker, sp.as_str()));
    let mi = level_text(microphone, microphone_muted, german);
    lines.push(labelled(s.microphone, mi.as_str()));
    if let Some(p) = player {
        match &p.track {
            Some(t) => lines.push(labelled(p.identity.as_str(), t.as_str())),
            None => lines.push(labelled(p.identity.as_str(), p.status.as_str())),
        }
    }
    let ghost want = spec_status_lines(
        match device {
            Some(d) => Some(d@),
            None => None,
        },
        speaker as int,
        speaker_muted,
        microphone as int,
        microphone_muted,
        match player {
            Some(p) => Some(*p),
            None => None,
        },
        german,
    );
    assert(lines@.map_values(|l: String| l@) =~= want);
    join(&lines, "\n")
}

/// A `label: value` line, or nothing where the value is unknown.
pub open spec fn info_line(label: Seq<char>, v: Option<Seq<char>>) -> Seq<char> {
    match v {
        Some(v) => label + ": "@ + v + "\n"@,
        None => Seq::empty(),
    }
}

fn push_line(text: &mut String, label: &str, v: &Option<String>)
    ensures
        final(text)@ == old(text)@ + info_line("  "@ + label@, opt_view(*v)),
{
    match v {
        Some(v) => {
            text.append("  ");
            text.append(label);
            text.append(": ");
            text.append(v.as_str());
            text.append("\n");
            assert(final(text)@ =~= old(text)@ + info_line("  "@ + label@, opt_view(Some(*v))));
        },
        None => {
            assert(final(text)@ =~= old(text)@ + info_line("  "@ + label@, opt_view(*v)));
        },
    }
}

/// The headset's lines of the information dialog.
pub open spec fn spec_headset_block(info: DeviceInfo, s: Strings) -> Seq<char> {
    s.headset@ + "\n"@ + info_line("  "@ + s.model@, opt_view(info.headset_name)) + info_line(
        "  "@ + s.firmware@,
        opt_view(info.headset_version),
    ) + info_line("  "@ + s.serial@, opt_view(info.headset_serial))
}

/// The charge line, where the level is known.
pub open spec fn spec_battery_line(battery: Option<u8>, charging: bool, s: Strings) -> Seq<char> {
    match battery {
        Some(p) => "  "@ + s.battery@ + ": "@ + decimal(p as nat) + " %"@ + (if charging {
            " ("@ + s.charging_suffix@ + ")"@
        } else {
            Seq::empty()
        }) + "\n"@,
        None => Seq::empty(),
    }
}

/// The dongle's lines; without a dongle and without firmware from the
/// headset, the note that it is connected over Bluetooth.
pub open spec fn spec_dongle_block(info: DeviceInfo, s: Strings) -> Seq<char> {
    if info.dongle_name is Some || info.dongle_version is Some {
        "\n"@ + s.dongle@ + "\n"@ + info_line("  "@ + s.model@, opt_view(info.dongle_name))
            + info_line("  "@ + s.firmware@, opt_view(info.dongle_version)) + info_line(
            "  "@ + s.serial@,
            opt_view(info.dongle_serial),
        )
    } else if info.headset_version is None {
        "\n"@ + s.bluetooth_note@ + "\n"@
    } else {
        Seq::empty()
    }
}

/// The body of the device information dialog: the headset's model, firmware,
/// serial number and charge, then the dongle's, or, without a dongle and
/// without firmware from the headset, the note that it is connected over
/// Bluetooth.
pub open spec fn spec_device_info(info: DeviceInfo, battery: Option<u8>, charging: bool, german: bool) -> Seq<char> {
    spec_headset_block(info, texts(german)) + spec_battery_line(battery, charging, texts(german))
        + spec_dongle_block(info, texts(german))
}

fn headset_block(text: &mut String, info: &DeviceInfo, s: &Strings)
    ensures
        final(text)@ == old(text)@ + spec_headset_block(*info, *s),
{
    text.append(s.headset);
    text.append("\n");
    push_line(text, s.model, &info.headset_name);
    push_line(text, s.firmware, &info.headset_version);
    push_line(text, s.serial, &info.headset_serial);
    assert(final(text)@ =~= old(text)@ + spec_headset_block(*info, *s));
}

fn battery_line(text: &mut String, battery: Option<u8>, charging: bool, s: &Strings)
    ensures
        final(text)@ == old(text)@ + spec_battery_line(battery, charging, *s),
{
    if let Some(p) = battery {
        text.append("  ");
        text.append(s.battery);
        text.append(": ");
        let n = decimal_u8(p);
        text.append(n.as_str());
        text.append(" %");
        if charging {
            text.append(" (");
            text.append(s.charging_suffix);
            text.append(")");
        }
        text.append("\n");
    }
    assert(final(text)@ =~= old(text)@ + spec_battery_line(battery, charging, *s));
}

fn dongle_block(text: &mut String, info: &DeviceInfo, s: &Strings)
    ensures
        final(text)@ == old(text)@ + spec_dongle_block(*info, *s),
{
    if info.dongle_name.is_some() || info.dongle_version.is_some() {
        text.append("\n");
        text.append(s.dongle);
        text.append("\n");
        push_line(text, s.model, &info.dongle_name);
        push_line(text, s.firmware, &info.dongle_version);
        push_line(text, s.serial, &info.dongle_serial);
    } else if info.headset_version.is_none() {
        text.append("\n");
        text.append(s.bluetooth_note);
        text.append("\n");
    }
    assert(final(text)@ =~= old(text)@ + spec_dongle_block(*info, *s));
}

pub fn device_info_text(info: &DeviceInfo, battery: Option<u8>, charging: bool, german: bool) -> (r: String)
    ensures
        r@ == spec_device_info(*info, battery, charging, german),
{
    let s = strings(german);
    let mut text = String::new();
    headset_block(&mut text, info, &s);
    battery_line(&mut text, battery, charging, &s);
    dongle_block(&mut text, info, &s);
    assert(text@ =~= spec_device_info(*info, battery, charging, german));
    text
}

/// Year of first publication. A year that follows the clock would state
/// something untrue in a copyright notice.
pub open spec fn copyright_year() -> Seq<char> {
    "2026"@
}

/// The closing lines of the information dialog: which build runs, its
/// copyright holder — the author list up to the first `<`, trimmed — and its
/// licence and repository.
pub open spec fn spec_about(version: Seq<char>, authors: Seq<char>, license: Seq<char>, repository: Seq<char>) -> Seq<char> {
    "\nJabraw "@ + version + "\n© "@ + copyright_year() + " "@ + trim(pieces(authors, '<')[0])
        + " · "@ + license + "\n"@ + repository + "\n"@
}

pub fn about(version: &str, authors: &str, license: &str, repository: &str) -> (r: String)
    ensures
        r@ == spec_about(version@, authors@, license@, repository@),
{
    let holder = before_sep(authors, '<');
    let holder = trim_text(holder.as_str());
    let mut r = owned("\nJabraw ");
    r.append(version);
    r.append("\n© ");
    r.append("2026");
    r.append(" ");
    r.append(holder.as_str());
    r.append(" · ");
    r.append(license);
    r.append("\n");
    r.append(repository);
    r.append("\n");
    r
}

} // verus!
