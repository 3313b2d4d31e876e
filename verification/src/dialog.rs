//! The settings dialogs: the overview table, and the form that changes them.
//!
//! A single form rather than a list to pick from and a second list to answer
//! with: every setting shows its current value in the label, every drop-down
//! starts on "leave as it is", and OK sends only what actually moved.
use vstd::prelude::*;
use vstd::string::StringExecFns;

use crate::config::{def_of, spec_def_of, Choice, Setting, SettingView};
use crate::display::{choice_label, format_value, spec_format_value, texts};
use crate::gnp::{DST_DONGLE, DST_HEADSET};
use crate::i18n::{strings, Strings};
use crate::textual::{
    join, owned, pieces, seq_join, split_text, strip_trailing, strip_trailing_text, text_eq, trim,
    trim_text,
};
use crate::tray::Change;

verus! {

/// What a setting shows as.
pub open spec fn shown(st: SettingView, german: bool) -> Seq<char> {
    spec_format_value(st.kind, st.values, st.raw, st.value, german)
}

fn value_of(item: &Setting, german: bool) -> (r: String)
    ensures
        r@ == shown(item@, german),
{
    format_value(item.kind, item.values, item.raw, item.value.as_slice(), german)
}

/// A label without the trailing ellipsis the menu entry carries.
pub open spec fn bare(label: Seq<char>) -> Seq<char> {
    strip_trailing(label, " …"@)
}

pub open spec fn list_header(s: Strings) -> Seq<Seq<char>> {
    seq![
        "--list"@,
        "--title=Jabraw"@,
        "--text="@ + bare(s.settings@),
        "--width=520"@,
        "--height=560"@,
        "--column"@,
        s.device_col@,
        "--column"@,
        s.setting@,
        "--column"@,
        s.value@,
    ]
}

/// Three cells per setting: device, label, value.
pub open spec fn list_cells(settings: Seq<SettingView>, german: bool) -> Seq<Seq<char>>
    decreases settings.len(),
{
    if settings.len() == 0 {
        Seq::empty()
    } else {
        let st = settings.last();
        list_cells(settings.drop_last(), german) + seq![st.device@, st.label@, shown(st, german)]
    }
}

fn push_owned(v: &mut Vec<String>, s: &str)
    ensures
        final(v)@.map_values(|x: String| x@) == old(v)@.map_values(|x: String| x@).push(s@),
{
    let ghost o = v@;
    v.push(owned(s));
    assert(v@.map_values(|x: String| x@) =~= o.map_values(|x: String| x@).push(s@));
}

fn push_joined(v: &mut Vec<String>, a: &str, b: &str)
    ensures
        final(v)@.map_values(|x: String| x@) == old(v)@.map_values(|x: String| x@).push(a@ + b@),
{
    let ghost o = v@;
    let mut s = owned(a);
    s.append(b);
    v.push(s);
    assert(v@.map_values(|x: String| x@) =~= o.map_values(|x: String| x@).push(a@ + b@));
}

/// The arguments of the overview table for `zenity --list`. No column title is
/// empty: zenity 4 then returns the first row at once instead of showing the
/// dialog.
pub fn list_args(settings: &Vec<Setting>, german: bool) -> (r: Vec<String>)
    ensures
        r@.map_values(|x: String| x@) == list_header(texts(german)) + list_cells(
            settings@.map_values(|s: Setting| s@),
            german,
        ),
{
    let s = strings(german);
    let mut args: Vec<String> = Vec::new();
    push_owned(&mut args, "--list");
    push_owned(&mut args, "--title=Jabraw");
    let text = strip_trailing_text(s.settings, " …");
    push_joined(&mut args, "--text=", text.as_str());
    push_owned(&mut args, "--width=520");
    push_owned(&mut args, "--height=560");
    push_owned(&mut args, "--column");
    push_owned(&mut args, s.device_col);
    push_owned(&mut args, "--column");
    push_owned(&mut args, s.setting);
    push_owned(&mut args, "--column");
    push_owned(&mut args, s.value);
    let ghost head = args@.map_values(|x: String| x@);
    assert(head =~= list_header(texts(german)));
    let ghost views = settings@.map_values(|s: Setting| s@);
    let mut i: usize = 0;
    while i < settings.len()
        invariant
            views == settings@.map_values(|s: Setting| s@),
            i <= settings@.len(),
            args@.map_values(|x: String| x@) == head + list_cells(views.take(i as int), german),
        decreases settings@.len() - i,
    {
        let item = &settings[i];
        assert(views[i as int] == item@);
        assert(views.take(i + 1).drop_last() =~= views.take(i as int));
        let ghost before = args@.map_values(|x: String| x@);
        push_owned(&mut args, item.device);
        push_owned(&mut args, item.label);
        let v = value_of(item, german);
        let ghost o = args@;
        args.push(v);
        assert(args@.map_values(|x: String| x@) =~= o.map_values(|x: String| x@).push(
            shown(item@, german),
        ));
        assert(args@.map_values(|x: String| x@) =~= head + list_cells(views.take(i + 1), german));
        i = i + 1;
    }
    assert(views.take(settings@.len() as int) =~= views);
    args
}

/// The overview as text lines, for the notification when there is no dialog
/// tool.
pub open spec fn text_lines(settings: Seq<SettingView>, german: bool) -> Seq<Seq<char>> {
    settings.map_values(
        |st: SettingView| st.device@ + " "@ + st.label@ + ": "@ + shown(st, german),
    )
}

pub fn settings_lines(settings: &Vec<Setting>, german: bool) -> (r: Vec<String>)
    ensures
        r@.map_values(|x: String| x@) == text_lines(settings@.map_values(|s: Setting| s@), german),
{
    let ghost views = settings@.map_values(|s: Setting| s@);
    let mut out: Vec<String> = Vec::new();
    let mut i: usize = 0;
    while i < settings.len()
        invariant
            views == settings@.map_values(|s: Setting| s@),
            i <= settings@.len(),
            out@.map_values(|x: String| x@) == text_lines(views.take(i as int), german),
        decreases settings@.len() - i,
    {
        let item = &settings[i];
        assert(views[i as int] == item@);
        let mut line = owned(item.device);
        line.append(" ");
        line.append(item.label);
        line.append(": ");
        let v = value_of(item, german);
        line.append(v.as_str());
        assert(line@ == item@.device@ + " "@ + item@.label@ + ": "@ + shown(item@, german));
        let ghost o = out@;
        out.push(line);
        assert(views.take(i + 1) =~= views.take(i as int).push(item@));
        assert(text_lines(views.take(i + 1), german) =~= text_lines(views.take(i as int), german).push(line@)) by {
            assert(text_lines(views.take(i + 1), german).len() == i + 1);
        }
        assert(out@.map_values(|x: String| x@) =~= text_lines(views.take(i + 1), german));
        i = i + 1;
    }
    assert(views.take(settings@.len() as int) =~= views);
    out
}

/// Whether the form offers a setting: it has named values, its value is
/// known, and that value has its byte to itself. A value that shares its byte
/// with the neighbours would need the rest of that byte carried over, which is
/// not established.
pub open spec fn is_editable(st: SettingView) -> bool {
    &&& st.values.len() > 0
    &&& st.raw is Some
    &&& spec_def_of(st.name@) is Some
    &&& spec_def_of(st.name@)->0.mask == 0
}

/// The positions of the settings the form offers, in order.
pub open spec fn editable_upto(settings: Seq<SettingView>, n: int) -> Seq<usize>
    decreases n,
{
    if n <= 0 {
        Seq::empty()
    } else {
        let before = editable_upto(settings, n - 1);
        if is_editable(settings[n - 1]) {
            before.push((n - 1) as usize)
        } else {
            before
        }
    }
}

pub fn editable(settings: &Vec<Setting>) -> (r: Vec<usize>)
    ensures
        r@ == editable_upto(settings@.map_values(|s: Setting| s@), settings@.len() as int),
        forall|k: int| 0 <= k < r@.len() ==> r@[k] < settings@.len(),
{
    let ghost views = settings@.map_values(|s: Setting| s@);
    let mut out: Vec<usize> = Vec::new();
    let mut i: usize = 0;
    while i < settings.len()
        invariant
            views == settings@.map_values(|s: Setting| s@),
            i <= settings@.len(),
            out@ == editable_upto(views, i as int),
            forall|k: int| 0 <= k < out@.len() ==> out@[k] < i,
        decreases settings@.len() - i,
    {
        let item = &settings[i];
        assert(views[i as int] == item@);
        let ok = if item.values.len() > 0 && item.raw.is_some() {
            match def_of(item.name) {
                Some(d) => d.mask == 0,
                None => false,
            }
        } else {
            false
        };
        if ok {
            out.push(i);
        }
        i = i + 1;
    }
    out
}

/// The names of the values, each in the interface language.
pub open spec fn value_names(values: Seq<Choice>, german: bool) -> Seq<Seq<char>> {
    values.map_values(|c: Choice| choice_label(c, german))
}

pub open spec fn form_header(s: Strings) -> Seq<Seq<char>> {
    seq!["--forms"@, "--title=Jabraw"@, "--text="@ + bare(s.edit_settings@), "--separator=|"@]
}

/// Two arguments per offered setting: the drop-down with the current value in
/// its label, and its entries, "leave as it is" first.
pub open spec fn form_fields(settings: Seq<SettingView>, editable: Seq<usize>, german: bool) -> Seq<Seq<char>>
    decreases editable.len(),
{
    if editable.len() == 0 {
        Seq::empty()
    } else {
        let st = settings[editable.last() as int];
        let s = texts(german);
        form_fields(settings, editable.drop_last(), german) + seq![
            "--add-combo="@ + st.device@ + " · "@ + st.label@ + " ("@ + s.now@ + ": "@ + shown(
                st,
                german,
            ) + ")"@,
            "--combo-values="@ + seq_join(seq![s.unchanged@] + value_names(st.values, german), "|"@),
        ]
    }
}

fn combo_values(item: &Setting, s: &Strings, german: bool) -> (r: String)
    ensures
        r@ == "--combo-values="@ + seq_join(seq![s.unchanged@] + value_names(item@.values, german), "|"@),
{
    let mut names: Vec<String> = Vec::new();
    names.push(owned(s.unchanged));
    let mut i: usize = 0;
    while i < item.values.len()
        invariant
            i <= item.values@.len(),
            names@.map_values(|x: String| x@) == seq![s.unchanged@] + value_names(
                item.values@.take(i as int),
                german,
            ),
        decreases item.values@.len() - i,
    {
        let ghost o = names@;
        let c = item.values[i];
        let l = owned(c.label(german));
        assert(l@ == choice_label(item.values@[i as int], german));
        names.push(l);
        assert(names@.map_values(|x: String| x@) =~= o.map_values(|x: String| x@).push(l@));
        assert(item.values@.take(i + 1) =~= item.values@.take(i as int).push(c));
        assert(value_names(item.values@.take(i + 1), german) =~= value_names(
            item.values@.take(i as int),
            german,
        ).push(l@));
        assert(names@.map_values(|x: String| x@) =~= seq![s.unchanged@] + value_names(
            item.values@.take(i + 1),
            german,
        ));
        i = i + 1;
    }
    assert(item.values@.take(item.values@.len() as int) =~= item.values@);
    let joined = join(&names, "|");
    let mut r = owned("--combo-values=");
    r.append(joined.as_str());
    r
}

/// The arguments of the form for `zenity --forms`.
pub fn form_args(settings: &Vec<Setting>, editable: &Vec<usize>, german: bool) -> (r: Vec<String>)
    requires
        forall|k: int| 0 <= k < editable@.len() ==> editable@[k] < settings@.len(),
    ensures
        r@.map_values(|x: String| x@) == form_header(texts(german)) + form_fields(
            settings@.map_values(|s: Setting| s@),
            editable@,
            german,
        ),
{
    let s = strings(german);
    let mut args: Vec<String> = Vec::new();
    push_owned(&mut args, "--forms");
    push_owned(&mut args, "--title=Jabraw");
    let text = strip_trailing_text(s.edit_settings, " …");
    push_joined(&mut args, "--text=", text.as_str());
    push_owned(&mut args, "--separator=|");
    let ghost head = args@.map_values(|x: String| x@);
    assert(head =~= form_header(texts(german)));
    let ghost views = settings@.map_values(|s: Setting| s@);
    let mut i: usize = 0;
    while i < editable.len()
        invariant
            views == settings@.map_values(|s: Setting| s@),
            forall|k: int| 0 <= k < editable@.len() ==> editable@[k] < settings@.len(),
            s == texts(german),
            i <= editable@.len(),
            args@.map_values(|x: String| x@) == head + form_fields(
                views,
                editable@.take(i as int),
                german,
            ),
        decreases editable@.len() - i,
    {
        let item = &settings[editable[i]];
        assert(views[editable@[i as int] as int] == item@);
        assert(editable@.take(i + 1).drop_last() =~= editable@.take(i as int));
        let mut label = owned("--add-combo=");
        label.append(item.device);
        label.append(" · ");
        label.append(item.label);
        label.append(" (");
        label.append(s.now);
        label.append(": ");
        let v = value_of(item, german);
        label.append(v.as_str());
        label.append(")");
        let combo = combo_values(item, &s, german);
        let ghost o = args@;
        assert(label@ == "--add-combo="@ + item@.device@ + " · "@ + item@.label@ + " ("@ + s.now@
            + ": "@ + shown(item@, german) + ")"@);
        args.push(label);
        args.push(combo);
        assert(editable@.take(i + 1).last() == editable@[i as int]);
        assert(args@.map_values(|x: String| x@) =~= o.map_values(|x: String| x@).push(label@).push(
            combo@,
        ));
        assert(args@.map_values(|x: String| x@) =~= head + form_fields(
            views,
            editable@.take(i + 1),
            german,
        ));
        i = i + 1;
    }
    assert(editable@.take(editable@.len() as int) =~= editable@);
    args
}

/// The first value whose name, in the interface language, is `name`.
pub open spec fn named_choice(values: Seq<Choice>, name: Seq<char>, german: bool) -> Option<Choice>
    decreases values.len(),
{
    if values.len() == 0 {
        None
    } else if choice_label(values[0], german) == name {
        Some(values[0])
    } else {
        named_choice(values.drop_first(), name, german)
    }
}

fn find_named(values: &[Choice], name: &str, german: bool) -> (r: Option<Choice>)
    ensures
        r == named_choice(values@, name@, german),
{
    let mut i: usize = 0;
    assert(values@.skip(0) =~= values@);
    while i < values.len()
        invariant
            i <= values@.len(),
            named_choice(values@, name@, german) == named_choice(values@.skip(i as int), name@, german),
        decreases values@.len() - i,
    {
        assert(values@.skip(i as int).drop_first() =~= values@.skip(i + 1));
        if text_eq(values[i].label(german), name) {
            return Some(values[i]);
        }
        i = i + 1;
    }
    None
}

/// The change a picked entry asks for, if any: nothing for an empty pick,
/// "leave as it is", a name the setting does not know, or the value it
/// already has.
pub open spec fn change_for(st: SettingView, picked: Seq<char>, german: bool) -> Option<Change> {
    let p = trim(picked);
    if p.len() == 0 || p == texts(german).unchanged@ {
        None
    } else {
        match named_choice(st.values, p, german) {
            None => None,
            Some(c) => if Some(c.raw) == st.raw {
                None
            } else {
                Some(
                    Change {
                        name: st.name,
                        dst: if st.device@ == "Dongle"@ {
                            DST_DONGLE
                        } else {
                            DST_HEADSET
                        },
                        raw: c.raw,
                    },
                )
            },
        }
    }
}

/// The changes the form's answer asks for: its entries paired with the
/// offered settings in order, as far as both go.
pub open spec fn changes_upto(
    settings: Seq<SettingView>,
    editable: Seq<usize>,
    picks: Seq<Seq<char>>,
    german: bool,
    n: int,
) -> Seq<Change>
    decreases n,
{
    if n <= 0 {
        Seq::empty()
    } else {
        let before = changes_upto(settings, editable, picks, german, n - 1);
        match change_for(settings[editable[n - 1] as int], picks[n - 1], german) {
            Some(c) => before.push(c),
            None => before,
        }
    }
}

pub open spec fn spec_changes(settings: Seq<SettingView>, editable: Seq<usize>, answer: Seq<char>, german: bool) -> Seq<Change> {
    let picks = pieces(trim(answer), '|');
    let n = if picks.len() < editable.len() {
        picks.len()
    } else {
        editable.len()
    };
    changes_upto(settings, editable, picks, german, n as int)
}

/// Reads the form's answer — the picks separated by `|` — into the changes it
/// asks for.
pub fn changes_from_form(settings: &Vec<Setting>, editable: &Vec<usize>, answer: &str, german: bool) -> (r: Vec<Change>)
    requires
        forall|k: int| 0 <= k < editable@.len() ==> editable@[k] < settings@.len(),
    ensures
        r@ == spec_changes(settings@.map_values(|s: Setting| s@), editable@, answer@, german),
{
    let s = strings(german);
    let answer = trim_text(answer);
    let picks = split_text(answer.as_str(), '|');
    let ghost pv = picks@.map_values(|x: String| x@);
    let ghost views = settings@.map_values(|s: Setting| s@);
    let n = if picks.len() < editable.len() {
        picks.len()
    } else {
        editable.len()
    };
    let mut out: Vec<Change> = Vec::new();
    let mut i: usize = 0;
    while i < n
        invariant
            views == settings@.map_values(|s: Setting| s@),
            pv == picks@.map_values(|x: String| x@),
            forall|k: int| 0 <= k < editable@.len() ==> editable@[k] < settings@.len(),
            s == texts(german),
            n <= picks@.len(),
            n <= editable@.len(),
            i <= n,
            out@ == changes_upto(views, editable@, pv, german, i as int),
        decreases n - i,
    {
        let item = &settings[editable[i]];
        assert(views[editable@[i as int] as int] == item@);
        assert(pv[i as int] == picks@[i as int]@);
        let picked = trim_text(picks[i].as_str());
        if picked.unicode_len() > 0 && !text_eq(picked.as_str(), s.unchanged) {
            match find_named(item.values, picked.as_str(), german) {
                Some(c) => {
                    if item.raw != Some(c.raw) {
                        let dst = if text_eq(item.device, "Dongle") {
                            DST_DONGLE
                        } else {
                            DST_HEADSET
                        };
                        out.push(Change { name: item.name, dst, raw: c.raw });
                    }
                },
                None => {},
            }
        }
        i = i + 1;
    }
    out
}

/// A change that moves `st`: the same setting, a value it names, and not the
/// value it has.
pub open spec fn moves(st: SettingView, c: Change) -> bool {
    &&& c.name == st.name
    &&& Some(c.raw) != st.raw
    &&& exists|v: int| 0 <= v < st.values.len() && st.values[v].raw == c.raw
}

/// A change that moves one of the first `n` offered settings.
pub open spec fn moves_offered(settings: Seq<SettingView>, editable: Seq<usize>, n: int, c: Change) -> bool {
    exists|i: int| 0 <= i < n && #[trigger] moves(settings[editable[i] as int], c)
}

proof fn lemma_named_choice_is_offered(values: Seq<Choice>, name: Seq<char>, german: bool)
    ensures
        named_choice(values, name, german) matches Some(c) ==> exists|v: int|
            0 <= v < values.len() && values[v] == c,
    decreases values.len(),
{
    if values.len() > 0 && choice_label(values[0], german) != name {
        lemma_named_choice_is_offered(values.drop_first(), name, german);
        if let Some(c) = named_choice(values, name, german) {
            let v = choose|v: int| 0 <= v < values.drop_first().len() && values.drop_first()[v] == c;
            assert(values[v + 1] == c);
        }
    }
}

proof fn lemma_changes_move(
    settings: Seq<SettingView>,
    editable: Seq<usize>,
    picks: Seq<Seq<char>>,
    german: bool,
    n: int,
)
    requires
        n <= editable.len(),
    ensures
        forall|j: int|
            0 <= j < changes_upto(settings, editable, picks, german, n).len() ==> moves_offered(
                settings,
                editable,
                n,
                #[trigger] changes_upto(settings, editable, picks, german, n)[j],
            ),
    decreases n,
{
    if n > 0 {
        lemma_changes_move(settings, editable, picks, german, n - 1);
        let st = settings[editable[n - 1] as int];
        let p = trim(picks[n - 1]);
        lemma_named_choice_is_offered(st.values, p, german);
        let before = changes_upto(settings, editable, picks, german, n - 1);
        let after = changes_upto(settings, editable, picks, german, n);
        assert forall|j: int| 0 <= j < after.len() implies moves_offered(
            settings,
            editable,
            n,
            #[trigger] after[j],
        ) by {
            if j < before.len() {
                assert(after[j] == before[j]);
                assert(moves_offered(settings, editable, n - 1, before[j]));
                let i = choose|i: int| 0 <= i < n - 1 && #[trigger] moves(settings[editable[i] as int], before[j]);
                assert(moves(settings[editable[i] as int], after[j]));
            } else {
                let c = named_choice(st.values, p, german)->0;
                let v = choose|v: int| 0 <= v < st.values.len() && st.values[v] == c;
                assert(st.values[v].raw == after[j].raw);
                assert(moves(settings[editable[n - 1] as int], after[j]));
            }
        }
    }
}

/// Law: OK sends only what actually moved. Every change the form's answer
/// asks for names one of the offered settings, gives it a value from its own
/// list, and differs from the value it has.
pub proof fn law_only_what_moved(
    settings: Seq<SettingView>,
    editable: Seq<usize>,
    answer: Seq<char>,
    german: bool,
)
    ensures
        forall|j: int|
            0 <= j < spec_changes(settings, editable, answer, german).len() ==> moves_offered(
                settings,
                editable,
                editable.len() as int,
                #[trigger] spec_changes(settings, editable, answer, german)[j],
            ),
{
    let picks = pieces(trim(answer), '|');
    let n = if picks.len() < editable.len() {
        picks.len()
    } else {
        editable.len()
    };
    lemma_changes_move(settings, editable, picks, german, n as int);
    let cs = spec_changes(settings, editable, answer, german);
    assert forall|j: int| 0 <= j < cs.len() implies moves_offered(
        settings,
        editable,
        editable.len() as int,
        #[trigger] cs[j],
    ) by {
        assert(moves_offered(settings, editable, n as int, cs[j]));
        let i = choose|i: int| 0 <= i < n && #[trigger] moves(settings[editable[i] as int], cs[j]);
        assert(moves(settings[editable[i] as int], cs[j]));
    }
}

proof fn lemma_untouched(
    settings: Seq<SettingView>,
    editable: Seq<usize>,
    picks: Seq<Seq<char>>,
    german: bool,
    n: int,
)
    requires
        n <= picks.len(),
        forall|i: int| 0 <= i < picks.len() ==> #[trigger] trim(picks[i]) == texts(german).unchanged@,
    ensures
        changes_upto(settings, editable, picks, german, n) == Seq::<Change>::empty(),
    decreases n,
{
    if n > 0 {
        lemma_untouched(settings, editable, picks, german, n - 1);
        assert(trim(picks[n - 1]) == texts(german).unchanged@);
    }
}

/// Law: every drop-down starts on "leave as it is", so a form confirmed as it
/// was shown asks for no change.
pub proof fn law_untouched_form_changes_nothing(
    settings: Seq<SettingView>,
    editable: Seq<usize>,
    answer: Seq<char>,
    german: bool,
)
    requires
        forall|i: int|
            0 <= i < pieces(trim(answer), '|').len() ==> #[trigger] trim(
                pieces(trim(answer), '|')[i],
            ) == texts(german).unchanged@,
    ensures
        spec_changes(settings, editable, answer, german) == Seq::<Change>::empty(),
{
    let picks = pieces(trim(answer), '|');
    let n = if picks.len() < editable.len() {
        picks.len()
    } else {
        editable.len()
    };
    lemma_untouched(settings, editable, picks, german, n as int);
}

/// A change that goes where `st` lives: the dongle's settings to the dongle,
/// everything else to the headset.
pub open spec fn addressed(st: SettingView, c: Change) -> bool {
    &&& st.device@ == "Dongle"@ ==> c.dst == DST_DONGLE
    &&& st.device@ != "Dongle"@ ==> c.dst == DST_HEADSET
}

/// A change that moves one of the first `n` offered settings and goes to the
/// device that setting was read from.
pub open spec fn moves_offered_to_its_device(
    settings: Seq<SettingView>,
    editable: Seq<usize>,
    n: int,
    c: Change,
) -> bool {
    exists|i: int|
        0 <= i < n && #[trigger] moves(settings[editable[i] as int], c) && addressed(
            settings[editable[i] as int],
            c,
        )
}

proof fn lemma_changes_addressed(
    settings: Seq<SettingView>,
    editable: Seq<usize>,
    picks: Seq<Seq<char>>,
    german: bool,
    n: int,
)
    requires
        n <= editable.len(),
    ensures
        forall|j: int|
            0 <= j < changes_upto(settings, editable, picks, german, n).len()
                ==> moves_offered_to_its_device(
                settings,
                editable,
                n,
                #[trigger] changes_upto(settings, editable, picks, german, n)[j],
            ),
    decreases n,
{
    if n > 0 {
        lemma_changes_addressed(settings, editable, picks, german, n - 1);
        let st = settings[editable[n - 1] as int];
        let p = trim(picks[n - 1]);
        lemma_named_choice_is_offered(st.values, p, german);
        let before = changes_upto(settings, editable, picks, german, n - 1);
        let after = changes_upto(settings, editable, picks, german, n);
        assert forall|j: int| 0 <= j < after.len() implies moves_offered_to_its_device(
            settings,
            editable,
            n,
            #[trigger] after[j],
        ) by {
            if j < before.len() {
                assert(after[j] == before[j]);
                assert(moves_offered_to_its_device(settings, editable, n - 1, before[j]));
                let i = choose|i: int|
                    0 <= i < n - 1 && #[trigger] moves(settings[editable[i] as int], before[j])
                        && addressed(settings[editable[i] as int], before[j]);
                assert(moves(settings[editable[i] as int], after[j]));
            } else {
                let c = named_choice(st.values, p, german)->0;
                let v = choose|v: int| 0 <= v < st.values.len() && st.values[v] == c;
                assert(st.values[v].raw == after[j].raw);
                assert(moves(settings[editable[n - 1] as int], after[j]));
                assert(addressed(settings[editable[n - 1] as int], after[j]));
            }
        }
    }
}

/// Law: every change goes to the device its setting was read from. A
/// setting the dongle answered for is written to the dongle, any other to the
/// headset.
pub proof fn law_change_goes_to_its_device(
    settings: Seq<SettingView>,
    editable: Seq<usize>,
    answer: Seq<char>,
    german: bool,
)
    ensures
        forall|j: int|
            0 <= j < spec_changes(settings, editable, answer, german).len()
                ==> moves_offered_to_its_device(
                settings,
                editable,
                editable.len() as int,
                #[trigger] spec_changes(settings, editable, answer, german)[j],
            ),
{
    let picks = pieces(trim(answer), '|');
    let n = if picks.len() < editable.len() {
        picks.len()
    } else {
        editable.len()
    };
    lemma_changes_addressed(settings, editable, picks, german, n as int);
    let cs = spec_changes(settings, editable, answer, german);
    assert forall|j: int| 0 <= j < cs.len() implies moves_offered_to_its_device(
        settings,
        editable,
        editable.len() as int,
        #[trigger] cs[j],
    ) by {
        assert(moves_offered_to_its_device(settings, editable, n as int, cs[j]));
        let i = choose|i: int|
            0 <= i < n && #[trigger] moves(settings[editable[i] as int], cs[j]) && addressed(
                settings[editable[i] as int],
                cs[j],
            );
        assert(moves(settings[editable[i] as int], cs[j]));
    }
}

} // verus!
