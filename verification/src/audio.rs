//! Volume, mute and output device.
//!
//! Driven through the CLI of whichever audio pipeline is running: `wpctl` under
//! PipeWire/WirePlumber, `pactl` under PulseAudio. This module holds what the
//! commands are given and what is made of their answers.
use vstd::prelude::*;
use vstd::string::StringExecFns;

use serde_json::Value;

use crate::daemon::{copy_opt, opt_view};
use crate::textual::{
    before_sep, chars_of, decimal, decimal_u32, is_white, lemma_stable_sort_map, lemma_trim_start_skip,
    occurs, owned, pieces, range_text, sort_by_key, sorted_by_key, stable_sort_of, text_contains,
    text_eq, trim, trim_start, trimmed_range, white, Keyed,
};

verus! {

/// An output device.
#[derive(Debug, Clone, Default, PartialEq)]
pub struct Sink {
    pub id: u32,
    pub description: String,
    pub is_default: bool,
}

impl Keyed for Sink {
    open spec fn key_view(&self) -> Seq<char> {
        self.description@
    }

    fn key(&self) -> (k: &str) {
        self.description.as_str()
    }
}

/// Which side a volume or mute command addresses.
#[derive(Clone, Copy, PartialEq, Eq, Structural, Debug)]
pub enum Target {
    Sink,
    Source,
}

impl Target {
    /// The node `wpctl` is told.
    pub fn wpctl(self) -> (r: &'static str)
        ensures
            r == (match self {
                Target::Sink => "@DEFAULT_AUDIO_SINK@",
                Target::Source => "@DEFAULT_AUDIO_SOURCE@",
            }),
    {
        match self {
            Target::Sink => "@DEFAULT_AUDIO_SINK@",
            Target::Source => "@DEFAULT_AUDIO_SOURCE@",
        }
    }

    /// The device `pactl` is told.
    pub fn pactl_id(self) -> (r: &'static str)
        ensures
            r == (match self {
                Target::Sink => "@DEFAULT_SINK@",
                Target::Source => "@DEFAULT_SOURCE@",
            }),
    {
        match self {
            Target::Sink => "@DEFAULT_SINK@",
            Target::Source => "@DEFAULT_SOURCE@",
        }
    }

    /// The `pactl` command that sets the mute state.
    pub fn pactl_mute(self) -> (r: &'static str)
        ensures
            r == (match self {
                Target::Sink => "set-sink-mute",
                Target::Source => "set-source-mute",
            }),
    {
        match self {
            Target::Sink => "set-sink-mute",
            Target::Source => "set-source-mute",
        }
    }

    /// The `pactl` command that sets the volume.
    pub fn pactl_volume(self) -> (r: &'static str)
        ensures
            r == (match self {
                Target::Sink => "set-sink-volume",
                Target::Source => "set-source-volume",
            }),
    {
        match self {
            Target::Sink => "set-sink-volume",
            Target::Source => "set-source-volume",
        }
    }

    /// The `pactl` query for the mute state.
    pub fn pactl_get_mute(self) -> (r: &'static str)
        ensures
            r == (match self {
                Target::Sink => "get-sink-mute",
                Target::Source => "get-source-mute",
            }),
    {
        match self {
            Target::Sink => "get-sink-mute",
            Target::Source => "get-source-mute",
        }
    }

    /// The `pactl` query for the volume.
    pub fn pactl_get_volume(self) -> (r: &'static str)
        ensures
            r == (match self {
                Target::Sink => "get-sink-volume",
                Target::Source => "get-source-volume",
            }),
    {
        match self {
            Target::Sink => "get-sink-volume",
            Target::Source => "get-source-volume",
        }
    }
}

/// `|delta|` as a natural number.
pub open spec fn magnitude(delta: i32) -> nat {
    if delta < 0 {
        (-delta) as nat
    } else {
        delta as nat
    }
}

fn magnitude_of(delta: i32) -> (r: u32)
    requires
        delta > i32::MIN,
    ensures
        r as nat == magnitude(delta),
{
    if delta < 0 {
        (-delta) as u32
    } else {
        delta as u32
    }
}

/// The volume step as `wpctl set-volume` takes it: `5%+` or `5%-`, in
/// percentage points.
pub fn wpctl_step(delta: i32) -> (r: String)
    requires
        delta > i32::MIN,
    ensures
        r@ == decimal(magnitude(delta)) + "%"@ + (if delta < 0 {
            "-"@
        } else {
            "+"@
        }),
{
    let mut r = decimal_u32(magnitude_of(delta));
    r.append("%");
    if delta < 0 {
        r.append("-");
    } else {
        r.append("+");
    }
    r
}

/// The volume step as `pactl set-sink-volume` takes it: `+5%` or `-5%`.
pub fn pactl_step(delta: i32) -> (r: String)
    requires
        delta > i32::MIN,
    ensures
        r@ == (if delta < 0 {
            "-"@
        } else {
            "+"@
        }) + decimal(magnitude(delta)) + "%"@,
{
    let mut r = if delta < 0 {
        owned("-")
    } else {
        owned("+")
    };
    let n = decimal_u32(magnitude_of(delta));
    r.append(n.as_str());
    r.append("%");
    r
}

/// `pactl get-sink-mute` answers "Mute: yes" or "Mute: no".
pub fn pactl_muted(answer: &str) -> (r: bool)
    ensures
        r == occurs(answer@, "yes"@),
{
    text_contains(answer, "yes")
}

/// The run of `s` up to its first white space.
pub open spec fn first_word(s: Seq<char>) -> Seq<char>
    decreases s.len(),
{
    if s.len() == 0 || is_white(s[0]) {
        Seq::empty()
    } else {
        seq![s[0]] + first_word(s.drop_first())
    }
}

/// The second of the fields of `s` that white space separates, as
/// `split_whitespace().nth(1)` gives it.
pub open spec fn second_field(s: Seq<char>) -> Option<Seq<char>> {
    let t = trim_start(s);
    let u = trim_start(t.skip(first_word(t).len() as int));
    if u.len() == 0 {
        None
    } else {
        Some(first_word(u))
    }
}

proof fn lemma_first_word(s: Seq<char>, i: int, j: int)
    requires
        0 <= i <= j <= s.len(),
        forall|k: int| i <= k < j ==> !is_white(s[k]),
        j == s.len() || is_white(s[j]),
    ensures
        first_word(s.skip(i)) == s.subrange(i, j),
    decreases j - i,
{
    if i < j {
        lemma_first_word(s, i + 1, j);
        assert(s.skip(i).drop_first() =~= s.skip(i + 1));
        assert(s.subrange(i, j) =~= seq![s[i]] + s.subrange(i + 1, j));
    } else {
        assert(s.subrange(i, j) =~= Seq::<char>::empty());
    }
}

proof fn lemma_white_run(s: Seq<char>, i: int, j: int)
    requires
        0 <= i <= j <= s.len(),
        forall|k: int| i <= k < j ==> is_white(s[k]),
        j == s.len() || !is_white(s[j]),
    ensures
        trim_start(s.skip(i)) == s.skip(j),
{
    lemma_trim_start_skip(s.skip(i), j - i);
    assert(s.skip(i).skip(j - i) =~= s.skip(j));
}

/// `wpctl get-volume` answers "Volume: 0.65" or "Volume: 0.65 [MUTED]":
/// whether it says muted.
pub fn wpctl_muted(answer: &str) -> (r: bool)
    ensures
        r == occurs(answer@, "[MUTED]"@),
{
    text_contains(answer, "[MUTED]")
}

/// The figure of a `wpctl get-volume` answer: its second field.
pub fn wpctl_level_text(answer: &str) -> (r: Option<String>)
    ensures
        match r {
            Some(t) => second_field(answer@) == Some(t@),
            None => second_field(answer@) is None,
        },
{
    let v = chars_of(answer);
    let n = v.len();
    let mut i: usize = 0;
    while i < n && white(v[i])
        invariant
            n == v@.len(),
            i <= n,
            forall|k: int| 0 <= k < i ==> is_white(v@[k]),
        decreases n - i,
    {
        i = i + 1;
    }
    let mut j = i;
    while j < n && !white(v[j])
        invariant
            n == v@.len(),
            i <= j <= n,
            forall|k: int| i <= k < j ==> !is_white(v@[k]),
        decreases n - j,
    {
        j = j + 1;
    }
    let mut k = j;
    while k < n && white(v[k])
        invariant
            n == v@.len(),
            j <= k <= n,
            forall|m: int| j <= m < k ==> is_white(v@[m]),
        decreases n - k,
    {
        k = k + 1;
    }
    let ghost s = v@;
    proof {
        lemma_white_run(s, 0, i as int);
        assert(s.skip(0) =~= s);
        lemma_first_word(s, i as int, j as int);
        let t = s.skip(i as int);
        assert(first_word(t).len() == j - i);
        assert(t.skip(j - i) =~= s.skip(j as int));
        lemma_white_run(s, j as int, k as int);
    }
    if k == n {
        assert(s.skip(k as int).len() == 0);
        return None;
    }
    let mut m = k;
    while m < n && !white(v[m])
        invariant
            n == v@.len(),
            k <= m <= n,
            forall|x: int| k <= x < m ==> !is_white(v@[x]),
        decreases n - m,
    {
        m = m + 1;
    }
    proof {
        lemma_first_word(s, k as int, m as int);
    }
    Some(range_text(&v, k, m))
}

/// What follows the last `sep` in `s`; all of `s` where there is none.
pub open spec fn after_last(s: Seq<char>, sep: char) -> Seq<char>
    decreases s.len(),
{
    if s.len() == 0 {
        s
    } else if s.last() == sep {
        Seq::empty()
    } else {
        after_last(s.drop_last(), sep).push(s.last())
    }
}

/// The figure of a `pactl get-sink-volume` answer: the word before the first
/// `%`, without white space around it.
pub open spec fn pactl_level(answer: Seq<char>) -> Seq<char> {
    trim(after_last(pieces(answer, '%')[0], ' '))
}

proof fn lemma_after_last(s: Seq<char>, sep: char, i: int)
    requires
        0 <= i <= s.len(),
        forall|k: int| i <= k < s.len() ==> s[k] != sep,
        i == 0 || s[i - 1] == sep,
    ensures
        after_last(s, sep) == s.skip(i),
    decreases s.len(),
{
    if s.len() > i {
        lemma_after_last(s.drop_last(), sep, i);
        assert(s.drop_last().skip(i) =~= s.skip(i).drop_last());
        assert(s.skip(i) =~= s.skip(i).drop_last().push(s.last()));
    } else {
        assert(s.skip(i) =~= Seq::<char>::empty());
    }
}

/// The figure of a `pactl get-sink-volume` answer, as text.
pub fn pactl_level_text(answer: &str) -> (r: String)
    ensures
        r@ == pactl_level(answer@),
{
    let head = before_sep(answer, '%');
    let v = chars_of(head.as_str());
    let n = v.len();
    let mut i = n;
    while i > 0 && v[i - 1] != ' '
        invariant
            n == v@.len(),
            i <= n,
            forall|k: int| i <= k < n ==> v@[k] != ' ',
        decreases i,
    {
        i = i - 1;
    }
    proof {
        lemma_after_last(v@, ' ', i as int);
        assert(v@.subrange(i as int, n as int) =~= v@.skip(i as int));
    }
    let (a, b) = trimmed_range(&v, i, n);
    range_text(&v, a, b)
}

/// What the sink selection reads of one object of `pw-dump`: its type, its
/// metadata entries (key and the name in the value), its id, and the
/// properties of a node. A field is `None` where the dump does not hold it as
/// a string or, for the id, as an unsigned number.
pub struct PwObject {
    pub kind: Option<String>,
    pub metadata: Vec<(Option<String>, Option<String>)>,
    pub id: Option<u64>,
    pub media_class: Option<String>,
    pub node_name: Option<String>,
    pub node_description: Option<String>,
    pub node_nick: Option<String>,
}

pub struct PwView {
    pub kind: Option<Seq<char>>,
    pub metadata: Seq<(Option<Seq<char>>, Option<Seq<char>>)>,
    pub id: Option<u64>,
    pub media_class: Option<Seq<char>>,
    pub node_name: Option<Seq<char>>,
    pub node_description: Option<Seq<char>>,
    pub node_nick: Option<Seq<char>>,
}

impl View for PwObject {
    type V = PwView;

    open spec fn view(&self) -> PwView {
        PwView {
            kind: opt_view(self.kind),
            metadata: self.metadata@.map_values(
                |e: (Option<String>, Option<String>)| (opt_view(e.0), opt_view(e.1)),
            ),
            id: self.id,
            media_class: opt_view(self.media_class),
            node_name: opt_view(self.node_name),
            node_description: opt_view(self.node_description),
            node_nick: opt_view(self.node_nick),
        }
    }
}

pub open spec fn metadata_type() -> Seq<char> {
    "PipeWire:Interface:Metadata"@
}

pub open spec fn default_key() -> Seq<char> {
    "default.audio.sink"@
}

/// The first metadata entry naming the default sink in `entries`, if any:
/// `Some` of the name it gives.
pub open spec fn default_in_entries(entries: Seq<(Option<Seq<char>>, Option<Seq<char>>)>) -> Option<Option<Seq<char>>>
    decreases entries.len(),
{
    if entries.len() == 0 {
        None
    } else if entries[0].0 == Some(default_key()) {
        Some(entries[0].1)
    } else {
        default_in_entries(entries.drop_first())
    }
}

/// The first entry naming the default sink in the metadata objects of the
/// dump, in order.
pub open spec fn default_entry(objs: Seq<PwView>) -> Option<Option<Seq<char>>>
    decreases objs.len(),
{
    if objs.len() == 0 {
        None
    } else {
        let here = if objs[0].kind == Some(metadata_type()) {
            default_in_entries(objs[0].metadata)
        } else {
            None
        };
        if here is Some {
            here
        } else {
            default_entry(objs.drop_first())
        }
    }
}

/// The name of the default sink, as the metadata object names it under
/// `default.audio.sink`.
pub open spec fn default_sink_name(objs: Seq<PwView>) -> Option<Seq<char>> {
    match default_entry(objs) {
        Some(n) => n,
        None => None,
    }
}

/// An output device as shown.
pub struct SinkView {
    pub id: u32,
    pub description: Seq<char>,
    pub is_default: bool,
}

pub open spec fn sink_view(s: Sink) -> SinkView {
    SinkView { id: s.id, description: s.description@, is_default: s.is_default }
}

/// The output device an object is, if it is one: an audio sink with an id.
/// Its description falls back to the nick and then to the node name, and it
/// is the default where its node name is the one the metadata names.
pub open spec fn sink_of(o: PwView, default: Option<Seq<char>>) -> Option<SinkView> {
    if o.media_class == Some("Audio/Sink"@) && o.id is Some {
        let name = match o.node_name {
            Some(n) => n,
            None => Seq::empty(),
        };
        Some(
            SinkView {
                id: o.id->0 as u32,
                description: match o.node_description {
                    Some(d) => d,
                    None => match o.node_nick {
                        Some(n) => n,
                        None => name,
                    },
                },
                is_default: default == Some(name),
            },
        )
    } else {
        None
    }
}

/// The output devices among the objects, in dump order.
pub open spec fn sinks_in(objs: Seq<PwView>, default: Option<Seq<char>>) -> Seq<SinkView>
    decreases objs.len(),
{
    if objs.len() == 0 {
        Seq::empty()
    } else {
        let rest = sinks_in(objs.drop_last(), default);
        match sink_of(objs.last(), default) {
            Some(s) => rest.push(s),
            None => rest,
        }
    }
}

fn eq_opt(o: &Option<String>, lit: &str) -> (r: bool)
    ensures
        r == (opt_view(*o) == Some(lit@)),
{
    match o {
        Some(s) => text_eq(s.as_str(), lit),
        None => false,
    }
}

fn default_of(objects: &Vec<PwObject>) -> (r: Option<String>)
    ensures
        opt_view(r) == default_sink_name(objects@.map_values(|o: PwObject| o@)),
{
    let ghost objs = objects@.map_values(|o: PwObject| o@);
    let mut i: usize = 0;
    assert(objs.skip(0) =~= objs);
    while i < objects.len()
        invariant
            objs == objects@.map_values(|o: PwObject| o@),
            i <= objects@.len(),
            default_entry(objs) == default_entry(objs.skip(i as int)),
        decreases objects@.len() - i,
    {
        let o = &objects[i];
        assert(objs[i as int] == o@);
        assert(objs.skip(i as int).drop_first() =~= objs.skip(i + 1));
        if eq_opt(&o.kind, "PipeWire:Interface:Metadata") {
            let ghost es = o@.metadata;
            let mut j: usize = 0;
            assert(es.skip(0) =~= es);
            while j < o.metadata.len()
                invariant
                    objs == objects@.map_values(|o: PwObject| o@),
                    i < objects@.len(),
                    objs[i as int] == o@,
                    o@.kind == Some(metadata_type()),
                    default_entry(objs) == default_entry(objs.skip(i as int)),
                    es == o@.metadata,
                    es == o.metadata@.map_values(
                        |e: (Option<String>, Option<String>)| (opt_view(e.0), opt_view(e.1)),
                    ),
                    j <= o.metadata@.len(),
                    default_in_entries(es) == default_in_entries(es.skip(j as int)),
                decreases o.metadata@.len() - j,
            {
                assert(es.skip(j as int).drop_first() =~= es.skip(j + 1));
                assert(es[j as int] == (opt_view(o.metadata@[j as int].0), opt_view(
                    o.metadata@[j as int].1,
                )));
                if eq_opt(&o.metadata[j].0, "default.audio.sink") {
                    proof {
                        let t = objs.skip(i as int);
                        assert(t[0] == o@);
                        assert(default_in_entries(es) == Some(es[j as int].1));
                        assert(default_entry(t) == Some(es[j as int].1));
                    }
                    return copy_opt(&o.metadata[j].1);
                }
                j = j + 1;
            }
            proof {
                let t = objs.skip(i as int);
                assert(t[0] == o@);
                assert(es.skip(j as int).len() == 0);
                assert(default_in_entries(es) is None);
            }
        }
        i = i + 1;
    }
    None
}

/// The output devices of a `pw-dump`, sorted by description. The default sink
/// is the one the metadata object names under `default.audio.sink`, matched by
/// node name.
pub fn sinks_from_dump(objects: &Vec<PwObject>) -> (r: Vec<Sink>)
    ensures
        sorted_by_key(r@),
        r@.map_values(|s: Sink| sink_view(s)).to_multiset() == sinks_in(
            objects@.map_values(|o: PwObject| o@),
            default_sink_name(objects@.map_values(|o: PwObject| o@)),
        ).to_multiset(),
        stable_sort_of(
            r@.map_values(|s: Sink| sink_view(s)),
            sinks_in(
                objects@.map_values(|o: PwObject| o@),
                default_sink_name(objects@.map_values(|o: PwObject| o@)),
            ),
            |v: SinkView| v.description,
        ),
{
    let ghost objs = objects@.map_values(|o: PwObject| o@);
    let default = default_of(objects);
    let ghost dn = opt_view(default);
    let mut out: Vec<Sink> = Vec::new();
    let mut i: usize = 0;
    while i < objects.len()
        invariant
            objs == objects@.map_values(|o: PwObject| o@),
            dn == opt_view(default),
            i <= objects@.len(),
            out@.map_values(|s: Sink| sink_view(s)) == sinks_in(objs.take(i as int), dn),
        decreases objects@.len() - i,
    {
        let o = &objects[i];
        assert(objs[i as int] == o@);
        assert(objs.take(i + 1).drop_last() =~= objs.take(i as int));
        let ghost before = out@;
        if eq_opt(&o.media_class, "Audio/Sink") {
            if let Some(id) = o.id {
                let name = match &o.node_name {
                    Some(n) => n.clone(),
                    None => String::new(),
                };
                let description = match &o.node_description {
                    Some(d) => d.clone(),
                    None => match &o.node_nick {
                        Some(n) => n.clone(),
                        None => name.clone(),
                    },
                };
                let is_default = match &default {
                    Some(d) => text_eq(d.as_str(), name.as_str()),
                    None => false,
                };
                out.push(Sink { id: id as u32, description, is_default });
                assert(out@.map_values(|s: Sink| sink_view(s)) =~= before.map_values(
                    |s: Sink| sink_view(s),
                ).push(sink_of(o@, dn)->0));
            }
        }
        i = i + 1;
    }
    assert(objs.take(objects@.len() as int) =~= objs);
    let sorted = sort_by_key(out);
    proof {
        crate::rfcomm::lemma_map_multiset(out@, sorted@, |s: Sink| sink_view(s));
        lemma_stable_sort_map(
            sorted@,
            out@,
            |t: Sink| t.key_view(),
            |s: Sink| sink_view(s),
            |v: SinkView| v.description,
        );
    }
    sorted
}

/// The objects of a `pw-dump`, as serde_json reads them out of its text:
/// `None` where the text is not a JSON array.
pub uninterp spec fn pw_dump_objects(json: Seq<char>) -> Option<Seq<PwView>>;

/// Trusted: serde_json's `from_str` into a `Value`, read out field by field.
/// For each element of the top-level array it takes `type`, the `key` and
/// `value.name` of each `metadata` entry, `id` as a `u64`, and `media.class`,
/// `node.name`, `node.description` and `node.nick` under `info.props`, each
/// where the dump holds a string there. The contract claims only that the
/// result is a function of the text, named [`pw_dump_objects`].
#[verifier::external_body]
fn parse_pw_dump(json: &str) -> (r: Option<Vec<PwObject>>)
    ensures
        r is Some <==> pw_dump_objects(json@) is Some,
        r matches Some(v) ==> pw_dump_objects(json@) == Some(v@.map_values(|o: PwObject| o@)),
{
    let root: Value = serde_json::from_str(json).ok()?;
    let s = |v: &Value| v.as_str().map(String::from);
    Some(root.as_array()?.iter().map(|o| {
        let p = &o["info"]["props"];
        PwObject {
            kind: s(&o["type"]),
            metadata: o["metadata"].as_array().map_or(Vec::new(), |a| a.iter().map(|m| (s(&m["key"]), s(&m["value"]["name"]))).collect()),
            id: o["id"].as_u64(),
            media_class: s(&p["media.class"]),
            node_name: s(&p["node.name"]),
            node_description: s(&p["node.description"]),
            node_nick: s(&p["node.nick"]),
        }
    }).collect())
}

/// The output devices a `pw-dump` lists, sorted by description; none where
/// its text cannot be read.
pub fn sinks_from_json(json: &str) -> (r: Vec<Sink>)
    ensures
        match pw_dump_objects(json@) {
            None => r@.len() == 0,
            Some(objs) => {
                &&& sorted_by_key(r@)
                &&& r@.map_values(|s: Sink| sink_view(s)).to_multiset() == sinks_in(
                    objs,
                    default_sink_name(objs),
                ).to_multiset()
                &&& stable_sort_of(
                    r@.map_values(|s: Sink| sink_view(s)),
                    sinks_in(objs, default_sink_name(objs)),
                    |v: SinkView| v.description,
                )
            },
        },
{
    match parse_pw_dump(json) {
        Some(objects) => sinks_from_dump(&objects),
        None => Vec::new(),
    }
}

} // verus!
