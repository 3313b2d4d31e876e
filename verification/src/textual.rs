//! Text helpers the rest of the library builds on: character classes,
//! ordering, numbers as digits.
use vstd::prelude::*;
use vstd::multiset::Multiset;
use vstd::string::StringExecFns;
use vstd::string::StrSliceExecFns;

verus! {

broadcast use vstd::seq_lib::group_to_multiset_ensures;

/// Trusted: std's `FromIterator<char>` for `String`, which collects the
/// characters in order. The contract claims only that the string holds exactly
/// those characters.
#[verifier::external_body]
pub(crate) fn chars_to_string(chars: &Vec<char>) -> (s: String)
    ensures
        s@ == chars@,
{
    chars.iter().collect()
}

/// The characters of a `str`, one by one.
pub fn chars_of(s: &str) -> (v: Vec<char>)
    ensures
        v@ == s@,
{
    let n = s.unicode_len();
    let mut v: Vec<char> = Vec::new();
    let mut i: usize = 0;
    while i < n
        invariant
            n == s@.len(),
            i <= n,
            v@ == s@.take(i as int),
        decreases n - i,
    {
        v.push(s.get_char(i));
        assert(s@.take(i + 1) =~= s@.take(i as int).push(s@[i as int]));
        i = i + 1;
    }
    assert(s@.take(n as int) =~= s@);
    v
}

/// An owned copy of a `str`.
pub fn owned(s: &str) -> (r: String)
    ensures
        r@ == s@,
{
    String::from_str(s)
}

/// Appends `b` to `a`.
pub fn joined(a: &str, b: &str) -> (r: String)
    ensures
        r@ == a@ + b@,
{
    let mut r = String::from_str(a);
    r.append(b);
    r
}

/// A control character in the sense of Unicode's general category Cc, which is
/// what `char::is_control` tests: C0 controls, DEL and C1 controls.
pub open spec fn is_control(c: char) -> bool {
    (c as u32) <= 0x1f || (0x7f <= (c as u32) && (c as u32) <= 0x9f)
}

/// White space in the sense of Unicode's `White_Space` property, which is what
/// `char::is_whitespace` and `str::trim` go by.
pub open spec fn is_white(c: char) -> bool {
    let u = c as u32;
    ||| 0x09 <= u && u <= 0x0d
    ||| u == 0x20
    ||| u == 0x85
    ||| u == 0xa0
    ||| u == 0x1680
    ||| 0x2000 <= u && u <= 0x200a
    ||| u == 0x2028
    ||| u == 0x2029
    ||| u == 0x202f
    ||| u == 0x205f
    ||| u == 0x3000
}

pub fn control(c: char) -> (r: bool)
    ensures
        r == is_control(c),
{
    let u = c as u32;
    u <= 0x1f || (0x7f <= u && u <= 0x9f)
}

pub fn white(c: char) -> (r: bool)
    ensures
        r == is_white(c),
{
    let u = c as u32;
    (0x09 <= u && u <= 0x0d) || u == 0x20 || u == 0x85 || u == 0xa0 || u == 0x1680 || (0x2000
        <= u && u <= 0x200a) || u == 0x2028 || u == 0x2029 || u == 0x202f || u == 0x205f || u
        == 0x3000
}

/// Lexicographic order by code point, which for UTF-8 text is the byte order
/// `str`'s `Ord` uses.
pub open spec fn lex_le(a: Seq<char>, b: Seq<char>) -> bool
    decreases a.len(),
{
    if a.len() == 0 {
        true
    } else if b.len() == 0 {
        false
    } else if a[0] != b[0] {
        (a[0] as int) < (b[0] as int)
    } else {
        lex_le(a.drop_first(), b.drop_first())
    }
}

pub proof fn lemma_lex_total(a: Seq<char>, b: Seq<char>)
    ensures
        lex_le(a, b) || lex_le(b, a),
    decreases a.len(),
{
    if a.len() > 0 && b.len() > 0 {
        if a[0] == b[0] {
            lemma_lex_total(a.drop_first(), b.drop_first());
        } else {

        }
    }
}

pub proof fn lemma_lex_refl(a: Seq<char>)
    ensures
        lex_le(a, a),
    decreases a.len(),
{
    if a.len() > 0 {
        lemma_lex_refl(a.drop_first());
    }
}

pub proof fn lemma_lex_trans(a: Seq<char>, b: Seq<char>, c: Seq<char>)
    requires
        lex_le(a, b),
        lex_le(b, c),
    ensures
        lex_le(a, c),
    decreases a.len(),
{
    if a.len() > 0 && b.len() > 0 && c.len() > 0 && a[0] == b[0] && b[0] == c[0] {
        lemma_lex_trans(a.drop_first(), b.drop_first(), c.drop_first());
    }
}

proof fn lemma_lex_skip(a: Seq<char>, b: Seq<char>, i: int)
    requires
        0 <= i <= a.len(),
        i <= b.len(),
        a.take(i) == b.take(i),
    ensures
        lex_le(a, b) == lex_le(a.skip(i), b.skip(i)),
    decreases i,
{
    if i > 0 {
        assert(a[0] == a.take(i)[0]);
        assert(b[0] == b.take(i)[0]);
        assert(a.drop_first().take(i - 1) =~= a.take(i).drop_first());
        assert(b.drop_first().take(i - 1) =~= b.take(i).drop_first());
        lemma_lex_skip(a.drop_first(), b.drop_first(), i - 1);
        assert(a.drop_first().skip(i - 1) =~= a.skip(i));
        assert(b.drop_first().skip(i - 1) =~= b.skip(i));
    } else {
        assert(a.skip(0) =~= a);
        assert(b.skip(0) =~= b);
    }
}

/// `a <= b` in lexicographic order by code point.
pub fn text_le(a: &str, b: &str) -> (r: bool)
    ensures
        r == lex_le(a@, b@),
{
    let na = a.unicode_len();
    let nb = b.unicode_len();
    let mut i: usize = 0;
    while i < na && i < nb
        invariant
            na == a@.len(),
            nb == b@.len(),
            i <= na,
            i <= nb,
            a@.take(i as int) == b@.take(i as int),
        decreases na - i,
    {
        let ca = a.get_char(i);
        let cb = b.get_char(i);
        if ca != cb {
            proof {
                lemma_lex_skip(a@, b@, i as int);
                assert(a@.skip(i as int)[0] == ca);
                assert(b@.skip(i as int)[0] == cb);
            }
            assert((ca as u32) as int == ca as int);
            assert((cb as u32) as int == cb as int);
            return (ca as u32) < (cb as u32);
        }
        assert(a@.take(i + 1) =~= a@.take(i as int).push(ca));
        assert(b@.take(i + 1) =~= b@.take(i as int).push(cb));
        i = i + 1;
    }
    proof {
        lemma_lex_skip(a@, b@, i as int);
    }
    i == na
}

/// Equality of two `str`s, character by character.
pub fn text_eq(a: &str, b: &str) -> (r: bool)
    ensures
        r == (a@ == b@),
{
    let na = a.unicode_len();
    let nb = b.unicode_len();
    if na != nb {
        return false;
    }
    let mut i: usize = 0;
    while i < na
        invariant
            na == a@.len(),
            nb == b@.len(),
            na == nb,
            i <= na,
            a@.take(i as int) == b@.take(i as int),
        decreases na - i,
    {
        let ca = a.get_char(i);
        let cb = b.get_char(i);
        if ca != cb {
            return false;
        }
        assert(a@.take(i + 1) =~= a@.take(i as int).push(ca));
        assert(b@.take(i + 1) =~= b@.take(i as int).push(cb));
        i = i + 1;
    }
    assert(a@.take(na as int) =~= a@);
    assert(b@.take(nb as int) =~= b@);
    true
}

/// Whether `s` starts with `prefix`.
pub fn text_starts_with(s: &str, prefix: &str) -> (r: bool)
    ensures
        r == (prefix@.len() <= s@.len() && s@.take(prefix@.len() as int) == prefix@),
{
    let n = prefix.unicode_len();
    let m = s.unicode_len();
    if n > m {
        return false;
    }
    let mut i: usize = 0;
    while i < n
        invariant
            n == prefix@.len(),
            m == s@.len(),
            n <= m,
            i <= n,
            s@.take(i as int) == prefix@.take(i as int),
        decreases n - i,
    {
        let a = s.get_char(i);
        let b = prefix.get_char(i);
        if a != b {
            assert(s@.take(n as int)[i as int] != prefix@[i as int]);
            return false;
        }
        assert(s@.take(i + 1) =~= s@.take(i as int).push(a));
        assert(prefix@.take(i + 1) =~= prefix@.take(i as int).push(b));
        i = i + 1;
    }
    assert(prefix@.take(n as int) =~= prefix@);
    true
}

/// Something that is sorted by a text key.
pub trait Keyed {
    spec fn key_view(&self) -> Seq<char>;

    fn key(&self) -> (k: &str)
        ensures
            k@ == self.key_view(),
    ;
}

/// Whether the items of `s` stand in order of their keys.
pub open spec fn sorted_by_key<T: Keyed>(s: Seq<T>) -> bool {
    forall|i: int, j: int| 0 <= i < j < s.len() ==> lex_le(#[trigger] s[i].key_view(), #[trigger] s[j].key_view())
}

/// Whether the items of `s` stand in order of `key`.
pub open spec fn sorted_by<V>(s: Seq<V>, key: spec_fn(V) -> Seq<char>) -> bool {
    forall|i: int, j: int| 0 <= i < j < s.len() ==> lex_le(#[trigger] key(s[i]), #[trigger] key(s[j]))
}

/// The items of `s` whose key is `k`, in their order.
pub open spec fn keyed<V>(s: Seq<V>, key: spec_fn(V) -> Seq<char>, k: Seq<char>) -> Seq<V> {
    s.filter(|x: V| key(x) == k)
}

/// `r` is `s` sorted stably by `key`: in order of the keys, and items with
/// equal keys in the order they have in `s`. That fixes `r` given `s`.
pub open spec fn stable_sort_of<V>(r: Seq<V>, s: Seq<V>, key: spec_fn(V) -> Seq<char>) -> bool {
    &&& sorted_by(r, key)
    &&& forall|k: Seq<char>| #[trigger] keyed(r, key, k) == keyed(s, key, k)
}

proof fn lemma_keyed_none<V>(s: Seq<V>, key: spec_fn(V) -> Seq<char>, k: Seq<char>)
    requires
        forall|i: int| 0 <= i < s.len() ==> key(#[trigger] s[i]) != k,
    ensures
        keyed(s, key, k) == Seq::<V>::empty(),
    decreases s.len(),
{
    reveal(Seq::filter);
    if s.len() > 0 {
        lemma_keyed_none(s.drop_last(), key, k);
    }
}

proof fn lemma_keyed_one<V>(item: V, key: spec_fn(V) -> Seq<char>, k: Seq<char>)
    ensures
        keyed(seq![item], key, k) == (if key(item) == k {
            seq![item]
        } else {
            Seq::<V>::empty()
        }),
{
    reveal_with_fuel(Seq::filter, 2);
    let e = Seq::<V>::empty();
    assert(seq![item] =~= e.push(item));
    assert(e.push(item).drop_last() =~= e);
    assert(keyed(e, key, k) =~= e);
}

/// Mapping items keeps a stable sort one, where the new key is the old one.
pub proof fn lemma_stable_sort_map<A, B>(
    r: Seq<A>,
    s: Seq<A>,
    key: spec_fn(A) -> Seq<char>,
    f: spec_fn(A) -> B,
    key_b: spec_fn(B) -> Seq<char>,
)
    requires
        stable_sort_of(r, s, key),
        forall|a: A| #[trigger] key_b(f(a)) == key(a),
    ensures
        stable_sort_of(r.map_values(f), s.map_values(f), key_b),
{
    let rm = r.map_values(f);
    assert forall|i: int, j: int| 0 <= i < j < rm.len() implies lex_le(
        #[trigger] key_b(rm[i]),
        #[trigger] key_b(rm[j]),
    ) by {
        assert(key_b(rm[i]) == key(r[i]));
        assert(key_b(rm[j]) == key(r[j]));
    }
    assert forall|k: Seq<char>| #[trigger] keyed(rm, key_b, k) == keyed(s.map_values(f), key_b, k) by {
        lemma_keyed_map(r, key, f, key_b, k);
        lemma_keyed_map(s, key, f, key_b, k);
        assert(keyed(r, key, k) == keyed(s, key, k));
    }
}

proof fn lemma_keyed_map<A, B>(
    s: Seq<A>,
    key: spec_fn(A) -> Seq<char>,
    f: spec_fn(A) -> B,
    key_b: spec_fn(B) -> Seq<char>,
    k: Seq<char>,
)
    requires
        forall|a: A| #[trigger] key_b(f(a)) == key(a),
    ensures
        keyed(s.map_values(f), key_b, k) == keyed(s, key, k).map_values(f),
    decreases s.len(),
{
    reveal(Seq::filter);
    if s.len() > 0 {
        let t = s.drop_last();
        lemma_keyed_map(t, key, f, key_b, k);
        assert(s.map_values(f).drop_last() =~= t.map_values(f));
        assert(s.map_values(f).last() == f(s.last()));
        assert(key_b(f(s.last())) == key(s.last()));
        if key(s.last()) == k {
            assert(keyed(s, key, k) == keyed(t, key, k).push(s.last()));
            assert(keyed(s, key, k).map_values(f) =~= keyed(t, key, k).map_values(f).push(f(s.last())));
        } else {
            assert(keyed(s, key, k) == keyed(t, key, k));
        }
    } else {
        assert(s.map_values(f) =~= Seq::<B>::empty());
    }
}

/// Stable insertion sort by key: every item ends up behind the items whose key
/// is not greater than its own.
pub fn sort_by_key<T: Keyed>(v: Vec<T>) -> (r: Vec<T>)
    ensures
        sorted_by_key(r@),
        stable_sort_of(r@, v@, |t: T| t.key_view()),
        r@.to_multiset() == v@.to_multiset(),
        r@.len() == v@.len(),
{
    let ghost orig = v@;
    let ghost kf = |t: T| t.key_view();
    let mut rest = v;
    let mut out: Vec<T> = Vec::new();
    let ghost mut done: Seq<T> = Seq::empty();
    proof {
        assert forall|k: Seq<char>| #[trigger] keyed(out@, kf, k) == keyed(done, kf, k) by {
            assert(out@ =~= done);
        }
        assert(done + rest@ =~= orig);
    }
    while rest.len() > 0
        invariant
            kf == (|t: T| t.key_view()),
            sorted_by_key(out@),
            out@.to_multiset().add(rest@.to_multiset()) == orig.to_multiset(),
            done + rest@ == orig,
            forall|k: Seq<char>| #[trigger] keyed(out@, kf, k) == keyed(done, kf, k),
        decreases rest@.len(),
    {
        let ghost before = rest@;
        let x = rest.remove(0);
        proof {
            assert(before.to_multiset() == rest@.to_multiset().insert(x)) by {
                vstd::seq_lib::to_multiset_remove(before, 0);
                assert(before.remove(0) =~= rest@);
            }
        }
        let mut j: usize = 0;
        while j < out.len() && text_le(out[j].key(), x.key())
            invariant
                j <= out@.len(),
                forall|k: int| 0 <= k < j ==> lex_le(#[trigger] out@[k].key_view(), x.key_view()),
            decreases out@.len() - j,
        {
            j = j + 1;
        }
        let ghost old_out = out@;
        let ghost old_done = done;
        proof {
            if j < old_out.len() {
                assert(!lex_le(old_out[j as int].key_view(), x.key_view()));
                lemma_lex_total(old_out[j as int].key_view(), x.key_view());
                assert forall|k: int| j <= k < old_out.len() implies lex_le(
                    x.key_view(),
                    #[trigger] old_out[k].key_view(),
                ) by {
                    if k > j {
                        lemma_lex_trans(
                            x.key_view(),
                            old_out[j as int].key_view(),
                            old_out[k].key_view(),
                        );
                    }
                }
            }
            // Nothing from position `j` on has the key of `x`.
            assert forall|m: int| 0 <= m < old_out.skip(j as int).len() implies kf(
                #[trigger] old_out.skip(j as int)[m],
            ) != kf(x) by {
                let i = j + m;
                assert(old_out.skip(j as int)[m] == old_out[i]);
                if old_out[i].key_view() == x.key_view() {
                    lemma_lex_refl(x.key_view());
                    if i > j {
                        assert(lex_le(old_out[j as int].key_view(), old_out[i].key_view()));
                    }
                }
            }
        }
        out.insert(j, x);
        proof {
            done = done.push(x);
            assert(done + rest@ =~= orig) by {
                assert(before =~= seq![x] + rest@);
                assert(old_done + before == orig);
            }
            vstd::seq_lib::to_multiset_insert(old_out, j as int, x);
            assert(out@ =~= old_out.insert(j as int, x));
            assert forall|a: int, b: int| 0 <= a < b < out@.len() implies lex_le(
                #[trigger] out@[a].key_view(),
                #[trigger] out@[b].key_view(),
            ) by {
                if a < j && b < j {
                } else if a < j && b == j {
                } else if a < j && b > j {
                    assert(out@[b] == old_out[b - 1]);
                    assert(lex_le(old_out[a].key_view(), old_out[b - 1].key_view()));
                } else if a == j {
                    assert(out@[b] == old_out[b - 1]);
                } else {
                    assert(out@[a] == old_out[a - 1]);
                    assert(out@[b] == old_out[b - 1]);
                    assert(lex_le(old_out[a - 1].key_view(), old_out[b - 1].key_view()));
                }
            }
            assert(out@.to_multiset().add(rest@.to_multiset()) =~= orig.to_multiset());
            let head = old_out.take(j as int);
            let tail = old_out.skip(j as int);
            assert(old_out =~= head + tail);
            assert(out@ =~= head + seq![x] + tail);
            assert forall|k: Seq<char>| #[trigger] keyed(out@, kf, k) == keyed(done, kf, k) by {
                Seq::filter_distributes_over_add(head, tail, |y: T| kf(y) == k);
                Seq::filter_distributes_over_add(
                    head + seq![x],
                    tail,
                    |y: T| kf(y) == k,
                );
                Seq::filter_distributes_over_add(head, seq![x], |y: T| kf(y) == k);
                lemma_keyed_one(x, kf, k);
                old_done.lemma_filter_push(x, |y: T| kf(y) == k);
                assert(keyed(old_out, kf, k) == keyed(old_done, kf, k));
                if kf(x) == k {
                    lemma_keyed_none(tail, kf, k);
                    assert(keyed(out@, kf, k) =~= keyed(old_out, kf, k).push(x));
                } else {
                    assert(keyed(out@, kf, k) =~= keyed(old_out, kf, k));
                }
            }
        }
    }
    proof {
        assert(rest@.to_multiset() =~= Multiset::empty());
        assert(out@.to_multiset() =~= orig.to_multiset());
        vstd::seq_lib::to_multiset_len(out@);
        vstd::seq_lib::to_multiset_len(orig);
        assert(done =~= orig);
    }
    out
}

/// The decimal digit for `d`.
pub open spec fn digit(d: nat) -> char {
    if d == 0 {
        '0'
    } else if d == 1 {
        '1'
    } else if d == 2 {
        '2'
    } else if d == 3 {
        '3'
    } else if d == 4 {
        '4'
    } else if d == 5 {
        '5'
    } else if d == 6 {
        '6'
    } else if d == 7 {
        '7'
    } else if d == 8 {
        '8'
    } else {
        '9'
    }
}

/// `n` in decimal, without leading zeros, as `u8`'s `Display` writes it.
pub open spec fn decimal(n: nat) -> Seq<char>
    decreases n,
{
    if n < 10 {
        seq![digit(n)]
    } else {
        decimal(n / 10).push(digit(n % 10))
    }
}

fn digit_char(d: u8) -> (c: char)
    requires
        d < 10,
    ensures
        c == digit(d as nat),
{
    if d == 0 {
        '0'
    } else if d == 1 {
        '1'
    } else if d == 2 {
        '2'
    } else if d == 3 {
        '3'
    } else if d == 4 {
        '4'
    } else if d == 5 {
        '5'
    } else if d == 6 {
        '6'
    } else if d == 7 {
        '7'
    } else if d == 8 {
        '8'
    } else {
        '9'
    }
}

/// A byte in decimal, as `u8::to_string` writes it.
pub fn decimal_u8(v: u8) -> (s: String)
    ensures
        s@ == decimal(v as nat),
{
    let mut chars: Vec<char> = Vec::new();
    if v >= 100 {
        chars.push(digit_char(v / 100));
    }
    if v >= 10 {
        chars.push(digit_char((v / 10) % 10));
    }
    chars.push(digit_char(v % 10));
    proof {
        reveal_with_fuel(decimal, 3);
        if v >= 100 {
            assert(decimal((v / 100) as nat) == seq![digit((v / 100) as nat)]);
            assert(decimal((v / 10) as nat) =~= seq![digit((v / 100) as nat), digit(((v / 10) % 10) as nat)]);
            assert(chars@ =~= decimal(v as nat));
        } else if v >= 10 {
            assert(decimal((v / 10) as nat) == seq![digit((v / 10) as nat)]);
            assert(chars@ =~= decimal(v as nat));
        } else {
            assert(chars@ =~= decimal(v as nat));
        }
    }
    chars_to_string(&chars)
}

/// The lowercase hexadecimal digit for `d`.
pub open spec fn hex_digit(d: nat) -> char {
    if d < 10 {
        digit(d)
    } else if d == 10 {
        'a'
    } else if d == 11 {
        'b'
    } else if d == 12 {
        'c'
    } else if d == 13 {
        'd'
    } else if d == 14 {
        'e'
    } else {
        'f'
    }
}

/// A byte as two lowercase hex digits, as `{:02x}` writes it.
pub open spec fn hex2(b: u8) -> Seq<char> {
    seq![hex_digit((b / 16) as nat), hex_digit((b % 16) as nat)]
}

fn hex_char(d: u8) -> (c: char)
    requires
        d < 16,
    ensures
        c == hex_digit(d as nat),
{
    if d < 10 {
        digit_char(d)
    } else if d == 10 {
        'a'
    } else if d == 11 {
        'b'
    } else if d == 12 {
        'c'
    } else if d == 13 {
        'd'
    } else if d == 14 {
        'e'
    } else {
        'f'
    }
}

/// A byte as two lowercase hex digits.
pub fn hex_byte(b: u8) -> (s: String)
    ensures
        s@ == hex2(b),
{
    let chars = vec![hex_char(b / 16), hex_char(b % 16)];
    assert(chars@ =~= hex2(b));
    chars_to_string(&chars)
}


/// Lines joined by a separator, as `[..].join(sep)` does.
pub open spec fn seq_join(lines: Seq<Seq<char>>, sep: Seq<char>) -> Seq<char>
    decreases lines.len(),
{
    if lines.len() == 0 {
        Seq::empty()
    } else if lines.len() == 1 {
        lines[0]
    } else {
        seq_join(lines.drop_last(), sep) + sep + lines.last()
    }
}

/// The texts of `lines` joined by `sep`.
pub fn join(lines: &Vec<String>, sep: &str) -> (r: String)
    ensures
        r@ == seq_join(lines@.map_values(|l: String| l@), sep@),
{
    let ghost views = lines@.map_values(|l: String| l@);
    let mut r = String::new();
    let mut i: usize = 0;
    while i < lines.len()
        invariant
            views == lines@.map_values(|l: String| l@),
            i <= lines@.len(),
            r@ == seq_join(views.take(i as int), sep@),
        decreases lines@.len() - i,
    {
        assert(views.take(i + 1).drop_last() =~= views.take(i as int));
        if i > 0 {
            r.append(sep);
        } else {
            assert(views.take(0) =~= Seq::<Seq<char>>::empty());
        }
        r.append(lines[i].as_str());
        i = i + 1;
    }
    assert(views.take(lines@.len() as int) =~= views);
    r
}

/// `s` without the white space at either end, as `str::trim` gives it.
pub open spec fn trim_start(s: Seq<char>) -> Seq<char>
    decreases s.len(),
{
    if s.len() > 0 && is_white(s[0]) {
        trim_start(s.drop_first())
    } else {
        s
    }
}

pub open spec fn trim_end(s: Seq<char>) -> Seq<char>
    decreases s.len(),
{
    if s.len() > 0 && is_white(s.last()) {
        trim_end(s.drop_last())
    } else {
        s
    }
}

pub open spec fn trim(s: Seq<char>) -> Seq<char> {
    trim_end(trim_start(s))
}

pub proof fn lemma_trim_start_skip(s: Seq<char>, i: int)
    requires
        0 <= i <= s.len(),
        forall|k: int| 0 <= k < i ==> is_white(s[k]),
    ensures
        trim_start(s) == trim_start(s.skip(i)),
    decreases i,
{
    if i > 0 {
        assert(s.drop_first().skip(i - 1) =~= s.skip(i));
        lemma_trim_start_skip(s.drop_first(), i - 1);
    } else {
        assert(s.skip(0) =~= s);
    }
}

proof fn lemma_trim_end_take(s: Seq<char>, j: int)
    requires
        0 <= j <= s.len(),
        forall|k: int| j <= k < s.len() ==> is_white(s[k]),
    ensures
        trim_end(s) == trim_end(s.take(j)),
    decreases s.len() - j,
{
    if j < s.len() {
        assert(s.drop_last().take(j) =~= s.take(j));
        lemma_trim_end_take(s.drop_last(), j);
    } else {
        assert(s.take(j) =~= s);
    }
}

/// The characters of `s` from `from` up to `to`, without white space at
/// either end.
pub fn trimmed_range(s: &Vec<char>, from: usize, to: usize) -> (r: (usize, usize))
    requires
        from <= to <= s@.len(),
    ensures
        from <= r.0 <= r.1 <= to,
        s@.subrange(r.0 as int, r.1 as int) == trim(s@.subrange(from as int, to as int)),
{
    let ghost t = s@.subrange(from as int, to as int);
    let mut i = from;
    while i < to && white(s[i])
        invariant
            from <= i <= to,
            to <= s@.len(),
            forall|k: int| from <= k < i ==> is_white(s@[k]),
        decreases to - i,
    {
        i = i + 1;
    }
    proof {
        lemma_trim_start_skip(t, i - from);
        assert(t.skip(i - from) =~= s@.subrange(i as int, to as int));
    }
    let mut j = to;
    while j > i && white(s[j - 1])
        invariant
            i <= j <= to,
            to <= s@.len(),
            forall|k: int| j <= k < to ==> is_white(s@[k]),
        decreases j - i,
    {
        j = j - 1;
    }
    proof {
        let u = s@.subrange(i as int, to as int);
        lemma_trim_end_take(u, j - i);
        assert(u.take(j - i) =~= s@.subrange(i as int, j as int));
        if i == j && i < to {
            assert(!is_white(s@[i as int]) || i == to);
        }
        let v = s@.subrange(i as int, j as int);
        if v.len() > 0 {
            assert(!is_white(v.last()));
            assert(!is_white(v[0]) || i == j);
        }
        assert(trim_start(v) == v) by {
            if v.len() > 0 {
                assert(v[0] == s@[i as int]);
            }
        }
        assert(trim_end(trim_start(t)) == trim_end(u));
        assert(trim_end(u) == trim_end(v));
        assert(trim_end(v) == v);
    }
    (i, j)
}

/// The text of `chars` from `from` up to `to`.
pub fn range_text(chars: &Vec<char>, from: usize, to: usize) -> (r: String)
    requires
        from <= to <= chars@.len(),
    ensures
        r@ == chars@.subrange(from as int, to as int),
{
    let mut out: Vec<char> = Vec::new();
    let mut k = from;
    while k < to
        invariant
            from <= k <= to <= chars@.len(),
            out@ == chars@.subrange(from as int, k as int),
        decreases to - k,
    {
        out.push(chars[k]);
        assert(chars@.subrange(from as int, k + 1) =~= chars@.subrange(from as int, k as int).push(
            chars@[k as int],
        ));
        k = k + 1;
    }
    chars_to_string(&out)
}

/// A `str` without the white space at either end.
pub fn trim_text(s: &str) -> (r: String)
    ensures
        r@ == trim(s@),
{
    let chars = chars_of(s);
    let (i, j) = trimmed_range(&chars, 0, chars.len());
    assert(chars@.subrange(0, chars@.len() as int) =~= chars@);
    range_text(&chars, i, j)
}


/// Whether `i` is the position of the first line feed in `s`.
pub open spec fn first_nl(s: Seq<char>, i: int) -> bool {
    &&& 0 <= i < s.len()
    &&& s[i] == '\n'
    &&& forall|j: int| 0 <= j < i ==> s[j] != '\n'
}

/// A terminated line without its carriage return, if it had one.
pub open spec fn strip_cr(l: Seq<char>) -> Seq<char> {
    if l.len() > 0 && l.last() == '\r' {
        l.drop_last()
    } else {
        l
    }
}

/// The lines of a text, as `str::lines` yields them: split at line feeds, a
/// carriage return before the line feed removed, the last line ending
/// optional.
pub open spec fn lines(s: Seq<char>) -> Seq<Seq<char>>
    decreases s.len(),
{
    if s.len() == 0 {
        Seq::empty()
    } else if exists|i: int| first_nl(s, i) {
        let i = choose|i: int| first_nl(s, i);
        seq![strip_cr(s.take(i))] + lines(s.skip(i + 1))
    } else {
        seq![s]
    }
}

/// Whether `s` starts with `prefix`.
pub open spec fn has_prefix(s: Seq<char>, prefix: Seq<char>) -> bool {
    prefix.len() <= s.len() && s.take(prefix.len() as int) == prefix
}

/// What follows `key` on the first line that starts with it.
pub open spec fn first_field(ls: Seq<Seq<char>>, key: Seq<char>) -> Option<Seq<char>>
    decreases ls.len(),
{
    if ls.len() == 0 {
        None
    } else if has_prefix(ls[0], key) {
        Some(ls[0].skip(key.len() as int))
    } else {
        first_field(ls.drop_first(), key)
    }
}

proof fn lemma_lines_step(s: Seq<char>, start: int, k: int)
    requires
        0 <= start <= k < s.len(),
        s[k] == '\n',
        forall|j: int| start <= j < k ==> s[j] != '\n',
    ensures
        lines(s.skip(start)) == seq![strip_cr(s.subrange(start, k))] + lines(s.skip(k + 1)),
{
    let t = s.skip(start);
    assert(first_nl(t, k - start));
    let i = choose|i: int| first_nl(t, i);
    assert(i == k - start) by {
        if i < k - start {
            assert(t[i] == s[start + i]);
        }
        if i > k - start {
            assert(t[k - start] == '\n');
        }
    }
    assert(t.take(i) =~= s.subrange(start, k));
    assert(t.skip(i + 1) =~= s.skip(k + 1));
}

proof fn lemma_lines_last(s: Seq<char>, start: int)
    requires
        0 <= start < s.len(),
        forall|j: int| start <= j < s.len() ==> s[j] != '\n',
    ensures
        lines(s.skip(start)) == seq![s.subrange(start, s.len() as int)],
{
    let t = s.skip(start);
    assert(!exists|i: int| first_nl(t, i)) by {
        if exists|i: int| first_nl(t, i) {
            let i = choose|i: int| first_nl(t, i);
            assert(t[i] == s[start + i]);
        }
    }
    assert(t =~= s.subrange(start, s.len() as int));
}

proof fn lemma_first_field_append(a: Seq<Seq<char>>, b: Seq<Seq<char>>, key: Seq<char>)
    requires
        forall|i: int| 0 <= i < a.len() ==> !has_prefix(#[trigger] a[i], key),
    ensures
        first_field(a + b, key) == first_field(b, key),
    decreases a.len(),
{
    if a.len() > 0 {
        assert((a + b).drop_first() =~= a.drop_first() + b);
        assert((a + b)[0] == a[0]);
        lemma_first_field_append(a.drop_first(), b, key);
    } else {
        assert(a + b =~= b);
    }
}

fn prefixed_rest(s: &Vec<char>, from: usize, to: usize, key: &Vec<char>) -> (r: Option<String>)
    requires
        from <= to <= s@.len(),
    ensures
        r is Some <==> has_prefix(s@.subrange(from as int, to as int), key@),
        r matches Some(v) ==> v@ == s@.subrange(from as int, to as int).skip(key@.len() as int),
{
    let ghost l = s@.subrange(from as int, to as int);
    if key.len() > to - from {
        return None;
    }
    let mut i: usize = 0;
    while i < key.len()
        invariant
            from <= to <= s@.len(),
            key@.len() <= to - from,
            l == s@.subrange(from as int, to as int),
            i <= key@.len(),
            forall|j: int| 0 <= j < i ==> l[j] == key@[j],
        decreases key@.len() - i,
    {
        if s[from + i] != key[i] {
            assert(l.take(key@.len() as int)[i as int] != key@[i as int]);
            return None;
        }
        i = i + 1;
    }
    assert(l.take(key@.len() as int) =~= key@);
    let mut out: Vec<char> = Vec::new();
    let mut k = from + key.len();
    while k < to
        invariant
            from + key@.len() <= k <= to <= s@.len(),
            out@ == s@.subrange(from + key@.len(), k as int),
        decreases to - k,
    {
        out.push(s[k]);
        assert(s@.subrange(from + key@.len(), k + 1) =~= s@.subrange(from + key@.len(), k as int).push(
            s@[k as int],
        ));
        k = k + 1;
    }
    assert(out@ =~= l.skip(key@.len() as int));
    Some(chars_to_string(&out))
}

/// What follows `key` on the first line of `text` that starts with it, as
/// `text.lines().find_map(|l| l.strip_prefix(key))` gives it.
pub fn line_field(text: &str, key: &str) -> (r: Option<String>)
    ensures
        r is Some <==> first_field(lines(text@), key@) is Some,
        r matches Some(v) ==> first_field(lines(text@), key@) == Some(v@),
{
    let s = chars_of(text);
    let k = chars_of(key);
    let n = s.len();
    let mut start: usize = 0;
    let mut i: usize = 0;
    let ghost mut done: Seq<Seq<char>> = Seq::empty();
    assert(s@.skip(0) =~= s@);
    while i < n
        invariant
            n == s@.len(),
            s@ == text@,
            k@ == key@,
            start <= i <= n,
            forall|j: int| start <= j < i ==> s@[j] != '\n',
            lines(s@) == done + lines(s@.skip(start as int)),
            forall|j: int| 0 <= j < done.len() ==> !has_prefix(#[trigger] done[j], key@),
        decreases n - i,
    {
        if s[i] == '\n' {
            let end = if i > start && s[i - 1] == '\r' {
                i - 1
            } else {
                i
            };
            proof {
                lemma_lines_step(s@, start as int, i as int);
                assert(strip_cr(s@.subrange(start as int, i as int)) =~= s@.subrange(
                    start as int,
                    end as int,
                ));
            }
            let found = prefixed_rest(&s, start, end, &k);
            if found.is_some() {
                proof {
                    let l = s@.subrange(start as int, end as int);
                    lemma_first_field_append(done, lines(s@.skip(start as int)), key@);
                    assert(lines(s@.skip(start as int))[0] == l);
                }
                return found;
            }
            proof {
                let l = s@.subrange(start as int, end as int);
                assert(lines(s@) == (done.push(l)) + lines(s@.skip(i + 1))) by {
                    assert(done + (seq![l] + lines(s@.skip(i + 1))) =~= done.push(l) + lines(
                        s@.skip(i + 1),
                    ));
                }
                done = done.push(l);
            }
            start = i + 1;
        }
        i = i + 1;
    }
    if start < n {
        proof {
            lemma_lines_last(s@, start as int);
        }
        let found = prefixed_rest(&s, start, n, &k);
        proof {
            lemma_first_field_append(done, lines(s@.skip(start as int)), key@);
            let l = s@.subrange(start as int, n as int);
            let ls = lines(s@.skip(start as int));
            assert(ls == seq![l]);
            assert(ls.drop_first() =~= Seq::<Seq<char>>::empty());
            assert(first_field(ls.drop_first(), key@) is None);
            assert(ls[0] == l);
        }
        return found;
    }
    proof {
        assert(s@.skip(start as int) =~= Seq::<char>::empty());
        assert(done + Seq::<Seq<char>>::empty() =~= done);
        lemma_first_field_append(done, Seq::empty(), key@);
    }
    None
}

/// Whether `i` is the position of the first `sep` in `s`.
pub open spec fn first_sep(s: Seq<char>, sep: char, i: int) -> bool {
    0 <= i < s.len() && s[i] == sep && forall|j: int| 0 <= j < i ==> s[j] != sep
}

/// The pieces of `s` between separators, as `str::split` yields them.
pub open spec fn pieces(s: Seq<char>, sep: char) -> Seq<Seq<char>>
    decreases s.len(),
{
    if exists|i: int| first_sep(s, sep, i) {
        let i = choose|i: int| first_sep(s, sep, i);
        seq![s.take(i)] + pieces(s.skip(i + 1), sep)
    } else {
        seq![s]
    }
}

pub proof fn lemma_first_sep(s: Seq<char>, sep: char, i: int)
    requires
        0 <= i < s.len(),
        s[i] == sep,
        forall|j: int| 0 <= j < i ==> s[j] != sep,
    ensures
        pieces(s, sep) == seq![s.take(i)] + pieces(s.skip(i + 1), sep),
{
    assert(first_sep(s, sep, i));
    let w = choose|w: int| first_sep(s, sep, w);
    if w < i {
        assert(s[w] != sep);
    }
    if w > i {
        assert(s[i] != sep);
    }
}

pub proof fn lemma_no_sep(s: Seq<char>, sep: char)
    requires
        forall|j: int| 0 <= j < s.len() ==> s[j] != sep,
    ensures
        pieces(s, sep) == seq![s],
{
    assert(!exists|i: int| first_sep(s, sep, i));
}

/// The text before the first `sep`, or all of it, as `s.split(sep).next()`
/// gives it.
pub fn before_sep(s: &str, sep: char) -> (r: String)
    ensures
        r@ == pieces(s@, sep)[0],
{
    let v = chars_of(s);
    let n = v.len();
    let mut i: usize = 0;
    let mut out: Vec<char> = Vec::new();
    while i < n && v[i] != sep
        invariant
            n == v@.len(),
            i <= n,
            forall|j: int| 0 <= j < i ==> v@[j] != sep,
            out@ == v@.take(i as int),
        decreases n - i,
    {
        out.push(v[i]);
        assert(v@.take(i + 1) =~= v@.take(i as int).push(v@[i as int]));
        i = i + 1;
    }
    proof {
        if i < n {
            lemma_first_sep(v@, sep, i as int);
        } else {
            lemma_no_sep(v@, sep);
            assert(v@.take(i as int) =~= v@);
        }
    }
    chars_to_string(&out)
}

/// `n` in decimal.
pub fn decimal_u32(n: u32) -> (s: String)
    ensures
        s@ == decimal(n as nat),
    decreases n,
{
    if n < 10 {
        let d = digit_char(n as u8);
        let v = vec![d];
        assert(v@ =~= decimal(n as nat));
        chars_to_string(&v)
    } else {
        let mut s = decimal_u32(n / 10);
        let v = vec![digit_char((n % 10) as u8)];
        let tail = chars_to_string(&v);
        s.append(tail.as_str());
        assert(s@ =~= decimal(n as nat));
        s
    }
}

/// A whole number in decimal, with a minus sign where it is negative.
pub open spec fn signed_decimal(n: int) -> Seq<char> {
    if n < 0 {
        "-"@ + decimal((-n) as nat)
    } else {
        decimal(n as nat)
    }
}

/// `n` in decimal, with a minus sign where it is negative.
pub fn signed_text(n: i32) -> (r: String)
    ensures
        r@ == signed_decimal(n as int),
{
    if n < 0 {
        let m: i64 = -(n as i64);
        let mut r = owned("-");
        let d = decimal_u32(m as u32);
        r.append(d.as_str());
        r
    } else {
        decimal_u32(n as u32)
    }
}

/// Whether `pat` occurs in `s`.
pub open spec fn occurs(s: Seq<char>, pat: Seq<char>) -> bool {
    exists|i: int| 0 <= i && i + pat.len() <= s.len() && #[trigger] s.subrange(i, i + pat.len()) == pat
}

/// Whether `pat` occurs in `s`, as `str::contains` answers it.
pub fn text_contains(s: &str, pat: &str) -> (r: bool)
    ensures
        r == occurs(s@, pat@),
{
    let v = chars_of(s);
    let p = chars_of(pat);
    let n = v.len();
    let m = p.len();
    if m > n {
        proof {
            assert forall|i: int| 0 <= i && i + m <= n implies #[trigger] v@.subrange(i, i + m) != p@ by {}
        }
        return false;
    }
    let mut i: usize = 0;
    while i <= n - m
        invariant
            v@ == s@,
            p@ == pat@,
            n == v@.len(),
            m == p@.len(),
            m <= n,
            i <= n - m + 1,
            forall|k: int| 0 <= k < i ==> #[trigger] v@.subrange(k, k + m) != p@,
        decreases n - m + 1 - i,
    {
        let mut j: usize = 0;
        while j < m && v[i + j] == p[j]
            invariant
                n == v@.len(),
                m == p@.len(),
                i + m <= n,
                j <= m,
                forall|k: int| 0 <= k < j ==> v@[i + k] == p@[k],
            decreases m - j,
        {
            j = j + 1;
        }
        if j == m {
            assert(v@.subrange(i as int, i + m) =~= p@);
            assert(v@.subrange(i as int, i as int + p@.len()) == p@);
            assert(s@.subrange(i as int, i as int + pat@.len()) == pat@);
            return true;
        }
        assert(v@.subrange(i as int, i + m)[j as int] != p@[j as int]);
        i = i + 1;
    }
    proof {
        assert forall|k: int| 0 <= k && k + m <= n implies #[trigger] v@.subrange(k, k + m) != p@ by {
            assert(k < i);
        }
    }
    false
}

/// `s` with every leading occurrence of `pat` removed, as
/// `str::trim_start_matches` gives it.
pub open spec fn strip_leading(s: Seq<char>, pat: Seq<char>) -> Seq<char>
    decreases s.len(),
{
    if pat.len() > 0 && pat.len() <= s.len() && s.take(pat.len() as int) == pat {
        strip_leading(s.skip(pat.len() as int), pat)
    } else {
        s
    }
}

pub fn strip_leading_text(s: &str, pat: &str) -> (r: String)
    ensures
        r@ == strip_leading(s@, pat@),
{
    let v = chars_of(s);
    let p = chars_of(pat);
    let n = v.len();
    let m = p.len();
    let mut i: usize = 0;
    assert(v@.skip(0) =~= v@);
    if m > 0 {
        loop
            invariant
                n == v@.len(),
                m == p@.len(),
                m > 0,
                i <= n,
                strip_leading(v@, p@) == strip_leading(v@.skip(i as int), p@),
            ensures
                i <= n,
                strip_leading(v@, p@) == v@.skip(i as int),
            decreases n - i,
        {
            if m > n - i {
                assert(strip_leading(v@.skip(i as int), p@) == v@.skip(i as int));
                break;
            }
            let mut j: usize = 0;
            while j < m && v[i + j] == p[j]
                invariant
                    n == v@.len(),
                    m == p@.len(),
                    i + m <= n,
                    j <= m,
                    forall|k: int| 0 <= k < j ==> v@[i + k] == p@[k],
                decreases m - j,
            {
                j = j + 1;
            }
            let ghost t = v@.skip(i as int);
            if j < m {
                assert(t.take(m as int)[j as int] != p@[j as int]);
                assert(strip_leading(t, p@) == t);
                break;
            }
            assert(t.take(m as int) =~= p@);
            assert(t.skip(m as int) =~= v@.skip(i + m));
            i = i + m;
        }
    }
    assert(strip_leading(v@, p@) == v@.skip(i as int)) by {
        if m == 0 {
            assert(v@.skip(0) =~= v@);
        }
    }
    let mut out: Vec<char> = Vec::new();
    let mut k = i;
    while k < n
        invariant
            i <= k <= n,
            n == v@.len(),
            out@ == v@.subrange(i as int, k as int),
        decreases n - k,
    {
        out.push(v[k]);
        assert(v@.subrange(i as int, k + 1) =~= v@.subrange(i as int, k as int).push(v@[k as int]));
        k = k + 1;
    }
    assert(v@.subrange(i as int, n as int) =~= v@.skip(i as int));
    chars_to_string(&out)
}

/// `s` with every trailing occurrence of `pat` removed, as
/// `str::trim_end_matches` gives it.
pub open spec fn strip_trailing(s: Seq<char>, pat: Seq<char>) -> Seq<char>
    decreases s.len(),
{
    if pat.len() > 0 && pat.len() <= s.len() && s.skip(s.len() - pat.len()) == pat {
        strip_trailing(s.take(s.len() - pat.len()), pat)
    } else {
        s
    }
}

pub fn strip_trailing_text(s: &str, pat: &str) -> (r: String)
    ensures
        r@ == strip_trailing(s@, pat@),
{
    let v = chars_of(s);
    let p = chars_of(pat);
    let m = p.len();
    let mut e: usize = v.len();
    assert(v@.take(e as int) =~= v@);
    if m > 0 {
        loop
            invariant
                m == p@.len(),
                m > 0,
                e <= v@.len(),
                strip_trailing(v@, p@) == strip_trailing(v@.take(e as int), p@),
            ensures
                e <= v@.len(),
                strip_trailing(v@, p@) == v@.take(e as int),
            decreases e,
        {
            let ghost t = v@.take(e as int);
            if m > e {
                break;
            }
            let start = e - m;
            let mut j: usize = 0;
            while j < m && v[start + j] == p[j]
                invariant
                    m == p@.len(),
                    start + m == e,
                    e <= v@.len(),
                    j <= m,
                    forall|k: int| 0 <= k < j ==> v@[start + k] == p@[k],
                decreases m - j,
            {
                j = j + 1;
            }
            if j < m {
                assert(t.skip(t.len() - m)[j as int] != p@[j as int]);
                break;
            }
            assert(t.skip(t.len() - m) =~= p@);
            assert(t.take(t.len() - m) =~= v@.take(start as int));
            e = start;
        }
    }
    let mut out: Vec<char> = Vec::new();
    let mut k: usize = 0;
    while k < e
        invariant
            k <= e <= v@.len(),
            out@ == v@.take(k as int),
        decreases e - k,
    {
        out.push(v[k]);
        assert(v@.take(k + 1) =~= v@.take(k as int).push(v@[k as int]));
        k = k + 1;
    }
    chars_to_string(&out)
}

/// The pieces of `s` between `sep`s, as `s.split(sep)` yields them.
pub fn split_text(s: &str, sep: char) -> (r: Vec<String>)
    ensures
        r@.map_values(|x: String| x@) == pieces(s@, sep),
{
    let v = chars_of(s);
    let n = v.len();
    let mut out: Vec<String> = Vec::new();
    let mut cur: Vec<char> = Vec::new();
    let mut start: usize = 0;
    let mut i: usize = 0;
    assert(v@.skip(0) =~= v@);
    while i < n
        invariant
            n == v@.len(),
            start <= i <= n,
            forall|k: int| start <= k < i ==> v@[k] != sep,
            cur@ == v@.subrange(start as int, i as int),
            pieces(v@, sep) == out@.map_values(|x: String| x@) + pieces(v@.skip(start as int), sep),
        decreases n - i,
    {
        if v[i] == sep {
            proof {
                let t = v@.skip(start as int);
                assert(t[i - start] == sep);
                lemma_first_sep(t, sep, i - start);
                assert(t.take(i - start) =~= cur@);
                assert(t.skip(i - start + 1) =~= v@.skip(i + 1));
            }
            let ghost o = out@;
            out.push(chars_to_string(&cur));
            proof {
                assert(out@.map_values(|x: String| x@) =~= o.map_values(|x: String| x@).push(cur@));
                assert(pieces(v@, sep) =~= out@.map_values(|x: String| x@) + pieces(v@.skip(i + 1), sep));
            }
            cur = Vec::new();
            start = i + 1;
        } else {
            cur.push(v[i]);
            assert(v@.subrange(start as int, i + 1) =~= v@.subrange(start as int, i as int).push(v@[i as int]));
        }
        i = i + 1;
    }
    proof {
        let t = v@.skip(start as int);
        assert forall|k: int| 0 <= k < t.len() implies t[k] != sep by {
            assert(t[k] == v@[start + k]);
        }
        lemma_no_sep(t, sep);
        assert(t =~= cur@);
    }
    let ghost o = out@;
    out.push(chars_to_string(&cur));
    assert(out@.map_values(|x: String| x@) =~= o.map_values(|x: String| x@).push(cur@));
    out
}

} // verus!
