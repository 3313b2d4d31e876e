//! GNP over Bluetooth, that is without a dongle.
//!
//! The framing is the same packet header as over hidraw with no report id in
//! front. RFCOMM is a stream: replies coalesce or split across reads, so
//! packets are cut on the length field rather than assuming one packet per
//! read as hidraw allows. This module holds what the session decides: the
//! sequence numbers it hands out, where the stream is cut, which packet
//! answers which request, and what a sweep collected.
use vstd::prelude::*;
use vstd::slice::slice_to_vec;

use crate::gnp::{self, len_of, spec_parse_body, HEADER_LEN};
use crate::table::SeqMap;
use crate::textual::{lemma_stable_sort_map, sort_by_key, sorted_by_key, stable_sort_of, Keyed};

verus! {

/// What came back from a read.
///
/// Silence and a broken socket have to be told apart: most headsets answer
/// only a part of the subcommands, and taking the missing ones for a dead link
/// would drop a session that still reports its battery.
pub enum Reply {
    Data(Vec<u8>),
    /// Nothing arrived in time. The device may not know the subcommand.
    Silent,
    /// The socket is gone — the write failed, or the stream ended.
    Dead,
}

impl Reply {
    /// What a request came to when no reply of its own arrived: a dead link
    /// where the socket failed, silence otherwise.
    pub fn unanswered(dead: bool) -> (r: Reply)
        ensures
            dead ==> r is Dead,
            !dead ==> r is Silent,
    {
        if dead {
            Reply::Dead
        } else {
            Reply::Silent
        }
    }

    /// The payload, where there is one.
    pub fn data(self) -> (r: Option<Vec<u8>>)
        ensures
            r == (match self {
                Reply::Data(d) => Some(d),
                _ => None,
            }),
    {
        match self {
            Reply::Data(d) => Some(d),
            _ => None,
        }
    }
}

/// The sequence number after `seq`. Zero is skipped, so a reply cannot be
/// mistaken for an empty report.
pub fn next_seq(seq: u8) -> (r: u8)
    ensures
        r == (if seq == 255 {
            1
        } else {
            seq + 1
        }),
        r != 0,
{
    let n = seq.wrapping_add(1);
    if n == 0 {
        1
    } else {
        n
    }
}

/// The length a stream's next packet claims, from its header.
pub open spec fn frame_len(b: Seq<u8>) -> int {
    len_of(b[3])
}

/// How the next packet was cut from the stream.
pub enum Cut {
    /// A complete packet.
    Packet(Vec<u8>),
    /// The length field cannot be right: the stream is out of step and what it
    /// held is dropped.
    OutOfStep,
    /// Not enough has arrived yet.
    NeedMore,
}

/// The bytes received and not yet cut into packets.
pub struct Stream {
    buf: Vec<u8>,
}

impl View for Stream {
    type V = Seq<u8>;

    closed spec fn view(&self) -> Seq<u8> {
        self.buf@
    }
}

impl Stream {
    pub fn new() -> (s: Stream)
        ensures
            s@ == Seq::<u8>::empty(),
    {
        Stream { buf: Vec::new() }
    }

    /// Adds what a read delivered.
    pub fn extend(&mut self, chunk: &[u8])
        ensures
            final(self)@ == old(self)@ + chunk@,
    {
        let mut i: usize = 0;
        while i < chunk.len()
            invariant
                i <= chunk@.len(),
                self.buf@ == old(self).buf@ + chunk@.take(i as int),
            decreases chunk@.len() - i,
        {
            self.buf.push(chunk[i]);
            assert(chunk@.take(i + 1) =~= chunk@.take(i as int).push(chunk@[i as int]));
            i = i + 1;
        }
        assert(chunk@.take(chunk@.len() as int) =~= chunk@);
    }

    /// Cuts the next complete packet off the front, by its length field.
    pub fn next_packet(&mut self) -> (r: Cut)
        ensures
            ({
                let b = old(self)@;
                if b.len() >= HEADER_LEN && frame_len(b) >= HEADER_LEN && b.len() >= frame_len(
                    b,
                ) {
                    &&& r matches Cut::Packet(p) && p@ == b.take(frame_len(b))
                    &&& final(self)@ == b.skip(frame_len(b))
                } else if b.len() >= HEADER_LEN && frame_len(b) < HEADER_LEN {
                    &&& r is OutOfStep
                    &&& final(self)@ == Seq::<u8>::empty()
                } else {
                    &&& r is NeedMore
                    &&& final(self)@ == b
                }
            }),
    {
        if self.buf.len() >= HEADER_LEN {
            let b = self.buf[3];
            assert(b & 0x3Fu8 == b % 64) by (bit_vector);
            let len = (b & 0x3F) as usize;
            if len >= HEADER_LEN && self.buf.len() >= len {
                let mut pkt = self.buf.split_off(len);
                std::mem::swap(&mut self.buf, &mut pkt);
                return Cut::Packet(pkt);
            }
            if len < HEADER_LEN {
                self.buf.clear();
                return Cut::OutOfStep;
            }
        }
        Cut::NeedMore
    }
}

/// A packet as the device frames it: its length field is its length.
pub open spec fn well_framed(p: Seq<u8>) -> bool {
    p.len() >= HEADER_LEN && frame_len(p) == p.len()
}

/// Law: a complete packet at the front of the stream is cut off exactly, and
/// what follows stays for the next cut.
pub proof fn law_cut_takes_the_front_packet(p: Seq<u8>, rest: Seq<u8>)
    requires
        well_framed(p),
    ensures
        ({
            let b = p + rest;
            &&& b.len() >= HEADER_LEN && frame_len(b) >= HEADER_LEN && b.len() >= frame_len(b)
            &&& b.take(frame_len(b)) == p
            &&& b.skip(frame_len(b)) == rest
        }),
{
    let b = p + rest;
    assert(b[3] == p[3]);
    assert(b.take(frame_len(b)) =~= p);
    assert(b.skip(frame_len(b)) =~= rest);
}

/// Law: a packet that has arrived only in part is neither cut nor dropped;
/// the stream waits for the rest, however the bytes were chunked.
pub proof fn law_partial_packet_waits(p: Seq<u8>, n: int)
    requires
        well_framed(p),
        0 <= n < p.len(),
    ensures
        ({
            let b = p.take(n);
            !(b.len() >= HEADER_LEN && frame_len(b) >= HEADER_LEN && b.len() >= frame_len(b))
                && !(b.len() >= HEADER_LEN && frame_len(b) < HEADER_LEN)
        }),
{
    let b = p.take(n);
    if b.len() >= HEADER_LEN {
        assert(b[3] == p[3]);
    }
}

/// The payload of the reply to request `seq`/`cmd`/`sub`, if `pkt` is it.
///
/// The device also sends unprompted; only the own reply counts.
pub open spec fn spec_reply_for(pkt: Seq<u8>, seq: u8, cmd: u8, sub: u8) -> Option<Seq<u8>> {
    match spec_parse_body(pkt) {
        Some(r) => if r.seq == seq && r.cmd == cmd && r.sub == sub {
            Some(r.data)
        } else {
            None
        },
        None => None,
    }
}

pub fn reply_for(pkt: &[u8], seq: u8, cmd: u8, sub: u8) -> (r: Option<Vec<u8>>)
    ensures
        r is Some <==> spec_reply_for(pkt@, seq, cmd, sub) is Some,
        r matches Some(d) ==> spec_reply_for(pkt@, seq, cmd, sub) == Some(d@),
{
    match gnp::parse_body(pkt) {
        Some(r) => {
            if r.seq == seq && r.cmd == cmd && r.sub == sub {
                Some(slice_to_vec(r.data))
            } else {
                None
            }
        },
        None => None,
    }
}

/// The requests of a sweep that await their answer, and the answers so far in
/// the order they came.
pub struct Collector {
    pending: SeqMap<&'static str>,
    found: Vec<(&'static str, Vec<u8>)>,
}

impl Collector {
    /// Requests not yet answered: sequence number to name.
    pub closed spec fn pending(&self) -> Map<u8, &'static str> {
        self.pending.map()
    }

    /// Answers so far, in arrival order.
    pub closed spec fn found(&self) -> Seq<(&'static str, Seq<u8>)> {
        self.found@.map_values(|f: (&'static str, Vec<u8>)| (f.0, f.1@))
    }

    pub fn new() -> (c: Collector)
        ensures
            c.pending() == Map::<u8, &'static str>::empty(),
            c.found() == Seq::<(&'static str, Seq<u8>)>::empty(),
    {
        let c = Collector { pending: SeqMap::new(), found: Vec::new() };
        assert(c.found() =~= Seq::<(&'static str, Seq<u8>)>::empty());
        c
    }

    /// Records that request `seq` asked for `name`. A sequence number that is
    /// already waiting now stands for the new name.
    pub fn expect(&mut self, seq: u8, name: &'static str)
        ensures
            final(self).pending() == old(self).pending().insert(seq, name),
            final(self).found() == old(self).found(),
    {
        self.pending.insert(seq, name);
    }

    /// Takes the answer to request `seq`, if that request is still waiting.
    /// Returns whether it was.
    pub fn offer(&mut self, seq: u8, data: &[u8]) -> (taken: bool)
        ensures
            taken == old(self).pending().contains_key(seq),
            taken ==> final(self).pending() == old(self).pending().remove(seq),
            taken ==> final(self).found() == old(self).found().push(
                (old(self).pending()[seq], data@),
            ),
            !taken ==> final(self).pending() == old(self).pending(),
            !taken ==> final(self).found() == old(self).found(),
    {
        match self.pending.remove(seq) {
            Some(name) => {
                let ghost f0 = self.found();
                self.found.push((name, slice_to_vec(data)));
                assert(self.found() =~= f0.push((name, data@)));
                true
            },
            None => {
                assert(old(self).pending().remove(seq) =~= old(self).pending());
                false
            },
        }
    }

    /// Whether every request has had its answer.
    pub fn is_done(&self) -> (r: bool)
        ensures
            r == (self.pending() == Map::<u8, &'static str>::empty()),
    {
        let r = self.pending.len() == 0;
        proof {
            if r {
                assert(self.pending().dom() =~= Set::<u8>::empty());
                assert(self.pending() =~= Map::<u8, &'static str>::empty());
            } else {
                assert(self.pending().dom().len() > 0);
                if self.pending() == Map::<u8, &'static str>::empty() {
                    assert(self.pending().dom() =~= Set::<u8>::empty());
                }
            }
        }
        r
    }

    /// The answers, in the order they came.
    pub fn into_found(self) -> (r: Vec<(&'static str, Vec<u8>)>)
        ensures
            r@.map_values(|f: (&'static str, Vec<u8>)| (f.0, f.1@)) == self.found(),
    {
        self.found
    }
}

impl Keyed for (&'static str, Vec<u8>) {
    open spec fn key_view(&self) -> Seq<char> {
        self.0@
    }

    fn key(&self) -> (k: &str) {
        self.0
    }
}

/// Takes a packet that arrived during a sweep: a reply to command `cmd` whose
/// sequence number is still waiting is recorded, anything else is passed over.
pub fn sweep_packet(c: &mut Collector, pkt: &[u8], cmd: u8) -> (taken: bool)
    ensures
        ({
            let r = spec_parse_body(pkt@);
            if r is Some && r->0.cmd == cmd && old(c).pending().contains_key(r->0.seq) {
                &&& taken
                &&& final(c).pending() == old(c).pending().remove(r->0.seq)
                &&& final(c).found() == old(c).found().push(
                    (old(c).pending()[r->0.seq], r->0.data),
                )
            } else {
                &&& !taken
                &&& final(c).pending() == old(c).pending()
                &&& final(c).found() == old(c).found()
            }
        }),
{
    match gnp::parse_body(pkt) {
        Some(r) => {
            if r.cmd != cmd {
                return false;
            }
            c.offer(r.seq, r.data)
        },
        None => false,
    }
}

/// The rows of a sweep in the order of their names.
pub fn sweep_rows(c: Collector) -> (r: Vec<(&'static str, Vec<u8>)>)
    ensures
        sorted_by_key(r@),
        r@.map_values(|f: (&'static str, Vec<u8>)| (f.0, f.1@)).to_multiset()
            == c.found().to_multiset(),
        stable_sort_of(
            r@.map_values(|f: (&'static str, Vec<u8>)| (f.0, f.1@)),
            c.found(),
            |f: (&'static str, Seq<u8>)| f.0@,
        ),
{
    let rows = c.into_found();
    let sorted = sort_by_key(rows);
    proof {
        let f = |f: (&'static str, Vec<u8>)| (f.0, f.1@);
        lemma_map_multiset(rows@, sorted@, f);
        lemma_stable_sort_map(
            sorted@,
            rows@,
            |t: (&'static str, Vec<u8>)| t.key_view(),
            f,
            |f: (&'static str, Seq<u8>)| f.0@,
        );
    }
    sorted
}

/// Mapping every item keeps two sequences with the same items the same.
pub proof fn lemma_map_multiset<A, B>(s: Seq<A>, t: Seq<A>, f: spec_fn(A) -> B)
    requires
        s.to_multiset() == t.to_multiset(),
    ensures
        s.map_values(f).to_multiset() == t.map_values(f).to_multiset(),
    decreases s.len(),
{
    broadcast use vstd::seq_lib::group_to_multiset_ensures;

    if s.len() == 0 {
        vstd::seq_lib::to_multiset_len(t);
        assert(t.len() == 0);
        assert(s.map_values(f) =~= Seq::<B>::empty());
        assert(t.map_values(f) =~= Seq::<B>::empty());
    } else {
        let x = s.last();
        assert(s.to_multiset().count(x) > 0);
        assert(t.to_multiset().count(x) > 0);
        assert(t.contains(x));
        let j = choose|j: int| 0 <= j < t.len() && t[j] == x;
        let s1 = s.drop_last();
        let t1 = t.remove(j);
        vstd::seq_lib::to_multiset_remove(t, j);
        assert(s =~= s1.push(x));
        vstd::seq_lib::to_multiset_build(s1, x);
        assert(s1.to_multiset() =~= t1.to_multiset());
        lemma_map_multiset(s1, t1, f);
        assert(s.map_values(f) =~= s1.map_values(f).push(f(x)));
        vstd::seq_lib::to_multiset_build(s1.map_values(f), f(x));
        assert(t.map_values(f).remove(j) =~= t1.map_values(f));
        vstd::seq_lib::to_multiset_remove(t.map_values(f), j);
        assert(s.map_values(f).to_multiset() =~= t.map_values(f).to_multiset());
    }
}

} // verus!
