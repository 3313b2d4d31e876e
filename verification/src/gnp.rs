//! Jabra's GNP protocol on the vendor report (report 5, usage page `0xff00`).
//!
//! The kernel passes this report through untouched. Battery level and the other
//! status values are reachable only here; the device exposes no battery system
//! usage page.
//!
//! Packet layout, derived from the traffic Jabra's own SDK produces:
//!
//! ```text
//! byte 0   destination      0x01 = device
//! byte 1   source           0x00 = PC
//! byte 2   sequence number  mirrored in the reply
//! byte 3   (type << 6) | total length in bytes
//! byte 4   message type     18 = status
//! byte 5   subcommand       2 = headset battery
//! byte 6+  payload
//! ```
use vstd::prelude::*;
use vstd::slice::slice_subrange;

use crate::textual::chars_to_string;

verus! {

/// Vendor report the commands travel on.
pub const REPORT_ID: u8 = 0x05;

/// Payload length of the report per the descriptor (`75 08 95 3f`).
pub const REPORT_SIZE: usize = 63;

pub const HEADER_LEN: usize = 6;

/// The most payload a packet can carry: the length lives in six bits.
pub const MAX_DATA: usize = 57;

/// Destination addresses. Dongle and headset sit behind the same hidraw node
/// and are told apart by this byte.
pub const DST_DONGLE: u8 = 0x01;

pub const DST_HEADSET: u8 = 0x04;

pub const SRC_PC: u8 = 0x00;

pub const TYPE_READ: u8 = 1;

pub const TYPE_WRITE: u8 = 2;

pub const TYPE_RESPONSE: u8 = 3;

/// Message type of an accepted write, and of a refusal with a reason byte.
pub const ACK: u8 = 0xff;

pub const NAK: u8 = 0xfe;

pub const CMD_STATUS: u8 = 18;

pub const SUB_HS_BATTERY: u8 = 2;

pub const CMD_IDENT: u8 = 2;

/// Device settings. Harmless to read; the same subcommands are writable and
/// then change the configuration for good.
pub const CMD_CONFIG: u8 = 19;

pub const SUB_NAME: u8 = 0;

pub const SUB_SERIAL: u8 = 1;

pub const SUB_VERSION: u8 = 3;

/// The payload a packet keeps of `data`: everything up to the six-bit limit.
pub open spec fn clipped(data: Seq<u8>) -> Seq<u8> {
    if data.len() <= MAX_DATA {
        data
    } else {
        data.take(MAX_DATA as int)
    }
}

/// A bare packet of the given message kind (`TYPE_READ`, `TYPE_WRITE`, ...).
pub open spec fn spec_body(kind: u8, dst: u8, seq: u8, cmd: u8, sub: u8, data: Seq<u8>) -> Seq<u8> {
    let d = clipped(data);
    seq![dst, SRC_PC, seq, (kind * 64 + HEADER_LEN + d.len()) as u8, cmd, sub] + d
}

/// The type bits of a header's fourth byte.
pub open spec fn type_of(b: u8) -> int {
    b as int / 64
}

/// The length bits of a header's fourth byte.
pub open spec fn len_of(b: u8) -> int {
    b as int % 64
}

/// A packet wrapped for hidraw: report id, packet, zeros up to 64 bytes.
pub open spec fn spec_report(body: Seq<u8>) -> Seq<u8> {
    seq![REPORT_ID] + body + Seq::new((REPORT_SIZE - body.len()) as nat, |i: int| 0u8)
}

proof fn lemma_header_byte(kind: u8, len: u8)
    requires
        kind < 4,
        len < 64,
    ensures
        (kind << 6u8) | len == (kind * 64 + len) as u8,
        type_of((kind << 6u8) | len) == kind,
        len_of((kind << 6u8) | len) == len,
{
    assert((kind << 6u8) | len == (kind * 64 + len) as u8) by (bit_vector)
        requires
            kind < 4,
            len < 64,
    ;
}

proof fn lemma_split_byte(b: u8)
    ensures
        b >> 6u8 == b / 64,
        b & 0x3Fu8 == b % 64,
{
    assert(b >> 6u8 == b / 64) by (bit_vector);
    assert(b & 0x3Fu8 == b % 64) by (bit_vector);
}

fn body(kind: u8, dst: u8, seq: u8, cmd: u8, sub: u8, data: &[u8]) -> (out: Vec<u8>)
    requires
        kind < 4,
    ensures
        out@ == spec_body(kind, dst, seq, cmd, sub, data@),
{
    let n = if data.len() <= MAX_DATA {
        data.len()
    } else {
        MAX_DATA
    };
    let data = slice_subrange(data, 0, n);
    let len = HEADER_LEN + n;
    proof {
        lemma_header_byte(kind, len as u8);
    }
    let mut out = vec![dst, SRC_PC, seq, (kind << 6) | (len as u8), cmd, sub];
    let mut i: usize = 0;
    while i < n
        invariant
            n == data@.len(),
            i <= n,
            out@ == seq![dst, SRC_PC, seq, (kind * 64 + len) as u8, cmd, sub] + data@.take(
                i as int,
            ),
        decreases n - i,
    {
        out.push(data[i]);
        assert(data@.take(i + 1) =~= data@.take(i as int).push(data@[i as int]));
        i = i + 1;
    }
    assert(data@.take(n as int) =~= data@);
    out
}

/// The bare packet header of a read request, without transport wrapping.
///
/// Over hidraw the report id goes in front, over RFCOMM nothing does. `data`
/// selects a sub-item where a subcommand addresses several; most take none.
/// The length lives in six bits, so a packet cannot exceed 63 bytes and
/// `data` is cut after 57.
pub fn read_body(dst: u8, seq: u8, cmd: u8, sub: u8, data: &[u8]) -> (out: Vec<u8>)
    ensures
        out@ == spec_body(TYPE_READ, dst, seq, cmd, sub, data@),
{
    body(TYPE_READ, dst, seq, cmd, sub, data)
}

/// A write packet: the same header with the command type, carrying the value.
pub fn write_body(dst: u8, seq: u8, cmd: u8, sub: u8, data: &[u8]) -> (out: Vec<u8>)
    ensures
        out@ == spec_body(TYPE_WRITE, dst, seq, cmd, sub, data@),
{
    body(TYPE_WRITE, dst, seq, cmd, sub, data)
}

fn report(body: &Vec<u8>) -> (out: [u8; 64])
    requires
        body@.len() <= REPORT_SIZE,
    ensures
        out@ == spec_report(body@),
{
    let mut out = [0u8; 64];
    out[0] = REPORT_ID;
    let mut i: usize = 0;
    while i < body.len()
        invariant
            body@.len() <= REPORT_SIZE,
            i <= body@.len(),
            out@.len() == 64,
            out@[0] == REPORT_ID,
            forall|k: int| 0 <= k < i ==> out@[1 + k] == body@[k],
            forall|k: int| 1 + i <= k < 64 ==> out@[k] == 0u8,
        decreases body@.len() - i,
    {
        out[1 + i] = body[i];
        i = i + 1;
    }
    assert(out@ =~= spec_report(body@));
    out
}

/// Read request for the hidraw node: the leading byte is the report id, and the
/// report is filled up with zeros to its 64 bytes.
pub fn read_request(dst: u8, seq: u8, cmd: u8, sub: u8, data: &[u8]) -> (out: [u8; 64])
    ensures
        out@ == spec_report(spec_body(TYPE_READ, dst, seq, cmd, sub, data@)),
{
    let body = read_body(dst, seq, cmd, sub, data);
    report(&body)
}

/// Write request for the hidraw node, wrapped as [`read_request`] is.
pub fn write_request(dst: u8, seq: u8, cmd: u8, sub: u8, data: &[u8]) -> (out: [u8; 64])
    ensures
        out@ == spec_report(spec_body(TYPE_WRITE, dst, seq, cmd, sub, data@)),
{
    let body = write_body(dst, seq, cmd, sub, data);
    report(&body)
}

/// What the device made of a write.
#[derive(Debug, PartialEq, Eq, Structural, Clone, Copy)]
pub enum Ack {
    Accepted,
    /// Refused, with the device's reason.
    Nak(u8),
}

/// The answer to a write, as a function of the packet's bytes.
pub open spec fn spec_write_reply(body: Seq<u8>, dst: u8, seq: u8) -> Option<Ack> {
    if body.len() < 5 || body[1] != dst || body[2] != seq {
        None
    } else if type_of(body[3]) != TYPE_RESPONSE {
        None
    } else if len_of(body[3]) < 5 || len_of(body[3]) > body.len() {
        None
    } else if body[4] == ACK {
        Some(Ack::Accepted)
    } else if body[4] == NAK && len_of(body[3]) >= 6 {
        Some(Ack::Nak(body[5]))
    } else {
        None
    }
}

/// The answer to a write, if this packet is one.
///
/// Matched on sender and sequence number. Not on the destination byte: over
/// hidraw the device answers to 0x00, over RFCOMM to 0x09, and neither tells
/// this packet apart from another. Five bytes are enough for an acceptance,
/// one less than a read reply needs, which is why this does not go through
/// [`parse_body`].
pub fn write_reply(body: &[u8], dst: u8, seq: u8) -> (r: Option<Ack>)
    ensures
        r == spec_write_reply(body@, dst, seq),
{
    if body.len() < 5 || body[1] != dst || body[2] != seq {
        return None;
    }
    proof {
        lemma_split_byte(body@[3]);
    }
    if body[3] >> 6 != TYPE_RESPONSE {
        return None;
    }
    let len = (body[3] & 0x3F) as usize;
    if len < 5 || len > body.len() {
        return None;
    }
    if body[4] == ACK {
        Some(Ack::Accepted)
    } else if body[4] == NAK && len >= 6 {
        Some(Ack::Nak(body[5]))
    } else {
        None
    }
}

/// A reply, split into its header fields and payload.
pub struct Response<'a> {
    /// Sender: says whether the dongle or the headset answered.
    pub src: u8,
    pub seq: u8,
    pub cmd: u8,
    pub sub: u8,
    pub data: &'a [u8],
}

/// The header fields and payload of a reply, as plain values.
pub struct ResponseView {
    pub src: u8,
    pub seq: u8,
    pub cmd: u8,
    pub sub: u8,
    pub data: Seq<u8>,
}

impl<'a> View for Response<'a> {
    type V = ResponseView;

    open spec fn view(&self) -> ResponseView {
        ResponseView { src: self.src, seq: self.seq, cmd: self.cmd, sub: self.sub, data: self.data@ }
    }
}

/// Whether a packet is a well-formed reply: a full header, the response type,
/// and a length field that covers the header and stays within the packet.
pub open spec fn is_reply(body: Seq<u8>) -> bool {
    &&& body.len() >= HEADER_LEN
    &&& type_of(body[3]) == TYPE_RESPONSE
    &&& HEADER_LEN <= len_of(body[3]) <= body.len()
}

/// The reply a packet carries, as a function of its bytes.
pub open spec fn spec_parse_body(body: Seq<u8>) -> Option<ResponseView> {
    if is_reply(body) {
        Some(
            ResponseView {
                src: body[1],
                seq: body[2],
                cmd: body[4],
                sub: body[5],
                data: body.subrange(HEADER_LEN as int, len_of(body[3])),
            },
        )
    } else {
        None
    }
}

/// What a hidraw report carries: a reply behind the report id, or nothing.
pub open spec fn spec_parse(report: Seq<u8>) -> Option<ResponseView> {
    if report.len() > 0 && report[0] == REPORT_ID {
        spec_parse_body(report.drop_first())
    } else {
        None
    }
}

/// Splits a packet without transport wrapping, as it arrives over RFCOMM.
///
/// The payload is cut at the length field; whatever follows belongs to no one.
pub fn parse_body(body: &[u8]) -> (r: Option<Response<'_>>)
    ensures
        r is Some <==> spec_parse_body(body@) is Some,
        r matches Some(resp) ==> spec_parse_body(body@) == Some(resp@),
{
    if body.len() < HEADER_LEN {
        return None;
    }
    proof {
        lemma_split_byte(body@[3]);
    }
    let len = (body[3] & 0x3F) as usize;
    if body[3] >> 6 != TYPE_RESPONSE || len < HEADER_LEN || len > body.len() {
        return None;
    }
    Some(
        Response {
            src: body[1],
            seq: body[2],
            cmd: body[4],
            sub: body[5],
            data: slice_subrange(body, HEADER_LEN, len),
        },
    )
}

fn strip_report_id(report: &[u8]) -> (r: Option<&[u8]>)
    ensures
        r is Some <==> (report@.len() > 0 && report@[0] == REPORT_ID),
        r matches Some(rest) ==> rest@ == report@.drop_first(),
{
    if report.len() > 0 && report[0] == REPORT_ID {
        Some(slice_subrange(report, 1, report.len()))
    } else {
        None
    }
}

/// Splits an incoming report 5. `report` starts with the report id.
pub fn parse(report: &[u8]) -> (r: Option<Response<'_>>)
    ensures
        r is Some <==> spec_parse(report@) is Some,
        r matches Some(resp) ==> spec_parse(report@) == Some(resp@),
{
    match strip_report_id(report) {
        Some(body) => parse_body(body),
        None => None,
    }
}

/// [`write_reply`] for a report that still carries its report id.
pub fn write_ack(report: &[u8], dst: u8, seq: u8) -> (r: Option<Ack>)
    ensures
        r == (if report@.len() > 0 && report@[0] == REPORT_ID {
            spec_write_reply(report@.drop_first(), dst, seq)
        } else {
            None
        }),
{
    match strip_report_id(report) {
        Some(body) => write_reply(body, dst, seq),
        None => None,
    }
}

/// Charge level in percent from a [`SUB_HS_BATTERY`] reply.
///
/// Byte 1 carries the percentage. Established against the hardware in both
/// directions: `00 20 00 00` at 32% off the cable, `01 3a 00 00` at 58% on it,
/// `00 3d 00 00` at 61% after unplugging. Above 100 is not a percentage, so it
/// is no answer either.
pub fn battery_percent(data: &[u8]) -> (r: Option<u8>)
    ensures
        r == (if data@.len() > 1 && data@[1] <= 100 {
            Some(data@[1])
        } else {
            None
        }),
{
    if data.len() > 1 && data[1] <= 100 {
        Some(data[1])
    } else {
        None
    }
}

/// Byte 0 is a bit field and bit 0 the charging state. Checked on both
/// transports: through the dongle it toggles `0x00`/`0x01`, straight at the
/// headset `0x24`/`0x25`. The remaining bits are unestablished, so only bit 0
/// is read.
pub fn battery_charging(data: &[u8]) -> (r: bool)
    ensures
        r == (data@.len() > 0 && data@[0] % 2 == 1),
{
    if data.len() == 0 {
        return false;
    }
    let b = data[0];
    assert(b & 1u8 != 0 <==> b % 2 == 1) by (bit_vector);
    b & 1 != 0
}

/// A byte that shows as itself: printable ASCII.
pub open spec fn printable(b: u8) -> bool {
    0x20 <= b < 0x7f
}

/// The text an ident reply carries, as a function of its bytes.
pub open spec fn spec_text(data: Seq<u8>) -> Option<Seq<char>> {
    if data.len() == 0 {
        None
    } else {
        let n = data[0] as int;
        let rest = data.subrange(1, data.len() as int);
        if n > rest.len() || n == 0 || exists|i: int| 0 <= i < n && !printable(rest[i]) {
            None
        } else {
            Some(Seq::new(n as nat, |i: int| rest[i] as char))
        }
    }
}

/// Text replies of the ident group: a leading length byte, then ASCII.
///
/// Empty text, a length past the end and anything that is not printable ASCII
/// give no text.
pub fn text(data: &[u8]) -> (r: Option<String>)
    ensures
        r is Some <==> spec_text(data@) is Some,
        r matches Some(s) ==> spec_text(data@) == Some(s@),
{
    if data.len() == 0 {
        return None;
    }
    let n = data[0] as usize;
    if n > data.len() - 1 || n == 0 {
        return None;
    }
    let ghost rest = data@.subrange(1, data@.len() as int);
    let mut chars: Vec<char> = Vec::new();
    let mut i: usize = 0;
    while i < n
        invariant
            n == data@[0] as int,
            n <= data@.len() - 1,
            rest == data@.subrange(1, data@.len() as int),
            i <= n,
            forall|k: int| 0 <= k < i ==> printable(rest[k]),
            chars@ == Seq::new(i as nat, |k: int| rest[k] as char),
        decreases n - i,
    {
        let b = data[1 + i];
        if !(0x20 <= b && b < 0x7f) {
            assert(!printable(rest[i as int]));
            return None;
        }
        chars.push(b as char);
        assert(chars@ =~= Seq::new((i + 1) as nat, |k: int| rest[k] as char));
        i = i + 1;
    }
    Some(chars_to_string(&chars))
}

/// Law: a request is never taken for a reply. Reads and writes carry their own
/// type in the header, so neither the reply parser nor the write matcher
/// accepts a packet this side built, whatever it addresses or carries.
pub proof fn law_request_is_not_a_reply(kind: u8, dst: u8, seq: u8, cmd: u8, sub: u8, data: Seq<u8>)
    requires
        kind == TYPE_READ || kind == TYPE_WRITE,
    ensures
        spec_parse_body(spec_body(kind, dst, seq, cmd, sub, data)) is None,
        spec_write_reply(spec_body(kind, dst, seq, cmd, sub, data), dst, seq) is None,
{
    let d = clipped(data);
    lemma_header_byte(kind, (HEADER_LEN + d.len()) as u8);
    let b = spec_body(kind, dst, seq, cmd, sub, data);
    assert(b[3] == (kind * 64 + HEADER_LEN + d.len()) as u8);
}

/// Law: a built packet states its own length. The header's length field is the
/// number of bytes in the packet, the type field is the message kind, and no
/// packet is longer than the 63 bytes a report carries.
pub proof fn law_length_field_is_packet_length(kind: u8, dst: u8, seq: u8, cmd: u8, sub: u8, data: Seq<u8>)
    requires
        kind < 4,
    ensures
        ({
            let b = spec_body(kind, dst, seq, cmd, sub, data);
            &&& len_of(b[3]) == b.len()
            &&& type_of(b[3]) == kind
            &&& HEADER_LEN <= b.len() <= REPORT_SIZE
            &&& b.subrange(HEADER_LEN as int, b.len() as int) == clipped(data)
        }),
{
    let d = clipped(data);
    lemma_header_byte(kind, (HEADER_LEN + d.len()) as u8);
    let b = spec_body(kind, dst, seq, cmd, sub, data);
    assert(b.subrange(HEADER_LEN as int, b.len() as int) =~= d);
}

/// A reply packet as the device frames it: the response type and the length of
/// header plus payload in byte 3.
pub open spec fn reply_packet(first: u8, src: u8, seq: u8, cmd: u8, sub: u8, payload: Seq<u8>) -> Seq<u8> {
    seq![first, src, seq, (TYPE_RESPONSE * 64 + HEADER_LEN + payload.len()) as u8, cmd, sub]
        + payload
}

/// Law: a reply gives back what it was framed with. The sender, sequence
/// number, command, subcommand and payload come out as they went in, whatever
/// the first byte says and whatever trails behind the packet.
pub proof fn law_reply_round_trip(
    first: u8,
    src: u8,
    seq: u8,
    cmd: u8,
    sub: u8,
    payload: Seq<u8>,
    trailing: Seq<u8>,
)
    requires
        payload.len() <= MAX_DATA,
    ensures
        spec_parse_body(reply_packet(first, src, seq, cmd, sub, payload) + trailing) == Some(
            ResponseView { src, seq, cmd, sub, data: payload },
        ),
        spec_parse(seq![REPORT_ID] + reply_packet(first, src, seq, cmd, sub, payload) + trailing)
            == Some(ResponseView { src, seq, cmd, sub, data: payload }),
{
    lemma_header_byte(TYPE_RESPONSE, (HEADER_LEN + payload.len()) as u8);
    let p = reply_packet(first, src, seq, cmd, sub, payload);
    let b = p + trailing;
    assert(b[3] == p[3]);
    assert(b.subrange(HEADER_LEN as int, (HEADER_LEN + payload.len()) as int) =~= payload);
    let r = seq![REPORT_ID] + p + trailing;
    assert(r.drop_first() =~= b);
}

/// Law: the address a reply is sent to does not decide whether it answers a
/// write. The same bytes with any other first byte, 0x00 over hidraw or 0x09
/// over RFCOMM, give the same answer.
pub proof fn law_write_reply_ignores_destination(body: Seq<u8>, first: u8, dst: u8, seq: u8)
    requires
        body.len() > 0,
    ensures
        spec_write_reply(body.update(0, first), dst, seq) == spec_write_reply(body, dst, seq),
{
}

} // verus!
