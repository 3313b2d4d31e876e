//! What the daemon decides between its reads and writes: which reply answers
//! which request, what a reply changes in the device information, and when a
//! Bluetooth session is tried again.
use vstd::prelude::*;

use crate::bluetooth::BtDevice;
use crate::gnp::{
    self, spec_parse, spec_text, CMD_IDENT, CMD_STATUS, DST_DONGLE, DST_HEADSET, SUB_HS_BATTERY,
    SUB_NAME, SUB_SERIAL, SUB_VERSION,
};
use crate::table::SeqMap;

verus! {

/// What is known about dongle and headset. Both sit behind the same hidraw
/// node and are told apart by the GNP destination address.
#[derive(Default, Clone, PartialEq)]
pub struct DeviceInfo {
    pub dongle_name: Option<String>,
    pub dongle_version: Option<String>,
    pub dongle_serial: Option<String>,
    pub headset_name: Option<String>,
    pub headset_version: Option<String>,
    pub headset_serial: Option<String>,
}

/// The text of an optional string.
pub open spec fn opt_view(o: Option<String>) -> Option<Seq<char>> {
    match o {
        Some(s) => Some(s@),
        None => None,
    }
}

/// A copy of an optional string.
pub fn copy_opt(o: &Option<String>) -> (r: Option<String>)
    ensures
        opt_view(r) == opt_view(*o),
{
    match o {
        Some(s) => Some(s.clone()),
        None => None,
    }
}

/// Everything unknown.
pub fn empty_info() -> (r: DeviceInfo)
    ensures
        r.dongle_name is None && r.dongle_version is None && r.dongle_serial is None,
        r.headset_name is None && r.headset_version is None && r.headset_serial is None,
{
    DeviceInfo {
        dongle_name: None,
        dongle_version: None,
        dongle_serial: None,
        headset_name: None,
        headset_version: None,
        headset_serial: None,
    }
}

/// Which field of [`DeviceInfo`] an ident reply fills.
#[derive(Clone, Copy, PartialEq, Eq, Structural, Debug)]
pub enum Slot {
    DongleName,
    DongleVersion,
    DongleSerial,
    HeadsetName,
    HeadsetVersion,
    HeadsetSerial,
}

pub open spec fn spec_slot(dst: u8, sub: u8) -> Slot {
    if dst == DST_DONGLE && sub == SUB_NAME {
        Slot::DongleName
    } else if dst == DST_DONGLE && sub == SUB_VERSION {
        Slot::DongleVersion
    } else if dst == DST_DONGLE && sub == SUB_SERIAL {
        Slot::DongleSerial
    } else if sub == SUB_NAME {
        Slot::HeadsetName
    } else if sub == SUB_VERSION {
        Slot::HeadsetVersion
    } else {
        Slot::HeadsetSerial
    }
}

/// The ident subcommand that reads what a slot holds.
pub open spec fn slot_sub(s: Slot) -> u8 {
    match s {
        Slot::DongleName | Slot::HeadsetName => SUB_NAME,
        Slot::DongleVersion | Slot::HeadsetVersion => SUB_VERSION,
        Slot::DongleSerial | Slot::HeadsetSerial => SUB_SERIAL,
    }
}

/// Whether a slot belongs to the dongle.
pub open spec fn slot_of_dongle(s: Slot) -> bool {
    s is DongleName || s is DongleVersion || s is DongleSerial
}

/// Law: an ident reply fills the field it was asked for. A name, version or
/// serial reply fills a name, version or serial field, that of the dongle
/// exactly where the request went to the dongle.
pub proof fn law_slot_matches_the_request(dst: u8, sub: u8)
    requires
        sub == SUB_NAME || sub == SUB_VERSION || sub == SUB_SERIAL,
    ensures
        slot_sub(spec_slot(dst, sub)) == sub,
        slot_of_dongle(spec_slot(dst, sub)) == (dst == DST_DONGLE),
{
}

/// The field an ident reply from `dst` to subcommand `sub` fills. Anything not
/// addressed to the dongle counts as the headset.
pub fn slot(dst: u8, sub: u8) -> (r: Slot)
    ensures
        r == spec_slot(dst, sub),
{
    if dst == DST_DONGLE && sub == SUB_NAME {
        Slot::DongleName
    } else if dst == DST_DONGLE && sub == SUB_VERSION {
        Slot::DongleVersion
    } else if dst == DST_DONGLE && sub == SUB_SERIAL {
        Slot::DongleSerial
    } else if sub == SUB_NAME {
        Slot::HeadsetName
    } else if sub == SUB_VERSION {
        Slot::HeadsetVersion
    } else {
        Slot::HeadsetSerial
    }
}

/// Writes `text` into the field of `slot`, leaving the others as they were.
pub fn record(info: &mut DeviceInfo, slot: Slot, text: String)
    ensures
        final(info).dongle_name == (if slot == Slot::DongleName {
            Some(text)
        } else {
            old(info).dongle_name
        }),
        final(info).dongle_version == (if slot == Slot::DongleVersion {
            Some(text)
        } else {
            old(info).dongle_version
        }),
        final(info).dongle_serial == (if slot == Slot::DongleSerial {
            Some(text)
        } else {
            old(info).dongle_serial
        }),
        final(info).headset_name == (if slot == Slot::HeadsetName {
            Some(text)
        } else {
            old(info).headset_name
        }),
        final(info).headset_version == (if slot == Slot::HeadsetVersion {
            Some(text)
        } else {
            old(info).headset_version
        }),
        final(info).headset_serial == (if slot == Slot::HeadsetSerial {
            Some(text)
        } else {
            old(info).headset_serial
        }),
{
    match slot {
        Slot::DongleName => info.dongle_name = Some(text),
        Slot::DongleVersion => info.dongle_version = Some(text),
        Slot::DongleSerial => info.dongle_serial = Some(text),
        Slot::HeadsetName => info.headset_name = Some(text),
        Slot::HeadsetVersion => info.headset_version = Some(text),
        Slot::HeadsetSerial => info.headset_serial = Some(text),
    }
}

/// The identity requests sent once when a device appears: name, version and
/// serial number, first of the dongle, then of the headset.
pub fn ident_queries() -> (r: Vec<(u8, u8)>)
    ensures
        r@ == seq![
            (DST_DONGLE, SUB_NAME),
            (DST_DONGLE, SUB_VERSION),
            (DST_DONGLE, SUB_SERIAL),
            (DST_HEADSET, SUB_NAME),
            (DST_HEADSET, SUB_VERSION),
            (DST_HEADSET, SUB_SERIAL),
        ],
{
    vec![
        (DST_DONGLE, SUB_NAME),
        (DST_DONGLE, SUB_VERSION),
        (DST_DONGLE, SUB_SERIAL),
        (DST_HEADSET, SUB_NAME),
        (DST_HEADSET, SUB_VERSION),
        (DST_HEADSET, SUB_SERIAL),
    ]
}

/// An outstanding GNP request, matched to its reply by sequence number.
#[derive(Clone, Copy, PartialEq, Eq, Structural, Debug)]
pub enum Pending {
    Battery,
    Ident { dst: u8, sub: u8 },
}

/// What a vendor report changes.
pub enum Update {
    Nothing,
    Battery { level: Option<u8>, charging: bool },
    Ident { slot: Slot, text: String },
}

/// Unanswered requests pile up until the sequence number wraps; past this many
/// they are dropped.
pub const PENDING_LIMIT: usize = 64;

/// The requests on the hidraw channel that wait for a reply. The device also
/// sends on this channel unprompted.
pub struct Requests {
    pending: SeqMap<Pending>,
}

impl Requests {
    /// Requests waiting: sequence number to what was asked.
    pub closed spec fn pending(&self) -> Map<u8, Pending> {
        self.pending.map()
    }

    pub fn new() -> (r: Requests)
        ensures
            r.pending() == Map::<u8, Pending>::empty(),
    {
        Requests { pending: SeqMap::new() }
    }

    /// Records that request `seq` asked for `p`.
    pub fn ask(&mut self, seq: u8, p: Pending)
        ensures
            final(self).pending() == old(self).pending().insert(seq, p),
    {
        self.pending.insert(seq, p);
    }

    /// Takes a vendor report (report id included).
    ///
    /// A reply takes its sequence number out of the waiting list whether or
    /// not it fits what was asked. A battery reply gives level and charging
    /// state; an ident reply from the address asked, to the subcommand asked,
    /// fills its field where it carries readable text. Past
    /// [`PENDING_LIMIT`] waiting requests the list is cleared.
    pub fn on_vendor_report(&mut self, report: &[u8]) -> (u: Update)
        ensures
            ({
                let r = spec_parse(report@);
                let p0 = old(self).pending();
                let p1 = if r is Some {
                    p0.remove(r->0.seq)
                } else {
                    p0
                };
                &&& final(self).pending() == (if p1.dom().len() > PENDING_LIMIT {
                    Map::<u8, Pending>::empty()
                } else {
                    p1
                })
                &&& match u {
                    Update::Battery { level, charging } => {
                        &&& r is Some
                        &&& p0.contains_key(r->0.seq)
                        &&& p0[r->0.seq] == Pending::Battery
                        &&& r->0.cmd == CMD_STATUS
                        &&& r->0.sub == SUB_HS_BATTERY
                        &&& level == (if r->0.data.len() > 1 && r->0.data[1] <= 100 {
                            Some(r->0.data[1])
                        } else {
                            None
                        })
                        &&& charging == (r->0.data.len() > 0 && r->0.data[0] % 2 == 1)
                    },
                    Update::Ident { slot, text } => {
                        &&& r is Some
                        &&& p0.contains_key(r->0.seq)
                        &&& p0[r->0.seq] matches Pending::Ident { dst, sub }
                        &&& r->0.cmd == CMD_IDENT
                        &&& r->0.sub == sub
                        &&& r->0.src == dst
                        &&& slot == spec_slot(dst, sub)
                        &&& spec_text(r->0.data) == Some(text@)
                    },
                    Update::Nothing => !({
                        &&& r is Some
                        &&& p0.contains_key(r->0.seq)
                        &&& ({
                            ||| (p0[r->0.seq] == Pending::Battery && r->0.cmd == CMD_STATUS
                                && r->0.sub == SUB_HS_BATTERY)
                            ||| (p0[r->0.seq] matches Pending::Ident { dst, sub } && r->0.cmd
                                == CMD_IDENT && r->0.sub == sub && r->0.src == dst && spec_text(
                                r->0.data,
                            ) is Some)
                        })
                    }),
                }
            }),
    {
        let u = match gnp::parse(report) {
            Some(r) => match self.pending.remove(r.seq) {
                Some(Pending::Battery) => {
                    if r.cmd == CMD_STATUS && r.sub == SUB_HS_BATTERY {
                        Update::Battery {
                            level: gnp::battery_percent(r.data),
                            charging: gnp::battery_charging(r.data),
                        }
                    } else {
                        Update::Nothing
                    }
                },
                Some(Pending::Ident { dst, sub }) => {
                    if r.cmd == CMD_IDENT && r.sub == sub && r.src == dst {
                        match gnp::text(r.data) {
                            Some(t) => Update::Ident { slot: slot(dst, sub), text: t },
                            None => Update::Nothing,
                        }
                    } else {
                        Update::Nothing
                    }
                },
                None => Update::Nothing,
            },
            None => Update::Nothing,
        };
        if self.pending.len() > PENDING_LIMIT {
            self.pending.clear();
        }
        u
    }
}

/// Longest wait between two RFCOMM connect attempts, in ticks: five minutes.
pub const BLUETOOTH_RETRY_MAX: u32 = 150;

/// Ask BlueZ every 5 ticks; the HFP charge level only moves in coarse steps.
pub const BLUETOOTH_EVERY_N_TICKS: u32 = 5;

/// Battery every 30 s, that is every 15th tick.
pub const BATTERY_EVERY_N_TICKS: u32 = 15;

/// Output devices every 20 s, and again when the menu opens.
pub const SINKS_EVERY_N_TICKS: u32 = 10;

/// What a tick of the daemon's clock does besides looking for new devices.
pub struct TickPlan {
    /// Ask the dongle for the charge level.
    pub battery: bool,
    /// Ask BlueZ for the paired headset, and read its charge over RFCOMM.
    pub bluetooth: bool,
    /// List the output devices again, after the tick has been counted.
    pub sinks: bool,
}

/// The plan for tick `ticks`: the battery on every fifteenth, BlueZ on every
/// fifth, and the output devices on every tenth counted tick or while none
/// are known.
pub fn tick_plan(ticks: u32, have_sinks: bool) -> (r: TickPlan)
    ensures
        r.battery == (ticks % BATTERY_EVERY_N_TICKS == 0),
        r.bluetooth == (ticks % BLUETOOTH_EVERY_N_TICKS == 0),
        r.sinks == ((if ticks == u32::MAX {
            0
        } else {
            ticks + 1
        }) % SINKS_EVERY_N_TICKS as int == 0 || !have_sinks),
{
    let next: u32 = if ticks == u32::MAX {
        0
    } else {
        ticks + 1
    };
    TickPlan {
        battery: ticks % BATTERY_EVERY_N_TICKS == 0,
        bluetooth: ticks % BLUETOOTH_EVERY_N_TICKS == 0,
        sinks: next % SINKS_EVERY_N_TICKS == 0 || !have_sinks,
    }
}

/// The wait before the next connect attempt, in ticks: the slow-tick period
/// after a session, double the last wait up to five minutes after a failure.
pub open spec fn spec_next_wait(connected: bool, wait: int) -> int {
    if connected {
        BLUETOOTH_EVERY_N_TICKS as int
    } else if 2 * wait <= BLUETOOTH_RETRY_MAX {
        2 * wait
    } else {
        BLUETOOTH_RETRY_MAX as int
    }
}

/// The wait before the next connect attempt. A session resets it; a failed
/// attempt doubles it, up to five minutes, so a headset without the serial
/// profile is not asked again every round.
pub fn next_wait(connected: bool, wait: u32) -> (r: u32)
    requires
        wait <= u32::MAX / 2,
    ensures
        r == spec_next_wait(connected, wait as int),
{
    if connected {
        BLUETOOTH_EVERY_N_TICKS
    } else {
        let w = wait * 2;
        if w <= BLUETOOTH_RETRY_MAX {
            w
        } else {
            BLUETOOTH_RETRY_MAX
        }
    }
}

/// Law: the retry wait stays within five minutes, and each failed attempt
/// lengthens a running wait until it reaches that bound.
pub proof fn law_wait_is_bounded(connected: bool, wait: int)
    requires
        0 <= wait <= BLUETOOTH_RETRY_MAX,
    ensures
        spec_next_wait(connected, wait) <= BLUETOOTH_RETRY_MAX,
        connected || wait > 0 ==> spec_next_wait(connected, wait) > 0,
        !connected && wait > 0 ==> spec_next_wait(connected, wait) > wait
            || spec_next_wait(connected, wait) == BLUETOOTH_RETRY_MAX,
{
}

/// The work the RFCOMM session does next, when it is idle.
#[derive(Clone, Copy, PartialEq, Eq, Structural, Debug)]
pub enum BtWork {
    Ident,
    Battery,
}

/// Identity once per session, answered or not, and the charge level on the
/// slow ticks; nothing otherwise.
pub fn bt_work(ident_done: bool, slow: bool) -> (r: Option<BtWork>)
    ensures
        r == (if !ident_done {
            Some(BtWork::Ident)
        } else if slow {
            Some(BtWork::Battery)
        } else {
            None
        }),
{
    if !ident_done {
        Some(BtWork::Ident)
    } else if slow {
        Some(BtWork::Battery)
    } else {
        None
    }
}

/// What the tray shows of a headset paired over Bluetooth: what the RFCOMM
/// session supplied, with BlueZ's name where the session gave none, and the
/// GNP charge level where there is one. HFP carries no charging state and
/// rounds the level, so the GNP figure wins.
pub fn bluetooth_view(
    session: &DeviceInfo,
    level: Option<(u8, bool)>,
    device: Option<&BtDevice>,
) -> (r: (DeviceInfo, Option<u8>, bool))
    ensures
        device is None ==> {
            &&& r.0.dongle_name is None && r.0.dongle_version is None && r.0.dongle_serial is None
            &&& r.0.headset_name is None && r.0.headset_version is None && r.0.headset_serial is None
        },
        device matches Some(d) ==> {
            &&& opt_view(r.0.dongle_name) == opt_view(session.dongle_name)
            &&& opt_view(r.0.dongle_version) == opt_view(session.dongle_version)
            &&& opt_view(r.0.dongle_serial) == opt_view(session.dongle_serial)
            &&& opt_view(r.0.headset_name) == (if session.headset_name is Some {
                opt_view(session.headset_name)
            } else {
                Some(d.name@)
            })
            &&& opt_view(r.0.headset_version) == opt_view(session.headset_version)
            &&& opt_view(r.0.headset_serial) == opt_view(session.headset_serial)
        },
        r.1 == (match level {
            Some((p, _)) => Some(p),
            None => match device {
                Some(d) => d.battery,
                None => None,
            },
        }),
        r.2 == (match level {
            Some((_, c)) => c,
            None => false,
        }),
{
    let info = match device {
        Some(d) => DeviceInfo {
            dongle_name: copy_opt(&session.dongle_name),
            dongle_version: copy_opt(&session.dongle_version),
            dongle_serial: copy_opt(&session.dongle_serial),
            headset_name: match &session.headset_name {
                Some(n) => Some(n.clone()),
                None => Some(d.name.clone()),
            },
            headset_version: copy_opt(&session.headset_version),
            headset_serial: copy_opt(&session.headset_serial),
        },
        None => empty_info(),
    };
    let (battery, charging) = match level {
        Some((p, c)) => (Some(p), c),
        None => (
            match device {
                Some(d) => d.battery,
                None => None,
            },
            false,
        ),
    };
    (info, battery, charging)
}

/// The name the tray shows: the headset's as soon as ident has supplied it,
/// since the charge belongs to the headset; otherwise that of the USB device,
/// otherwise the one BlueZ reports.
pub fn shown_device(headset: &Option<String>, usb: &Option<String>, bluetooth: &Option<String>) -> (r: Option<String>)
    ensures
        opt_view(r) == (if headset is Some {
            opt_view(*headset)
        } else if usb is Some {
            opt_view(*usb)
        } else {
            opt_view(*bluetooth)
        }),
{
    if headset.is_some() {
        copy_opt(headset)
    } else if usb.is_some() {
        copy_opt(usb)
    } else {
        copy_opt(bluetooth)
    }
}

} // verus!
