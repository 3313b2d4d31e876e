//! The Bluetooth link to a headset paired without a dongle: when an RFCOMM
//! session is tried, what it is asked next, and what its answers change.
//!
//! Connecting and reading block for seconds, so the daemon runs them beside
//! its loop. The link hands out the work together with the session and takes
//! both back with the answer; it never waits itself.
use vstd::prelude::*;

use crate::bluetooth::BtDevice;
use crate::daemon::{
    bluetooth_view, bt_work, copy_opt, empty_info, next_wait, opt_view, spec_next_wait, BtWork, DeviceInfo,
    BLUETOOTH_EVERY_N_TICKS, BLUETOOTH_RETRY_MAX,
};
use crate::gnp::{self, spec_text};
use crate::textual::text_eq;

verus! {

/// The text of each field of a [`DeviceInfo`].
pub struct InfoView {
    pub dongle_name: Option<Seq<char>>,
    pub dongle_version: Option<Seq<char>>,
    pub dongle_serial: Option<Seq<char>>,
    pub headset_name: Option<Seq<char>>,
    pub headset_version: Option<Seq<char>>,
    pub headset_serial: Option<Seq<char>>,
}

pub open spec fn info_view(i: DeviceInfo) -> InfoView {
    InfoView {
        dongle_name: opt_view(i.dongle_name),
        dongle_version: opt_view(i.dongle_version),
        dongle_serial: opt_view(i.dongle_serial),
        headset_name: opt_view(i.headset_name),
        headset_version: opt_view(i.headset_version),
        headset_serial: opt_view(i.headset_serial),
    }
}

pub open spec fn no_info() -> InfoView {
    InfoView {
        dongle_name: None,
        dongle_version: None,
        dongle_serial: None,
        headset_name: None,
        headset_version: None,
        headset_serial: None,
    }
}

/// A BlueZ device by its values.
pub struct DeviceView {
    pub name: Seq<char>,
    pub battery: Option<u8>,
    pub path: Seq<char>,
}

pub open spec fn device_view(d: BtDevice) -> DeviceView {
    DeviceView { name: d.name@, battery: d.battery, path: d.path@ }
}

pub open spec fn opt_device_view(d: Option<BtDevice>) -> Option<DeviceView> {
    match d {
        Some(d) => Some(device_view(d)),
        None => None,
    }
}

/// The state of the link: the device BlueZ reports and the path it was found
/// under, what the session has supplied so far, the retry wait and the tick of
/// the next connect attempt, whether a job holds the session, whether the
/// identity was asked for in this session, and the session while the link
/// holds it.
pub struct LinkView<S> {
    pub device: Option<DeviceView>,
    pub path: Option<Seq<char>>,
    pub info: InfoView,
    pub level: Option<(u8, bool)>,
    pub wait: u32,
    pub next_try: u32,
    pub busy: bool,
    pub ident_done: bool,
    pub session: Option<S>,
}

/// What the link asks the daemon to start.
pub enum BtStep<S> {
    Idle,
    /// Open an RFCOMM session to the device at this BlueZ path.
    Connect(String),
    /// Run this work on the session, for the device at this path.
    Run(S, BtWork, String),
}

pub enum StepView<S> {
    Idle,
    Connect(Seq<char>),
    Run(S, BtWork, Seq<char>),
}

pub open spec fn step_view<S>(s: BtStep<S>) -> StepView<S> {
    match s {
        BtStep::Idle => StepView::Idle,
        BtStep::Connect(p) => StepView::Connect(p@),
        BtStep::Run(s, w, p) => StepView::Run(s, w, p@),
    }
}

/// What a job on the session brought back, besides the session.
pub enum BtEvent {
    /// A connect attempt ended, with a session or without.
    Connected,
    /// The identity reads: each payload where the headset answered.
    Ident { name: Option<Vec<u8>>, version: Option<Vec<u8>>, serial: Option<Vec<u8>> },
    /// The charge read: the payload where the headset answered.
    Battery(Option<Vec<u8>>),
    /// A settings sweep or writes, which leave what the link knows as it was.
    Other,
}

pub enum EventView {
    Connected,
    Ident { name: Option<Seq<u8>>, version: Option<Seq<u8>>, serial: Option<Seq<u8>> },
    Battery(Option<Seq<u8>>),
    Other,
}

pub open spec fn bytes_view(b: Option<Vec<u8>>) -> Option<Seq<u8>> {
    match b {
        Some(v) => Some(v@),
        None => None,
    }
}

pub open spec fn event_view(e: BtEvent) -> EventView {
    match e {
        BtEvent::Connected => EventView::Connected,
        BtEvent::Ident { name, version, serial } => EventView::Ident {
            name: bytes_view(name),
            version: bytes_view(version),
            serial: bytes_view(serial),
        },
        BtEvent::Battery(b) => EventView::Battery(bytes_view(b)),
        BtEvent::Other => EventView::Other,
    }
}

/// A field after an identity read: the text of the answer where it has one,
/// what was known before otherwise.
pub open spec fn learned(before: Option<Seq<char>>, answer: Option<Seq<u8>>) -> Option<Seq<char>> {
    match answer {
        Some(d) => match spec_text(d) {
            Some(t) => Some(t),
            None => before,
        },
        None => before,
    }
}

/// The charge after a charge read: level and charging bit where the answer
/// holds a level, none where it holds none, and the old one without answer.
pub open spec fn read_level(before: Option<(u8, bool)>, answer: Option<Seq<u8>>) -> Option<(u8, bool)> {
    match answer {
        Some(d) => if d.len() > 1 && d[1] <= 100 {
            Some((d[1], d[0] % 2 == 1))
        } else {
            None
        },
        None => before,
    }
}

pub open spec fn saturating_sum(a: u32, b: u32) -> u32 {
    if a + b > u32::MAX {
        u32::MAX
    } else {
        (a + b) as u32
    }
}

/// Everything the previous device supplied forgotten, the backoff reset and
/// the next attempt due at once.
pub open spec fn fresh<S>(v: LinkView<S>, ticks: u32) -> LinkView<S> {
    LinkView {
        info: no_info(),
        level: None,
        session: None,
        ident_done: false,
        wait: BLUETOOTH_EVERY_N_TICKS,
        next_try: ticks,
        ..v
    }
}

/// After BlueZ was asked: the device it reports, if any. Another device than
/// before makes everything read so far stale.
pub open spec fn spec_scan<S>(v: LinkView<S>, found: Option<DeviceView>, ticks: u32) -> LinkView<S> {
    let path = match found {
        Some(d) => Some(d.path),
        None => None,
    };
    let w = if path != v.path {
        fresh(v, ticks)
    } else {
        v
    };
    LinkView { device: found, path, ..w }
}

/// One round: without a device everything is forgotten; while a job runs
/// nothing starts; without a session a connect is due once the wait is over;
/// with one, the identity once per session and the charge on the slow ticks.
pub open spec fn spec_step<S>(v: LinkView<S>, slow: bool, ticks: u32) -> (LinkView<S>, StepView<S>) {
    if v.device is None {
        (fresh(v, ticks), StepView::Idle)
    } else if v.busy {
        (v, StepView::Idle)
    } else if v.session is None {
        if ticks >= v.next_try && v.path is Some {
            (LinkView { busy: true, ..v }, StepView::Connect(v.path->0))
        } else {
            (v, StepView::Idle)
        }
    } else {
        let work = if !v.ident_done {
            Some(BtWork::Ident)
        } else if slow {
            Some(BtWork::Battery)
        } else {
            None
        };
        match (work, v.path) {
            (Some(w), Some(p)) => (
                LinkView { busy: true, session: None, ..v },
                StepView::Run(v.session->0, w, p),
            ),
            _ => (v, StepView::Idle),
        }
    }
}

/// A job's answer. One for another device than the current is dropped with
/// its session; otherwise the session comes back and the answer is taken in:
/// a connect attempt resets or doubles the wait and schedules the next, the
/// identity reads mark the identity as asked and fill the headset's fields,
/// the charge read replaces the level.
pub open spec fn spec_on_result<S>(
    v: LinkView<S>,
    device: Seq<char>,
    session: Option<S>,
    e: EventView,
    ticks: u32,
) -> (LinkView<S>, bool) {
    if v.path != Some(device) {
        (LinkView { busy: false, ..v }, false)
    } else {
        let u = LinkView { busy: false, session, ..v };
        (
            match e {
                EventView::Connected => {
                    let w = spec_next_wait(session is Some, v.wait as int) as u32;
                    LinkView {
                        ident_done: if session is Some {
                            false
                        } else {
                            v.ident_done
                        },
                        wait: w,
                        next_try: saturating_sum(ticks, w),
                        ..u
                    }
                },
                EventView::Ident { name, version, serial } => LinkView {
                    ident_done: true,
                    info: InfoView {
                        headset_name: learned(v.info.headset_name, name),
                        headset_version: learned(v.info.headset_version, version),
                        headset_serial: learned(v.info.headset_serial, serial),
                        ..v.info
                    },
                    ..u
                },
                EventView::Battery(b) => LinkView { level: read_level(v.level, b), ..u },
                EventView::Other => u,
            },
            true,
        )
    }
}

/// Handing the session out for a dialog's work: only while no job holds it.
pub open spec fn spec_take<S>(v: LinkView<S>) -> (LinkView<S>, Option<(S, Seq<char>)>) {
    if !v.busy && v.path is Some && v.session is Some {
        (LinkView { busy: true, session: None, ..v }, Some((v.session->0, v.path->0)))
    } else {
        (v, None)
    }
}

/// What the tray shows of the headset: what the session supplied, with
/// BlueZ's name where it gave none, and the session's charge where there is
/// one, BlueZ's otherwise, which carries no charging state.
pub open spec fn spec_shown<S>(v: LinkView<S>) -> (InfoView, Option<u8>, bool) {
    (
        match v.device {
            Some(d) => InfoView {
                headset_name: if v.info.headset_name is Some {
                    v.info.headset_name
                } else {
                    Some(d.name)
                },
                ..v.info
            },
            None => no_info(),
        },
        match v.level {
            Some((p, _)) => Some(p),
            None => match v.device {
                Some(d) => d.battery,
                None => None,
            },
        },
        match v.level {
            Some((_, c)) => c,
            None => false,
        },
    )
}

/// The link to a headset over Bluetooth, generic over the session it holds.
pub struct BtLink<S> {
    device: Option<BtDevice>,
    path: Option<String>,
    info: DeviceInfo,
    level: Option<(u8, bool)>,
    wait: u32,
    next_try: u32,
    busy: bool,
    ident_done: bool,
    session: Option<S>,
}

impl<S> View for BtLink<S> {
    type V = LinkView<S>;

    closed spec fn view(&self) -> LinkView<S> {
        LinkView {
            device: opt_device_view(self.device),
            path: opt_view(self.path),
            info: info_view(self.info),
            level: self.level,
            wait: self.wait,
            next_try: self.next_try,
            busy: self.busy,
            ident_done: self.ident_done,
            session: self.session,
        }
    }
}

fn same_text(a: &Option<String>, b: &Option<String>) -> (r: bool)
    ensures
        r == (opt_view(*a) == opt_view(*b)),
{
    match (a, b) {
        (Some(x), Some(y)) => text_eq(x.as_str(), y.as_str()),
        (None, None) => true,
        _ => false,
    }
}

fn learn(before: &Option<String>, answer: &Option<Vec<u8>>) -> (r: Option<String>)
    ensures
        opt_view(r) == learned(opt_view(*before), bytes_view(*answer)),
{
    if let Some(d) = answer {
        if let Some(t) = gnp::text(d.as_slice()) {
            return Some(t);
        }
    }
    copy_opt(before)
}

impl<S> BtLink<S> {
    /// The retry wait stays within five minutes.
    #[verifier::type_invariant]
    spec fn bounded(&self) -> bool {
        self.wait <= BLUETOOTH_RETRY_MAX
    }

    /// No device, nothing known, the first attempt due at once.
    pub fn new() -> (r: Self)
        ensures
            r@ == (LinkView::<S> {
                device: None,
                path: None,
                info: no_info(),
                level: None,
                wait: BLUETOOTH_EVERY_N_TICKS,
                next_try: 0,
                busy: false,
                ident_done: false,
                session: None,
            }),
    {
        BtLink {
            device: None,
            path: None,
            info: empty_info(),
            level: None,
            wait: BLUETOOTH_EVERY_N_TICKS,
            next_try: 0,
            busy: false,
            ident_done: false,
            session: None,
        }
    }

    /// Takes in what BlueZ reported on a slow tick.
    pub fn scan(&mut self, found: Option<BtDevice>, ticks: u32)
        ensures
            final(self)@ == spec_scan(old(self)@, opt_device_view(found), ticks),
    {
        proof {
            use_type_invariant(&*self);
        }
        let path = match &found {
            Some(d) => Some(d.path.clone()),
            None => None,
        };
        if !same_text(&path, &self.path) {
            self.info = empty_info();
            self.level = None;
            self.session = None;
            self.ident_done = false;
            self.wait = BLUETOOTH_EVERY_N_TICKS;
            self.next_try = ticks;
        }
        self.path = path;
        self.device = found;
    }

    /// A dongle took over: the Bluetooth device is no longer shown.
    pub fn forget_device(&mut self)
        ensures
            final(self)@ == (LinkView { device: None, ..old(self)@ }),
    {
        proof {
            use_type_invariant(&*self);
        }
        self.device = None;
    }

    /// What to start in this round.
    pub fn step(&mut self, slow: bool, ticks: u32) -> (r: BtStep<S>)
        ensures
            (final(self)@, step_view(r)) == spec_step(old(self)@, slow, ticks),
    {
        proof {
            use_type_invariant(&*self);
        }
        if self.device.is_none() {
            self.info = empty_info();
            self.level = None;
            self.session = None;
            self.ident_done = false;
            self.wait = BLUETOOTH_EVERY_N_TICKS;
            self.next_try = ticks;
            return BtStep::Idle;
        }
        if self.busy {
            return BtStep::Idle;
        }
        if self.session.is_none() {
            if ticks >= self.next_try {
                if let Some(p) = &self.path {
                    let p = p.clone();
                    self.busy = true;
                    return BtStep::Connect(p);
                }
            }
            return BtStep::Idle;
        }
        match bt_work(self.ident_done, slow) {
            Some(w) => match &self.path {
                Some(p) => {
                    let p = p.clone();
                    let mut s = None;
                    std::mem::swap(&mut s, &mut self.session);
                    self.busy = true;
                    match s {
                        Some(s) => BtStep::Run(s, w, p),
                        None => BtStep::Idle,
                    }
                },
                None => BtStep::Idle,
            },
            None => BtStep::Idle,
        }
    }

    /// Takes back the session with a job's answer for the device at
    /// `device`; says whether the answer belongs to the current device.
    pub fn on_result(&mut self, device: &str, session: Option<S>, event: BtEvent, ticks: u32) -> (accepted: bool)
        ensures
            (final(self)@, accepted) == spec_on_result(
                old(self)@,
                device@,
                session,
                event_view(event),
                ticks,
            ),
    {
        proof {
            use_type_invariant(&*self);
        }
        self.busy = false;
        let current = match &self.path {
            Some(p) => text_eq(p.as_str(), device),
            None => false,
        };
        if !current {
            return false;
        }
        let connected = session.is_some();
        self.session = session;
        match event {
            BtEvent::Connected => {
                if connected {
                    self.ident_done = false;
                }
                let w = next_wait(connected, self.wait);
                self.wait = w;
                self.next_try = if ticks > u32::MAX - w {
                    u32::MAX
                } else {
                    ticks + w
                };
            },
            BtEvent::Ident { name, version, serial } => {
                self.ident_done = true;
                self.info.headset_name = learn(&self.info.headset_name, &name);
                self.info.headset_version = learn(&self.info.headset_version, &version);
                self.info.headset_serial = learn(&self.info.headset_serial, &serial);
            },
            BtEvent::Battery(b) => {
                if let Some(d) = b {
                    self.level = match gnp::battery_percent(d.as_slice()) {
                        Some(p) => Some((p, gnp::battery_charging(d.as_slice()))),
                        None => None,
                    };
                }
            },
            BtEvent::Other => {},
        }
        true
    }

    /// The session with the device's path, for work a dialog asked for; none
    /// while a job holds it or no session stands.
    pub fn take_for_job(&mut self) -> (r: Option<(S, String)>)
        ensures
            (final(self)@, match r {
                Some((s, p)) => Some((s, p@)),
                None => None,
            }) == spec_take(old(self)@),
    {
        proof {
            use_type_invariant(&*self);
        }
        if self.busy || self.session.is_none() {
            return None;
        }
        match &self.path {
            Some(p) => {
                let p = p.clone();
                let mut s = None;
                std::mem::swap(&mut s, &mut self.session);
                self.busy = true;
                match s {
                    Some(s) => Some((s, p)),
                    None => None,
                }
            },
            None => None,
        }
    }

    /// Device information, charge level and charging state as shown.
    pub fn shown(&self) -> (r: (DeviceInfo, Option<u8>, bool))
        ensures
            (info_view(r.0), r.1, r.2) == spec_shown(self@),
    {
        bluetooth_view(&self.info, self.level, self.device.as_ref())
    }

    /// Whether a GNP channel stands or is being set up.
    pub fn active(&self) -> (r: bool)
        ensures
            r == (self@.session is Some || self@.busy),
    {
        self.session.is_some() || self.busy
    }

    /// The name BlueZ reports for the device.
    pub fn device_name(&self) -> (r: Option<String>)
        ensures
            r matches Some(n) ==> self@.device matches Some(d) && n@ == d.name,
            r is None <==> self@.device is None,
    {
        match &self.device {
            Some(d) => Some(d.name.clone()),
            None => None,
        }
    }
}

/// Law: an answer for another device than the current one changes nothing
/// but that no job runs any more; its session is dropped.
pub proof fn law_stale_answer_is_dropped<S>(
    v: LinkView<S>,
    device: Seq<char>,
    session: Option<S>,
    e: EventView,
    ticks: u32,
)
    requires
        v.path != Some(device),
    ensures
        spec_on_result(v, device, session, e, ticks) == (LinkView { busy: false, ..v }, false),
{
}

/// Law: the identity is asked for once per session, answered or not. Once
/// its answer came back, no round starts another identity read until a new
/// session stands.
pub proof fn law_identity_once_per_session<S>(
    v: LinkView<S>,
    device: Seq<char>,
    session: Option<S>,
    name: Option<Seq<u8>>,
    version: Option<Seq<u8>>,
    serial: Option<Seq<u8>>,
    ticks: u32,
    slow: bool,
    later: u32,
)
    requires
        v.path == Some(device),
    ensures
        ({
            let (u, _) = spec_on_result(
                v,
                device,
                session,
                EventView::Ident { name, version, serial },
                ticks,
            );
            &&& u.ident_done
            &&& !(spec_step(u, slow, later).1 matches StepView::Run(_, BtWork::Ident, _))
        }),
{
}

/// Law: another device makes everything read so far stale. What the session
/// supplied and the charge are forgotten, the backoff starts over and the
/// first attempt is due at once.
pub proof fn law_new_device_starts_clean<S>(v: LinkView<S>, found: DeviceView, ticks: u32)
    requires
        v.path != Some(found.path),
    ensures
        ({
            let u = spec_scan(v, Some(found), ticks);
            &&& u.info == no_info() && u.level is None && u.session is None
            &&& !u.ident_done && u.wait == BLUETOOTH_EVERY_N_TICKS && u.next_try == ticks
        }),
{
}

/// Law: the retry wait stays within five minutes through every operation.
pub proof fn law_link_wait_is_bounded<S>(
    v: LinkView<S>,
    found: Option<DeviceView>,
    device: Seq<char>,
    session: Option<S>,
    e: EventView,
    slow: bool,
    ticks: u32,
)
    requires
        v.wait <= BLUETOOTH_RETRY_MAX,
    ensures
        spec_scan(v, found, ticks).wait <= BLUETOOTH_RETRY_MAX,
        spec_step(v, slow, ticks).0.wait <= BLUETOOTH_RETRY_MAX,
        spec_on_result(v, device, session, e, ticks).0.wait <= BLUETOOTH_RETRY_MAX,
        spec_take(v).0.wait <= BLUETOOTH_RETRY_MAX,
{
}

/// Law: a charge read of the current device takes the level from the second
/// byte of the answer and the charging state from bit 0 of the first, as
/// `gnp::battery_percent` and `gnp::battery_charging` read them; and the
/// tray then shows exactly that level and state.
pub proof fn law_charge_read<S>(v: LinkView<S>, device: Seq<char>, session: Option<S>, d: Seq<u8>, ticks: u32)
    requires
        v.path == Some(device),
        d.len() > 1,
        d[1] <= 100,
    ensures
        ({
            let (u, accepted) = spec_on_result(v, device, session, EventView::Battery(Some(d)), ticks);
            &&& accepted
            &&& u.level == Some((d[1], d[0] & 1u8 == 1u8))
            &&& spec_shown(u).1 == Some(d[1])
            &&& spec_shown(u).2 == (d[0] & 1u8 == 1u8)
        }),
{
    let b = d[0];
    assert(b & 1u8 == 1u8 <==> b % 2 == 1) by (bit_vector);
}

} // verus!
