//! Detecting a directly paired Jabra headset through BlueZ.
//!
//! Without a dongle there is no hidraw device. BlueZ supplies name and charge
//! level on the system bus; everything beyond that comes from GNP over RFCOMM.
//! This module holds which device counts.
use vstd::prelude::*;

use crate::textual::{owned, text_starts_with};

verus! {

/// Bluetooth SIG identifier of GN Netcom, as the modalias carries it. Sturdier
/// than comparing names, which users can change.
pub open spec fn jabra_prefix() -> Seq<char> {
    "bluetooth:v0067"@
}

pub struct BtDevice {
    pub name: String,
    pub battery: Option<u8>,
    /// BlueZ object path, for opening the RFCOMM connection.
    pub path: String,
}

/// Whether a modalias names GN Netcom as the maker.
pub open spec fn jabra_alias(modalias: Option<Seq<char>>) -> bool {
    match modalias {
        Some(m) => m.len() >= jabra_prefix().len() && m.take(jabra_prefix().len() as int)
            == jabra_prefix(),
        None => false,
    }
}

/// Whether a BlueZ device is the headset to use: connected, paired (the
/// RFCOMM session asks for an authenticated link, which an unpaired device
/// cannot give) and made by GN Netcom. A property BlueZ does not report counts
/// as not given.
pub fn is_jabra(connected: Option<bool>, paired: Option<bool>, modalias: Option<&str>) -> (r: bool)
    ensures
        r == (connected == Some(true) && paired == Some(true) && match modalias {
            Some(m) => m@.len() >= jabra_prefix().len() && m@.take(jabra_prefix().len() as int)
                == jabra_prefix(),
            None => false,
        }),
{
    if connected != Some(true) || paired != Some(true) {
        return false;
    }
    match modalias {
        Some(m) => text_starts_with(m, "bluetooth:v0067"),
        None => false,
    }
}

/// The name shown for the headset: its alias, or "Jabra" without one.
pub fn shown_name(alias: Option<String>) -> (r: String)
    ensures
        r@ == (match alias {
            Some(a) => a@,
            None => "Jabra"@,
        }),
{
    match alias {
        Some(a) => a,
        None => owned("Jabra"),
    }
}

/// What BlueZ reports of one device: its object path, and each property the
/// choice reads where BlueZ reports it with the expected type.
pub struct BtCandidate {
    pub path: String,
    pub connected: Option<bool>,
    pub paired: Option<bool>,
    pub modalias: Option<String>,
    pub alias: Option<String>,
    pub battery: Option<u8>,
}

pub open spec fn opt_text(o: Option<String>) -> Option<Seq<char>> {
    match o {
        Some(s) => Some(s@),
        None => None,
    }
}

/// Whether a reported device is a connected, paired Jabra headset.
pub open spec fn qualifies(c: BtCandidate) -> bool {
    c.connected == Some(true) && c.paired == Some(true) && jabra_alias(opt_text(c.modalias))
}

/// The first device of `cs` that qualifies is at `i`.
pub open spec fn first_qualifying(cs: Seq<BtCandidate>, i: int) -> bool {
    &&& 0 <= i < cs.len()
    &&& qualifies(cs[i])
    &&& forall|j: int| 0 <= j < i ==> !qualifies(#[trigger] cs[j])
}

/// The headset among the devices BlueZ reports: the first that is connected,
/// paired and made by GN Netcom, with its alias (or "Jabra"), its charge and
/// its path; none where no device qualifies.
pub fn first_jabra(candidates: Vec<BtCandidate>) -> (r: Option<BtDevice>)
    ensures
        r is None <==> forall|j: int| 0 <= j < candidates@.len() ==> !qualifies(#[trigger] candidates@[j]),
        r matches Some(d) ==> exists|i: int| {
            &&& first_qualifying(candidates@, i)
            &&& d.name@ == (match candidates@[i].alias {
                Some(a) => a@,
                None => "Jabra"@,
            })
            &&& d.battery == candidates@[i].battery
            &&& d.path@ == candidates@[i].path@
        },
{
    let ghost cs = candidates@;
    assert(cs.len() == candidates.len());
    let mut rest = candidates;
    let mut k: usize = 0;
    while rest.len() > 0
        invariant
            cs == candidates@,
            cs.len() <= usize::MAX,
            k + rest@.len() == cs.len(),
            rest@ == cs.skip(k as int),
            forall|j: int| 0 <= j < k ==> !qualifies(#[trigger] cs[j]),
        decreases rest@.len(),
    {
        let ghost before = rest@;
        let c = rest.remove(0);
        assert(c == cs[k as int]);
        assert(rest@ =~= cs.skip(k + 1));
        let hit = match &c.modalias {
            Some(m) => is_jabra(c.connected, c.paired, Some(m.as_str())),
            None => is_jabra(c.connected, c.paired, None),
        };
        if hit {
            let ghost i = k as int;
            assert(qualifies(cs[i]));
            assert(first_qualifying(cs, i));
            let d = BtDevice { name: shown_name(c.alias), battery: c.battery, path: c.path };
            assert(d.name@ == (match cs[i].alias {
                Some(a) => a@,
                None => "Jabra"@,
            }));
            assert(d.battery == cs[i].battery && d.path@ == cs[i].path@);
            assert(cs == candidates@);
            return Some(d);
        }
        k = k + 1;
    }
    None
}

} // verus!
