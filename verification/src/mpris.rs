//! Choosing the active MPRIS player.
use vstd::prelude::*;
use vstd::string::StringExecFns;

use crate::textual::{has_prefix, strip_leading, strip_leading_text, text_eq, text_starts_with};

verus! {

/// Bus names of MPRIS players start with this.
pub open spec fn player_prefix() -> Seq<char> {
    "org.mpris.MediaPlayer2."@
}

#[derive(Debug, Clone, Default)]
pub struct PlayerInfo {
    pub bus: String,
    pub identity: String,
    pub status: String,
    pub track: Option<String>,
}

/// Whether a bus name belongs to an MPRIS player.
pub fn is_player(name: &str) -> (r: bool)
    ensures
        r == has_prefix(name@, player_prefix()),
{
    text_starts_with(name, "org.mpris.MediaPlayer2.")
}

/// The name a player goes by until it states its identity: its bus name
/// without the MPRIS prefix.
pub fn default_identity(bus: &str) -> (r: String)
    ensures
        r@ == strip_leading(bus@, player_prefix()),
{
    strip_leading_text(bus, "org.mpris.MediaPlayer2.")
}

/// The track as shown: "artist — title", the title alone, or nothing without
/// a title.
pub fn track_text(title: Option<String>, artist: Option<String>) -> (r: Option<String>)
    ensures
        match r {
            Some(s) => title is Some && s@ == (match artist {
                Some(a) => a@ + " — "@ + title->0@,
                None => title->0@,
            }),
            None => title is None,
        },
{
    match (title, artist) {
        (Some(t), Some(a)) => {
            let mut r = a;
            r.append(" — ");
            r.append(t.as_str());
            Some(r)
        },
        (Some(t), None) => Some(t),
        _ => None,
    }
}

/// Playing before Paused before the rest.
pub open spec fn rank_of(status: Seq<char>) -> nat {
    if status == "Playing"@ {
        2
    } else if status == "Paused"@ {
        1
    } else {
        0
    }
}

pub fn rank(status: &str) -> (r: u8)
    ensures
        r == rank_of(status@),
{
    if text_eq(status, "Playing") {
        2
    } else if text_eq(status, "Paused") {
        1
    } else {
        0
    }
}

/// Whether `i` is the player to address: of the highest rank, and the first
/// of that rank.
pub open spec fn is_active(ps: Seq<PlayerInfo>, i: int) -> bool {
    &&& 0 <= i < ps.len()
    &&& forall|j: int| 0 <= j < ps.len() ==> rank_of(#[trigger] ps[j].status@) <= rank_of(ps[i].status@)
    &&& forall|j: int| 0 <= j < i ==> rank_of(#[trigger] ps[j].status@) < rank_of(ps[i].status@)
}

/// The player a key press goes to: Playing > Paused > the rest; on a tie the
/// first one wins. None without players.
pub fn pick_active(players: Vec<PlayerInfo>) -> (r: Option<PlayerInfo>)
    ensures
        r is None <==> players@.len() == 0,
        r matches Some(p) ==> exists|i: int| is_active(players@, i) && players@[i] == p,
        (exists|j: int| 0 <= j < players@.len() && #[trigger] players@[j].status@ == "Playing"@) ==> (r matches Some(p)
            && p.status@ == "Playing"@),
        (forall|j: int| 0 <= j < players@.len() ==> #[trigger] players@[j].status@ != "Playing"@) && (exists|j: int|
            0 <= j < players@.len() && #[trigger] players@[j].status@ == "Paused"@) ==> (r matches Some(p)
            && p.status@ == "Paused"@),
{
    let ghost ps = players@;
    let mut best: Option<(u8, usize)> = None;
    let mut i: usize = 0;
    while i < players.len()
        invariant
            ps == players@,
            i <= ps.len(),
            i == 0 <==> best is None,
            best matches Some((r, b)) ==> {
                &&& b < i
                &&& r == rank_of(ps[b as int].status@)
                &&& forall|j: int| 0 <= j < i ==> rank_of(#[trigger] ps[j].status@) <= r
                &&& forall|j: int| 0 <= j < b ==> rank_of(#[trigger] ps[j].status@) < r
            },
        decreases ps.len() - i,
    {
        let r = rank(players[i].status.as_str());
        let better = match best {
            None => true,
            Some((seen, _)) => r > seen,
        };
        if better {
            best = Some((r, i));
        }
        i = i + 1;
    }
    match best {
        None => None,
        Some((_, b)) => {
            let mut players = players;
            let p = players.swap_remove(b);
            assert(is_active(ps, b as int));
            proof {
                law_active_player(ps, b as int);
            }
            Some(p)
        },
    }
}

/// Law: the player a key press goes to is a playing one if any plays, else a
/// paused one if any is paused; and no player before it has the same status,
/// so on a tie the first one wins.
pub proof fn law_active_player(ps: Seq<PlayerInfo>, i: int)
    requires
        is_active(ps, i),
    ensures
        (exists|j: int| 0 <= j < ps.len() && #[trigger] ps[j].status@ == "Playing"@) ==> ps[i].status@
            == "Playing"@,
        (forall|j: int| 0 <= j < ps.len() ==> #[trigger] ps[j].status@ != "Playing"@) && (exists|j: int|
            0 <= j < ps.len() && #[trigger] ps[j].status@ == "Paused"@) ==> ps[i].status@ == "Paused"@,
        forall|j: int| 0 <= j < i ==> #[trigger] ps[j].status@ != ps[i].status@,
{
    if exists|j: int| 0 <= j < ps.len() && #[trigger] ps[j].status@ == "Playing"@ {
        let j = choose|j: int| 0 <= j < ps.len() && #[trigger] ps[j].status@ == "Playing"@;
        assert(rank_of(ps[j].status@) == 2);
        assert(rank_of(ps[j].status@) <= rank_of(ps[i].status@));
    }
    if (forall|j: int| 0 <= j < ps.len() ==> #[trigger] ps[j].status@ != "Playing"@) && (exists|j: int|
        0 <= j < ps.len() && #[trigger] ps[j].status@ == "Paused"@) {
        let j = choose|j: int| 0 <= j < ps.len() && #[trigger] ps[j].status@ == "Paused"@;
        assert(ps[j].status@ != "Playing"@);
        assert(rank_of(ps[j].status@) == 1);
        assert(rank_of(ps[j].status@) <= rank_of(ps[i].status@));
        assert(ps[i].status@ != "Playing"@);
    }
    assert forall|j: int| 0 <= j < i implies #[trigger] ps[j].status@ != ps[i].status@ by {
        assert(rank_of(ps[j].status@) < rank_of(ps[i].status@));
    }
}

} // verus!
