//! The kill leaderboard shown to the local player.

use vstd::prelude::*;
use crate::player::Player;

verus! {

/// Most rows that the leaderboard shows.
pub const LEADERBOARD_MAX_ENTRIES: usize = 5;

#[derive(Debug, Clone, Copy, PartialEq, Eq, Structural)]
pub struct Standing {
    pub id: u32,
    pub kills: u32,
    pub is_local: bool,
}

/// `s[i]` has the most kills, and no earlier row has as many.
pub open spec fn is_first_max(s: Seq<Standing>, i: int) -> bool {
    &&& 0 <= i < s.len()
    &&& forall|j: int| 0 <= j < s.len() ==> (#[trigger] s[j]).kills <= s[i].kills
    &&& forall|j: int| 0 <= j < i ==> (#[trigger] s[j]).kills < s[i].kills
}

/// The first `k` rows of `s` ordered by kills, most first, rows with equal
/// kills keeping their order.
pub open spec fn top(s: Seq<Standing>, k: nat) -> Seq<Standing>
    decreases k,
{
    if k == 0 || s.len() == 0 {
        Seq::empty()
    } else {
        let i = choose|i: int| is_first_max(s, i);
        seq![s[i]] + top(s.remove(i), (k - 1) as nat)
    }
}

/// The local player first, then the remote players in roster order.
pub open spec fn standings(local: Player, remotes: Seq<Player>) -> Seq<Standing> {
    seq![Standing { id: local.id, kills: local.kills, is_local: true }] + remotes.map_values(
        |p: Player| Standing { id: p.id, kills: p.kills, is_local: false },
    )
}

proof fn lemma_first_max_unique(s: Seq<Standing>, i: int, k: int)
    requires
        is_first_max(s, i),
        is_first_max(s, k),
    ensures
        i == k,
{
    if i < k {
        assert(s[i].kills < s[k].kills);
    } else if k < i {
        assert(s[k].kills < s[i].kills);
    }
}

/// The position of the first row with the most kills.
fn first_max(s: &Vec<Standing>) -> (r: usize)
    requires
        s@.len() > 0,
    ensures
        is_first_max(s@, r as int),
{
    let mut best: usize = 0;
    let mut i: usize = 1;
    while i < s.len()
        invariant
            1 <= i <= s@.len(),
            best < i,
            forall|j: int| 0 <= j < i ==> (#[trigger] s@[j]).kills <= s@[best as int].kills,
            forall|j: int| 0 <= j < best ==> (#[trigger] s@[j]).kills < s@[best as int].kills,
        decreases s.len() - i,
    {
        if s[i].kills > s[best].kills {
            best = i;
        }
        i = i + 1;
    }
    best
}

/// The leaderboard: at most `LEADERBOARD_MAX_ENTRIES` rows, most kills
/// first, ties in roster order with the local player ahead.
pub fn leaderboard(local: &Player, remotes: &Vec<Player>) -> (r: Vec<Standing>)
    ensures
        r@ == top(standings(*local, remotes@), LEADERBOARD_MAX_ENTRIES as nat),
{
    let mut rows: Vec<Standing> = Vec::new();
    rows.push(Standing { id: local.id, kills: local.kills, is_local: true });
    let mut i: usize = 0;
    while i < remotes.len()
        invariant
            i <= remotes@.len(),
            rows@ == standings(*local, remotes@.subrange(0, i as int)),
        decreases remotes.len() - i,
    {
        let p = remotes[i];
        rows.push(Standing { id: p.id, kills: p.kills, is_local: false });
        assert(standings(*local, remotes@.subrange(0, i + 1)) =~= standings(*local, remotes@.subrange(0, i as int)).push(Standing { id: p.id, kills: p.kills, is_local: false }));
        i = i + 1;
    }
    assert(remotes@.subrange(0, remotes@.len() as int) =~= remotes@);
    let ghost all = rows@;
    let mut out: Vec<Standing> = Vec::new();
    while out.len() < LEADERBOARD_MAX_ENTRIES && rows.len() > 0
        invariant
            out@.len() <= LEADERBOARD_MAX_ENTRIES,
            out@ + top(rows@, (LEADERBOARD_MAX_ENTRIES - out@.len()) as nat) == top(all, LEADERBOARD_MAX_ENTRIES as nat),
        decreases rows@.len(),
    {
        let k = first_max(&rows);
        proof {
            let m = (LEADERBOARD_MAX_ENTRIES - out@.len()) as nat;
            let c = choose|c: int| is_first_max(rows@, c);
            lemma_first_max_unique(rows@, k as int, c);
            assert(top(rows@, m) == seq![rows@[k as int]] + top(rows@.remove(k as int), (m - 1) as nat));
        }
        let ghost before = out@;
        let row = rows.remove(k);
        out.push(row);
        assert(out@ + top(rows@, (LEADERBOARD_MAX_ENTRIES - out@.len()) as nat) =~= before + (seq![row] + top(rows@, (LEADERBOARD_MAX_ENTRIES - out@.len()) as nat)));
    }
    assert(top(rows@, (LEADERBOARD_MAX_ENTRIES - out@.len()) as nat) =~= Seq::<Standing>::empty());
    assert(out@ + Seq::<Standing>::empty() =~= out@);
    out
}

} // verus!
