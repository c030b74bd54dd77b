//! The relay server's bookkeeping: connection ids, the last known position
//! of each player, and where each received message goes. The transport
//! performs the writes that a routing decision names and reports failed
//! peers back through `evict`.

use vstd::prelude::*;
use crate::message::{policy_of, relay_policy, Payload, RelayPolicy};

verus! {

/// The last position that a player announced.
#[derive(Debug, Clone, Copy, PartialEq, Eq, Structural)]
pub struct CachedPosition {
    pub id: u32,
    pub x: i32,
    pub y: i32,
}

/// Where one received message goes.
#[derive(Debug, Clone)]
pub struct Dispatch {
    /// Messages for the sender alone, sent before anything else.
    pub replay: Vec<Payload>,
    /// Connections that get the received frame unchanged, in this order.
    pub relay_to: Vec<u32>,
}

pub struct Relay {
    clients: Vec<u32>,
    counter: u32,
    positions: Vec<CachedPosition>,
}

pub open spec fn not_id(x: u32) -> spec_fn(u32) -> bool {
    |c: u32| c != x
}

pub open spec fn not_cached_id(x: u32) -> spec_fn(CachedPosition) -> bool {
    |c: CachedPosition| c.id != x
}

pub open spec fn has_id(s: Seq<CachedPosition>, id: u32) -> bool {
    exists|i: int| 0 <= i < s.len() && s[i].id == id
}

pub open spec fn ids_unique(s: Seq<CachedPosition>) -> bool {
    forall|i: int, j: int| 0 <= i < s.len() && 0 <= j < s.len() && i != j ==> s[i].id != s[j].id
}

/// The cache after `e` is recorded: it replaces the entry with its id, or is
/// added at the end.
pub open spec fn upsert(s: Seq<CachedPosition>, e: CachedPosition) -> Seq<CachedPosition> {
    if has_id(s, e.id) {
        s.map_values(|c: CachedPosition| if c.id == e.id { e } else { c })
    } else {
        s.push(e)
    }
}

/// For each cached player other than `joiner`, a Join then a Move to its
/// last known position, in cache order.
pub open spec fn replay_spec(s: Seq<CachedPosition>, joiner: u32) -> Seq<Payload>
    decreases s.len(),
{
    if s.len() == 0 {
        Seq::empty()
    } else {
        let r = replay_spec(s.drop_last(), joiner);
        let c = s.last();
        if c.id == joiner {
            r
        } else {
            r + seq![Payload::Join(c.id), Payload::Move(c.id, c.x, c.y)]
        }
    }
}

/// The connections that a message from `sender` goes to under `policy`.
pub open spec fn targets(clients: Seq<u32>, sender: u32, policy: RelayPolicy) -> Seq<u32> {
    if policy == RelayPolicy::All {
        clients
    } else {
        clients.filter(not_id(sender))
    }
}

impl Relay {
    pub closed spec fn clients(&self) -> Seq<u32> {
        self.clients@
    }

    pub closed spec fn counter(&self) -> u32 {
        self.counter
    }

    pub closed spec fn positions(&self) -> Seq<CachedPosition> {
        self.positions@
    }

    /// Connection ids are distinct and were all handed out already; the
    /// cache holds one entry per player.
    pub open spec fn wf(&self) -> bool {
        &&& self.clients().no_duplicates()
        &&& forall|i: int| 0 <= i < self.clients().len() ==> self.clients()[i] <= self.counter()
        &&& ids_unique(self.positions())
    }

    pub fn new() -> (r: Relay)
        ensures
            r.wf(),
            r.clients() == Seq::<u32>::empty(),
            r.positions() == Seq::<CachedPosition>::empty(),
            r.counter() == 0,
    {
        Relay { clients: Vec::new(), counter: 0, positions: Vec::new() }
    }

    /// The connected ids, in the order they connected.
    pub fn client_ids(&self) -> (r: Vec<u32>)
        ensures
            r@ == self.clients(),
    {
        let mut r: Vec<u32> = Vec::new();
        let mut i: usize = 0;
        while i < self.clients.len()
            invariant
                i <= self.clients@.len(),
                r@ =~= self.clients@.subrange(0, i as int),
            decreases self.clients.len() - i,
        {
            r.push(self.clients[i]);
            i = i + 1;
        }
        r
    }

    /// The cached positions, in cache order.
    pub fn cached_positions(&self) -> (r: Vec<CachedPosition>)
        ensures
            r@ == self.positions(),
    {
        let mut r: Vec<CachedPosition> = Vec::new();
        let mut i: usize = 0;
        while i < self.positions.len()
            invariant
                i <= self.positions@.len(),
                r@ =~= self.positions@.subrange(0, i as int),
            decreases self.positions.len() - i,
        {
            r.push(self.positions[i]);
            i = i + 1;
        }
        r
    }

    /// Registers a new connection under the next id; ids are never reused.
    /// `None` once every id has been handed out.
    pub fn accept(&mut self) -> (r: Option<u32>)
        requires
            old(self).wf(),
        ensures
            final(self).wf(),
            old(self).counter() == u32::MAX ==> r.is_none() && *final(self) == *old(self),
            old(self).counter() < u32::MAX ==> {
                &&& r == Some((old(self).counter() + 1) as u32)
                &&& final(self).counter() == old(self).counter() + 1
                &&& final(self).clients() == old(self).clients().push(r.unwrap())
                &&& final(self).positions() == old(self).positions()
            },
    {
        if self.counter == u32::MAX {
            return None;
        }
        self.counter = self.counter + 1;
        let id = self.counter;
        self.clients.push(id);
        proof {
            assert(forall|i: int|
                0 <= i < old(self).clients().len() ==> self.clients@[i] != id);
        }
        Some(id)
    }

    /// Forgets a connection: drops it from the registry and its position
    /// from the cache.
    pub fn evict(&mut self, id: u32)
        requires
            old(self).wf(),
        ensures
            final(self).wf(),
            final(self).clients() == old(self).clients().filter(not_id(id)),
            final(self).positions() == old(self).positions().filter(not_cached_id(id)),
            final(self).counter() == old(self).counter(),
    {
        self.clients = remove_id(&self.clients, id);
        self.positions = forget(&self.positions, id);
        proof {
            assert forall|i: int| 0 <= i < self.clients@.len() implies self.clients@[i]
                <= self.counter by {
                assert(self.clients@.contains(self.clients@[i]));
                old(self).clients@.lemma_filter_contains_rev(not_id(id), self.clients@[i]);
            }
        }
    }

    /// A connection closed or failed: it is forgotten, and a Leave for `id`
    /// goes to the connections that are returned, every remaining one.
    pub fn disconnect(&mut self, id: u32) -> (r: Vec<u32>)
        requires
            old(self).wf(),
        ensures
            final(self).wf(),
            final(self).clients() == old(self).clients().filter(not_id(id)),
            final(self).positions() == old(self).positions().filter(not_cached_id(id)),
            final(self).counter() == old(self).counter(),
            r@ == final(self).clients(),
    {
        self.evict(id);
        self.client_ids()
    }

    /// Routes a message received from `sender`: updates the cache as the
    /// message's policy says and names who receives what. A Move records the
    /// announced player's position; a Leave forgets the leaving player's; a
    /// Join, which carries no position, records nothing and gets the joiner
    /// a replay of every other cached player.
    pub fn dispatch(&mut self, sender: u32, p: &Payload) -> (r: Dispatch)
        requires
            old(self).wf(),
        ensures
            final(self).wf(),
            final(self).clients() == old(self).clients(),
            final(self).counter() == old(self).counter(),
            r.relay_to@ == targets(old(self).clients(), sender, policy_of(*p)),
            final(self).positions() == match *p {
                Payload::Move(id, x, y) => upsert(old(self).positions(), CachedPosition { id, x, y }),
                Payload::Leave(id) => old(self).positions().filter(not_cached_id(id)),
                _ => old(self).positions(),
            },
            r.replay@ == match *p {
                Payload::Join(id) => replay_spec(old(self).positions(), id),
                _ => Seq::empty(),
            },
    {
        let policy = relay_policy(p);
        let mut replay: Vec<Payload> = Vec::new();
        match p {
            Payload::Move(id, x, y) => {
                record(&mut self.positions, CachedPosition { id: *id, x: *x, y: *y });
            },
            Payload::Join(id) => {
                replay = replay_for(&self.positions, *id);
            },
            Payload::Leave(id) => {
                self.positions = forget(&self.positions, *id);
            },
            _ => {},
        }
        let relay_to = if policy == RelayPolicy::All {
            self.client_ids()
        } else {
            remove_id(&self.clients, sender)
        };
        Dispatch { replay, relay_to }
    }
}

/// A message forwarded to the others reaches every connection except the
/// sender's, and each of them once; one forwarded to all reaches every
/// connection, the sender's included.
pub proof fn lemma_broadcast_excludes_sender(clients: Seq<u32>, sender: u32, policy: RelayPolicy)
    requires
        clients.no_duplicates(),
    ensures
        policy != RelayPolicy::All ==> forall|c: u32|
            #[trigger] targets(clients, sender, policy).contains(c) <==> (clients.contains(c) && c
                != sender),
        policy == RelayPolicy::All ==> targets(clients, sender, policy) == clients,
        targets(clients, sender, policy).no_duplicates(),
{
    lemma_filter_keeps_distinct(clients, not_id(sender));
    if policy != RelayPolicy::All {
        assert forall|c: u32|
            #[trigger] targets(clients, sender, policy).contains(c) <==> (clients.contains(c) && c
                != sender) by {
            let f = clients.filter(not_id(sender));
            if f.contains(c) {
                clients.lemma_filter_contains_rev(not_id(sender), c);
                let k = choose|k: int| 0 <= k < f.len() && f[k] == c;
                clients.lemma_filter_pred(not_id(sender), k);
            }
            if clients.contains(c) && c != sender {
                let k = choose|k: int| 0 <= k < clients.len() && clients[k] == c;
                clients.lemma_filter_contains(not_id(sender), k);
            }
        }
    }
}

/// A joining player is sent, for each other cached player in cache order,
/// exactly one Join followed by one Move to that player's last cached
/// position, and nothing else.
pub proof fn lemma_join_replay_pairs(s: Seq<CachedPosition>, joiner: u32)
    ensures
        replay_spec(s, joiner).len() == 2 * s.filter(not_cached_id(joiner)).len(),
        forall|k: int|
            0 <= k < s.filter(not_cached_id(joiner)).len() ==> {
                let c = #[trigger] s.filter(not_cached_id(joiner))[k];
                &&& replay_spec(s, joiner)[2 * k] == Payload::Join(c.id)
                &&& replay_spec(s, joiner)[2 * k + 1] == Payload::Move(c.id, c.x, c.y)
            },
    decreases s.len(),
{
    reveal(Seq::filter);
    if s.len() > 0 {
        let t = s.drop_last();
        lemma_join_replay_pairs(t, joiner);
        let c = s.last();
        if c.id != joiner {
            let f = t.filter(not_cached_id(joiner));
            let g = s.filter(not_cached_id(joiner));
            assert(g == f.push(c));
            let r = replay_spec(t, joiner);
            let r2 = replay_spec(s, joiner);
            assert(r2 == r + seq![Payload::Join(c.id), Payload::Move(c.id, c.x, c.y)]);
            assert forall|k: int| 0 <= k < g.len() implies {
                let d = #[trigger] g[k];
                &&& r2[2 * k] == Payload::Join(d.id)
                &&& r2[2 * k + 1] == Payload::Move(d.id, d.x, d.y)
            } by {
                if k < f.len() {
                    assert(g[k] == f[k]);
                    assert(r2[2 * k] == r[2 * k]);
                    assert(r2[2 * k + 1] == r[2 * k + 1]);
                }
            }
        }
    }
}

/// The ids of `v` other than `id`, in order.
fn remove_id(v: &Vec<u32>, id: u32) -> (r: Vec<u32>)
    ensures
        r@ == v@.filter(not_id(id)),
        v@.no_duplicates() ==> r@.no_duplicates(),
{
    let mut r: Vec<u32> = Vec::new();
    let mut i: usize = 0;
    while i < v.len()
        invariant
            i <= v@.len(),
            r@ == v@.subrange(0, i as int).filter(not_id(id)),
        decreases v.len() - i,
    {
        proof {
            reveal(Seq::filter);
            assert(v@.subrange(0, i + 1).last() == v@[i as int]);
            assert(v@.subrange(0, i + 1).drop_last() =~= v@.subrange(0, i as int));
        }
        if v[i] != id {
            r.push(v[i]);
        }
        i = i + 1;
    }
    assert(v@.subrange(0, v@.len() as int) =~= v@);
    proof {
        if v@.no_duplicates() {
            lemma_filter_keeps_distinct(v@, not_id(id));
        }
    }
    r
}

/// The cache without the entry for `id`.
fn forget(v: &Vec<CachedPosition>, id: u32) -> (r: Vec<CachedPosition>)
    ensures
        r@ == v@.filter(not_cached_id(id)),
        ids_unique(v@) ==> ids_unique(r@),
{
    let mut r: Vec<CachedPosition> = Vec::new();
    let mut i: usize = 0;
    while i < v.len()
        invariant
            i <= v@.len(),
            r@ == v@.subrange(0, i as int).filter(not_cached_id(id)),
        decreases v.len() - i,
    {
        proof {
            reveal(Seq::filter);
            assert(v@.subrange(0, i + 1).last() == v@[i as int]);
            assert(v@.subrange(0, i + 1).drop_last() =~= v@.subrange(0, i as int));
        }
        if v[i].id != id {
            r.push(v[i]);
        }
        i = i + 1;
    }
    assert(v@.subrange(0, v@.len() as int) =~= v@);
    proof {
        if ids_unique(v@) {
            lemma_filter_keeps_unique_ids(v@, not_cached_id(id));
        }
    }
    r
}

/// Records a position: replaces the entry with its id, or appends one.
fn record(v: &mut Vec<CachedPosition>, e: CachedPosition)
    requires
        ids_unique(old(v)@),
    ensures
        final(v)@ == upsert(old(v)@, e),
        ids_unique(final(v)@),
{
    let mut i: usize = 0;
    while i < v.len()
        invariant
            i <= v@.len(),
            v@ == old(v)@,
            ids_unique(old(v)@),
            forall|j: int| 0 <= j < i ==> v@[j].id != e.id,
        decreases v.len() - i,
    {
        if v[i].id == e.id {
            v.set(i, e);
            proof {
                assert(has_id(old(v)@, e.id));
                assert forall|j: int| 0 <= j < v@.len() implies v@[j] == (if old(v)@[j].id
                    == e.id {
                    e
                } else {
                    old(v)@[j]
                }) by {
                    if j != i && old(v)@[j].id == e.id {
                        assert(old(v)@[i as int].id == e.id);
                    }
                }
                assert(v@ =~= old(v)@.map_values(
                    |c: CachedPosition| if c.id == e.id { e } else { c },
                ));
                assert forall|a: int, b: int|
                    0 <= a < v@.len() && 0 <= b < v@.len() && a != b implies v@[a].id
                    != v@[b].id by {
                    assert(v@[a].id == old(v)@[a].id);
                    assert(v@[b].id == old(v)@[b].id);
                }
            }
            return;
        }
        i = i + 1;
    }
    v.push(e);
}

/// The Join and Move pairs that introduce every cached player other than
/// `joiner`.
fn replay_for(v: &Vec<CachedPosition>, joiner: u32) -> (r: Vec<Payload>)
    ensures
        r@ == replay_spec(v@, joiner),
{
    let mut r: Vec<Payload> = Vec::new();
    let mut i: usize = 0;
    while i < v.len()
        invariant
            i <= v@.len(),
            r@ == replay_spec(v@.subrange(0, i as int), joiner),
        decreases v.len() - i,
    {
        proof {
            assert(v@.subrange(0, i + 1).drop_last() =~= v@.subrange(0, i as int));
        }
        let c = v[i];
        if c.id != joiner {
            let ghost before = r@;
            r.push(Payload::Join(c.id));
            r.push(Payload::Move(c.id, c.x, c.y));
            assert(r@ =~= before + seq![Payload::Join(c.id), Payload::Move(c.id, c.x, c.y)]);
        }
        i = i + 1;
    }
    assert(v@.subrange(0, v@.len() as int) =~= v@);
    r
}

proof fn lemma_filter_keeps_distinct(s: Seq<u32>, pred: spec_fn(u32) -> bool)
    requires
        s.no_duplicates(),
    ensures
        s.filter(pred).no_duplicates(),
    decreases s.len(),
{
    reveal(Seq::filter);
    if s.len() > 0 {
        let t = s.drop_last();
        assert(t.no_duplicates());
        lemma_filter_keeps_distinct(t, pred);
        if pred(s.last()) {
            if t.filter(pred).contains(s.last()) {
                t.lemma_filter_contains_rev(pred, s.last());
                let k = choose|k: int| 0 <= k < t.len() && t[k] == s.last();
                assert(s[k] == s[s.len() - 1]);
            }
        }
    }
}

proof fn lemma_filter_keeps_unique_ids(s: Seq<CachedPosition>, pred: spec_fn(CachedPosition) -> bool)
    requires
        ids_unique(s),
    ensures
        ids_unique(s.filter(pred)),
    decreases s.len(),
{
    reveal(Seq::filter);
    if s.len() > 0 {
        let t = s.drop_last();
        assert(ids_unique(t));
        lemma_filter_keeps_unique_ids(t, pred);
        if pred(s.last()) {
            let f = t.filter(pred);
            assert forall|k: int| 0 <= k < f.len() implies f[k].id != s.last().id by {
                assert(f.contains(f[k]));
                t.lemma_filter_contains_rev(pred, f[k]);
                let j = choose|j: int| 0 <= j < t.len() && t[j] == f[k];
                assert(s[j] == t[j]);
            }
            let g = f.push(s.last());
            assert forall|a: int, b: int|
                0 <= a < g.len() && 0 <= b < g.len() && a != b implies g[a].id != g[b].id by {
                if a < f.len() && b < f.len() {
                } else if a < f.len() {
                    assert(g[a] == f[a]);
                } else {
                    assert(g[b] == f[b]);
                }
            }
        }
    }
}

} // verus!
