//! Neighbour registry: peers ranked by the active strategy's score, with the
//! peers inside an active emergency disk masked from selection.
use vstd::prelude::*;

verus! {

/// How peers are scored; smaller is better.
#[derive(Debug, Clone, Copy, PartialEq, Eq, Structural)]
pub enum NeighborNodeStrategy {
    /// Great-circle distance in metres from the local node.
    GeoDistance,
    /// Modelled one-way latency in nanoseconds over a cellular access network.
    SimpleCellular,
    /// Running mean of observed latency samples; unseen peers score the maximum.
    SmartLatency,
}

/// A geographic position in millionths of a degree.
#[derive(Debug, Clone, Copy, PartialEq, Eq, Structural)]
pub struct Position {
    pub lat_e6: i64,
    pub lon_e6: i64,
}

/// An emergency disk: every point within `radius_m` metres of `position`.
#[derive(Debug, Clone, Copy, PartialEq, Eq, Structural)]
pub struct Emergency {
    pub position: Position,
    pub radius_m: u64,
}

/// A node of the cluster as the broker announces it.
pub struct Node {
    /// `host:port` of the node's HTTP surface.
    pub address: String,
    pub position: Position,
}

impl Node {
    /// The node at `address`, standing at `position`.
    pub fn new(address: String, position: Position) -> (r: Self)
        ensures
            r.address == address,
            r.position == position,
    {
        Node { address, position }
    }
}

impl Clone for Node {
    fn clone(&self) -> (r: Self)
        ensures
            r == *self,
    {
        Node { address: self.address.clone(), position: self.position }
    }
}

/// Score of a peer that has never been scored or observed.
pub const UNSCORED: u64 = 0xFFFF_FFFF_FFFF_FFFF;

/// A peer of the registry.
pub struct Peer {
    /// `host:port` of the peer's HTTP surface.
    pub address: String,
    pub position: Position,
    /// Whether the peer lies inside the active emergency disk.
    pub emergency: bool,
    /// Ranking key under the registry's strategy; smaller is better.
    pub score: u64,
    /// Sum of the latency samples observed for the peer.
    pub latency_sum: u64,
    /// Number of latency samples observed for the peer.
    pub samples: u64,
}

impl Clone for Peer {
    fn clone(&self) -> (r: Self)
        ensures
            r == *self,
    {
        Peer {
            address: self.address.clone(),
            position: self.position,
            emergency: self.emergency,
            score: self.score,
            latency_sum: self.latency_sum,
            samples: self.samples,
        }
    }
}

/// The peers of `s` that are not masked, in order.
pub open spec fn unmasked(s: Seq<Peer>) -> Seq<Peer>
    decreases s.len(),
{
    if s.len() == 0 {
        Seq::empty()
    } else if !s.last().emergency {
        unmasked(s.drop_last()).push(s.last())
    } else {
        unmasked(s.drop_last())
    }
}

/// `(score, index)` pairs compared by score, then by index.
pub open spec fn key_lt(a: (u64, usize), b: (u64, usize)) -> bool {
    a.0 < b.0 || (a.0 == b.0 && a.1 < b.1)
}

/// `x` pairs an index of `scores` with the score standing there.
pub open spec fn key_of(x: (u64, usize), scores: Seq<u64>) -> bool {
    x.1 < scores.len() && x.0 == scores[x.1 as int]
}

/// `p` is the peer `q` with its score replaced by `score`.
pub open spec fn rescored(p: Peer, q: Peer, score: u64) -> bool {
    &&& p.address == q.address
    &&& p.position == q.position
    &&& p.emergency == q.emergency
    &&& p.latency_sum == q.latency_sum
    &&& p.samples == q.samples
    &&& p.score == score
}

/// `new[k]` is `old[perm[k]]` given the score `scores[perm[k]]`, `perm` is
/// one-to-one, and `new` ascends by score, then by old index.
pub open spec fn ranked_by(old: Seq<Peer>, new: Seq<Peer>, scores: Seq<u64>, perm: Seq<int>) -> bool {
    &&& new.len() == old.len()
    &&& perm.len() == old.len()
    &&& forall|k: int| 0 <= k < perm.len() ==> 0 <= #[trigger] perm[k] < old.len()
    &&& forall|a: int, b: int| 0 <= a < b < perm.len() ==> #[trigger] perm[a] != #[trigger] perm[b]
    &&& forall|k: int| 0 <= k < perm.len() ==> rescored(#[trigger] new[k], old[perm[k]], scores[perm[k]])
    &&& forall|a: int, b: int| 0 <= a < b < perm.len() ==>
        (scores[#[trigger] perm[a]] < scores[#[trigger] perm[b]]
            || (scores[perm[a]] == scores[perm[b]] && perm[a] < perm[b]))
}

/// `new` holds the peers of `old`, each given the score at its old index, in
/// ascending order of score and, for equal scores, in their old order.
pub open spec fn ranked(old: Seq<Peer>, new: Seq<Peer>, scores: Seq<u64>) -> bool {
    exists|perm: Seq<int>| #[trigger] ranked_by(old, new, scores, perm)
}

/// Scores never decrease along `s`.
pub open spec fn score_sorted(s: Seq<Peer>) -> bool {
    forall|i: int, j: int| 0 <= i < j < s.len() ==> #[trigger] s[i].score <= #[trigger] s[j].score
}

/// Every peer of the registry, ordered by ascending score under a fixed strategy.
pub struct NeighborNodeList {
    nodes: Vec<Peer>,
    strategy: NeighborNodeStrategy,
    emergency: Option<Emergency>,
}

proof fn lemma_unmasked_prefix(s: Seq<Peer>, k: int)
    requires
        0 <= k < s.len(),
    ensures
        unmasked(s.subrange(0, k + 1)) == (if !s[k].emergency {
            unmasked(s.subrange(0, k)).push(s[k])
        } else {
            unmasked(s.subrange(0, k))
        }),
{
    assert(s.subrange(0, k + 1).drop_last() == s.subrange(0, k));
}

/// Dropping masked peers keeps a sequence sorted by score.
proof fn lemma_unmasked_sorted(s: Seq<Peer>)
    requires
        score_sorted(s),
    ensures
        score_sorted(unmasked(s)),
        s.len() > 0 ==> forall|i: int| 0 <= i < unmasked(s).len() ==> #[trigger] unmasked(s)[i].score <= s.last().score,
    decreases s.len(),
{
    if s.len() > 0 {
        let t = s.drop_last();
        assert(score_sorted(t));
        lemma_unmasked_sorted(t);
        if t.len() > 0 {
            assert(t.last().score <= s.last().score);
        }
        let u = unmasked(t);
        if !s.last().emergency {
            assert(unmasked(s) == u.push(s.last()));
            assert forall|i: int, j: int| 0 <= i < j < unmasked(s).len() implies #[trigger] unmasked(s)[i].score <= #[trigger] unmasked(s)[j].score by {
                if j < u.len() {
                    assert(unmasked(s)[i] == u[i]);
                    assert(unmasked(s)[j] == u[j]);
                } else {
                    assert(unmasked(s)[i] == u[i]);
                }
            }
            assert forall|i: int| 0 <= i < unmasked(s).len() implies #[trigger] unmasked(s)[i].score <= s.last().score by {
                if i < u.len() {
                    assert(unmasked(s)[i] == u[i]);
                }
            }
        }
    }
}

impl NeighborNodeList {
    /// The peers, best first.
    pub closed spec fn peers(&self) -> Seq<Peer> {
        self.nodes@
    }

    /// The strategy the registry was made with.
    pub closed spec fn spec_strategy(&self) -> NeighborNodeStrategy {
        self.strategy
    }

    /// The active emergency, if any.
    pub closed spec fn active_emergency(&self) -> Option<Emergency> {
        self.emergency
    }

    /// An empty registry scoring peers by `strategy`.
    pub fn new(strategy: NeighborNodeStrategy) -> (r: Self)
        ensures
            r.peers() == Seq::<Peer>::empty(),
            r.spec_strategy() == strategy,
            r.active_emergency() is None,
    {
        NeighborNodeList { nodes: Vec::new(), strategy, emergency: None }
    }

    /// The strategy the registry was made with.
    pub fn strategy(&self) -> (r: NeighborNodeStrategy)
        ensures
            r == self.spec_strategy(),
    {
        self.strategy
    }

    /// Whether an emergency is active.
    pub fn emergency(&self) -> (r: Option<Emergency>)
        ensures
            r == self.active_emergency(),
    {
        self.emergency
    }

    /// Number of peers, masked ones included.
    pub fn len(&self) -> (r: usize)
        ensures
            r == self.peers().len(),
    {
        self.nodes.len()
    }

    /// The `i`-th peer in ranking order, masked ones included.
    pub fn node(&self, i: usize) -> (r: &Peer)
        requires
            i < self.peers().len(),
        ensures
            *r == self.peers()[i as int],
    {
        &self.nodes[i]
    }

    /// Append a peer, unmasked, unscored and never observed.
    pub fn add_node(&mut self, address: String, position: Position)
        ensures
            final(self).peers() == old(self).peers().push(Peer {
                address,
                position,
                emergency: false,
                score: UNSCORED,
                latency_sum: 0,
                samples: 0,
            }),
            final(self).spec_strategy() == old(self).spec_strategy(),
            final(self).active_emergency() == old(self).active_emergency(),
    {
        self.nodes.push(Peer { address, position, emergency: false, score: UNSCORED, latency_sum: 0, samples: 0 });
    }

    /// Activate `em`: a peer is masked exactly when its distance to the
    /// emergency's centre, `distances[i]` metres for the `i`-th peer, is at
    /// most the radius.
    pub fn set_emergency(&mut self, em: Emergency, distances: &Vec<u64>)
        requires
            distances@.len() == old(self).peers().len(),
        ensures
            final(self).active_emergency() == Some(em),
            final(self).spec_strategy() == old(self).spec_strategy(),
            final(self).peers().len() == old(self).peers().len(),
            forall|i: int| 0 <= i < final(self).peers().len() ==>
                (#[trigger] final(self).peers()[i]).emergency == (distances@[i] <= em.radius_m),
            forall|i: int| 0 <= i < final(self).peers().len() ==>
                #[trigger] final(self).peers()[i] == (Peer { emergency: distances@[i] <= em.radius_m, ..old(self).peers()[i] }),
    {
        let mut i: usize = 0;
        while i < self.nodes.len()
            invariant
                0 <= i <= self.nodes@.len(),
                self.nodes@.len() == old(self).nodes@.len(),
                distances@.len() == self.nodes@.len(),
                self.strategy == old(self).strategy,
                self.emergency == old(self).emergency,
                forall|k: int| 0 <= k < i ==> #[trigger] self.nodes@[k] == (Peer { emergency: distances@[k] <= em.radius_m, ..old(self).nodes@[k] }),
                forall|k: int| i <= k < self.nodes@.len() ==> #[trigger] self.nodes@[k] == old(self).nodes@[k],
            decreases self.nodes@.len() - i,
        {
            let inside = distances[i] <= em.radius_m;
            self.nodes[i].emergency = inside;
            i = i + 1;
        }
        self.emergency = Some(em);
    }

    /// End the emergency: no peer is masked any more.
    pub fn clear_emergency(&mut self)
        ensures
            final(self).active_emergency() is None,
            final(self).spec_strategy() == old(self).spec_strategy(),
            final(self).peers().len() == old(self).peers().len(),
            forall|i: int| 0 <= i < final(self).peers().len() ==>
                #[trigger] final(self).peers()[i] == (Peer { emergency: false, ..old(self).peers()[i] }),
    {
        self.emergency = None;
        let mut i: usize = 0;
        while i < self.nodes.len()
            invariant
                0 <= i <= self.nodes@.len(),
                self.nodes@.len() == old(self).nodes@.len(),
                self.strategy == old(self).strategy,
                self.emergency is None,
                forall|k: int| 0 <= k < i ==> #[trigger] self.nodes@[k] == (Peer { emergency: false, ..old(self).nodes@[k] }),
                forall|k: int| i <= k < self.nodes@.len() ==> #[trigger] self.nodes@[k] == old(self).nodes@[k],
            decreases self.nodes@.len() - i,
        {
            self.nodes[i].emergency = false;
            i = i + 1;
        }
    }

    /// Number of peers that are not masked.
    pub fn count_available(&self) -> (r: usize)
        ensures
            r == unmasked(self.peers()).len(),
    {
        let mut count: usize = 0;
        let mut k: usize = 0;
        while k < self.nodes.len()
            invariant
                0 <= k <= self.nodes@.len(),
                count == unmasked(self.nodes@.subrange(0, k as int)).len(),
                count <= k,
            decreases self.nodes@.len() - k,
        {
            proof {
                lemma_unmasked_prefix(self.nodes@, k as int);
            }
            if !self.nodes[k].emergency {
                count = count + 1;
            }
            k = k + 1;
        }
        assert(self.nodes@.subrange(0, self.nodes@.len() as int) == self.nodes@);
        count
    }

    /// The `nth` unmasked peer in ranking order; masked peers are skipped
    /// without advancing the count.
    pub fn get_nth(&self, nth: usize) -> (r: Option<Peer>)
        ensures
            nth < unmasked(self.peers()).len() ==> r == Some(unmasked(self.peers())[nth as int]),
            nth >= unmasked(self.peers()).len() ==> r is None,
    {
        let mut count: usize = 0;
        let mut k: usize = 0;
        while k < self.nodes.len()
            invariant
                0 <= k <= self.nodes@.len(),
                count == unmasked(self.nodes@.subrange(0, k as int)).len(),
                count <= nth,
            decreases self.nodes@.len() - k,
        {
            proof {
                lemma_unmasked_prefix(self.nodes@, k as int);
                lemma_unmasked_extends(self.nodes@, k as int + 1);
            }
            if !self.nodes[k].emergency {
                if count == nth {
                    assert(unmasked(self.nodes@.subrange(0, k + 1))[nth as int] == self.nodes@[k as int]);
                    return Some(self.nodes[k].clone());
                }
                count = count + 1;
            }
            k = k + 1;
        }
        assert(self.nodes@.subrange(0, self.nodes@.len() as int) == self.nodes@);
        None
    }
}

/// The unmasked peers of a prefix are a prefix of the unmasked peers.
proof fn lemma_unmasked_extends(s: Seq<Peer>, k: int)
    requires
        0 <= k <= s.len(),
    ensures
        unmasked(s.subrange(0, k)).len() <= unmasked(s).len(),
        forall|i: int| 0 <= i < unmasked(s.subrange(0, k)).len() ==> #[trigger] unmasked(s.subrange(0, k))[i] == unmasked(s)[i],
    decreases s.len() - k,
{
    if k < s.len() {
        lemma_unmasked_extends(s, k + 1);
        lemma_unmasked_prefix(s, k);
        let u = unmasked(s.subrange(0, k));
        let w = unmasked(s.subrange(0, k + 1));
        assert forall|i: int| 0 <= i < u.len() implies #[trigger] u[i] == unmasked(s)[i] by {
            assert(u[i] == w[i]);
        }
    } else {
        assert(s.subrange(0, k) == s);
    }
}


/// Sort `(score, index)` keys into ascending order of score, then index.
fn sort_keys(v: &mut Vec<(u64, usize)>, Ghost(scores): Ghost<Seq<u64>>)
    requires
        forall|a: int, b: int| 0 <= a < b < old(v)@.len() ==> #[trigger] old(v)@[a].1 != #[trigger] old(v)@[b].1,
        forall|k: int| 0 <= k < old(v)@.len() ==> #[trigger] key_of(old(v)@[k], scores),
    ensures
        final(v)@.len() == old(v)@.len(),
        forall|a: int, b: int| 0 <= a < b < final(v)@.len() ==> #[trigger] final(v)@[a].1 != #[trigger] final(v)@[b].1,
        forall|a: int, b: int| 0 <= a < b < final(v)@.len() ==> key_lt(#[trigger] final(v)@[a], #[trigger] final(v)@[b]),
        forall|k: int| 0 <= k < final(v)@.len() ==> #[trigger] key_of(final(v)@[k], scores),
{
    let n = v.len();
    if n == 0 {
        return;
    }
    let mut i: usize = 1;
    while i < n
        invariant
            1 <= i <= n,
            v@.len() == n,
            forall|a: int, b: int| 0 <= a < b < n ==> #[trigger] v@[a].1 != #[trigger] v@[b].1,
            forall|a: int, b: int| 0 <= a < b < i ==> key_lt(#[trigger] v@[a], #[trigger] v@[b]),
            forall|k: int| 0 <= k < n ==> #[trigger] key_of(v@[k], scores),
        decreases n - i,
    {
        let mut j: usize = i;
        while j > 0 && (v[j].0 < v[j - 1].0 || (v[j].0 == v[j - 1].0 && v[j].1 < v[j - 1].1))
            invariant
                0 <= j <= i < n,
                v@.len() == n,
                forall|a: int, b: int| 0 <= a < b < n ==> #[trigger] v@[a].1 != #[trigger] v@[b].1,
                forall|a: int, b: int| 0 <= a < b <= i && a != j && b != j ==> key_lt(#[trigger] v@[a], #[trigger] v@[b]),
                forall|b: int| j < b <= i ==> key_lt(v@[j as int], #[trigger] v@[b]),
                forall|k: int| 0 <= k < n ==> #[trigger] key_of(v@[k], scores),
            decreases j,
        {
            let x = v[j - 1];
            let y = v[j];
            let ghost before = v@;
            v[j - 1] = y;
            v[j] = x;
            proof {
                assert forall|k: int| 0 <= k < n implies #[trigger] key_of(v@[k], scores) by {
                    if k == j - 1 {
                        assert(v@[k] == before[j as int]);
                    } else if k == j {
                        assert(v@[k] == before[j - 1]);
                    } else {
                        assert(v@[k] == before[k]);
                    }
                }
                assert forall|a: int, b: int| 0 <= a < b < n implies #[trigger] v@[a].1 != #[trigger] v@[b].1 by {
                    let a0 = if a == j - 1 { j as int } else if a == j { j - 1 } else { a };
                    let b0 = if b == j - 1 { j as int } else if b == j { j - 1 } else { b };
                    assert(v@[a] == before[a0]);
                    assert(v@[b] == before[b0]);
                    if a0 < b0 {
                        assert(before[a0].1 != before[b0].1);
                    } else {
                        assert(before[b0].1 != before[a0].1);
                    }
                }
                assert forall|a: int, b: int| 0 <= a < b <= i && a != j - 1 && b != j - 1 implies key_lt(#[trigger] v@[a], #[trigger] v@[b]) by {
                    if b == j {
                        assert(v@[b] == before[j - 1]);
                        assert(v@[a] == before[a]);
                    } else if a == j {
                        assert(v@[a] == before[j - 1]);
                        assert(v@[b] == before[b]);
                    } else {
                        assert(v@[a] == before[a]);
                        assert(v@[b] == before[b]);
                    }
                }
                assert forall|b: int| j - 1 < b <= i implies key_lt(v@[j - 1], #[trigger] v@[b]) by {
                    assert(v@[j - 1] == before[j as int]);
                    if b == j {
                        assert(v@[b] == before[j - 1]);
                    } else {
                        assert(v@[b] == before[b]);
                    }
                }
            }
            j = j - 1;
        }
        proof {
            if j > 0 {
                assert(v@[j - 1].1 != v@[j as int].1);
                assert(key_lt(v@[j - 1], v@[j as int]));
            }
            assert forall|a: int, b: int| 0 <= a < b < i + 1 implies key_lt(#[trigger] v@[a], #[trigger] v@[b]) by {
                if b == j {
                    if a < j - 1 {
                        assert(key_lt(v@[a], v@[j - 1]));
                    }
                } else if a == j {
                } else {
                }
            }
        }
        i = i + 1;
    }
}

impl NeighborNodeList {
    /// Give the `i`-th peer the score `scores[i]`, then reorder the peers by
    /// ascending score, equal scores keeping their present order.
    fn rank(&mut self, scores: &Vec<u64>)
        requires
            scores@.len() == old(self).peers().len(),
        ensures
            ranked(old(self).peers(), final(self).peers(), scores@),
            score_sorted(final(self).peers()),
            final(self).spec_strategy() == old(self).spec_strategy(),
            final(self).active_emergency() == old(self).active_emergency(),
    {
        let n = self.nodes.len();
        let mut keys: Vec<(u64, usize)> = Vec::new();
        let mut k: usize = 0;
        while k < n
            invariant
                0 <= k <= n,
                n == self.nodes@.len(),
                scores@.len() == n,
                keys@.len() == k,
                forall|m: int| 0 <= m < k ==> #[trigger] keys@[m] == (scores@[m], m as usize),
                forall|m: int| 0 <= m < k ==> #[trigger] key_of(keys@[m], scores@),
            decreases n - k,
        {
            keys.push((scores[k], k));
            k = k + 1;
        }
        sort_keys(&mut keys, Ghost(scores@));
        let mut out: Vec<Peer> = Vec::new();
        let mut k: usize = 0;
        while k < n
            invariant
                0 <= k <= n,
                n == self.nodes@.len(),
                self.nodes@ == old(self).nodes@,
                keys@.len() == n,
                scores@.len() == n,
                forall|m: int| 0 <= m < n ==> #[trigger] key_of(keys@[m], scores@),
                out@.len() == k,
                forall|m: int| 0 <= m < k ==> rescored(#[trigger] out@[m], old(self).nodes@[keys@[m].1 as int], keys@[m].0),
            decreases n - k,
        {
            assert(key_of(keys@[k as int], scores@));
            let idx = keys[k].1;
            let mut p = self.nodes[idx].clone();
            p.score = keys[k].0;
            assert(rescored(p, self.nodes@[idx as int], keys@[k as int].0));
            let ghost prev = out@;
            out.push(p);
            assert forall|m: int| 0 <= m < k + 1 implies rescored(#[trigger] out@[m], old(self).nodes@[keys@[m].1 as int], keys@[m].0) by {
                assert(key_of(keys@[m], scores@));
                if m < k {
                    assert(out@[m] == prev[m]);
                }
            }
            k = k + 1;
        }
        proof {
            let perm = Seq::new(n as nat, |m: int| keys@[m].1 as int);
            assert forall|m: int| 0 <= m < n implies 0 <= #[trigger] perm[m] < n && keys@[m].0 == scores@[perm[m]] by {
                assert(key_of(keys@[m], scores@));
            }
            assert forall|m: int| 0 <= m < perm.len() implies rescored(#[trigger] out@[m], old(self).nodes@[perm[m]], scores@[perm[m]]) by {
                assert(keys@[m].0 == scores@[perm[m]]);
            }
            assert forall|a: int, b: int| 0 <= a < b < perm.len() implies #[trigger] perm[a] != #[trigger] perm[b]
                && (scores@[perm[a]] < scores@[perm[b]] || (scores@[perm[a]] == scores@[perm[b]] && perm[a] < perm[b])) by {
                assert(key_lt(keys@[a], keys@[b]));
                assert(keys@[a].0 == scores@[perm[a]]);
                assert(keys@[b].0 == scores@[perm[b]]);
            }
            assert forall|a: int, b: int| 0 <= a < b < out@.len() implies #[trigger] out@[a].score <= #[trigger] out@[b].score by {
                assert(key_lt(keys@[a], keys@[b]));
            }
            assert(ranked_by(old(self).nodes@, out@, scores@, perm));
        }
        self.nodes = out;
    }
}

/// The stored scores of `s`, in order.
pub open spec fn scores_of(s: Seq<Peer>) -> Seq<u64> {
    Seq::new(s.len(), |i: int| s[i].score)
}

/// `p` after folding the latency sample `sample` into its running mean.
pub open spec fn observed(p: Peer, sample: u64) -> Peer {
    Peer {
        latency_sum: (p.latency_sum + sample) as u64,
        samples: (p.samples + 1) as u64,
        score: ((p.latency_sum + sample) / (p.samples + 1)) as u64,
        ..p
    }
}

impl NeighborNodeList {
    /// Reorder the peers under the registry's strategy. GeoDistance and
    /// SimpleCellular rank by `scores`, the metres or nanoseconds from the local
    /// node to each peer. SmartLatency ranks by the stored means, and only while
    /// an emergency is active; otherwise its order, and `scores`, are left alone.
    pub fn sort(&mut self, scores: &Vec<u64>)
        requires
            scores@.len() == old(self).peers().len(),
        ensures
            final(self).spec_strategy() == old(self).spec_strategy(),
            final(self).active_emergency() == old(self).active_emergency(),
            old(self).spec_strategy() != NeighborNodeStrategy::SmartLatency ==> {
                &&& ranked(old(self).peers(), final(self).peers(), scores@)
                &&& score_sorted(final(self).peers())
            },
            old(self).spec_strategy() == NeighborNodeStrategy::SmartLatency && old(self).active_emergency() is Some ==> {
                &&& ranked(old(self).peers(), final(self).peers(), scores_of(old(self).peers()))
                &&& score_sorted(final(self).peers())
            },
            old(self).spec_strategy() == NeighborNodeStrategy::SmartLatency && old(self).active_emergency() is None
                ==> final(self).peers() == old(self).peers(),
    {
        match self.strategy {
            NeighborNodeStrategy::GeoDistance => {
                self.sort_by_distance(scores);
            },
            NeighborNodeStrategy::SimpleCellular => {
                self.sort_by_latency(scores);
            },
            NeighborNodeStrategy::SmartLatency => {
                if self.emergency.is_some() {
                    let own = self.stored_scores();
                    self.sort_by_latency(&own);
                }
            },
        }
    }

    /// The stored score of each peer, in ranking order.
    pub fn stored_scores(&self) -> (r: Vec<u64>)
        ensures
            r@ == scores_of(self.peers()),
    {
        let mut out: Vec<u64> = Vec::new();
        let mut k: usize = 0;
        while k < self.nodes.len()
            invariant
                0 <= k <= self.nodes@.len(),
                out@ == scores_of(self.nodes@).subrange(0, k as int),
            decreases self.nodes@.len() - k,
        {
            out.push(self.nodes[k].score);
            k = k + 1;
            assert(out@ == scores_of(self.nodes@).subrange(0, k as int));
        }
        assert(scores_of(self.nodes@).subrange(0, self.nodes@.len() as int) == scores_of(self.nodes@));
        out
    }

    /// Fold a latency sample for the first peer at `address` into its running
    /// mean, which becomes its score. Only SmartLatency registries keep
    /// samples; a sample for an unknown address, or one whose sum or count
    /// would overflow, is dropped. Returns whether the sample was kept.
    pub fn update_observed_latency(&mut self, address: &String, sample: u64) -> (r: bool)
        ensures
            final(self).spec_strategy() == old(self).spec_strategy(),
            final(self).active_emergency() == old(self).active_emergency(),
            !r ==> final(self).peers() == old(self).peers(),
            r <==> {
                &&& old(self).spec_strategy() == NeighborNodeStrategy::SmartLatency
                &&& exists|i: int| 0 <= i < old(self).peers().len() && #[trigger] old(self).peers()[i].address@ == address@
                    && (forall|j: int| 0 <= j < i ==> old(self).peers()[j].address@ != address@)
                    && old(self).peers()[i].latency_sum + sample <= u64::MAX
                    && old(self).peers()[i].samples < u64::MAX
            },
            r ==> exists|i: int| 0 <= i < old(self).peers().len() && #[trigger] old(self).peers()[i].address@ == address@
                && (forall|j: int| 0 <= j < i ==> old(self).peers()[j].address@ != address@)
                && final(self).peers() == old(self).peers().update(i, observed(old(self).peers()[i], sample)),
    {
        match self.strategy {
            NeighborNodeStrategy::SmartLatency => {},
            _ => {
                return false;
            },
        }
        let mut k: usize = 0;
        while k < self.nodes.len()
            invariant
                0 <= k <= self.nodes@.len(),
                self.nodes@ == old(self).nodes@,
                self.strategy == old(self).strategy,
                old(self).strategy == NeighborNodeStrategy::SmartLatency,
                self.emergency == old(self).emergency,
                forall|j: int| 0 <= j < k ==> old(self).nodes@[j].address@ != address@,
            decreases self.nodes@.len() - k,
        {
            if self.nodes[k].address == *address {
                let sum = self.nodes[k].latency_sum;
                let count = self.nodes[k].samples;
                assert(old(self).peers()[k as int].address@ == address@);
                if count == u64::MAX || sum > u64::MAX - sample {
                    assert forall|i: int| 0 <= i < old(self).peers().len() && #[trigger] old(self).peers()[i].address@ == address@
                        && (forall|j: int| 0 <= j < i ==> old(self).peers()[j].address@ != address@) implies
                        !(old(self).peers()[i].latency_sum + sample <= u64::MAX && old(self).peers()[i].samples < u64::MAX) by {
                        if i > k {
                            assert(old(self).peers()[k as int].address@ == address@);
                        }
                    }
                    return false;
                }
                assert(old(self).peers()[k as int].latency_sum + sample <= u64::MAX && old(self).peers()[k as int].samples < u64::MAX);
                assert(forall|j: int| 0 <= j < k ==> old(self).peers()[j].address@ != address@);
                let new_sum = sum + sample;
                let new_count = count + 1;
                self.nodes[k].latency_sum = new_sum;
                self.nodes[k].samples = new_count;
                self.nodes[k].score = new_sum / new_count;
                assert(self.nodes@ == old(self).nodes@.update(k as int, observed(old(self).nodes@[k as int], sample)));
                assert(self.peers() == old(self).peers().update(k as int, observed(old(self).peers()[k as int], sample)));
                assert(old(self).spec_strategy() == NeighborNodeStrategy::SmartLatency);
                assert(exists|i: int| 0 <= i < old(self).peers().len() && #[trigger] old(self).peers()[i].address@ == address@
                    && (forall|j: int| 0 <= j < i ==> old(self).peers()[j].address@ != address@)
                    && old(self).peers()[i].latency_sum + sample <= u64::MAX
                    && old(self).peers()[i].samples < u64::MAX);
                return true;
            }
            k = k + 1;
        }
        false
    }
}

impl NeighborNodeList {
    /// Rank the peers by `distances`, the metres from the local node to each
    /// peer in present order; equal distances keep their present order.
    pub fn sort_by_distance(&mut self, distances: &Vec<u64>)
        requires
            distances@.len() == old(self).peers().len(),
        ensures
            ranked(old(self).peers(), final(self).peers(), distances@),
            score_sorted(final(self).peers()),
            final(self).spec_strategy() == old(self).spec_strategy(),
            final(self).active_emergency() == old(self).active_emergency(),
    {
        self.rank(distances);
    }

    /// Rank the peers by `latencies`, the latency to each peer in present
    /// order; equal latencies keep their present order.
    pub fn sort_by_latency(&mut self, latencies: &Vec<u64>)
        requires
            latencies@.len() == old(self).peers().len(),
        ensures
            ranked(old(self).peers(), final(self).peers(), latencies@),
            score_sorted(final(self).peers()),
            final(self).spec_strategy() == old(self).spec_strategy(),
            final(self).active_emergency() == old(self).active_emergency(),
    {
        self.rank(latencies);
    }
}

/// After the peers of `before` are ranked by `scores` into `after` (what
/// `sort` promises under GeoDistance and SimpleCellular), the available peers
/// come out of `get_nth` in non-decreasing order of score.
pub proof fn lemma_ranked_nth_order(before: Seq<Peer>, after: &NeighborNodeList, scores: Seq<u64>)
    requires
        ranked(before, after.peers(), scores),
    ensures
        score_sorted(after.peers()),
        forall|i: int, j: int| 0 <= i < j < unmasked(after.peers()).len() ==>
            #[trigger] unmasked(after.peers())[i].score <= #[trigger] unmasked(after.peers())[j].score,
{
    let perm = choose|perm: Seq<int>| #[trigger] ranked_by(before, after.peers(), scores, perm);
    let s = after.peers();
    assert forall|i: int, j: int| 0 <= i < j < s.len() implies #[trigger] s[i].score <= #[trigger] s[j].score by {
        assert(rescored(s[i], before[perm[i]], scores[perm[i]]));
        assert(rescored(s[j], before[perm[j]], scores[perm[j]]));
        assert(scores[perm[i]] < scores[perm[j]] || (scores[perm[i]] == scores[perm[j]] && perm[i] < perm[j]));
    }
    lemma_unmasked_sorted(s);
}

} // verus!
