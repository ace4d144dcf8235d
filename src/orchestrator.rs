//! Admission policy: local execution, offload to a peer, or refusal; emergency
//! state of the node; peer selection for offloading.
use vstd::prelude::*;
use crate::api::{InvokeFunction, Resources};
use crate::framing::utf8_of;
use crate::registry::{
    Emergency, NeighborNodeList, NeighborNodeStrategy, Node, Peer, ranked, scores_of, unmasked, UNSCORED,
};
use crate::resources::{LocalResources, OrchestratorError};

verus! {

/// Requests forwarded more often than this are refused.
pub const MAX_HOPS: i32 = 10;

/// What to do with an incoming request.
#[derive(Debug, Clone, Copy, PartialEq, Eq, Structural)]
pub enum Admission {
    /// Forwarded too often; answered with an error, nothing reserved.
    TooManyHops,
    /// Asks for a negative number of CPUs or of MiB; nothing reserved.
    Invalid,
    /// Sent to a peer; nothing reserved.
    Offload,
    /// Run here; the requested CPUs are now reserved.
    Local,
}

/// The admission decision for a request, given the node's state.
pub open spec fn admission_of(
    req: InvokeFunction,
    in_area: bool,
    free_cpus: nat,
    free_memory_kb: nat,
) -> Admission {
    if req.hops > MAX_HOPS {
        Admission::TooManyHops
    } else if req.vcpus < 0 || req.memory < 0 {
        Admission::Invalid
    } else if in_area && !req.emergency {
        Admission::Offload
    } else if req.vcpus <= free_cpus && req.memory * 1024 <= free_memory_kb {
        Admission::Local
    } else {
        Admission::Offload
    }
}

/// The peer a registry starts from for a node the broker announced.
pub open spec fn fresh_peer(n: Node) -> Peer {
    Peer { address: n.address, position: n.position, emergency: false, score: UNSCORED, latency_sum: 0, samples: 0 }
}

/// Whether the `host:port` address `addr` names the host `ip`.
pub open spec fn host_matches(addr: Seq<u8>, ip: Seq<u8>) -> bool {
    &&& ip.len() < addr.len()
    &&& addr.subrange(0, ip.len() as int) == ip
    &&& addr[ip.len() as int] == 58u8
}

/// The request as it is forwarded to a peer: one more hop, nothing else changed.
pub open spec fn forwarded(req: InvokeFunction) -> InvokeFunction {
    InvokeFunction { hops: (req.hops + 1) as i32, ..req }
}

/// Whether a peer reporting `remote` can take `vcpus` CPUs and `memory_mb` MiB.
pub open spec fn can_serve(remote: Resources, vcpus: int, memory_mb: int) -> bool {
    0 <= vcpus <= remote.cpus && 0 <= memory_mb && memory_mb * 1024 <= remote.memory
}

/// The node's policy layer; the only owner of the accountant and the registry.
pub struct Orchestrator {
    in_emergency_area: bool,
    resources: LocalResources,
    identity: Node,
    global_resources: NeighborNodeList,
}

impl Orchestrator {
    /// Whether the node itself lies inside the active emergency disk.
    pub closed spec fn in_area(&self) -> bool {
        self.in_emergency_area
    }

    /// The node's CPU accountant.
    pub closed spec fn accountant(&self) -> LocalResources {
        self.resources
    }

    /// The node's neighbour registry.
    pub closed spec fn registry(&self) -> NeighborNodeList {
        self.global_resources
    }

    /// The node's own identity.
    pub closed spec fn me(&self) -> Node {
        self.identity
    }

    pub closed spec fn wf(&self) -> bool {
        self.resources.wf()
    }

    /// Orchestrator for `identity` with the peers `nodes`, ranked under
    /// `strategy` by `scores` (the score of each node from `identity`).
    pub fn new(
        nodes: Vec<Node>,
        identity: Node,
        strategy: NeighborNodeStrategy,
        resources: LocalResources,
        scores: &Vec<u64>,
    ) -> (r: Self)
        requires
            resources.wf(),
            scores@.len() == nodes@.len(),
        ensures
            r.wf(),
            !r.in_area(),
            r.accountant() == resources,
            r.me() == identity,
            r.registry().spec_strategy() == strategy,
            r.registry().active_emergency() is None,
            strategy != NeighborNodeStrategy::SmartLatency ==> ranked(
                nodes@.map_values(|n: Node| fresh_peer(n)),
                r.registry().peers(),
                scores@,
            ),
            strategy == NeighborNodeStrategy::SmartLatency ==> r.registry().peers() == nodes@.map_values(
                |n: Node| fresh_peer(n),
            ),
    {
        let mut list = NeighborNodeList::new(strategy);
        let mut k: usize = 0;
        while k < nodes.len()
            invariant
                0 <= k <= nodes@.len(),
                list.spec_strategy() == strategy,
                list.active_emergency() is None,
                list.peers() == nodes@.subrange(0, k as int).map_values(|n: Node| fresh_peer(n)),
            decreases nodes@.len() - k,
        {
            let address = nodes[k].address.clone();
            list.add_node(address, nodes[k].position);
            k = k + 1;
            assert(list.peers() == nodes@.subrange(0, k as int).map_values(|n: Node| fresh_peer(n)));
        }
        assert(nodes@.subrange(0, nodes@.len() as int) == nodes@);
        list.sort(scores);
        Orchestrator { in_emergency_area: false, resources, identity, global_resources: list }
    }

    /// The registry's strategy.
    pub fn get_strategy(&self) -> (r: NeighborNodeStrategy)
        ensures
            r == self.registry().spec_strategy(),
    {
        self.global_resources.strategy()
    }

    /// The node's own identity.
    pub fn get_identity(&self) -> (r: &Node)
        ensures
            *r == self.me(),
    {
        &self.identity
    }

    /// Whether the node lies inside the active emergency disk.
    pub fn in_emergency_area(&self) -> (r: bool)
        ensures
            r == self.in_area(),
    {
        self.in_emergency_area
    }

    /// The registry, for reading.
    pub fn neighbors(&self) -> (r: &NeighborNodeList)
        ensures
            *r == self.registry(),
    {
        &self.global_resources
    }

    /// Re-rank the peers under the registry's strategy (see `NeighborNodeList::sort`).
    pub fn sort_nodes(&mut self, scores: &Vec<u64>)
        requires
            scores@.len() == old(self).registry().peers().len(),
        ensures
            final(self).accountant() == old(self).accountant(),
            final(self).in_area() == old(self).in_area(),
            final(self).me() == old(self).me(),
            final(self).wf() == old(self).wf(),
            final(self).registry().spec_strategy() == old(self).registry().spec_strategy(),
            final(self).registry().active_emergency() == old(self).registry().active_emergency(),
            old(self).registry().spec_strategy() != NeighborNodeStrategy::SmartLatency ==> ranked(
                old(self).registry().peers(),
                final(self).registry().peers(),
                scores@,
            ),
            old(self).registry().spec_strategy() == NeighborNodeStrategy::SmartLatency
                && old(self).registry().active_emergency() is Some ==> ranked(
                old(self).registry().peers(),
                final(self).registry().peers(),
                scores_of(old(self).registry().peers()),
            ),
            old(self).registry().spec_strategy() == NeighborNodeStrategy::SmartLatency
                && old(self).registry().active_emergency() is None ==> final(self).registry().peers()
                == old(self).registry().peers(),
    {
        self.global_resources.sort(scores);
    }

    /// Start (`emergency`) or stop an emergency. On start, peers within the
    /// disk are masked (`distances[i]` is the `i`-th peer's distance to the
    /// centre in metres) and the node itself is in the area exactly when its
    /// own distance `own_distance_m` is within the radius. On stop, no peer is
    /// masked and the node is not in the area.
    pub fn set_emergency(&mut self, emergency: bool, em: Emergency, own_distance_m: u64, distances: &Vec<u64>)
        requires
            distances@.len() == old(self).registry().peers().len(),
        ensures
            final(self).accountant() == old(self).accountant(),
            final(self).me() == old(self).me(),
            final(self).wf() == old(self).wf(),
            final(self).registry().spec_strategy() == old(self).registry().spec_strategy(),
            final(self).registry().peers().len() == old(self).registry().peers().len(),
            emergency ==> {
                &&& final(self).in_area() == (own_distance_m <= em.radius_m)
                &&& final(self).registry().active_emergency() == Some(em)
                &&& forall|i: int| 0 <= i < final(self).registry().peers().len() ==>
                    #[trigger] final(self).registry().peers()[i] == (Peer {
                        emergency: distances@[i] <= em.radius_m,
                        ..old(self).registry().peers()[i]
                    })
            },
            !emergency ==> {
                &&& !final(self).in_area()
                &&& final(self).registry().active_emergency() is None
                &&& forall|i: int| 0 <= i < final(self).registry().peers().len() ==>
                    #[trigger] final(self).registry().peers()[i] == (Peer {
                        emergency: false,
                        ..old(self).registry().peers()[i]
                    })
            },
    {
        if emergency {
            self.global_resources.set_emergency(em, distances);
            self.in_emergency_area = own_distance_m <= em.radius_m;
        } else {
            self.global_resources.clear_emergency();
            self.in_emergency_area = false;
        }
    }

    /// Number of peers available for offloading (not masked).
    pub fn number_of_nodes(&self) -> (r: usize)
        ensures
            r == unmasked(self.registry().peers()).len(),
    {
        self.global_resources.count_available()
    }

    /// The `index`-th available peer. Under SimpleCellular the peers are first
    /// re-ranked by `scores`, their freshly estimated latencies; under the
    /// other strategies the present order is used and `scores` is not read.
    pub fn get_remote_nth_node(&mut self, index: usize, scores: &Vec<u64>) -> (r: Option<Peer>)
        requires
            scores@.len() == old(self).registry().peers().len(),
        ensures
            final(self).accountant() == old(self).accountant(),
            final(self).in_area() == old(self).in_area(),
            final(self).me() == old(self).me(),
            final(self).wf() == old(self).wf(),
            final(self).registry().spec_strategy() == old(self).registry().spec_strategy(),
            final(self).registry().active_emergency() == old(self).registry().active_emergency(),
            old(self).registry().spec_strategy() == NeighborNodeStrategy::SimpleCellular ==> ranked(
                old(self).registry().peers(),
                final(self).registry().peers(),
                scores@,
            ),
            old(self).registry().spec_strategy() != NeighborNodeStrategy::SimpleCellular
                ==> final(self).registry().peers() == old(self).registry().peers(),
            index < unmasked(final(self).registry().peers()).len() ==> r == Some(
                unmasked(final(self).registry().peers())[index as int],
            ),
            index >= unmasked(final(self).registry().peers()).len() ==> r is None,
    {
        match self.global_resources.strategy() {
            NeighborNodeStrategy::SimpleCellular => {
                self.global_resources.sort(scores);
            },
            _ => {},
        }
        self.global_resources.get_nth(index)
    }

    /// Free CPUs of the accountant and the free memory the OS reported.
    pub fn get_resources(&self, available_memory_kb: usize) -> (r: Resources)
        ensures
            r.cpus == self.accountant().available(),
            r.memory == available_memory_kb,
    {
        Resources { cpus: self.resources.get_available_cpus(), memory: available_memory_kb }
    }

    /// Reserve `cpus` CPUs if that many are free and `memory_kb` KiB is at most
    /// the free memory the OS reported; otherwise change nothing.
    pub fn check_and_acquire_resources(&mut self, cpus: usize, memory_kb: usize, available_memory_kb: usize) -> (r:
        Result<(), OrchestratorError>)
        requires
            old(self).wf(),
        ensures
            final(self).wf(),
            final(self).in_area() == old(self).in_area(),
            final(self).me() == old(self).me(),
            final(self).registry() == old(self).registry(),
            r is Ok <==> cpus <= old(self).accountant().available() && memory_kb <= available_memory_kb,
            r is Ok ==> final(self).accountant().available() == old(self).accountant().available() - cpus
                && final(self).accountant().reserved() == old(self).accountant().reserved() + cpus
                && final(self).accountant().total() == old(self).accountant().total(),
            r is Err ==> r == Err::<(), _>(OrchestratorError::InsufficientResources)
                && final(self).accountant() == old(self).accountant(),
    {
        if cpus > self.resources.get_available_cpus() {
            return Err(OrchestratorError::InsufficientResources);
        }
        if memory_kb > available_memory_kb {
            return Err(OrchestratorError::InsufficientResources);
        }
        self.resources.acquire_cpus(cpus)
    }

    /// Give back `cpus` CPUs (see `LocalResources::release_cpus`).
    pub fn release_resources(&mut self, cpus: usize) -> (r: Result<(), OrchestratorError>)
        requires
            old(self).wf(),
        ensures
            final(self).wf(),
            final(self).in_area() == old(self).in_area(),
            final(self).me() == old(self).me(),
            final(self).registry() == old(self).registry(),
            final(self).accountant().total() == old(self).accountant().total(),
            r is Ok <==> old(self).accountant().available() + cpus <= old(self).accountant().total(),
            r is Ok ==> final(self).accountant().available() == old(self).accountant().available() + cpus
                && final(self).accountant().reserved() == old(self).accountant().reserved() - cpus,
            r is Err ==> final(self).accountant() == old(self).accountant(),
    {
        self.resources.release_cpus(cpus)
    }

    /// Decide what to do with `req`, given the free memory the OS reported.
    /// Refused when forwarded more than `MAX_HOPS` times or asking for negative
    /// amounts; offloaded when the node is in the emergency area and the
    /// request is not an emergency one, or when the CPUs or memory are
    /// lacking; otherwise run here, with its CPUs reserved.
    pub fn decide_admission(&mut self, req: &InvokeFunction, available_memory_kb: usize) -> (r: Admission)
        requires
            old(self).wf(),
        ensures
            final(self).wf(),
            final(self).in_area() == old(self).in_area(),
            final(self).me() == old(self).me(),
            final(self).registry() == old(self).registry(),
            r == admission_of(*req, old(self).in_area(), old(self).accountant().available(), available_memory_kb as nat),
            r == Admission::Local ==> final(self).accountant().available() == old(self).accountant().available() - req.vcpus
                && final(self).accountant().reserved() == old(self).accountant().reserved() + req.vcpus
                && final(self).accountant().total() == old(self).accountant().total(),
            r != Admission::Local ==> final(self).accountant() == old(self).accountant(),
    {
        if req.hops > MAX_HOPS {
            return Admission::TooManyHops;
        }
        if req.vcpus < 0 || req.memory < 0 {
            return Admission::Invalid;
        }
        if self.in_emergency_area && !req.emergency {
            return Admission::Offload;
        }
        let memory_kb: u64 = req.memory as u64 * 1024;
        if memory_kb > available_memory_kb as u64 {
            return Admission::Offload;
        }
        match self.check_and_acquire_resources(req.vcpus as usize, memory_kb as usize, available_memory_kb) {
            Ok(()) => Admission::Local,
            Err(_) => Admission::Offload,
        }
    }

    /// The first available peer at rank `start` or later whose address is not
    /// on the host `source_ip`, with its rank.
    pub fn next_offload_candidate(&self, start: usize, source_ip: &String) -> (r: Option<(usize, Peer)>)
        ensures
            r matches Some((i, p)) ==> {
                &&& start <= i < unmasked(self.registry().peers()).len()
                &&& p == unmasked(self.registry().peers())[i as int]
                &&& !host_matches(utf8_of(p.address@), utf8_of(source_ip@))
                &&& forall|j: int| start <= j < i ==> host_matches(
                    utf8_of(#[trigger] unmasked(self.registry().peers())[j].address@),
                    utf8_of(source_ip@),
                )
            },
            r is None ==> forall|j: int| start <= j < unmasked(self.registry().peers()).len() ==> host_matches(
                utf8_of(#[trigger] unmasked(self.registry().peers())[j].address@),
                utf8_of(source_ip@),
            ),
    {
        let count = self.global_resources.count_available();
        let mut i: usize = start;
        while i < count
            invariant
                start <= i,
                count == unmasked(self.registry().peers()).len(),
                forall|j: int| start <= j < i ==> host_matches(
                    utf8_of(#[trigger] unmasked(self.registry().peers())[j].address@),
                    utf8_of(source_ip@),
                ),
            decreases count - i,
        {
            match self.global_resources.get_nth(i) {
                Some(p) => {
                    if !shares_host(&p.address, source_ip) {
                        return Some((i, p));
                    }
                },
                None => {},
            }
            i = i + 1;
        }
        None
    }
}

/// Whether the `host:port` address `address` names the host `ip`.
pub fn shares_host(address: &String, ip: &String) -> (r: bool)
    ensures
        r == host_matches(utf8_of(address@), utf8_of(ip@)),
{
    let a = address.as_str().as_bytes();
    let b = ip.as_str().as_bytes();
    assert(a@ == utf8_of(address@));
    assert(b@ == utf8_of(ip@));
    if b.len() >= a.len() {
        return false;
    }
    let mut k: usize = 0;
    while k < b.len()
        invariant
            0 <= k <= b@.len(),
            b@.len() < a@.len(),
            a@ == utf8_of(address@),
            b@ == utf8_of(ip@),
            forall|m: int| 0 <= m < k ==> a@[m] == b@[m],
        decreases b@.len() - k,
    {
        if a[k] != b[k] {
            assert(a@.subrange(0, b@.len() as int)[k as int] != b@[k as int]);
            assert(a@.subrange(0, b@.len() as int) != b@);
            return false;
        }
        k = k + 1;
    }
    assert(a@.subrange(0, b@.len() as int) == b@);
    a[b.len()] == 58u8
}

/// The request as forwarded to a peer: the hop counter one higher.
pub fn forward_request(req: &InvokeFunction) -> (r: InvokeFunction)
    requires
        req.hops < i32::MAX,
    ensures
        r == forwarded(*req),
        r.hops == req.hops + 1,
{
    let mut out = req.clone();
    out.hops = req.hops + 1;
    out
}

/// Whether a peer reporting `remote` has room for `vcpus` CPUs and `memory_mb` MiB.
pub fn peer_can_serve(remote: &Resources, vcpus: i32, memory_mb: i32) -> (r: bool)
    ensures
        r == can_serve(*remote, vcpus as int, memory_mb as int),
{
    if vcpus < 0 || memory_mb < 0 {
        return false;
    }
    let need_kb: u64 = memory_mb as u64 * 1024;
    (vcpus as u64) <= remote.cpus as u64 && need_kb <= remote.memory as u64
}

} // verus!
