use spare::api::{InvokeFunction, Resources};
use spare::orchestrator::{forward_request, peer_can_serve, shares_host, Admission, Orchestrator};
use spare::registry::{Emergency, NeighborNodeStrategy, Node, Position};
use spare::resources::{LocalResources, OrchestratorError};

fn origin() -> Position {
    Position { lat_e6: 0, lon_e6: 0 }
}

fn request(vcpus: i32, memory: i32, hops: i32) -> InvokeFunction {
    InvokeFunction {
        function: "f".to_string(),
        image: "img".to_string(),
        vcpus,
        memory,
        payload: None,
        emergency: false,
        hops,
    }
}

fn node(addr: &str) -> Node {
    Node { address: addr.to_string(), position: origin() }
}

fn orchestrator(cpus: usize, peers: Vec<Node>) -> Orchestrator {
    let scores = vec![0u64; peers.len()];
    Orchestrator::new(peers, node("10.0.0.1:8085"), NeighborNodeStrategy::GeoDistance, LocalResources::with_cpus(cpus), &scores)
}

#[test]
fn local_admit_without_payload() {
    let mut o = orchestrator(4, vec![]);
    let req = request(1, 64, 0);
    assert_eq!(o.decide_admission(&req, 1 << 20), Admission::Local);
    assert_eq!(o.get_resources(0).cpus, 3);
    assert_eq!(o.release_resources(1), Ok(()));
    assert_eq!(o.get_resources(0).cpus, 4);
}

#[test]
fn admission_offload_when_cpus_held() {
    let mut o = orchestrator(2, vec![node("10.0.0.2:8085")]);
    assert_eq!(o.check_and_acquire_resources(2, 0, 0), Ok(()));
    let req = request(2, 64, 0);
    assert_eq!(o.decide_admission(&req, 1 << 30), Admission::Offload);
    assert_eq!(o.get_resources(0).cpus, 0);
    let (i, peer) = o.next_offload_candidate(0, &"10.0.0.9".to_string()).unwrap();
    assert_eq!(i, 0);
    assert_eq!(peer.address, "10.0.0.2:8085");
    assert!(peer_can_serve(&Resources { cpus: 4, memory: 999999999 }, req.vcpus, req.memory));
    let fwd = forward_request(&req);
    assert_eq!(fwd.hops, 1);
    assert_eq!(fwd.vcpus, 2);
    assert_eq!(fwd.function, "f");
}

#[test]
fn too_many_hops() {
    let mut o = orchestrator(4, vec![]);
    assert_eq!(o.decide_admission(&request(1, 64, 11), 1 << 20), Admission::TooManyHops);
    assert_eq!(o.get_resources(0).cpus, 4);
    assert_eq!(o.decide_admission(&request(1, 64, 10), 1 << 20), Admission::Local);
}

#[test]
fn negative_request_is_invalid() {
    let mut o = orchestrator(4, vec![]);
    assert_eq!(o.decide_admission(&request(-1, 64, 0), 1 << 20), Admission::Invalid);
    assert_eq!(o.decide_admission(&request(1, -64, 0), 1 << 20), Admission::Invalid);
    assert_eq!(o.get_resources(0).cpus, 4);
}

#[test]
fn memory_is_checked_not_counted() {
    let mut o = orchestrator(4, vec![]);
    assert_eq!(o.decide_admission(&request(1, 64, 0), 64 * 1024 - 1), Admission::Offload);
    assert_eq!(o.decide_admission(&request(1, 64, 0), 64 * 1024), Admission::Local);
    assert_eq!(o.decide_admission(&request(1, 64, 0), 64 * 1024), Admission::Local);
    assert_eq!(o.get_resources(77).memory, 77);
    assert_eq!(o.check_and_acquire_resources(1, 10, 9), Err(OrchestratorError::InsufficientResources));
}

#[test]
fn emergency_area_offloads_ordinary_requests() {
    let mut o = orchestrator(4, vec![node("10.0.0.2:8085")]);
    let em = Emergency { position: origin(), radius_m: 1000 };
    o.set_emergency(true, em, 10, &vec![5000]);
    assert!(o.in_emergency_area());
    assert_eq!(o.number_of_nodes(), 1);
    assert_eq!(o.decide_admission(&request(1, 64, 0), 1 << 20), Admission::Offload);
    let mut urgent = request(1, 64, 0);
    urgent.emergency = true;
    assert_eq!(o.decide_admission(&urgent, 1 << 20), Admission::Local);
    o.set_emergency(false, em, 0, &vec![0]);
    assert!(!o.in_emergency_area());
}

#[test]
fn emergency_outside_disk_keeps_node_available() {
    let mut o = orchestrator(4, vec![node("10.0.0.2:8085"), node("10.0.0.3:8085")]);
    o.set_emergency(true, Emergency { position: origin(), radius_m: 100 }, 101, &vec![50, 150]);
    assert!(!o.in_emergency_area());
    assert_eq!(o.number_of_nodes(), 1);
    assert_eq!(o.get_remote_nth_node(0, &vec![0, 0]).unwrap().address, "10.0.0.3:8085");
    assert!(o.get_remote_nth_node(1, &vec![0, 0]).is_none());
}

#[test]
fn offload_skips_requester() {
    let o = orchestrator(4, vec![node("10.0.0.2:8085"), node("10.0.0.21:8085")]);
    let (i, p) = o.next_offload_candidate(0, &"10.0.0.2".to_string()).unwrap();
    assert_eq!(i, 1);
    assert_eq!(p.address, "10.0.0.21:8085");
    assert!(o.next_offload_candidate(2, &"10.0.0.2".to_string()).is_none());
    assert!(shares_host(&"10.0.0.2:8085".to_string(), &"10.0.0.2".to_string()));
    assert!(!shares_host(&"10.0.0.21:8085".to_string(), &"10.0.0.2".to_string()));
}

#[test]
fn peer_capacity_check() {
    let r = Resources { cpus: 2, memory: 2048 };
    assert!(peer_can_serve(&r, 2, 2));
    assert!(!peer_can_serve(&r, 3, 2));
    assert!(!peer_can_serve(&r, 2, 3));
    assert!(!peer_can_serve(&r, -1, 0));
}

#[test]
fn strategy_and_identity() {
    let o = orchestrator(1, vec![]);
    assert_eq!(o.get_strategy(), NeighborNodeStrategy::GeoDistance);
    assert_eq!(o.get_identity().address, "10.0.0.1:8085");
}
