use longitude::Location;
use rand_distr::{Distribution, Exp};
use spare::cellular::{cellular_hops, cellular_latency_ns, estimate_is_stale};
use spare::registry::{NeighborNodeList, NeighborNodeStrategy, Position};

fn pos(lat: f64, lon: f64) -> Position {
    Position { lat_e6: (lat * 1e6).round() as i64, lon_e6: (lon * 1e6).round() as i64 }
}

fn metres(a: Position, b: Position) -> u64 {
    let la = Location::from(a.lat_e6 as f64 / 1e6, a.lon_e6 as f64 / 1e6);
    let lb = Location::from(b.lat_e6 as f64 / 1e6, b.lon_e6 as f64 / 1e6);
    la.distance(&lb).meters().ceil() as u64
}

fn modelled(d: u64) -> u64 {
    let (a, b) = cellular_hops(d);
    let exp = Exp::new(1.0 / 0.0005).unwrap();
    let q: Vec<u64> = (0..(a + b)).map(|_| (exp.sample(&mut rand::thread_rng()) * 1e9) as u64).collect();
    cellular_latency_ns(d, &q)
}

#[test]
fn test_sort_by_latency() {
    let mut list = NeighborNodeList::new(NeighborNodeStrategy::SimpleCellular);
    list.add_node("node3".to_string(), pos(35.6764, 139.650));
    list.add_node("node2".to_string(), pos(40.7128, 74.0060));
    list.add_node("node1".to_string(), pos(48.8575, 2.3514));
    let current = pos(45.4685, 9.1824);
    let lat: Vec<u64> = (0..list.len()).map(|i| modelled(metres(list.node(i).position, current))).collect();
    list.sort(&lat);
    assert_eq!(list.node(0).address, "node1");
}

#[test]
fn hops_by_distance() {
    assert_eq!(cellular_hops(0), (1, 0));
    assert_eq!(cellular_hops(500), (1, 0));
    assert_eq!(cellular_hops(501), (2, 1));
    assert_eq!(cellular_hops(10500), (2, 1));
    assert_eq!(cellular_hops(10501), (2, 2));
}

#[test]
fn latency_formula_exact() {
    // 300 m: air 300*10/3 = 1000 ns, one access transmission, one queue sample.
    assert_eq!(cellular_latency_ns(300, &vec![7]), 1000 + 120000 + 7);
    // 20500 m: air 500*10*2/3 = 3333 ns, fibre 20000*5 = 100000 ns,
    // two access and two backhaul transmissions, four queue samples.
    assert_eq!(cellular_latency_ns(20500, &vec![1, 2, 3, 4]), 3333 + 100000 + 240000 + 2400 + 10);
}

#[test]
fn latency_saturates() {
    assert_eq!(cellular_latency_ns(0, &vec![u64::MAX]), u64::MAX);
    assert_eq!(cellular_latency_ns(0, &vec![u64::MAX - 120000]), u64::MAX);
    assert_eq!(cellular_latency_ns(0, &vec![u64::MAX - 120001]), u64::MAX - 1);
}

#[test]
fn estimate_staleness() {
    assert!(estimate_is_stale(0, 0, 0));
    assert!(!estimate_is_stale(5, 1000, 61000));
    assert!(estimate_is_stale(5, 1000, 61001));
}
