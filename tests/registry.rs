use longitude::Location;
use spare::registry::{Emergency, NeighborNodeList, NeighborNodeStrategy, Position, UNSCORED};

fn pos(lat: f64, lon: f64) -> Position {
    Position { lat_e6: (lat * 1e6).round() as i64, lon_e6: (lon * 1e6).round() as i64 }
}

fn metres(a: Position, b: Position) -> u64 {
    let la = Location::from(a.lat_e6 as f64 / 1e6, a.lon_e6 as f64 / 1e6);
    let lb = Location::from(b.lat_e6 as f64 / 1e6, b.lon_e6 as f64 / 1e6);
    la.distance(&lb).meters().ceil() as u64
}

fn distances_to(list: &NeighborNodeList, p: Position) -> Vec<u64> {
    (0..list.len()).map(|i| metres(list.node(i).position, p)).collect()
}

fn masked_count(list: &NeighborNodeList) -> usize {
    (0..list.len()).filter(|&i| list.node(i).emergency).count()
}

#[test]
fn test_add_node() {
    let mut list = NeighborNodeList::new(NeighborNodeStrategy::GeoDistance);
    list.add_node("node1".to_string(), pos(0.0, 0.0));
    list.add_node("node2".to_string(), pos(1.0, 1.0));
    list.add_node("node3".to_string(), pos(2.0, 2.0));
    assert_eq!(list.len(), 3);
}

#[test]
fn test_set_emergency() {
    let mut list = NeighborNodeList::new(NeighborNodeStrategy::GeoDistance);
    list.add_node("node1".to_string(), pos(0.0, 0.0));
    list.add_node("node2".to_string(), pos(1.0, 1.0));
    list.add_node("node3".to_string(), pos(2.0, 2.0));
    let emergency = Emergency { position: pos(0.0, 0.0), radius_m: 100 };
    let d = distances_to(&list, emergency.position);
    list.set_emergency(emergency, &d);
    assert_eq!(masked_count(&list), 1);
}

#[test]
fn test_clean_emergency() {
    let mut list = NeighborNodeList::new(NeighborNodeStrategy::GeoDistance);
    list.add_node("node1".to_string(), pos(0.0, 0.0));
    list.add_node("node2".to_string(), pos(1.0, 1.0));
    list.add_node("node3".to_string(), pos(2.0, 2.0));
    let emergency = Emergency { position: pos(0.0, 0.0), radius_m: 100 };
    let d = distances_to(&list, emergency.position);
    list.set_emergency(emergency, &d);
    list.clear_emergency();
    assert_eq!(masked_count(&list), 0);
    assert!(list.emergency().is_none());
}

#[test]
fn test_sort_by_distance() {
    let mut list = NeighborNodeList::new(NeighborNodeStrategy::GeoDistance);
    list.add_node("node3".to_string(), pos(35.6764, 139.650));
    list.add_node("node2".to_string(), pos(40.7128, 74.0060));
    list.add_node("node1".to_string(), pos(48.8575, 2.3514));
    let current = pos(45.4685, 9.1824);
    let d = distances_to(&list, current);
    list.sort_by_distance(&d);
    assert_eq!(list.node(0).address, "node1");
}

#[test]
fn emergency_mask_skips_peers_inside_disk() {
    let mut list = NeighborNodeList::new(NeighborNodeStrategy::GeoDistance);
    list.add_node("origin".to_string(), pos(0.0, 0.0));
    list.add_node("nearby".to_string(), pos(0.0, 0.01));
    list.add_node("distant".to_string(), pos(10.0, 10.0));
    let em = Emergency { position: pos(0.0, 0.0), radius_m: 2000 };
    let d = distances_to(&list, em.position);
    list.set_emergency(em, &d);
    assert_eq!(list.count_available(), 1);
    assert_eq!(list.get_nth(0).unwrap().address, "distant");
    assert!(list.get_nth(1).is_none());
}

#[test]
fn emergency_mask_radius_is_inclusive() {
    let mut list = NeighborNodeList::new(NeighborNodeStrategy::GeoDistance);
    list.add_node("a".to_string(), pos(0.0, 0.0));
    list.add_node("b".to_string(), pos(0.0, 0.0));
    let em = Emergency { position: pos(0.0, 0.0), radius_m: 500 };
    list.set_emergency(em, &vec![500, 501]);
    assert!(list.node(0).emergency);
    assert!(!list.node(1).emergency);
    // A second emergency recomputes every mask.
    list.set_emergency(em, &vec![501, 500]);
    assert!(!list.node(0).emergency);
    assert!(list.node(1).emergency);
}

#[test]
fn rank_is_stable_for_equal_scores() {
    let mut list = NeighborNodeList::new(NeighborNodeStrategy::GeoDistance);
    for name in ["a", "b", "c", "d"] {
        list.add_node(name.to_string(), pos(0.0, 0.0));
    }
    list.sort_by_latency(&vec![7, 3, 7, 3]);
    let order: Vec<String> = (0..4).map(|i| list.node(i).address.clone()).collect();
    assert_eq!(order, vec!["b", "d", "a", "c"]);
    assert_eq!(list.stored_scores(), vec![3, 3, 7, 7]);
}

#[test]
fn nth_scores_ascend_after_sort() {
    let mut list = NeighborNodeList::new(NeighborNodeStrategy::GeoDistance);
    for (i, s) in [50u64, 10, 40, 20, 30].iter().enumerate() {
        list.add_node(format!("n{}", i), pos(0.0, 0.0));
        let _ = s;
    }
    list.set_emergency(Emergency { position: pos(0.0, 0.0), radius_m: 5 }, &vec![100, 1, 100, 100, 100]);
    list.sort(&vec![50, 10, 40, 20, 30]);
    let n = list.count_available();
    assert_eq!(n, 4);
    let scores: Vec<u64> = (0..n).map(|i| list.get_nth(i).unwrap().score).collect();
    assert_eq!(scores, vec![20, 30, 40, 50]);
}

#[test]
fn smart_latency_keeps_order_without_emergency() {
    let mut list = NeighborNodeList::new(NeighborNodeStrategy::SmartLatency);
    list.add_node("slow".to_string(), pos(0.0, 0.0));
    list.add_node("fast".to_string(), pos(0.0, 0.0));
    assert!(list.update_observed_latency(&"slow".to_string(), 90));
    assert!(list.update_observed_latency(&"fast".to_string(), 10));
    list.sort(&vec![0, 0]);
    assert_eq!(list.node(0).address, "slow");
    list.set_emergency(Emergency { position: pos(0.0, 0.0), radius_m: 0 }, &vec![1, 1]);
    list.sort(&vec![0, 0]);
    assert_eq!(list.node(0).address, "fast");
}

#[test]
fn smart_latency_running_mean() {
    let mut list = NeighborNodeList::new(NeighborNodeStrategy::SmartLatency);
    list.add_node("p".to_string(), pos(0.0, 0.0));
    assert_eq!(list.node(0).score, UNSCORED);
    assert!(list.update_observed_latency(&"p".to_string(), 10));
    assert!(list.update_observed_latency(&"p".to_string(), 21));
    assert_eq!(list.node(0).samples, 2);
    assert_eq!(list.node(0).latency_sum, 31);
    assert_eq!(list.node(0).score, 15);
    assert!(!list.update_observed_latency(&"q".to_string(), 5));
    assert!(!list.update_observed_latency(&"p".to_string(), u64::MAX));
}

#[test]
fn latency_samples_need_smart_latency() {
    let mut list = NeighborNodeList::new(NeighborNodeStrategy::GeoDistance);
    list.add_node("p".to_string(), pos(0.0, 0.0));
    assert!(!list.update_observed_latency(&"p".to_string(), 10));
    assert_eq!(list.node(0).samples, 0);
}
