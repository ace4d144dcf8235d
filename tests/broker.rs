use spare::broker::{controller_action, split_identity, ControllerAction, Operation};
use spare::registry::{Node, Position};

fn node(addr: &str) -> Node {
    Node { address: addr.to_string(), position: Position { lat_e6: 1, lon_e6: 2 } }
}

#[test]
fn controller_actions() {
    assert_eq!(controller_action(Operation::START_EMERGENCY, true, false), ControllerAction::StartEmergency);
    assert_eq!(controller_action(Operation::START_EMERGENCY, false, false), ControllerAction::Ignore);
    assert_eq!(controller_action(Operation::STOP_EMERGENCY, false, false), ControllerAction::StopEmergency);
    assert_eq!(controller_action(Operation::WRITE_STATS, false, true), ControllerAction::WriteStats);
    assert_eq!(controller_action(Operation::WRITE_STATS, false, false), ControllerAction::Ignore);
    assert_eq!(controller_action(Operation::END, false, false), ControllerAction::Stop);
    assert_eq!(controller_action(Operation::ADD_NODES, false, false), ControllerAction::Ignore);
}

#[test]
fn identity_is_taken_out() {
    let nodes = vec![node("a:1"), node("me:2"), node("b:3"), node("me:2")];
    let (me, rest) = split_identity(nodes, &"me:2".to_string()).unwrap();
    assert_eq!(me.address, "me:2");
    let names: Vec<&str> = rest.iter().map(|n| n.address.as_str()).collect();
    assert_eq!(names, vec!["a:1", "b:3", "me:2"]);
    assert!(split_identity(vec![node("a:1")], &"me:2".to_string()).is_none());
}

#[test]
fn node_constructor() {
    let n = Node::new("h:1".to_string(), Position { lat_e6: -5, lon_e6: 7 });
    assert_eq!(n.address, "h:1");
    assert_eq!(n.position, Position { lat_e6: -5, lon_e6: 7 });
}
