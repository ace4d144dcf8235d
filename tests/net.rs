use spare::net::{is_valid_ifname, BridgeBuilder, NetError, Tap};

#[test]
fn test_tap() {
    let tap = Tap::named("test_tap").expect("Failed to create tap");
    assert_eq!(tap.name(), "test_tap");
}

#[test]
fn tap_name_limits() {
    assert_eq!(Tap::named("").err(), Some(NetError::InvalidName));
    assert_eq!(Tap::named("0123456789abcdef").err(), Some(NetError::InvalidName));
    assert!(Tap::named("0123456789abcde").is_ok());
    assert!(is_valid_ifname("br0"));
    assert!(!is_valid_ifname(""));
}

#[test]
fn bridge_builder_interfaces() {
    let b = BridgeBuilder::new("hello_br0").interface(Some(3)).interface(None).interface(Some(5)).interface(Some(3));
    assert_eq!(b.interfaces(), &vec![3, 5, 3]);
    let b = b.remove_interface(Some(3)).remove_interface(None);
    assert_eq!(b.interfaces(), &vec![5]);
    let b = b.name("other");
    assert_eq!(b.bridge_name(), "other");
    assert_eq!(b.interfaces(), &vec![5]);
}
