use spare::addresses::{AddressError, Addresses};

fn ip(a: u8, b: u8, c: u8, d: u8) -> u32 {
    u32::from_be_bytes([a, b, c, d])
}

#[test]
fn pool_hands_out_every_host_once() {
    let mut pool = Addresses::new(ip(192, 168, 1, 0), 24).unwrap();
    let mut seen = Vec::new();
    while let Some(a) = pool.get() {
        assert!(!seen.contains(&a));
        seen.push(a);
    }
    assert_eq!(seen.len(), 254);
    assert_eq!(seen[0], ip(192, 168, 1, 254));
    assert_eq!(seen[253], ip(192, 168, 1, 1));
}

#[test]
fn released_address_comes_back() {
    let mut pool = Addresses::new(ip(192, 168, 1, 0), 24).unwrap();
    let a = pool.get().unwrap();
    let b = pool.get().unwrap();
    assert_ne!(a, b);
    pool.release(a);
    assert_eq!(pool.get(), Some(a));
}

#[test]
fn release_ignores_foreign_and_free_addresses() {
    let mut pool = Addresses::new(ip(10, 0, 0, 0), 30).unwrap();
    // A /30 has two usable hosts.
    pool.release(ip(10, 0, 1, 1));
    pool.release(ip(10, 0, 0, 1));
    assert_eq!(pool.get(), Some(ip(10, 0, 0, 2)));
    assert_eq!(pool.get(), Some(ip(10, 0, 0, 1)));
    assert_eq!(pool.get(), None);
}

#[test]
fn pool_network_facts() {
    let pool = Addresses::new(ip(192, 168, 30, 77), 24).unwrap();
    assert_eq!(pool.get_gateway(), ip(192, 168, 30, 1));
    assert_eq!(pool.get_netmask(), ip(255, 255, 255, 0));
    let single = Addresses::new(ip(10, 1, 2, 3), 32).unwrap();
    assert_eq!(single.get_gateway(), ip(10, 1, 2, 3));
    assert_eq!(single.get_netmask(), u32::MAX);
}

#[test]
fn pool_rejects_bad_prefix() {
    assert_eq!(Addresses::new(ip(10, 0, 0, 0), 33).err(), Some(AddressError::InvalidPrefix));
    assert_eq!(Addresses::new(ip(10, 0, 0, 0), 0).err(), Some(AddressError::InvalidPrefix));
}
