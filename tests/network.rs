use knast::network::{AddressPool, NetworkError, NetworkState, Subnet};

fn ip(a: u32, b: u32, c: u32, d: u32) -> u32 {
    (a << 24) | (b << 16) | (c << 8) | d
}

#[test]
fn test_range() {
    let subnet = Subnet::parse("172.24.0.2/16").unwrap();
    let mut result = AddressPool::range(subnet);
    assert_eq!(result.len(), 256 * 256);
    assert_eq!(result.pop(), Some(ip(172, 24, 255, 255)));
    assert_eq!(result.pop(), Some(ip(172, 24, 255, 254)));
}

#[test]
fn test_broadcast() {
    let result = Subnet::parse("172.24.0.2/16").unwrap().broadcast();
    assert_eq!(result, ip(172, 24, 255, 255));
}

#[test]
fn test_mask() {
    let result = Subnet::parse("172.24.0.2/16").unwrap().mask();
    assert_eq!(result, ip(255, 255, 0, 0));
}

#[test]
fn parse_keeps_address_and_prefix() {
    let subnet = Subnet::parse("172.24.0.2/16").unwrap();
    assert_eq!(subnet, Subnet { addr: ip(172, 24, 0, 2), prefix: 16 });
    assert_eq!(subnet.network(), ip(172, 24, 0, 0));
    assert_eq!(Subnet::parse("not a network"), Err(NetworkError::InvalidNetwork));
    assert_eq!(Subnet::parse("10.0.0.0/33"), Err(NetworkError::InvalidNetwork));
}

#[test]
fn masks_at_the_edges() {
    assert_eq!(Subnet { addr: ip(10, 1, 2, 3), prefix: 0 }.mask(), 0);
    assert_eq!(Subnet { addr: ip(10, 1, 2, 3), prefix: 32 }.mask(), u32::MAX);
    assert_eq!(Subnet { addr: ip(10, 1, 2, 3), prefix: 32 }.broadcast(), ip(10, 1, 2, 3));
}

#[test]
fn get_address_skips_broadcast() {
    let mut pool = AddressPool::range(Subnet::parse("10.0.0.0/30").unwrap());
    assert_eq!(pool.get_address(), Ok(ip(10, 0, 0, 2)));
    assert_eq!(pool.get_address(), Ok(ip(10, 0, 0, 1)));
    assert_eq!(pool.get_address(), Ok(ip(10, 0, 0, 0)));
    assert_eq!(pool.get_address(), Err(NetworkError::NoAddressesLeft));
}

#[test]
fn allocations_return_to_the_pool_once() {
    let mut state = NetworkState::new(Subnet::parse("10.0.0.0/29").unwrap());
    let before = state.pool.len();
    let (host, container) = state.allocate(b"web", "epair0a".to_string()).unwrap();
    assert_eq!((host, container), (ip(10, 0, 0, 6), ip(10, 0, 0, 5)));
    assert_eq!(state.allocate(b"web", "epair1a".to_string()), Err(NetworkError::AlreadyAllocated));
    let released = state.teardown(b"web").unwrap();
    assert_eq!((released.host, released.container), (host, container));
    assert_eq!(released.interface, "epair0a");
    // The broadcast address was passed over and does not come back.
    assert_eq!(state.pool.len(), before - 1);
    state.pool.free_address(host);
    assert_eq!(state.pool.len(), before - 1);
    assert!(state.teardown(b"web").is_err());
}
