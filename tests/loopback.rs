use kubef::loopback::{LoopbackError, LoopbackNet, SocketPool};
use kubef::net::{Address, SocketAddress};

fn v4(a: u8, b: u8, c: u8, d: u8) -> Address {
    Address::V4(u32::from_be_bytes([a, b, c, d]))
}

#[test]
fn pool_without_network_gives_localhost() {
    let mut pool = SocketPool::new().with_loopback(None);
    for _ in 0..3 {
        let g = pool.get_loopback().unwrap();
        assert_eq!(g.address, v4(127, 0, 0, 1));
        assert!(g.token.is_none());
    }
}

#[test]
fn pool_hands_out_distinct_loopback_addresses() {
    let net = LoopbackNet::new(v4(127, 0, 0, 1), 29).unwrap();
    let mut pool = SocketPool::new().with_loopback(Some(net));
    let mut seen = Vec::new();
    for expected in 1..=3u8 {
        let g = pool.get_loopback().unwrap();
        assert_eq!(g.address, v4(127, 0, 0, expected));
        assert_eq!(g.token.as_ref().unwrap().address(), g.address);
        let bind = g.bind_address(Some(8080));
        assert_eq!(bind, SocketAddress { ip: v4(127, 0, 0, expected), port: 8080 });
        assert_eq!(
            g.token.unwrap().unalias_args(),
            vec!["lo0".to_string(), "-alias".to_string(), format!("127.0.0.{expected}")]
        );
        assert!(!seen.contains(&g.address));
        seen.push(g.address);
    }
}

#[test]
fn pool_is_exhausted_after_the_last_host() {
    let net = LoopbackNet::new(v4(127, 0, 0, 0), 29).unwrap();
    let mut pool = SocketPool::new().with_loopback(Some(net));
    for expected in 1..=6u8 {
        assert_eq!(pool.get_loopback().unwrap().address, v4(127, 0, 0, expected));
    }
    assert_eq!(pool.get_loopback().unwrap_err(), LoopbackError::NoMoreLoopbackAddresses);
    assert_eq!(pool.get_loopback().unwrap_err(), LoopbackError::NoMoreLoopbackAddresses);
}

#[test]
fn short_networks_keep_every_address() {
    let net = LoopbackNet::new(v4(127, 0, 0, 4), 31).unwrap();
    let mut pool = SocketPool::new().with_loopback(Some(net));
    assert_eq!(pool.get_loopback().unwrap().address, v4(127, 0, 0, 4));
    assert_eq!(pool.get_loopback().unwrap().address, v4(127, 0, 0, 5));
    assert!(pool.get_loopback().is_err());

    let net = LoopbackNet::new(Address::V6(1), 128).unwrap();
    let mut pool = SocketPool::new().with_loopback(Some(net));
    assert_eq!(pool.get_loopback().unwrap().address, Address::V6(1));
    assert_eq!(pool.get_loopback().unwrap_err(), LoopbackError::NoMoreLoopbackAddresses);
}

#[test]
fn non_loopback_network_is_refused() {
    let net = LoopbackNet::new(v4(10, 0, 0, 0), 30).unwrap();
    let mut pool = SocketPool::new().with_loopback(Some(net));
    assert_eq!(pool.get_loopback().unwrap_err(), LoopbackError::NotLoopback(v4(10, 0, 0, 1)));
    assert_eq!(pool.get_loopback().unwrap_err(), LoopbackError::NotLoopback(v4(10, 0, 0, 2)));
    assert_eq!(pool.get_loopback().unwrap_err(), LoopbackError::NoMoreLoopbackAddresses);
}

#[test]
fn prefix_longer_than_the_family_is_refused() {
    assert_eq!(LoopbackNet::new(v4(127, 0, 0, 1), 33).unwrap_err(), LoopbackError::PrefixTooLong);
    assert_eq!(LoopbackNet::new(Address::V6(1), 129).unwrap_err(), LoopbackError::PrefixTooLong);
    let n = LoopbackNet::new(Address::V6(1), 128).unwrap();
    assert_eq!(n.addr(), Address::V6(1));
    assert_eq!(n.prefix(), 128);
}

#[test]
fn token_alias_commands_come_in_pairs() {
    let net = LoopbackNet::new(v4(127, 0, 0, 8), 29).unwrap();
    let mut pool = SocketPool::new().with_loopback(Some(net));
    let token = pool.get_loopback().unwrap().token.unwrap();
    assert_eq!(token.alias_args(), vec!["lo0", "alias", "127.0.0.9"]);
    assert_eq!(token.unalias_args(), vec!["lo0", "-alias", "127.0.0.9"]);
}

#[test]
fn loopback_check_per_family() {
    assert!(v4(127, 255, 0, 3).is_loopback());
    assert!(!v4(128, 0, 0, 1).is_loopback());
    assert!(Address::V6(1).is_loopback());
    assert!(!Address::V6(2).is_loopback());
}

#[test]
fn bind_address_defaults_to_any_port() {
    let mut pool = SocketPool::new();
    let g = pool.get_loopback().unwrap();
    assert_eq!(g.bind_address(None), SocketAddress { ip: v4(127, 0, 0, 1), port: 0 });
}
