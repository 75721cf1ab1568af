use kubef::net::{Address, SocketAddress, push_digits};

#[test]
fn ipv4_text() {
    assert_eq!(Address::V4(0).to_text(), "0.0.0.0");
    assert_eq!(Address::V4(u32::MAX).to_text(), "255.255.255.255");
    assert_eq!(Address::V4(0x7f00_0001).to_text(), "127.0.0.1");
    assert_eq!(Address::V4(u32::from_be_bytes([10, 20, 0, 105])).to_text(), "10.20.0.105");
}

#[test]
fn ipv6_text() {
    assert_eq!(Address::V6(1).to_text(), "0:0:0:0:0:0:0:1");
    assert_eq!(Address::V6(0xfd00_0000_0000_0000_0000_0000_0abc_ffff).to_text(), "fd00:0:0:0:0:0:abc:ffff");
    assert_eq!(Address::V6(u128::MAX).to_text(), "ffff:ffff:ffff:ffff:ffff:ffff:ffff:ffff");
}

#[test]
fn socket_address_text() {
    let a = SocketAddress { ip: Address::V4(0x7f00_0001), port: 15432 };
    assert_eq!(a.to_text(), "127.0.0.1:15432");
    let b = SocketAddress { ip: Address::V6(1), port: 0 };
    assert_eq!(b.to_text(), "[0:0:0:0:0:0:0:1]:0");
}

#[test]
fn digits_in_bases() {
    let mut s = String::from("x");
    push_digits(&mut s, 65535, 16);
    assert_eq!(s, "xffff");
    let mut s = String::new();
    push_digits(&mut s, 0, 10);
    push_digits(&mut s, 8080, 10);
    assert_eq!(s, "08080");
}
