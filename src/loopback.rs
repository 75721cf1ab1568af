//! The loopback pool: distinct loopback addresses drawn from an optional
//! network, each handed out with a token that stands for its OS alias.

use vstd::arithmetic::power2::pow2;
use vstd::prelude::*;

use crate::net::{Address, SocketAddress, LOCALHOST_V4, address_text, is_loopback_spec};

verus! {

/// An IP network in CIDR form: an address and a prefix length that fits
/// its family.
#[derive(Clone, Copy, Debug, PartialEq, Eq, Structural)]
pub struct LoopbackNet {
    addr: Address,
    prefix: u8,
}

/// Errors of the loopback pool.
#[derive(Clone, Copy, Debug, PartialEq, Eq, Structural)]
pub enum LoopbackError {
    /// The prefix length is longer than the address family allows.
    PrefixTooLong,
    /// Every host address of the network has been handed out.
    NoMoreLoopbackAddresses,
    /// The next host address of the network is not a loopback address.
    NotLoopback(Address),
}

/// Number of bits of an address of the family of `a`.
pub open spec fn address_bits(a: Address) -> nat {
    match a {
        Address::V4(_) => 32,
        Address::V6(_) => 128,
    }
}

/// The integer value of an address.
pub open spec fn address_value(a: Address) -> nat {
    match a {
        Address::V4(v) => v as nat,
        Address::V6(v) => v as nat,
    }
}

/// The address of the family of `a` with value `v`.
pub open spec fn address_of_family(a: Address, v: int) -> Address {
    match a {
        Address::V4(_) => Address::V4(v as u32),
        Address::V6(_) => Address::V6(v as u128),
    }
}

/// Host addresses of a network, in increasing order: every address of the
/// block but, for an IPv4 prefix shorter than 31, the first and the last.
pub open spec fn hosts_spec(addr: Address, prefix: nat) -> Seq<Address> {
    let block = pow2((address_bits(addr) - prefix) as nat);
    let network = address_value(addr) - address_value(addr) % block;
    let trim: int = if address_bits(addr) == 32 && prefix < 31 { 1 } else { 0 };
    let lo = network + trim;
    let hi = network + block - 1 - trim;
    Seq::new((hi - lo + 1) as nat, |i: int| address_of_family(addr, lo + i))
}

impl LoopbackNet {
    #[verifier::type_invariant]
    spec fn prefix_fits(&self) -> bool {
        self.prefix as nat <= address_bits(self.addr)
    }

    pub closed spec fn addr_spec(&self) -> Address {
        self.addr
    }

    pub closed spec fn prefix_spec(&self) -> nat {
        self.prefix as nat
    }

    /// The host addresses of the network, in the order they are handed out.
    pub open spec fn hosts(&self) -> Seq<Address> {
        hosts_spec(self.addr_spec(), self.prefix_spec())
    }

    /// A network from an address and a prefix length; fails where the
    /// prefix is longer than the address.
    pub fn new(addr: Address, prefix: u8) -> (r: Result<LoopbackNet, LoopbackError>)
        ensures
            prefix as nat <= address_bits(addr) <==> r is Ok,
            r matches Ok(n) ==> n.addr_spec() == addr && n.prefix_spec() == prefix as nat,
            r matches Err(e) ==> e == LoopbackError::PrefixTooLong,
    {
        let max: u8 = match addr {
            Address::V4(_) => 32,
            Address::V6(_) => 128,
        };
        if prefix <= max {
            Ok(LoopbackNet { addr, prefix })
        } else {
            Err(LoopbackError::PrefixTooLong)
        }
    }

    pub fn addr(&self) -> (r: Address)
        ensures
            r == self.addr_spec(),
    {
        self.addr
    }

    pub fn prefix(&self) -> (r: u8)
        ensures
            r as nat == self.prefix_spec(),
    {
        self.prefix
    }
}

#[verifier::external_type_specification]
#[verifier::external_body]
pub struct ExIpAddrRange(ipnet::IpAddrRange);

/// The addresses that an `ipnet::IpAddrRange` has yet to yield, in order.
pub uninterp spec fn range_hosts(r: ipnet::IpAddrRange) -> Seq<Address>;

/// Relies on ipnet::Ipv4Net::new_assert, ipnet::Ipv6Net::new_assert and
/// ipnet::IpNet::hosts: the range runs from the network address to the
/// broadcast address, both left out for IPv4 prefixes shorter than 31.
#[verifier::external_body]
fn host_range(net: &LoopbackNet) -> (r: ipnet::IpAddrRange)
    requires
        net.prefix_spec() <= address_bits(net.addr_spec()),
    ensures
        range_hosts(r) == net.hosts(),
{
    let n: ipnet::IpNet = match net.addr {
        Address::V4(v) => ipnet::Ipv4Net::new_assert(v.into(), net.prefix).into(),
        Address::V6(v) => ipnet::Ipv6Net::new_assert(v.into(), net.prefix).into(),
    };
    n.hosts()
}

/// Relies on `Iterator::next` of ipnet::IpAddrRange (through the ranges of
/// each family): yields the first remaining address and drops it.
#[verifier::external_body]
fn next_host(r: &mut ipnet::IpAddrRange) -> (a: Option<Address>)
    ensures
        range_hosts(*old(r)).len() == 0 ==> a is None && range_hosts(*final(r)).len() == 0,
        range_hosts(*old(r)).len() > 0 ==> a == Some(range_hosts(*old(r))[0])
            && range_hosts(*final(r)) == range_hosts(*old(r)).drop_first(),
    no_unwind
{
    match r {
        ipnet::IpAddrRange::V4(v) => v.next().map(|x| Address::V4(x.into())),
        ipnet::IpAddrRange::V6(v) => v.next().map(|x| Address::V6(x.into())),
    }
}


/// A loopback address drawn from the pool, whose OS alias lives as long as
/// the token.
#[derive(Debug, PartialEq, Eq, Structural)]
pub struct LoopbackToken {
    address: Address,
}

impl LoopbackToken {
    pub closed spec fn address_spec(&self) -> Address {
        self.address
    }

    /// A token for `address`; fails where it is not a loopback address.
    pub fn new(address: Address) -> (r: Result<LoopbackToken, LoopbackError>)
        ensures
            is_loopback_spec(address) <==> r is Ok,
            r matches Ok(t) ==> t.address_spec() == address,
            r matches Err(e) ==> e == LoopbackError::NotLoopback(address),
    {
        if address.is_loopback() {
            Ok(LoopbackToken { address })
        } else {
            Err(LoopbackError::NotLoopback(address))
        }
    }

    pub fn address(&self) -> (r: Address)
        ensures
            r == self.address_spec(),
    {
        self.address
    }

    /// Arguments of `ifconfig` that install the alias: `lo0 alias <address>`.
    pub fn alias_args(&self) -> (r: Vec<String>)
        ensures
            r@.len() == 3,
            r@[0]@ == "lo0"@,
            r@[1]@ == "alias"@,
            r@[2]@ == address_text(self.address_spec()),
    {
        let mut r: Vec<String> = Vec::new();
        r.push(String::from_str("lo0"));
        r.push(String::from_str("alias"));
        r.push(self.address.to_text());
        r
    }

    /// Arguments of `ifconfig` that remove the alias: `lo0 -alias <address>`.
    pub fn unalias_args(&self) -> (r: Vec<String>)
        ensures
            r@.len() == 3,
            r@[0]@ == "lo0"@,
            r@[1]@ == "-alias"@,
            r@[2]@ == address_text(self.address_spec()),
    {
        let mut r: Vec<String> = Vec::new();
        r.push(String::from_str("lo0"));
        r.push(String::from_str("-alias"));
        r.push(self.address.to_text());
        r
    }
}

/// What the pool hands out: the address to bind and, for an address drawn
/// from the network, the token of its alias.
#[derive(Debug, PartialEq, Eq, Structural)]
pub struct LoopbackGrant {
    pub address: Address,
    pub token: Option<LoopbackToken>,
}

impl LoopbackGrant {
    /// The socket address to bind: the granted address and the local port,
    /// `0` (any free port) where none is set.
    pub fn bind_address(&self, port: Option<u16>) -> (r: SocketAddress)
        ensures
            r.ip == self.address,
            r.port == match port {
                Some(p) => p,
                None => 0u16,
            },
    {
        let port = match port {
            Some(p) => p,
            None => 0,
        };
        SocketAddress { ip: self.address, port }
    }
}

/// The host addresses of a network not handed out yet, with the record of
/// those drawn so far.
pub struct HostRange {
    inner: ipnet::IpAddrRange,
    drawn: Ghost<Seq<Address>>,
    issued: Ghost<Seq<Address>>,
}

impl HostRange {
    #[verifier::type_invariant]
    spec fn inv(&self) -> bool {
        &&& self.drawn@.no_duplicates()
        &&& range_hosts(self.inner).no_duplicates()
        &&& forall|i: int| 0 <= i < self.drawn@.len() ==> !range_hosts(self.inner).contains(#[trigger] self.drawn@[i])
        &&& self.issued@.no_duplicates()
        &&& forall|i: int| 0 <= i < self.issued@.len() ==> #[trigger] is_loopback_spec(self.issued@[i])
        &&& forall|i: int| 0 <= i < self.issued@.len() ==> self.drawn@.contains(#[trigger] self.issued@[i])
    }

    /// The addresses not drawn yet, in the order they will be drawn.
    pub closed spec fn remaining(&self) -> Seq<Address> {
        range_hosts(self.inner)
    }

    /// Every address drawn so far, handed out or not.
    pub closed spec fn drawn(&self) -> Seq<Address> {
        self.drawn@
    }

    /// The addresses handed out with a token so far.
    pub closed spec fn issued(&self) -> Seq<Address> {
        self.issued@
    }

    /// Every address handed out is a loopback address, and no two are equal.
    pub open spec fn issued_distinct_loopback(&self) -> bool {
        &&& self.issued().no_duplicates()
        &&& forall|i: int| 0 <= i < self.issued().len() ==> #[trigger] is_loopback_spec(self.issued()[i])
    }

    /// The host addresses of `net`, none drawn yet.
    pub fn new(net: &LoopbackNet) -> (r: HostRange)
        ensures
            r.remaining() == net.hosts(),
            r.drawn().len() == 0,
            r.issued().len() == 0,
    {
        proof {
            use_type_invariant(net);
            lemma_hosts_distinct(net.addr_spec(), net.prefix_spec());
        }
        let inner = host_range(net);
        HostRange { inner, drawn: Ghost(Seq::empty()), issued: Ghost(Seq::empty()) }
    }

    /// Draws the next host address; hands it out with a token where it is a
    /// loopback address. The addresses handed out stay distinct loopback
    /// addresses.
    pub fn draw(&mut self) -> (r: Result<LoopbackGrant, LoopbackError>)
        ensures
            final(self).issued_distinct_loopback(),
            draw_post(*old(self), *final(self), r),
    {
        proof {
            use_type_invariant(&*self);
        }
        let r = self.draw_next();
        proof {
            use_type_invariant(&*self);
        }
        r
    }

    fn draw_next(&mut self) -> (r: Result<LoopbackGrant, LoopbackError>)
        ensures
            draw_post(*old(self), *final(self), r),
    {
        proof {
            use_type_invariant(&*self);
        }
        let ghost before = range_hosts(self.inner);
        let ghost drawn0 = self.drawn@;
        let ghost issued0 = self.issued@;
        proof {
            if before.len() > 0 {
                let rest = before.drop_first();
                assert forall|i: int, j: int| 0 <= i < rest.len() && 0 <= j < rest.len() && i != j implies rest[i]
                    != rest[j] by {
                    assert(rest[i] == before[i + 1] && rest[j] == before[j + 1]);
                }
                assert forall|i: int| 0 <= i < drawn0.len() implies !rest.contains(#[trigger] drawn0[i]) by {
                    if rest.contains(drawn0[i]) {
                        let k = choose|k: int| 0 <= k < rest.len() && rest[k] == drawn0[i];
                        assert(before[k + 1] == drawn0[i]);
                    }
                }
            }
        }
        match next_host(&mut self.inner) {
            None => Err(LoopbackError::NoMoreLoopbackAddresses),
            Some(a) => {
                proof {
                    assert(before[0] == a);
                    assert(!drawn0.contains(a));
                    assert(!issued0.contains(a));
                    assert(!range_hosts(self.inner).contains(a)) by {
                        if range_hosts(self.inner).contains(a) {
                            let k = choose|k: int| 0 <= k < range_hosts(self.inner).len() && range_hosts(self.inner)[k] == a;
                            assert(before[k + 1] == before[0]);
                        }
                    }
                }
                let ghost drawn1 = drawn0.push(a);
                let ghost rest = range_hosts(self.inner);
                proof {
                    assert forall|i: int, j: int| 0 <= i < drawn1.len() && 0 <= j < drawn1.len() && i != j implies drawn1[i]
                        != drawn1[j] by {
                        if i < drawn0.len() && j < drawn0.len() {
                            assert(drawn0[i] != drawn0[j]);
                        } else if i < drawn0.len() {
                            assert(drawn0.contains(drawn0[i]));
                        } else {
                            assert(drawn0.contains(drawn0[j]));
                        }
                    }
                    assert forall|i: int| 0 <= i < drawn1.len() implies !rest.contains(#[trigger] drawn1[i]) by {
                        if i < drawn0.len() {
                            assert(drawn1[i] == drawn0[i]);
                            if rest.contains(drawn0[i]) {
                                let k = choose|k: int| 0 <= k < rest.len() && rest[k] == drawn0[i];
                                assert(before[k + 1] == drawn0[i]);
                                assert(before.contains(drawn0[i]));
                            }
                        }
                    }
                    assert forall|i: int| 0 <= i < issued0.len() implies drawn1.contains(#[trigger] issued0[i]) by {
                        assert(drawn0.contains(issued0[i]));
                        let k = choose|k: int| 0 <= k < drawn0.len() && drawn0[k] == issued0[i];
                        assert(drawn1[k] == issued0[i]);
                    }
                    assert(drawn1[drawn0.len() as int] == a);
                    assert(drawn1.contains(a));
                    let issued1 = issued0.push(a);
                    assert forall|i: int, j: int| 0 <= i < issued1.len() && 0 <= j < issued1.len() && i != j implies issued1[i]
                        != issued1[j] by {
                        if i < issued0.len() && j < issued0.len() {
                            assert(issued0[i] != issued0[j]);
                        } else if i < issued0.len() {
                            assert(issued0.contains(issued0[i]));
                        } else {
                            assert(issued0.contains(issued0[j]));
                        }
                    }
                    assert forall|i: int| 0 <= i < issued1.len() implies drawn1.contains(#[trigger] issued1[i]) by {
                        if i < issued0.len() {
                            assert(issued1[i] == issued0[i]);
                        }
                    }
                }
                self.drawn = Ghost(drawn1);
                match LoopbackToken::new(a) {
                    Ok(token) => {
                        self.issued = Ghost(issued0.push(a));
                        Ok(LoopbackGrant { address: a, token: Some(token) })
                    },
                    Err(e) => Err(e),
                }
            },
        }
    }
}

/// Hands out loopback addresses: `127.0.0.1` where no network is set, else
/// the host addresses of the network, each at most once.
pub struct SocketPool {
    pool: Option<HostRange>,
}

impl SocketPool {
    /// The host range of the network, where one is set.
    pub open spec fn hosts(&self) -> Option<HostRange> {
        self.pool_spec()
    }

    pub closed spec fn pool_spec(&self) -> Option<HostRange> {
        self.pool
    }

    /// A pool without a network: every request gets `127.0.0.1`.
    pub fn new() -> (r: SocketPool)
        ensures
            r.hosts() is None,
    {
        SocketPool { pool: None }
    }

    /// The pool with its network replaced: the host addresses of `net`, or
    /// none where `net` is `None`.
    pub fn with_loopback(self, net: Option<LoopbackNet>) -> (r: SocketPool)
        ensures
            r.hosts() is Some == net is Some,
            net matches Some(n) ==> ({
                let h = r.hosts()->0;
                h.remaining() == n.hosts() && h.drawn().len() == 0 && h.issued().len() == 0
            }),
    {
        match net {
            Some(n) => SocketPool { pool: Some(HostRange::new(&n)) },
            None => SocketPool { pool: None },
        }
    }

    /// The next address to bind: `127.0.0.1` without a token where no
    /// network is set, else the next host address of the network.
    pub fn get_loopback(&mut self) -> (r: Result<LoopbackGrant, LoopbackError>)
        ensures
            old(self).hosts() is None ==> r == Ok::<LoopbackGrant, LoopbackError>(
                LoopbackGrant { address: Address::V4(LOCALHOST_V4), token: None },
            ) && final(self).hosts() is None,
            old(self).hosts() matches Some(h) ==> final(self).hosts() is Some && draw_post(
                h,
                final(self).hosts()->0,
                r,
            ) && final(self).hosts()->0.issued_distinct_loopback(),
    {
        match &mut self.pool {
            None => Ok(LoopbackGrant { address: Address::V4(LOCALHOST_V4), token: None }),
            Some(h) => h.draw(),
        }
    }
}

/// What drawing from `before` leaves in `after` and hands back in `r`.
pub open spec fn draw_post(before: HostRange, after: HostRange, r: Result<LoopbackGrant, LoopbackError>) -> bool {
    &&& before.remaining().len() == 0 ==> r == Err::<LoopbackGrant, LoopbackError>(
        LoopbackError::NoMoreLoopbackAddresses,
    ) && after.drawn() == before.drawn() && after.issued() == before.issued()
        && after.remaining().len() == 0
    &&& before.remaining().len() > 0 ==> ({
        let a = before.remaining()[0];
        &&& after.remaining() == before.remaining().drop_first()
        &&& after.drawn() == before.drawn().push(a)
        &&& is_loopback_spec(a) ==> (r matches Ok(g) && g.address == a
            && (g.token matches Some(t) && t.address_spec() == a))
            && after.issued() == before.issued().push(a)
        &&& !is_loopback_spec(a) ==> r == Err::<LoopbackGrant, LoopbackError>(
            LoopbackError::NotLoopback(a),
        ) && after.issued() == before.issued()
    })
}

/// The host addresses of a network fit its family, so no two are equal.
proof fn lemma_hosts_distinct(addr: Address, prefix: nat)
    requires
        prefix <= address_bits(addr),
    ensures
        hosts_spec(addr, prefix).no_duplicates(),
{
    let bits = address_bits(addr);
    let e = (bits - prefix) as nat;
    let block = pow2(e);
    let top = pow2(prefix);
    let v = address_value(addr) as int;
    vstd::arithmetic::power2::lemma_pow2_pos(e);
    vstd::arithmetic::power2::lemma_pow2_pos(prefix);
    vstd::arithmetic::power2::lemma_pow2_adds(e, prefix);
    vstd::arithmetic::power2::lemma2_to64();
    vstd::arithmetic::power2::lemma_pow2_adds(64, 64);
    assert(e + prefix == bits);
    assert(pow2(bits) == block * top);
    assert(v < pow2(bits));
    vstd::arithmetic::div_mod::lemma_fundamental_div_mod(v, block as int);
    let q = v / block as int;
    let r = v % block as int;
    assert(0 <= r < block) by {
        vstd::arithmetic::div_mod::lemma_mod_bound(v, block as int);
    }
    assert(q >= 0) by {
        vstd::arithmetic::div_mod::lemma_div_pos_is_pos(v, block as int);
    }
    assert(q < top) by (nonlinear_arith)
        requires
            v == block * q + r,
            0 <= r,
            v < block * top,
            block > 0,
    ;
    assert(block * q + block <= block * top) by (nonlinear_arith)
        requires
            q < top,
            q >= 0,
            block > 0,
    ;
    let hosts = hosts_spec(addr, prefix);
    let trim: int = if bits == 32 && prefix < 31 { 1 } else { 0 };
    let lo = v - r + trim;
    assert forall|i: int, j: int| 0 <= i < hosts.len() && 0 <= j < hosts.len() && i != j implies hosts[i]
        != hosts[j] by {
        assert(0 <= lo + i < pow2(bits));
        assert(0 <= lo + j < pow2(bits));
    }
}

} // verus!
