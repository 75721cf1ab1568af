//! IP addresses as plain integers, and their text forms.

use vstd::prelude::*;

verus! {

/// An IP address: IPv4 as its 32-bit value, IPv6 as its 128-bit value.
#[derive(Clone, Copy, Debug, PartialEq, Eq, Structural)]
pub enum Address {
    V4(u32),
    V6(u128),
}

/// A socket address: an IP address and a port.
#[derive(Clone, Copy, Debug, PartialEq, Eq, Structural)]
pub struct SocketAddress {
    pub ip: Address,
    pub port: u16,
}

/// `127.0.0.1`.
pub const LOCALHOST_V4: u32 = 0x7f00_0001;

/// `127.0.0.0/8` for IPv4, `::1` for IPv6.
pub open spec fn is_loopback_spec(a: Address) -> bool {
    match a {
        Address::V4(v) => v / 0x100_0000 == 127,
        Address::V6(v) => v == 1,
    }
}

impl Address {
    /// Whether the address belongs to the loopback range of its family.
    pub fn is_loopback(&self) -> (r: bool)
        ensures
            r == is_loopback_spec(*self),
    {
        match *self {
            Address::V4(v) => v / 0x100_0000 == 127,
            Address::V6(v) => v == 1,
        }
    }
}


/// The character of a digit below sixteen, lower case.
pub open spec fn digit_spec(d: nat) -> char {
    if d == 0 { '0' } else if d == 1 { '1' } else if d == 2 { '2' } else if d == 3 { '3' }
    else if d == 4 { '4' } else if d == 5 { '5' } else if d == 6 { '6' } else if d == 7 { '7' }
    else if d == 8 { '8' } else if d == 9 { '9' } else if d == 10 { 'a' } else if d == 11 { 'b' }
    else if d == 12 { 'c' } else if d == 13 { 'd' } else if d == 14 { 'e' } else { 'f' }
}

/// The digits of `n` in base `b`, most significant first, without leading zeros.
pub open spec fn digits_spec(n: nat, b: nat) -> Seq<char>
    recommends
        2 <= b <= 16,
    decreases n,
    via digits_spec_decreases
{
    if b < 2 || n < b {
        seq![digit_spec(n)]
    } else {
        digits_spec(n / b, b).push(digit_spec(n % b))
    }
}

#[via_fn]
proof fn digits_spec_decreases(n: nat, b: nat) {
    if !(b < 2 || n < b) {
        assert(n / b < n) by (nonlinear_arith)
            requires
                b >= 2,
                n >= b,
        ;
    }
}

/// Dotted-decimal form of an IPv4 address.
pub open spec fn v4_text(v: u32) -> Seq<char> {
    digits_spec((v / 0x100_0000) as nat, 10) + seq!['.'] + digits_spec(((v / 0x1_0000) % 256) as nat, 10)
        + seq!['.'] + digits_spec(((v / 0x100) % 256) as nat, 10) + seq!['.']
        + digits_spec((v % 256) as nat, 10)
}

/// `65536` to the power `n`.
pub open spec fn group_base(n: nat) -> nat
    decreases n,
{
    if n == 0 { 1 } else { 0x1_0000 * group_base((n - 1) as nat) }
}

/// The `i`-th group of sixteen bits of an IPv6 address, counted from the left.
pub open spec fn v6_group(v: u128, i: nat) -> nat {
    ((v as nat) / group_base((7 - i) as nat)) % 0x1_0000
}

/// The first `k` groups of an IPv6 address in hexadecimal, separated by colons.
pub open spec fn v6_groups_text(v: u128, k: nat) -> Seq<char>
    decreases k,
{
    if k == 0 {
        Seq::empty()
    } else if k == 1 {
        digits_spec(v6_group(v, 0), 16)
    } else {
        v6_groups_text(v, (k - 1) as nat) + seq![':'] + digits_spec(v6_group(v, (k - 1) as nat), 16)
    }
}

/// Text form of an address: dotted decimal for IPv4, eight uncompressed
/// hexadecimal groups for IPv6.
pub open spec fn address_text(a: Address) -> Seq<char> {
    match a {
        Address::V4(v) => v4_text(v),
        Address::V6(v) => v6_groups_text(v, 8),
    }
}

/// Text form of a socket address: `a.b.c.d:port`, or `[groups]:port` for IPv6.
pub open spec fn socket_address_text(s: SocketAddress) -> Seq<char> {
    match s.ip {
        Address::V4(_) => address_text(s.ip) + seq![':'] + digits_spec(s.port as nat, 10),
        Address::V6(_) => seq!['['] + address_text(s.ip) + seq![']', ':'] + digits_spec(s.port as nat, 10),
    }
}

/// Relies on String::push: appends one character.
#[verifier::external_body]
pub(crate) fn push_char(s: &mut String, c: char)
    ensures
        final(s)@ == old(s)@.push(c),
{
    s.push(c)
}

fn digit(d: u64) -> (c: char)
    requires
        d < 16,
    ensures
        c == digit_spec(d as nat),
{
    match d {
        0 => '0',
        1 => '1',
        2 => '2',
        3 => '3',
        4 => '4',
        5 => '5',
        6 => '6',
        7 => '7',
        8 => '8',
        9 => '9',
        10 => 'a',
        11 => 'b',
        12 => 'c',
        13 => 'd',
        14 => 'e',
        _ => 'f',
    }
}

/// Appends the digits of `n` in base `b`.
pub fn push_digits(s: &mut String, n: u64, b: u64)
    requires
        2 <= b <= 16,
    ensures
        final(s)@ == old(s)@ + digits_spec(n as nat, b as nat),
    decreases n,
{
    if n >= b {
        assert(n / b < n) by (nonlinear_arith)
            requires
                b >= 2,
                n >= b,
        ;
        push_digits(s, n / b, b);
        push_char(s, digit(n % b));
    } else {
        push_char(s, digit(n));
    }
}

fn push_v4(s: &mut String, v: u32)
    ensures
        final(s)@ == old(s)@ + v4_text(v),
{
    push_digits(s, (v / 0x100_0000) as u64, 10);
    push_char(s, '.');
    push_digits(s, ((v / 0x1_0000) % 256) as u64, 10);
    push_char(s, '.');
    push_digits(s, ((v / 0x100) % 256) as u64, 10);
    push_char(s, '.');
    push_digits(s, (v % 256) as u64, 10);
    assert(final(s)@ =~= old(s)@ + v4_text(v));
}

fn push_v6(s: &mut String, v: u128)
    ensures
        final(s)@ == old(s)@ + v6_groups_text(v, 8),
{
    let ghost start = s@;
    let mut base: u128 = 0x1_0000_0000_0000_0000_0000_0000_0000;
    let mut k: u64 = 0;
    proof {
        reveal_with_fuel(group_base, 8);
    }
    while k < 8
        invariant
            k <= 8,
            k < 8 ==> base == group_base((7 - k) as nat) && base > 0,
            s@ == start + v6_groups_text(v, k as nat),
        decreases 8 - k,
    {
        let ghost before = s@;
        if k > 0 {
            push_char(s, ':');
        }
        let g = (v / base) % 0x1_0000;
        push_digits(s, g as u64, 16);
        assert(s@ =~= start + v6_groups_text(v, (k + 1) as nat));
        if k < 7 {
            let ghost next = group_base((6 - k) as nat);
            assert(base == 0x1_0000 * next);
            assert((0x1_0000 * next) / 0x1_0000 == next && next > 0) by (nonlinear_arith)
                requires
                    0x1_0000 * next > 0,
            ;
            base = base / 0x1_0000;
        }
        k = k + 1;
    }
}

impl Address {
    /// Appends the text form of the address.
    pub fn push_text(&self, s: &mut String)
        ensures
            final(s)@ == old(s)@ + address_text(*self),
    {
        match *self {
            Address::V4(v) => push_v4(s, v),
            Address::V6(v) => push_v6(s, v),
        }
    }

    /// The text form of the address.
    pub fn to_text(&self) -> (r: String)
        ensures
            r@ == address_text(*self),
    {
        let mut s = String::new();
        self.push_text(&mut s);
        assert(s@ =~= address_text(*self));
        s
    }
}

impl SocketAddress {
    /// Appends the text form of the socket address.
    pub fn push_text(&self, s: &mut String)
        ensures
            final(s)@ == old(s)@ + socket_address_text(*self),
    {
        let ghost start = s@;
        match self.ip {
            Address::V4(_) => {
                self.ip.push_text(s);
            },
            Address::V6(_) => {
                push_char(s, '[');
                self.ip.push_text(s);
                push_char(s, ']');
            },
        }
        push_char(s, ':');
        push_digits(s, self.port as u64, 10);
        assert(s@ =~= start + socket_address_text(*self));
    }

    /// The text form of the socket address.
    pub fn to_text(&self) -> (r: String)
        ensures
            r@ == socket_address_text(*self),
    {
        let mut s = String::new();
        self.push_text(&mut s);
        assert(s@ =~= socket_address_text(*self));
        s
    }
}

} // verus!
