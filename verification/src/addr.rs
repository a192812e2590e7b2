//! Network addresses as plain values.

use vstd::prelude::*;

verus! {

/// An IPv4 address: the number that its four bytes spell, so that addresses
/// order by their bytes.
pub type Ipv4 = u32;

/// The address of a machine on the network.
#[derive(Clone, Copy, Debug, PartialEq, Eq, Structural)]
pub enum Ip {
    V4(Ipv4),
    V6(u128),
}

/// An address and a port. The last two fields belong to IPv6 and are zero for
/// IPv4.
#[derive(Clone, Copy, Debug, PartialEq, Eq, Structural)]
pub struct Endpoint {
    pub ip: Ip,
    pub port: u16,
    pub flowinfo: u32,
    pub scope_id: u32,
}

/// The endpoint at a port of an address, with nothing else set.
pub open spec fn endpoint(ip: Ip, port: u16) -> Endpoint {
    Endpoint { ip, port, flowinfo: 0, scope_id: 0 }
}

impl Endpoint {
    pub fn new(ip: Ip, port: u16) -> (r: Self)
        ensures
            r == endpoint(ip, port),
    {
        Endpoint { ip, port, flowinfo: 0, scope_id: 0 }
    }
}

/// The address `a.b.c.d`.
pub open spec fn dotted(a: u8, b: u8, c: u8, d: u8) -> int {
    a * 0x100_0000 + b * 0x1_0000 + c * 0x100 + d
}

/// The address `a.b.c.d`.
pub fn ipv4(a: u8, b: u8, c: u8, d: u8) -> (r: Ipv4)
    ensures
        r == dotted(a, b, c, d),
{
    a as u32 * 0x100_0000 + b as u32 * 0x1_0000 + c as u32 * 0x100 + d as u32
}

/// The four bytes of an address are its digits to the base of two hundred and fifty-six,
/// the first one the most significant.
pub proof fn bytes_of_an_address(a: u8, b: u8, c: u8, d: u8)
    ensures
        0 <= dotted(a, b, c, d) <= u32::MAX,
        dotted(a, b, c, d) / 0x100_0000 == a,
        dotted(a, b, c, d) / 0x1_0000 % 0x100 == b,
        dotted(a, b, c, d) / 0x100 % 0x100 == c,
        dotted(a, b, c, d) % 0x100 == d,
{
    use_digits(dotted(a, b, c, d), a * 0x1_0000 + b * 0x100 + c, 0x100, d as int);
    use_digits(a * 0x1_0000 + b * 0x100 + c, a * 0x100 + b, 0x100, c as int);
    use_digits(a * 0x100 + b, a as int, 0x100, b as int);
    use_digits(dotted(a, b, c, d), a * 0x100 + b, 0x1_0000, c * 0x100 + d);
    use_digits(dotted(a, b, c, d), a as int, 0x100_0000, b * 0x1_0000 + c * 0x100 + d);
}

proof fn use_digits(x: int, q: int, base: int, r: int)
    requires
        x == q * base + r,
        0 <= r < base,
    ensures
        x / base == q,
        x % base == r,
{
    vstd::arithmetic::div_mod::lemma_fundamental_div_mod_converse(x, base, q, r);
}

} // verus!
