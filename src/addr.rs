//! Link-layer and IP addresses, CIDR networks, and their text forms.
//!
//! Parsing goes through the standard library, `pnet_base` and `ipnetwork`;
//! rendering of MAC addresses, IPv4 addresses and networks is done here.

use crate::text::{decimal, hex2, push_decimal, push_hex2};
use vstd::arithmetic::power2::pow2;
use vstd::prelude::*;

verus! {

/// A 48-bit MAC address.
#[derive(Clone, Copy, Debug, PartialEq, Eq, Structural)]
pub struct MacAddr(pub u8, pub u8, pub u8, pub u8, pub u8, pub u8);

/// An IPv4 address, as its four octets in network order.
#[derive(Clone, Copy, Debug, PartialEq, Eq, Structural)]
pub struct Ipv4Addr(pub u8, pub u8, pub u8, pub u8);

/// An IPv6 address, as its eight 16-bit segments in network order.
#[derive(Clone, Copy, Debug, PartialEq, Eq, Structural)]
pub struct Ipv6Addr(pub u16, pub u16, pub u16, pub u16, pub u16, pub u16, pub u16, pub u16);

/// An IPv4 or IPv6 address.
#[derive(Clone, Copy, Debug, PartialEq, Eq, Structural)]
pub enum IpAddr {
    V4(Ipv4Addr),
    V6(Ipv6Addr),
}

/// An IPv4 address with a prefix length; well formed when `prefix <= 32`.
#[derive(Clone, Copy, Debug, PartialEq, Eq)]
pub struct Ipv4Network {
    pub addr: Ipv4Addr,
    pub prefix: u8,
}

/// An IPv6 address with a prefix length; well formed when `prefix <= 128`.
#[derive(Clone, Copy, Debug, PartialEq, Eq)]
pub struct Ipv6Network {
    pub addr: Ipv6Addr,
    pub prefix: u8,
}

/// A CIDR network: an address and a prefix length.
#[derive(Clone, Copy, Debug, PartialEq, Eq)]
pub enum IpNetwork {
    V4(Ipv4Network),
    V6(Ipv6Network),
}

impl MacAddr {
    /// Colon-separated lower-case hexadecimal bytes, `f4:00:34:09:73:ee`.
    pub open spec fn text(self) -> Seq<char> {
        hex2(self.0) + ":"@ + hex2(self.1) + ":"@ + hex2(self.2) + ":"@ + hex2(self.3) + ":"@
            + hex2(self.4) + ":"@ + hex2(self.5)
    }

    pub fn push_text(&self, out: &mut String)
        ensures
            final(out)@ == old(out)@ + self.text(),
    {
        push_hex2(out, self.0);
        out.append(":");
        push_hex2(out, self.1);
        out.append(":");
        push_hex2(out, self.2);
        out.append(":");
        push_hex2(out, self.3);
        out.append(":");
        push_hex2(out, self.4);
        out.append(":");
        push_hex2(out, self.5);
        assert(final(out)@ =~= old(out)@ + self.text());
    }

    pub fn to_string(&self) -> (r: String)
        ensures
            r@ == self.text(),
    {
        let mut s = String::new();
        self.push_text(&mut s);
        s
    }
}

impl Ipv4Addr {
    pub fn new(a: u8, b: u8, c: u8, d: u8) -> (r: Ipv4Addr)
        ensures
            r == Ipv4Addr(a, b, c, d),
    {
        Ipv4Addr(a, b, c, d)
    }

    pub open spec fn octets(self) -> Seq<u8> {
        seq![self.0, self.1, self.2, self.3]
    }

    /// Dotted decimal, `192.0.2.1`.
    pub open spec fn text(self) -> Seq<char> {
        decimal(self.0 as nat) + "."@ + decimal(self.1 as nat) + "."@ + decimal(self.2 as nat) + "."@
            + decimal(self.3 as nat)
    }

    pub fn push_text(&self, out: &mut String)
        ensures
            final(out)@ == old(out)@ + self.text(),
    {
        push_decimal(out, self.0 as u64);
        out.append(".");
        push_decimal(out, self.1 as u64);
        out.append(".");
        push_decimal(out, self.2 as u64);
        out.append(".");
        push_decimal(out, self.3 as u64);
        assert(final(out)@ =~= old(out)@ + self.text());
    }
}

/// The text form that the standard library gives an IPv6 address with these
/// segments (RFC 5952: lower case, longest run of zero segments shortened).
pub uninterp spec fn ipv6_text(segments: Seq<u16>) -> Seq<char>;

/// Relies on `Display` of `core::net::Ipv6Addr`: the text depends on the
/// segments alone.
#[verifier::external_body]
fn ipv6_to_text(a: &Ipv6Addr) -> (r: String)
    ensures
        r@ == ipv6_text(a.segments()),
{
    core::net::Ipv6Addr::new(a.0, a.1, a.2, a.3, a.4, a.5, a.6, a.7).to_string()
}

impl Ipv6Addr {
    pub fn new(a: u16, b: u16, c: u16, d: u16, e: u16, f: u16, g: u16, h: u16) -> (r: Ipv6Addr)
        ensures
            r == Ipv6Addr(a, b, c, d, e, f, g, h),
    {
        Ipv6Addr(a, b, c, d, e, f, g, h)
    }

    pub open spec fn segments(self) -> Seq<u16> {
        seq![self.0, self.1, self.2, self.3, self.4, self.5, self.6, self.7]
    }

    pub open spec fn text(self) -> Seq<char> {
        ipv6_text(self.segments())
    }

    pub fn push_text(&self, out: &mut String)
        ensures
            final(out)@ == old(out)@ + self.text(),
    {
        let t = ipv6_to_text(self);
        out.append(t.as_str());
    }
}

impl IpAddr {
    /// Number of bits in an address of this family.
    pub open spec fn width(self) -> nat {
        match self {
            IpAddr::V4(_) => 32,
            IpAddr::V6(_) => 128,
        }
    }

    pub open spec fn text(self) -> Seq<char> {
        match self {
            IpAddr::V4(a) => a.text(),
            IpAddr::V6(a) => a.text(),
        }
    }

    pub fn push_text(&self, out: &mut String)
        ensures
            final(out)@ == old(out)@ + self.text(),
    {
        match self {
            IpAddr::V4(a) => a.push_text(out),
            IpAddr::V6(a) => a.push_text(out),
        }
    }

    pub fn to_string(&self) -> (r: String)
        ensures
            r@ == self.text(),
    {
        let mut s = String::new();
        self.push_text(&mut s);
        assert(s@ =~= self.text());
        s
    }

    pub fn is_ipv6(&self) -> (r: bool)
        ensures
            r == (self is V6),
    {
        match self {
            IpAddr::V4(_) => false,
            IpAddr::V6(_) => true,
        }
    }
}

/// The value of a mask part of `bits` bits whose first `k` bits are ones and
/// the rest zeros (`k` is clamped to `0..=bits`).
pub open spec fn part_ones(bits: nat, k: int) -> int {
    if k <= 0 {
        0
    } else if k >= bits {
        pow2(bits) - 1
    } else {
        pow2(bits) - pow2((bits - k) as nat)
    }
}

/// The value of part `i` of a mask whose parts hold `bits` bits each, when
/// the whole mask is `p` one-bits followed by zero-bits.
pub open spec fn mask_part(bits: nat, p: int, i: int) -> int {
    part_ones(bits, p - bits * i)
}

proof fn part_ones_strict(bits: nat, a: int, b: int)
    requires
        bits > 0,
        0 <= a < bits,
        a < b,
    ensures
        part_ones(bits, a) < part_ones(bits, b),
{
    vstd::arithmetic::power2::lemma_pow2_pos((bits - a) as nat);
    if a == 0 {
        if b < bits {
            vstd::arithmetic::power2::lemma_pow2_strictly_increases((bits - b) as nat, bits);
        } else {
            vstd::arithmetic::power2::lemma_pow2_strictly_increases(0, bits);
            vstd::arithmetic::power2::lemma2_to64();
        }
    } else if b < bits {
        vstd::arithmetic::power2::lemma_pow2_strictly_increases(
            (bits - b) as nat,
            (bits - a) as nat,
        );
    } else {
        vstd::arithmetic::power2::lemma_pow2_strictly_increases(0, (bits - a) as nat);
        vstd::arithmetic::power2::lemma2_to64();
    }
}

/// A mask determines its prefix length.
pub proof fn mask_prefix_unique(mask: IpAddr, p: nat, q: nat)
    requires
        is_prefix_mask(mask, p),
        is_prefix_mask(mask, q),
    ensures
        p == q,
{
    if p != q {
        let lo: int = if p < q { p as int } else { q as int };
        let hi: int = if p < q { q as int } else { p as int };
        match mask {
            IpAddr::V4(a) => {
                let i: int = lo / 8;
                assert(a.octets()[i] == mask_part(8, p as int, i));
                assert(a.octets()[i] == mask_part(8, q as int, i));
                part_ones_strict(8, lo - 8 * i, hi - 8 * i);
            },
            IpAddr::V6(a) => {
                let i: int = lo / 16;
                assert(a.segments()[i] == mask_part(16, p as int, i));
                assert(a.segments()[i] == mask_part(16, q as int, i));
                part_ones_strict(16, lo - 16 * i, hi - 16 * i);
            },
        }
    }
}

/// `mask` is `p` leading one-bits followed only by zero-bits, with `p` at most
/// the width of its family.
pub open spec fn is_prefix_mask(mask: IpAddr, p: nat) -> bool {
    p <= mask.width() && match mask {
        IpAddr::V4(a) => forall|i: int| 0 <= i < 4 ==> a.octets()[i] == mask_part(8, p as int, i),
        IpAddr::V6(a) => forall|i: int|
            0 <= i < 8 ==> a.segments()[i] == mask_part(16, p as int, i),
    }
}

/// Relies on `ipnetwork::ip_mask_to_prefix`: it returns the number of leading
/// one-bits of a mask whose remaining bits are all zero, and fails on any other
/// mask.
#[verifier::external_body]
pub(crate) fn mask_to_prefix(mask: &IpAddr) -> (r: Option<u8>)
    ensures
        match r {
            Some(p) => is_prefix_mask(*mask, p as nat),
            None => forall|p: nat| !is_prefix_mask(*mask, p),
        },
{
    let m = match mask {
        IpAddr::V4(a) => core::net::IpAddr::V4(core::net::Ipv4Addr::new(a.0, a.1, a.2, a.3)),
        IpAddr::V6(a) => core::net::IpAddr::V6(core::net::Ipv6Addr::new(
            a.0, a.1, a.2, a.3, a.4, a.5, a.6, a.7,
        )),
    };
    ipnetwork::ip_mask_to_prefix(m).ok()
}

/// The outcome of the standard library's parse of `s` as an IP address.
pub uninterp spec fn ip_from_text(s: Seq<char>) -> Option<IpAddr>;

/// Relies on `FromStr` of `core::net::IpAddr`: the outcome depends on the text
/// alone.
#[verifier::external_body]
fn parse_ip_text(s: &str) -> (r: Option<IpAddr>)
    ensures
        r == ip_from_text(s@),
{
    match s.parse::<core::net::IpAddr>() {
        Ok(core::net::IpAddr::V4(a)) => {
            let [b0, b1, b2, b3] = a.octets();
            Some(IpAddr::V4(Ipv4Addr(b0, b1, b2, b3)))
        },
        Ok(core::net::IpAddr::V6(a)) => {
            let [g0, g1, g2, g3, g4, g5, g6, g7] = a.segments();
            Some(IpAddr::V6(Ipv6Addr(g0, g1, g2, g3, g4, g5, g6, g7)))
        },
        Err(_) => None,
    }
}

/// Parses an IPv4 or IPv6 address in its usual text form.
pub fn parse_ip(s: &str) -> (r: Option<IpAddr>)
    ensures
        r == ip_from_text(s@),
{
    parse_ip_text(s)
}

/// The outcome of `pnet_base`'s parse of `s` as a MAC address.
pub uninterp spec fn mac_from_text(s: Seq<char>) -> Option<MacAddr>;

/// Relies on `FromStr` of `pnet_base::MacAddr`: the outcome depends on the text
/// alone.
#[verifier::external_body]
fn parse_mac_text(s: &str) -> (r: Option<MacAddr>)
    ensures
        r == mac_from_text(s@),
{
    s.parse::<pnet_base::MacAddr>().ok().map(|m| MacAddr(m.0, m.1, m.2, m.3, m.4, m.5))
}

/// Parses a MAC address written as six colon-separated hexadecimal bytes.
pub fn parse_mac(s: &str) -> (r: Option<MacAddr>)
    ensures
        r == mac_from_text(s@),
{
    parse_mac_text(s)
}

/// The outcome of `ipnetwork`'s parse of `s` as a CIDR network.
pub uninterp spec fn network_from_text(s: Seq<char>) -> Option<IpNetwork>;

/// Relies on `FromStr` of `ipnetwork::IpNetwork`: the outcome depends on the
/// text alone, and a network it returns has a prefix within its family's width.
#[verifier::external_body]
fn parse_network_text(s: &str) -> (r: Option<IpNetwork>)
    ensures
        r == network_from_text(s@),
        r matches Some(n) ==> n.wf(),
{
    match s.parse::<ipnetwork::IpNetwork>() {
        Ok(ipnetwork::IpNetwork::V4(n)) => {
            let [b0, b1, b2, b3] = n.ip().octets();
            Some(IpNetwork::V4(Ipv4Network { addr: Ipv4Addr(b0, b1, b2, b3), prefix: n.prefix() }))
        },
        Ok(ipnetwork::IpNetwork::V6(n)) => {
            let [g0, g1, g2, g3, g4, g5, g6, g7] = n.ip().segments();
            let addr = Ipv6Addr(g0, g1, g2, g3, g4, g5, g6, g7);
            Some(IpNetwork::V6(Ipv6Network { addr, prefix: n.prefix() }))
        },
        Err(_) => None,
    }
}

/// Parses a network in CIDR notation (`192.0.2.7/24`, `2001:db8::/32`).
pub fn parse_cidr(s: &str) -> (r: Option<IpNetwork>)
    ensures
        r == network_from_text(s@),
        r matches Some(n) ==> n.wf(),
{
    parse_network_text(s)
}

impl Ipv4Network {
    /// A network of `addr` with `prefix`; `None` when `prefix` exceeds 32.
    pub fn new(addr: Ipv4Addr, prefix: u8) -> (r: Option<Ipv4Network>)
        ensures
            prefix <= 32 <==> r is Some,
            r matches Some(n) ==> n.addr == addr && n.prefix == prefix,
    {
        if prefix > 32 {
            None
        } else {
            Some(Ipv4Network { addr, prefix })
        }
    }
}

impl Ipv6Network {
    /// A network of `addr` with `prefix`; `None` when `prefix` exceeds 128.
    pub fn new(addr: Ipv6Addr, prefix: u8) -> (r: Option<Ipv6Network>)
        ensures
            prefix <= 128 <==> r is Some,
            r matches Some(n) ==> n.addr == addr && n.prefix == prefix,
    {
        if prefix > 128 {
            None
        } else {
            Some(Ipv6Network { addr, prefix })
        }
    }
}

impl IpNetwork {
    pub open spec fn ip(self) -> IpAddr {
        match self {
            IpNetwork::V4(n) => IpAddr::V4(n.addr),
            IpNetwork::V6(n) => IpAddr::V6(n.addr),
        }
    }

    pub open spec fn prefix(self) -> u8 {
        match self {
            IpNetwork::V4(n) => n.prefix,
            IpNetwork::V6(n) => n.prefix,
        }
    }

    pub open spec fn wf(self) -> bool {
        self.prefix() <= self.ip().width()
    }

    /// The network made of `ip` and `prefix`, a spec-level constructor.
    pub open spec fn of(ip: IpAddr, prefix: u8) -> IpNetwork {
        match ip {
            IpAddr::V4(a) => IpNetwork::V4(Ipv4Network { addr: a, prefix }),
            IpAddr::V6(a) => IpNetwork::V6(Ipv6Network { addr: a, prefix }),
        }
    }

    /// A network of `ip` with `prefix`; `None` when `prefix` exceeds the
    /// width of the address family.
    pub fn new(ip: IpAddr, prefix: u8) -> (r: Option<IpNetwork>)
        ensures
            r == (if prefix as nat <= ip.width() {
                Some(IpNetwork::of(ip, prefix))
            } else {
                None
            }),
    {
        match ip {
            IpAddr::V4(a) => match Ipv4Network::new(a, prefix) {
                Some(n) => Some(IpNetwork::V4(n)),
                None => None,
            },
            IpAddr::V6(a) => match Ipv6Network::new(a, prefix) {
                Some(n) => Some(IpNetwork::V6(n)),
                None => None,
            },
        }
    }

    /// `{ip}/{prefix}`, as `ipnetwork` writes a network.
    pub open spec fn text(self) -> Seq<char> {
        self.ip().text() + "/"@ + decimal(self.prefix() as nat)
    }

    pub fn push_text(&self, out: &mut String)
        ensures
            final(out)@ == old(out)@ + self.text(),
    {
        match self {
            IpNetwork::V4(n) => {
                n.addr.push_text(out);
                out.append("/");
                push_decimal(out, n.prefix as u64);
            },
            IpNetwork::V6(n) => {
                n.addr.push_text(out);
                out.append("/");
                push_decimal(out, n.prefix as u64);
            },
        }
        assert(final(out)@ =~= old(out)@ + self.text());
    }

    pub fn to_string(&self) -> (r: String)
        ensures
            r@ == self.text(),
    {
        let mut s = String::new();
        self.push_text(&mut s);
        assert(s@ =~= self.text());
        s
    }
}

} // verus!
