//! The network model (interfaces, virtual devices, routes) and its
//! deterministic rendering into `systemd.network` / `systemd.netdev` units.

use crate::addr::{is_prefix_mask, mask_prefix_unique, mask_to_prefix, IpAddr, IpNetwork, MacAddr};
use crate::text::{decimal2, push_decimal2};
use vstd::prelude::*;

verus! {

/// Failures of this library.
#[derive(Clone, Copy, Debug, PartialEq, Eq, Structural)]
pub enum NetError {
    /// An interface has no name, MAC address or path.
    MissingIdentifier,
    /// A bonding mode outside the known table.
    UnknownBondingMode,
    /// A netmask that is not a run of leading one-bits.
    InvalidNetmask,
    /// An address and prefix that do not form a network.
    InvalidCidr,
    /// A MAC address that does not parse.
    InvalidMacAddress,
    /// An IP address that does not parse.
    InvalidIpAddress,
    /// More than one nameserver entry.
    TooManyNameservers,
    /// A static subnet without an address.
    MissingAddress,
    /// A configuration entry of a type that cannot become an interface.
    UnsupportedConfigType,
    /// The DNS key is absent.
    DnsKeyNotFound,
    /// The DNS value lists no server.
    NoDnsServers,
    /// An SSH public key that is not ASCII or does not parse.
    InvalidSshKey,
}

pub const BONDING_MODE_BALANCE_RR: u32 = 0;
pub const BONDING_MODE_ACTIVE_BACKUP: u32 = 1;
pub const BONDING_MODE_BALANCE_XOR: u32 = 2;
pub const BONDING_MODE_BROADCAST: u32 = 3;
pub const BONDING_MODE_LACP: u32 = 4;
pub const BONDING_MODE_BALANCE_TLB: u32 = 5;
pub const BONDING_MODE_BALANCE_ALB: u32 = 6;

/// The kernel's name of a bonding mode, for the modes it knows.
pub open spec fn bonding_mode_name(mode: u32) -> Option<Seq<char>> {
    if mode == BONDING_MODE_BALANCE_RR {
        Some("balance-rr"@)
    } else if mode == BONDING_MODE_ACTIVE_BACKUP {
        Some("active-backup"@)
    } else if mode == BONDING_MODE_BALANCE_XOR {
        Some("balance-xor"@)
    } else if mode == BONDING_MODE_BROADCAST {
        Some("broadcast"@)
    } else if mode == BONDING_MODE_LACP {
        Some("802.3ad"@)
    } else if mode == BONDING_MODE_BALANCE_TLB {
        Some("balance-tlb"@)
    } else if mode == BONDING_MODE_BALANCE_ALB {
        Some("balance-alb"@)
    } else {
        None
    }
}

/// Name of a bonding mode; fails on a mode outside the table.
pub fn bonding_mode_to_string(mode: u32) -> (r: Result<String, NetError>)
    ensures
        r is Ok <==> bonding_mode_name(mode) is Some,
        r matches Ok(s) ==> Some(s@) == bonding_mode_name(mode),
        r matches Err(e) ==> e == NetError::UnknownBondingMode,
{
    let s = match mode {
        BONDING_MODE_BALANCE_RR => "balance-rr",
        BONDING_MODE_ACTIVE_BACKUP => "active-backup",
        BONDING_MODE_BALANCE_XOR => "balance-xor",
        BONDING_MODE_BROADCAST => "broadcast",
        BONDING_MODE_LACP => "802.3ad",
        BONDING_MODE_BALANCE_TLB => "balance-tlb",
        BONDING_MODE_BALANCE_ALB => "balance-alb",
        _ => {
            return Err(NetError::UnknownBondingMode);
        },
    };
    Ok(s.to_owned())
}

/// The network of `address` under `netmask`: `InvalidNetmask` when the mask
/// is not a run of leading one-bits, `InvalidCidr` when its length exceeds the
/// width of the address's family.
pub open spec fn cidr_of(address: IpAddr, netmask: IpAddr) -> Result<IpNetwork, NetError> {
    if exists|p: nat| is_prefix_mask(netmask, p) {
        let p = choose|p: nat| is_prefix_mask(netmask, p);
        if p <= address.width() {
            Ok(IpNetwork::of(address, p as u8))
        } else {
            Err(NetError::InvalidCidr)
        }
    } else {
        Err(NetError::InvalidNetmask)
    }
}

/// Combines an address and a netmask into a network.
pub fn try_parse_cidr(address: IpAddr, netmask: IpAddr) -> (r: Result<IpNetwork, NetError>)
    ensures
        r == cidr_of(address, netmask),
        r matches Ok(n) ==> n.wf() && n.ip() == address,
{
    match mask_to_prefix(&netmask) {
        Some(p) => {
            proof {
                let q = choose|q: nat| is_prefix_mask(netmask, q);
                mask_prefix_unique(netmask, p as nat, q);
            }
            match IpNetwork::new(address, p) {
                Some(n) => Ok(n),
                None => Err(NetError::InvalidCidr),
            }
        },
        None => Err(NetError::InvalidNetmask),
    }
}

/// A route to `destination` through `gateway`.
#[derive(Clone, Copy, Debug, PartialEq, Eq)]
pub struct NetworkRoute {
    pub destination: IpNetwork,
    pub gateway: IpAddr,
}

/// Supported virtual network device kinds.
#[derive(Clone, Copy, Debug, PartialEq, Eq, Structural)]
pub enum NetDevKind {
    /// Parent aggregation for physically bonded devices.
    Bond,
    /// VLAN child interface for a physical device with 802.1Q.
    Vlan,
}

impl NetDevKind {
    pub open spec fn text(self) -> Seq<char> {
        match self {
            NetDevKind::Bond => "bond"@,
            NetDevKind::Vlan => "vlan"@,
        }
    }

    /// Device kind as `systemd.netdev` names it.
    pub fn sd_netdev_kind(&self) -> (r: String)
        ensures
            r@ == self.text(),
    {
        let kind = match self {
            NetDevKind::Bond => "bond",
            NetDevKind::Vlan => "vlan",
        };
        kind.to_owned()
    }
}

/// Optional use of DHCP.
#[derive(Clone, Copy, Debug, PartialEq, Eq, Structural)]
pub enum DhcpSetting {
    Both,
    V4,
    V6,
}

impl DhcpSetting {
    pub open spec fn text(self) -> Seq<char> {
        match self {
            DhcpSetting::Both => "yes"@,
            DhcpSetting::V4 => "ipv4"@,
            DhcpSetting::V6 => "ipv6"@,
        }
    }

    /// DHCP setting as `systemd.network` names it.
    pub fn sd_dhcp_setting(&self) -> (r: String)
        ensures
            r@ == self.text(),
    {
        let setting = match self {
            DhcpSetting::Both => "yes",
            DhcpSetting::V4 => "ipv4",
            DhcpSetting::V6 => "ipv6",
        };
        setting.to_owned()
    }
}

pub open spec fn opt_view(o: Option<String>) -> Option<Seq<char>> {
    match o {
        Some(s) => Some(s@),
        None => None,
    }
}

/// A network interface/link, matched by name, MAC address or path.
#[derive(Clone, Debug, PartialEq, Eq)]
pub struct Interface {
    pub name: Option<String>,
    pub mac_address: Option<MacAddr>,
    pub path: Option<String>,
    /// Relative priority for interface configuration.
    pub priority: u8,
    pub nameservers: Vec<IpAddr>,
    pub ip_addresses: Vec<IpNetwork>,
    pub dhcp: Option<DhcpSetting>,
    pub routes: Vec<NetworkRoute>,
    pub bond: Option<String>,
    pub unmanaged: bool,
    /// Optional requirement setting instead of the default.
    pub required_for_online: Option<String>,
}

/// What an `Interface` holds, with text as character sequences.
pub struct InterfaceView {
    pub name: Option<Seq<char>>,
    pub mac_address: Option<MacAddr>,
    pub path: Option<Seq<char>>,
    pub priority: u8,
    pub nameservers: Seq<IpAddr>,
    pub ip_addresses: Seq<IpNetwork>,
    pub dhcp: Option<DhcpSetting>,
    pub routes: Seq<NetworkRoute>,
    pub bond: Option<Seq<char>>,
    pub unmanaged: bool,
    pub required_for_online: Option<Seq<char>>,
}

impl View for Interface {
    type V = InterfaceView;

    open spec fn view(&self) -> InterfaceView {
        InterfaceView {
            name: opt_view(self.name),
            mac_address: self.mac_address,
            path: opt_view(self.path),
            priority: self.priority,
            nameservers: self.nameservers@,
            ip_addresses: self.ip_addresses@,
            dhcp: self.dhcp,
            routes: self.routes@,
            bond: opt_view(self.bond),
            unmanaged: self.unmanaged,
            required_for_online: opt_view(self.required_for_online),
        }
    }
}

/// A free-form `systemd.netdev` section.
#[derive(Clone, Debug, PartialEq, Eq)]
pub struct SdSection {
    pub name: String,
    pub attributes: Vec<(String, String)>,
}

pub struct SdSectionView {
    pub name: Seq<char>,
    pub attributes: Seq<(Seq<char>, Seq<char>)>,
}

impl View for SdSection {
    type V = SdSectionView;

    open spec fn view(&self) -> SdSectionView {
        SdSectionView {
            name: self.name@,
            attributes: self.attributes@.map_values(|a: (String, String)| (a.0@, a.1@)),
        }
    }
}

/// A virtual network device.
#[derive(Clone, Debug, PartialEq, Eq)]
pub struct VirtualNetDev {
    pub name: String,
    pub kind: NetDevKind,
    pub mac_address: MacAddr,
    pub priority: Option<u32>,
    pub sd_netdev_sections: Vec<SdSection>,
}

pub struct VirtualNetDevView {
    pub name: Seq<char>,
    pub kind: NetDevKind,
    pub mac_address: MacAddr,
    pub priority: Option<u32>,
    pub sd_netdev_sections: Seq<SdSectionView>,
}

impl View for VirtualNetDev {
    type V = VirtualNetDevView;

    open spec fn view(&self) -> VirtualNetDevView {
        VirtualNetDevView {
            name: self.name@,
            kind: self.kind,
            mac_address: self.mac_address,
            priority: self.priority,
            sd_netdev_sections: self.sd_netdev_sections@.map_values(|s: SdSection| s@),
        }
    }
}

pub open spec fn interfaces_view(v: Seq<Interface>) -> Seq<InterfaceView> {
    v.map_values(|i: Interface| i@)
}

pub open spec fn netdevs_view(v: Seq<VirtualNetDev>) -> Seq<VirtualNetDevView> {
    v.map_values(|d: VirtualNetDev| d@)
}

pub proof fn lemma_interfaces_view_push(v: Seq<Interface>, x: Interface)
    ensures
        interfaces_view(v.push(x)) == interfaces_view(v).push(x@),
{
    assert(interfaces_view(v.push(x)) =~= interfaces_view(v).push(x@));
}

pub proof fn lemma_netdevs_view_push(v: Seq<VirtualNetDev>, x: VirtualNetDev)
    ensures
        netdevs_view(v.push(x)) == netdevs_view(v).push(x@),
{
    assert(netdevs_view(v.push(x)) =~= netdevs_view(v).push(x@));
}

/// Copies a list of addresses.
pub fn copy_addrs(v: &Vec<IpAddr>) -> (r: Vec<IpAddr>)
    ensures
        r@ == v@,
{
    let mut r: Vec<IpAddr> = Vec::new();
    let mut i: usize = 0;
    while i < v.len()
        invariant
            i <= v.len(),
            r@ == v@.subrange(0, i as int),
        decreases v.len() - i,
    {
        r.push(v[i]);
        assert(r@ =~= v@.subrange(0, i + 1));
        i += 1;
    }
    assert(v@.subrange(0, v.len() as int) =~= v@);
    r
}

// ---- unit names ----

/// The identifier a unit is named after: the name, else the MAC address,
/// else the path.
pub open spec fn unit_identifier(i: InterfaceView) -> Option<Seq<char>> {
    match (i.name, i.mac_address, i.path) {
        (Some(n), _, _) => Some(n),
        (None, Some(m), _) => Some(m.text()),
        (None, None, Some(p)) => Some(p),
        (None, None, None) => None,
    }
}

/// `{priority:02}-{identifier}.network`, when there is an identifier.
pub open spec fn network_unit_name(i: InterfaceView) -> Option<Seq<char>> {
    match unit_identifier(i) {
        Some(id) => Some(decimal2(i.priority as nat) + "-"@ + id + ".network"@),
        None => None,
    }
}

/// An interface has a unit name exactly when it has a name, a MAC address or
/// a path; any one of the three is enough.
pub proof fn lemma_unit_name_needs_identifier(i: InterfaceView)
    ensures
        network_unit_name(i) is Some <==> (i.name is Some || i.mac_address is Some
            || i.path is Some),
        (i.name is None && i.mac_address is None && i.path is None) ==> network_unit_name(i) is None,
{
}

/// `{priority:02}-{name}.netdev`, with priority 10 when none is set.
pub open spec fn netdev_unit_name_of(d: VirtualNetDevView) -> Seq<char> {
    let p: nat = match d.priority {
        Some(p) => p as nat,
        None => 10,
    };
    decimal2(p) + "-"@ + d.name + ".netdev"@
}

// ---- configuration text ----

pub open spec fn opt_line(key: Seq<char>, v: Option<Seq<char>>) -> Seq<char> {
    match v {
        Some(s) => key + s + "\n"@,
        None => Seq::empty(),
    }
}

pub open spec fn dns_lines(ns: Seq<IpAddr>) -> Seq<char>
    decreases ns.len(),
{
    if ns.len() == 0 {
        Seq::empty()
    } else {
        dns_lines(ns.drop_last()) + "DNS="@ + ns.last().text() + "\n"@
    }
}

pub open spec fn address_blocks(a: Seq<IpNetwork>) -> Seq<char>
    decreases a.len(),
{
    if a.len() == 0 {
        Seq::empty()
    } else {
        address_blocks(a.drop_last()) + "\n[Address]\nAddress="@ + a.last().text() + "\n"@
    }
}

pub open spec fn route_block(r: NetworkRoute) -> Seq<char> {
    "\n[Route]\nDestination="@ + r.destination.text() + "\nGateway="@ + r.gateway.text() + "\n"@
}

pub open spec fn route_blocks(rs: Seq<NetworkRoute>) -> Seq<char>
    decreases rs.len(),
{
    if rs.len() == 0 {
        Seq::empty()
    } else {
        route_blocks(rs.drop_last()) + route_block(rs.last())
    }
}

pub open spec fn match_section(i: InterfaceView) -> Seq<char> {
    "[Match]\n"@ + opt_line("Name="@, i.name) + match i.mac_address {
        Some(m) => "MACAddress="@ + m.text() + "\n"@,
        None => Seq::empty(),
    } + opt_line("Path="@, i.path)
}

pub open spec fn network_section(i: InterfaceView) -> Seq<char> {
    "\n[Network]\n"@ + match i.dhcp {
        Some(d) => "DHCP="@ + d.text() + "\n"@,
        None => Seq::empty(),
    } + dns_lines(i.nameservers) + opt_line("Bond="@, i.bond)
}

pub open spec fn link_section(i: InterfaceView) -> Seq<char> {
    (if i.unmanaged || i.required_for_online is Some {
        "\n[Link]\n"@
    } else {
        Seq::empty()
    }) + (if i.unmanaged {
        "Unmanaged=yes\n"@
    } else {
        Seq::empty()
    }) + opt_line("RequiredForOnline="@, i.required_for_online)
}

/// The `systemd.network` text of an interface.
pub open spec fn interface_config(i: InterfaceView) -> Seq<char> {
    match_section(i) + network_section(i) + link_section(i) + address_blocks(i.ip_addresses)
        + route_blocks(i.routes)
}

pub open spec fn attribute_lines(a: Seq<(Seq<char>, Seq<char>)>) -> Seq<char>
    decreases a.len(),
{
    if a.len() == 0 {
        Seq::empty()
    } else {
        attribute_lines(a.drop_last()) + a.last().0 + "="@ + a.last().1 + "\n"@
    }
}

pub open spec fn section_text(s: SdSectionView) -> Seq<char> {
    "\n["@ + s.name + "]\n"@ + attribute_lines(s.attributes)
}

pub open spec fn sections_text(s: Seq<SdSectionView>) -> Seq<char>
    decreases s.len(),
{
    if s.len() == 0 {
        Seq::empty()
    } else {
        sections_text(s.drop_last()) + section_text(s.last())
    }
}

/// The `systemd.netdev` text of a virtual device.
pub open spec fn netdev_config(d: VirtualNetDevView) -> Seq<char> {
    "[NetDev]\nName="@ + d.name + "\nKind="@ + d.kind.text() + "\nMACAddress="@
        + d.mac_address.text() + "\n"@ + sections_text(d.sd_netdev_sections)
}

fn push_opt_line(out: &mut String, key: &str, v: &Option<String>)
    ensures
        final(out)@ == old(out)@ + opt_line(key@, opt_view(*v)),
{
    if let Some(s) = v {
        out.append(key);
        out.append(s.as_str());
        out.append("\n");
    }
    assert(final(out)@ =~= old(out)@ + opt_line(key@, opt_view(*v)));
}

fn push_dns_lines(out: &mut String, ns: &Vec<IpAddr>)
    ensures
        final(out)@ == old(out)@ + dns_lines(ns@),
{
    let ghost start = out@;
    let mut i: usize = 0;
    while i < ns.len()
        invariant
            i <= ns.len(),
            out@ == start + dns_lines(ns@.subrange(0, i as int)),
        decreases ns.len() - i,
    {
        out.append("DNS=");
        ns[i].push_text(out);
        out.append("\n");
        assert(ns@.subrange(0, i + 1).drop_last() =~= ns@.subrange(0, i as int));
        assert(out@ =~= start + dns_lines(ns@.subrange(0, i + 1)));
        i += 1;
    }
    assert(ns@.subrange(0, ns.len() as int) =~= ns@);
}

fn push_address_blocks(out: &mut String, a: &Vec<IpNetwork>)
    ensures
        final(out)@ == old(out)@ + address_blocks(a@),
{
    let ghost start = out@;
    let mut i: usize = 0;
    while i < a.len()
        invariant
            i <= a.len(),
            out@ == start + address_blocks(a@.subrange(0, i as int)),
        decreases a.len() - i,
    {
        out.append("\n[Address]\nAddress=");
        a[i].push_text(out);
        out.append("\n");
        assert(a@.subrange(0, i + 1).drop_last() =~= a@.subrange(0, i as int));
        assert(out@ =~= start + address_blocks(a@.subrange(0, i + 1)));
        i += 1;
    }
    assert(a@.subrange(0, a.len() as int) =~= a@);
}

fn push_route_blocks(out: &mut String, rs: &Vec<NetworkRoute>)
    ensures
        final(out)@ == old(out)@ + route_blocks(rs@),
{
    let ghost start = out@;
    let mut i: usize = 0;
    while i < rs.len()
        invariant
            i <= rs.len(),
            out@ == start + route_blocks(rs@.subrange(0, i as int)),
        decreases rs.len() - i,
    {
        out.append("\n[Route]\nDestination=");
        rs[i].destination.push_text(out);
        out.append("\nGateway=");
        rs[i].gateway.push_text(out);
        out.append("\n");
        assert(rs@.subrange(0, i + 1).drop_last() =~= rs@.subrange(0, i as int));
        assert(out@ =~= start + route_blocks(rs@.subrange(0, i + 1)));
        i += 1;
    }
    assert(rs@.subrange(0, rs.len() as int) =~= rs@);
}

fn push_attribute_lines(out: &mut String, a: &Vec<(String, String)>)
    ensures
        final(out)@ == old(out)@ + attribute_lines(
            a@.map_values(|p: (String, String)| (p.0@, p.1@)),
        ),
{
    let ghost start = out@;
    let ghost va = a@.map_values(|p: (String, String)| (p.0@, p.1@));
    let mut i: usize = 0;
    while i < a.len()
        invariant
            i <= a.len(),
            va == a@.map_values(|p: (String, String)| (p.0@, p.1@)),
            out@ == start + attribute_lines(va.subrange(0, i as int)),
        decreases a.len() - i,
    {
        out.append(a[i].0.as_str());
        out.append("=");
        out.append(a[i].1.as_str());
        out.append("\n");
        assert(va.subrange(0, i + 1).drop_last() =~= va.subrange(0, i as int));
        assert(out@ =~= start + attribute_lines(va.subrange(0, i + 1)));
        i += 1;
    }
    assert(va.subrange(0, a.len() as int) =~= va);
}

fn push_sections(out: &mut String, s: &Vec<SdSection>)
    ensures
        final(out)@ == old(out)@ + sections_text(s@.map_values(|x: SdSection| x@)),
{
    let ghost start = out@;
    let ghost vs = s@.map_values(|x: SdSection| x@);
    let mut i: usize = 0;
    while i < s.len()
        invariant
            i <= s.len(),
            vs == s@.map_values(|x: SdSection| x@),
            out@ == start + sections_text(vs.subrange(0, i as int)),
        decreases s.len() - i,
    {
        out.append("\n[");
        out.append(s[i].name.as_str());
        out.append("]\n");
        push_attribute_lines(out, &s[i].attributes);
        assert(vs.subrange(0, i + 1).drop_last() =~= vs.subrange(0, i as int));
        assert(out@ =~= start + sections_text(vs.subrange(0, i + 1)));
        i += 1;
    }
    assert(vs.subrange(0, s.len() as int) =~= vs);
}

impl Interface {
    /// A deterministic `systemd.network` unit name for this interface;
    /// fails when it has no name, MAC address or path.
    pub fn sd_network_unit_name(&self) -> (r: Result<String, NetError>)
        ensures
            r is Ok <==> network_unit_name(self@) is Some,
            r matches Ok(s) ==> network_unit_name(self@) == Some(s@),
            r matches Err(e) ==> e == NetError::MissingIdentifier,
    {
        let mut out = String::new();
        push_decimal2(&mut out, self.priority as u64);
        out.append("-");
        if let Some(name) = &self.name {
            out.append(name.as_str());
        } else if let Some(mac) = &self.mac_address {
            mac.push_text(&mut out);
        } else if let Some(path) = &self.path {
            out.append(path.as_str());
        } else {
            return Err(NetError::MissingIdentifier);
        }
        out.append(".network");
        assert(out@ =~= network_unit_name(self@)->Some_0);
        Ok(out)
    }

    fn push_match_section(&self, out: &mut String)
        ensures
            final(out)@ == old(out)@ + match_section(self@),
    {
        out.append("[Match]\n");
        push_opt_line(out, "Name=", &self.name);
        if let Some(mac) = &self.mac_address {
            out.append("MACAddress=");
            mac.push_text(out);
            out.append("\n");
        }
        push_opt_line(out, "Path=", &self.path);
        assert(final(out)@ =~= old(out)@ + match_section(self@));
    }

    fn push_network_section(&self, out: &mut String)
        ensures
            final(out)@ == old(out)@ + network_section(self@),
    {
        out.append("\n[Network]\n");
        if let Some(dhcp) = &self.dhcp {
            out.append("DHCP=");
            let d = dhcp.sd_dhcp_setting();
            out.append(d.as_str());
            out.append("\n");
        }
        push_dns_lines(out, &self.nameservers);
        push_opt_line(out, "Bond=", &self.bond);
        assert(final(out)@ =~= old(out)@ + network_section(self@));
    }

    fn push_link_section(&self, out: &mut String)
        ensures
            final(out)@ == old(out)@ + link_section(self@),
    {
        if self.unmanaged || self.required_for_online.is_some() {
            out.append("\n[Link]\n");
        }
        if self.unmanaged {
            out.append("Unmanaged=yes\n");
        }
        push_opt_line(out, "RequiredForOnline=", &self.required_for_online);
        assert(final(out)@ =~= old(out)@ + link_section(self@));
    }

    /// The `systemd.network` configuration text of this interface.
    pub fn config(&self) -> (r: String)
        ensures
            r@ == interface_config(self@),
    {
        let mut out = String::new();
        self.push_match_section(&mut out);
        self.push_network_section(&mut out);
        self.push_link_section(&mut out);
        push_address_blocks(&mut out, &self.ip_addresses);
        push_route_blocks(&mut out, &self.routes);
        assert(out@ =~= interface_config(self@));
        out
    }
}

impl VirtualNetDev {
    /// A deterministic netdev unit name for this device.
    pub fn netdev_unit_name(&self) -> (r: String)
        ensures
            r@ == netdev_unit_name_of(self@),
    {
        let mut out = String::new();
        let p: u32 = match self.priority {
            Some(p) => p,
            None => 10,
        };
        push_decimal2(&mut out, p as u64);
        out.append("-");
        out.append(self.name.as_str());
        out.append(".netdev");
        assert(out@ =~= netdev_unit_name_of(self@));
        out
    }

    /// The `systemd.netdev` configuration text of this device.
    pub fn sd_netdev_config(&self) -> (r: String)
        ensures
            r@ == netdev_config(self@),
    {
        let mut out = String::new();
        out.append("[NetDev]\nName=");
        out.append(self.name.as_str());
        out.append("\nKind=");
        let k = self.kind.sd_netdev_kind();
        out.append(k.as_str());
        out.append("\nMACAddress=");
        self.mac_address.push_text(&mut out);
        out.append("\n");
        push_sections(&mut out, &self.sd_netdev_sections);
        assert(out@ =~= netdev_config(self@));
        out
    }
}

} // verus!
