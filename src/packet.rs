//! The bare-metal provider: discrete NICs with an optional bond tag, a flat
//! address list, and one bonding policy, folded into bonds and interfaces.

use crate::keys::{keys_parse, parse_ssh_keys};
use crate::text::{decimal, push_decimal};
use openssh_keys::PublicKey;
use crate::addr::{mac_from_text, parse_mac, IpAddr, IpNetwork, Ipv4Addr, Ipv4Network, Ipv6Addr, Ipv6Network, MacAddr};
use crate::network::{
    bonding_mode_name, bonding_mode_to_string, cidr_of, copy_addrs, interfaces_view, lemma_interfaces_view_push, lemma_netdevs_view_push, netdevs_view, opt_view, try_parse_cidr, Interface,
    InterfaceView, NetDevKind, NetError, NetworkRoute, SdSection, SdSectionView, VirtualNetDev,
    VirtualNetDevView, BONDING_MODE_LACP,
};
use vstd::prelude::*;

verus! {

/// A physical interface as the metadata describes it.
#[derive(Clone, Debug)]
pub struct PacketInterfaceInfo {
    pub name: String,
    pub mac: String,
    pub bond: Option<String>,
}

/// An address assigned to the instance.
#[derive(Clone, Debug)]
pub struct PacketAddressInfo {
    pub id: String,
    pub address_family: i32,
    pub public: bool,
    pub management: bool,
    pub address: IpAddr,
    pub netmask: IpAddr,
    pub gateway: IpAddr,
}

#[derive(Clone, Debug)]
pub struct PacketBondingMode {
    pub mode: u32,
}

#[derive(Clone, Debug)]
pub struct PacketNetworkInfo {
    pub interfaces: Vec<PacketInterfaceInfo>,
    pub addresses: Vec<PacketAddressInfo>,
    pub bonding: PacketBondingMode,
}

/// The instance metadata document.
#[derive(Clone, Debug)]
pub struct PacketData {
    pub id: String,
    pub hostname: String,
    pub iqn: String,
    pub plan: String,
    pub facility: String,
    pub tags: Vec<String>,
    pub ssh_keys: Vec<String>,
    pub network: PacketNetworkInfo,
    pub error: Option<String>,
    pub phone_home_url: String,
}

/// The bare-metal metadata provider, over an already fetched document.
#[derive(Clone, Debug)]
pub struct PacketProvider {
    pub data: PacketData,
}

// ---- the model of `parse_network` ----

/// Every interface's MAC address parses.
pub open spec fn macs_parse(ifs: Seq<PacketInterfaceInfo>) -> bool {
    forall|i: int| 0 <= i < ifs.len() ==> (#[trigger] mac_from_text(ifs[i].mac@)) is Some
}

pub open spec fn mac_of(info: PacketInterfaceInfo) -> MacAddr {
    mac_from_text(info.mac@)->Some_0
}

/// A physical NIC: matched by MAC, unmanaged unless bonded; a bonded NIC only
/// needs to be present (`RequiredForOnline=no`) for the host to be online.
pub open spec fn physical_interface(info: PacketInterfaceInfo) -> InterfaceView {
    InterfaceView {
        name: None,
        mac_address: Some(mac_of(info)),
        path: None,
        priority: 10,
        nameservers: Seq::empty(),
        ip_addresses: Seq::empty(),
        dhcp: None,
        routes: Seq::empty(),
        bond: opt_view(info.bond),
        unmanaged: info.bond is None,
        required_for_online: if info.bond is None {
            None
        } else {
            Some("no"@)
        },
    }
}

pub open spec fn physical_interfaces(ifs: Seq<PacketInterfaceInfo>) -> Seq<InterfaceView> {
    ifs.map_values(|info: PacketInterfaceInfo| physical_interface(info))
}

/// The bonds that the interfaces name, in order of first mention, each with
/// the MAC address of the interface that first names it. The bond interfaces
/// built for two tags differ in their name alone, so keeping the first of
/// structurally equal candidates keeps the first of each name.
pub open spec fn bond_list(ifs: Seq<PacketInterfaceInfo>) -> Seq<(Seq<char>, MacAddr)>
    decreases ifs.len(),
{
    if ifs.len() == 0 {
        Seq::empty()
    } else {
        let prev = bond_list(ifs.drop_last());
        match ifs.last().bond {
            Some(b) => if exists|j: int| 0 <= j < prev.len() && prev[j].0 == b@ {
                prev
            } else {
                prev.push((b@, mac_of(ifs.last())))
            },
            None => prev,
        }
    }
}

/// The destination of the default route for an address: `10.0.0.0/8` for a
/// private IPv4 address, `0.0.0.0/0` for a public one, `::/0` for IPv6.
pub open spec fn route_destination(public: bool, address: IpAddr) -> IpNetwork {
    match address {
        IpAddr::V4(_) => if public {
            IpNetwork::V4(Ipv4Network { addr: Ipv4Addr(0, 0, 0, 0), prefix: 0 })
        } else {
            IpNetwork::V4(Ipv4Network { addr: Ipv4Addr(10, 0, 0, 0), prefix: 8 })
        },
        IpAddr::V6(_) => IpNetwork::V6(
            Ipv6Network { addr: Ipv6Addr(0, 0, 0, 0, 0, 0, 0, 0), prefix: 0 },
        ),
    }
}

pub open spec fn address_route(a: PacketAddressInfo) -> NetworkRoute {
    NetworkRoute { destination: route_destination(a.public, a.address), gateway: a.gateway }
}

/// The networks of the addresses, in order, or the first failure.
pub open spec fn address_networks(addrs: Seq<PacketAddressInfo>) -> Result<Seq<IpNetwork>, NetError>
    decreases addrs.len(),
{
    if addrs.len() == 0 {
        Ok(Seq::empty())
    } else {
        match address_networks(addrs.drop_last()) {
            Err(e) => Err(e),
            Ok(prev) => match cidr_of(addrs.last().address, addrs.last().netmask) {
                Err(e) => Err(e),
                Ok(n) => Ok(prev.push(n)),
            },
        }
    }
}

pub open spec fn bond_interface(
    name: Seq<char>,
    dns: Seq<IpAddr>,
    ips: Seq<IpNetwork>,
    routes: Seq<NetworkRoute>,
) -> InterfaceView {
    InterfaceView {
        name: Some(name),
        mac_address: None,
        path: None,
        priority: 5,
        nameservers: dns,
        ip_addresses: ips,
        dhcp: None,
        routes: routes,
        bond: None,
        unmanaged: false,
        required_for_online: Some("degraded-carrier"@),
    }
}

/// The bond interfaces: all addresses and their routes go to the first.
pub open spec fn bond_interfaces(
    bonds: Seq<(Seq<char>, MacAddr)>,
    dns: Seq<IpAddr>,
    ips: Seq<IpNetwork>,
    routes: Seq<NetworkRoute>,
) -> Seq<InterfaceView> {
    Seq::new(
        bonds.len(),
        |j: int|
            if j == 0 {
                bond_interface(bonds[j].0, dns, ips, routes)
            } else {
                bond_interface(bonds[j].0, dns, Seq::empty(), Seq::empty())
            },
    )
}

/// The attributes of every bond device.
pub open spec fn bond_attributes(mode: u32) -> Seq<(Seq<char>, Seq<char>)> {
    let base = seq![
        ("TransmitHashPolicy"@, "layer3+4"@),
        ("MIIMonitorSec"@, ".1"@),
        ("UpDelaySec"@, ".2"@),
        ("DownDelaySec"@, ".2"@),
        ("Mode"@, bonding_mode_name(mode)->Some_0),
    ];
    if mode == BONDING_MODE_LACP {
        base.push(("LACPTransmitRate"@, "fast"@))
    } else {
        base
    }
}

pub open spec fn bond_netdev(bond: (Seq<char>, MacAddr), mode: u32) -> VirtualNetDevView {
    VirtualNetDevView {
        name: bond.0,
        kind: NetDevKind::Bond,
        mac_address: bond.1,
        priority: Some(5),
        sd_netdev_sections: seq![SdSectionView { name: "Bond"@, attributes: bond_attributes(mode) }],
    }
}

/// The catch-all that leaves every other PCI NIC unmanaged.
pub open spec fn fallback_interface() -> InterfaceView {
    InterfaceView {
        name: None,
        mac_address: None,
        path: Some("pci-*"@),
        priority: 80,
        nameservers: Seq::empty(),
        ip_addresses: Seq::empty(),
        dhcp: None,
        routes: Seq::empty(),
        bond: None,
        unmanaged: true,
        required_for_online: None,
    }
}

/// The interfaces and virtual devices of the network description, given the
/// host's DNS servers.
pub open spec fn packet_network(net: PacketNetworkInfo, dns: Seq<IpAddr>) -> Result<
    (Seq<InterfaceView>, Seq<VirtualNetDevView>),
    NetError,
> {
    let ifs = net.interfaces@;
    let addrs = net.addresses@;
    if !macs_parse(ifs) {
        Err(NetError::InvalidMacAddress)
    } else if bond_list(ifs).len() == 0 {
        Ok((physical_interfaces(ifs), Seq::empty()))
    } else {
        match address_networks(addrs) {
            Err(e) => Err(e),
            Ok(ips) => if bonding_mode_name(net.bonding.mode) is None {
                Err(NetError::UnknownBondingMode)
            } else {
                let bonds = bond_list(ifs);
                let routes = addrs.map_values(|a: PacketAddressInfo| address_route(a));
                Ok(
                    (
                        physical_interfaces(ifs) + bond_interfaces(bonds, dns, ips, routes).push(
                            fallback_interface(),
                        ),
                        bonds.map_values(
                            |b: (Seq<char>, MacAddr)| bond_netdev(b, net.bonding.mode),
                        ),
                    ),
                )
            },
        }
    }
}

/// `r` is the outcome that `spec` describes, with each value seen through its
/// view.
pub open spec fn outcome_matches(
    r: Result<(Vec<Interface>, Vec<VirtualNetDev>), NetError>,
    spec: Result<(Seq<InterfaceView>, Seq<VirtualNetDevView>), NetError>,
) -> bool {
    match (r, spec) {
        (Ok((i, d)), Ok((si, sd))) => interfaces_view(i@) == si && netdevs_view(d@) == sd,
        (Err(e), Err(se)) => e == se,
        _ => false,
    }
}

proof fn address_networks_err_extends(addrs: Seq<PacketAddressInfo>, k: int, n: int, e: NetError)
    requires
        0 <= k <= n <= addrs.len(),
        address_networks(addrs.subrange(0, k)) == Err::<Seq<IpNetwork>, NetError>(e),
    ensures
        address_networks(addrs.subrange(0, n)) == Err::<Seq<IpNetwork>, NetError>(e),
    decreases n - k,
{
    if n > k {
        address_networks_err_extends(addrs, k, n - 1, e);
        assert(addrs.subrange(0, n).drop_last() =~= addrs.subrange(0, n - 1));
    }
}

fn physical_iface(info: &PacketInterfaceInfo, mac: MacAddr) -> (r: Interface)
    requires
        mac_from_text(info.mac@) == Some(mac),
    ensures
        r@ == physical_interface(*info),
{
    let bond = match &info.bond {
        Some(b) => Some(b.clone()),
        None => None,
    };
    let required_for_online = if info.bond.is_none() {
        None
    } else {
        Some("no".to_owned())
    };
    let r = Interface {
        name: None,
        mac_address: Some(mac),
        path: None,
        priority: 10,
        nameservers: Vec::new(),
        ip_addresses: Vec::new(),
        dhcp: None,
        routes: Vec::new(),
        bond,
        unmanaged: info.bond.is_none(),
        required_for_online,
    };
    assert(r@.required_for_online =~= physical_interface(*info).required_for_online);
    r
}

fn bond_known(bonds: &Vec<(String, MacAddr)>, name: &String) -> (r: bool)
    ensures
        r == exists|j: int| 0 <= j < bonds@.len() && bonds@[j].0@ == name@,
{
    let mut j: usize = 0;
    while j < bonds.len()
        invariant
            j <= bonds.len(),
            forall|k: int| 0 <= k < j ==> bonds@[k].0@ != name@,
        decreases bonds.len() - j,
    {
        if bonds[j].0 == *name {
            return true;
        }
        j += 1;
    }
    false
}

pub open spec fn bonds_view(b: Seq<(String, MacAddr)>) -> Seq<(Seq<char>, MacAddr)> {
    b.map_values(|x: (String, MacAddr)| (x.0@, x.1))
}

fn default_route(a: &PacketAddressInfo) -> (r: NetworkRoute)
    ensures
        r == address_route(*a),
{
    let destination = match a.address {
        IpAddr::V4(_) => if a.public {
            IpNetwork::V4(Ipv4Network { addr: Ipv4Addr(0, 0, 0, 0), prefix: 0 })
        } else {
            IpNetwork::V4(Ipv4Network { addr: Ipv4Addr(10, 0, 0, 0), prefix: 8 })
        },
        IpAddr::V6(_) => IpNetwork::V6(
            Ipv6Network { addr: Ipv6Addr(0, 0, 0, 0, 0, 0, 0, 0), prefix: 0 },
        ),
    };
    NetworkRoute { destination, gateway: a.gateway }
}

fn make_bond_attributes(mode: u32, mode_name: &String) -> (r: Vec<(String, String)>)
    requires
        bonding_mode_name(mode) == Some(mode_name@),
    ensures
        r@.map_values(|p: (String, String)| (p.0@, p.1@)) == bond_attributes(mode),
{
    let mut r: Vec<(String, String)> = Vec::new();
    r.push(("TransmitHashPolicy".to_owned(), "layer3+4".to_owned()));
    r.push(("MIIMonitorSec".to_owned(), ".1".to_owned()));
    r.push(("UpDelaySec".to_owned(), ".2".to_owned()));
    r.push(("DownDelaySec".to_owned(), ".2".to_owned()));
    r.push(("Mode".to_owned(), mode_name.clone()));
    if mode == BONDING_MODE_LACP {
        r.push(("LACPTransmitRate".to_owned(), "fast".to_owned()));
    }
    assert(r@.map_values(|p: (String, String)| (p.0@, p.1@)) =~= bond_attributes(mode));
    r
}

fn make_bond_netdev(name: &String, mac: MacAddr, mode: u32, mode_name: &String) -> (r: VirtualNetDev)
    requires
        bonding_mode_name(mode) == Some(mode_name@),
    ensures
        r@ == bond_netdev((name@, mac), mode),
{
    let mut sections: Vec<SdSection> = Vec::new();
    sections.push(SdSection { name: "Bond".to_owned(), attributes: make_bond_attributes(mode, mode_name) });
    let r = VirtualNetDev {
        name: name.clone(),
        kind: NetDevKind::Bond,
        mac_address: mac,
        priority: Some(5),
        sd_netdev_sections: sections,
    };
    assert(r@.sd_netdev_sections =~= bond_netdev((name@, mac), mode).sd_netdev_sections);
    r
}

fn make_bond_iface(
    name: &String,
    dns: &Vec<IpAddr>,
    ips: Vec<IpNetwork>,
    routes: Vec<NetworkRoute>,
) -> (r: Interface)
    ensures
        r@ == bond_interface(name@, dns@, ips@, routes@),
{
    let r = Interface {
        name: Some(name.clone()),
        mac_address: None,
        path: None,
        priority: 5,
        nameservers: copy_addrs(dns),
        ip_addresses: ips,
        dhcp: None,
        routes,
        bond: None,
        unmanaged: false,
        required_for_online: Some("degraded-carrier".to_owned()),
    };
    r
}

fn fallback() -> (r: Interface)
    ensures
        r@ == fallback_interface(),
{
    let r = Interface {
        name: None,
        mac_address: None,
        path: Some("pci-*".to_owned()),
        priority: 80,
        nameservers: Vec::new(),
        ip_addresses: Vec::new(),
        dhcp: None,
        routes: Vec::new(),
        bond: None,
        unmanaged: true,
        required_for_online: None,
    };
    assert(r@.nameservers =~= fallback_interface().nameservers);
    r
}

/// How many of the addresses are of the given family and visibility.
pub open spec fn count_kind(s: Seq<PacketAddressInfo>, v6: bool, public: bool) -> nat
    decreases s.len(),
{
    if s.len() == 0 {
        0
    } else {
        count_kind(s.drop_last(), v6, public) + if (s.last().address is V6) == v6
            && s.last().public == public {
            1nat
        } else {
            0nat
        }
    }
}

/// The key prefix of an address of the given family and visibility.
pub open spec fn kind_key(v6: bool, public: bool) -> Seq<char> {
    if v6 {
        if public { "PACKET_IPV6_PUBLIC_"@ } else { "PACKET_IPV6_PRIVATE_"@ }
    } else {
        if public { "PACKET_IPV4_PUBLIC_"@ } else { "PACKET_IPV4_PRIVATE_"@ }
    }
}

/// The key prefix of the gateway of such an address.
pub open spec fn kind_gateway_key(v6: bool, public: bool) -> Seq<char> {
    kind_key(v6, public) + "GATEWAY_"@
}

/// Two attributes per address, numbered from zero within its family and
/// visibility: the address, and its gateway.
pub open spec fn address_attrs(s: Seq<PacketAddressInfo>) -> Seq<(Seq<char>, Seq<char>)>
    decreases s.len(),
{
    if s.len() == 0 {
        Seq::empty()
    } else {
        let a = s.last();
        let v6 = a.address is V6;
        let n = count_kind(s.drop_last(), v6, a.public);
        address_attrs(s.drop_last()) + seq![
            (kind_key(v6, a.public) + decimal(n), a.address.text()),
            (kind_gateway_key(v6, a.public) + decimal(n), a.gateway.text()),
        ]
    }
}

/// The attributes exported for the instance.
pub open spec fn packet_attrs(d: PacketData) -> Seq<(Seq<char>, Seq<char>)> {
    address_attrs(d.network.addresses@) + seq![
        ("PACKET_HOSTNAME"@, d.hostname@),
        ("PACKET_PHONE_HOME_URL"@, d.phone_home_url@),
        ("PACKET_PLAN"@, d.plan@),
    ]
}

pub open spec fn pairs_view(v: Seq<(String, String)>) -> Seq<(Seq<char>, Seq<char>)> {
    v.map_values(|p: (String, String)| (p.0@, p.1@))
}

fn kind_keys(v6: bool, public: bool) -> (r: (&'static str, &'static str))
    ensures
        r.0@ == kind_key(v6, public),
        r.1@ == kind_gateway_key(v6, public),
{
    let r = if v6 {
        if public {
            ("PACKET_IPV6_PUBLIC_", "PACKET_IPV6_PUBLIC_GATEWAY_")
        } else {
            ("PACKET_IPV6_PRIVATE_", "PACKET_IPV6_PRIVATE_GATEWAY_")
        }
    } else {
        if public {
            ("PACKET_IPV4_PUBLIC_", "PACKET_IPV4_PUBLIC_GATEWAY_")
        } else {
            ("PACKET_IPV4_PRIVATE_", "PACKET_IPV4_PRIVATE_GATEWAY_")
        }
    };
    proof {
        reveal_strlit("PACKET_IPV6_PUBLIC_");
        reveal_strlit("PACKET_IPV6_PUBLIC_GATEWAY_");
        reveal_strlit("PACKET_IPV6_PRIVATE_");
        reveal_strlit("PACKET_IPV6_PRIVATE_GATEWAY_");
        reveal_strlit("PACKET_IPV4_PUBLIC_");
        reveal_strlit("PACKET_IPV4_PUBLIC_GATEWAY_");
        reveal_strlit("PACKET_IPV4_PRIVATE_");
        reveal_strlit("PACKET_IPV4_PRIVATE_GATEWAY_");
        reveal_strlit("GATEWAY_");
        assert(r.1@ =~= kind_gateway_key(v6, public));
    }
    r
}

fn numbered_key(prefix: &str, n: usize) -> (r: String)
    ensures
        r@ == prefix@ + decimal(n as nat),
{
    let mut k = prefix.to_owned();
    push_decimal(&mut k, n as u64);
    k
}

impl PacketProvider {
    /// The attributes exported for the instance, as key and value pairs.
    pub fn get_attrs(&self) -> (r: Vec<(String, String)>)
        ensures
            pairs_view(r@) == packet_attrs(self.data),
    {
        let ghost addrs = self.data.network.addresses@;
        let mut attrs: Vec<(String, String)> = Vec::new();
        let mut v4_public: usize = 0;
        let mut v4_private: usize = 0;
        let mut v6_public: usize = 0;
        let mut v6_private: usize = 0;
        let mut i: usize = 0;
        while i < self.data.network.addresses.len()
            invariant
                addrs == self.data.network.addresses@,
                i <= addrs.len(),
                v4_public == count_kind(addrs.subrange(0, i as int), false, true),
                v4_private == count_kind(addrs.subrange(0, i as int), false, false),
                v6_public == count_kind(addrs.subrange(0, i as int), true, true),
                v6_private == count_kind(addrs.subrange(0, i as int), true, false),
                v4_public + v4_private + v6_public + v6_private == i,
                pairs_view(attrs@) == address_attrs(addrs.subrange(0, i as int)),
            decreases addrs.len() - i,
        {
            let ghost pre = addrs.subrange(0, i as int);
            assert(addrs.subrange(0, i + 1).drop_last() =~= pre);
            let a = &self.data.network.addresses[i];
            let v6 = a.address.is_ipv6();
            let n: usize = if v6 {
                if a.public { v6_public } else { v6_private }
            } else {
                if a.public { v4_public } else { v4_private }
            };
            let (key, gateway_key) = kind_keys(v6, a.public);
            let ghost old_attrs = attrs@;
            attrs.push((numbered_key(key, n), a.address.to_string()));
            attrs.push((numbered_key(gateway_key, n), a.gateway.to_string()));
            assert(pairs_view(attrs@) =~= address_attrs(addrs.subrange(0, i + 1)));
            if v6 {
                if a.public { v6_public += 1; } else { v6_private += 1; }
            } else {
                if a.public { v4_public += 1; } else { v4_private += 1; }
            }
            i += 1;
        }
        assert(addrs.subrange(0, addrs.len() as int) =~= addrs);
        attrs.push(("PACKET_HOSTNAME".to_owned(), self.data.hostname.clone()));
        attrs.push(("PACKET_PHONE_HOME_URL".to_owned(), self.data.phone_home_url.clone()));
        attrs.push(("PACKET_PLAN".to_owned(), self.data.plan.clone()));
        assert(pairs_view(attrs@) =~= packet_attrs(self.data));
        attrs
    }

    /// The instance's attributes.
    pub fn attributes(&self) -> (r: Vec<(String, String)>)
        ensures
            pairs_view(r@) == packet_attrs(self.data),
    {
        self.get_attrs()
    }

    /// The instance's SSH keys.
    pub fn ssh_keys(&self) -> (r: Result<Vec<PublicKey>, NetError>)
        ensures
            r is Ok <==> keys_parse(self.data.ssh_keys@),
            r matches Ok(v) ==> v@.len() == self.data.ssh_keys@.len(),
            r matches Err(e) ==> e == NetError::InvalidSshKey,
    {
        parse_ssh_keys(&self.data.ssh_keys)
    }

    pub fn hostname(&self) -> (r: Option<String>)
        ensures
            r == Some(self.data.hostname),
    {
        Some(self.data.hostname.clone())
    }

    /// The interfaces of `parse_network`.
    pub fn networks(&self, dns_servers: &Vec<IpAddr>) -> (r: Result<Vec<Interface>, NetError>)
        ensures
            match (r, packet_network(self.data.network, dns_servers@)) {
                (Ok(i), Ok(v)) => interfaces_view(i@) == v.0,
                (Err(e), Err(x)) => e == x,
                _ => false,
            },
    {
        match self.parse_network(dns_servers) {
            Ok((interfaces, _devices)) => Ok(interfaces),
            Err(e) => Err(e),
        }
    }

    /// The virtual devices of `parse_network`.
    pub fn virtual_network_devices(&self, dns_servers: &Vec<IpAddr>) -> (r: Result<
        Vec<VirtualNetDev>,
        NetError,
    >)
        ensures
            match (r, packet_network(self.data.network, dns_servers@)) {
                (Ok(d), Ok(v)) => netdevs_view(d@) == v.1,
                (Err(e), Err(x)) => e == x,
                _ => false,
            },
    {
        match self.parse_network(dns_servers) {
            Ok((_interfaces, devices)) => Ok(devices),
            Err(e) => Err(e),
        }
    }

    pub fn new(data: PacketData) -> (r: PacketProvider)
        ensures
            r.data == data,
    {
        PacketProvider { data }
    }

    /// The physical NICs with their bond membership, and one bond interface
    /// and device per bond that they name, given the host's DNS servers.
    pub fn parse_network(&self, dns_servers: &Vec<IpAddr>) -> (r: Result<
        (Vec<Interface>, Vec<VirtualNetDev>),
        NetError,
    >)
        ensures
            outcome_matches(r, packet_network(self.data.network, dns_servers@)),
    {
        let ghost ifs = self.data.network.interfaces@;
        let ghost addrs = self.data.network.addresses@;
        let mut interfaces: Vec<Interface> = Vec::new();
        let mut bonds: Vec<(String, MacAddr)> = Vec::new();
        let mut i: usize = 0;
        while i < self.data.network.interfaces.len()
            invariant
                ifs == self.data.network.interfaces@,
                i <= ifs.len(),
                macs_parse(ifs.subrange(0, i as int)),
                interfaces_view(interfaces@) == physical_interfaces(ifs.subrange(0, i as int)),
                bonds_view(bonds@) == bond_list(ifs.subrange(0, i as int)),
            decreases ifs.len() - i,
        {
            let info = &self.data.network.interfaces[i];
            let mac = match parse_mac(info.mac.as_str()) {
                Some(m) => m,
                None => {
                    assert(mac_from_text(ifs[i as int].mac@) is None);
                    assert(!macs_parse(ifs));
                    assert(packet_network(self.data.network, dns_servers@) == Err::<
                        (Seq<InterfaceView>, Seq<VirtualNetDevView>),
                        NetError,
                    >(NetError::InvalidMacAddress));
                    return Err(NetError::InvalidMacAddress);
                },
            };
            let ghost pre = ifs.subrange(0, i as int);
            let ghost next = ifs.subrange(0, i + 1);
            assert(next.drop_last() =~= pre);
            let ghost old_ifaces = interfaces@;
            let iface = physical_iface(info, mac);
            interfaces.push(iface);
            proof {
                lemma_interfaces_view_push(old_ifaces, iface);
                assert(physical_interfaces(next) =~= physical_interfaces(pre).push(
                    physical_interface(ifs[i as int]),
                ));
            }
            let ghost old_bonds = bonds@;
            assert(next.last() == *info);
            if let Some(bond_name) = &info.bond {
                let known = bond_known(&bonds, bond_name);
                proof {
                    let prev = bond_list(pre);
                    assert(known == exists|j: int| 0 <= j < prev.len() && prev[j].0 == bond_name@)
                        by {
                        if known {
                            let j = choose|j: int|
                                0 <= j < bonds@.len() && bonds@[j].0@ == bond_name@;
                            assert(prev[j].0 == bond_name@);
                        }
                        if exists|j: int| 0 <= j < prev.len() && prev[j].0 == bond_name@ {
                            let j = choose|j: int| 0 <= j < prev.len() && prev[j].0 == bond_name@;
                            assert(bonds@[j].0@ == bond_name@);
                        }
                    }
                }
                if !known {
                    bonds.push((bond_name.clone(), mac));
                    assert(bonds_view(bonds@) =~= bonds_view(old_bonds).push((bond_name@, mac)));
                }
            }
            assert(bonds_view(bonds@) =~= bond_list(next));
            assert(macs_parse(next)) by {
                assert forall|k: int| 0 <= k < next.len() implies (#[trigger] mac_from_text(
                    next[k].mac@,
                )) is Some by {
                    if k < i {
                        assert(next[k] == pre[k]);
                    }
                }
            }
            i += 1;
        }
        assert(ifs.subrange(0, ifs.len() as int) =~= ifs);
        assert(interfaces_view(interfaces@) == physical_interfaces(ifs));
        if bonds.len() == 0 {
            let none: Vec<VirtualNetDev> = Vec::new();
            assert(netdevs_view(none@) =~= Seq::empty());
            return Ok((interfaces, none));
        }
        let mut ips: Vec<IpNetwork> = Vec::new();
        let mut routes: Vec<NetworkRoute> = Vec::new();
        let mut k: usize = 0;
        while k < self.data.network.addresses.len()
            invariant
                addrs == self.data.network.addresses@,
                ifs == self.data.network.interfaces@,
                macs_parse(ifs),
                bonds.len() > 0,
                bonds_view(bonds@) == bond_list(ifs),
                interfaces_view(interfaces@) == physical_interfaces(ifs),
                k <= addrs.len(),
                address_networks(addrs.subrange(0, k as int)) == Ok::<Seq<IpNetwork>, NetError>(ips@),
                routes@ == addrs.subrange(0, k as int).map_values(|a: PacketAddressInfo| address_route(a)),
            decreases addrs.len() - k,
        {
            let a = &self.data.network.addresses[k];
            let ghost next = addrs.subrange(0, k + 1);
            assert(next.drop_last() =~= addrs.subrange(0, k as int));
            match try_parse_cidr(a.address, a.netmask) {
                Ok(n) => {
                    ips.push(n);
                },
                Err(e) => {
                    proof {
                        address_networks_err_extends(addrs, k + 1, addrs.len() as int, e);
                        assert(addrs.subrange(0, addrs.len() as int) =~= addrs);
                        assert(bond_list(ifs).len() != 0);
                        assert(address_networks(addrs) == Err::<Seq<IpNetwork>, NetError>(e));
                    }
                    return Err(e);
                },
            }
            routes.push(default_route(a));
            assert(routes@ =~= next.map_values(|a: PacketAddressInfo| address_route(a)));
            k += 1;
        }
        assert(addrs.subrange(0, addrs.len() as int) =~= addrs);
        let mode = self.data.network.bonding.mode;
        let mode_name = match bonding_mode_to_string(mode) {
            Ok(s) => s,
            Err(e) => {
                return Err(e);
            },
        };
        let ghost bl = bond_list(ifs);
        let ghost gips = ips@;
        let ghost groutes = routes@;
        let ghost phys = interfaces_view(interfaces@);
        let ghost all_bonds = bond_interfaces(bl, dns_servers@, gips, groutes);
        let mut netdevs: Vec<VirtualNetDev> = Vec::new();
        netdevs.push(make_bond_netdev(&bonds[0].0, bonds[0].1, mode, &mode_name));
        interfaces.push(make_bond_iface(&bonds[0].0, dns_servers, ips, routes));
        assert(interfaces_view(interfaces@) =~= phys + all_bonds.subrange(0, 1));
        assert(netdevs_view(netdevs@) =~= bl.subrange(0, 1).map_values(
            |b: (Seq<char>, MacAddr)| bond_netdev(b, mode),
        ));
        let mut j: usize = 1;
        while j < bonds.len()
            invariant
                1 <= j <= bonds.len(),
                bonds_view(bonds@) == bl,
                bl.len() == bonds.len(),
                interfaces_view(interfaces@) == phys + all_bonds.subrange(0, j as int),
                netdevs_view(netdevs@) == bl.subrange(0, j as int).map_values(
                    |b: (Seq<char>, MacAddr)| bond_netdev(b, mode),
                ),
                all_bonds == bond_interfaces(bl, dns_servers@, gips, groutes),
                bonding_mode_name(mode) == Some(mode_name@),
                bl == bond_list(ifs),
                phys == physical_interfaces(ifs),
                macs_parse(ifs),
                address_networks(addrs) == Ok::<Seq<IpNetwork>, NetError>(gips),
                groutes == addrs.map_values(|a: PacketAddressInfo| address_route(a)),
                ifs == self.data.network.interfaces@,
                addrs == self.data.network.addresses@,
                mode == self.data.network.bonding.mode,
            decreases bonds.len() - j,
        {
            assert(bl[j as int] == (bonds@[j as int].0@, bonds@[j as int].1));
            let ghost old_ifaces = interfaces@;
            let ghost old_devs = netdevs@;
            let dev = make_bond_netdev(&bonds[j].0, bonds[j].1, mode, &mode_name);
            let bond = make_bond_iface(&bonds[j].0, dns_servers, Vec::new(), Vec::new());
            netdevs.push(dev);
            interfaces.push(bond);
            proof {
                lemma_interfaces_view_push(old_ifaces, bond);
                lemma_netdevs_view_push(old_devs, dev);
                assert(bond@ == all_bonds[j as int]);
                assert(all_bonds.subrange(0, j + 1) =~= all_bonds.subrange(0, j as int).push(
                    all_bonds[j as int],
                ));
                assert(phys + all_bonds.subrange(0, j + 1) =~= (phys + all_bonds.subrange(
                    0,
                    j as int,
                )).push(all_bonds[j as int]));
                assert(netdevs_view(netdevs@) =~= bl.subrange(0, j + 1).map_values(
                    |b: (Seq<char>, MacAddr)| bond_netdev(b, mode),
                ));
            }
            j += 1;
        }
        assert(all_bonds.subrange(0, bl.len() as int) =~= all_bonds);
        assert(bl.subrange(0, bl.len() as int) =~= bl);
        let ghost old_ifaces = interfaces@;
        let fb = fallback();
        interfaces.push(fb);
        proof {
            lemma_interfaces_view_push(old_ifaces, fb);
            assert(interfaces_view(interfaces@) =~= phys + all_bonds.push(fallback_interface()));
        }
        Ok((interfaces, netdevs))
    }
}

} // verus!

verus! {

/// Two network descriptions that hold the same texts and values.
pub open spec fn same_network(a: PacketNetworkInfo, b: PacketNetworkInfo) -> bool {
    &&& a.interfaces@.len() == b.interfaces@.len()
    &&& forall|i: int|
        0 <= i < a.interfaces@.len() ==> (#[trigger] a.interfaces@[i]).mac@ == b.interfaces@[i].mac@
            && opt_view(a.interfaces@[i].bond) == opt_view(b.interfaces@[i].bond)
    &&& a.addresses@.len() == b.addresses@.len()
    &&& forall|i: int|
        0 <= i < a.addresses@.len() ==> (#[trigger] a.addresses@[i]).address == b.addresses@[i].address
            && a.addresses@[i].netmask == b.addresses@[i].netmask
            && a.addresses@[i].gateway == b.addresses@[i].gateway
            && a.addresses@[i].public == b.addresses@[i].public
    &&& a.bonding.mode == b.bonding.mode
}

proof fn lemma_same_prefix(a: PacketNetworkInfo, b: PacketNetworkInfo, k: int)
    requires
        same_network(a, b),
        0 <= k <= a.interfaces@.len(),
    ensures
        bond_list(a.interfaces@.subrange(0, k)) == bond_list(b.interfaces@.subrange(0, k)),
    decreases k,
{
    if k > 0 {
        lemma_same_prefix(a, b, k - 1);
        assert(a.interfaces@.subrange(0, k).drop_last() =~= a.interfaces@.subrange(0, k - 1));
        assert(b.interfaces@.subrange(0, k).drop_last() =~= b.interfaces@.subrange(0, k - 1));
        assert(a.interfaces@[k - 1].mac@ == b.interfaces@[k - 1].mac@);
    }
}

proof fn lemma_same_addresses(a: PacketNetworkInfo, b: PacketNetworkInfo, k: int)
    requires
        same_network(a, b),
        0 <= k <= a.addresses@.len(),
    ensures
        address_networks(a.addresses@.subrange(0, k)) == address_networks(
            b.addresses@.subrange(0, k),
        ),
    decreases k,
{
    if k > 0 {
        lemma_same_addresses(a, b, k - 1);
        assert(a.addresses@.subrange(0, k).drop_last() =~= a.addresses@.subrange(0, k - 1));
        assert(b.addresses@.subrange(0, k).drop_last() =~= b.addresses@.subrange(0, k - 1));
        assert(a.addresses@[k - 1].address == b.addresses@[k - 1].address);
    }
}

/// The bare-metal adapter is deterministic: descriptions that hold the same
/// texts and values, with the same DNS servers, give the same interfaces and
/// devices, in the same order, or the same failure.
pub proof fn lemma_packet_network_deterministic(
    a: PacketNetworkInfo,
    b: PacketNetworkInfo,
    dns: Seq<IpAddr>,
)
    requires
        same_network(a, b),
    ensures
        packet_network(a, dns) == packet_network(b, dns),
{
    let ia = a.interfaces@;
    let ib = b.interfaces@;
    lemma_same_prefix(a, b, ia.len() as int);
    lemma_same_addresses(a, b, a.addresses@.len() as int);
    assert(ia.subrange(0, ia.len() as int) =~= ia);
    assert(ib.subrange(0, ib.len() as int) =~= ib);
    assert(a.addresses@.subrange(0, a.addresses@.len() as int) =~= a.addresses@);
    assert(b.addresses@.subrange(0, b.addresses@.len() as int) =~= b.addresses@);
    assert(macs_parse(ia) == macs_parse(ib)) by {
        if macs_parse(ia) {
            assert forall|i: int| 0 <= i < ib.len() implies (#[trigger] mac_from_text(ib[i].mac@)) is Some by {
                assert(ia[i].mac@ == ib[i].mac@);
            }
        }
        if macs_parse(ib) {
            assert forall|i: int| 0 <= i < ia.len() implies (#[trigger] mac_from_text(ia[i].mac@)) is Some by {
                assert(ia[i].mac@ == ib[i].mac@);
            }
        }
    }
    assert(physical_interfaces(ia) =~= physical_interfaces(ib)) by {
        assert forall|i: int| 0 <= i < ia.len() implies physical_interfaces(ia)[i]
            == physical_interfaces(ib)[i] by {
            assert(ia[i].mac@ == ib[i].mac@);
        }
    }
    let ra = a.addresses@.map_values(|x: PacketAddressInfo| address_route(x));
    let rb = b.addresses@.map_values(|x: PacketAddressInfo| address_route(x));
    assert(ra =~= rb) by {
        assert forall|i: int| 0 <= i < ra.len() implies ra[i] == rb[i] by {
            assert(a.addresses@[i].address == b.addresses@[i].address);
        }
    }
}

} // verus!
