//! The virtualization-platform provider: cloud-init style documents whose
//! network part lists physical interfaces with subnets, and nameservers.

use crate::addr::{
    ip_from_text, mac_from_text, network_from_text, parse_cidr, parse_ip, parse_mac, IpAddr,
    IpNetwork, Ipv4Addr, Ipv4Network, Ipv6Addr, Ipv6Network,
};
use crate::network::{
    cidr_of, copy_addrs, interfaces_view, lemma_interfaces_view_push, opt_view, try_parse_cidr,
    Interface, InterfaceView, NetError, NetworkRoute,
};
use crate::keys::{keys_parse, parse_ssh_keys};
use crate::text::{has_substring, str_contains};
use openssh_keys::PublicKey;
use vstd::prelude::*;

verus! {

pub struct ProxmoxVECloudConfig {
    pub meta_data: ProxmoxVECloudMetaData,
    pub user_data: ProxmoxVECloudUserData,
    pub vendor_data: ProxmoxVECloudVendorData,
    pub network_config: ProxmoxVECloudNetworkConfig,
}

pub struct ProxmoxVECloudMetaData {
    pub instance_id: String,
}

pub struct ProxmoxVECloudUserData {
    pub hostname: String,
    pub manage_etc_hosts: bool,
    pub fqdn: String,
    pub chpasswd: ProxmoxVECloudChpasswdConfig,
    pub users: Vec<String>,
    pub package_upgrade: bool,
    pub ssh_authorized_keys: Vec<String>,
}

pub struct ProxmoxVECloudChpasswdConfig {
    pub expire: bool,
}

pub struct ProxmoxVECloudVendorData {}

pub struct ProxmoxVECloudNetworkConfig {
    pub version: u32,
    pub config: Vec<ProxmoxVECloudNetworkConfigEntry>,
}

pub struct ProxmoxVECloudNetworkConfigEntry {
    pub network_type: String,
    pub name: Option<String>,
    pub mac_address: Option<String>,
    pub address: Vec<String>,
    pub search: Vec<String>,
    pub subnets: Vec<ProxmoxVECloudNetworkConfigSubnet>,
}

pub struct ProxmoxVECloudNetworkConfigSubnet {
    pub subnet_type: String,
    pub address: Option<String>,
    pub netmask: Option<String>,
    pub gateway: Option<String>,
}

// ---- the model ----

/// The default route's destination for a gateway: `::/0` for an IPv6
/// gateway, `0.0.0.0/0` otherwise, whatever the subnet's family.
pub open spec fn gateway_destination(gateway: IpAddr) -> IpNetwork {
    match gateway {
        IpAddr::V6(_) => IpNetwork::V6(
            Ipv6Network { addr: Ipv6Addr(0, 0, 0, 0, 0, 0, 0, 0), prefix: 0 },
        ),
        IpAddr::V4(_) => IpNetwork::V4(Ipv4Network { addr: Ipv4Addr(0, 0, 0, 0), prefix: 0 }),
    }
}

/// The network a static subnet declares: address and netmask, or an address
/// in CIDR notation.
pub open spec fn subnet_network(address: Seq<char>, netmask: Option<Seq<char>>) -> Result<
    IpNetwork,
    NetError,
> {
    match netmask {
        Some(m) => match ip_from_text(address) {
            None => Err(NetError::InvalidIpAddress),
            Some(ip) => match ip_from_text(m) {
                None => Err(NetError::InvalidIpAddress),
                Some(mask) => cidr_of(ip, mask),
            },
        },
        None => match network_from_text(address) {
            None => Err(NetError::InvalidCidr),
            Some(n) => Ok(n),
        },
    }
}

/// What one subnet adds: for a type containing `static`, its network and,
/// with a gateway, a default route; for any other type (`dhcp`,
/// `ipv6_slaac`, ...) nothing.
pub open spec fn subnet_result(s: ProxmoxVECloudNetworkConfigSubnet) -> Result<
    (Seq<IpNetwork>, Seq<NetworkRoute>),
    NetError,
> {
    if !has_substring(s.subnet_type@, "static"@) {
        Ok((Seq::empty(), Seq::empty()))
    } else {
        match s.address {
            None => Err(NetError::MissingAddress),
            Some(a) => match subnet_network(a@, opt_view(s.netmask)) {
                Err(e) => Err(e),
                Ok(n) => match s.gateway {
                    None => Ok((seq![n], Seq::empty())),
                    Some(g) => match ip_from_text(g@) {
                        None => Err(NetError::InvalidIpAddress),
                        Some(gw) => Ok(
                            (
                                seq![n],
                                seq![NetworkRoute { destination: gateway_destination(gw), gateway: gw }],
                            ),
                        ),
                    },
                },
            },
        }
    }
}

/// The addresses and routes of a list of subnets, in order, or the first
/// failure.
pub open spec fn subnets_result(s: Seq<ProxmoxVECloudNetworkConfigSubnet>) -> Result<
    (Seq<IpNetwork>, Seq<NetworkRoute>),
    NetError,
>
    decreases s.len(),
{
    if s.len() == 0 {
        Ok((Seq::empty(), Seq::empty()))
    } else {
        match subnets_result(s.drop_last()) {
            Err(e) => Err(e),
            Ok((ips, routes)) => match subnet_result(s.last()) {
                Err(e) => Err(e),
                Ok((i2, r2)) => Ok((ips + i2, routes + r2)),
            },
        }
    }
}

pub open spec fn entry_interface(
    e: ProxmoxVECloudNetworkConfigEntry,
    mac: Option<crate::addr::MacAddr>,
    ips: Seq<IpNetwork>,
    routes: Seq<NetworkRoute>,
) -> InterfaceView {
    InterfaceView {
        name: opt_view(e.name),
        mac_address: mac,
        path: None,
        priority: 20,
        nameservers: Seq::empty(),
        ip_addresses: ips,
        dhcp: None,
        routes: routes,
        bond: None,
        unmanaged: false,
        required_for_online: None,
    }
}

/// The interface of a `physical` entry; any other type fails.
pub open spec fn to_interface_result(e: ProxmoxVECloudNetworkConfigEntry) -> Result<
    InterfaceView,
    NetError,
> {
    if e.network_type@ != "physical"@ {
        Err(NetError::UnsupportedConfigType)
    } else {
        match subnets_result(e.subnets@) {
            Err(x) => Err(x),
            Ok((ips, routes)) => match e.mac_address {
                None => Ok(entry_interface(e, None, ips, routes)),
                Some(m) => match mac_from_text(m@) {
                    None => Err(NetError::InvalidMacAddress),
                    Some(mac) => Ok(entry_interface(e, Some(mac), ips, routes)),
                },
            },
        }
    }
}

proof fn subnets_err_extends(s: Seq<ProxmoxVECloudNetworkConfigSubnet>, k: int, n: int, e: NetError)
    requires
        0 <= k <= n <= s.len(),
        subnets_result(s.subrange(0, k)) == Err::<(Seq<IpNetwork>, Seq<NetworkRoute>), NetError>(e),
    ensures
        subnets_result(s.subrange(0, n)) == Err::<(Seq<IpNetwork>, Seq<NetworkRoute>), NetError>(e),
    decreases n - k,
{
    if n > k {
        subnets_err_extends(s, k, n - 1, e);
        assert(s.subrange(0, n).drop_last() =~= s.subrange(0, n - 1));
    }
}

fn default_route_via(gateway: IpAddr) -> (r: NetworkRoute)
    ensures
        r == (NetworkRoute { destination: gateway_destination(gateway), gateway }),
{
    let destination = if gateway.is_ipv6() {
        IpNetwork::V6(Ipv6Network { addr: Ipv6Addr(0, 0, 0, 0, 0, 0, 0, 0), prefix: 0 })
    } else {
        IpNetwork::V4(Ipv4Network { addr: Ipv4Addr(0, 0, 0, 0), prefix: 0 })
    };
    NetworkRoute { destination, gateway }
}

fn network_of_subnet(address: &String, netmask: &Option<String>) -> (r: Result<IpNetwork, NetError>)
    ensures
        r == subnet_network(address@, opt_view(*netmask)),
{
    match netmask {
        Some(m) => {
            let ip = match parse_ip(address.as_str()) {
                Some(ip) => ip,
                None => {
                    return Err(NetError::InvalidIpAddress);
                },
            };
            let mask = match parse_ip(m.as_str()) {
                Some(mask) => mask,
                None => {
                    return Err(NetError::InvalidIpAddress);
                },
            };
            try_parse_cidr(ip, mask)
        },
        None => match parse_cidr(address.as_str()) {
            Some(n) => Ok(n),
            None => Err(NetError::InvalidCidr),
        },
    }
}

/// Adds what one subnet declares to `ips` and `routes`.
fn add_subnet(
    s: &ProxmoxVECloudNetworkConfigSubnet,
    ips: &mut Vec<IpNetwork>,
    routes: &mut Vec<NetworkRoute>,
) -> (r: Result<(), NetError>)
    ensures
        match subnet_result(*s) {
            Ok((i2, r2)) => r is Ok && final(ips)@ == old(ips)@ + i2 && final(routes)@ == old(
                routes,
            )@ + r2,
            Err(e) => r == Err::<(), NetError>(e),
        },
{
    if !str_contains(s.subnet_type.as_str(), "static") {
        assert(old(ips)@ + Seq::empty() =~= old(ips)@);
        assert(old(routes)@ + Seq::empty() =~= old(routes)@);
        return Ok(());
    }
    let address = match &s.address {
        Some(a) => a,
        None => {
            return Err(NetError::MissingAddress);
        },
    };
    let n = match network_of_subnet(address, &s.netmask) {
        Ok(n) => n,
        Err(e) => {
            return Err(e);
        },
    };
    match &s.gateway {
        Some(g) => {
            let gw = match parse_ip(g.as_str()) {
                Some(gw) => gw,
                None => {
                    return Err(NetError::InvalidIpAddress);
                },
            };
            ips.push(n);
            routes.push(default_route_via(gw));
            assert(final(routes)@ =~= old(routes)@ + seq![
                NetworkRoute { destination: gateway_destination(gw), gateway: gw },
            ]);
        },
        None => {
            ips.push(n);
            assert(old(routes)@ + Seq::empty() =~= old(routes)@);
        },
    }
    assert(final(ips)@ =~= old(ips)@ + seq![n]);
    Ok(())
}

impl ProxmoxVECloudNetworkConfigEntry {
    /// The interface that a `physical` entry describes: its name and MAC
    /// address, priority 20, and an address (and default route, given a
    /// gateway) for each static subnet.
    pub fn to_interface(&self) -> (r: Result<Interface, NetError>)
        ensures
            match (r, to_interface_result(*self)) {
                (Ok(i), Ok(v)) => i@ == v,
                (Err(e), Err(x)) => e == x,
                _ => false,
            },
    {
        let physical = "physical".to_owned();
        if !(self.network_type == physical) {
            return Err(NetError::UnsupportedConfigType);
        }
        let ghost subnets = self.subnets@;
        let mut ips: Vec<IpNetwork> = Vec::new();
        let mut routes: Vec<NetworkRoute> = Vec::new();
        let mut k: usize = 0;
        while k < self.subnets.len()
            invariant
                subnets == self.subnets@,
                self.network_type@ == "physical"@,
                k <= subnets.len(),
                subnets_result(subnets.subrange(0, k as int)) == Ok::<
                    (Seq<IpNetwork>, Seq<NetworkRoute>),
                    NetError,
                >((ips@, routes@)),
            decreases subnets.len() - k,
        {
            let ghost next = subnets.subrange(0, k + 1);
            assert(next.drop_last() =~= subnets.subrange(0, k as int));
            match add_subnet(&self.subnets[k], &mut ips, &mut routes) {
                Ok(()) => {},
                Err(e) => {
                    proof {
                        subnets_err_extends(subnets, k + 1, subnets.len() as int, e);
                        assert(subnets.subrange(0, subnets.len() as int) =~= subnets);
                    }
                    return Err(e);
                },
            }
            k += 1;
        }
        assert(subnets.subrange(0, subnets.len() as int) =~= subnets);
        let mac = match &self.mac_address {
            Some(m) => match parse_mac(m.as_str()) {
                Some(mac) => Some(mac),
                None => {
                    return Err(NetError::InvalidMacAddress);
                },
            },
            None => None,
        };
        let name = match &self.name {
            Some(n) => Some(n.clone()),
            None => None,
        };
        let iface = Interface {
            name,
            mac_address: mac,
            path: None,
            priority: 20,
            nameservers: Vec::new(),
            ip_addresses: ips,
            dhcp: None,
            routes,
            bond: None,
            unmanaged: false,
            required_for_online: None,
        };
        assert(iface@.nameservers =~= Seq::empty());
        Ok(iface)
    }
}

pub open spec fn nameserver_entries(s: Seq<ProxmoxVECloudNetworkConfigEntry>) -> Seq<
    ProxmoxVECloudNetworkConfigEntry,
>
    decreases s.len(),
{
    if s.len() == 0 {
        Seq::empty()
    } else {
        let p = nameserver_entries(s.drop_last());
        if s.last().network_type@ == "nameserver"@ {
            p.push(s.last())
        } else {
            p
        }
    }
}

/// The interfaces of the `physical` entries, in order, or the first failure.
pub open spec fn physical_results(s: Seq<ProxmoxVECloudNetworkConfigEntry>) -> Result<
    Seq<InterfaceView>,
    NetError,
>
    decreases s.len(),
{
    if s.len() == 0 {
        Ok(Seq::empty())
    } else {
        match physical_results(s.drop_last()) {
            Err(e) => Err(e),
            Ok(p) => if s.last().network_type@ == "physical"@ {
                match to_interface_result(s.last()) {
                    Err(e) => Err(e),
                    Ok(v) => Ok(p.push(v)),
                }
            } else {
                Ok(p)
            },
        }
    }
}

/// The addresses that the texts denote, or `None` when one does not parse.
pub open spec fn ips_from_texts(s: Seq<String>) -> Option<Seq<IpAddr>>
    decreases s.len(),
{
    if s.len() == 0 {
        Some(Seq::empty())
    } else {
        match ips_from_texts(s.drop_last()) {
            None => None,
            Some(p) => match ip_from_text(s.last()@) {
                None => None,
                Some(a) => Some(p.push(a)),
            },
        }
    }
}

pub open spec fn with_nameservers(v: InterfaceView, ns: Seq<IpAddr>) -> InterfaceView {
    InterfaceView {
        name: v.name,
        mac_address: v.mac_address,
        path: v.path,
        priority: v.priority,
        nameservers: ns,
        ip_addresses: v.ip_addresses,
        dhcp: v.dhcp,
        routes: v.routes,
        bond: v.bond,
        unmanaged: v.unmanaged,
        required_for_online: v.required_for_online,
    }
}

/// The interfaces of a network configuration: one per `physical` entry, the
/// first of them carrying the addresses of the only `nameserver` entry.
pub open spec fn proxmox_networks(cfg: ProxmoxVECloudNetworkConfig) -> Result<
    Seq<InterfaceView>,
    NetError,
> {
    let entries = cfg.config@;
    let ns = nameserver_entries(entries);
    if ns.len() > 1 {
        Err(NetError::TooManyNameservers)
    } else {
        match physical_results(entries) {
            Err(e) => Err(e),
            Ok(ifaces) => if ifaces.len() > 0 && ns.len() == 1 {
                match ips_from_texts(ns[0].address@) {
                    None => Err(NetError::InvalidIpAddress),
                    Some(ips) => Ok(ifaces.update(0, with_nameservers(ifaces[0], ips))),
                }
            } else {
                Ok(ifaces)
            },
        }
    }
}

proof fn physical_err_extends(s: Seq<ProxmoxVECloudNetworkConfigEntry>, k: int, n: int, e: NetError)
    requires
        0 <= k <= n <= s.len(),
        physical_results(s.subrange(0, k)) == Err::<Seq<InterfaceView>, NetError>(e),
    ensures
        physical_results(s.subrange(0, n)) == Err::<Seq<InterfaceView>, NetError>(e),
    decreases n - k,
{
    if n > k {
        physical_err_extends(s, k, n - 1, e);
        assert(s.subrange(0, n).drop_last() =~= s.subrange(0, n - 1));
    }
}

proof fn ips_none_extends(s: Seq<String>, k: int, n: int)
    requires
        0 <= k <= n <= s.len(),
        ips_from_texts(s.subrange(0, k)) is None,
    ensures
        ips_from_texts(s.subrange(0, n)) is None,
    decreases n - k,
{
    if n > k {
        ips_none_extends(s, k, n - 1);
        assert(s.subrange(0, n).drop_last() =~= s.subrange(0, n - 1));
    }
}

/// Parses each text as an IP address; `None` when one does not parse.
pub fn parse_ips(v: &Vec<String>) -> (r: Option<Vec<IpAddr>>)
    ensures
        match (r, ips_from_texts(v@)) {
            (Some(x), Some(y)) => x@ == y,
            (None, None) => true,
            _ => false,
        },
{
    let mut out: Vec<IpAddr> = Vec::new();
    let mut i: usize = 0;
    while i < v.len()
        invariant
            i <= v.len(),
            ips_from_texts(v@.subrange(0, i as int)) == Some(out@),
        decreases v.len() - i,
    {
        assert(v@.subrange(0, i + 1).drop_last() =~= v@.subrange(0, i as int));
        match parse_ip(v[i].as_str()) {
            Some(a) => out.push(a),
            None => {
                proof {
                    ips_none_extends(v@, i + 1, v.len() as int);
                    assert(v@.subrange(0, v.len() as int) =~= v@);
                }
                return None;
            },
        }
        i += 1;
    }
    assert(v@.subrange(0, v.len() as int) =~= v@);
    Some(out)
}

/// The addresses of the last IPv4 and the last IPv6 network of a list.
pub open spec fn last_of_family(s: Seq<IpNetwork>, v6: bool) -> Option<IpAddr>
    decreases s.len(),
{
    if s.len() == 0 {
        None
    } else if (s.last() is V6) == v6 {
        Some(s.last().ip())
    } else {
        last_of_family(s.drop_last(), v6)
    }
}

/// The attributes exported for the instance: hostname, instance id, and the
/// addresses of the first interface's last IPv4 and last IPv6 network.
pub open spec fn proxmox_attributes(cfg: ProxmoxVECloudConfig) -> Result<
    Seq<(Seq<char>, Seq<char>)>,
    NetError,
> {
    match proxmox_networks(cfg.network_config) {
        Err(e) => Err(e),
        Ok(ifaces) => {
            let base = seq![
                ("PROXMOXVE_HOSTNAME"@, cfg.user_data.hostname@),
                ("PROXMOXVE_INSTANCE_ID"@, cfg.meta_data.instance_id@),
            ];
            if ifaces.len() == 0 {
                Ok(base)
            } else {
                let ips = ifaces[0].ip_addresses;
                let with4 = match last_of_family(ips, false) {
                    Some(a) => base.push(("PROXMOXVE_IPV4"@, a.text())),
                    None => base,
                };
                Ok(
                    match last_of_family(ips, true) {
                        Some(a) => with4.push(("PROXMOXVE_IPV6"@, a.text())),
                        None => with4,
                    },
                )
            }
        },
    }
}

fn last_address(s: &Vec<IpNetwork>, v6: bool) -> (r: Option<IpAddr>)
    ensures
        r == last_of_family(s@, v6),
{
    let mut found: Option<IpAddr> = None;
    let mut i: usize = 0;
    while i < s.len()
        invariant
            i <= s.len(),
            found == last_of_family(s@.subrange(0, i as int), v6),
        decreases s.len() - i,
    {
        assert(s@.subrange(0, i + 1).drop_last() =~= s@.subrange(0, i as int));
        let n = s[i];
        let is_v6 = match n {
            IpNetwork::V4(_) => false,
            IpNetwork::V6(_) => true,
        };
        if is_v6 == v6 {
            found = Some(
                match n {
                    IpNetwork::V4(x) => IpAddr::V4(x.addr),
                    IpNetwork::V6(x) => IpAddr::V6(x.addr),
                },
            );
        }
        i += 1;
    }
    assert(s@.subrange(0, s.len() as int) =~= s@);
    found
}

impl ProxmoxVECloudConfig {
    /// The instance's authorized SSH keys.
    pub fn ssh_keys(&self) -> (r: Result<Vec<PublicKey>, NetError>)
        ensures
            r is Ok <==> keys_parse(self.user_data.ssh_authorized_keys@),
            r matches Ok(v) ==> v@.len() == self.user_data.ssh_authorized_keys@.len(),
            r matches Err(e) ==> e == NetError::InvalidSshKey,
    {
        parse_ssh_keys(&self.user_data.ssh_authorized_keys)
    }

    pub fn hostname(&self) -> (r: Option<String>)
        ensures
            r == Some(self.user_data.hostname),
    {
        Some(self.user_data.hostname.clone())
    }

    /// One interface per `physical` entry, in order; the first carries the
    /// nameservers. Fails with `TooManyNameservers` on more than one
    /// `nameserver` entry.
    pub fn networks(&self) -> (r: Result<Vec<Interface>, NetError>)
        ensures
            match (r, proxmox_networks(self.network_config)) {
                (Ok(i), Ok(v)) => interfaces_view(i@) == v,
                (Err(e), Err(x)) => e == x,
                _ => false,
            },
    {
        let ghost entries = self.network_config.config@;
        let nameserver = "nameserver".to_owned();
        let physical = "physical".to_owned();
        let mut count: usize = 0;
        let mut first: usize = 0;
        let mut i: usize = 0;
        while i < self.network_config.config.len()
            invariant
                entries == self.network_config.config@,
                nameserver@ == "nameserver"@,
                i <= entries.len(),
                count == nameserver_entries(entries.subrange(0, i as int)).len(),
                count <= i,
                count > 0 ==> first < i && nameserver_entries(entries.subrange(0, i as int))[0]
                    == entries[first as int],
            decreases entries.len() - i,
        {
            assert(entries.subrange(0, i + 1).drop_last() =~= entries.subrange(0, i as int));
            if self.network_config.config[i].network_type == nameserver {
                if count == 0 {
                    first = i;
                }
                count += 1;
            }
            i += 1;
        }
        assert(entries.subrange(0, entries.len() as int) =~= entries);
        if count > 1 {
            return Err(NetError::TooManyNameservers);
        }
        let ns_ips: Option<Vec<IpAddr>> = if count == 1 {
            parse_ips(&self.network_config.config[first].address)
        } else {
            None
        };
        let attach = count == 1 && ns_ips.is_some();
        let ghost gns: Seq<IpAddr> = if ns_ips is Some {
            ns_ips->Some_0@
        } else {
            Seq::empty()
        };
        let mut interfaces: Vec<Interface> = Vec::new();
        let mut j: usize = 0;
        while j < self.network_config.config.len()
            invariant
                entries == self.network_config.config@,
                physical@ == "physical"@,
                nameserver_entries(entries).len() == count,
                count <= 1,
                j <= entries.len(),
                attach ==> (ns_ips matches Some(x) && x@ == gns),
                physical_results(entries.subrange(0, j as int)) matches Ok(p) && interfaces_view(
                    interfaces@,
                ) == (if attach && p.len() > 0 {
                    p.update(0, with_nameservers(p[0], gns))
                } else {
                    p
                }),
            decreases entries.len() - j,
        {
            let ghost pre = entries.subrange(0, j as int);
            assert(entries.subrange(0, j + 1).drop_last() =~= pre);
            let entry = &self.network_config.config[j];
            if entry.network_type == physical {
                match entry.to_interface() {
                    Ok(iface) => {
                        let mut iface = iface;
                        if attach && interfaces.len() == 0 {
                            match &ns_ips {
                                Some(x) => {
                                    iface.nameservers = copy_addrs(x);
                                },
                                None => {},
                            }
                        }
                        let ghost old_ifaces = interfaces@;
                        let ghost p = physical_results(pre)->Ok_0;
                        interfaces.push(iface);
                        proof {
                            lemma_interfaces_view_push(old_ifaces, iface);
                            let v = to_interface_result(*entry)->Ok_0;
                            let np = p.push(v);
                            if attach && np.len() > 0 {
                                if p.len() > 0 {
                                    assert(np.update(0, with_nameservers(np[0], gns)) =~= p.update(
                                        0,
                                        with_nameservers(p[0], gns),
                                    ).push(v));
                                } else {
                                    assert(iface@ =~= with_nameservers(v, gns));
                                    assert(np.update(0, with_nameservers(np[0], gns))
                                        =~= seq![with_nameservers(v, gns)]);
                                    assert(interfaces_view(interfaces@) =~= seq![iface@]);
                                }
                            }
                        }
                    },
                    Err(e) => {
                        proof {
                            physical_err_extends(entries, j + 1, entries.len() as int, e);
                            assert(entries.subrange(0, entries.len() as int) =~= entries);
                        }
                        return Err(e);
                    },
                }
            }
            j += 1;
        }
        assert(entries.subrange(0, entries.len() as int) =~= entries);
        if count == 1 && interfaces.len() > 0 && !attach {
            return Err(NetError::InvalidIpAddress);
        }
        Ok(interfaces)
    }

    /// The instance's attributes, as key and value pairs with distinct keys.
    pub fn attributes(&self) -> (r: Result<Vec<(String, String)>, NetError>)
        ensures
            match (r, proxmox_attributes(*self)) {
                (Ok(a), Ok(v)) => a@.map_values(|p: (String, String)| (p.0@, p.1@)) == v,
                (Err(e), Err(x)) => e == x,
                _ => false,
            },
    {
        let interfaces = match self.networks() {
            Ok(i) => i,
            Err(e) => {
                return Err(e);
            },
        };
        let mut out: Vec<(String, String)> = Vec::new();
        out.push(("PROXMOXVE_HOSTNAME".to_owned(), self.user_data.hostname.clone()));
        out.push(("PROXMOXVE_INSTANCE_ID".to_owned(), self.meta_data.instance_id.clone()));
        if interfaces.len() > 0 {
            assert(interfaces_view(interfaces@)[0] == interfaces@[0]@);
            if let Some(a) = last_address(&interfaces[0].ip_addresses, false) {
                out.push(("PROXMOXVE_IPV4".to_owned(), a.to_string()));
            }
            if let Some(a) = last_address(&interfaces[0].ip_addresses, true) {
                out.push(("PROXMOXVE_IPV6".to_owned(), a.to_string()));
            }
        }
        assert(out@.map_values(|p: (String, String)| (p.0@, p.1@)) =~= proxmox_attributes(
            *self,
        )->Ok_0);
        Ok(out)
    }
}

} // verus!

verus! {

pub open spec fn texts_view(s: Seq<String>) -> Seq<Seq<char>> {
    s.map_values(|t: String| t@)
}

/// Two subnets that hold the same texts.
pub open spec fn same_subnet(a: ProxmoxVECloudNetworkConfigSubnet, b: ProxmoxVECloudNetworkConfigSubnet) -> bool {
    &&& a.subnet_type@ == b.subnet_type@
    &&& opt_view(a.address) == opt_view(b.address)
    &&& opt_view(a.netmask) == opt_view(b.netmask)
    &&& opt_view(a.gateway) == opt_view(b.gateway)
}

/// Two entries that hold the same texts.
pub open spec fn same_entry(a: ProxmoxVECloudNetworkConfigEntry, b: ProxmoxVECloudNetworkConfigEntry) -> bool {
    &&& a.network_type@ == b.network_type@
    &&& opt_view(a.name) == opt_view(b.name)
    &&& opt_view(a.mac_address) == opt_view(b.mac_address)
    &&& texts_view(a.address@) == texts_view(b.address@)
    &&& a.subnets@.len() == b.subnets@.len()
    &&& forall|i: int| 0 <= i < a.subnets@.len() ==> same_subnet(#[trigger] a.subnets@[i], b.subnets@[i])
}

/// Two lists of entries that hold the same texts, entry by entry.
pub open spec fn same_entries(a: Seq<ProxmoxVECloudNetworkConfigEntry>, b: Seq<ProxmoxVECloudNetworkConfigEntry>) -> bool {
    a.len() == b.len() && forall|i: int| 0 <= i < a.len() ==> same_entry(#[trigger] a[i], b[i])
}

proof fn lemma_same_subnets(a: Seq<ProxmoxVECloudNetworkConfigSubnet>, b: Seq<ProxmoxVECloudNetworkConfigSubnet>)
    requires
        a.len() == b.len(),
        forall|i: int| 0 <= i < a.len() ==> same_subnet(#[trigger] a[i], b[i]),
    ensures
        subnets_result(a) == subnets_result(b),
    decreases a.len(),
{
    if a.len() > 0 {
        let (da, db) = (a.drop_last(), b.drop_last());
        assert forall|i: int| 0 <= i < da.len() implies same_subnet(#[trigger] da[i], db[i]) by {
            assert(same_subnet(a[i], b[i]));
        }
        lemma_same_subnets(da, db);
        assert(same_subnet(a[a.len() - 1], b[b.len() - 1]));
    }
}

proof fn lemma_same_entry(a: ProxmoxVECloudNetworkConfigEntry, b: ProxmoxVECloudNetworkConfigEntry)
    requires
        same_entry(a, b),
    ensures
        to_interface_result(a) == to_interface_result(b),
{
    lemma_same_subnets(a.subnets@, b.subnets@);
}

proof fn lemma_same_texts(a: Seq<String>, b: Seq<String>)
    requires
        texts_view(a) == texts_view(b),
    ensures
        ips_from_texts(a) == ips_from_texts(b),
    decreases a.len(),
{
    assert(a.len() == texts_view(a).len());
    if a.len() > 0 {
        assert(texts_view(a.drop_last()) =~= texts_view(b.drop_last())) by {
            assert forall|i: int| 0 <= i < a.len() - 1 implies texts_view(a.drop_last())[i]
                == texts_view(b.drop_last())[i] by {
                assert(texts_view(a)[i] == texts_view(b)[i]);
            }
        }
        lemma_same_texts(a.drop_last(), b.drop_last());
        assert(texts_view(a)[a.len() - 1] == a.last()@);
    }
}

proof fn lemma_same_entries(a: Seq<ProxmoxVECloudNetworkConfigEntry>, b: Seq<ProxmoxVECloudNetworkConfigEntry>)
    requires
        same_entries(a, b),
    ensures
        physical_results(a) == physical_results(b),
        same_entries(nameserver_entries(a), nameserver_entries(b)),
    decreases a.len(),
{
    if a.len() > 0 {
        let (da, db) = (a.drop_last(), b.drop_last());
        assert forall|i: int| 0 <= i < da.len() implies same_entry(#[trigger] da[i], db[i]) by {
            assert(same_entry(a[i], b[i]));
        }
        lemma_same_entries(da, db);
        assert(same_entry(a[a.len() - 1], b[b.len() - 1]));
        lemma_same_entry(a.last(), b.last());
        let (na, nb) = (nameserver_entries(a), nameserver_entries(b));
        assert forall|i: int| 0 <= i < na.len() implies same_entry(#[trigger] na[i], nb[i]) by {
            if i < nameserver_entries(da).len() {
                assert(same_entry(nameserver_entries(da)[i], nameserver_entries(db)[i]));
            }
        }
    }
}

/// The virtualization-platform adapter is deterministic: configurations
/// whose entries hold the same texts give the same interfaces, in the same
/// order, or the same failure.
pub proof fn lemma_proxmox_networks_deterministic(
    a: ProxmoxVECloudNetworkConfig,
    b: ProxmoxVECloudNetworkConfig,
)
    requires
        same_entries(a.config@, b.config@),
    ensures
        proxmox_networks(a) == proxmox_networks(b),
{
    lemma_same_entries(a.config@, b.config@);
    let (na, nb) = (nameserver_entries(a.config@), nameserver_entries(b.config@));
    if na.len() == 1 {
        assert(same_entry(na[0], nb[0]));
        lemma_same_texts(na[0].address@, nb[0].address@);
    }
}

} // verus!
