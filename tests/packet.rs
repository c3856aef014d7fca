use afterburn_net::addr::{IpAddr, Ipv4Addr, Ipv6Addr, MacAddr};
use afterburn_net::network::{NetDevKind, NetError};
use afterburn_net::packet::{
    PacketAddressInfo, PacketBondingMode, PacketData, PacketInterfaceInfo, PacketNetworkInfo,
    PacketProvider,
};

fn nic(name: &str, mac: &str, bond: Option<&str>) -> PacketInterfaceInfo {
    PacketInterfaceInfo { name: name.to_owned(), mac: mac.to_owned(), bond: bond.map(String::from) }
}

fn v4(a: u8, b: u8, c: u8, d: u8) -> IpAddr {
    IpAddr::V4(Ipv4Addr::new(a, b, c, d))
}

fn address(public: bool, address: IpAddr, netmask: IpAddr, gateway: IpAddr) -> PacketAddressInfo {
    PacketAddressInfo {
        id: "id".to_owned(),
        address_family: if matches!(address, IpAddr::V4(_)) { 4 } else { 6 },
        public,
        management: true,
        address,
        netmask,
        gateway,
    }
}

fn provider(
    interfaces: Vec<PacketInterfaceInfo>,
    addresses: Vec<PacketAddressInfo>,
    mode: u32,
) -> PacketProvider {
    PacketProvider::new(PacketData {
        id: "instance".to_owned(),
        hostname: "host1".to_owned(),
        iqn: "iqn".to_owned(),
        plan: "c3.small".to_owned(),
        facility: "ams1".to_owned(),
        tags: vec![],
        ssh_keys: vec![],
        network: PacketNetworkInfo { interfaces, addresses, bonding: PacketBondingMode { mode } },
        error: None,
        phone_home_url: "https://example.invalid/phone-home".to_owned(),
    })
}

fn dns() -> Vec<IpAddr> {
    vec![v4(147, 75, 207, 207), v4(147, 75, 207, 208)]
}

#[test]
fn bond_and_fallback_scenario() {
    let p = provider(
        vec![nic("eth0", "0c:c4:7a:00:00:01", Some("bond0")), nic("eth1", "0c:c4:7a:00:00:02", None)],
        vec![address(true, v4(147, 75, 1, 10), v4(255, 255, 255, 254), v4(147, 75, 1, 9))],
        4,
    );
    let (ifaces, devs) = p.parse_network(&dns()).unwrap();
    assert_eq!(ifaces.len(), 4);

    let tagged = &ifaces[0];
    assert_eq!(tagged.mac_address, Some(MacAddr(0x0c, 0xc4, 0x7a, 0, 0, 1)));
    assert_eq!(tagged.name, None);
    assert_eq!(tagged.priority, 10);
    assert!(!tagged.unmanaged);
    assert_eq!(tagged.required_for_online, Some("no".to_owned()));
    assert_eq!(tagged.bond, Some("bond0".to_owned()));

    let untagged = &ifaces[1];
    assert!(untagged.unmanaged);
    assert_eq!(untagged.required_for_online, None);
    assert_eq!(untagged.bond, None);

    let bond = &ifaces[2];
    assert_eq!(bond.name, Some("bond0".to_owned()));
    assert_eq!(bond.priority, 5);
    assert_eq!(bond.nameservers, dns());
    assert_eq!(bond.required_for_online, Some("degraded-carrier".to_owned()));
    assert_eq!(bond.ip_addresses.len(), 1);
    assert_eq!(bond.ip_addresses[0].to_string(), "147.75.1.10/31");
    assert_eq!(bond.routes.len(), 1);
    assert_eq!(bond.routes[0].destination.to_string(), "0.0.0.0/0");
    assert_eq!(bond.routes[0].gateway, v4(147, 75, 1, 9));

    let fallback = &ifaces[3];
    assert_eq!(fallback.path, Some("pci-*".to_owned()));
    assert_eq!(fallback.priority, 80);
    assert!(fallback.unmanaged);
    assert_eq!(fallback.sd_network_unit_name().unwrap(), "80-pci-*.network");

    assert_eq!(devs.len(), 1);
    assert_eq!(devs[0].name, "bond0");
    assert_eq!(devs[0].kind, NetDevKind::Bond);
    assert_eq!(devs[0].mac_address, MacAddr(0x0c, 0xc4, 0x7a, 0, 0, 1));
    assert_eq!(devs[0].priority, Some(5));
    assert_eq!(
        devs[0].sd_netdev_config(),
        "[NetDev]\nName=bond0\nKind=bond\nMACAddress=0c:c4:7a:00:00:01\n\n[Bond]\n\
TransmitHashPolicy=layer3+4\nMIIMonitorSec=.1\nUpDelaySec=.2\nDownDelaySec=.2\nMode=802.3ad\nLACPTransmitRate=fast\n"
    );
    assert_eq!(devs[0].netdev_unit_name(), "05-bond0.netdev");
}

#[test]
fn route_destinations_and_first_bond() {
    let p = provider(
        vec![
            nic("eth0", "00:00:00:00:00:01", Some("bond0")),
            nic("eth1", "00:00:00:00:00:02", Some("bond1")),
            nic("eth2", "00:00:00:00:00:03", Some("bond0")),
        ],
        vec![
            address(false, v4(10, 1, 2, 3), v4(255, 255, 255, 128), v4(10, 1, 2, 1)),
            address(
                true,
                IpAddr::V6(Ipv6Addr::new(0x2604, 0x1380, 0, 0, 0, 0, 0, 2)),
                IpAddr::V6(Ipv6Addr::new(0xffff, 0xffff, 0xffff, 0xffff, 0xffff, 0xffff, 0xffff, 0xfffe)),
                IpAddr::V6(Ipv6Addr::new(0x2604, 0x1380, 0, 0, 0, 0, 0, 1)),
            ),
        ],
        1,
    );
    let (ifaces, devs) = p.parse_network(&dns()).unwrap();
    assert_eq!(ifaces.len(), 3 + 2 + 1);
    assert_eq!(ifaces[3].name, Some("bond0".to_owned()));
    assert_eq!(ifaces[4].name, Some("bond1".to_owned()));
    let first = &ifaces[3];
    assert_eq!(first.ip_addresses[0].to_string(), "10.1.2.3/25");
    assert_eq!(first.ip_addresses[1].to_string(), "2604:1380::2/127");
    assert_eq!(first.routes[0].destination.to_string(), "10.0.0.0/8");
    assert_eq!(first.routes[1].destination.to_string(), "::/0");
    assert!(ifaces[4].ip_addresses.is_empty());
    assert!(ifaces[4].routes.is_empty());
    assert_eq!(devs.len(), 2);
    assert_eq!(devs[0].mac_address, MacAddr(0, 0, 0, 0, 0, 1));
    assert_eq!(devs[1].mac_address, MacAddr(0, 0, 0, 0, 0, 2));
    assert_eq!(devs[1].sd_netdev_sections[0].attributes.len(), 5);
    assert_eq!(devs[1].sd_netdev_sections[0].attributes[4], ("Mode".to_owned(), "active-backup".to_owned()));
}

#[test]
fn no_bond_leaves_addresses_unassigned() {
    let p = provider(
        vec![nic("eth0", "00:00:00:00:00:01", None)],
        vec![address(true, v4(147, 75, 1, 10), v4(255, 0, 255, 0), v4(147, 75, 1, 9))],
        99,
    );
    let (ifaces, devs) = p.parse_network(&dns()).unwrap();
    assert_eq!(ifaces.len(), 1);
    assert!(ifaces[0].unmanaged);
    assert!(devs.is_empty());
}

#[test]
fn packet_errors() {
    let bad_mac = provider(vec![nic("eth0", "not-a-mac", Some("bond0"))], vec![], 4);
    assert_eq!(bad_mac.parse_network(&dns()), Err(NetError::InvalidMacAddress));
    let bad_mode = provider(vec![nic("eth0", "00:00:00:00:00:01", Some("bond0"))], vec![], 7);
    assert_eq!(bad_mode.parse_network(&dns()), Err(NetError::UnknownBondingMode));
    let bad_mask = provider(
        vec![nic("eth0", "00:00:00:00:00:01", Some("bond0"))],
        vec![address(true, v4(147, 75, 1, 10), v4(255, 0, 255, 0), v4(147, 75, 1, 9))],
        4,
    );
    assert_eq!(bad_mask.networks(&dns()), Err(NetError::InvalidNetmask));
    assert_eq!(bad_mask.virtual_network_devices(&dns()), Err(NetError::InvalidNetmask));
}

#[test]
fn packet_idempotent() {
    let make = || {
        provider(
            vec![nic("eth0", "00:00:00:00:00:01", Some("bond0")), nic("eth1", "00:00:00:00:00:02", None)],
            vec![address(false, v4(10, 0, 0, 5), v4(255, 255, 255, 0), v4(10, 0, 0, 1))],
            4,
        )
    };
    let a = make().parse_network(&dns()).unwrap();
    let b = make().parse_network(&dns()).unwrap();
    assert_eq!(a, b);
    let ca: Vec<String> = a.0.iter().map(|i| i.config()).collect();
    let cb: Vec<String> = b.0.iter().map(|i| i.config()).collect();
    assert_eq!(ca, cb);
}

#[test]
fn packet_attributes() {
    let p = provider(
        vec![],
        vec![
            address(true, v4(147, 75, 1, 10), v4(255, 255, 255, 254), v4(147, 75, 1, 9)),
            address(false, v4(10, 1, 2, 3), v4(255, 255, 255, 128), v4(10, 1, 2, 1)),
            address(
                true,
                IpAddr::V6(Ipv6Addr::new(0x2604, 0x1380, 0, 0, 0, 0, 0, 2)),
                IpAddr::V6(Ipv6Addr::new(0xffff, 0xffff, 0xffff, 0xffff, 0xffff, 0xffff, 0xffff, 0xfffe)),
                IpAddr::V6(Ipv6Addr::new(0x2604, 0x1380, 0, 0, 0, 0, 0, 1)),
            ),
            address(true, v4(147, 75, 1, 20), v4(255, 255, 255, 254), v4(147, 75, 1, 19)),
        ],
        4,
    );
    let attrs = p.attributes();
    let expected: Vec<(String, String)> = vec![
        ("PACKET_IPV4_PUBLIC_0", "147.75.1.10"),
        ("PACKET_IPV4_PUBLIC_GATEWAY_0", "147.75.1.9"),
        ("PACKET_IPV4_PRIVATE_0", "10.1.2.3"),
        ("PACKET_IPV4_PRIVATE_GATEWAY_0", "10.1.2.1"),
        ("PACKET_IPV6_PUBLIC_0", "2604:1380::2"),
        ("PACKET_IPV6_PUBLIC_GATEWAY_0", "2604:1380::1"),
        ("PACKET_IPV4_PUBLIC_1", "147.75.1.20"),
        ("PACKET_IPV4_PUBLIC_GATEWAY_1", "147.75.1.19"),
        ("PACKET_HOSTNAME", "host1"),
        ("PACKET_PHONE_HOME_URL", "https://example.invalid/phone-home"),
        ("PACKET_PLAN", "c3.small"),
    ]
    .into_iter()
    .map(|(k, v)| (k.to_owned(), v.to_owned()))
    .collect();
    assert_eq!(attrs, expected);
    assert_eq!(p.hostname(), Some("host1".to_owned()));
}
