use afterburn_net::addr::{IpAddr, IpNetwork, Ipv4Addr, Ipv4Network, Ipv6Addr, Ipv6Network, MacAddr};
use afterburn_net::network::{
    bonding_mode_to_string, try_parse_cidr, DhcpSetting, Interface, NetDevKind, NetError,
    NetworkRoute, SdSection, VirtualNetDev,
};

fn bare(name: Option<&str>, mac: Option<MacAddr>, path: Option<&str>, priority: u8) -> Interface {
    Interface {
        name: name.map(String::from),
        mac_address: mac,
        path: path.map(String::from),
        priority,
        nameservers: vec![],
        ip_addresses: vec![],
        dhcp: None,
        routes: vec![],
        bond: None,
        unmanaged: false,
        required_for_online: None,
    }
}

#[test]
fn mac_addr_display() {
    let m = MacAddr(0xf4, 0x00, 0x34, 0x09, 0x73, 0xee);
    assert_eq!(m.to_string(), "f4:00:34:09:73:ee");
}

#[test]
fn interface_unit_name() {
    let cases = vec![
        (bare(Some("lo"), Some(MacAddr(0, 0, 0, 0, 0, 0)), None, 20), "20-lo.network"),
        (bare(Some("lo"), Some(MacAddr(0, 0, 0, 0, 0, 0)), None, 10), "10-lo.network"),
        (bare(None, Some(MacAddr(0, 0, 0, 0, 0, 0)), None, 20), "20-00:00:00:00:00:00.network"),
        (bare(Some("lo"), None, None, 20), "20-lo.network"),
        (bare(None, None, Some("pci-*"), 20), "20-pci-*.network"),
    ];
    for (iface, expected) in cases {
        let unit_name = iface.sd_network_unit_name().unwrap();
        assert_eq!(unit_name, expected);
    }
}

#[test]
fn interface_unit_name_no_name_no_mac() {
    let i = bare(None, None, None, 20);
    i.sd_network_unit_name().unwrap_err();
}

#[test]
fn virtual_netdev_unit_name() {
    let ds = vec![
        (
            VirtualNetDev {
                name: String::from("vlan0"),
                kind: NetDevKind::Vlan,
                mac_address: MacAddr(0, 0, 0, 0, 0, 0),
                priority: Some(20),
                sd_netdev_sections: vec![],
            },
            "20-vlan0.netdev",
        ),
        (
            VirtualNetDev {
                name: String::from("vlan0"),
                kind: NetDevKind::Vlan,
                mac_address: MacAddr(0, 0, 0, 0, 0, 0),
                priority: None,
                sd_netdev_sections: vec![],
            },
            "10-vlan0.netdev",
        ),
    ];
    for (d, s) in ds {
        assert_eq!(d.netdev_unit_name(), s);
    }
}

#[test]
fn interface_config() {
    let is = vec![
        (
            Interface {
                name: Some(String::from("lo")),
                mac_address: Some(MacAddr(0, 0, 0, 0, 0, 0)),
                path: None,
                priority: 20,
                nameservers: vec![
                    IpAddr::V4(Ipv4Addr::new(127, 0, 0, 1)),
                    IpAddr::V6(Ipv6Addr::new(0, 0, 0, 0, 0, 0, 0, 1)),
                ],
                ip_addresses: vec![
                    IpNetwork::V4(Ipv4Network::new(Ipv4Addr::new(127, 0, 0, 1), 8).unwrap()),
                    IpNetwork::V6(
                        Ipv6Network::new(Ipv6Addr::new(0, 0, 0, 0, 0, 0, 0, 1), 128).unwrap(),
                    ),
                ],
                dhcp: None,
                routes: vec![NetworkRoute {
                    destination: IpNetwork::V4(
                        Ipv4Network::new(Ipv4Addr::new(127, 0, 0, 1), 8).unwrap(),
                    ),
                    gateway: IpAddr::V4(Ipv4Addr::new(127, 0, 0, 1)),
                }],
                bond: Some(String::from("james")),
                unmanaged: false,
                required_for_online: None,
            },
            "[Match]
Name=lo
MACAddress=00:00:00:00:00:00

[Network]
DNS=127.0.0.1
DNS=::1
Bond=james

[Address]
Address=127.0.0.1/8

[Address]
Address=::1/128

[Route]
Destination=127.0.0.1/8
Gateway=127.0.0.1
",
        ),
        (
            bare(None, None, None, 10),
            "[Match]

[Network]
",
        ),
        (
            Interface {
                required_for_online: Some("no".to_owned()),
                ..bare(None, None, Some("pci-*"), 10)
            },
            "[Match]
Path=pci-*

[Network]

[Link]
RequiredForOnline=no
",
        ),
        (
            Interface { unmanaged: true, ..bare(Some("*"), None, None, 10) },
            "[Match]
Name=*

[Network]

[Link]
Unmanaged=yes
",
        ),
        (
            Interface { dhcp: Some(DhcpSetting::V4), ..bare(Some("*"), None, None, 10) },
            "[Match]
Name=*

[Network]
DHCP=ipv4
",
        ),
    ];
    for (i, s) in is {
        assert_eq!(i.config(), s);
    }
}

#[test]
fn virtual_netdev_config() {
    let ds = vec![
        (
            VirtualNetDev {
                name: String::from("vlan0"),
                kind: NetDevKind::Vlan,
                mac_address: MacAddr(0, 0, 0, 0, 0, 0),
                priority: Some(20),
                sd_netdev_sections: vec![
                    SdSection {
                        name: String::from("Test"),
                        attributes: vec![
                            (String::from("foo"), String::from("bar")),
                            (String::from("oingo"), String::from("boingo")),
                        ],
                    },
                    SdSection { name: String::from("Empty"), attributes: vec![] },
                ],
            },
            "[NetDev]
Name=vlan0
Kind=vlan
MACAddress=00:00:00:00:00:00

[Test]
foo=bar
oingo=boingo

[Empty]
",
        ),
        (
            VirtualNetDev {
                name: String::from("vlan0"),
                kind: NetDevKind::Vlan,
                mac_address: MacAddr(0, 0, 0, 0, 0, 0),
                priority: Some(20),
                sd_netdev_sections: vec![],
            },
            "[NetDev]
Name=vlan0
Kind=vlan
MACAddress=00:00:00:00:00:00
",
        ),
    ];
    for (d, s) in ds {
        assert_eq!(d.sd_netdev_config(), s);
    }
}

#[test]
fn unit_name_from_each_single_identifier() {
    let mac = MacAddr(0x52, 0x54, 0x00, 0xab, 0xcd, 0xef);
    assert_eq!(bare(Some("eth0"), None, None, 7).sd_network_unit_name().unwrap(), "07-eth0.network");
    assert_eq!(
        bare(None, Some(mac), None, 7).sd_network_unit_name().unwrap(),
        "07-52:54:00:ab:cd:ef.network"
    );
    assert_eq!(bare(None, None, Some("pci-1"), 7).sd_network_unit_name().unwrap(), "07-pci-1.network");
    assert_eq!(bare(None, None, None, 7).sd_network_unit_name(), Err(NetError::MissingIdentifier));
}

#[test]
fn unit_name_priority_not_truncated() {
    assert_eq!(bare(Some("lo"), None, None, 100).sd_network_unit_name().unwrap(), "100-lo.network");
    assert_eq!(bare(Some("lo"), None, None, 0).sd_network_unit_name().unwrap(), "00-lo.network");
    assert_eq!(bare(Some("lo"), None, None, 255).sd_network_unit_name().unwrap(), "255-lo.network");
}

#[test]
fn unit_name_name_wins_over_mac_and_path() {
    let i = bare(Some("lo"), Some(MacAddr(0, 0, 0, 0, 0, 0)), Some("pci-*"), 20);
    assert_eq!(i.sd_network_unit_name().unwrap(), "20-lo.network");
    let j = bare(None, Some(MacAddr(0, 0, 0, 0, 0, 0)), Some("pci-*"), 20);
    assert_eq!(j.sd_network_unit_name().unwrap(), "20-00:00:00:00:00:00.network");
}

#[test]
fn netdev_unit_name_large_priority() {
    let d = VirtualNetDev {
        name: String::from("bond0"),
        kind: NetDevKind::Bond,
        mac_address: MacAddr(0, 0, 0, 0, 0, 0),
        priority: Some(4096),
        sd_netdev_sections: vec![],
    };
    assert_eq!(d.netdev_unit_name(), "4096-bond0.netdev");
}

#[test]
fn bonding_modes() {
    let expected = [
        (0, "balance-rr"),
        (1, "active-backup"),
        (2, "balance-xor"),
        (3, "broadcast"),
        (4, "802.3ad"),
        (5, "balance-tlb"),
        (6, "balance-alb"),
    ];
    for (m, s) in expected {
        assert_eq!(bonding_mode_to_string(m).unwrap(), s);
    }
    assert_eq!(bonding_mode_to_string(7), Err(NetError::UnknownBondingMode));
    assert_eq!(bonding_mode_to_string(u32::MAX), Err(NetError::UnknownBondingMode));
}

#[test]
fn dhcp_and_kind_names() {
    assert_eq!(DhcpSetting::Both.sd_dhcp_setting(), "yes");
    assert_eq!(DhcpSetting::V4.sd_dhcp_setting(), "ipv4");
    assert_eq!(DhcpSetting::V6.sd_dhcp_setting(), "ipv6");
    assert_eq!(NetDevKind::Bond.sd_netdev_kind(), "bond");
    assert_eq!(NetDevKind::Vlan.sd_netdev_kind(), "vlan");
}

#[test]
fn config_full_link_section_and_dhcp_both() {
    let i = Interface {
        dhcp: Some(DhcpSetting::Both),
        unmanaged: true,
        required_for_online: Some("degraded-carrier".to_owned()),
        ..bare(Some("eth1"), None, None, 10)
    };
    assert_eq!(
        i.config(),
        "[Match]\nName=eth1\n\n[Network]\nDHCP=yes\n\n[Link]\nUnmanaged=yes\nRequiredForOnline=degraded-carrier\n"
    );
}

#[test]
fn try_parse_cidr_cases() {
    let addr = IpAddr::V4(Ipv4Addr::new(192, 0, 2, 7));
    let n = try_parse_cidr(addr, IpAddr::V4(Ipv4Addr::new(255, 255, 255, 0))).unwrap();
    assert_eq!(n, IpNetwork::V4(Ipv4Network::new(Ipv4Addr::new(192, 0, 2, 7), 24).unwrap()));
    assert_eq!(n.to_string(), "192.0.2.7/24");
    let z = try_parse_cidr(addr, IpAddr::V4(Ipv4Addr::new(0, 0, 0, 0))).unwrap();
    assert_eq!(z.to_string(), "192.0.2.7/0");
    let full = try_parse_cidr(addr, IpAddr::V4(Ipv4Addr::new(255, 255, 255, 255))).unwrap();
    assert_eq!(full.to_string(), "192.0.2.7/32");
    assert_eq!(
        try_parse_cidr(addr, IpAddr::V4(Ipv4Addr::new(255, 0, 255, 0))),
        Err(NetError::InvalidNetmask)
    );
    let v6mask = IpAddr::V6(Ipv6Addr::new(0xffff, 0xffff, 0xffff, 0xffff, 0, 0, 0, 0));
    assert_eq!(try_parse_cidr(addr, v6mask), Err(NetError::InvalidCidr));
    let v6 = IpAddr::V6(Ipv6Addr::new(0x2001, 0xdb8, 0, 0, 0, 0, 0, 1));
    assert_eq!(try_parse_cidr(v6, v6mask).unwrap().to_string(), "2001:db8::1/64");
    let v6bad = IpAddr::V6(Ipv6Addr::new(0xffff, 0xff00, 0x00ff, 0, 0, 0, 0, 0));
    assert_eq!(try_parse_cidr(v6, v6bad), Err(NetError::InvalidNetmask));
}
