use afterburn_net::addr::{IpAddr, Ipv4Addr, MacAddr};
use afterburn_net::network::NetError;
use afterburn_net::proxmoxve::{
    ProxmoxVECloudChpasswdConfig, ProxmoxVECloudConfig, ProxmoxVECloudMetaData,
    ProxmoxVECloudNetworkConfig, ProxmoxVECloudNetworkConfigEntry,
    ProxmoxVECloudNetworkConfigSubnet, ProxmoxVECloudUserData, ProxmoxVECloudVendorData,
};

fn subnet(t: &str, address: Option<&str>, netmask: Option<&str>, gateway: Option<&str>) -> ProxmoxVECloudNetworkConfigSubnet {
    ProxmoxVECloudNetworkConfigSubnet {
        subnet_type: t.to_owned(),
        address: address.map(String::from),
        netmask: netmask.map(String::from),
        gateway: gateway.map(String::from),
    }
}

fn physical(name: &str, mac: Option<&str>, subnets: Vec<ProxmoxVECloudNetworkConfigSubnet>) -> ProxmoxVECloudNetworkConfigEntry {
    ProxmoxVECloudNetworkConfigEntry {
        network_type: "physical".to_owned(),
        name: Some(name.to_owned()),
        mac_address: mac.map(String::from),
        address: vec![],
        search: vec![],
        subnets,
    }
}

fn nameserver(addresses: &[&str]) -> ProxmoxVECloudNetworkConfigEntry {
    ProxmoxVECloudNetworkConfigEntry {
        network_type: "nameserver".to_owned(),
        name: None,
        mac_address: None,
        address: addresses.iter().map(|a| a.to_string()).collect(),
        search: vec!["example.com".to_owned()],
        subnets: vec![],
    }
}

fn config(entries: Vec<ProxmoxVECloudNetworkConfigEntry>) -> ProxmoxVECloudConfig {
    ProxmoxVECloudConfig {
        meta_data: ProxmoxVECloudMetaData { instance_id: "15a9919cb91024fbd1d70fa07f0efa749cbba03b".to_owned() },
        user_data: ProxmoxVECloudUserData {
            hostname: "dummy".to_owned(),
            manage_etc_hosts: true,
            fqdn: "dummy.example.com".to_owned(),
            chpasswd: ProxmoxVECloudChpasswdConfig { expire: false },
            users: vec!["default".to_owned()],
            package_upgrade: true,
            ssh_authorized_keys: vec![],
        },
        vendor_data: ProxmoxVECloudVendorData {},
        network_config: ProxmoxVECloudNetworkConfig { version: 1, config: entries },
    }
}

#[test]
fn static_gateway_routes() {
    let e = physical(
        "eth0",
        Some("01:23:45:67:89:00"),
        vec![
            subnet("static", Some("192.0.2.10"), Some("255.255.255.0"), Some("192.0.2.1")),
            subnet("static6", Some("2001:db8::10/64"), None, Some("2001:db8::1")),
        ],
    );
    let i = e.to_interface().unwrap();
    assert_eq!(i.name, Some("eth0".to_owned()));
    assert_eq!(i.mac_address, Some(MacAddr(0x01, 0x23, 0x45, 0x67, 0x89, 0x00)));
    assert_eq!(i.priority, 20);
    assert_eq!(i.ip_addresses.len(), 2);
    assert_eq!(i.ip_addresses[0].to_string(), "192.0.2.10/24");
    assert_eq!(i.ip_addresses[1].to_string(), "2001:db8::10/64");
    assert_eq!(i.routes[0].destination.to_string(), "0.0.0.0/0");
    assert_eq!(i.routes[0].gateway.to_string(), "192.0.2.1");
    assert_eq!(i.routes[1].destination.to_string(), "::/0");
    assert_eq!(i.routes[1].gateway.to_string(), "2001:db8::1");
}

#[test]
fn gateway_family_decides_destination() {
    let e = physical("eth0", None, vec![subnet("static", Some("192.0.2.10/24"), None, Some("2001:db8::1"))]);
    let i = e.to_interface().unwrap();
    assert_eq!(i.routes[0].destination.to_string(), "::/0");
}

#[test]
fn non_static_subnets_skipped() {
    let e = physical(
        "eth0",
        None,
        vec![
            subnet("ipv6_slaac", Some("2001:db8::10/64"), None, Some("2001:db8::1")),
            subnet("dhcp", None, None, None),
            subnet("static", Some("192.0.2.10/24"), None, None),
        ],
    );
    let i = e.to_interface().unwrap();
    assert_eq!(i.ip_addresses.len(), 1);
    assert!(i.routes.is_empty());
    assert_eq!(i.mac_address, None);
}

#[test]
fn to_interface_errors() {
    let e = physical("eth0", None, vec![subnet("static", None, None, Some("192.0.2.1"))]);
    assert_eq!(e.to_interface(), Err(NetError::MissingAddress));
    let ns = nameserver(&["192.0.2.53"]);
    assert_eq!(ns.to_interface(), Err(NetError::UnsupportedConfigType));
    let bad_mac = physical("eth0", Some("01:23:45"), vec![]);
    assert_eq!(bad_mac.to_interface(), Err(NetError::InvalidMacAddress));
    let bad_gw = physical("eth0", None, vec![subnet("static", Some("192.0.2.10/24"), None, Some("gw"))]);
    assert_eq!(bad_gw.to_interface(), Err(NetError::InvalidIpAddress));
    let bad_mask = physical("eth0", None, vec![subnet("static", Some("192.0.2.10"), Some("255.0.255.0"), None)]);
    assert_eq!(bad_mask.to_interface(), Err(NetError::InvalidNetmask));
    let bad_cidr = physical("eth0", None, vec![subnet("static", Some("192.0.2.10/40"), None, None)]);
    assert_eq!(bad_cidr.to_interface(), Err(NetError::InvalidCidr));
}

#[test]
fn too_many_nameservers() {
    let c = config(vec![physical("eth0", None, vec![]), nameserver(&["192.0.2.53"]), nameserver(&["192.0.2.54"])]);
    assert_eq!(c.networks(), Err(NetError::TooManyNameservers));
    assert_eq!(c.attributes(), Err(NetError::TooManyNameservers));
}

#[test]
fn nameservers_go_to_first_interface() {
    let c = config(vec![
        nameserver(&["192.0.2.53", "2001:db8::53"]),
        physical("eth0", None, vec![subnet("static", Some("192.0.2.10/24"), None, None)]),
        physical("eth1", None, vec![]),
    ]);
    let ifaces = c.networks().unwrap();
    assert_eq!(ifaces.len(), 2);
    assert_eq!(ifaces[0].nameservers.len(), 2);
    assert_eq!(ifaces[0].nameservers[0], IpAddr::V4(Ipv4Addr::new(192, 0, 2, 53)));
    assert_eq!(ifaces[0].nameservers[1].to_string(), "2001:db8::53");
    assert!(ifaces[1].nameservers.is_empty());
    assert_eq!(ifaces[0].sd_network_unit_name().unwrap(), "20-eth0.network");
}

#[test]
fn bad_nameserver_address() {
    let c = config(vec![nameserver(&["nope"]), physical("eth0", None, vec![])]);
    assert_eq!(c.networks(), Err(NetError::InvalidIpAddress));
    let no_ifaces = config(vec![nameserver(&["nope"])]);
    assert_eq!(no_ifaces.networks(), Ok(vec![]));
}

#[test]
fn proxmox_attributes() {
    let c = config(vec![physical(
        "eth0",
        None,
        vec![
            subnet("static", Some("192.0.2.10/24"), None, None),
            subnet("static", Some("192.0.2.11/24"), None, None),
            subnet("static6", Some("2001:db8::10/64"), None, None),
        ],
    )]);
    let attrs = c.attributes().unwrap();
    let expected: Vec<(String, String)> = vec![
        ("PROXMOXVE_HOSTNAME", "dummy"),
        ("PROXMOXVE_INSTANCE_ID", "15a9919cb91024fbd1d70fa07f0efa749cbba03b"),
        ("PROXMOXVE_IPV4", "192.0.2.11"),
        ("PROXMOXVE_IPV6", "2001:db8::10"),
    ]
    .into_iter()
    .map(|(k, v)| (k.to_owned(), v.to_owned()))
    .collect();
    assert_eq!(attrs, expected);
    assert_eq!(c.hostname(), Some("dummy".to_owned()));
}

#[test]
fn proxmox_idempotent() {
    let make = || {
        config(vec![
            nameserver(&["192.0.2.53"]),
            physical("eth0", Some("01:23:45:67:89:00"), vec![subnet("static", Some("192.0.2.10/24"), None, Some("192.0.2.1"))]),
        ])
    };
    assert_eq!(make().networks(), make().networks());
}
