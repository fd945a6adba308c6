use ipnetwork::IpNetwork;
use pingultra::address::IpAddress;
use pingultra::network::Network;

/// The address part, the first and the last address of a network of the
/// outside crate, as plain addresses.
fn ends(net: &IpNetwork) -> (IpAddress, IpAddress, IpAddress) {
    match net {
        IpNetwork::V4(n) => (
            IpAddress::V4(u32::from(n.ip())),
            IpAddress::V4(u32::from(n.network())),
            IpAddress::V4(u32::from(n.broadcast())),
        ),
        IpNetwork::V6(n) => (
            IpAddress::V6(u128::from(n.ip())),
            IpAddress::V6(u128::from(n.network())),
            IpAddress::V6(u128::from(n.broadcast())),
        ),
    }
}

fn listed(net: &IpNetwork) -> Vec<IpAddress> {
    match net {
        IpNetwork::V4(n) => n.iter().map(|a| IpAddress::V4(u32::from(a))).collect(),
        IpNetwork::V6(n) => n.iter().map(|a| IpAddress::V6(u128::from(a))).collect(),
    }
}

#[test]
fn octets_make_the_address() {
    assert_eq!(IpAddress::from_octets(192, 168, 1, 7), IpAddress::V4(0xc0a8_0107));
    assert_eq!(IpAddress::from_octets(0, 0, 0, 0), IpAddress::V4(0));
    assert_eq!(IpAddress::from_octets(255, 255, 255, 255), IpAddress::V4(u32::MAX));
}

#[test]
fn loopback_is_the_127_block() {
    assert!(IpAddress::from_octets(127, 0, 0, 1).is_loopback());
    assert!(IpAddress::from_octets(127, 255, 255, 255).is_loopback());
    assert!(IpAddress::from_octets(127, 0, 0, 0).is_loopback());
    assert!(!IpAddress::from_octets(126, 255, 255, 255).is_loopback());
    assert!(!IpAddress::from_octets(128, 0, 0, 0).is_loopback());
    assert!(!IpAddress::V6(1).is_loopback());
    assert!(!IpAddress::V6(0x7f00_0001).is_loopback());
}

#[test]
fn addresses_order_as_the_standard_ones() {
    let samples: Vec<IpNetwork> = ["0.0.0.0", "10.0.0.1", "10.0.0.2", "255.255.255.255", "::", "::1", "fe80::1", "ffff::"]
        .iter()
        .map(|text| text.parse().expect("an address"))
        .collect();
    for a in &samples {
        for b in &samples {
            assert_eq!(ends(a).0.precedes(&ends(b).0), a.ip() < b.ip(), "{} against {}", a, b);
        }
    }
}

#[test]
fn family_is_told() {
    assert!(IpAddress::V4(5).is_ipv4());
    assert!(!IpAddress::V6(5).is_ipv4());
}

#[test]
fn cidr_text_is_parsed() {
    assert_eq!(
        Network::parse("192.168.1.77/24"),
        Some(Network { addr: IpAddress::from_octets(192, 168, 1, 77), prefix: 24 })
    );
    assert_eq!(
        Network::parse("10.0.0.1"),
        Some(Network { addr: IpAddress::from_octets(10, 0, 0, 1), prefix: 32 })
    );
    assert_eq!(
        Network::parse("10.1.0.0/255.255.0.0"),
        Some(Network { addr: IpAddress::from_octets(10, 1, 0, 0), prefix: 16 })
    );
    assert_eq!(
        Network::parse("fe80::1/64"),
        Some(Network { addr: IpAddress::V6(0xfe80 << 112 | 1), prefix: 64 })
    );
    assert_eq!(Network::parse("0.0.0.0/0"), Some(Network { addr: IpAddress::V4(0), prefix: 0 }));
}

#[test]
fn bad_cidr_text_is_refused() {
    for text in ["", "not a network", "10.0.0.0/33", "10.0.0.0/24/8", "10.0.0/24", "::1/129", "10.0.0.0/-1"] {
        assert_eq!(Network::parse(text), None, "{:?}", text);
    }
}

#[test]
fn prefix_must_fit_the_family() {
    assert!(Network::new(IpAddress::V4(0), 32).is_some());
    assert!(Network::new(IpAddress::V4(0), 33).is_none());
    assert!(Network::new(IpAddress::V6(0), 128).is_some());
    assert!(Network::new(IpAddress::V6(0), 129).is_none());
}

#[test]
fn span_is_one_less_than_the_size() {
    let net = |text: &str| Network::parse(text).expect("a network");
    assert_eq!(net("10.0.0.0/24").span(), 255);
    assert_eq!(net("10.0.0.0/32").span(), 0);
    assert_eq!(net("10.0.0.0/31").span(), 1);
    assert_eq!(net("0.0.0.0/0").span(), u128::from(u32::MAX));
    assert_eq!(net("::/0").span(), u128::MAX);
    assert_eq!(net("::/128").span(), 0);
    assert_eq!(net("::/64").span(), u128::from(u64::MAX));
}

#[test]
fn ends_match_the_network_library() {
    for text in [
        "192.168.1.77/24", "10.1.9.32/16", "10.0.0.1/32", "10.0.0.1/31", "172.16.5.4/12",
        "255.255.255.255/1", "0.0.0.0/0", "200.1.2.3/0", "2001:db8::1/96", "fe80::1/64", "::1/128",
        "ffff:ffff:ffff:ffff:ffff:ffff:ffff:ffff/1", "1234::5678/0", "2001:db8::/127",
    ] {
        let theirs: IpNetwork = text.parse().expect("a network");
        let ours = Network::parse(text).expect("a network");
        let (ip, first, last) = ends(&theirs);
        assert_eq!(ours.addr, ip);
        assert_eq!(ours.first(), first, "first of {}", text);
        assert_eq!(ours.last(), last, "last of {}", text);
        assert!(ours.contains(&ip));
    }
}

#[test]
fn listing_matches_the_network_library() {
    for text in ["192.168.1.77/24", "10.0.0.1/32", "10.0.0.1/31", "10.9.8.7/22", "2001:db8::1/120", "::1/128"] {
        let theirs: IpNetwork = text.parse().expect("a network");
        let ours = Network::parse(text).expect("a network");
        assert_eq!(ours.addresses(), listed(&theirs), "{}", text);
    }
}

#[test]
fn listing_of_a_small_block_is_exact() {
    let net = Network::parse("10.0.0.6/30").expect("a network");
    assert_eq!(
        net.addresses(),
        vec![
            IpAddress::from_octets(10, 0, 0, 4),
            IpAddress::from_octets(10, 0, 0, 5),
            IpAddress::from_octets(10, 0, 0, 6),
            IpAddress::from_octets(10, 0, 0, 7),
        ]
    );
}

#[test]
fn membership_follows_the_block() {
    let net = Network::parse("10.0.0.6/30").expect("a network");
    assert!(!net.contains(&IpAddress::from_octets(10, 0, 0, 3)));
    assert!(net.contains(&IpAddress::from_octets(10, 0, 0, 4)));
    assert!(net.contains(&IpAddress::from_octets(10, 0, 0, 7)));
    assert!(!net.contains(&IpAddress::from_octets(10, 0, 0, 8)));
    assert!(!net.contains(&IpAddress::V6(0x0a00_0004)));
}
