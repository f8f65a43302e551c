use nearscreen_receiver::net::address::Address;
use nearscreen_receiver::net::discovery::{
    addresses_of, announcement, display_name, host_label, local_addresses, rank, Interfaces, Kind,
    NetInterface,
};

fn interface(name: &str, loopback: bool, octets: [u8; 4]) -> NetInterface {
    NetInterface {
        name: name.to_string(),
        loopback,
        v4: Some(octets),
    }
}

fn texts(addresses: &[Address]) -> Vec<String> {
    addresses.iter().map(|address| address.text()).collect()
}

#[test]
fn interface_values_are_understood() {
    assert!(matches!(
        Interfaces::parse("loopback", None),
        Some(Interfaces::Loopback)
    ));
    assert!(matches!(
        Interfaces::parse("LoopBack", None),
        Some(Interfaces::Loopback)
    ));
    match Interfaces::parse("192.168.1.7", Some(Address::V4([192, 168, 1, 7]))) {
        Some(Interfaces::Only(address)) => assert_eq!(address.text(), "192.168.1.7"),
        other => panic!("expected an address, got {other:?}"),
    }
    assert!(Interfaces::parse("eth0", None).is_none());
    assert!(matches!(
        Interfaces::parse("\tLOOPBACK ", None),
        Some(Interfaces::Loopback)
    ));
    assert!(matches!(Interfaces::default(), Interfaces::All));
}

#[test]
fn host_labels_survive_real_computer_names() {
    assert_eq!(host_label("MacBook Иры"), "MacBook");
    assert_eq!(host_label("Ira's PC"), "Ira-s-PC");
    assert_eq!(host_label("home-pc"), "home-pc");
    assert_eq!(host_label("..."), "nearscreen");
    assert!(host_label(&"x".repeat(100)).len() <= 63);
}

#[test]
fn host_labels_are_cut_before_their_hyphens_go() {
    let name = format!("{}-{}", "a".repeat(62), "b".repeat(10));
    assert_eq!(host_label(&name), "a".repeat(62));
    assert_eq!(host_label("-_-"), "nearscreen");
    assert_eq!(host_label(""), "nearscreen");
}

#[test]
fn the_home_network_wins_over_wsl_and_a_dead_interface() {
    let home = rank("Ethernet 3", [192, 168, 10, 202]);
    let wsl = rank("vEthernet (WSL (Hyper-V firewall))", [172, 20, 128, 1]);
    let unplugged = rank("Ethernet 2", [169, 254, 118, 60]);
    let vpn = rank("ZoogVPN Network Adapter", [10, 8, 0, 2]);
    assert!(home < wsl, "the real network comes first");
    assert!(home < vpn, "a VPN is not where the phone is");
    assert!(wsl < unplugged, "an interface with no address comes last");
}

#[test]
fn ranks_are_what_they_are() {
    assert_eq!(rank("Wi-Fi", [192, 168, 0, 1]), 0);
    assert_eq!(rank("Wi-Fi", [10, 0, 0, 1]), 0);
    assert_eq!(rank("Wi-Fi", [172, 16, 0, 1]), 1);
    assert_eq!(rank("DOCKER0", [192, 168, 0, 1]), 2);
    assert_eq!(rank("tailscale0", [172, 31, 0, 1]), 2);
    assert_eq!(rank("Wi-Fi", [172, 32, 0, 1]), 3);
    assert_eq!(rank("Wi-Fi", [8, 8, 8, 8]), 3);
    assert_eq!(rank("Wi-Fi", [192, 169, 0, 1]), 3);
    assert_eq!(rank("tap0", [169, 254, 0, 1]), 4);
}

#[test]
fn a_phone_is_told_about_the_real_networks_only() {
    let interfaces = vec![
        interface("lo", true, [127, 0, 0, 1]),
        interface("vEthernet (WSL)", false, [172, 20, 128, 1]),
        interface("Wi-Fi", false, [192, 168, 1, 42]),
        interface("Dock", false, [10, 0, 0, 5]),
        interface("Office", false, [172, 16, 3, 4]),
        interface("Ethernet 2", false, [169, 254, 118, 60]),
        NetInterface {
            name: "Wi-Fi".to_string(),
            loopback: false,
            v4: None,
        },
    ];
    assert_eq!(
        texts(&addresses_of(&interfaces)),
        vec!["10.0.0.5", "192.168.1.42", "172.16.3.4"]
    );
}

#[test]
fn a_phone_is_told_something_where_nothing_is_real() {
    let interfaces = vec![
        interface("Ethernet 2", false, [169, 254, 118, 60]),
        interface("docker0", false, [172, 17, 0, 1]),
        interface("docker0", false, [172, 17, 0, 1]),
        interface("eth0", false, [8, 8, 8, 8]),
    ];
    assert_eq!(
        texts(&addresses_of(&interfaces)),
        vec!["8.8.8.8", "169.254.118.60"]
    );
    assert!(addresses_of(&Vec::new()).is_empty());
}

#[test]
fn a_virtual_network_is_no_way_to_a_phone() {
    let vpn = vec![interface("vpn", false, [10, 8, 0, 2])];
    assert!(addresses_of(&vpn).is_empty());
    // The same address on a real interface is told, and once.
    let both = vec![
        interface("vpn", false, [10, 8, 0, 2]),
        interface("Wi-Fi", false, [10, 8, 0, 2]),
    ];
    assert_eq!(texts(&addresses_of(&both)), vec!["10.8.0.2"]);
}

#[test]
fn the_same_address_twice_is_told_once() {
    let interfaces = vec![
        interface("a", false, [192, 168, 1, 42]),
        interface("b", false, [192, 168, 1, 7]),
        interface("c", false, [192, 168, 1, 42]),
    ];
    assert_eq!(
        texts(&addresses_of(&interfaces)),
        vec!["192.168.1.7", "192.168.1.42"]
    );
}

#[test]
fn only_what_was_chosen_is_announced() {
    let local = vec![Address::V4([10, 0, 0, 5]), Address::V4([192, 168, 1, 42])];
    match Interfaces::All.kinds_among(&local) {
        Some(kinds) => {
            let named: Vec<String> = kinds
                .iter()
                .map(|kind| match kind {
                    Kind::Addr(address) => address.text(),
                    other => panic!("expected an address, got {other:?}"),
                })
                .collect();
            assert_eq!(named, vec!["10.0.0.5", "192.168.1.42"]);
        }
        None => panic!("expected the reachable ones"),
    }
    assert!(Interfaces::All.kinds_among(&Vec::new()).is_none());
    match Interfaces::Only(Address::V4([10, 0, 0, 9])).kinds_among(&local) {
        Some(kinds) => {
            assert_eq!(kinds.len(), 1);
            assert!(matches!(kinds[0], Kind::Addr(Address::V4([10, 0, 0, 9]))));
        }
        None => panic!("expected one address"),
    }
    match Interfaces::Loopback.kinds_among(&local) {
        Some(kinds) => {
            assert_eq!(kinds.len(), 2);
            assert!(matches!(kinds[0], Kind::LoopbackV4));
            assert!(matches!(kinds[1], Kind::LoopbackV6));
        }
        None => panic!("expected the loopbacks"),
    }
    assert_eq!(Interfaces::default().clone(), Interfaces::All);
    assert_ne!(Interfaces::Loopback, Interfaces::All);
}

#[test]
fn a_nameless_computer_still_gets_a_name() {
    assert_eq!(display_name("   "), "Nearscreen receiver");
    assert_eq!(display_name(" Home PC "), "Home PC");
}

#[test]
fn the_announcement_carries_the_name_and_the_label() {
    let service = announcement(" nearscreen test receiver ", 19913).unwrap();
    assert_eq!(
        service.fullname(),
        "nearscreen test receiver._nearscreen._tcp.local."
    );
    assert_eq!(service.host(), "nearscreen-test-receiver.local.");
    assert_eq!(service.port(), 19913);
    assert_eq!(
        service.properties(),
        &vec![("v".to_string(), "1".to_string())]
    );
    let info = service.into_info();
    assert_eq!(
        info.get_fullname(),
        "nearscreen test receiver._nearscreen._tcp.local."
    );
    assert_eq!(info.get_hostname(), "nearscreen-test-receiver.local.");
    assert_eq!(info.get_port(), 19913);
    assert_eq!(info.get_property_val_str("v"), Some("1"));

    let dotted = announcement("dr. who\\pc", 9913).unwrap();
    assert_eq!(
        dotted.fullname(),
        "dr\\. who\\\\pc._nearscreen._tcp.local."
    );
    assert_eq!(dotted.host(), "dr--who-pc.local.");

    let nameless = announcement("  ", 9913).unwrap();
    assert_eq!(
        nameless.fullname(),
        "Nearscreen receiver._nearscreen._tcp.local."
    );
    assert_eq!(nameless.host(), "Nearscreen-receiver.local.");
}

#[test]
fn addresses_are_written_and_compared() {
    let zero = Address::V4([0, 0, 0, 0]);
    assert_eq!(zero.text(), "0.0.0.0");
    assert_eq!(Address::V4([255, 10, 9, 100]).text(), "255.10.9.100");
    assert!(zero.same(&Address::V4([0, 0, 0, 0])));
    assert!(!zero.same(&Address::V4([0, 0, 0, 1])));
    let six = Address::V6([0x2001, 0xdb8, 0, 0, 0, 0, 0, 0x7334]);
    assert_eq!(six.text(), "2001:db8::7334");
    assert!(six.same(&six.clone()));
    assert!(!six.same(&zero));
    assert!(!six.same(&Address::V6([0x2001, 0xdb8, 0, 0, 0, 0, 1, 0x7334])));
    assert_eq!(six, Address::V6([0x2001, 0xdb8, 0, 0, 0, 0, 0, 0x7334]));
}

#[test]
fn long_addresses_leave_out_their_zeroes() {
    let text = |segments: [u16; 8]| Address::V6(segments).text();
    assert_eq!(text([0; 8]), "::");
    assert_eq!(text([0, 0, 0, 0, 0, 0, 0, 1]), "::1");
    assert_eq!(text([1, 0, 0, 0, 0, 0, 0, 0]), "1::");
    assert_eq!(text([1, 2, 3, 4, 5, 6, 7, 8]), "1:2:3:4:5:6:7:8");
    assert_eq!(text([1, 0, 3, 4, 5, 6, 7, 8]), "1:0:3:4:5:6:7:8");
    assert_eq!(text([0, 0, 3, 0, 0, 6, 7, 8]), "::3:0:0:6:7:8");
    assert_eq!(text([0xfe80, 0, 0, 4, 0, 0, 0, 0xabcd]), "fe80:0:0:4::abcd");
    assert_eq!(text([0, 0, 0, 0, 0, 0xffff, 0xc0a8, 0x012a]), "::ffff:192.168.1.42");
    assert_eq!(text([0xffff, 0x10, 0, 1, 0, 1, 0, 1]), "ffff:10:0:1:0:1:0:1");
}

#[test]
fn this_computer_tells_its_own_addresses() {
    let addresses = local_addresses();
    for address in &addresses {
        match address {
            Address::V4(octets) => assert_ne!(octets[0], 127, "loopback is no way to a phone"),
            other => panic!("expected an IPv4 address, got {other:?}"),
        }
    }
    match Interfaces::All.kinds() {
        Some(kinds) => assert_eq!(kinds.len(), addresses.len()),
        None => assert!(addresses.is_empty()),
    }
    assert_eq!(Interfaces::Loopback.kinds().map(|kinds| kinds.len()), Some(2));
}
