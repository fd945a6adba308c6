use pingultra::address::IpAddress;
use pingultra::cli::{Cli, Commands, SummaryFormat};
use pingultra::error::PingError;
use pingultra::host::{resolve_host, select_address, PingTarget};
use pingultra::text::{
    has_char, hostname_in_pieces, hosts_in_lines, mac_in_words, parse_arp_output, parse_host_output,
    parse_hosts, reads_as, trim_end, trim_lines,
};

fn texts(items: &[&str]) -> Vec<String> {
    items.iter().map(|item| item.to_string()).collect()
}

#[test]
fn host_file_is_read_line_by_line() {
    let content = "# targets\n  10.0.0.1  \n\nexample.org\r\n\t# indented comment\n   \nlast.example";
    assert_eq!(parse_hosts(content), texts(&["10.0.0.1", "example.org", "last.example"]));
    assert!(parse_hosts("").is_empty());
    assert!(parse_hosts("\n\n#only\n").is_empty());
    assert_eq!(parse_hosts("a # not a comment"), texts(&["a # not a comment"]));
}

#[test]
fn host_lines_are_trimmed() {
    let lines = texts(&[" a ", "#b", "", " \t ", "c#d\r", "\u{a0}e\u{2003}"]);
    assert_eq!(trim_lines(&lines), texts(&["a", "#b", "", "", "c#d", "e"]));
    assert!(trim_lines(&Vec::new()).is_empty());
}

#[test]
fn comments_and_empty_lines_name_no_host() {
    let lines = texts(&["a", "#b", "", "c#d", " #e", "#", "f"]);
    assert_eq!(hosts_in_lines(&lines), texts(&["a", "c#d", " #e", "f"]));
    assert!(hosts_in_lines(&Vec::new()).is_empty());
}

#[test]
fn literal_texts_are_recognised() {
    assert!(reads_as("json", "json"));
    assert!(!reads_as("json", "jso"));
    assert!(!reads_as("", "x"));
    assert!(reads_as("", ""));
}

#[test]
fn neighbour_table_gives_the_hardware_address() {
    let output = "Address                  HWtype  HWaddress           Flags Mask            Iface\n\
                  192.168.1.10             ether   aa:bb:cc:dd:ee:ff   C                     eth0\n\
                  192.168.1.1              ether   11:22:33:44:55:66   C                     eth0\n";
    assert_eq!(parse_arp_output(output, "192.168.1.1 ").as_deref(), Some("11:22:33:44:55:66"));
    assert_eq!(parse_arp_output(output, "192.168.1.10").as_deref(), Some("aa:bb:cc:dd:ee:ff"));
    assert_eq!(parse_arp_output(output, "192.168.1.1").as_deref(), Some("aa:bb:cc:dd:ee:ff"));
    assert_eq!(parse_arp_output(output, "192.168.1.2"), None);
    assert_eq!(parse_arp_output("", "192.168.1.1"), None);
}

#[test]
fn neighbour_lines_without_an_address_are_skipped() {
    let output = "192.168.1.5 (incomplete) eth0\n192.168.1.5 ether short:mac C\n192.168.1.5 ether 0123456789abcdefgh C\n? (192.168.1.5) at de:ad:be:ef:00:01 [ether] on en0\n192.168.1.5 ether de:ad:be:ef:00:02 C";
    assert_eq!(parse_arp_output(output, "192.168.1.5").as_deref(), Some("de:ad:be:ef:00:02"));
}

#[test]
fn third_word_must_look_like_a_hardware_address() {
    assert_eq!(mac_in_words(&texts(&["a", "b", "aa:bb:cc:dd:ee:ff"])).as_deref(), Some("aa:bb:cc:dd:ee:ff"));
    assert_eq!(mac_in_words(&texts(&["a", "b", "aa:bb:cc:dd:ee:ff", "x"])).as_deref(), Some("aa:bb:cc:dd:ee:ff"));
    assert_eq!(mac_in_words(&texts(&["a", "b", "aa:bb:cc:dd:ee:f"])), None);
    assert_eq!(mac_in_words(&texts(&["a", "b", "aabbccddeeff001122"])), None);
    assert_eq!(mac_in_words(&texts(&["a", "aa:bb:cc:dd:ee:ff"])), None);
    assert_eq!(mac_in_words(&texts(&["a", "b", ":\u{e9}\u{e9}\u{e9}\u{e9}\u{e9}\u{e9}\u{e9}\u{e9}"])).as_deref(), Some(":\u{e9}\u{e9}\u{e9}\u{e9}\u{e9}\u{e9}\u{e9}\u{e9}"));
    assert_eq!(mac_in_words(&Vec::new()), None);
}

#[test]
fn name_lookup_gives_the_host_name() {
    let output = "1.1.168.192.in-addr.arpa domain name pointer router.lan.\n";
    assert_eq!(parse_host_output(output).as_deref(), Some("router.lan"));
    let output = ";; comment\n4.3.2.1.in-addr.arpa domain name pointer   one.example...  \n4.3.2.1.in-addr.arpa domain name pointer two.example.\n";
    assert_eq!(parse_host_output(output).as_deref(), Some("one.example"));
    assert_eq!(parse_host_output("Host 1.2.3.4 not found: 3(NXDOMAIN)\n"), None);
    assert_eq!(parse_host_output(""), None);
    assert_eq!(parse_host_output("x domain name pointer").as_deref(), Some(""));
    assert_eq!(parse_host_output("a domain name pointer b domain name pointer c.").as_deref(), Some("b"));
}

#[test]
fn name_is_what_follows_the_mark() {
    assert_eq!(hostname_in_pieces(&texts(&["x ", " name.example. "])).as_deref(), Some("name.example"));
    assert_eq!(hostname_in_pieces(&texts(&["x ", " a ", " b "])).as_deref(), Some("a"));
    assert_eq!(hostname_in_pieces(&texts(&["only"])), None);
    assert_eq!(hostname_in_pieces(&Vec::new()), None);
}

#[test]
fn trailing_characters_are_dropped() {
    assert_eq!(trim_end("name...", '.'), "name");
    assert_eq!(trim_end("a.b.c", '.'), "a.b.c");
    assert_eq!(trim_end("...", '.'), "");
    assert_eq!(trim_end("", '.'), "");
    assert_eq!(trim_end(".a", '.'), ".a");
    assert_eq!(trim_end("\u{e9}t\u{e9}..", '.'), "\u{e9}t\u{e9}");
}

#[test]
fn characters_are_found() {
    assert!(has_char("a:b", ':'));
    assert!(has_char(":", ':'));
    assert!(!has_char("ab", ':'));
    assert!(!has_char("", ':'));
}

#[test]
fn ipv4_is_preferred_among_candidates() {
    let v4 = IpAddress::from_octets(93, 184, 216, 34);
    let other = IpAddress::from_octets(10, 0, 0, 1);
    let v6 = IpAddress::V6(0x2606_2800 << 96 | 1);
    assert_eq!(select_address(&vec![v6, v4, other]), Some(v4));
    assert_eq!(select_address(&vec![v4, v6]), Some(v4));
    assert_eq!(select_address(&vec![v6, IpAddress::V6(2)]), Some(v6));
    assert_eq!(select_address(&vec![v6]), Some(v6));
    assert_eq!(select_address(&Vec::new()), None);
}

#[test]
fn resolution_takes_literal_then_lookup() {
    let v4 = IpAddress::from_octets(1, 2, 3, 4);
    let v6 = IpAddress::V6(9);
    assert!(matches!(resolve_host("1.2.3.4", Some(v4), None), Ok(a) if a == v4));
    assert!(matches!(resolve_host("1.2.3.4", Some(v4), Some(vec![v6])), Ok(a) if a == v4));
    assert!(matches!(resolve_host("name", None, Some(vec![v6, v4])), Ok(a) if a == v4));
    assert!(matches!(resolve_host("name", None, Some(vec![v6])), Ok(a) if a == v6));
    match resolve_host("name", None, Some(Vec::new())) {
        Err(PingError::ResolutionError(message)) => assert_eq!(message, "No addresses found for name"),
        other => panic!("unexpected {:?}", other),
    }
    match resolve_host("no.such.host", None, None) {
        Err(PingError::ResolutionError(message)) => assert_eq!(message, "Failed to resolve no.such.host"),
        other => panic!("unexpected {:?}", other),
    }
}

#[test]
fn target_keeps_name_and_address() {
    let target = PingTarget::new("gw".to_string(), IpAddress::V4(7));
    assert_eq!(target.name, "gw");
    assert_eq!(target.addr, IpAddress::V4(7));
    let copy = target.clone();
    assert_eq!(copy.name, "gw");
    assert_eq!(copy.addr, IpAddress::V4(7));
}

#[test]
fn errors_read_as_text() {
    assert_eq!(PingError::SendError("broken pipe".to_string()).message(), "Failed to send packet: broken pipe");
    assert_eq!(PingError::InvalidAddress("x/99".to_string()).message(), "Invalid address: x/99");
    assert_eq!(PingError::Timeout.message(), "Timeout");
    assert_eq!(PingError::PacketConstructionError.message(), "Packet construction error");
    assert_eq!(
        PingError::PermissionDenied.message(),
        "Permission denied: raw sockets require root privileges"
    );
    assert_eq!(PingError::ResolutionError("nx".to_string()).message(), "Failed to resolve hostname: nx");
    assert_eq!(PingError::Other("handler".to_string()).message(), "Other error: handler");
}

#[test]
fn only_missing_privilege_is_fatal() {
    assert!(PingError::PermissionDenied.is_fatal());
    assert!(!PingError::Timeout.is_fatal());
    assert!(!PingError::SendError(String::new()).is_fatal());
    assert!(!PingError::InvalidAddress(String::new()).is_fatal());
    assert!(!PingError::PacketConstructionError.is_fatal());
    assert!(!PingError::ResolutionError(String::new()).is_fatal());
    assert!(!PingError::Other(String::new()).is_fatal());
    assert!(matches!(PingError::Timeout.clone(), PingError::Timeout));
    assert!(matches!(PingError::Other("x".to_string()).clone(), PingError::Other(m) if m == "x"));
}

#[test]
fn settings_default_as_documented() {
    let cli = Cli::with_defaults(vec!["a".to_string()]);
    assert_eq!(cli.hosts, vec!["a".to_string()]);
    assert_eq!(cli.file, None);
    assert_eq!(cli.count, 3);
    assert_eq!(cli.period, 1000);
    assert_eq!(cli.timeout, 5000);
    assert_eq!(cli.retry, 1);
    assert_eq!(cli.size, 56);
    assert_eq!(cli.ttl, 64);
    assert!(!cli.quiet);
    assert!(!cli.timestamp);
    assert!(cli.command.is_none());
}

#[test]
fn summary_format_is_named() {
    assert_eq!(SummaryFormat::from_text("json"), SummaryFormat::Json);
    assert_eq!(SummaryFormat::from_text("csv"), SummaryFormat::Csv);
    assert_eq!(SummaryFormat::from_text("text"), SummaryFormat::Text);
    assert_eq!(SummaryFormat::from_text("JSON"), SummaryFormat::Text);
    assert_eq!(SummaryFormat::from_text(""), SummaryFormat::Text);
    let mut cli = Cli::with_defaults(Vec::new());
    assert_eq!(cli.summary_format(), SummaryFormat::Text);
    cli.command = Some(Commands::Summary { format: "csv".to_string() });
    assert_eq!(cli.summary_format(), SummaryFormat::Csv);
}

#[test]
fn only_monitoring_needs_no_targets() {
    let mut cli = Cli::with_defaults(Vec::new());
    assert!(cli.lacks_targets(0));
    assert!(!cli.lacks_targets(1));
    cli.command = Some(Commands::Summary { format: "text".to_string() });
    assert!(cli.lacks_targets(0));
    assert!(!cli.is_monitor());
    cli.command = Some(Commands::Monitor {
        network: "10.0.0.0/24".to_string(),
        interval: 60,
        format: "text".to_string(),
        changes_only: false,
        resolve_mac: false,
        ui: false,
    });
    assert!(cli.is_monitor());
    assert!(!cli.lacks_targets(0));
}
