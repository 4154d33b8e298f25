use ei::ipset::IpsetController;
use ei::rules::Protocol;
use ei::text::{parse_port_number, parse_u16, split_lines, trim, u16_to_dec_string};

#[test]
fn decimal_rendering() {
    assert_eq!(u16_to_dec_string(0), "0");
    assert_eq!(u16_to_dec_string(7), "7");
    assert_eq!(u16_to_dec_string(80), "80");
    assert_eq!(u16_to_dec_string(65535), "65535");
}

#[test]
fn decimal_parsing() {
    assert_eq!(parse_u16("0"), Some(0));
    assert_eq!(parse_u16("007"), Some(7));
    assert_eq!(parse_u16("65535"), Some(65535));
    assert_eq!(parse_u16("65536"), None);
    assert_eq!(parse_u16(""), None);
    assert_eq!(parse_u16("8a"), None);
    assert_eq!(parse_port_number("0"), None);
    assert_eq!(parse_port_number("1"), Some(1));
}

#[test]
fn line_splitting() {
    assert_eq!(split_lines(""), Vec::<String>::new());
    assert_eq!(split_lines("a\nb"), vec!["a", "b"]);
    assert_eq!(split_lines("a\nb\n"), vec!["a", "b"]);
    assert_eq!(split_lines("a\r\n\r\nb"), vec!["a", "", "b"]);
    assert_eq!(split_lines("\n"), vec![""]);
    assert_eq!(split_lines("a\r"), vec!["a\r"]);
}

#[test]
fn trimming() {
    assert_eq!(trim("  80 \t"), "80");
    assert_eq!(trim("80"), "80");
    assert_eq!(trim("   "), "");
}

#[test]
fn parse_listing_members() {
    let output = "Name: ei-allowed-tcp-ports\nType: bitmap:port\nMembers:\n443\n80\n8080\n";
    assert_eq!(IpsetController::parse_ipset_list(output), vec![80, 443, 8080]);
}

#[test]
fn parse_listing_ignores_text_before_marker() {
    let output = "80\nMembers:\n22\njunk\n 443 \n";
    assert_eq!(IpsetController::parse_ipset_list(output), vec![22, 443]);
}

#[test]
fn parse_listing_without_marker_is_empty() {
    assert_eq!(IpsetController::parse_ipset_list("80\n443\n"), Vec::<u16>::new());
}

#[test]
fn list_ports_sorted_ascending_by_port() {
    let ipset = IpsetController::new(true);
    let tcp = "Members:\n443\n80\n";
    let udp = "Members:\n53\n";
    let ports = ipset.list_ports(tcp, udp);
    assert_eq!(
        ports,
        vec![
            (53, Protocol::UDP),
            (80, Protocol::TCP),
            (443, Protocol::TCP),
        ]
    );
}

#[test]
fn list_ports_ties_keep_tcp_first() {
    let ipset = IpsetController::new(true);
    let tcp = "Members:\n53\n80\n";
    let udp = "Members:\n53\n";
    let ports = ipset.list_ports(tcp, udp);
    assert_eq!(
        ports,
        vec![
            (53, Protocol::TCP),
            (53, Protocol::UDP),
            (80, Protocol::TCP),
        ]
    );
}
