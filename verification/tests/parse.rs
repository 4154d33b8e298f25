use ei::rules::{parse_protocol, port_in_range, parse_rules, push_parsed, Protocol, Rule};

#[test]
fn parse_port_rule_lowercase() {
    match Rule::parse("80/tcp") {
        Ok(Rule::Port(p)) => {
            assert_eq!(p.number, 80);
            assert_eq!(p.protocol, Protocol::TCP);
        }
        other => panic!("expected port rule, got {:?}", other),
    }
}

#[test]
fn parse_port_rule_mixed_case_protocol() {
    match Rule::parse("443/TcP") {
        Ok(Rule::Port(p)) => {
            assert_eq!(p.number, 443);
            assert_eq!(p.protocol, Protocol::TCP);
        }
        other => panic!("expected port rule, got {:?}", other),
    }
    match Rule::parse("53/UDP") {
        Ok(Rule::Port(p)) => {
            assert_eq!(p.number, 53);
            assert_eq!(p.protocol, Protocol::UDP);
        }
        other => panic!("expected port rule, got {:?}", other),
    }
}

#[test]
fn parse_port_rule_bounds() {
    assert!(matches!(Rule::parse("1/tcp"), Ok(Rule::Port(_))));
    assert!(matches!(Rule::parse("65535/udp"), Ok(Rule::Port(_))));
}

#[test]
fn parse_rejects_port_zero() {
    assert!(Rule::parse("0/tcp").is_err());
}

#[test]
fn parse_rejects_port_overflow() {
    assert!(Rule::parse("65536/tcp").is_err());
    assert!(Rule::parse("99999999/tcp").is_err());
}

#[test]
fn parse_rejects_unknown_protocol() {
    assert!(Rule::parse("80/icmp").is_err());
    assert!(Rule::parse("80/").is_err());
}

#[test]
fn parse_rejects_extra_separator() {
    let err = Rule::parse("80/tcp/x").unwrap_err();
    assert!(err.contains("Invalid port format"));
}

#[test]
fn parse_iplist_rule() {
    match Rule::parse("iplist:cloudflare") {
        Ok(Rule::IpList(l)) => {
            assert_eq!(l.name, "cloudflare");
            assert!(l.config.is_none());
        }
        other => panic!("expected iplist rule, got {:?}", other),
    }
}

#[test]
fn parse_rejects_empty_iplist_name() {
    assert!(Rule::parse("iplist:").is_err());
}

#[test]
fn parse_ipset_rule() {
    match Rule::parse("ipset:xcord") {
        Ok(Rule::IpSet(s)) => assert_eq!(s.name, "xcord"),
        other => panic!("expected ipset rule, got {:?}", other),
    }
}

#[test]
fn parse_rejects_empty_ipset_name() {
    assert!(Rule::parse("ipset:").is_err());
}

#[test]
fn parse_rejects_unknown_form() {
    let err = Rule::parse("nonsense").unwrap_err();
    assert!(err.contains("Invalid rule format"));
    assert!(Rule::parse("").is_err());
}

#[test]
fn protocol_round_trips_through_text() {
    for text in ["tcp", "TCP", "Tcp"] {
        let p = Protocol::parse(text).unwrap();
        assert_eq!(p.to_text(), "tcp");
        assert_eq!(Protocol::parse(p.to_text()).unwrap(), p);
    }
    let u = Protocol::parse("udp").unwrap();
    assert_eq!(u.to_text(), "udp");
    assert_eq!(Protocol::parse(u.to_text()).unwrap(), u);
}

#[test]
fn failed_parse_leaves_parsed_rules_intact() {
    let mut rules: Vec<Rule> = Vec::new();
    push_parsed(&mut rules, "80/tcp").unwrap();
    assert_eq!(rules.len(), 1);
    let err = push_parsed(&mut rules, "0/tcp");
    assert!(err.is_err());
    assert_eq!(rules.len(), 1);
    match &rules[0] {
        Rule::Port(p) => assert_eq!(p.number, 80),
        other => panic!("first rule corrupted: {:?}", other),
    }
}

#[test]
fn parse_rules_fails_on_first_bad_text() {
    let texts = vec![
        String::from("80/tcp"),
        String::from("iplist:a"),
        String::from("80/bogus"),
    ];
    assert!(parse_rules(&texts).is_err());
    let good = vec![String::from("80/tcp"), String::from("ipset:x")];
    let parsed = parse_rules(&good).unwrap();
    assert_eq!(parsed.len(), 2);
}

#[test]
fn port_in_range_validation() {
    assert_eq!(port_in_range("80").unwrap(), 80);
    assert_eq!(port_in_range("0").unwrap_err(), "Port cannot be 0");
    assert_eq!(port_in_range("abc").unwrap_err(), "Port must be a number");
    assert_eq!(port_in_range("70000").unwrap_err(), "Port must be a number");
}

#[test]
fn parse_protocol_validation() {
    assert_eq!(parse_protocol("TCP").unwrap(), "tcp");
    assert_eq!(parse_protocol("udp").unwrap(), "udp");
    assert_eq!(
        parse_protocol("icmp").unwrap_err(),
        "Protocol must be either 'tcp' or 'udp'"
    );
}

#[test]
fn api_protocol_validation() {
    assert_eq!(Protocol::try_from_text("tcp").unwrap(), Protocol::TCP);
    assert_eq!(Protocol::try_from_text("UDP").unwrap(), Protocol::UDP);
    assert_eq!(
        Protocol::try_from_text("icmp").unwrap_err(),
        "Invalid protocol"
    );
    assert_eq!(Protocol::try_from_text("").unwrap_err(), "Invalid protocol");
}
