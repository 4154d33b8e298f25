use ei::config::{CliConfig, Config};
use ei::error::Error;
use ei::rules::{Rule, RuleParser};

#[test]
fn default_config_is_inert() {
    let c = Config::default();
    assert_eq!(c.server.host, "127.0.0.1");
    assert_eq!(c.server.port, 8990);
    assert!(!c.features.portforward);
    assert!(!c.features.block_badtcp);
    assert!(!c.whitelist.enabled);
    assert!(c.whitelist.rules.is_empty());
    assert!(!c.blacklist.enabled);
    assert!(c.blacklist.rules.is_empty());
    assert!(!c.docker);
    assert!(c.interfaces.is_empty());
    assert!(c.iplists.is_empty());
}

#[test]
fn cli_overrides_replace_only_given_fields() {
    let mut c = Config::default();
    c.update_from_cli(CliConfig {
        host: Some(String::from("0.0.0.0")),
        port: None,
        portforward: Some(true),
        block_badtcp: None,
        docker: Some(true),
        interfaces: Some(vec![String::from("eth1")]),
    });
    assert_eq!(c.server.host, "0.0.0.0");
    assert_eq!(c.server.port, 8990);
    assert!(c.features.portforward);
    assert!(!c.features.block_badtcp);
    assert!(c.docker);
    assert_eq!(c.interfaces, vec!["eth1"]);
}

#[test]
fn parser_ignores_disabled_lists() {
    let mut c = Config::default();
    c.whitelist.enabled = true;
    c.whitelist.rules.push(Rule::parse("80/tcp").unwrap());
    c.blacklist.rules.push(Rule::parse("22/tcp").unwrap());
    // the deny list stays disabled: its rules must not be taken
    let mut parser = RuleParser::new();
    parser.parse_config(&c);
    assert_eq!(parser.get_whitelist_rules().len(), 1);
    assert_eq!(parser.get_blacklist_rules().len(), 0);
    assert_eq!(parser.get_port_rules().len(), 1);
    assert_eq!(parser.get_iplist_rules().len(), 0);
}

#[test]
fn parser_collects_iplist_rules_from_both_lists_in_order() {
    let mut c = Config::default();
    c.whitelist.enabled = true;
    c.whitelist.rules.push(Rule::parse("iplist:a").unwrap());
    c.whitelist.rules.push(Rule::parse("80/tcp").unwrap());
    c.blacklist.enabled = true;
    c.blacklist.rules.push(Rule::parse("iplist:b").unwrap());
    let mut parser = RuleParser::new();
    parser.parse_config(&c);
    let lists = parser.get_iplist_rules();
    assert_eq!(lists.len(), 2);
    match (&lists[0], &lists[1]) {
        (Rule::IpList(first), Rule::IpList(second)) => {
            assert_eq!(first.name, "a");
            assert_eq!(second.name, "b");
        }
        other => panic!("unexpected rules {:?}", other),
    }
}

#[test]
fn named_source_lookup_takes_first_match() {
    let mut c = Config::default();
    let source = |v4: &str| ei::rules::IpListConfig {
        urls: ei::rules::IpListUrls {
            ipv4: String::from(v4),
            ipv6: String::from("u6"),
        },
        enabled: true,
    };
    c.iplists.push((String::from("x"), source("first")));
    c.iplists.push((String::from("x"), source("second")));
    let found = c.find_iplist("x").unwrap();
    assert_eq!(found.urls.ipv4, "first");
    assert!(c.find_iplist("y").is_none());
}

#[test]
fn error_text_carries_the_diagnostic() {
    assert_eq!(Error::Io(String::from("gone")).text(), "gone");
    assert_eq!(
        Error::CommandFailed(String::from("exit 2")).text(),
        "exit 2"
    );
}
