use ei::config::Config;
use ei::iplist::IpListProvider;
use ei::resolver::IpListResolver;
use ei::rules::{IpListConfig, IpListRule, IpListUrls, PortRule, Protocol, Rule};

fn source(v4: &str, v6: &str, enabled: bool) -> IpListConfig {
    IpListConfig {
        urls: IpListUrls {
            ipv4: String::from(v4),
            ipv6: String::from(v6),
        },
        enabled,
    }
}

fn iplist_rule(name: &str) -> Rule {
    Rule::IpList(IpListRule {
        name: String::from(name),
        config: None,
    })
}

#[test]
fn builtin_resolves_without_configuration() {
    let resolver = IpListResolver::new();
    let provider = resolver.resolve(&iplist_rule("cloudflare")).unwrap();
    match provider {
        IpListProvider::Cloudflare(c) => {
            assert_eq!(c.name, "cloudflare");
            assert_eq!(c.ipv4_set_name(), "ei-cloudflare-ipv4");
            assert_eq!(c.ipv6_set_name(), "ei-cloudflare-ipv6");
            assert_eq!(c.ipv4_url(), "https://www.cloudflare.com/ips-v4");
            assert_eq!(c.ipv6_url(), "https://www.cloudflare.com/ips-v6");
        }
        other => panic!("expected the built-in provider, got {:?}", other),
    }
}

#[test]
fn builtin_takes_precedence_over_enabled_configuration() {
    let mut config = Config::default();
    config.iplists.push((
        String::from("cloudflare"),
        source("http://evil/v4", "http://evil/v6", true),
    ));
    let mut resolver = IpListResolver::new();
    resolver.load_config(&config);
    let provider = resolver.resolve(&iplist_rule("cloudflare")).unwrap();
    assert!(matches!(provider, IpListProvider::Cloudflare(_)));
}

#[test]
fn builtin_takes_precedence_over_inline_source() {
    let resolver = IpListResolver::new();
    let rule = Rule::IpList(IpListRule {
        name: String::from("cloudflare"),
        config: Some(source("http://inline/v4", "http://inline/v6", true)),
    });
    let provider = resolver.resolve(&rule).unwrap();
    assert!(matches!(provider, IpListProvider::Cloudflare(_)));
}

#[test]
fn disabled_configured_source_resolves_to_nothing() {
    let mut config = Config::default();
    config.iplists.push((
        String::from("feeds"),
        source("http://feeds/v4", "http://feeds/v6", false),
    ));
    let mut resolver = IpListResolver::new();
    resolver.load_config(&config);
    assert!(resolver.resolve(&iplist_rule("feeds")).is_none());
}

#[test]
fn enabled_configured_source_resolves() {
    let mut config = Config::default();
    config.iplists.push((
        String::from("feeds"),
        source("http://feeds/v4", "http://feeds/v6", true),
    ));
    let mut resolver = IpListResolver::new();
    resolver.load_config(&config);
    match resolver.resolve(&iplist_rule("feeds")).unwrap() {
        IpListProvider::Configured(c) => {
            assert_eq!(c.name, "feeds");
            assert_eq!(c.ipv4_url(), "http://feeds/v4");
            assert_eq!(c.ipv4_set_name(), "ei-feeds-ipv4");
        }
        other => panic!("expected a configured provider, got {:?}", other),
    }
}

#[test]
fn inline_source_overrides_named_lookup() {
    let mut config = Config::default();
    config.iplists.push((
        String::from("feeds"),
        source("http://named/v4", "http://named/v6", true),
    ));
    let mut resolver = IpListResolver::new();
    resolver.load_config(&config);
    let rule = Rule::IpList(IpListRule {
        name: String::from("feeds"),
        config: Some(source("http://inline/v4", "http://inline/v6", true)),
    });
    match resolver.resolve(&rule).unwrap() {
        IpListProvider::Configured(c) => assert_eq!(c.ipv4_url(), "http://inline/v4"),
        other => panic!("expected a configured provider, got {:?}", other),
    }
}

#[test]
fn disabled_inline_source_resolves_to_nothing() {
    let resolver = IpListResolver::new();
    let rule = Rule::IpList(IpListRule {
        name: String::from("feeds"),
        config: Some(source("http://inline/v4", "http://inline/v6", false)),
    });
    assert!(resolver.resolve(&rule).is_none());
}

#[test]
fn unknown_name_resolves_to_nothing() {
    let resolver = IpListResolver::new();
    assert!(resolver.resolve(&iplist_rule("nowhere")).is_none());
}

#[test]
fn non_iplist_rules_resolve_to_nothing() {
    let resolver = IpListResolver::new();
    let port = Rule::Port(PortRule {
        number: 80,
        protocol: Protocol::TCP,
    });
    assert!(resolver.resolve(&port).is_none());
}

#[test]
fn resolve_all_keeps_order_and_drops_unresolved() {
    let mut config = Config::default();
    config.iplists.push((
        String::from("feeds"),
        source("http://feeds/v4", "http://feeds/v6", true),
    ));
    let mut resolver = IpListResolver::new();
    resolver.load_config(&config);
    let rules = vec![
        iplist_rule("feeds"),
        iplist_rule("missing"),
        iplist_rule("cloudflare"),
    ];
    let providers = resolver.resolve_all(&rules);
    assert_eq!(providers.len(), 2);
    assert_eq!(providers[0].name(), "feeds");
    assert_eq!(providers[1].name(), "cloudflare");
}

#[test]
fn same_name_in_both_lists_resolves_twice() {
    let resolver = IpListResolver::new();
    let rules = vec![iplist_rule("cloudflare"), iplist_rule("cloudflare")];
    assert_eq!(resolver.resolve_all(&rules).len(), 2);
}
