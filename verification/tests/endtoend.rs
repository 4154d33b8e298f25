use ei::config::Config;
use ei::iplist::FetchResult;
use ei::ipset::{AddrFamily, IpsetController, IpsetOp};
use ei::iptables::{BackendOp, ChainOp, IptablesController, MatchDir, RuleAction};
use ei::reconcile::reconcile;
use ei::rules::Rule;

fn scenario_config() -> Config {
    let mut config = Config::default();
    config.whitelist.enabled = true;
    config
        .whitelist
        .rules
        .push(Rule::parse("80/tcp").unwrap());
    config
        .whitelist
        .rules
        .push(Rule::parse("iplist:cloudflare").unwrap());
    config.blacklist.enabled = true;
    config
}

fn scenario_plan() -> (Vec<BackendOp>, IpsetController) {
    let config = scenario_config();
    let mut ipset = IpsetController::new(true);
    let iptables = IptablesController::new(true);
    let fetches = vec![FetchResult {
        ipv4: String::from("1.1.1.0/24\n\n"),
        ipv6: String::from(""),
    }];
    let plan = reconcile(&config, &mut ipset, &iptables, &fetches);
    (plan, ipset)
}

#[test]
fn scenario_populates_exactly_one_member() {
    let (plan, _) = scenario_plan();
    let adds: Vec<&BackendOp> = plan
        .iter()
        .filter(|op| {
            matches!(
                op,
                BackendOp::Ipset(IpsetOp::Add { set, .. }) if set == "ei-cloudflare-ipv4"
            )
        })
        .collect();
    assert_eq!(adds.len(), 1);
    assert_eq!(
        adds[0],
        &BackendOp::Ipset(IpsetOp::Add {
            set: String::from("ei-cloudflare-ipv4"),
            member: String::from("1.1.1.0/24")
        })
    );
    let v6_adds = plan.iter().any(|op| {
        matches!(
            op,
            BackendOp::Ipset(IpsetOp::Add { set, .. }) if set == "ei-cloudflare-ipv6"
        )
    });
    assert!(!v6_adds);
}

#[test]
fn scenario_registers_the_resolved_list() {
    let (_, ipset) = scenario_plan();
    assert_eq!(ipset.get_whitelist_sets(), &vec!["cloudflare"]);
    assert!(ipset.get_blacklist_sets().is_empty());
}

#[test]
fn scenario_allow_chain_matches_list_sets_and_fixed_port_sets() {
    let (plan, _) = scenario_plan();
    let accepts: Vec<&BackendOp> = plan
        .iter()
        .filter(|op| {
            matches!(
                op,
                BackendOp::Chain(ChainOp::MatchSetRule { chain, .. }) if chain == "ei-whitelist"
            )
        })
        .collect();
    assert_eq!(accepts.len(), 4);
    let expected_sets = [
        "ei-cloudflare-ipv4",
        "ei-cloudflare-ipv6",
        "ei-whitelist-tcp",
        "ei-whitelist-udp",
    ];
    for (op, want) in accepts.iter().zip(expected_sets.iter()) {
        match op {
            BackendOp::Chain(ChainOp::MatchSetRule {
                set, dir, action, ..
            }) => {
                assert_eq!(set, want);
                assert_eq!(*dir, MatchDir::Dst);
                assert_eq!(*action, RuleAction::Accept);
            }
            other => panic!("unexpected op {:?}", other),
        }
    }
}

#[test]
fn scenario_deny_chain_created_linked_and_empty() {
    let (plan, _) = scenario_plan();
    assert!(plan.iter().any(|op| matches!(
        op,
        BackendOp::Chain(ChainOp::NewChain { chain }) if chain == "ei-blacklist"
    )));
    assert!(plan.iter().any(|op| matches!(
        op,
        BackendOp::Chain(ChainOp::AppendJump { parent, child })
            if parent == "ei" && child == "ei-blacklist"
    )));
    let deny_rules = plan.iter().any(|op| {
        matches!(
            op,
            BackendOp::Chain(ChainOp::MatchSetRule { chain, .. }) if chain == "ei-blacklist"
        )
    });
    assert!(!deny_rules, "deny chain should hold no match rules here");
}

#[test]
fn scenario_allow_head_link_precedes_deny_tail_link() {
    let (plan, _) = scenario_plan();
    let head = plan.iter().position(|op| {
        matches!(
            op,
            BackendOp::Chain(ChainOp::InsertJumpFirst { parent, child })
                if parent == "ei" && child == "ei-whitelist"
        )
    });
    let tail = plan.iter().position(|op| {
        matches!(
            op,
            BackendOp::Chain(ChainOp::AppendJump { parent, child })
                if parent == "ei" && child == "ei-blacklist"
        )
    });
    assert!(head.unwrap() < tail.unwrap());
    let head_links = plan
        .iter()
        .filter(|op| {
            matches!(
                op,
                BackendOp::Chain(ChainOp::InsertJumpFirst { parent, .. }) if parent == "ei"
            )
        })
        .count();
    assert_eq!(head_links, 1);
}

#[test]
fn scenario_port_rule_lands_in_fixed_allow_set() {
    let (plan, _) = scenario_plan();
    assert!(plan.iter().any(|op| matches!(
        op,
        BackendOp::Ipset(IpsetOp::Add { set, member })
            if set == "ei-allowed-tcp-ports" && member == "80"
    )));
    assert!(plan.iter().any(|op| matches!(
        op,
        BackendOp::Ipset(IpsetOp::Add { set, member })
            if set == "ei-whitelist-tcp" && member == "80"
    )));
}

#[test]
fn scenario_resets_both_families_together() {
    let (plan, _) = scenario_plan();
    for (set, family) in [
        ("ei-cloudflare-ipv4", AddrFamily::V4),
        ("ei-cloudflare-ipv6", AddrFamily::V6),
    ] {
        assert!(plan.iter().any(|op| matches!(
            op,
            BackendOp::Ipset(IpsetOp::Destroy { set: s }) if s == set
        )));
        assert!(plan.iter().any(|op| matches!(
            op,
            BackendOp::Ipset(IpsetOp::CreateAddrSet { set: s, family: f })
                if s == set && *f == family
        )));
    }
}

#[test]
fn empty_configuration_still_builds_both_access_chains() {
    let config = Config::default();
    let mut ipset = IpsetController::new(true);
    let iptables = IptablesController::new(true);
    let plan = reconcile(&config, &mut ipset, &iptables, &Vec::new());
    assert!(!plan
        .iter()
        .any(|op| matches!(op, BackendOp::Ipset(IpsetOp::Add { .. }))));
    assert!(plan.iter().any(|op| matches!(
        op,
        BackendOp::Chain(ChainOp::InsertJumpFirst { parent, child })
            if parent == "ei" && child == "ei-whitelist"
    )));
    assert!(plan.iter().any(|op| matches!(
        op,
        BackendOp::Chain(ChainOp::AppendJump { parent, child })
            if parent == "ei" && child == "ei-blacklist"
    )));
    assert!(ipset.get_whitelist_sets().is_empty());
    assert!(ipset.get_blacklist_sets().is_empty());
}
