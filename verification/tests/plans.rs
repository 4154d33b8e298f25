use ei::cloudflare::CloudflareList;
use ei::cmd::CmdBuilder;
use ei::config::Config;
use ei::iplist::{IpListManager, IpListProvider};
use ei::ipset::{AddrFamily, IpsetController, IpsetOp};
use ei::iptables::{ChainOp, IptablesController, MatchDir, RuleAction};
use ei::rules::{PortRule, Protocol, Rule};

#[test]
fn cmd_builder_accumulates_arguments() {
    let mut cmd = CmdBuilder::new("ipset").with_dry_run(true);
    cmd.arg("add");
    cmd.args(&["s", "80"]);
    assert_eq!(cmd.program, "ipset");
    assert_eq!(cmd.args, vec!["add", "s", "80"]);
    assert!(cmd.dry_run);
}

#[test]
fn ipset_init_resets_the_six_fixed_sets() {
    let ipset = IpsetController::new(false);
    let ops = ipset.init();
    assert_eq!(ops.len(), 12);
    assert_eq!(
        ops[0],
        IpsetOp::Destroy {
            set: String::from("ei-allowed-tcp-ports")
        }
    );
    assert_eq!(
        ops[1],
        IpsetOp::CreatePortSet {
            set: String::from("ei-allowed-tcp-ports")
        }
    );
    assert_eq!(
        ops[11],
        IpsetOp::CreatePortSet {
            set: String::from("ei-blacklist-udp")
        }
    );
}

#[test]
fn ipset_op_rendering() {
    let ipset = IpsetController::new(false);
    let ops = ipset.create_or_reset_ipset("ei-x-ipv4", AddrFamily::V4);
    assert!(ops[0].is_best_effort());
    assert!(!ops[1].is_best_effort());
    let cmd = ops[1].to_cmd(&ipset.cmd);
    assert_eq!(cmd.program, "ipset");
    assert_eq!(
        cmd.args,
        vec!["create", "ei-x-ipv4", "hash:ip", "family", "inet", "maxelem", "65536"]
    );
    let destroy = ops[0].to_cmd(&ipset.cmd);
    assert_eq!(destroy.args, vec!["destroy", "ei-x-ipv4"]);
}

#[test]
fn ipv6_set_creation_carries_the_v6_family() {
    let ipset = IpsetController::new(false);
    let ops = ipset.create_or_reset_ipset("ei-x-ipv6", AddrFamily::V6);
    let cmd = ops[1].to_cmd(&ipset.cmd);
    assert_eq!(
        cmd.args,
        vec!["create", "ei-x-ipv6", "hash:ip", "family", "inet6", "maxelem", "65536"]
    );
}

#[test]
fn port_ops_render_decimal_members() {
    let ipset = IpsetController::new(false);
    assert_eq!(
        ipset.add_port(8080, Protocol::UDP),
        IpsetOp::Add {
            set: String::from("ei-allowed-udp-ports"),
            member: String::from("8080")
        }
    );
    assert_eq!(
        ipset.remove_port(22, Protocol::TCP),
        IpsetOp::Del {
            set: String::from("ei-allowed-tcp-ports"),
            member: String::from("22")
        }
    );
}

#[test]
fn configure_port_rules_takes_only_port_rules() {
    let ipset = IpsetController::new(false);
    let rules = vec![
        Rule::Port(PortRule {
            number: 80,
            protocol: Protocol::TCP,
        }),
        Rule::IpSet(ei::rules::IpSetRule {
            name: String::from("x"),
        }),
        Rule::Port(PortRule {
            number: 53,
            protocol: Protocol::UDP,
        }),
    ];
    let ops = ipset.configure_port_rules(&rules);
    assert_eq!(
        ops,
        vec![
            IpsetOp::Add {
                set: String::from("ei-allowed-tcp-ports"),
                member: String::from("80")
            },
            IpsetOp::Add {
                set: String::from("ei-allowed-udp-ports"),
                member: String::from("53")
            },
        ]
    );
}

#[test]
fn registration_is_cumulative_and_deduplicating() {
    let mut ipset = IpsetController::new(false);
    ipset.register_whitelist_set(String::from("cloudflare"));
    ipset.register_whitelist_set(String::from("feeds"));
    ipset.register_whitelist_set(String::from("cloudflare"));
    assert_eq!(ipset.get_whitelist_sets(), &vec!["cloudflare", "feeds"]);
    ipset.register_blacklist_set(String::from("bad"));
    assert_eq!(ipset.get_blacklist_sets(), &vec!["bad"]);
}

#[test]
fn iptables_init_links_root_and_accepts_loopback_first() {
    let ipt = IptablesController::new(false);
    let ops = ipt.init();
    assert_eq!(
        ops,
        vec![
            ChainOp::NewChain {
                chain: String::from("ei")
            },
            ChainOp::Flush {
                chain: String::from("ei")
            },
            ChainOp::InsertJumpFirst {
                parent: String::from("INPUT"),
                child: String::from("ei")
            },
            ChainOp::InsertJumpFirst {
                parent: String::from("FORWARD"),
                child: String::from("ei")
            },
            ChainOp::InterfaceAcceptFirst {
                chain: String::from("INPUT"),
                iface: String::from("lo")
            },
            ChainOp::InterfaceAcceptFirst {
                chain: String::from("FORWARD"),
                iface: String::from("lo")
            },
        ]
    );
}

#[test]
fn chain_op_rendering_both_families() {
    let ipt = IptablesController::new(true);
    let op = ChainOp::MatchSetRule {
        chain: String::from("ei-whitelist"),
        set: String::from("ei-cloudflare-ipv4"),
        dir: MatchDir::Dst,
        action: RuleAction::Accept,
    };
    let (v4, v6) = ipt.render_both(&op);
    assert_eq!(v4.program, "iptables");
    assert_eq!(v6.program, "ip6tables");
    assert!(v4.dry_run && v6.dry_run);
    let expected = vec![
        "-A",
        "ei-whitelist",
        "-m",
        "set",
        "--match-set",
        "ei-cloudflare-ipv4",
        "dst",
        "-j",
        "ACCEPT",
    ];
    assert_eq!(v4.args, expected);
    assert_eq!(v6.args, expected);
}

#[test]
fn chain_best_effort_flags() {
    assert!(ChainOp::NewChain {
        chain: String::from("x")
    }
    .is_best_effort());
    assert!(ChainOp::DeleteJump {
        parent: String::from("a"),
        child: String::from("b")
    }
    .is_best_effort());
    assert!(!ChainOp::Flush {
        chain: String::from("x")
    }
    .is_best_effort());
    assert!(!ChainOp::AppendJump {
        parent: String::from("a"),
        child: String::from("b")
    }
    .is_best_effort());
}

#[test]
fn features_off_yield_only_interface_blocks() {
    let ipt = IptablesController::new(false);
    let mut config = Config::default();
    config.interfaces.push(String::from("eth9"));
    let ops = ipt.configure(&config);
    assert_eq!(
        ops,
        vec![ChainOp::InterfaceDrop {
            chain: String::from("ei"),
            iface: String::from("eth9")
        }]
    );
}

#[test]
fn port_forwarding_feature_plan() {
    let ipt = IptablesController::new(false);
    let mut config = Config::default();
    config.features.portforward = true;
    let ops = ipt.configure(&config);
    assert_eq!(ops.len(), 6);
    assert_eq!(
        ops[3],
        ChainOp::AppendJump {
            parent: String::from("ei"),
            child: String::from("ei-ports")
        }
    );
    assert_eq!(
        ops[4],
        ChainOp::ProtoPortSetRule {
            chain: String::from("ei-ports"),
            proto: Protocol::TCP,
            set: String::from("ei-allowed-tcp-ports")
        }
    );
}

#[test]
fn update_list_plan_resets_then_populates() {
    let manager = IpListManager::new();
    let ipset = IpsetController::new(false);
    let provider = IpListProvider::Cloudflare(CloudflareList::new());
    let ops = manager.update_list_plan(&ipset, &provider, "1.1.1.0/24\n\n", "");
    assert_eq!(
        ops,
        vec![
            IpsetOp::Destroy {
                set: String::from("ei-cloudflare-ipv4")
            },
            IpsetOp::CreateAddrSet {
                set: String::from("ei-cloudflare-ipv4"),
                family: AddrFamily::V4
            },
            IpsetOp::Destroy {
                set: String::from("ei-cloudflare-ipv6")
            },
            IpsetOp::CreateAddrSet {
                set: String::from("ei-cloudflare-ipv6"),
                family: AddrFamily::V6
            },
            IpsetOp::Add {
                set: String::from("ei-cloudflare-ipv4"),
                member: String::from("1.1.1.0/24")
            },
        ]
    );
}

#[test]
fn update_plan_skips_empty_lines_only() {
    let manager = IpListManager::new();
    let ipset = IpsetController::new(false);
    let provider = IpListProvider::Cloudflare(CloudflareList::new());
    let ops = manager.update_list_plan(&ipset, &provider, "a\n\nb\n", "c");
    let adds: Vec<&IpsetOp> = ops
        .iter()
        .filter(|op| matches!(op, IpsetOp::Add { .. }))
        .collect();
    assert_eq!(adds.len(), 3);
    assert_eq!(
        adds[0],
        &IpsetOp::Add {
            set: String::from("ei-cloudflare-ipv4"),
            member: String::from("a")
        }
    );
    assert_eq!(
        adds[2],
        &IpsetOp::Add {
            set: String::from("ei-cloudflare-ipv6"),
            member: String::from("c")
        }
    );
}
