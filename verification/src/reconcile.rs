//! The reconciliation orchestrator.
//!
//! One reconciliation is a single linear pass: parse the snapshot's two
//! access lists, resolve their IP-list rules to providers, register every
//! resolved list's name for allow or deny matching, then derive one ordered
//! plan — the fetch pipeline's membership operations, the port-rule
//! applications, and the chain configuration. The surrounding program
//! fetches the list bodies and runs the plan; re-running the whole pass is
//! idempotent by construction.

use vstd::prelude::*;
use vstd::string::*;

use crate::config::{Config, ConfigV};
use crate::iplist::{
    provider_name, update_all_ops, FetchResult, IpListManager, IpListProvider, IpListProviderV,
};
use crate::ipset::{configure_port_rules_ops, IpsetController, IpsetOp, IpsetOpV};
use crate::iptables::{
    configure_with_rules_ops, BackendOp, BackendOpV, IptablesController,
};
use crate::resolver::{default_builtins, resolve_all_spec, IpListResolver};
use crate::rules::{iplist_rules_of, port_rules_of, RuleParser, RuleV};

verus! {

/// The allow list's rules of one snapshot: empty when the list is disabled.
pub open spec fn snapshot_wl_rules(c: ConfigV) -> Seq<RuleV> {
    if c.whitelist.enabled {
        c.whitelist.rules
    } else {
        seq![]
    }
}

/// The deny list's rules of one snapshot: empty when the list is disabled.
pub open spec fn snapshot_bl_rules(c: ConfigV) -> Seq<RuleV> {
    if c.blacklist.enabled {
        c.blacklist.rules
    } else {
        seq![]
    }
}

/// The providers a snapshot's IP-list rules resolve to, allow list first.
pub open spec fn resolved_providers(c: ConfigV) -> Seq<IpListProviderV> {
    resolve_all_spec(
        default_builtins(),
        c.iplists,
        iplist_rules_of(snapshot_wl_rules(c) + snapshot_bl_rules(c)),
    )
}

/// The providers the allow list's rules resolve to.
pub open spec fn resolved_wl_providers(c: ConfigV) -> Seq<IpListProviderV> {
    resolve_all_spec(default_builtins(), c.iplists, snapshot_wl_rules(c))
}

/// The providers the deny list's rules resolve to.
pub open spec fn resolved_bl_providers(c: ConfigV) -> Seq<IpListProviderV> {
    resolve_all_spec(default_builtins(), c.iplists, snapshot_bl_rules(c))
}

/// The names of a provider sequence, in order.
pub open spec fn provider_names(ps: Seq<IpListProviderV>) -> Seq<Seq<char>> {
    ps.map_values(|p: IpListProviderV| provider_name(p))
}

/// One registration: cumulative and deduplicating.
pub open spec fn insert_unique(reg: Seq<Seq<char>>, name: Seq<char>) -> Seq<Seq<char>> {
    if reg.contains(name) {
        reg
    } else {
        reg.push(name)
    }
}

/// A registry after registering each name in order.
pub open spec fn register_names(reg: Seq<Seq<char>>, names: Seq<Seq<char>>) -> Seq<Seq<char>>
    decreases names.len(),
{
    if names.len() == 0 {
        reg
    } else {
        register_names(insert_unique(reg, names[0]), names.drop_first())
    }
}

/// A membership-only plan lifted into a mixed plan.
pub open spec fn lift_set_ops(ops: Seq<IpsetOpV>) -> Seq<BackendOpV> {
    ops.map_values(|o: IpsetOpV| BackendOpV::Ipset(o))
}

/// The full ordered plan of one reconciliation, as a function of the
/// snapshot, the two registries' prior contents, and the fetched bodies of
/// the resolved providers: the fetch pipeline's membership operations, then
/// the port-rule applications into the fixed allow-port sets, then the
/// chain configuration.
pub open spec fn reconcile_ops(
    c: ConfigV,
    wl_reg: Seq<Seq<char>>,
    bl_reg: Seq<Seq<char>>,
    fetches: Seq<(Seq<char>, Seq<char>)>,
) -> Seq<BackendOpV> {
    lift_set_ops(update_all_ops(resolved_providers(c), fetches)) + lift_set_ops(
        configure_port_rules_ops(port_rules_of(snapshot_wl_rules(c) + snapshot_bl_rules(c))),
    ) + configure_with_rules_ops(
        snapshot_wl_rules(c),
        snapshot_bl_rules(c),
        register_names(wl_reg, provider_names(resolved_wl_providers(c))),
        register_names(bl_reg, provider_names(resolved_bl_providers(c))),
        c.features.portforward,
        c.features.block_badtcp,
        c.docker,
        c.interfaces,
    )
}

/// Ordering invariant of every reconciliation: whatever the configuration,
/// the registries' prior contents, and the fetched bodies, the plan links
/// the allow chain at the head of the root chain and, later, the deny chain
/// at its tail — and the allow chain's link is the only head link into the
/// root chain that the plan holds.
pub proof fn lemma_allow_head_deny_tail(
    c: ConfigV,
    wl_reg: Seq<Seq<char>>,
    bl_reg: Seq<Seq<char>>,
    fetches: Seq<(Seq<char>, Seq<char>)>,
)
    ensures
        ({
            let plan = reconcile_ops(c, wl_reg, bl_reg, fetches);
            exists|i: int, j: int|
                0 <= i < j < plan.len() && plan[i] == BackendOpV::Chain(
                    crate::iptables::ChainOpV::InsertJumpFirst {
                        parent: "ei"@,
                        child: "ei-whitelist"@,
                    },
                ) && plan[j] == BackendOpV::Chain(
                    crate::iptables::ChainOpV::AppendJump {
                        parent: "ei"@,
                        child: "ei-blacklist"@,
                    },
                )
        }),
        forall|k: int|
            0 <= k < reconcile_ops(c, wl_reg, bl_reg, fetches).len()
                && crate::iptables::is_root_head_link(
                #[trigger] reconcile_ops(c, wl_reg, bl_reg, fetches)[k],
            ) ==> reconcile_ops(c, wl_reg, bl_reg, fetches)[k] == BackendOpV::Chain(
                crate::iptables::ChainOpV::InsertJumpFirst {
                    parent: "ei"@,
                    child: "ei-whitelist"@,
                },
            ),
{
    let plan = reconcile_ops(c, wl_reg, bl_reg, fetches);
    let wl = snapshot_wl_rules(c);
    let bl = snapshot_bl_rules(c);
    let wl_sets = register_names(wl_reg, provider_names(resolved_wl_providers(c)));
    let bl_sets = register_names(bl_reg, provider_names(resolved_bl_providers(c)));
    let a = lift_set_ops(update_all_ops(resolved_providers(c), fetches));
    let b = lift_set_ops(configure_port_rules_ops(port_rules_of(wl + bl)));
    let wlc = crate::iptables::whitelist_chain_ops(wl, wl_sets);
    let blc = crate::iptables::blacklist_chain_ops(bl, bl_sets);
    let f = crate::iptables::lift_chain_ops(
        crate::iptables::configure_feature_ops(
            c.features.portforward,
            c.features.block_badtcp,
            c.docker,
            c.interfaces,
        ),
    );
    assert(plan == (a + b) + ((wlc + blc) + f));
    crate::iptables::lemma_access_chain_links(wl, bl, wl_sets, bl_sets);
    crate::iptables::lemma_feature_ops_no_head_link(
        c.features.portforward,
        c.features.block_badtcp,
        c.docker,
        c.interfaces,
    );
    let i = a.len() + b.len() + 3;
    let j = a.len() + b.len() + wlc.len() + 3;
    assert(plan[i as int] == wlc[3]);
    assert(plan[j as int] == blc[3]);
    assert(0 <= i < j < plan.len());
    assert forall|k: int|
        0 <= k < plan.len() && crate::iptables::is_root_head_link(
            #[trigger] plan[k],
        ) implies plan[k] == BackendOpV::Chain(
        crate::iptables::ChainOpV::InsertJumpFirst { parent: "ei"@, child: "ei-whitelist"@ },
    ) by {
        let an = a.len() as int;
        let bn = b.len() as int;
        let wn = wlc.len() as int;
        let dn = blc.len() as int;
        if k < an {
            assert(plan[k] == a[k]);
            assert(a[k] is Ipset);
        } else if k < an + bn {
            assert(plan[k] == b[k - an]);
            assert(b[k - an] is Ipset);
        } else if k < an + bn + wn {
            assert(plan[k] == wlc[k - an - bn]);
        } else if k < an + bn + wn + dn {
            assert(plan[k] == blc[k - an - bn - wn]);
        } else {
            assert(plan[k] == f[k - an - bn - wn - dn]);
            assert(crate::iptables::configure_feature_ops(
                c.features.portforward,
                c.features.block_badtcp,
                c.docker,
                c.interfaces,
            )[k - an - bn - wn - dn] is InsertJumpFirst == false);
        }
    }
}

/// Move a membership-only plan to the tail of a mixed plan, keeping order.
fn push_set_ops(out: &mut Vec<BackendOp>, ops: Vec<IpsetOp>)
    ensures
        final(out).deep_view() == old(out).deep_view() + lift_set_ops(ops.deep_view()),
{
    let ghost base = out.deep_view();
    let ghost full = ops.deep_view();
    let mut rest = ops;
    proof {
        assert(base + lift_set_ops(full) =~= out.deep_view() + lift_set_ops(rest.deep_view()));
    }
    while rest.len() > 0
        invariant
            base + lift_set_ops(full) == out.deep_view() + lift_set_ops(rest.deep_view()),
        decreases rest.len(),
    {
        let ghost prev_out = out.deep_view();
        let ghost prev_rest = rest.deep_view();
        let op = rest.remove(0);
        proof {
            assert(rest.deep_view() =~= prev_rest.drop_first());
            assert(op.deep_view() == prev_rest[0]);
        }
        out.push(BackendOp::Ipset(op));
        proof {
            assert(out.deep_view() =~= prev_out.push(BackendOpV::Ipset(prev_rest[0])));
            assert(lift_set_ops(prev_rest) =~= seq![BackendOpV::Ipset(prev_rest[0])]
                + lift_set_ops(prev_rest.drop_first()));
            assert(out.deep_view() + lift_set_ops(rest.deep_view()) =~= prev_out
                + lift_set_ops(prev_rest));
        }
    }
    proof {
        assert(lift_set_ops(rest.deep_view()) =~= Seq::<BackendOpV>::empty());
        assert(out.deep_view() =~= base + lift_set_ops(full));
    }
}

/// Register every provider's name into one registry, in provider order.
fn register_provider_names(
    ipset: &mut IpsetController,
    providers: &Vec<IpListProvider>,
    whitelist: bool,
)
    ensures
        whitelist ==> final(ipset).whitelist_sets.deep_view() == register_names(
            old(ipset).whitelist_sets.deep_view(),
            provider_names(providers.deep_view()),
        ) && final(ipset).blacklist_sets == old(ipset).blacklist_sets,
        !whitelist ==> final(ipset).blacklist_sets.deep_view() == register_names(
            old(ipset).blacklist_sets.deep_view(),
            provider_names(providers.deep_view()),
        ) && final(ipset).whitelist_sets == old(ipset).whitelist_sets,
        final(ipset).cmd == old(ipset).cmd,
{
    let ghost names = provider_names(providers.deep_view());
    let n: usize = providers.len();
    let mut i: usize = 0;
    proof {
        assert(names.skip(0) =~= names);
    }
    while i < n
        invariant
            0 <= i <= n == providers.len(),
            names == provider_names(providers.deep_view()),
            whitelist ==> register_names(
                old(ipset).whitelist_sets.deep_view(),
                names,
            ) == register_names(ipset.whitelist_sets.deep_view(), names.skip(i as int)),
            whitelist ==> ipset.blacklist_sets == old(ipset).blacklist_sets,
            !whitelist ==> register_names(
                old(ipset).blacklist_sets.deep_view(),
                names,
            ) == register_names(ipset.blacklist_sets.deep_view(), names.skip(i as int)),
            !whitelist ==> ipset.whitelist_sets == old(ipset).whitelist_sets,
            ipset.cmd == old(ipset).cmd,
        decreases n - i,
    {
        let provider = &providers[i];
        proof {
            assert(providers.deep_view()[i as int] == provider.deep_view());
            assert(names[i as int] == provider_name(provider.deep_view()));
            assert(names.skip(i as int)[0] == names[i as int]);
            assert(names.skip(i as int).drop_first() =~= names.skip(i + 1));
        }
        let name = String::from_str(provider.name());
        if whitelist {
            ipset.register_whitelist_set(name);
        } else {
            ipset.register_blacklist_set(name);
        }
        i = i + 1;
    }
    proof {
        assert(names.skip(n as int) =~= Seq::<Seq<char>>::empty());
    }
}

/// One reconciliation's plan, derived from a configuration snapshot and the
/// fetched bodies of its resolved providers, one body pair per provider in
/// provider order. As its side effect, every resolved list's name is
/// registered allow- or deny-tagged according to the list it came from.
pub fn reconcile(
    config: &Config,
    ipset: &mut IpsetController,
    iptables: &IptablesController,
    fetches: &Vec<FetchResult>,
) -> (plan: Vec<BackendOp>)
    requires
        fetches.deep_view().len() == resolved_providers(config.deep_view()).len(),
    ensures
        plan.deep_view() == reconcile_ops(
            config.deep_view(),
            old(ipset).whitelist_sets.deep_view(),
            old(ipset).blacklist_sets.deep_view(),
            fetches.deep_view(),
        ),
        final(ipset).whitelist_sets.deep_view() == register_names(
            old(ipset).whitelist_sets.deep_view(),
            provider_names(resolved_wl_providers(config.deep_view())),
        ),
        final(ipset).blacklist_sets.deep_view() == register_names(
            old(ipset).blacklist_sets.deep_view(),
            provider_names(resolved_bl_providers(config.deep_view())),
        ),
        final(ipset).cmd == old(ipset).cmd,
{
    let ghost c = config.deep_view();
    let mut rule_parser = RuleParser::new();
    rule_parser.parse_config(config);
    proof {
        assert(rule_parser.whitelist_rules.deep_view() == snapshot_wl_rules(c));
        assert(rule_parser.blacklist_rules.deep_view() == snapshot_bl_rules(c));
    }
    let mut resolver = IpListResolver::new();
    resolver.load_config(config);

    let iplist_rules = rule_parser.get_iplist_rules();
    let mut providers = resolver.resolve_all(&iplist_rules);
    let mut manager = IpListManager::new();
    proof {
        assert(providers.deep_view() == resolved_providers(c));
        assert(manager.lists.deep_view() + providers.deep_view() =~= providers.deep_view());
    }
    let ghost all_providers = providers.deep_view();
    while providers.len() > 0
        invariant
            manager.lists.deep_view() + providers.deep_view() == all_providers,
        decreases providers.len(),
    {
        let ghost prev_lists = manager.lists.deep_view();
        let ghost prev_providers = providers.deep_view();
        let provider = providers.remove(0);
        proof {
            assert(providers.deep_view() =~= prev_providers.drop_first());
            assert(provider.deep_view() == prev_providers[0]);
        }
        manager.add_list(provider);
        proof {
            assert(manager.lists.deep_view() + providers.deep_view() =~= prev_lists
                + prev_providers);
        }
    }
    proof {
        assert(providers.deep_view() =~= Seq::<IpListProviderV>::empty());
        assert(manager.lists.deep_view() =~= all_providers);
    }

    let wl_providers = resolver.resolve_all(rule_parser.get_whitelist_rules());
    register_provider_names(ipset, &wl_providers, true);
    let bl_providers = resolver.resolve_all(rule_parser.get_blacklist_rules());
    register_provider_names(ipset, &bl_providers, false);

    let mut plan: Vec<BackendOp> = Vec::new();
    proof {
        assert(plan.deep_view() =~= Seq::<BackendOpV>::empty());
    }
    push_set_ops(&mut plan, manager.update_all_plan(ipset, fetches));
    push_set_ops(&mut plan, ipset.configure_port_rules(&rule_parser.get_port_rules()));
    crate::append_plan(&mut plan, iptables.configure_with_rules(config, &rule_parser, ipset));
    proof {
        assert(plan.deep_view() =~= reconcile_ops(
            c,
            old(ipset).whitelist_sets.deep_view(),
            old(ipset).blacklist_sets.deep_view(),
            fetches.deep_view(),
        ));
    }
    plan
}

} // verus!
