//! Resolution of named IP lists to fetch-capable providers.
//!
//! A name resolves to a built-in provider if one is registered under it —
//! built-ins take precedence unconditionally, configuration cannot override
//! them. Otherwise the rule's inline source, or failing that the named
//! configured source, yields a provider when present and enabled; any other
//! rule resolves to nothing and is dropped from the reconciliation.

use vstd::prelude::*;
use vstd::string::*;

use crate::cloudflare::CloudflareList;
use crate::config::{spec_find_iplist, Config};
use crate::iplist::{ConfigurableIpList, IpListProvider, IpListProviderV};
use crate::rules::{IpListConfig, IpListConfigV, Rule, RuleV};

verus! {

/// The closed set of built-in providers.
#[derive(Debug, Clone, Copy, PartialEq, Eq, Structural)]
pub enum BuiltinKind {
    Cloudflare,
}

impl DeepView for BuiltinKind {
    type V = BuiltinKind;

    open spec fn deep_view(&self) -> BuiltinKind {
        *self
    }
}

/// The provider a built-in registration creates.
pub open spec fn builtin_provider(kind: BuiltinKind) -> IpListProviderV {
    match kind {
        BuiltinKind::Cloudflare => IpListProviderV::Cloudflare { name: "cloudflare"@ },
    }
}

/// The built-in registered under a name; a later registration of the same
/// name wins.
pub open spec fn find_builtin(
    entries: Seq<(Seq<char>, BuiltinKind)>,
    name: Seq<char>,
) -> Option<BuiltinKind>
    decreases entries.len(),
{
    if entries.len() == 0 {
        None
    } else if entries.last().0 == name {
        Some(entries.last().1)
    } else {
        find_builtin(entries.drop_last(), name)
    }
}

/// What one rule resolves to, under given built-ins and configured sources.
pub open spec fn resolve_spec(
    builtin: Seq<(Seq<char>, BuiltinKind)>,
    configs: Seq<(Seq<char>, IpListConfigV)>,
    rule: RuleV,
) -> Option<IpListProviderV> {
    match rule {
        RuleV::IpList(l) => match find_builtin(builtin, l.name) {
            Some(kind) => Some(builtin_provider(kind)),
            None => {
                let source = if l.config is Some {
                    l.config
                } else {
                    spec_find_iplist(configs, l.name)
                };
                match source {
                    Some(c) => if c.enabled {
                        Some(IpListProviderV::Configured { name: l.name, config: c })
                    } else {
                        None
                    },
                    None => None,
                }
            },
        },
        _ => None,
    }
}

/// What a rule sequence resolves to: unresolved rules drop out, order is
/// kept.
pub open spec fn resolve_all_spec(
    builtin: Seq<(Seq<char>, BuiltinKind)>,
    configs: Seq<(Seq<char>, IpListConfigV)>,
    rules: Seq<RuleV>,
) -> Seq<IpListProviderV>
    decreases rules.len(),
{
    if rules.len() == 0 {
        seq![]
    } else {
        resolve_all_spec(builtin, configs, rules.drop_last()) + (match resolve_spec(
            builtin,
            configs,
            rules.last(),
        ) {
            Some(p) => seq![p],
            None => seq![],
        })
    }
}

/// The registry state a fresh resolver starts from.
pub open spec fn default_builtins() -> Seq<(Seq<char>, BuiltinKind)> {
    seq![("cloudflare"@, BuiltinKind::Cloudflare)]
}

/// Maps list names to fetch-capable providers: a fixed table of built-ins,
/// extended by registration, over the configuration's named sources.
#[derive(Debug)]
pub struct IpListResolver {
    pub configs: Vec<(String, IpListConfig)>,
    pub builtin: Vec<(String, BuiltinKind)>,
}

impl IpListResolver {
    /// A resolver with the built-in lists registered and no configured
    /// sources loaded yet.
    pub fn new() -> (r: Self)
        ensures
            r.builtin.deep_view() == default_builtins(),
            r.configs.deep_view() == Seq::<(Seq<char>, IpListConfigV)>::empty(),
    {
        let mut r = IpListResolver { configs: Vec::new(), builtin: Vec::new() };
        r.register_builtin("cloudflare", BuiltinKind::Cloudflare);
        proof {
            assert(r.configs.deep_view() =~= Seq::<(Seq<char>, IpListConfigV)>::empty());
            assert(r.builtin.deep_view() =~= default_builtins());
        }
        r
    }

    /// Adopt the configuration's named sources.
    pub fn load_config(&mut self, config: &Config)
        ensures
            final(self).configs.deep_view() == config.iplists.deep_view(),
            final(self).builtin == old(self).builtin,
    {
        let mut copied: Vec<(String, IpListConfig)> = Vec::new();
        let n: usize = config.iplists.len();
        let mut i: usize = 0;
        proof {
            assert(copied.deep_view() =~= config.iplists.deep_view().take(0));
        }
        while i < n
            invariant
                0 <= i <= n == config.iplists.len(),
                copied.deep_view() == config.iplists.deep_view().take(i as int),
            decreases n - i,
        {
            let entry = &config.iplists[i];
            proof {
                let dv = config.iplists.deep_view();
                assert(dv[i as int] == entry.deep_view());
            }
            let ghost prev = copied.deep_view();
            copied.push((entry.0.clone(), entry.1.clone()));
            proof {
                assert(copied.deep_view() =~= prev.push(entry.deep_view()));
                assert(copied.deep_view() =~= config.iplists.deep_view().take(i + 1));
            }
            i = i + 1;
        }
        proof {
            assert(config.iplists.deep_view().take(n as int) =~= config.iplists.deep_view());
        }
        self.configs = copied;
    }

    /// Register a built-in under a name; a repeated name shadows the
    /// earlier registration.
    pub fn register_builtin(&mut self, name: &str, kind: BuiltinKind)
        ensures
            final(self).builtin.deep_view() == old(self).builtin.deep_view().push(
                (name@, kind),
            ),
            final(self).configs == old(self).configs,
    {
        let ghost prev = self.builtin.deep_view();
        self.builtin.push((String::from_str(name), kind));
        proof {
            assert(self.builtin.deep_view() =~= prev.push((name@, kind)));
        }
    }

    /// Find the built-in registered under a name, newest registration
    /// first.
    fn find_builtin_kind(&self, name: &str) -> (r: Option<BuiltinKind>)
        ensures
            r == find_builtin(self.builtin.deep_view(), name@),
    {
        let n: usize = self.builtin.len();
        let mut i: usize = n;
        proof {
            assert(self.builtin.deep_view().take(n as int) =~= self.builtin.deep_view());
        }
        while i > 0
            invariant
                0 <= i <= n == self.builtin.len(),
                find_builtin(self.builtin.deep_view(), name@) == find_builtin(
                    self.builtin.deep_view().take(i as int),
                    name@,
                ),
            decreases i,
        {
            let entry = &self.builtin[i - 1];
            proof {
                let dv = self.builtin.deep_view();
                assert(dv[i - 1] == entry.deep_view());
                assert(dv.take(i as int).last() == dv[i - 1]);
                assert(dv.take(i as int).drop_last() =~= dv.take(i - 1));
            }
            if crate::text::str_eq(entry.0.as_str(), name) {
                return Some(entry.1);
            }
            i = i - 1;
        }
        proof {
            assert(self.builtin.deep_view().take(0) =~= Seq::<(Seq<char>, BuiltinKind)>::empty());
        }
        None
    }

    /// The provider a built-in kind constructs.
    fn make_builtin(&self, kind: BuiltinKind) -> (r: IpListProvider)
        ensures
            r.deep_view() == builtin_provider(kind),
    {
        match kind {
            BuiltinKind::Cloudflare => IpListProvider::Cloudflare(CloudflareList::new()),
        }
    }

    /// Resolve one rule. A built-in name wins unconditionally; otherwise
    /// the inline source, or the configured source of the name, yields a
    /// provider exactly when present and enabled.
    pub fn resolve(&self, rule: &Rule) -> (r: Option<IpListProvider>)
        ensures
            r is Some <==> resolve_spec(
                self.builtin.deep_view(),
                self.configs.deep_view(),
                rule.deep_view(),
            ) is Some,
            r is Some ==> r->Some_0.deep_view() == resolve_spec(
                self.builtin.deep_view(),
                self.configs.deep_view(),
                rule.deep_view(),
            )->Some_0,
    {
        match rule {
            Rule::IpList(list_rule) => {
                if let Some(kind) = self.find_builtin_kind(list_rule.name.as_str()) {
                    return Some(self.make_builtin(kind));
                }
                let source: Option<&IpListConfig> = match &list_rule.config {
                    Some(c) => Some(c),
                    None => crate::config::find_iplist_in(
                        &self.configs,
                        list_rule.name.as_str(),
                    ),
                };
                match source {
                    Some(c) => {
                        if c.enabled {
                            Some(
                                IpListProvider::Configured(
                                    ConfigurableIpList::new(list_rule.name.clone(), c.clone()),
                                ),
                            )
                        } else {
                            None
                        }
                    },
                    None => None,
                }
            },
            _ => None,
        }
    }

    /// Resolve a rule sequence; unresolved rules drop out, order is kept.
    pub fn resolve_all(&self, rules: &Vec<Rule>) -> (r: Vec<IpListProvider>)
        ensures
            r.deep_view() == resolve_all_spec(
                self.builtin.deep_view(),
                self.configs.deep_view(),
                rules.deep_view(),
            ),
    {
        let mut out: Vec<IpListProvider> = Vec::new();
        let n: usize = rules.len();
        let mut i: usize = 0;
        proof {
            assert(out.deep_view() =~= Seq::<IpListProviderV>::empty());
            assert(resolve_all_spec(
                self.builtin.deep_view(),
                self.configs.deep_view(),
                rules.deep_view().take(0),
            ) =~= Seq::<IpListProviderV>::empty());
        }
        while i < n
            invariant
                0 <= i <= n == rules.len(),
                out.deep_view() == resolve_all_spec(
                    self.builtin.deep_view(),
                    self.configs.deep_view(),
                    rules.deep_view().take(i as int),
                ),
            decreases n - i,
        {
            let rule = &rules[i];
            proof {
                let dv = rules.deep_view();
                assert(dv[i as int] == rule.deep_view());
                assert(dv.take(i + 1).drop_last() =~= dv.take(i as int));
                assert(dv.take(i + 1).last() == dv[i as int]);
            }
            match self.resolve(rule) {
                Some(provider) => {
                    let ghost prev = out.deep_view();
                    let ghost pv = provider.deep_view();
                    out.push(provider);
                    proof {
                        assert(out.deep_view() =~= prev.push(pv));
                        assert(out.deep_view() =~= resolve_all_spec(
                            self.builtin.deep_view(),
                            self.configs.deep_view(),
                            rules.deep_view().take(i + 1),
                        ));
                    }
                },
                None => {
                    proof {
                        assert(out.deep_view() =~= resolve_all_spec(
                            self.builtin.deep_view(),
                            self.configs.deep_view(),
                            rules.deep_view().take(i + 1),
                        ));
                    }
                },
            }
            i = i + 1;
        }
        proof {
            assert(rules.deep_view().take(n as int) =~= rules.deep_view());
        }
        out
    }
}

/// Built-in precedence: an IP-list rule whose name has a registered
/// built-in always resolves to that built-in's provider, whatever sources
/// are configured under the same name, enabled or not, and whatever inline
/// source the rule carries.
pub proof fn lemma_builtin_precedence(
    builtin: Seq<(Seq<char>, BuiltinKind)>,
    configs: Seq<(Seq<char>, IpListConfigV)>,
    rule: RuleV,
)
    requires
        rule is IpList,
        find_builtin(builtin, rule->IpList_0.name) is Some,
    ensures
        resolve_spec(builtin, configs, rule) == Some(
            builtin_provider(find_builtin(builtin, rule->IpList_0.name)->Some_0),
        ),
{
}

/// A disabled source yields no provider: an IP-list rule whose name is no
/// built-in, and whose effective source (inline, else configured) is
/// disabled, resolves to nothing.
pub proof fn lemma_disabled_source_drops_rule(
    builtin: Seq<(Seq<char>, BuiltinKind)>,
    configs: Seq<(Seq<char>, IpListConfigV)>,
    rule: RuleV,
)
    requires
        rule is IpList,
        find_builtin(builtin, rule->IpList_0.name) is None,
        ({
            let source = if rule->IpList_0.config is Some {
                rule->IpList_0.config
            } else {
                spec_find_iplist(configs, rule->IpList_0.name)
            };
            source is Some && !source->Some_0.enabled
        }),
    ensures
        resolve_spec(builtin, configs, rule) is None,
{
}

/// An unresolved rule contributes nothing anywhere: it adds no provider,
/// so no membership set is ever created, reset or populated for it.
pub proof fn lemma_unresolved_rule_absent(
    builtin: Seq<(Seq<char>, BuiltinKind)>,
    configs: Seq<(Seq<char>, IpListConfigV)>,
    rules: Seq<RuleV>,
)
    ensures
        resolve_all_spec(builtin, configs, rules) == resolve_all_spec(
            builtin,
            configs,
            rules.filter((|r: RuleV| resolve_spec(builtin, configs, r) is Some)),
        ),
    decreases rules.len(),
{
    reveal(Seq::filter);
    if rules.len() > 0 {
        lemma_unresolved_rule_absent(builtin, configs, rules.drop_last());
        let kept = rules.filter((|r: RuleV| resolve_spec(builtin, configs, r) is Some));
        let kept_front = rules.drop_last().filter(
            (|r: RuleV| resolve_spec(builtin, configs, r) is Some),
        );
        if resolve_spec(builtin, configs, rules.last()) is Some {
            assert(kept == kept_front.push(rules.last()));
            assert(kept.len() > 0);
            assert(kept.drop_last() =~= kept_front);
            assert(kept.last() == rules.last());
        } else {
            assert(kept == kept_front);
            assert(resolve_all_spec(builtin, configs, rules) =~= resolve_all_spec(
                builtin,
                configs,
                kept,
            ));
        }
    }
}

} // verus!
