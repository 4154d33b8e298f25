//! List providers and the fetch-and-populate pipeline.
//!
//! A resolved list names two membership sets and two fetch endpoints. The
//! surrounding program performs the HTTP fetches; the manager turns fetched
//! bodies into membership-set plans, and its laws say what state those plans
//! leave behind.

use vstd::prelude::*;
use vstd::string::*;

use crate::cloudflare::CloudflareList;
use crate::config::Config;
use crate::ipset::{
    apply_ipset_op, apply_ipset_ops, create_or_reset_ipset_ops, lemma_apply_ipset_ops_concat,
    list_v4_set, list_v4_set_name, list_v6_set, list_v6_set_name, AddrFamily, IpsetController,
    IpsetOp, IpsetOpV,
};
use crate::rules::{IpListConfig, IpListConfigV};
use crate::text::{non_empty_lines, split_lines};

verus! {

/// A list whose two fetch endpoints come from user configuration.
#[derive(Debug, PartialEq, Eq)]
pub struct ConfigurableIpList {
    pub name: String,
    pub config: IpListConfig,
}

impl ConfigurableIpList {
    pub fn new(name: String, config: IpListConfig) -> (r: Self)
        ensures
            r.name == name,
            r.config == config,
    {
        ConfigurableIpList { name, config }
    }

    /// The list's name.
    pub fn name(&self) -> (r: &str)
        ensures
            r@ == self.name@,
    {
        self.name.as_str()
    }

    /// The derived IPv4 membership set of this list.
    pub fn ipv4_set_name(&self) -> (r: String)
        ensures
            r@ == list_v4_set_name(self.name@),
    {
        list_v4_set(self.name.as_str())
    }

    /// The derived IPv6 membership set of this list.
    pub fn ipv6_set_name(&self) -> (r: String)
        ensures
            r@ == list_v6_set_name(self.name@),
    {
        list_v6_set(self.name.as_str())
    }

    /// The configured IPv4 endpoint.
    pub fn ipv4_url(&self) -> (r: &String)
        ensures
            r@ == self.config.urls.ipv4@,
    {
        &self.config.urls.ipv4
    }

    /// The configured IPv6 endpoint.
    pub fn ipv6_url(&self) -> (r: &String)
        ensures
            r@ == self.config.urls.ipv6@,
    {
        &self.config.urls.ipv6
    }
}

/// A resolved, fetch-capable list provider: built-in or configured.
#[derive(Debug, PartialEq, Eq)]
pub enum IpListProvider {
    Cloudflare(CloudflareList),
    Configured(ConfigurableIpList),
}

/// Mathematical image of `IpListProvider`.
pub ghost enum IpListProviderV {
    Cloudflare { name: Seq<char> },
    Configured { name: Seq<char>, config: IpListConfigV },
}

impl DeepView for IpListProvider {
    type V = IpListProviderV;

    open spec fn deep_view(&self) -> IpListProviderV {
        match self {
            IpListProvider::Cloudflare(c) => IpListProviderV::Cloudflare { name: c.name@ },
            IpListProvider::Configured(c) => IpListProviderV::Configured {
                name: c.name@,
                config: c.config.deep_view(),
            },
        }
    }
}

/// The name of a provider.
pub open spec fn provider_name(p: IpListProviderV) -> Seq<char> {
    match p {
        IpListProviderV::Cloudflare { name } => name,
        IpListProviderV::Configured { name, .. } => name,
    }
}

/// The IPv4 endpoint a provider fetches from.
pub open spec fn provider_v4_url(p: IpListProviderV) -> Seq<char> {
    match p {
        IpListProviderV::Cloudflare { .. } => "https://www.cloudflare.com/ips-v4"@,
        IpListProviderV::Configured { config, .. } => config.urls.ipv4,
    }
}

/// The IPv6 endpoint a provider fetches from.
pub open spec fn provider_v6_url(p: IpListProviderV) -> Seq<char> {
    match p {
        IpListProviderV::Cloudflare { .. } => "https://www.cloudflare.com/ips-v6"@,
        IpListProviderV::Configured { config, .. } => config.urls.ipv6,
    }
}

impl IpListProvider {
    /// The provider's name.
    pub fn name(&self) -> (r: &str)
        ensures
            r@ == provider_name(self.deep_view()),
    {
        match self {
            IpListProvider::Cloudflare(c) => c.name(),
            IpListProvider::Configured(c) => c.name(),
        }
    }

    /// The derived IPv4 membership set of this provider.
    pub fn ipv4_set_name(&self) -> (r: String)
        ensures
            r@ == list_v4_set_name(provider_name(self.deep_view())),
    {
        match self {
            IpListProvider::Cloudflare(c) => c.ipv4_set_name(),
            IpListProvider::Configured(c) => c.ipv4_set_name(),
        }
    }

    /// The derived IPv6 membership set of this provider.
    pub fn ipv6_set_name(&self) -> (r: String)
        ensures
            r@ == list_v6_set_name(provider_name(self.deep_view())),
    {
        match self {
            IpListProvider::Cloudflare(c) => c.ipv6_set_name(),
            IpListProvider::Configured(c) => c.ipv6_set_name(),
        }
    }

    /// The IPv4 endpoint to fetch.
    pub fn ipv4_url(&self) -> (r: &str)
        ensures
            r@ == provider_v4_url(self.deep_view()),
    {
        match self {
            IpListProvider::Cloudflare(c) => c.ipv4_url(),
            IpListProvider::Configured(c) => c.ipv4_url().as_str(),
        }
    }

    /// The IPv6 endpoint to fetch.
    pub fn ipv6_url(&self) -> (r: &str)
        ensures
            r@ == provider_v6_url(self.deep_view()),
    {
        match self {
            IpListProvider::Cloudflare(c) => c.ipv6_url(),
            IpListProvider::Configured(c) => c.ipv6_url().as_str(),
        }
    }
}

/// The fetched text bodies of one provider's two endpoints.
#[derive(Debug, PartialEq, Eq)]
pub struct FetchResult {
    pub ipv4: String,
    pub ipv6: String,
}

impl DeepView for FetchResult {
    type V = (Seq<char>, Seq<char>);

    open spec fn deep_view(&self) -> (Seq<char>, Seq<char>) {
        (self.ipv4@, self.ipv6@)
    }
}

/// Reset both membership sets of a named list, together: the IPv4 set with
/// the IPv4 family, the IPv6 set with the IPv6 family.
pub open spec fn reset_list_sets_ops(name: Seq<char>) -> Seq<IpsetOpV> {
    create_or_reset_ipset_ops(list_v4_set_name(name), AddrFamily::V4)
        + create_or_reset_ipset_ops(list_v6_set_name(name), AddrFamily::V6)
}

/// Add each line to the set as one member, in order.
pub open spec fn add_members_ops(set: Seq<char>, members: Seq<Seq<char>>) -> Seq<IpsetOpV>
    decreases members.len(),
{
    if members.len() == 0 {
        seq![]
    } else {
        add_members_ops(set, members.drop_last()) + seq![
            IpsetOpV::Add { set, member: members.last() },
        ]
    }
}

/// Populate a set from a fetched body: one member per non-empty line.
pub open spec fn populate_ops(set: Seq<char>, body: Seq<char>) -> Seq<IpsetOpV> {
    add_members_ops(set, non_empty_lines(body))
}

/// One provider's full update: reset both sets, then populate the IPv4 set
/// from the IPv4 body and the IPv6 set from the IPv6 body.
pub open spec fn update_list_ops(name: Seq<char>, v4body: Seq<char>, v6body: Seq<char>) -> Seq<
    IpsetOpV,
> {
    reset_list_sets_ops(name) + populate_ops(list_v4_set_name(name), v4body) + populate_ops(
        list_v6_set_name(name),
        v6body,
    )
}

/// The whole pipeline's plan: each provider's update in order.
pub open spec fn update_all_ops(
    providers: Seq<IpListProviderV>,
    fetches: Seq<(Seq<char>, Seq<char>)>,
) -> Seq<IpsetOpV>
    decreases providers.len(),
{
    if providers.len() == 0 || providers.len() != fetches.len() {
        seq![]
    } else {
        update_all_ops(providers.drop_last(), fetches.drop_last()) + update_list_ops(
            provider_name(providers.last()),
            fetches.last().0,
            fetches.last().1,
        )
    }
}

/// Append one member per non-empty line of a fetched body.
fn push_populate_ops(out: &mut Vec<IpsetOp>, ipset: &IpsetController, set_name: &str, body: &str)
    ensures
        final(out).deep_view() == old(out).deep_view() + populate_ops(set_name@, body@),
{
    let ghost base = out.deep_view();
    let lines = split_lines(body);
    let n: usize = lines.len();
    let mut i: usize = 0;
    proof {
        assert(crate::text::keep_non_empty(lines.deep_view().take(0)) =~= Seq::<
            Seq<char>,
        >::empty());
        assert(base + add_members_ops(set_name@, Seq::<Seq<char>>::empty()) =~= base);
    }
    while i < n
        invariant
            0 <= i <= n == lines@.len(),
            lines.deep_view() == crate::text::lines_of(body@),
            out.deep_view() == base + add_members_ops(
                set_name@,
                crate::text::keep_non_empty(lines.deep_view().take(i as int)),
            ),
        decreases n - i,
    {
        let line = &lines[i];
        proof {
            let lv = lines.deep_view();
            assert(lv[i as int] == line@);
            assert(lv.take(i + 1).drop_last() =~= lv.take(i as int));
            assert(lv.take(i + 1).last() == lv[i as int]);
        }
        if !line.as_str().is_empty() {
            let ghost prev = out.deep_view();
            out.push(ipset.add_to_set(set_name, line.as_str()));
            proof {
                let kept = crate::text::keep_non_empty(lines.deep_view().take(i + 1));
                assert(kept =~= crate::text::keep_non_empty(
                    lines.deep_view().take(i as int),
                ).push(line@));
                assert(kept.drop_last() =~= crate::text::keep_non_empty(
                    lines.deep_view().take(i as int),
                ));
                assert(kept.last() == line@);
                assert(kept.len() > 0);
                assert(add_members_ops(set_name@, kept) == add_members_ops(
                    set_name@,
                    kept.drop_last(),
                ) + seq![IpsetOpV::Add { set: set_name@, member: line@ }]);
                assert(out.deep_view() =~= prev.push(
                    IpsetOpV::Add { set: set_name@, member: line@ },
                ));
                assert(out.deep_view() =~= base + add_members_ops(set_name@, kept));
            }
        } else {
            proof {
                let kept = crate::text::keep_non_empty(lines.deep_view().take(i + 1));
                assert(kept =~= crate::text::keep_non_empty(lines.deep_view().take(i as int)));
                assert(out.deep_view() =~= base + add_members_ops(set_name@, kept));
            }
        }
        i = i + 1;
    }
    proof {
        assert(lines.deep_view().take(n as int) =~= lines.deep_view());
    }
}

/// Holds the resolved providers of one reconciliation and derives the
/// fetch pipeline's membership plans.
#[derive(Debug)]
pub struct IpListManager {
    pub lists: Vec<IpListProvider>,
}

impl IpListManager {
    /// A manager with no providers yet.
    pub fn new() -> (r: Self)
        ensures
            r.lists.deep_view() == Seq::<IpListProviderV>::empty(),
    {
        let r = IpListManager { lists: Vec::new() };
        proof {
            assert(r.lists.deep_view() =~= Seq::<IpListProviderV>::empty());
        }
        r
    }

    /// Adopt one resolved provider; order is update order.
    pub fn add_list(&mut self, list: IpListProvider)
        ensures
            final(self).lists.deep_view() == old(self).lists.deep_view().push(list.deep_view()),
    {
        let ghost prev = self.lists.deep_view();
        let ghost lv = list.deep_view();
        self.lists.push(list);
        proof {
            assert(self.lists.deep_view() =~= prev.push(lv));
        }
    }

    /// Adopt a configured provider for every enabled source of the
    /// configuration, in configuration order.
    pub fn load_from_config(&mut self, config: &Config)
        ensures
            final(self).lists.deep_view() == old(self).lists.deep_view() + enabled_providers(
                config.iplists.deep_view(),
            ),
    {
        let ghost base = self.lists.deep_view();
        let n: usize = config.iplists.len();
        let mut i: usize = 0;
        proof {
            assert(config.iplists.deep_view().take(0) =~= Seq::<
                (Seq<char>, IpListConfigV),
            >::empty());
            assert(base + enabled_providers(config.iplists.deep_view().take(0)) =~= base);
        }
        while i < n
            invariant
                0 <= i <= n == config.iplists.len(),
                self.lists.deep_view() == base + enabled_providers(
                    config.iplists.deep_view().take(i as int),
                ),
            decreases n - i,
        {
            let entry = &config.iplists[i];
            proof {
                let dv = config.iplists.deep_view();
                assert(dv[i as int] == entry.deep_view());
                assert(dv.take(i + 1).drop_last() =~= dv.take(i as int));
                assert(dv.take(i + 1).last() == dv[i as int]);
            }
            if entry.1.enabled {
                self.add_list(
                    IpListProvider::Configured(
                        ConfigurableIpList::new(entry.0.clone(), entry.1.clone()),
                    ),
                );
                proof {
                    assert(self.lists.deep_view() =~= base + enabled_providers(
                        config.iplists.deep_view().take(i + 1),
                    ));
                }
            } else {
                proof {
                    assert(self.lists.deep_view() =~= base + enabled_providers(
                        config.iplists.deep_view().take(i + 1),
                    ));
                }
            }
            i = i + 1;
        }
        proof {
            assert(config.iplists.deep_view().take(n as int) =~= config.iplists.deep_view());
        }
    }

    /// The reset plan of one provider: both sets recreated together.
    pub fn reset_list_plan(&self, ipset: &IpsetController, list: &IpListProvider) -> (ops: Vec<
        IpsetOp,
    >)
        ensures
            ops.deep_view() == reset_list_sets_ops(provider_name(list.deep_view())),
    {
        let mut ops = ipset.create_or_reset_ipset(list.ipv4_set_name().as_str(), AddrFamily::V4);
        crate::append_plan(
            &mut ops,
            ipset.create_or_reset_ipset(list.ipv6_set_name().as_str(), AddrFamily::V6),
        );
        proof {
            assert(ops.deep_view() =~= reset_list_sets_ops(provider_name(list.deep_view())));
        }
        ops
    }

    /// The population plan of one set from one fetched body.
    pub fn populate_plan(&self, ipset: &IpsetController, set_name: &str, body: &str) -> (ops: Vec<
        IpsetOp,
    >)
        ensures
            ops.deep_view() == populate_ops(set_name@, body@),
    {
        let mut ops: Vec<IpsetOp> = Vec::new();
        proof {
            assert(ops.deep_view() =~= Seq::<IpsetOpV>::empty());
        }
        push_populate_ops(&mut ops, ipset, set_name, body);
        proof {
            assert(ops.deep_view() =~= populate_ops(set_name@, body@));
        }
        ops
    }

    /// One provider's full update plan, given its two fetched bodies.
    pub fn update_list_plan(
        &self,
        ipset: &IpsetController,
        list: &IpListProvider,
        ipv4_body: &str,
        ipv6_body: &str,
    ) -> (ops: Vec<IpsetOp>)
        ensures
            ops.deep_view() == update_list_ops(
                provider_name(list.deep_view()),
                ipv4_body@,
                ipv6_body@,
            ),
    {
        let mut ops = self.reset_list_plan(ipset, list);
        let v4_set = list.ipv4_set_name();
        let v6_set = list.ipv6_set_name();
        crate::append_plan(&mut ops, self.populate_plan(ipset, v4_set.as_str(), ipv4_body));
        crate::append_plan(&mut ops, self.populate_plan(ipset, v6_set.as_str(), ipv6_body));
        proof {
            assert(ops.deep_view() =~= update_list_ops(
                provider_name(list.deep_view()),
                ipv4_body@,
                ipv6_body@,
            ));
        }
        ops
    }

    /// The whole pipeline's plan, given each provider's fetched bodies in
    /// provider order. On a run where every fetch succeeded, executing this
    /// plan in order is the pipeline; a failed fetch aborts the remainder.
    pub fn update_all_plan(&self, ipset: &IpsetController, fetches: &Vec<FetchResult>) -> (ops:
        Vec<IpsetOp>)
        requires
            fetches.deep_view().len() == self.lists.deep_view().len(),
        ensures
            ops.deep_view() == update_all_ops(self.lists.deep_view(), fetches.deep_view()),
    {
        let mut ops: Vec<IpsetOp> = Vec::new();
        let n: usize = self.lists.len();
        let mut i: usize = 0;
        proof {
            assert(ops.deep_view() =~= Seq::<IpsetOpV>::empty());
            assert(update_all_ops(
                self.lists.deep_view().take(0),
                fetches.deep_view().take(0),
            ) =~= Seq::<IpsetOpV>::empty());
        }
        while i < n
            invariant
                0 <= i <= n == self.lists.len(),
                fetches.deep_view().len() == n as int,
                ops.deep_view() == update_all_ops(
                    self.lists.deep_view().take(i as int),
                    fetches.deep_view().take(i as int),
                ),
            decreases n - i,
        {
            let list = &self.lists[i];
            let fetch = &fetches[i];
            proof {
                let lv = self.lists.deep_view();
                let fv = fetches.deep_view();
                assert(lv[i as int] == list.deep_view());
                assert(fv[i as int] == fetch.deep_view());
                assert(lv.take(i + 1).drop_last() =~= lv.take(i as int));
                assert(lv.take(i + 1).last() == lv[i as int]);
                assert(fv.take(i + 1).drop_last() =~= fv.take(i as int));
                assert(fv.take(i + 1).last() == fv[i as int]);
            }
            crate::append_plan(
                &mut ops,
                self.update_list_plan(ipset, list, fetch.ipv4.as_str(), fetch.ipv6.as_str()),
            );
            proof {
                assert(ops.deep_view() =~= update_all_ops(
                    self.lists.deep_view().take(i + 1),
                    fetches.deep_view().take(i + 1),
                ));
            }
            i = i + 1;
        }
        proof {
            assert(self.lists.deep_view().take(n as int) =~= self.lists.deep_view());
            assert(fetches.deep_view().take(n as int) =~= fetches.deep_view());
        }
        ops
    }
}

/// The two derived set names of one list never collide.
pub proof fn lemma_v4_v6_names_differ(name: Seq<char>)
    ensures
        list_v4_set_name(name) != list_v6_set_name(name),
{
    reveal_strlit("ei-");
    reveal_strlit("-ipv4");
    reveal_strlit("-ipv6");
    let v4 = list_v4_set_name(name);
    let v6 = list_v6_set_name(name);
    assert(v4.len() == name.len() + 8);
    assert(v6.len() == name.len() + 8);
    assert(v4[name.len() as int + 7] == '4');
    assert(v6[name.len() as int + 7] == '6');
}

proof fn lemma_apply_two(st: Map<Seq<char>, Seq<Seq<char>>>, a: IpsetOpV, b: IpsetOpV)
    ensures
        apply_ipset_ops(st, seq![a, b]) == apply_ipset_op(apply_ipset_op(st, a), b),
{
    let s = seq![a, b];
    let s1 = seq![b];
    assert(s.len() == 2);
    assert(s[0] == a);
    assert(s.drop_first() =~= s1);
    assert(apply_ipset_ops(st, s) == apply_ipset_ops(apply_ipset_op(st, a), s1));
    assert(s1[0] == b);
    assert(s1.drop_first() =~= Seq::<IpsetOpV>::empty());
    let st1 = apply_ipset_op(st, a);
    assert(apply_ipset_ops(st1, s1) == apply_ipset_ops(
        apply_ipset_op(st1, b),
        Seq::<IpsetOpV>::empty(),
    ));
    assert(apply_ipset_ops(apply_ipset_op(st1, b), Seq::<IpsetOpV>::empty()) == apply_ipset_op(
        st1,
        b,
    ));
}

/// Adding members one by one appends them, in order, to the set's existing
/// members, and touches nothing else.
pub proof fn lemma_add_members_state(
    st: Map<Seq<char>, Seq<Seq<char>>>,
    set: Seq<char>,
    members: Seq<Seq<char>>,
)
    requires
        st.dom().contains(set),
    ensures
        apply_ipset_ops(st, add_members_ops(set, members)) == st.insert(set, st[set] + members),
    decreases members.len(),
{
    if members.len() == 0 {
        assert(add_members_ops(set, members) =~= Seq::<IpsetOpV>::empty());
        assert(st[set] + members =~= st[set]);
        assert(st.insert(set, st[set]) =~= st);
    } else {
        let front = members.drop_last();
        lemma_add_members_state(st, set, front);
        lemma_apply_ipset_ops_concat(
            st,
            add_members_ops(set, front),
            seq![IpsetOpV::Add { set, member: members.last() }],
        );
        let mid = st.insert(set, st[set] + front);
        let op = IpsetOpV::Add { set, member: members.last() };
        let s1 = seq![op];
        assert(s1[0] == op);
        assert(s1.drop_first() =~= Seq::<IpsetOpV>::empty());
        assert(apply_ipset_ops(mid, s1) == apply_ipset_ops(
            apply_ipset_op(mid, op),
            Seq::<IpsetOpV>::empty(),
        ));
        assert(apply_ipset_ops(apply_ipset_op(mid, op), Seq::<IpsetOpV>::empty())
            == apply_ipset_op(mid, op));
        assert(mid.dom().contains(set));
        assert(apply_ipset_op(mid, op) == mid.insert(set, mid[set].push(members.last())));
        assert(mid[set] == st[set] + front);
        assert(mid[set].push(members.last()) =~= st[set] + members);
        assert(mid.insert(set, mid[set].push(members.last())) =~= st.insert(
            set,
            st[set] + members,
        ));
    }
}

/// After one provider's update plan runs, both its membership sets exist
/// and hold exactly the non-empty lines of the respective fetched body, in
/// order, with no duplicate suppression; every other set is untouched.
pub proof fn lemma_update_list_state(
    st: Map<Seq<char>, Seq<Seq<char>>>,
    name: Seq<char>,
    v4body: Seq<char>,
    v6body: Seq<char>,
)
    ensures
        apply_ipset_ops(st, update_list_ops(name, v4body, v6body)) == st.insert(
            list_v4_set_name(name),
            non_empty_lines(v4body),
        ).insert(list_v6_set_name(name), non_empty_lines(v6body)),
{
    let v4n = list_v4_set_name(name);
    let v6n = list_v6_set_name(name);
    lemma_v4_v6_names_differ(name);
    let reset4 = create_or_reset_ipset_ops(v4n, AddrFamily::V4);
    let reset6 = create_or_reset_ipset_ops(v6n, AddrFamily::V6);
    let pop4 = populate_ops(v4n, v4body);
    let pop6 = populate_ops(v6n, v6body);
    let ops = update_list_ops(name, v4body, v6body);
    assert(ops =~= (((reset4 + reset6) + pop4) + pop6));
    lemma_apply_ipset_ops_concat(st, (reset4 + reset6) + pop4, pop6);
    lemma_apply_ipset_ops_concat(st, reset4 + reset6, pop4);
    lemma_apply_ipset_ops_concat(st, reset4, reset6);
    lemma_apply_two(
        st,
        IpsetOpV::Destroy { set: v4n },
        IpsetOpV::CreateAddrSet { set: v4n, family: AddrFamily::V4 },
    );
    let st_a = st.remove(v4n).insert(v4n, seq![]);
    assert(apply_ipset_ops(st, reset4) == st_a);
    lemma_apply_two(
        st_a,
        IpsetOpV::Destroy { set: v6n },
        IpsetOpV::CreateAddrSet { set: v6n, family: AddrFamily::V6 },
    );
    let st_b = st_a.remove(v6n).insert(v6n, seq![]);
    assert(apply_ipset_ops(st_a, reset6) == st_b);
    assert(st_b.dom().contains(v4n));
    lemma_add_members_state(st_b, v4n, non_empty_lines(v4body));
    let st_c = st_b.insert(v4n, st_b[v4n] + non_empty_lines(v4body));
    assert(st_b[v4n] =~= Seq::<Seq<char>>::empty());
    assert(st_b[v4n] + non_empty_lines(v4body) =~= non_empty_lines(v4body));
    assert(st_c.dom().contains(v6n));
    lemma_add_members_state(st_c, v6n, non_empty_lines(v6body));
    let st_d = st_c.insert(v6n, st_c[v6n] + non_empty_lines(v6body));
    assert(st_c[v6n] =~= Seq::<Seq<char>>::empty());
    assert(st_c[v6n] + non_empty_lines(v6body) =~= non_empty_lines(v6body));
    assert(st_d =~= st.insert(v4n, non_empty_lines(v4body)).insert(
        v6n,
        non_empty_lines(v6body),
    ));
}

/// Distinct list names derive distinct IPv4 sets.
pub proof fn lemma_v4_name_injective(a: Seq<char>, b: Seq<char>)
    requires
        list_v4_set_name(a) == list_v4_set_name(b),
    ensures
        a == b,
{
    reveal_strlit("ei-");
    reveal_strlit("-ipv4");
    let na = list_v4_set_name(a);
    let nb = list_v4_set_name(b);
    assert(na.len() == a.len() + 8);
    assert(nb.len() == b.len() + 8);
    assert forall|k: int| 0 <= k < a.len() implies a[k] == b[k] by {
        assert(na[k + 3] == a[k]);
        assert(nb[k + 3] == b[k]);
    }
    assert(a =~= b);
}

/// Distinct list names derive distinct IPv6 sets.
pub proof fn lemma_v6_name_injective(a: Seq<char>, b: Seq<char>)
    requires
        list_v6_set_name(a) == list_v6_set_name(b),
    ensures
        a == b,
{
    reveal_strlit("ei-");
    reveal_strlit("-ipv6");
    let na = list_v6_set_name(a);
    let nb = list_v6_set_name(b);
    assert(na.len() == a.len() + 8);
    assert(nb.len() == b.len() + 8);
    assert forall|k: int| 0 <= k < a.len() implies a[k] == b[k] by {
        assert(na[k + 3] == a[k]);
        assert(nb[k + 3] == b[k]);
    }
    assert(a =~= b);
}

/// No IPv4 set of any list is the IPv6 set of any list.
pub proof fn lemma_v4_v6_never_collide(a: Seq<char>, b: Seq<char>)
    ensures
        list_v4_set_name(a) != list_v6_set_name(b),
{
    reveal_strlit("ei-");
    reveal_strlit("-ipv4");
    reveal_strlit("-ipv6");
    let na = list_v4_set_name(a);
    let nb = list_v6_set_name(b);
    assert(na[na.len() as int - 1] == '4');
    assert(nb[nb.len() as int - 1] == '6');
    if na == nb {
        assert(na[na.len() as int - 1] == nb[nb.len() as int - 1]);
    }
}

/// After the whole pipeline runs, a provider whose name no later provider
/// in the run shares has both its membership sets existing and holding
/// exactly the non-empty lines of its two fetched bodies, in order. A name
/// resolved more than once is reset and repopulated once per occurrence,
/// so its sets hold the lines of its final update.
pub proof fn lemma_update_all_state_last_update(
    st: Map<Seq<char>, Seq<Seq<char>>>,
    providers: Seq<IpListProviderV>,
    fetches: Seq<(Seq<char>, Seq<char>)>,
)
    requires
        providers.len() == fetches.len(),
    ensures
        ({
            let st2 = apply_ipset_ops(st, update_all_ops(providers, fetches));
            forall|i: int|
                0 <= i < providers.len() && (forall|j: int|
                    i < j < providers.len() ==> provider_name(#[trigger] providers[j])
                        != provider_name(providers[i])) ==> {
                    let name = provider_name(#[trigger] providers[i]);
                    &&& st2.dom().contains(list_v4_set_name(name))
                    &&& st2.dom().contains(list_v6_set_name(name))
                    &&& st2[list_v4_set_name(name)] == non_empty_lines(fetches[i].0)
                    &&& st2[list_v6_set_name(name)] == non_empty_lines(fetches[i].1)
                }
        }),
    decreases providers.len(),
{
    if providers.len() > 0 {
        let front_p = providers.drop_last();
        let front_f = fetches.drop_last();
        let last_name = provider_name(providers.last());
        lemma_update_all_state_last_update(st, front_p, front_f);
        lemma_apply_ipset_ops_concat(
            st,
            update_all_ops(front_p, front_f),
            update_list_ops(last_name, fetches.last().0, fetches.last().1),
        );
        let st1 = apply_ipset_ops(st, update_all_ops(front_p, front_f));
        lemma_update_list_state(st1, last_name, fetches.last().0, fetches.last().1);
        let st2 = apply_ipset_ops(st, update_all_ops(providers, fetches));
        assert(update_all_ops(providers, fetches) == update_all_ops(front_p, front_f)
            + update_list_ops(last_name, fetches.last().0, fetches.last().1));
        assert(st2 == st1.insert(
            list_v4_set_name(last_name),
            non_empty_lines(fetches.last().0),
        ).insert(list_v6_set_name(last_name), non_empty_lines(fetches.last().1)));
        assert forall|i: int|
            0 <= i < providers.len() && (forall|j: int|
                i < j < providers.len() ==> provider_name(#[trigger] providers[j])
                    != provider_name(providers[i])) implies {
            let name = provider_name(#[trigger] providers[i]);
            &&& st2.dom().contains(list_v4_set_name(name))
            &&& st2.dom().contains(list_v6_set_name(name))
            &&& st2[list_v4_set_name(name)] == non_empty_lines(fetches[i].0)
            &&& st2[list_v6_set_name(name)] == non_empty_lines(fetches[i].1)
        } by {
            let name = provider_name(providers[i]);
            lemma_v4_v6_never_collide(name, last_name);
            lemma_v4_v6_never_collide(last_name, name);
            if i < providers.len() - 1 {
                assert(front_p[i] == providers[i]);
                assert(front_f[i] == fetches[i]);
                assert(forall|j: int|
                    i < j < front_p.len() ==> provider_name(#[trigger] front_p[j])
                        != provider_name(front_p[i])) by {
                    assert(forall|j: int| i < j < front_p.len() ==> front_p[j] == providers[j]);
                }
                assert(provider_name(providers[providers.len() - 1]) != name);
                assert(name != last_name);
                if list_v4_set_name(name) == list_v4_set_name(last_name) {
                    lemma_v4_name_injective(name, last_name);
                }
                if list_v6_set_name(name) == list_v6_set_name(last_name) {
                    lemma_v6_name_injective(name, last_name);
                }
            } else {
                assert(providers[i] == providers.last());
                assert(fetches[i] == fetches.last());
            }
        }
    }
}

/// After the whole pipeline succeeds over providers with pairwise distinct
/// names, each provider's two membership sets exist and hold exactly the
/// non-empty lines of that provider's two fetched bodies, in order.
pub proof fn lemma_update_all_state(
    st: Map<Seq<char>, Seq<Seq<char>>>,
    providers: Seq<IpListProviderV>,
    fetches: Seq<(Seq<char>, Seq<char>)>,
)
    requires
        providers.len() == fetches.len(),
        forall|i: int, j: int|
            0 <= i < j < providers.len() ==> provider_name(providers[i]) != provider_name(
                providers[j],
            ),
    ensures
        ({
            let st2 = apply_ipset_ops(st, update_all_ops(providers, fetches));
            forall|i: int|
                0 <= i < providers.len() ==> {
                    let name = provider_name(#[trigger] providers[i]);
                    &&& st2.dom().contains(list_v4_set_name(name))
                    &&& st2.dom().contains(list_v6_set_name(name))
                    &&& st2[list_v4_set_name(name)] == non_empty_lines(fetches[i].0)
                    &&& st2[list_v6_set_name(name)] == non_empty_lines(fetches[i].1)
                }
        }),
{
    lemma_update_all_state_last_update(st, providers, fetches);
    let st2 = apply_ipset_ops(st, update_all_ops(providers, fetches));
    assert forall|i: int| 0 <= i < providers.len() implies {
        let name = provider_name(#[trigger] providers[i]);
        &&& st2.dom().contains(list_v4_set_name(name))
        &&& st2.dom().contains(list_v6_set_name(name))
        &&& st2[list_v4_set_name(name)] == non_empty_lines(fetches[i].0)
        &&& st2[list_v6_set_name(name)] == non_empty_lines(fetches[i].1)
    } by {
        assert(forall|j: int|
            i < j < providers.len() ==> provider_name(#[trigger] providers[j])
                != provider_name(providers[i]));
    }
}
/// The membership set one operation touches.
pub open spec fn op_set_name(op: IpsetOpV) -> Seq<char> {
    match op {
        IpsetOpV::Destroy { set } => set,
        IpsetOpV::CreateAddrSet { set, .. } => set,
        IpsetOpV::CreatePortSet { set } => set,
        IpsetOpV::Add { set, .. } => set,
        IpsetOpV::Del { set, .. } => set,
    }
}

/// Whether an operation touches one of a provider's two derived sets.
pub open spec fn op_touches_provider(op: IpsetOpV, name: Seq<char>) -> bool {
    op_set_name(op) == list_v4_set_name(name) || op_set_name(op) == list_v6_set_name(name)
}

pub proof fn lemma_add_members_ops_touch(set: Seq<char>, members: Seq<Seq<char>>)
    ensures
        forall|k: int|
            0 <= k < add_members_ops(set, members).len() ==> op_set_name(
                #[trigger] add_members_ops(set, members)[k],
            ) == set,
    decreases members.len(),
{
    if members.len() > 0 {
        lemma_add_members_ops_touch(set, members.drop_last());
        let ops = add_members_ops(set, members);
        let front = add_members_ops(set, members.drop_last());
        assert forall|k: int| 0 <= k < ops.len() implies op_set_name(#[trigger] ops[k])
            == set by {
            if k < front.len() {
                assert(ops[k] == front[k]);
            } else {
                assert(ops[k] == IpsetOpV::Add { set, member: members.last() });
            }
        }
    }
}

pub proof fn lemma_update_list_ops_touch(name: Seq<char>, v4body: Seq<char>, v6body: Seq<char>)
    ensures
        forall|k: int|
            0 <= k < update_list_ops(name, v4body, v6body).len() ==> op_touches_provider(
                #[trigger] update_list_ops(name, v4body, v6body)[k],
                name,
            ),
{
    lemma_add_members_ops_touch(list_v4_set_name(name), non_empty_lines(v4body));
    lemma_add_members_ops_touch(list_v6_set_name(name), non_empty_lines(v6body));
    let ops = update_list_ops(name, v4body, v6body);
    let r = reset_list_sets_ops(name);
    let p4 = populate_ops(list_v4_set_name(name), v4body);
    let p6 = populate_ops(list_v6_set_name(name), v6body);
    assert forall|k: int| 0 <= k < ops.len() implies op_touches_provider(
        #[trigger] ops[k],
        name,
    ) by {
        if k < r.len() {
            assert(ops[k] == r[k]);
        } else if k < r.len() + p4.len() {
            assert(ops[k] == p4[k - r.len()]);
        } else {
            assert(ops[k] == p6[k - r.len() - p4.len()]);
        }
    }
}

/// The fetch pipeline touches no membership set but those of the providers
/// it updates: an unresolved rule — one whose source is disabled, say —
/// contributes no provider, so no set of its own is ever created, reset or
/// populated by the pipeline.
pub proof fn lemma_update_all_ops_touch(
    providers: Seq<IpListProviderV>,
    fetches: Seq<(Seq<char>, Seq<char>)>,
)
    ensures
        forall|k: int|
            0 <= k < update_all_ops(providers, fetches).len() ==> exists|i: int|
                0 <= i < providers.len() && op_touches_provider(
                    #[trigger] update_all_ops(providers, fetches)[k],
                    provider_name(providers[i]),
                ),
    decreases providers.len(),
{
    if providers.len() > 0 && providers.len() == fetches.len() {
        lemma_update_all_ops_touch(providers.drop_last(), fetches.drop_last());
        lemma_update_list_ops_touch(
            provider_name(providers.last()),
            fetches.last().0,
            fetches.last().1,
        );
        let ops = update_all_ops(providers, fetches);
        let front = update_all_ops(providers.drop_last(), fetches.drop_last());
        let tail = update_list_ops(
            provider_name(providers.last()),
            fetches.last().0,
            fetches.last().1,
        );
        assert forall|k: int| 0 <= k < ops.len() implies exists|i: int|
            0 <= i < providers.len() && op_touches_provider(
                #[trigger] ops[k],
                provider_name(providers[i]),
            ) by {
            if k < front.len() {
                assert(ops[k] == front[k]);
                let i = choose|i: int|
                    0 <= i < providers.drop_last().len() && op_touches_provider(
                        front[k],
                        provider_name(providers.drop_last()[i]),
                    );
                assert(providers.drop_last()[i] == providers[i]);
                assert(op_touches_provider(ops[k], provider_name(providers[i])));
            } else {
                assert(ops[k] == tail[k - front.len()]);
                assert(op_touches_provider(
                    ops[k],
                    provider_name(providers[providers.len() - 1]),
                ));
            }
        }
    }
}

/// A configured provider per enabled source, in configuration order.
pub open spec fn enabled_providers(entries: Seq<(Seq<char>, IpListConfigV)>) -> Seq<
    IpListProviderV,
>
    decreases entries.len(),
{
    if entries.len() == 0 {
        seq![]
    } else {
        enabled_providers(entries.drop_last()) + (if entries.last().1.enabled {
            seq![
                IpListProviderV::Configured {
                    name: entries.last().0,
                    config: entries.last().1,
                },
            ]
        } else {
            seq![]
        })
    }
}

} // verus!
