//! The membership-set backend controller.
//!
//! Every operation on the external set backend is represented as a value of
//! [`IpsetOp`]; the controller computes ordered operation sequences (plans)
//! and the surrounding program renders and runs them, skipping execution in
//! dry-run mode. A best-effort operation's failure is ignored by the runner;
//! any other failure aborts the remainder of the plan.

use vstd::prelude::*;
use vstd::relations::{sorted_by, total_ordering};
use vstd::seq_lib::{group_to_multiset_ensures, lemma_multiset_commutative, lemma_sorted_unique};
use vstd::string::*;

use crate::cmd::{CmdBuilder, CmdBuilderV};
use crate::rules::{PortRule, Protocol, Rule, RuleV};
use crate::text::{all_digits, dec_str, dec_val, lines_of, trim_spec, u16_to_dec_string};

verus! {

/// The address family of a membership set: each set holds one family.
#[derive(Debug, Clone, Copy, PartialEq, Eq, Structural)]
pub enum AddrFamily {
    V4,
    V6,
}

/// The textual form of an address family in a set-creation command.
pub open spec fn family_text(f: AddrFamily) -> Seq<char> {
    match f {
        AddrFamily::V4 => "inet"@,
        AddrFamily::V6 => "inet6"@,
    }
}

/// One operation on the membership-set backend.
#[derive(Debug, PartialEq, Eq)]
pub enum IpsetOp {
    /// Remove a set altogether; best-effort, the set may not exist yet.
    Destroy { set: String },
    /// Create an empty address set of one address family (capacity 65536).
    CreateAddrSet { set: String, family: AddrFamily },
    /// Create an empty port set covering ports 1..=65535.
    CreatePortSet { set: String },
    /// Add one member to a set.
    Add { set: String, member: String },
    /// Remove one member from a set.
    Del { set: String, member: String },
}

/// Mathematical image of `IpsetOp`.
pub ghost enum IpsetOpV {
    Destroy { set: Seq<char> },
    CreateAddrSet { set: Seq<char>, family: AddrFamily },
    CreatePortSet { set: Seq<char> },
    Add { set: Seq<char>, member: Seq<char> },
    Del { set: Seq<char>, member: Seq<char> },
}

impl DeepView for IpsetOp {
    type V = IpsetOpV;

    open spec fn deep_view(&self) -> IpsetOpV {
        match self {
            IpsetOp::Destroy { set } => IpsetOpV::Destroy { set: set@ },
            IpsetOp::CreateAddrSet { set, family } => IpsetOpV::CreateAddrSet {
                set: set@,
                family: *family,
            },
            IpsetOp::CreatePortSet { set } => IpsetOpV::CreatePortSet { set: set@ },
            IpsetOp::Add { set, member } => IpsetOpV::Add { set: set@, member: member@ },
            IpsetOp::Del { set, member } => IpsetOpV::Del { set: set@, member: member@ },
        }
    }
}

/// The argument list of the backend command for one operation.
pub open spec fn ipset_op_args(op: IpsetOpV) -> Seq<Seq<char>> {
    match op {
        IpsetOpV::Destroy { set } => seq!["destroy"@, set],
        IpsetOpV::CreateAddrSet { set, family } => seq![
            "create"@,
            set,
            "hash:ip"@,
            "family"@,
            family_text(family),
            "maxelem"@,
            "65536"@,
        ],
        IpsetOpV::CreatePortSet { set } => seq![
            "create"@,
            set,
            "bitmap:port"@,
            "range"@,
            "1-65535"@,
        ],
        IpsetOpV::Add { set, member } => seq!["add"@, set, member],
        IpsetOpV::Del { set, member } => seq!["del"@, set, member],
    }
}

impl IpsetOp {
    /// Whether the runner ignores a failure of this operation.
    pub fn is_best_effort(&self) -> (r: bool)
        ensures
            r == (self.deep_view() is Destroy),
    {
        matches!(self, IpsetOp::Destroy { .. })
    }

    /// Render this operation as a full command, on a base command that
    /// carries the program name and the dry-run flag.
    pub fn to_cmd(&self, base: &CmdBuilder) -> (r: CmdBuilder)
        ensures
            r.deep_view() == (CmdBuilderV {
                args: base.deep_view().args + ipset_op_args(self.deep_view()),
                ..base.deep_view()
            }),
    {
        let mut cmd = base.clone();
        match self {
            IpsetOp::Destroy { set } => {
                cmd.arg("destroy");
                cmd.arg(set.as_str());
            },
            IpsetOp::CreateAddrSet { set, family } => {
                cmd.arg("create");
                cmd.arg(set.as_str());
                cmd.arg("hash:ip");
                cmd.arg("family");
                cmd.arg(match family {
                    AddrFamily::V4 => "inet",
                    AddrFamily::V6 => "inet6",
                });
                cmd.arg("maxelem");
                cmd.arg("65536");
            },
            IpsetOp::CreatePortSet { set } => {
                cmd.arg("create");
                cmd.arg(set.as_str());
                cmd.arg("bitmap:port");
                cmd.arg("range");
                cmd.arg("1-65535");
            },
            IpsetOp::Add { set, member } => {
                cmd.arg("add");
                cmd.arg(set.as_str());
                cmd.arg(member.as_str());
            },
            IpsetOp::Del { set, member } => {
                cmd.arg("del");
                cmd.arg(set.as_str());
                cmd.arg(member.as_str());
            },
        }
        proof {
            assert(cmd.deep_view().args =~= base.deep_view().args + ipset_op_args(
                self.deep_view(),
            ));
        }
        cmd
    }
}

/// The fixed set of allowed ports for a protocol.
pub open spec fn allowed_port_set_name(p: Protocol) -> Seq<char> {
    match p {
        Protocol::TCP => "ei-allowed-tcp-ports"@,
        Protocol::UDP => "ei-allowed-udp-ports"@,
    }
}

/// The fixed allow set of ports for a protocol, matched by the allow chain.
pub open spec fn whitelist_port_set_name(p: Protocol) -> Seq<char> {
    match p {
        Protocol::TCP => "ei-whitelist-tcp"@,
        Protocol::UDP => "ei-whitelist-udp"@,
    }
}

/// The fixed deny set of ports for a protocol.
pub open spec fn blacklist_port_set_name(p: Protocol) -> Seq<char> {
    match p {
        Protocol::TCP => "ei-blacklist-tcp"@,
        Protocol::UDP => "ei-blacklist-udp"@,
    }
}

/// The fixed set of allowed ports for a protocol.
pub fn allowed_port_set(p: Protocol) -> (r: &'static str)
    ensures
        r@ == allowed_port_set_name(p),
{
    match p {
        Protocol::TCP => "ei-allowed-tcp-ports",
        Protocol::UDP => "ei-allowed-udp-ports",
    }
}

/// The fixed allow set of ports for a protocol.
pub fn whitelist_port_set(p: Protocol) -> (r: &'static str)
    ensures
        r@ == whitelist_port_set_name(p),
{
    match p {
        Protocol::TCP => "ei-whitelist-tcp",
        Protocol::UDP => "ei-whitelist-udp",
    }
}

/// The fixed deny set of ports for a protocol.
pub fn blacklist_port_set(p: Protocol) -> (r: &'static str)
    ensures
        r@ == blacklist_port_set_name(p),
{
    match p {
        Protocol::TCP => "ei-blacklist-tcp",
        Protocol::UDP => "ei-blacklist-udp",
    }
}

/// The derived IPv4 membership set of a named list.
pub open spec fn list_v4_set_name(name: Seq<char>) -> Seq<char> {
    "ei-"@ + name + "-ipv4"@
}

/// The derived IPv6 membership set of a named list.
pub open spec fn list_v6_set_name(name: Seq<char>) -> Seq<char> {
    "ei-"@ + name + "-ipv6"@
}

/// The derived IPv4 membership set of a named list.
pub fn list_v4_set(name: &str) -> (r: String)
    ensures
        r@ == list_v4_set_name(name@),
{
    let mut s = String::from_str("ei-");
    s.append(name);
    s.append("-ipv4");
    s
}

/// The derived IPv6 membership set of a named list.
pub fn list_v6_set(name: &str) -> (r: String)
    ensures
        r@ == list_v6_set_name(name@),
{
    let mut s = String::from_str("ei-");
    s.append(name);
    s.append("-ipv6");
    s
}

/// Create-or-reset of an address set of one family: best-effort destroy,
/// then create.
pub open spec fn create_or_reset_ipset_ops(set: Seq<char>, family: AddrFamily) -> Seq<IpsetOpV> {
    seq![IpsetOpV::Destroy { set }, IpsetOpV::CreateAddrSet { set, family }]
}

/// Create-or-reset of a port set: best-effort destroy, then create.
pub open spec fn create_or_reset_port_set_ops(set: Seq<char>) -> Seq<IpsetOpV> {
    seq![IpsetOpV::Destroy { set }, IpsetOpV::CreatePortSet { set }]
}

/// Initialization creates the six fixed, empty port sets.
pub open spec fn init_set_ops() -> Seq<IpsetOpV> {
    create_or_reset_port_set_ops("ei-allowed-tcp-ports"@) + create_or_reset_port_set_ops(
        "ei-allowed-udp-ports"@,
    ) + create_or_reset_port_set_ops("ei-whitelist-tcp"@) + create_or_reset_port_set_ops(
        "ei-whitelist-udp"@,
    ) + create_or_reset_port_set_ops("ei-blacklist-tcp"@) + create_or_reset_port_set_ops(
        "ei-blacklist-udp"@,
    )
}

/// The membership op applying one port rule to its fixed allowed-port set.
pub open spec fn port_rule_op(p: PortRule) -> IpsetOpV {
    IpsetOpV::Add { set: allowed_port_set_name(p.protocol), member: dec_str(p.number as int) }
}

/// The ops applying every port rule of a rule sequence, in order.
pub open spec fn configure_port_rules_ops(rs: Seq<RuleV>) -> Seq<IpsetOpV>
    decreases rs.len(),
{
    if rs.len() == 0 {
        seq![]
    } else {
        configure_port_rules_ops(rs.drop_last()) + (match rs.last() {
            RuleV::Port(p) => seq![port_rule_op(p)],
            _ => seq![],
        })
    }
}

/// Whether a vector of strings holds one equal to `name`.
pub fn contains_string(v: &Vec<String>, name: &str) -> (r: bool)
    ensures
        r == v.deep_view().contains(name@),
{
    let n: usize = v.len();
    let mut i: usize = 0;
    while i < n
        invariant
            0 <= i <= n == v@.len(),
            forall|k: int| 0 <= k < i ==> v.deep_view()[k] != name@,
        decreases n - i,
    {
        proof {
            assert(v.deep_view()[i as int] == v@[i as int]@);
        }
        if crate::text::str_eq(v[i].as_str(), name) {
            assert(v.deep_view().contains(name@)) by {
                assert(v.deep_view()[i as int] == name@);
            }
            return true;
        }
        i = i + 1;
    }
    proof {
        if v.deep_view().contains(name@) {
            let k = choose|k: int| 0 <= k < v.deep_view().len() && v.deep_view()[k] == name@;
            assert(v.deep_view()[k] != name@);
        }
    }
    false
}

/// Owns the registries of allow- and deny-tagged set names, and derives the
/// membership-set operations of a reconciliation.
#[derive(Debug)]
pub struct IpsetController {
    pub cmd: CmdBuilder,
    pub whitelist_sets: Vec<String>,
    pub blacklist_sets: Vec<String>,
}

impl IpsetController {
    /// A controller with empty registries whose commands run `ipset`,
    /// dry-run as given.
    pub fn new(dry_run: bool) -> (r: Self)
        ensures
            r.cmd.deep_view() == (CmdBuilderV {
                program: "ipset"@,
                args: Seq::<Seq<char>>::empty(),
                dry_run,
            }),
            r.whitelist_sets.deep_view() == Seq::<Seq<char>>::empty(),
            r.blacklist_sets.deep_view() == Seq::<Seq<char>>::empty(),
    {
        let r = IpsetController {
            cmd: CmdBuilder::new("ipset").with_dry_run(dry_run),
            whitelist_sets: Vec::new(),
            blacklist_sets: Vec::new(),
        };
        proof {
            assert(r.whitelist_sets.deep_view() =~= Seq::<Seq<char>>::empty());
            assert(r.blacklist_sets.deep_view() =~= Seq::<Seq<char>>::empty());
        }
        r
    }

    /// The plan that creates the six fixed, empty port sets.
    pub fn init(&self) -> (ops: Vec<IpsetOp>)
        ensures
            ops.deep_view() == init_set_ops(),
    {
        let mut ops = self.create_or_reset_port_set(allowed_port_set(Protocol::TCP));
        crate::append_plan(&mut ops, self.create_or_reset_port_set(allowed_port_set(Protocol::UDP)));
        crate::append_plan(&mut ops, self.create_or_reset_port_set(whitelist_port_set(Protocol::TCP)));
        crate::append_plan(&mut ops, self.create_or_reset_port_set(whitelist_port_set(Protocol::UDP)));
        crate::append_plan(&mut ops, self.create_or_reset_port_set(blacklist_port_set(Protocol::TCP)));
        crate::append_plan(&mut ops, self.create_or_reset_port_set(blacklist_port_set(Protocol::UDP)));
        proof {
            assert(ops.deep_view() =~= init_set_ops());
        }
        ops
    }

    /// The plan that resets an address set to empty: best-effort destroy,
    /// then creation with the given address family and the fixed capacity
    /// ceiling.
    pub fn create_or_reset_ipset(&self, set_name: &str, family: AddrFamily) -> (ops: Vec<
        IpsetOp,
    >)
        ensures
            ops.deep_view() == create_or_reset_ipset_ops(set_name@, family),
    {
        let mut ops: Vec<IpsetOp> = Vec::new();
        ops.push(IpsetOp::Destroy { set: String::from_str(set_name) });
        ops.push(IpsetOp::CreateAddrSet { set: String::from_str(set_name), family });
        proof {
            assert(ops.deep_view() =~= create_or_reset_ipset_ops(set_name@, family));
        }
        ops
    }

    /// The plan that resets a port set to empty.
    fn create_or_reset_port_set(&self, set_name: &str) -> (ops: Vec<IpsetOp>)
        ensures
            ops.deep_view() == create_or_reset_port_set_ops(set_name@),
    {
        let mut ops: Vec<IpsetOp> = Vec::new();
        ops.push(IpsetOp::Destroy { set: String::from_str(set_name) });
        ops.push(IpsetOp::CreatePortSet { set: String::from_str(set_name) });
        proof {
            assert(ops.deep_view() =~= create_or_reset_port_set_ops(set_name@));
        }
        ops
    }

    /// The op adding one member to a set.
    pub fn add_to_set(&self, set_name: &str, value: &str) -> (op: IpsetOp)
        ensures
            op.deep_view() == (IpsetOpV::Add { set: set_name@, member: value@ }),
    {
        IpsetOp::Add { set: String::from_str(set_name), member: String::from_str(value) }
    }

    /// The op adding a port to the allow set of its protocol.
    pub fn add_to_whitelist(&self, port: u16, protocol: Protocol) -> (op: IpsetOp)
        ensures
            op.deep_view() == (IpsetOpV::Add {
                set: whitelist_port_set_name(protocol),
                member: dec_str(port as int),
            }),
    {
        IpsetOp::Add {
            set: String::from_str(whitelist_port_set(protocol)),
            member: u16_to_dec_string(port),
        }
    }

    /// The op adding a port to the deny set of its protocol.
    pub fn add_to_blacklist(&self, port: u16, protocol: Protocol) -> (op: IpsetOp)
        ensures
            op.deep_view() == (IpsetOpV::Add {
                set: blacklist_port_set_name(protocol),
                member: dec_str(port as int),
            }),
    {
        IpsetOp::Add {
            set: String::from_str(blacklist_port_set(protocol)),
            member: u16_to_dec_string(port),
        }
    }

    /// The op adding a port to the fixed allowed-port set of its protocol.
    pub fn add_port(&self, port: u16, protocol: Protocol) -> (op: IpsetOp)
        ensures
            op.deep_view() == (IpsetOpV::Add {
                set: allowed_port_set_name(protocol),
                member: dec_str(port as int),
            }),
    {
        IpsetOp::Add {
            set: String::from_str(allowed_port_set(protocol)),
            member: u16_to_dec_string(port),
        }
    }

    /// The op removing a port from the fixed allowed-port set of its
    /// protocol.
    pub fn remove_port(&self, port: u16, protocol: Protocol) -> (op: IpsetOp)
        ensures
            op.deep_view() == (IpsetOpV::Del {
                set: allowed_port_set_name(protocol),
                member: dec_str(port as int),
            }),
    {
        IpsetOp::Del {
            set: String::from_str(allowed_port_set(protocol)),
            member: u16_to_dec_string(port),
        }
    }

    /// The plan applying every port rule of the given rules into the two
    /// fixed allowed-port sets; other rule kinds contribute nothing.
    pub fn configure_port_rules(&self, rules: &Vec<Rule>) -> (ops: Vec<IpsetOp>)
        ensures
            ops.deep_view() == configure_port_rules_ops(rules.deep_view()),
    {
        let mut ops: Vec<IpsetOp> = Vec::new();
        let n: usize = rules.len();
        let mut i: usize = 0;
        proof {
            assert(rules.deep_view().take(0) =~= Seq::<RuleV>::empty());
            assert(ops.deep_view() =~= Seq::<IpsetOpV>::empty());
        }
        while i < n
            invariant
                0 <= i <= n == rules.len(),
                ops.deep_view() == configure_port_rules_ops(rules.deep_view().take(i as int)),
            decreases n - i,
        {
            let rule = &rules[i];
            proof {
                let dv = rules.deep_view();
                assert(dv[i as int] == rule.deep_view());
                assert(dv.take(i + 1).drop_last() =~= dv.take(i as int));
                assert(dv.take(i + 1).last() == dv[i as int]);
            }
            if let Rule::Port(port_rule) = rule {
                let ghost prev = ops.deep_view();
                ops.push(self.add_port(port_rule.number, port_rule.protocol));
                proof {
                    assert(ops.deep_view() =~= prev.push(port_rule_op(*port_rule)));
                    assert(ops.deep_view() =~= configure_port_rules_ops(
                        rules.deep_view().take(i + 1),
                    ));
                }
            } else {
                proof {
                    assert(ops.deep_view() =~= configure_port_rules_ops(
                        rules.deep_view().take(i + 1),
                    ));
                }
            }
            i = i + 1;
        }
        proof {
            assert(rules.deep_view().take(n as int) =~= rules.deep_view());
        }
        ops
    }

    /// Record a set name for matching by the allow chain. Registration is
    /// cumulative and deduplicating, and is never cleared automatically.
    pub fn register_whitelist_set(&mut self, name: String)
        ensures
            final(self).whitelist_sets.deep_view() == (if old(
                self,
            ).whitelist_sets.deep_view().contains(name@) {
                old(self).whitelist_sets.deep_view()
            } else {
                old(self).whitelist_sets.deep_view().push(name@)
            }),
            final(self).blacklist_sets == old(self).blacklist_sets,
            final(self).cmd == old(self).cmd,
    {
        if !contains_string(&self.whitelist_sets, name.as_str()) {
            let ghost prev = self.whitelist_sets.deep_view();
            let ghost nv = name@;
            self.whitelist_sets.push(name);
            proof {
                assert(self.whitelist_sets.deep_view() =~= prev.push(nv));
            }
        }
    }

    /// Record a set name for matching by the deny chain.
    pub fn register_blacklist_set(&mut self, name: String)
        ensures
            final(self).blacklist_sets.deep_view() == (if old(
                self,
            ).blacklist_sets.deep_view().contains(name@) {
                old(self).blacklist_sets.deep_view()
            } else {
                old(self).blacklist_sets.deep_view().push(name@)
            }),
            final(self).whitelist_sets == old(self).whitelist_sets,
            final(self).cmd == old(self).cmd,
    {
        if !contains_string(&self.blacklist_sets, name.as_str()) {
            let ghost prev = self.blacklist_sets.deep_view();
            let ghost nv = name@;
            self.blacklist_sets.push(name);
            proof {
                assert(self.blacklist_sets.deep_view() =~= prev.push(nv));
            }
        }
    }

    /// The names registered for the allow chain, in registration order.
    pub fn get_whitelist_sets(&self) -> (r: &Vec<String>)
        ensures
            r.deep_view() == self.whitelist_sets.deep_view(),
    {
        &self.whitelist_sets
    }

    /// The names registered for the deny chain, in registration order.
    pub fn get_blacklist_sets(&self) -> (r: &Vec<String>)
        ensures
            r.deep_view() == self.blacklist_sets.deep_view(),
    {
        &self.blacklist_sets
    }

    /// The query command that lists a set's members.
    pub fn list_set_cmd(&self, set_name: &str) -> (r: CmdBuilder)
        ensures
            r.deep_view() == (CmdBuilderV {
                args: self.cmd.deep_view().args + seq!["list"@, set_name@],
                ..self.cmd.deep_view()
            }),
    {
        let mut cmd = self.cmd.clone();
        cmd.arg("list");
        cmd.arg(set_name);
        proof {
            assert(cmd.deep_view().args =~= self.cmd.deep_view().args + seq![
                "list"@,
                set_name@,
            ]);
        }
        cmd
    }

    /// Parse the two fixed allowed-port listings and combine them: ports
    /// sorted ascending, and on equal ports the TCP listing's entries first.
    pub fn list_ports(&self, tcp_output: &str, udp_output: &str) -> (r: Vec<(u16, Protocol)>)
        ensures
            r@ == list_ports_spec(tcp_output@, udp_output@),
            sorted_by(r@, port_leq()),
    {
        let tcp_ports = Self::parse_ipset_list(tcp_output);
        let udp_ports = Self::parse_ipset_list(udp_output);
        let tcp_tagged = tag_ports(tcp_ports, Protocol::TCP);
        let udp_tagged = tag_ports(udp_ports, Protocol::UDP);
        proof {
            lemma_u16_le_total_ordering();
            listing_ports(tcp_output@).lemma_sort_by_ensures(u16_le());
            listing_ports(udp_output@).lemma_sort_by_ensures(u16_le());
            lemma_tagged_sorted(listing_ports(tcp_output@).sort_by(u16_le()), Protocol::TCP);
            lemma_tagged_sorted(listing_ports(udp_output@).sort_by(u16_le()), Protocol::UDP);
            lemma_merge_by_port_sorted(tcp_tagged@, udp_tagged@);
        }
        merge_by_port_vec(tcp_tagged, udp_tagged)
    }

    /// Extract the port members of one `list` output: the lines after a
    /// `Members:` marker that read, trimmed, as decimal 16-bit numbers,
    /// sorted ascending.
    pub fn parse_ipset_list(output: &str) -> (r: Vec<u16>)
        ensures
            r@ == listing_ports(output@).sort_by(u16_le()),
    {
        let lines = crate::text::split_lines(output);
        let mut vals: Vec<u16> = Vec::new();
        let mut in_members = false;
        let n: usize = lines.len();
        let mut i: usize = 0;
        proof {
            assert(vals@ =~= Seq::<u16>::empty());
            assert(lines.deep_view().skip(0) =~= lines.deep_view());
        }
        while i < n
            invariant
                0 <= i <= n == lines@.len(),
                member_values(lines.deep_view(), false) == vals@ + member_values(
                    lines.deep_view().skip(i as int),
                    in_members,
                ),
            decreases n - i,
        {
            let line = &lines[i];
            proof {
                let lv = lines.deep_view();
                assert(lv.skip(i as int)[0] == lv[i as int]);
                assert(lv[i as int] == line@);
                assert(lv.skip(i as int).drop_first() =~= lv.skip(i + 1));
            }
            if crate::text::str_eq(line.as_str(), "Members:") {
                in_members = true;
            } else if in_members {
                let trimmed = crate::text::trim(line.as_str());
                match crate::text::parse_u16(trimmed) {
                    Some(v) => {
                        let ghost prev = vals@;
                        vals.push(v);
                        proof {
                            assert(vals@ =~= prev.push(v));
                            assert(seq![v] + member_values(
                                lines.deep_view().skip(i + 1),
                                true,
                            ) =~= member_values(lines.deep_view().skip(i as int), true));
                            assert(vals@ + member_values(lines.deep_view().skip(i + 1), true)
                                =~= prev + member_values(
                                lines.deep_view().skip(i as int),
                                true,
                            ));
                        }
                    },
                    None => {},
                }
            }
            i = i + 1;
        }
        proof {
            assert(lines.deep_view().skip(n as int) =~= Seq::<Seq<char>>::empty());
            assert(vals@ + member_values(Seq::<Seq<char>>::empty(), in_members) =~= vals@);
        }
        sort_u16_vec(vals)
    }
}

/// The port-set members named by a listing: lines after a `Members:` marker
/// whose trimmed text reads as a decimal 16-bit number.
pub open spec fn member_values(ls: Seq<Seq<char>>, in_members: bool) -> Seq<u16>
    decreases ls.len(),
{
    if ls.len() == 0 {
        seq![]
    } else if ls[0] == "Members:"@ {
        member_values(ls.drop_first(), true)
    } else if in_members {
        let t = trim_spec(ls[0]);
        (if t.len() > 0 && all_digits(t) && dec_val(t) <= 65535 {
            seq![dec_val(t) as u16]
        } else {
            seq![]
        }) + member_values(ls.drop_first(), true)
    } else {
        member_values(ls.drop_first(), false)
    }
}

/// The port members of one `list` output, in listing order.
pub open spec fn listing_ports(output: Seq<char>) -> Seq<u16> {
    member_values(lines_of(output), false)
}

/// Numeric order on ports.
pub open spec fn u16_le() -> spec_fn(u16, u16) -> bool {
    |a: u16, b: u16| a <= b
}

/// Numeric order on tagged ports, by port number alone.
pub open spec fn port_leq() -> spec_fn((u16, Protocol), (u16, Protocol)) -> bool {
    |x: (u16, Protocol), y: (u16, Protocol)| x.0 <= y.0
}

pub proof fn lemma_u16_le_total_ordering()
    ensures
        total_ordering(u16_le()),
{
}

/// The ports of a listing, each tagged with one protocol, order kept.
pub open spec fn tagged_ports(s: Seq<u16>, p: Protocol) -> Seq<(u16, Protocol)> {
    Seq::new(s.len(), |i: int| (s[i], p))
}

/// Tag each port with a protocol, order kept.
fn tag_ports(ports: Vec<u16>, p: Protocol) -> (r: Vec<(u16, Protocol)>)
    ensures
        r@ == tagged_ports(ports@, p),
{
    let mut out: Vec<(u16, Protocol)> = Vec::new();
    let n: usize = ports.len();
    let mut i: usize = 0;
    while i < n
        invariant
            0 <= i <= n == ports@.len(),
            out@ =~= tagged_ports(ports@.take(i as int), p),
        decreases n - i,
    {
        let ghost prev = out@;
        out.push((ports[i], p));
        proof {
            assert(out@ =~= tagged_ports(ports@.take(i + 1), p));
        }
        i = i + 1;
    }
    proof {
        assert(ports@.take(n as int) =~= ports@);
    }
    out
}

pub proof fn lemma_tagged_sorted(s: Seq<u16>, p: Protocol)
    requires
        sorted_by(s, u16_le()),
    ensures
        sorted_by(tagged_ports(s, p), port_leq()),
{
    assert forall|i: int, j: int|
        0 <= i < j < tagged_ports(s, p).len() implies #[trigger] port_leq()(
        tagged_ports(s, p)[i],
        tagged_ports(s, p)[j],
    ) by {
        assert(u16_le()(s[i], s[j]));
    }
}

/// The stable merge of two port listings by ascending port number; on equal
/// ports the first listing's entry comes first.
pub open spec fn merge_by_port(
    a: Seq<(u16, Protocol)>,
    b: Seq<(u16, Protocol)>,
) -> Seq<(u16, Protocol)>
    decreases a.len() + b.len(),
{
    if a.len() == 0 {
        b
    } else if b.len() == 0 {
        a
    } else if a[0].0 <= b[0].0 {
        seq![a[0]] + merge_by_port(a.drop_first(), b)
    } else {
        seq![b[0]] + merge_by_port(a, b.drop_first())
    }
}

/// A merge of two sorted listings is sorted.
pub proof fn lemma_merge_by_port_sorted(a: Seq<(u16, Protocol)>, b: Seq<(u16, Protocol)>)
    requires
        sorted_by(a, port_leq()),
        sorted_by(b, port_leq()),
    ensures
        sorted_by(merge_by_port(a, b), port_leq()),
        forall|k: int|
            0 <= k < merge_by_port(a, b).len() ==> (a.contains(#[trigger] merge_by_port(a, b)[k])
                || b.contains(merge_by_port(a, b)[k])),
    decreases a.len() + b.len(),
{
    let m = merge_by_port(a, b);
    if a.len() == 0 {
        assert(forall|k: int| 0 <= k < m.len() ==> b.contains(#[trigger] m[k]));
    } else if b.len() == 0 {
        assert(forall|k: int| 0 <= k < m.len() ==> a.contains(#[trigger] m[k]));
    } else if a[0].0 <= b[0].0 {
        assert(sorted_by(a.drop_first(), port_leq())) by {
            assert forall|i: int, j: int|
                0 <= i < j < a.drop_first().len() implies #[trigger] port_leq()(
                a.drop_first()[i],
                a.drop_first()[j],
            ) by {
                assert(port_leq()(a[i + 1], a[j + 1]));
            }
        }
        lemma_merge_by_port_sorted(a.drop_first(), b);
        let rest = merge_by_port(a.drop_first(), b);
        assert forall|k: int| 0 <= k < m.len() implies (a.contains(#[trigger] m[k])
            || b.contains(m[k])) by {
            if k == 0 {
                assert(a.contains(a[0]));
            } else {
                assert(m[k] == rest[k - 1]);
                if a.drop_first().contains(rest[k - 1]) {
                    let j = choose|j: int|
                        0 <= j < a.drop_first().len() && a.drop_first()[j] == rest[k - 1];
                    assert(a[j + 1] == rest[k - 1]);
                }
            }
        }
        assert forall|i: int, j: int| 0 <= i < j < m.len() implies #[trigger] port_leq()(
            m[i],
            m[j],
        ) by {
            if i == 0 {
                assert(m[j] == rest[j - 1]);
                if a.drop_first().contains(rest[j - 1]) {
                    let q = choose|q: int|
                        0 <= q < a.drop_first().len() && a.drop_first()[q] == rest[j - 1];
                    assert(port_leq()(a[0], a[q + 1]));
                } else {
                    let q = choose|q: int| 0 <= q < b.len() && b[q] == rest[j - 1];
                    if q > 0 {
                        assert(port_leq()(b[0], b[q]));
                    }
                }
            } else {
                assert(m[i] == rest[i - 1] && m[j] == rest[j - 1]);
                assert(port_leq()(rest[i - 1], rest[j - 1]));
            }
        }
    } else {
        assert(sorted_by(b.drop_first(), port_leq())) by {
            assert forall|i: int, j: int|
                0 <= i < j < b.drop_first().len() implies #[trigger] port_leq()(
                b.drop_first()[i],
                b.drop_first()[j],
            ) by {
                assert(port_leq()(b[i + 1], b[j + 1]));
            }
        }
        lemma_merge_by_port_sorted(a, b.drop_first());
        let rest = merge_by_port(a, b.drop_first());
        assert forall|k: int| 0 <= k < m.len() implies (a.contains(#[trigger] m[k])
            || b.contains(m[k])) by {
            if k == 0 {
                assert(b.contains(b[0]));
            } else {
                assert(m[k] == rest[k - 1]);
                if b.drop_first().contains(rest[k - 1]) {
                    let j = choose|j: int|
                        0 <= j < b.drop_first().len() && b.drop_first()[j] == rest[k - 1];
                    assert(b[j + 1] == rest[k - 1]);
                }
            }
        }
        assert forall|i: int, j: int| 0 <= i < j < m.len() implies #[trigger] port_leq()(
            m[i],
            m[j],
        ) by {
            if i == 0 {
                assert(m[j] == rest[j - 1]);
                if b.drop_first().contains(rest[j - 1]) {
                    let q = choose|q: int|
                        0 <= q < b.drop_first().len() && b.drop_first()[q] == rest[j - 1];
                    assert(port_leq()(b[0], b[q + 1]));
                } else {
                    let q = choose|q: int| 0 <= q < a.len() && a[q] == rest[j - 1];
                    if q > 0 {
                        assert(port_leq()(a[0], a[q]));
                    }
                }
            } else {
                assert(m[i] == rest[i - 1] && m[j] == rest[j - 1]);
                assert(port_leq()(rest[i - 1], rest[j - 1]));
            }
        }
    }
}

/// The combined, ordered port listing of the two fixed allowed-port sets.
pub open spec fn list_ports_spec(tcp_out: Seq<char>, udp_out: Seq<char>) -> Seq<(u16, Protocol)> {
    merge_by_port(
        tagged_ports(listing_ports(tcp_out).sort_by(u16_le()), Protocol::TCP),
        tagged_ports(listing_ports(udp_out).sort_by(u16_le()), Protocol::UDP),
    )
}

/// Merge two port listings by ascending port number, stably.
fn merge_by_port_vec(
    a: Vec<(u16, Protocol)>,
    b: Vec<(u16, Protocol)>,
) -> (r: Vec<(u16, Protocol)>)
    ensures
        r@ == merge_by_port(a@, b@),
{
    let mut out: Vec<(u16, Protocol)> = Vec::new();
    let na: usize = a.len();
    let nb: usize = b.len();
    let mut i: usize = 0;
    let mut j: usize = 0;
    proof {
        assert(a@.skip(0) =~= a@);
        assert(b@.skip(0) =~= b@);
        assert(out@ + merge_by_port(a@, b@) =~= merge_by_port(a@, b@));
    }
    while i < na || j < nb
        invariant
            0 <= i <= na == a@.len(),
            0 <= j <= nb == b@.len(),
            merge_by_port(a@, b@) == out@ + merge_by_port(a@.skip(i as int), b@.skip(j as int)),
        decreases na - i + nb - j,
    {
        let ghost ra = a@.skip(i as int);
        let ghost rb = b@.skip(j as int);
        let take_a = if j >= nb {
            true
        } else if i >= na {
            false
        } else {
            a[i].0 <= b[j].0
        };
        if take_a {
            let ghost prev = out@;
            out.push(a[i]);
            proof {
                assert(ra[0] == a@[i as int]);
                assert(ra.drop_first() =~= a@.skip(i + 1));
                if rb.len() == 0 {
                    assert(merge_by_port(ra, rb) == ra);
                    assert(ra =~= seq![ra[0]] + ra.drop_first());
                    assert(merge_by_port(a@.skip(i + 1), rb) == a@.skip(i + 1));
                } else {
                    assert(ra[0].0 <= rb[0].0);
                    assert(merge_by_port(ra, rb) == seq![ra[0]] + merge_by_port(
                        ra.drop_first(),
                        rb,
                    ));
                }
                assert(out@ =~= prev.push(a@[i as int]));
                assert(out@ + merge_by_port(a@.skip(i + 1), rb) =~= prev + merge_by_port(
                    ra,
                    rb,
                ));
            }
            i = i + 1;
        } else {
            let ghost prev = out@;
            out.push(b[j]);
            proof {
                assert(rb[0] == b@[j as int]);
                assert(rb.drop_first() =~= b@.skip(j + 1));
                if ra.len() == 0 {
                    assert(merge_by_port(ra, rb) == rb);
                    assert(rb =~= seq![rb[0]] + rb.drop_first());
                    assert(merge_by_port(ra, b@.skip(j + 1)) == b@.skip(j + 1));
                } else {
                    assert(!(ra[0].0 <= rb[0].0));
                    assert(merge_by_port(ra, rb) == seq![rb[0]] + merge_by_port(
                        ra,
                        rb.drop_first(),
                    ));
                }
                assert(out@ =~= prev.push(b@[j as int]));
                assert(out@ + merge_by_port(ra, b@.skip(j + 1)) =~= prev + merge_by_port(
                    ra,
                    rb,
                ));
            }
            j = j + 1;
        }
    }
    proof {
        assert(a@.skip(na as int) =~= Seq::<(u16, Protocol)>::empty());
        assert(b@.skip(nb as int) =~= Seq::<(u16, Protocol)>::empty());
        assert(out@ =~= merge_by_port(a@, b@));
    }
    out
}

/// Inserting at a position is, as a multiset, one insertion.
proof fn lemma_seq_insert_multiset(s: Seq<u16>, pos: int, v: u16)
    requires
        0 <= pos <= s.len(),
    ensures
        s.insert(pos, v).to_multiset() =~= s.to_multiset().insert(v),
{
    broadcast use group_to_multiset_ensures;
    broadcast use vstd::multiset::group_multiset_axioms;

    let pre = s.subrange(0, pos);
    let post = s.subrange(pos, s.len() as int);
    assert(s.insert(pos, v) == pre.push(v) + post);
    lemma_multiset_commutative(pre.push(v), post);
    lemma_multiset_commutative(pre, post);
    assert(s =~= pre + post);
    assert(pre.push(v).to_multiset() =~= pre.to_multiset().insert(v));
}

/// Sort ports ascending.
fn sort_u16_vec(v: Vec<u16>) -> (r: Vec<u16>)
    ensures
        r@ == v@.sort_by(u16_le()),
{
    let mut out: Vec<u16> = Vec::new();
    let n: usize = v.len();
    let mut i: usize = 0;
    proof {
        broadcast use group_to_multiset_ensures;

        assert(v@.take(0) =~= Seq::<u16>::empty());
        assert(out@ =~= Seq::<u16>::empty());
        assert(out@.to_multiset() =~= v@.take(0).to_multiset());
    }
    while i < n
        invariant
            0 <= i <= n == v@.len(),
            sorted_by(out@, u16_le()),
            out@.to_multiset() == v@.take(i as int).to_multiset(),
        decreases n - i,
    {
        let x = v[i];
        // find the first position whose element exceeds x
        let m: usize = out.len();
        let mut pos: usize = 0;
        while pos < m && out[pos] <= x
            invariant
                0 <= pos <= m == out@.len(),
                forall|k: int| 0 <= k < pos ==> out@[k] <= x,
            decreases m - pos,
        {
            pos = pos + 1;
        }
        let ghost prev = out@;
        out.insert(pos, x);
        proof {
            broadcast use group_to_multiset_ensures;

            assert(out@ == prev.insert(pos as int, x));
            prev.insert_ensures(pos as int, x);
            assert forall|p: int, q: int| 0 <= p < q < out@.len() implies #[trigger] u16_le()(
                out@[p],
                out@[q],
            ) by {
                if pos < m {
                    assert(!(prev[pos as int] <= x));
                }
                if p < pos as int && q == pos as int {
                    assert(out@[p] == prev[p]);
                } else if p == pos as int && q > pos as int {
                    assert(out@[q] == prev[q - 1]);
                    if (pos as int) < q - 1 {
                        assert(u16_le()(prev[pos as int], prev[q - 1]));
                    }
                } else if p < pos as int && q > pos as int {
                    assert(out@[p] == prev[p] && out@[q] == prev[q - 1]);
                    if p < q - 1 {
                        assert(u16_le()(prev[p], prev[q - 1]));
                    }
                } else if p > pos as int {
                    assert(out@[p] == prev[p - 1] && out@[q] == prev[q - 1]);
                    assert(u16_le()(prev[p - 1], prev[q - 1]));
                } else if q < pos as int {
                    assert(out@[p] == prev[p] && out@[q] == prev[q]);
                    assert(u16_le()(prev[p], prev[q]));
                }
            }
            lemma_seq_insert_multiset(prev, pos as int, x);
            assert(v@.take(i + 1).drop_last() =~= v@.take(i as int));
            assert(v@.take(i + 1) =~= v@.take(i as int).push(x));
            assert(v@.take(i + 1).to_multiset() =~= v@.take(i as int).to_multiset().insert(x));
            assert(out@.to_multiset() =~= v@.take(i + 1).to_multiset());
        }
        i = i + 1;
    }
    proof {
        assert(v@.take(n as int) =~= v@);
        lemma_u16_le_total_ordering();
        v@.lemma_sort_by_ensures(u16_le());
        lemma_sorted_unique(out@, v@.sort_by(u16_le()), u16_le());
    }
    out
}

/// The modelled state of the external set backend: each existing set's
/// members, in insertion order, with no duplicate suppression.
pub open spec fn apply_ipset_op(
    st: Map<Seq<char>, Seq<Seq<char>>>,
    op: IpsetOpV,
) -> Map<Seq<char>, Seq<Seq<char>>> {
    match op {
        IpsetOpV::Destroy { set } => st.remove(set),
        IpsetOpV::CreateAddrSet { set, .. } => st.insert(set, seq![]),
        IpsetOpV::CreatePortSet { set } => st.insert(set, seq![]),
        IpsetOpV::Add { set, member } => if st.dom().contains(set) {
            st.insert(set, st[set].push(member))
        } else {
            st
        },
        IpsetOpV::Del { set, member } => if st.dom().contains(set) {
            st.insert(set, st[set].filter(|m: Seq<char>| m != member))
        } else {
            st
        },
    }
}

/// A plan's effect on the backend state, operation by operation, in order.
pub open spec fn apply_ipset_ops(
    st: Map<Seq<char>, Seq<Seq<char>>>,
    ops: Seq<IpsetOpV>,
) -> Map<Seq<char>, Seq<Seq<char>>>
    decreases ops.len(),
{
    if ops.len() == 0 {
        st
    } else {
        apply_ipset_ops(apply_ipset_op(st, ops[0]), ops.drop_first())
    }
}

pub proof fn lemma_apply_ipset_ops_concat(
    st: Map<Seq<char>, Seq<Seq<char>>>,
    a: Seq<IpsetOpV>,
    b: Seq<IpsetOpV>,
)
    ensures
        apply_ipset_ops(st, a + b) == apply_ipset_ops(apply_ipset_ops(st, a), b),
    decreases a.len(),
{
    if a.len() == 0 {
        assert(a + b =~= b);
    } else {
        assert((a + b)[0] == a[0]);
        assert((a + b).drop_first() =~= a.drop_first() + b);
        lemma_apply_ipset_ops_concat(apply_ipset_op(st, a[0]), a.drop_first(), b);
    }
}

} // verus!
