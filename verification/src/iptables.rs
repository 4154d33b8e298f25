//! The rule-chain backend controller.
//!
//! Every operation on the chain backend is a value of [`ChainOp`]. A chain
//! operation is one logical step applied to both address families: the
//! runner renders it once against the IPv4 command base and once against the
//! IPv6 base, and the step succeeds only if both runs succeed. Plans that
//! interleave chain steps with membership-set steps are sequences of
//! [`BackendOp`].

use vstd::prelude::*;
use vstd::string::*;

use crate::cmd::{CmdBuilder, CmdBuilderV};
use crate::config::Config;
use crate::ipset::{
    allowed_port_set, allowed_port_set_name, blacklist_port_set_name, whitelist_port_set_name,
    IpsetController, IpsetOp, IpsetOpV,
};
use crate::rules::{Protocol, Rule, RuleParser, RuleV};
use crate::text::dec_str;

verus! {

/// The direction of an address- or port-set match.
#[derive(Debug, Clone, Copy, PartialEq, Eq, Structural)]
pub enum MatchDir {
    Src,
    Dst,
}

/// What a matching rule does with the packet.
#[derive(Debug, Clone, Copy, PartialEq, Eq, Structural)]
pub enum RuleAction {
    Accept,
    Drop,
}

/// The textual form of a match direction.
pub open spec fn dir_text(d: MatchDir) -> Seq<char> {
    match d {
        MatchDir::Src => "src"@,
        MatchDir::Dst => "dst"@,
    }
}

/// The textual form of a rule action.
pub open spec fn action_text(a: RuleAction) -> Seq<char> {
    match a {
        RuleAction::Accept => "ACCEPT"@,
        RuleAction::Drop => "DROP"@,
    }
}

/// One operation on the chain backend, applied to both address families.
#[derive(Debug, PartialEq, Eq)]
pub enum ChainOp {
    /// Create a chain; best-effort, it may already exist.
    NewChain { chain: String },
    /// Remove every rule of a chain, leaving it existing and empty.
    Flush { chain: String },
    /// Remove a jump from parent to child; best-effort, for idempotency
    /// against repeated reconciliation.
    DeleteJump { parent: String, child: String },
    /// Append a jump to the child at the tail of the parent.
    AppendJump { parent: String, child: String },
    /// Insert a jump to the child at the head of the parent.
    InsertJumpFirst { parent: String, child: String },
    /// Append a rule matching a membership set, with direction and action.
    MatchSetRule { chain: String, set: String, dir: MatchDir, action: RuleAction },
    /// Append an accept rule for one protocol's destination-port set.
    ProtoPortSetRule { chain: String, proto: Protocol, set: String },
    /// Append a drop rule for malformed TCP segments (no flags at all).
    TcpFlagsDrop { chain: String },
    /// Append an unconditional drop for one inbound interface.
    InterfaceDrop { chain: String, iface: String },
    /// Insert an unconditional accept for one interface at the chain head.
    InterfaceAcceptFirst { chain: String, iface: String },
}

/// Mathematical image of `ChainOp`.
pub ghost enum ChainOpV {
    NewChain { chain: Seq<char> },
    Flush { chain: Seq<char> },
    DeleteJump { parent: Seq<char>, child: Seq<char> },
    AppendJump { parent: Seq<char>, child: Seq<char> },
    InsertJumpFirst { parent: Seq<char>, child: Seq<char> },
    MatchSetRule { chain: Seq<char>, set: Seq<char>, dir: MatchDir, action: RuleAction },
    ProtoPortSetRule { chain: Seq<char>, proto: Protocol, set: Seq<char> },
    TcpFlagsDrop { chain: Seq<char> },
    InterfaceDrop { chain: Seq<char>, iface: Seq<char> },
    InterfaceAcceptFirst { chain: Seq<char>, iface: Seq<char> },
}

impl DeepView for ChainOp {
    type V = ChainOpV;

    open spec fn deep_view(&self) -> ChainOpV {
        match self {
            ChainOp::NewChain { chain } => ChainOpV::NewChain { chain: chain@ },
            ChainOp::Flush { chain } => ChainOpV::Flush { chain: chain@ },
            ChainOp::DeleteJump { parent, child } => ChainOpV::DeleteJump {
                parent: parent@,
                child: child@,
            },
            ChainOp::AppendJump { parent, child } => ChainOpV::AppendJump {
                parent: parent@,
                child: child@,
            },
            ChainOp::InsertJumpFirst { parent, child } => ChainOpV::InsertJumpFirst {
                parent: parent@,
                child: child@,
            },
            ChainOp::MatchSetRule { chain, set, dir, action } => ChainOpV::MatchSetRule {
                chain: chain@,
                set: set@,
                dir: *dir,
                action: *action,
            },
            ChainOp::ProtoPortSetRule { chain, proto, set } => ChainOpV::ProtoPortSetRule {
                chain: chain@,
                proto: *proto,
                set: set@,
            },
            ChainOp::TcpFlagsDrop { chain } => ChainOpV::TcpFlagsDrop { chain: chain@ },
            ChainOp::InterfaceDrop { chain, iface } => ChainOpV::InterfaceDrop {
                chain: chain@,
                iface: iface@,
            },
            ChainOp::InterfaceAcceptFirst { chain, iface } => ChainOpV::InterfaceAcceptFirst {
                chain: chain@,
                iface: iface@,
            },
        }
    }
}

/// The argument list of the backend command for one chain operation.
pub open spec fn chain_op_args(op: ChainOpV) -> Seq<Seq<char>> {
    match op {
        ChainOpV::NewChain { chain } => seq!["-N"@, chain],
        ChainOpV::Flush { chain } => seq!["-F"@, chain],
        ChainOpV::DeleteJump { parent, child } => seq!["-D"@, parent, "-j"@, child],
        ChainOpV::AppendJump { parent, child } => seq!["-A"@, parent, "-j"@, child],
        ChainOpV::InsertJumpFirst { parent, child } => seq!["-I"@, parent, "1"@, "-j"@, child],
        ChainOpV::MatchSetRule { chain, set, dir, action } => seq![
            "-A"@,
            chain,
            "-m"@,
            "set"@,
            "--match-set"@,
            set,
            dir_text(dir),
            "-j"@,
            action_text(action),
        ],
        ChainOpV::ProtoPortSetRule { chain, proto, set } => seq![
            "-A"@,
            chain,
            "-p"@,
            crate::rules::protocol_text(proto),
            "-m"@,
            "set"@,
            "--match-set"@,
            set,
            "dst"@,
            "-j"@,
            "ACCEPT"@,
        ],
        ChainOpV::TcpFlagsDrop { chain } => seq![
            "-A"@,
            chain,
            "-p"@,
            "tcp"@,
            "--tcp-flags"@,
            "ALL"@,
            "NONE"@,
            "-j"@,
            "DROP"@,
        ],
        ChainOpV::InterfaceDrop { chain, iface } => seq![
            "-A"@,
            chain,
            "-i"@,
            iface,
            "-j"@,
            "DROP"@,
        ],
        ChainOpV::InterfaceAcceptFirst { chain, iface } => seq![
            "-I"@,
            chain,
            "1"@,
            "-i"@,
            iface,
            "-j"@,
            "ACCEPT"@,
        ],
    }
}

impl ChainOp {
    /// Whether the runner ignores a failure of this operation.
    pub fn is_best_effort(&self) -> (r: bool)
        ensures
            r == (self.deep_view() is NewChain || self.deep_view() is DeleteJump),
    {
        matches!(self, ChainOp::NewChain { .. } | ChainOp::DeleteJump { .. })
    }

    /// Render this operation as a full command against one address family's
    /// command base.
    pub fn to_cmd(&self, base: &CmdBuilder) -> (r: CmdBuilder)
        ensures
            r.deep_view() == (CmdBuilderV {
                args: base.deep_view().args + chain_op_args(self.deep_view()),
                ..base.deep_view()
            }),
    {
        let mut cmd = base.clone();
        match self {
            ChainOp::NewChain { chain } => {
                cmd.arg("-N");
                cmd.arg(chain.as_str());
            },
            ChainOp::Flush { chain } => {
                cmd.arg("-F");
                cmd.arg(chain.as_str());
            },
            ChainOp::DeleteJump { parent, child } => {
                cmd.arg("-D");
                cmd.arg(parent.as_str());
                cmd.arg("-j");
                cmd.arg(child.as_str());
            },
            ChainOp::AppendJump { parent, child } => {
                cmd.arg("-A");
                cmd.arg(parent.as_str());
                cmd.arg("-j");
                cmd.arg(child.as_str());
            },
            ChainOp::InsertJumpFirst { parent, child } => {
                cmd.arg("-I");
                cmd.arg(parent.as_str());
                cmd.arg("1");
                cmd.arg("-j");
                cmd.arg(child.as_str());
            },
            ChainOp::MatchSetRule { chain, set, dir, action } => {
                cmd.arg("-A");
                cmd.arg(chain.as_str());
                cmd.arg("-m");
                cmd.arg("set");
                cmd.arg("--match-set");
                cmd.arg(set.as_str());
                cmd.arg(match dir {
                    MatchDir::Src => "src",
                    MatchDir::Dst => "dst",
                });
                cmd.arg("-j");
                cmd.arg(match action {
                    RuleAction::Accept => "ACCEPT",
                    RuleAction::Drop => "DROP",
                });
            },
            ChainOp::ProtoPortSetRule { chain, proto, set } => {
                cmd.arg("-A");
                cmd.arg(chain.as_str());
                cmd.arg("-p");
                cmd.arg(proto.to_text());
                cmd.arg("-m");
                cmd.arg("set");
                cmd.arg("--match-set");
                cmd.arg(set.as_str());
                cmd.arg("dst");
                cmd.arg("-j");
                cmd.arg("ACCEPT");
            },
            ChainOp::TcpFlagsDrop { chain } => {
                cmd.arg("-A");
                cmd.arg(chain.as_str());
                cmd.arg("-p");
                cmd.arg("tcp");
                cmd.arg("--tcp-flags");
                cmd.arg("ALL");
                cmd.arg("NONE");
                cmd.arg("-j");
                cmd.arg("DROP");
            },
            ChainOp::InterfaceDrop { chain, iface } => {
                cmd.arg("-A");
                cmd.arg(chain.as_str());
                cmd.arg("-i");
                cmd.arg(iface.as_str());
                cmd.arg("-j");
                cmd.arg("DROP");
            },
            ChainOp::InterfaceAcceptFirst { chain, iface } => {
                cmd.arg("-I");
                cmd.arg(chain.as_str());
                cmd.arg("1");
                cmd.arg("-i");
                cmd.arg(iface.as_str());
                cmd.arg("-j");
                cmd.arg("ACCEPT");
            },
        }
        proof {
            assert(cmd.deep_view().args =~= base.deep_view().args + chain_op_args(
                self.deep_view(),
            ));
        }
        cmd
    }
}

/// One step of a mixed plan: a membership-set operation or a chain
/// operation.
#[derive(Debug, PartialEq, Eq)]
pub enum BackendOp {
    Ipset(IpsetOp),
    Chain(ChainOp),
}

/// Mathematical image of `BackendOp`.
pub ghost enum BackendOpV {
    Ipset(IpsetOpV),
    Chain(ChainOpV),
}

impl DeepView for BackendOp {
    type V = BackendOpV;

    open spec fn deep_view(&self) -> BackendOpV {
        match self {
            BackendOp::Ipset(op) => BackendOpV::Ipset(op.deep_view()),
            BackendOp::Chain(op) => BackendOpV::Chain(op.deep_view()),
        }
    }
}

/// A chain-only plan lifted into a mixed plan.
pub open spec fn lift_chain_ops(ops: Seq<ChainOpV>) -> Seq<BackendOpV> {
    ops.map_values(|o: ChainOpV| BackendOpV::Chain(o))
}

/// Create-or-reset of a chain: best-effort creation, then a flush; the chain
/// is left existing and empty.
pub open spec fn create_or_reset_chain_ops(chain: Seq<char>) -> Seq<ChainOpV> {
    seq![ChainOpV::NewChain { chain }, ChainOpV::Flush { chain }]
}

/// Link a child chain at the tail of a parent: remove any existing jump
/// (best-effort), then append the jump.
pub open spec fn link_tail_ops(child: Seq<char>, parent: Seq<char>) -> Seq<ChainOpV> {
    seq![
        ChainOpV::DeleteJump { parent, child },
        ChainOpV::AppendJump { parent, child },
    ]
}

/// Link a child chain at the head of a parent: remove any existing jump
/// (best-effort), then insert the jump first.
pub open spec fn link_head_ops(child: Seq<char>, parent: Seq<char>) -> Seq<ChainOpV> {
    seq![
        ChainOpV::DeleteJump { parent, child },
        ChainOpV::InsertJumpFirst { parent, child },
    ]
}

/// Initialization: create the root chain, link it at the head of the
/// built-in inbound and forwarding chains, then put a loopback accept in
/// front of everything, so loopback is never blocked by later policy.
pub open spec fn init_chain_ops() -> Seq<ChainOpV> {
    create_or_reset_chain_ops("ei"@) + seq![
        ChainOpV::InsertJumpFirst { parent: "INPUT"@, child: "ei"@ },
        ChainOpV::InsertJumpFirst { parent: "FORWARD"@, child: "ei"@ },
        ChainOpV::InterfaceAcceptFirst { chain: "INPUT"@, iface: "lo"@ },
        ChainOpV::InterfaceAcceptFirst { chain: "FORWARD"@, iface: "lo"@ },
    ]
}

/// The port-forwarding accept rules: one per protocol's fixed allowed-port
/// set.
pub open spec fn port_forward_rules_ops() -> Seq<ChainOpV> {
    seq![
        ChainOpV::ProtoPortSetRule {
            chain: "ei-ports"@,
            proto: Protocol::TCP,
            set: allowed_port_set_name(Protocol::TCP),
        },
        ChainOpV::ProtoPortSetRule {
            chain: "ei-ports"@,
            proto: Protocol::UDP,
            set: allowed_port_set_name(Protocol::UDP),
        },
    ]
}

pub open spec fn configure_port_forwarding_ops() -> Seq<ChainOpV> {
    create_or_reset_chain_ops("ei-ports"@) + link_tail_ops("ei-ports"@, "ei"@)
        + port_forward_rules_ops()
}

pub open spec fn badtcp_rules_ops() -> Seq<ChainOpV> {
    seq![ChainOpV::TcpFlagsDrop { chain: "ei"@ }]
}

pub open spec fn configure_badtcp_ops() -> Seq<ChainOpV> {
    create_or_reset_chain_ops("ei-badtcp"@) + link_tail_ops("ei-badtcp"@, "ei"@)
        + badtcp_rules_ops()
}

pub open spec fn docker_rules_ops() -> Seq<ChainOpV> {
    seq![
        ChainOpV::MatchSetRule {
            chain: "ei-docker"@,
            set: "ei-blacklist"@,
            dir: MatchDir::Src,
            action: RuleAction::Drop,
        },
    ]
}

pub open spec fn configure_docker_ops() -> Seq<ChainOpV> {
    create_or_reset_chain_ops("ei-docker"@) + link_tail_ops("ei-docker"@, "DOCKER-USER"@)
        + docker_rules_ops()
}

/// One unconditional drop per configured interface, in configuration order.
pub open spec fn interface_blocking_ops(ifaces: Seq<Seq<char>>) -> Seq<ChainOpV>
    decreases ifaces.len(),
{
    if ifaces.len() == 0 {
        seq![]
    } else {
        interface_blocking_ops(ifaces.drop_last()) + seq![
            ChainOpV::InterfaceDrop { chain: "ei"@, iface: ifaces.last() },
        ]
    }
}

/// The feature chains, in fixed order: port forwarding, malformed-TCP
/// rejection, containerization isolation, then interface blocking.
pub open spec fn configure_feature_ops(
    portforward: bool,
    block_badtcp: bool,
    docker: bool,
    ifaces: Seq<Seq<char>>,
) -> Seq<ChainOpV> {
    (if portforward {
        configure_port_forwarding_ops()
    } else {
        seq![]
    }) + (if block_badtcp {
        configure_badtcp_ops()
    } else {
        seq![]
    }) + (if docker {
        configure_docker_ops()
    } else {
        seq![]
    }) + interface_blocking_ops(ifaces)
}

/// The membership ops feeding the allow lists' port rules into the fixed
/// allow port sets, in rule order.
pub open spec fn whitelist_port_ops(rs: Seq<RuleV>) -> Seq<BackendOpV>
    decreases rs.len(),
{
    if rs.len() == 0 {
        seq![]
    } else {
        whitelist_port_ops(rs.drop_last()) + (match rs.last() {
            RuleV::Port(p) => seq![
                BackendOpV::Ipset(
                    IpsetOpV::Add {
                        set: whitelist_port_set_name(p.protocol),
                        member: dec_str(p.number as int),
                    },
                ),
            ],
            _ => seq![],
        })
    }
}

/// The membership ops feeding the deny list's port rules into the fixed
/// deny port sets, in rule order.
pub open spec fn blacklist_port_ops(rs: Seq<RuleV>) -> Seq<BackendOpV>
    decreases rs.len(),
{
    if rs.len() == 0 {
        seq![]
    } else {
        blacklist_port_ops(rs.drop_last()) + (match rs.last() {
            RuleV::Port(p) => seq![
                BackendOpV::Ipset(
                    IpsetOpV::Add {
                        set: blacklist_port_set_name(p.protocol),
                        member: dec_str(p.number as int),
                    },
                ),
            ],
            _ => seq![],
        })
    }
}

/// One destination accept rule per address family of each allow-tagged set,
/// in registration order.
pub open spec fn whitelist_set_match_ops(names: Seq<Seq<char>>) -> Seq<ChainOpV>
    decreases names.len(),
{
    if names.len() == 0 {
        seq![]
    } else {
        whitelist_set_match_ops(names.drop_last()) + seq![
            ChainOpV::MatchSetRule {
                chain: "ei-whitelist"@,
                set: crate::ipset::list_v4_set_name(names.last()),
                dir: MatchDir::Dst,
                action: RuleAction::Accept,
            },
            ChainOpV::MatchSetRule {
                chain: "ei-whitelist"@,
                set: crate::ipset::list_v6_set_name(names.last()),
                dir: MatchDir::Dst,
                action: RuleAction::Accept,
            },
        ]
    }
}

/// One source drop rule per address family of each deny-tagged set, in
/// registration order.
pub open spec fn blacklist_set_match_ops(names: Seq<Seq<char>>) -> Seq<ChainOpV>
    decreases names.len(),
{
    if names.len() == 0 {
        seq![]
    } else {
        blacklist_set_match_ops(names.drop_last()) + seq![
            ChainOpV::MatchSetRule {
                chain: "ei-blacklist"@,
                set: crate::ipset::list_v4_set_name(names.last()),
                dir: MatchDir::Src,
                action: RuleAction::Drop,
            },
            ChainOpV::MatchSetRule {
                chain: "ei-blacklist"@,
                set: crate::ipset::list_v6_set_name(names.last()),
                dir: MatchDir::Src,
                action: RuleAction::Drop,
            },
        ]
    }
}

/// The allow chain's plan: reset, link at the head of the root chain, feed
/// the allow port rules into their sets, then one accept rule per
/// allow-tagged set pair and for the two fixed allow port sets.
pub open spec fn whitelist_chain_ops(
    wl_rules: Seq<RuleV>,
    wl_sets: Seq<Seq<char>>,
) -> Seq<BackendOpV> {
    lift_chain_ops(create_or_reset_chain_ops("ei-whitelist"@) + link_head_ops("ei-whitelist"@, "ei"@))
        + whitelist_port_ops(wl_rules) + lift_chain_ops(
        whitelist_set_match_ops(wl_sets) + seq![
            ChainOpV::MatchSetRule {
                chain: "ei-whitelist"@,
                set: whitelist_port_set_name(Protocol::TCP),
                dir: MatchDir::Dst,
                action: RuleAction::Accept,
            },
            ChainOpV::MatchSetRule {
                chain: "ei-whitelist"@,
                set: whitelist_port_set_name(Protocol::UDP),
                dir: MatchDir::Dst,
                action: RuleAction::Accept,
            },
        ],
    )
}

/// The deny chain's plan: reset, link at the tail of the root chain, feed
/// the deny port rules into their sets, then one drop rule per deny-tagged
/// set pair.
pub open spec fn blacklist_chain_ops(
    bl_rules: Seq<RuleV>,
    bl_sets: Seq<Seq<char>>,
) -> Seq<BackendOpV> {
    lift_chain_ops(create_or_reset_chain_ops("ei-blacklist"@) + link_tail_ops("ei-blacklist"@, "ei"@))
        + blacklist_port_ops(bl_rules) + lift_chain_ops(blacklist_set_match_ops(bl_sets))
}

/// The full chain configuration of one reconciliation: the allow chain
/// first (highest priority), the deny chain second, the feature chains
/// last.
pub open spec fn configure_with_rules_ops(
    wl_rules: Seq<RuleV>,
    bl_rules: Seq<RuleV>,
    wl_sets: Seq<Seq<char>>,
    bl_sets: Seq<Seq<char>>,
    portforward: bool,
    block_badtcp: bool,
    docker: bool,
    ifaces: Seq<Seq<char>>,
) -> Seq<BackendOpV> {
    whitelist_chain_ops(wl_rules, wl_sets) + blacklist_chain_ops(bl_rules, bl_sets)
        + lift_chain_ops(configure_feature_ops(portforward, block_badtcp, docker, ifaces))
}

/// Whether an operation inserts a jump at the head of the root chain.
pub open spec fn is_root_head_link(op: BackendOpV) -> bool {
    match op {
        BackendOpV::Chain(c) => match c {
            ChainOpV::InsertJumpFirst { parent, child } => parent == "ei"@,
            _ => false,
        },
        _ => false,
    }
}

pub proof fn lemma_whitelist_port_ops_kind(rs: Seq<RuleV>)
    ensures
        forall|k: int|
            0 <= k < whitelist_port_ops(rs).len() ==> #[trigger] whitelist_port_ops(
                rs,
            )[k] is Ipset,
    decreases rs.len(),
{
    if rs.len() > 0 {
        lemma_whitelist_port_ops_kind(rs.drop_last());
    }
}

pub proof fn lemma_blacklist_port_ops_kind(rs: Seq<RuleV>)
    ensures
        forall|k: int|
            0 <= k < blacklist_port_ops(rs).len() ==> #[trigger] blacklist_port_ops(
                rs,
            )[k] is Ipset,
    decreases rs.len(),
{
    if rs.len() > 0 {
        lemma_blacklist_port_ops_kind(rs.drop_last());
    }
}

pub proof fn lemma_whitelist_match_ops_kind(names: Seq<Seq<char>>)
    ensures
        forall|k: int|
            0 <= k < whitelist_set_match_ops(names).len() ==> #[trigger] whitelist_set_match_ops(
                names,
            )[k] is MatchSetRule,
    decreases names.len(),
{
    if names.len() > 0 {
        lemma_whitelist_match_ops_kind(names.drop_last());
    }
}

pub proof fn lemma_blacklist_match_ops_kind(names: Seq<Seq<char>>)
    ensures
        forall|k: int|
            0 <= k < blacklist_set_match_ops(names).len() ==> #[trigger] blacklist_set_match_ops(
                names,
            )[k] is MatchSetRule,
    decreases names.len(),
{
    if names.len() > 0 {
        lemma_blacklist_match_ops_kind(names.drop_last());
    }
}

pub proof fn lemma_interface_ops_kind(ifaces: Seq<Seq<char>>)
    ensures
        forall|k: int|
            0 <= k < interface_blocking_ops(ifaces).len() ==> #[trigger] interface_blocking_ops(
                ifaces,
            )[k] is InterfaceDrop,
    decreases ifaces.len(),
{
    if ifaces.len() > 0 {
        lemma_interface_ops_kind(ifaces.drop_last());
    }
}

/// No feature chain links anything at the head of any chain: the features
/// only ever create, flush, tail-link, and append match or drop rules.
pub proof fn lemma_feature_ops_no_head_link(
    portforward: bool,
    block_badtcp: bool,
    docker: bool,
    ifaces: Seq<Seq<char>>,
)
    ensures
        forall|k: int|
            0 <= k < configure_feature_ops(portforward, block_badtcp, docker, ifaces).len()
                ==> !(#[trigger] configure_feature_ops(
                portforward,
                block_badtcp,
                docker,
                ifaces,
            )[k] is InsertJumpFirst),
{
    lemma_interface_ops_kind(ifaces);
    let s1: Seq<ChainOpV> = if portforward {
        configure_port_forwarding_ops()
    } else {
        seq![]
    };
    let s2: Seq<ChainOpV> = if block_badtcp {
        configure_badtcp_ops()
    } else {
        seq![]
    };
    let s3: Seq<ChainOpV> = if docker {
        configure_docker_ops()
    } else {
        seq![]
    };
    let s4 = interface_blocking_ops(ifaces);
    let s = configure_feature_ops(portforward, block_badtcp, docker, ifaces);
    assert(s == ((s1 + s2) + s3) + s4);
    assert(forall|k: int| 0 <= k < s1.len() ==> !(#[trigger] s1[k] is InsertJumpFirst));
    assert(forall|k: int| 0 <= k < s2.len() ==> !(#[trigger] s2[k] is InsertJumpFirst));
    assert(forall|k: int| 0 <= k < s3.len() ==> !(#[trigger] s3[k] is InsertJumpFirst));
    assert forall|k: int| 0 <= k < s.len() implies !(#[trigger] s[k] is InsertJumpFirst) by {
        if k < s1.len() {
            assert(s[k] == s1[k]);
        } else if k < s1.len() + s2.len() {
            assert(s[k] == s2[k - s1.len()]);
        } else if k < s1.len() + s2.len() + s3.len() {
            assert(s[k] == s3[k - s1.len() - s2.len()]);
        } else {
            assert(s[k] == s4[k - s1.len() - s2.len() - s3.len()]);
        }
    }
}

/// In the allow chain's plan the head link into the root chain stands at
/// index 3, and it is the only head link the plan holds; in the deny
/// chain's plan the tail link stands at index 3 and no head link exists at
/// all.
pub proof fn lemma_access_chain_links(
    wl_rules: Seq<RuleV>,
    bl_rules: Seq<RuleV>,
    wl_sets: Seq<Seq<char>>,
    bl_sets: Seq<Seq<char>>,
)
    ensures
        whitelist_chain_ops(wl_rules, wl_sets)[3] == BackendOpV::Chain(
            ChainOpV::InsertJumpFirst { parent: "ei"@, child: "ei-whitelist"@ },
        ),
        whitelist_chain_ops(wl_rules, wl_sets).len() > 3,
        blacklist_chain_ops(bl_rules, bl_sets)[3] == BackendOpV::Chain(
            ChainOpV::AppendJump { parent: "ei"@, child: "ei-blacklist"@ },
        ),
        blacklist_chain_ops(bl_rules, bl_sets).len() > 3,
        forall|k: int|
            0 <= k < whitelist_chain_ops(wl_rules, wl_sets).len() && is_root_head_link(
                #[trigger] whitelist_chain_ops(wl_rules, wl_sets)[k],
            ) ==> k == 3,
        forall|k: int|
            0 <= k < blacklist_chain_ops(bl_rules, bl_sets).len() ==> !is_root_head_link(
                #[trigger] blacklist_chain_ops(bl_rules, bl_sets)[k],
            ),
{
    lemma_whitelist_port_ops_kind(wl_rules);
    lemma_blacklist_port_ops_kind(bl_rules);
    lemma_whitelist_match_ops_kind(wl_sets);
    lemma_blacklist_match_ops_kind(bl_sets);
    let wl = whitelist_chain_ops(wl_rules, wl_sets);
    let wl_head = lift_chain_ops(
        create_or_reset_chain_ops("ei-whitelist"@) + link_head_ops("ei-whitelist"@, "ei"@),
    );
    let wl_ports = whitelist_port_ops(wl_rules);
    let wl_match_src = whitelist_set_match_ops(wl_sets) + seq![
        ChainOpV::MatchSetRule {
            chain: "ei-whitelist"@,
            set: whitelist_port_set_name(Protocol::TCP),
            dir: MatchDir::Dst,
            action: RuleAction::Accept,
        },
        ChainOpV::MatchSetRule {
            chain: "ei-whitelist"@,
            set: whitelist_port_set_name(Protocol::UDP),
            dir: MatchDir::Dst,
            action: RuleAction::Accept,
        },
    ];
    let wl_match = lift_chain_ops(wl_match_src);
    assert(wl == (wl_head + wl_ports) + wl_match);
    assert(wl_head.len() == 4);
    assert(wl[3] == wl_head[3]);
    assert forall|k: int| 0 <= k < wl.len() && is_root_head_link(#[trigger] wl[k]) implies k
        == 3 by {
        if k < 4 {
            assert(wl[k] == wl_head[k]);
        } else if k < 4 + wl_ports.len() {
            assert(wl[k] == wl_ports[k - 4]);
            assert(wl_ports[k - 4] is Ipset);
        } else {
            assert(wl[k] == wl_match[k - 4 - wl_ports.len()]);
            assert(wl_match_src[k - 4 - wl_ports.len()] is MatchSetRule);
        }
    }
    let bl = blacklist_chain_ops(bl_rules, bl_sets);
    let bl_head = lift_chain_ops(
        create_or_reset_chain_ops("ei-blacklist"@) + link_tail_ops("ei-blacklist"@, "ei"@),
    );
    let bl_ports = blacklist_port_ops(bl_rules);
    let bl_match_src = blacklist_set_match_ops(bl_sets);
    let bl_match = lift_chain_ops(bl_match_src);
    assert(bl == (bl_head + bl_ports) + bl_match);
    assert(bl_head.len() == 4);
    assert(bl[3] == bl_head[3]);
    assert forall|k: int| 0 <= k < bl.len() implies !is_root_head_link(#[trigger] bl[k]) by {
        if k < 4 {
            assert(bl[k] == bl_head[k]);
        } else if k < 4 + bl_ports.len() {
            assert(bl[k] == bl_ports[k - 4]);
            assert(bl_ports[k - 4] is Ipset);
        } else {
            assert(bl[k] == bl_match[k - 4 - bl_ports.len()]);
            assert(bl_match_src[k - 4 - bl_ports.len()] is MatchSetRule);
        }
    }
}

/// Move a chain-only plan to the tail of a mixed plan, keeping order.
fn push_chain_ops(out: &mut Vec<BackendOp>, ops: Vec<ChainOp>)
    ensures
        final(out).deep_view() == old(out).deep_view() + lift_chain_ops(ops.deep_view()),
{
    let ghost base = out.deep_view();
    let ghost full = ops.deep_view();
    let mut rest = ops;
    proof {
        assert(base + lift_chain_ops(full) =~= out.deep_view() + lift_chain_ops(
            rest.deep_view(),
        ));
    }
    while rest.len() > 0
        invariant
            base + lift_chain_ops(full) == out.deep_view() + lift_chain_ops(rest.deep_view()),
        decreases rest.len(),
    {
        let ghost prev_out = out.deep_view();
        let ghost prev_rest = rest.deep_view();
        let op = rest.remove(0);
        proof {
            assert(rest.deep_view() =~= prev_rest.drop_first());
            assert(op.deep_view() == prev_rest[0]);
        }
        out.push(BackendOp::Chain(op));
        proof {
            assert(out.deep_view() =~= prev_out.push(BackendOpV::Chain(prev_rest[0])));
            assert(lift_chain_ops(prev_rest) =~= seq![BackendOpV::Chain(prev_rest[0])]
                + lift_chain_ops(prev_rest.drop_first()));
            assert(out.deep_view() + lift_chain_ops(rest.deep_view()) =~= prev_out
                + lift_chain_ops(prev_rest));
        }
    }
    proof {
        assert(lift_chain_ops(rest.deep_view()) =~= Seq::<BackendOpV>::empty());
        assert(out.deep_view() =~= base + lift_chain_ops(full));
    }
}

/// Append the membership ops of an access list's port rules: into the fixed
/// allow port sets if `whitelist` holds, into the deny ones otherwise.
fn push_access_port_ops(
    out: &mut Vec<BackendOp>,
    rules: &Vec<Rule>,
    ipset: &IpsetController,
    whitelist: bool,
)
    ensures
        whitelist ==> final(out).deep_view() == old(out).deep_view() + whitelist_port_ops(
            rules.deep_view(),
        ),
        !whitelist ==> final(out).deep_view() == old(out).deep_view() + blacklist_port_ops(
            rules.deep_view(),
        ),
{
    let ghost base = out.deep_view();
    let n: usize = rules.len();
    let mut i: usize = 0;
    proof {
        assert(rules.deep_view().take(0) =~= Seq::<RuleV>::empty());
        assert(base + whitelist_port_ops(rules.deep_view().take(0)) =~= base);
        assert(base + blacklist_port_ops(rules.deep_view().take(0)) =~= base);
    }
    while i < n
        invariant
            0 <= i <= n == rules.len(),
            whitelist ==> out.deep_view() == base + whitelist_port_ops(
                rules.deep_view().take(i as int),
            ),
            !whitelist ==> out.deep_view() == base + blacklist_port_ops(
                rules.deep_view().take(i as int),
            ),
        decreases n - i,
    {
        let rule = &rules[i];
        proof {
            let dv = rules.deep_view();
            assert(dv[i as int] == rule.deep_view());
            assert(dv.take(i + 1).drop_last() =~= dv.take(i as int));
            assert(dv.take(i + 1).last() == dv[i as int]);
        }
        if let Rule::Port(port_rule) = rule {
            let ghost prev = out.deep_view();
            let op = if whitelist {
                ipset.add_to_whitelist(port_rule.number, port_rule.protocol)
            } else {
                ipset.add_to_blacklist(port_rule.number, port_rule.protocol)
            };
            out.push(BackendOp::Ipset(op));
            proof {
                assert(out.deep_view() =~= prev.push(BackendOpV::Ipset(op.deep_view())));
                if whitelist {
                    assert(out.deep_view() =~= base + whitelist_port_ops(
                        rules.deep_view().take(i + 1),
                    ));
                } else {
                    assert(out.deep_view() =~= base + blacklist_port_ops(
                        rules.deep_view().take(i + 1),
                    ));
                }
            }
        } else {
            proof {
                if whitelist {
                    assert(out.deep_view() =~= base + whitelist_port_ops(
                        rules.deep_view().take(i + 1),
                    ));
                } else {
                    assert(out.deep_view() =~= base + blacklist_port_ops(
                        rules.deep_view().take(i + 1),
                    ));
                }
            }
        }
        i = i + 1;
    }
    proof {
        assert(rules.deep_view().take(n as int) =~= rules.deep_view());
    }
}

/// The per-set match rules of one access chain, a pair per registered name.
fn build_set_match_ops(names: &Vec<String>, whitelist: bool) -> (ops: Vec<ChainOp>)
    ensures
        whitelist ==> ops.deep_view() == whitelist_set_match_ops(names.deep_view()),
        !whitelist ==> ops.deep_view() == blacklist_set_match_ops(names.deep_view()),
{
    let mut ops: Vec<ChainOp> = Vec::new();
    let n: usize = names.len();
    let mut i: usize = 0;
    proof {
        assert(names.deep_view().take(0) =~= Seq::<Seq<char>>::empty());
        assert(ops.deep_view() =~= Seq::<ChainOpV>::empty());
    }
    while i < n
        invariant
            0 <= i <= n == names.len(),
            whitelist ==> ops.deep_view() == whitelist_set_match_ops(
                names.deep_view().take(i as int),
            ),
            !whitelist ==> ops.deep_view() == blacklist_set_match_ops(
                names.deep_view().take(i as int),
            ),
        decreases n - i,
    {
        let name = &names[i];
        proof {
            let dv = names.deep_view();
            assert(dv[i as int] == name@);
            assert(dv.take(i + 1).drop_last() =~= dv.take(i as int));
            assert(dv.take(i + 1).last() == dv[i as int]);
        }
        let chain = if whitelist {
            "ei-whitelist"
        } else {
            "ei-blacklist"
        };
        let dir = if whitelist {
            MatchDir::Dst
        } else {
            MatchDir::Src
        };
        let action = if whitelist {
            RuleAction::Accept
        } else {
            RuleAction::Drop
        };
        let ghost prev = ops.deep_view();
        ops.push(ChainOp::MatchSetRule {
            chain: String::from_str(chain),
            set: crate::ipset::list_v4_set(name.as_str()),
            dir,
            action,
        });
        ops.push(ChainOp::MatchSetRule {
            chain: String::from_str(chain),
            set: crate::ipset::list_v6_set(name.as_str()),
            dir,
            action,
        });
        proof {
            if whitelist {
                assert(ops.deep_view() =~= whitelist_set_match_ops(
                    names.deep_view().take(i + 1),
                ));
            } else {
                assert(ops.deep_view() =~= blacklist_set_match_ops(
                    names.deep_view().take(i + 1),
                ));
            }
        }
        i = i + 1;
    }
    proof {
        assert(names.deep_view().take(n as int) =~= names.deep_view());
    }
    ops
}

/// The controller that derives chain plans; it holds the two address
/// families' command bases.
#[derive(Debug)]
pub struct IptablesController {
    pub cmd_v4: CmdBuilder,
    pub cmd_v6: CmdBuilder,
}

impl IptablesController {
    /// A controller whose commands run `iptables` and `ip6tables`, dry-run
    /// as given.
    pub fn new(dry_run: bool) -> (r: Self)
        ensures
            r.cmd_v4.deep_view() == (CmdBuilderV {
                program: "iptables"@,
                args: Seq::<Seq<char>>::empty(),
                dry_run,
            }),
            r.cmd_v6.deep_view() == (CmdBuilderV {
                program: "ip6tables"@,
                args: Seq::<Seq<char>>::empty(),
                dry_run,
            }),
    {
        IptablesController {
            cmd_v4: CmdBuilder::new("iptables").with_dry_run(dry_run),
            cmd_v6: CmdBuilder::new("ip6tables").with_dry_run(dry_run),
        }
    }

    /// Render one chain operation against both families: the IPv4 command
    /// first, the IPv6 command second.
    pub fn render_both(&self, op: &ChainOp) -> (r: (CmdBuilder, CmdBuilder))
        ensures
            r.0.deep_view() == (CmdBuilderV {
                args: self.cmd_v4.deep_view().args + chain_op_args(op.deep_view()),
                ..self.cmd_v4.deep_view()
            }),
            r.1.deep_view() == (CmdBuilderV {
                args: self.cmd_v6.deep_view().args + chain_op_args(op.deep_view()),
                ..self.cmd_v6.deep_view()
            }),
    {
        (op.to_cmd(&self.cmd_v4), op.to_cmd(&self.cmd_v6))
    }

    /// The plan that leaves a chain existing and empty.
    pub fn create_or_reset_chain(&self, chain_name: &str) -> (ops: Vec<ChainOp>)
        ensures
            ops.deep_view() == create_or_reset_chain_ops(chain_name@),
    {
        let mut ops: Vec<ChainOp> = Vec::new();
        ops.push(ChainOp::NewChain { chain: String::from_str(chain_name) });
        ops.push(ChainOp::Flush { chain: String::from_str(chain_name) });
        proof {
            assert(ops.deep_view() =~= create_or_reset_chain_ops(chain_name@));
        }
        ops
    }

    /// The plan that links a chain at the head of the built-in inbound and
    /// forwarding chains.
    pub fn add_chain_to_filter(&self, chain_name: &str) -> (ops: Vec<ChainOp>)
        ensures
            ops.deep_view() == seq![
                ChainOpV::InsertJumpFirst { parent: "INPUT"@, child: chain_name@ },
                ChainOpV::InsertJumpFirst { parent: "FORWARD"@, child: chain_name@ },
            ],
    {
        let mut ops: Vec<ChainOp> = Vec::new();
        ops.push(ChainOp::InsertJumpFirst {
            parent: String::from_str("INPUT"),
            child: String::from_str(chain_name),
        });
        ops.push(ChainOp::InsertJumpFirst {
            parent: String::from_str("FORWARD"),
            child: String::from_str(chain_name),
        });
        proof {
            assert(ops.deep_view() =~= seq![
                ChainOpV::InsertJumpFirst { parent: "INPUT"@, child: chain_name@ },
                ChainOpV::InsertJumpFirst { parent: "FORWARD"@, child: chain_name@ },
            ]);
        }
        ops
    }

    /// The plan that links `source_chain` at the tail of `target_chain`,
    /// idempotently.
    pub fn add_chain_to_chain(&self, source_chain: &str, target_chain: &str) -> (ops: Vec<
        ChainOp,
    >)
        ensures
            ops.deep_view() == link_tail_ops(source_chain@, target_chain@),
    {
        let mut ops: Vec<ChainOp> = Vec::new();
        ops.push(ChainOp::DeleteJump {
            parent: String::from_str(target_chain),
            child: String::from_str(source_chain),
        });
        ops.push(ChainOp::AppendJump {
            parent: String::from_str(target_chain),
            child: String::from_str(source_chain),
        });
        proof {
            assert(ops.deep_view() =~= link_tail_ops(source_chain@, target_chain@));
        }
        ops
    }

    /// The plan that links `source_chain` at the head of `target_chain`,
    /// idempotently.
    pub fn add_chain_to_chain_start(&self, source_chain: &str, target_chain: &str) -> (ops: Vec<
        ChainOp,
    >)
        ensures
            ops.deep_view() == link_head_ops(source_chain@, target_chain@),
    {
        let mut ops: Vec<ChainOp> = Vec::new();
        ops.push(ChainOp::DeleteJump {
            parent: String::from_str(target_chain),
            child: String::from_str(source_chain),
        });
        ops.push(ChainOp::InsertJumpFirst {
            parent: String::from_str(target_chain),
            child: String::from_str(source_chain),
        });
        proof {
            assert(ops.deep_view() =~= link_head_ops(source_chain@, target_chain@));
        }
        ops
    }

    /// The plan that accepts loopback traffic ahead of everything else.
    pub fn accept_loopback(&self) -> (ops: Vec<ChainOp>)
        ensures
            ops.deep_view() == seq![
                ChainOpV::InterfaceAcceptFirst { chain: "INPUT"@, iface: "lo"@ },
                ChainOpV::InterfaceAcceptFirst { chain: "FORWARD"@, iface: "lo"@ },
            ],
    {
        let mut ops: Vec<ChainOp> = Vec::new();
        ops.push(ChainOp::InterfaceAcceptFirst {
            chain: String::from_str("INPUT"),
            iface: String::from_str("lo"),
        });
        ops.push(ChainOp::InterfaceAcceptFirst {
            chain: String::from_str("FORWARD"),
            iface: String::from_str("lo"),
        });
        proof {
            assert(ops.deep_view() =~= seq![
                ChainOpV::InterfaceAcceptFirst { chain: "INPUT"@, iface: "lo"@ },
                ChainOpV::InterfaceAcceptFirst { chain: "FORWARD"@, iface: "lo"@ },
            ]);
        }
        ops
    }

    /// Initialization: root chain reset, head links into the built-in
    /// chains, loopback accepted first.
    pub fn init(&self) -> (ops: Vec<ChainOp>)
        ensures
            ops.deep_view() == init_chain_ops(),
    {
        let mut ops = self.create_or_reset_chain("ei");
        crate::append_plan(&mut ops, self.add_chain_to_filter("ei"));
        crate::append_plan(&mut ops, self.accept_loopback());
        proof {
            assert(ops.deep_view() =~= init_chain_ops());
        }
        ops
    }

    /// The unconditional drop for one blocked interface.
    pub fn block_interface(&self, interface: &str) -> (op: ChainOp)
        ensures
            op.deep_view() == (ChainOpV::InterfaceDrop { chain: "ei"@, iface: interface@ }),
    {
        ChainOp::InterfaceDrop {
            chain: String::from_str("ei"),
            iface: String::from_str(interface),
        }
    }

    /// The accept rules referencing the two fixed allowed-port sets.
    pub fn add_ipset_rules_to_ports(&self) -> (ops: Vec<ChainOp>)
        ensures
            ops.deep_view() == port_forward_rules_ops(),
    {
        let mut ops: Vec<ChainOp> = Vec::new();
        ops.push(ChainOp::ProtoPortSetRule {
            chain: String::from_str("ei-ports"),
            proto: Protocol::TCP,
            set: String::from_str(allowed_port_set(Protocol::TCP)),
        });
        ops.push(ChainOp::ProtoPortSetRule {
            chain: String::from_str("ei-ports"),
            proto: Protocol::UDP,
            set: String::from_str(allowed_port_set(Protocol::UDP)),
        });
        proof {
            assert(ops.deep_view() =~= port_forward_rules_ops());
        }
        ops
    }

    /// The malformed-TCP rejection rules.
    pub fn implement_badtcp_rules(&self) -> (ops: Vec<ChainOp>)
        ensures
            ops.deep_view() == badtcp_rules_ops(),
    {
        let mut ops: Vec<ChainOp> = Vec::new();
        ops.push(ChainOp::TcpFlagsDrop { chain: String::from_str("ei") });
        proof {
            assert(ops.deep_view() =~= badtcp_rules_ops());
        }
        ops
    }

    /// The containerization isolation rule, referencing the fixed deny set.
    pub fn implement_docker_blacklist_rules(&self) -> (ops: Vec<ChainOp>)
        ensures
            ops.deep_view() == docker_rules_ops(),
    {
        let mut ops: Vec<ChainOp> = Vec::new();
        ops.push(ChainOp::MatchSetRule {
            chain: String::from_str("ei-docker"),
            set: String::from_str("ei-blacklist"),
            dir: MatchDir::Src,
            action: RuleAction::Drop,
        });
        proof {
            assert(ops.deep_view() =~= docker_rules_ops());
        }
        ops
    }

    /// The port-forwarding feature: its chain, its tail link, its rules.
    pub fn configure_port_forwarding(&self) -> (ops: Vec<ChainOp>)
        ensures
            ops.deep_view() == configure_port_forwarding_ops(),
    {
        let mut ops = self.create_or_reset_chain("ei-ports");
        crate::append_plan(&mut ops, self.add_chain_to_chain("ei-ports", "ei"));
        crate::append_plan(&mut ops, self.add_ipset_rules_to_ports());
        proof {
            assert(ops.deep_view() =~= configure_port_forwarding_ops());
        }
        ops
    }

    /// The malformed-TCP feature: its chain, its tail link, its rules.
    pub fn configure_badtcp(&self) -> (ops: Vec<ChainOp>)
        ensures
            ops.deep_view() == configure_badtcp_ops(),
    {
        let mut ops = self.create_or_reset_chain("ei-badtcp");
        crate::append_plan(&mut ops, self.add_chain_to_chain("ei-badtcp", "ei"));
        crate::append_plan(&mut ops, self.implement_badtcp_rules());
        proof {
            assert(ops.deep_view() =~= configure_badtcp_ops());
        }
        ops
    }

    /// The containerization isolation feature, linked into the container
    /// engine's user chain.
    pub fn configure_docker_blacklist(&self) -> (ops: Vec<ChainOp>)
        ensures
            ops.deep_view() == configure_docker_ops(),
    {
        let mut ops = self.create_or_reset_chain("ei-docker");
        crate::append_plan(&mut ops, self.add_chain_to_chain("ei-docker", "DOCKER-USER"));
        crate::append_plan(&mut ops, self.implement_docker_blacklist_rules());
        proof {
            assert(ops.deep_view() =~= configure_docker_ops());
        }
        ops
    }

    /// One drop per configured interface, in configuration order.
    pub fn configure_interface_blocking(&self, interfaces: &Vec<String>) -> (ops: Vec<ChainOp>)
        ensures
            ops.deep_view() == interface_blocking_ops(interfaces.deep_view()),
    {
        let mut ops: Vec<ChainOp> = Vec::new();
        let n: usize = interfaces.len();
        let mut i: usize = 0;
        proof {
            assert(interfaces.deep_view().take(0) =~= Seq::<Seq<char>>::empty());
            assert(ops.deep_view() =~= Seq::<ChainOpV>::empty());
            assert(ops.deep_view() =~= interface_blocking_ops(interfaces.deep_view().take(0)));
        }
        while i < n
            invariant
                0 <= i <= n == interfaces.len(),
                ops.deep_view() == interface_blocking_ops(
                    interfaces.deep_view().take(i as int),
                ),
            decreases n - i,
        {
            let iface = &interfaces[i];
            proof {
                let dv = interfaces.deep_view();
                assert(dv[i as int] == iface@);
                assert(dv.take(i + 1).drop_last() =~= dv.take(i as int));
                assert(dv.take(i + 1).last() == dv[i as int]);
            }
            let ghost prev = ops.deep_view();
            ops.push(self.block_interface(iface.as_str()));
            proof {
                assert(ops.deep_view() =~= prev.push(
                    ChainOpV::InterfaceDrop { chain: "ei"@, iface: iface@ },
                ));
                assert(ops.deep_view() =~= interface_blocking_ops(
                    interfaces.deep_view().take(i + 1),
                ));
            }
            i = i + 1;
        }
        proof {
            assert(interfaces.deep_view().take(n as int) =~= interfaces.deep_view());
        }
        ops
    }

    /// The feature chains of one configuration, in fixed order.
    pub fn configure(&self, config: &Config) -> (ops: Vec<ChainOp>)
        ensures
            ops.deep_view() == configure_feature_ops(
                config.features.portforward,
                config.features.block_badtcp,
                config.docker,
                config.interfaces.deep_view(),
            ),
    {
        let mut ops: Vec<ChainOp> = Vec::new();
        if config.features.portforward {
            crate::append_plan(&mut ops, self.configure_port_forwarding());
        }
        if config.features.block_badtcp {
            crate::append_plan(&mut ops, self.configure_badtcp());
        }
        if config.docker {
            crate::append_plan(&mut ops, self.configure_docker_blacklist());
        }
        crate::append_plan(&mut ops, self.configure_interface_blocking(&config.interfaces));
        proof {
            assert(ops.deep_view() =~= configure_feature_ops(
                config.features.portforward,
                config.features.block_badtcp,
                config.docker,
                config.interfaces.deep_view(),
            ));
        }
        ops
    }

    /// The allow chain's plan for one reconciliation: highest priority,
    /// linked at the head of the root chain.
    pub fn configure_whitelist_chain(
        &self,
        rule_parser: &RuleParser,
        ipset: &IpsetController,
    ) -> (ops: Vec<BackendOp>)
        ensures
            ops.deep_view() == whitelist_chain_ops(
                rule_parser.whitelist_rules.deep_view(),
                ipset.whitelist_sets.deep_view(),
            ),
    {
        let mut ops: Vec<BackendOp> = Vec::new();
        let mut head = self.create_or_reset_chain("ei-whitelist");
        crate::append_plan(&mut head, self.add_chain_to_chain_start("ei-whitelist", "ei"));
        push_chain_ops(&mut ops, head);
        push_access_port_ops(&mut ops, rule_parser.get_whitelist_rules(), ipset, true);
        let mut matches = build_set_match_ops(ipset.get_whitelist_sets(), true);
        let ghost match_prefix = matches.deep_view();
        matches.push(ChainOp::MatchSetRule {
            chain: String::from_str("ei-whitelist"),
            set: String::from_str(crate::ipset::whitelist_port_set(Protocol::TCP)),
            dir: MatchDir::Dst,
            action: RuleAction::Accept,
        });
        matches.push(ChainOp::MatchSetRule {
            chain: String::from_str("ei-whitelist"),
            set: String::from_str(crate::ipset::whitelist_port_set(Protocol::UDP)),
            dir: MatchDir::Dst,
            action: RuleAction::Accept,
        });
        proof {
            assert(matches.deep_view() =~= match_prefix + seq![
                ChainOpV::MatchSetRule {
                    chain: "ei-whitelist"@,
                    set: whitelist_port_set_name(Protocol::TCP),
                    dir: MatchDir::Dst,
                    action: RuleAction::Accept,
                },
                ChainOpV::MatchSetRule {
                    chain: "ei-whitelist"@,
                    set: whitelist_port_set_name(Protocol::UDP),
                    dir: MatchDir::Dst,
                    action: RuleAction::Accept,
                },
            ]);
        }
        push_chain_ops(&mut ops, matches);
        proof {
            assert(ops.deep_view() =~= whitelist_chain_ops(
                rule_parser.whitelist_rules.deep_view(),
                ipset.whitelist_sets.deep_view(),
            ));
        }
        ops
    }

    /// The deny chain's plan for one reconciliation: linked at the tail of
    /// the root chain, after the allow chain.
    pub fn configure_blacklist_chain(
        &self,
        rule_parser: &RuleParser,
        ipset: &IpsetController,
    ) -> (ops: Vec<BackendOp>)
        ensures
            ops.deep_view() == blacklist_chain_ops(
                rule_parser.blacklist_rules.deep_view(),
                ipset.blacklist_sets.deep_view(),
            ),
    {
        let mut ops: Vec<BackendOp> = Vec::new();
        let mut head = self.create_or_reset_chain("ei-blacklist");
        crate::append_plan(&mut head, self.add_chain_to_chain("ei-blacklist", "ei"));
        push_chain_ops(&mut ops, head);
        push_access_port_ops(&mut ops, rule_parser.get_blacklist_rules(), ipset, false);
        let matches = build_set_match_ops(ipset.get_blacklist_sets(), false);
        push_chain_ops(&mut ops, matches);
        proof {
            assert(ops.deep_view() =~= blacklist_chain_ops(
                rule_parser.blacklist_rules.deep_view(),
                ipset.blacklist_sets.deep_view(),
            ));
        }
        ops
    }

    /// The full chain plan of one reconciliation: allow chain, deny chain,
    /// then the feature chains, in that fixed order.
    pub fn configure_with_rules(
        &self,
        config: &Config,
        rule_parser: &RuleParser,
        ipset: &IpsetController,
    ) -> (ops: Vec<BackendOp>)
        ensures
            ops.deep_view() == configure_with_rules_ops(
                rule_parser.whitelist_rules.deep_view(),
                rule_parser.blacklist_rules.deep_view(),
                ipset.whitelist_sets.deep_view(),
                ipset.blacklist_sets.deep_view(),
                config.features.portforward,
                config.features.block_badtcp,
                config.docker,
                config.interfaces.deep_view(),
            ),
    {
        let mut ops = self.configure_whitelist_chain(rule_parser, ipset);
        crate::append_plan(&mut ops, self.configure_blacklist_chain(rule_parser, ipset));
        push_chain_ops(&mut ops, self.configure(config));
        proof {
            assert(ops.deep_view() =~= configure_with_rules_ops(
                rule_parser.whitelist_rules.deep_view(),
                rule_parser.blacklist_rules.deep_view(),
                ipset.whitelist_sets.deep_view(),
                ipset.blacklist_sets.deep_view(),
                config.features.portforward,
                config.features.block_badtcp,
                config.docker,
                config.interfaces.deep_view(),
            ));
        }
        ops
    }
}

} // verus!
