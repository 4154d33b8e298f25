//! The rule model and its textual grammar.
//!
//! A rule is one of three forms:
//! - `"<port>/<protocol>"` with the port in 1..=65535 and a case-insensitive
//!   `tcp` or `udp` protocol;
//! - `"iplist:<name>"`, a reference to a named, fetchable IP list;
//! - `"ipset:<name>"`, a reference to an externally managed membership set.

use vstd::prelude::*;
use vstd::string::*;

use crate::text::{
    all_digits, dec_val, first_index, lemma_first_index, parse_port_number,
};

verus! {

/// The protocol of a port rule; no other value is representable.
#[derive(Debug, Clone, Copy, PartialEq, Eq, Structural)]
pub enum Protocol {
    TCP,
    UDP,
}

/// The canonical lowercase rendering of a protocol.
pub open spec fn protocol_text(p: Protocol) -> Seq<char> {
    match p {
        Protocol::TCP => "tcp"@,
        Protocol::UDP => "udp"@,
    }
}

/// Case-insensitive recognition of the token `tcp`.
pub open spec fn is_tcp_token(s: Seq<char>) -> bool {
    s.len() == 3 && (s[0] == 't' || s[0] == 'T') && (s[1] == 'c' || s[1] == 'C') && (s[2]
        == 'p' || s[2] == 'P')
}

/// Case-insensitive recognition of the token `udp`.
pub open spec fn is_udp_token(s: Seq<char>) -> bool {
    s.len() == 3 && (s[0] == 'u' || s[0] == 'U') && (s[1] == 'd' || s[1] == 'D') && (s[2]
        == 'p' || s[2] == 'P')
}

/// The protocol named by a token, read case-insensitively.
pub open spec fn protocol_of(s: Seq<char>) -> Option<Protocol> {
    if is_tcp_token(s) {
        Some(Protocol::TCP)
    } else if is_udp_token(s) {
        Some(Protocol::UDP)
    } else {
        None
    }
}

impl Protocol {
    /// Parse a protocol token, accepting any mix of case.
    pub fn parse(s: &str) -> (r: Result<Protocol, String>)
        ensures
            protocol_of(s@) is Some ==> r is Ok && r->Ok_0 == protocol_of(s@)->Some_0,
            protocol_of(s@) is None ==> r is Err && r->Err_0@ == "Protocol must be tcp or udp"@,
    {
        let n: usize = s.unicode_len();
        if n == 3 {
            let c0 = s.get_char(0);
            let c1 = s.get_char(1);
            let c2 = s.get_char(2);
            if (c0 == 't' || c0 == 'T') && (c1 == 'c' || c1 == 'C') && (c2 == 'p' || c2 == 'P') {
                return Ok(Protocol::TCP);
            }
            if (c0 == 'u' || c0 == 'U') && (c1 == 'd' || c1 == 'D') && (c2 == 'p' || c2 == 'P') {
                return Ok(Protocol::UDP);
            }
        }
        Err(String::from_str("Protocol must be tcp or udp"))
    }

    /// Parse a protocol token from administrative API input, accepting any
    /// mix of case. Recognizes the same tokens as [`Protocol::parse`] but
    /// reports the API surface's own diagnostic on a bad token.
    pub fn try_from_text(s: &str) -> (r: Result<Protocol, String>)
        ensures
            protocol_of(s@) is Some ==> r is Ok && r->Ok_0 == protocol_of(s@)->Some_0,
            protocol_of(s@) is None ==> r is Err && r->Err_0@ == "Invalid protocol"@,
    {
        match Protocol::parse(s) {
            Ok(p) => Ok(p),
            Err(_) => Err(String::from_str("Invalid protocol")),
        }
    }

    /// The canonical lowercase text of the protocol.
    pub fn to_text(&self) -> (r: &'static str)
        ensures
            r@ == protocol_text(*self),
    {
        match self {
            Protocol::TCP => "tcp",
            Protocol::UDP => "udp",
        }
    }
}

/// The protocol round-trips through its canonical rendering: printing a
/// protocol and parsing the text back yields the same protocol.
pub proof fn lemma_protocol_round_trip(p: Protocol)
    ensures
        protocol_of(protocol_text(p)) == Some(p),
{
    reveal_strlit("tcp");
    reveal_strlit("udp");
}

/// An allowed or denied port, with its protocol.
#[derive(Debug, Clone, Copy, PartialEq, Eq, Structural)]
pub struct PortRule {
    pub number: u16,
    pub protocol: Protocol,
}

/// The two fetch endpoints of a configured IP list.
#[derive(Debug, PartialEq, Eq)]
pub struct IpListUrls {
    pub ipv4: String,
    pub ipv6: String,
}

/// A user-configured source for a named IP list. Disabled sources resolve to
/// no provider.
#[derive(Debug, PartialEq, Eq)]
pub struct IpListConfig {
    pub urls: IpListUrls,
    pub enabled: bool,
}

/// A reference to a named IP list; an inline source overrides the named
/// lookup during resolution.
#[derive(Debug, PartialEq, Eq)]
pub struct IpListRule {
    pub name: String,
    pub config: Option<IpListConfig>,
}

/// A reference to a pre-existing, externally managed membership set.
#[derive(Debug, PartialEq, Eq)]
pub struct IpSetRule {
    pub name: String,
}

/// One firewall rule.
#[derive(Debug, PartialEq, Eq)]
pub enum Rule {
    Port(PortRule),
    IpList(IpListRule),
    IpSet(IpSetRule),
}

/// Mathematical image of `IpListUrls`.
pub ghost struct IpListUrlsV {
    pub ipv4: Seq<char>,
    pub ipv6: Seq<char>,
}

/// Mathematical image of `IpListConfig`.
pub ghost struct IpListConfigV {
    pub urls: IpListUrlsV,
    pub enabled: bool,
}

/// Mathematical image of `IpListRule`.
pub ghost struct IpListRuleV {
    pub name: Seq<char>,
    pub config: Option<IpListConfigV>,
}

/// Mathematical image of `IpSetRule`.
pub ghost struct IpSetRuleV {
    pub name: Seq<char>,
}

/// Mathematical image of `Rule`.
pub ghost enum RuleV {
    Port(PortRule),
    IpList(IpListRuleV),
    IpSet(IpSetRuleV),
}

impl DeepView for IpListUrls {
    type V = IpListUrlsV;

    open spec fn deep_view(&self) -> IpListUrlsV {
        IpListUrlsV { ipv4: self.ipv4@, ipv6: self.ipv6@ }
    }
}

impl DeepView for IpListConfig {
    type V = IpListConfigV;

    open spec fn deep_view(&self) -> IpListConfigV {
        IpListConfigV { urls: self.urls.deep_view(), enabled: self.enabled }
    }
}

impl DeepView for IpListRule {
    type V = IpListRuleV;

    open spec fn deep_view(&self) -> IpListRuleV {
        IpListRuleV { name: self.name@, config: self.config.deep_view() }
    }
}

impl DeepView for IpSetRule {
    type V = IpSetRuleV;

    open spec fn deep_view(&self) -> IpSetRuleV {
        IpSetRuleV { name: self.name@ }
    }
}

impl DeepView for Rule {
    type V = RuleV;

    open spec fn deep_view(&self) -> RuleV {
        match self {
            Rule::Port(p) => RuleV::Port(*p),
            Rule::IpList(l) => RuleV::IpList(l.deep_view()),
            Rule::IpSet(s) => RuleV::IpSet(s.deep_view()),
        }
    }
}

impl Clone for IpListUrls {
    fn clone(&self) -> (r: Self)
        ensures
            r == *self,
    {
        IpListUrls { ipv4: self.ipv4.clone(), ipv6: self.ipv6.clone() }
    }
}

impl Clone for IpListConfig {
    fn clone(&self) -> (r: Self)
        ensures
            r == *self,
    {
        IpListConfig { urls: self.urls.clone(), enabled: self.enabled }
    }
}

impl Clone for IpListRule {
    fn clone(&self) -> (r: Self)
        ensures
            r == *self,
    {
        let config = match &self.config {
            Some(c) => Some(c.clone()),
            None => None,
        };
        IpListRule { name: self.name.clone(), config }
    }
}

impl Clone for IpSetRule {
    fn clone(&self) -> (r: Self)
        ensures
            r == *self,
    {
        IpSetRule { name: self.name.clone() }
    }
}

impl Clone for Rule {
    fn clone(&self) -> (r: Self)
        ensures
            r == *self,
    {
        match self {
            Rule::Port(p) => Rule::Port(*p),
            Rule::IpList(l) => Rule::IpList(l.clone()),
            Rule::IpSet(s) => Rule::IpSet(s.clone()),
        }
    }
}

/// Whether `s` begins with the prefix `p`.
pub open spec fn starts_with(s: Seq<char>, p: Seq<char>) -> bool {
    s.len() >= p.len() && s.take(p.len() as int) == p
}

/// Whether `s` begins with the prefix `p`.
pub fn str_starts_with(s: &str, p: &str) -> (b: bool)
    ensures
        b == starts_with(s@, p@),
{
    let np: usize = p.unicode_len();
    let ns: usize = s.unicode_len();
    if ns < np {
        return false;
    }
    let mut j: usize = 0;
    while j < np
        invariant
            0 <= j <= np == p@.len(),
            np <= ns == s@.len(),
            forall|k: int| 0 <= k < j ==> s@[k] == p@[k],
        decreases np - j,
    {
        if s.get_char(j) != p.get_char(j) {
            proof {
                assert(s@.take(np as int)[j as int] != p@[j as int]);
            }
            return false;
        }
        j = j + 1;
    }
    proof {
        assert(s@.take(np as int) =~= p@);
    }
    true
}

/// The rule denoted by a rule text, if the text is well-formed.
///
/// Mirrors the grammar exactly: a text containing `/` must be a port rule
/// with exactly one separator, a valid port and a valid protocol; otherwise
/// the `iplist:`/`ipset:` prefixes demand a non-empty name.
pub open spec fn spec_parse_rule(s: Seq<char>) -> Option<RuleV> {
    let i = first_index(s, '/');
    if i >= 0 {
        let port_part = s.take(i);
        let proto_part = s.skip(i + 1);
        if first_index(proto_part, '/') >= 0 {
            None
        } else if !(port_part.len() > 0 && all_digits(port_part) && 1 <= dec_val(port_part)
            <= 65535) {
            None
        } else {
            match protocol_of(proto_part) {
                Some(p) => Some(
                    RuleV::Port(PortRule { number: dec_val(port_part) as u16, protocol: p }),
                ),
                None => None,
            }
        }
    } else if starts_with(s, "iplist:"@) {
        if s.len() > 7 {
            Some(RuleV::IpList(IpListRuleV { name: s.skip(7), config: None }))
        } else {
            None
        }
    } else if starts_with(s, "ipset:"@) {
        if s.len() > 6 {
            Some(RuleV::IpSet(IpSetRuleV { name: s.skip(6) }))
        } else {
            None
        }
    } else {
        None
    }
}

/// The diagnostic text reported for an ill-formed rule text.
pub open spec fn spec_parse_rule_error(s: Seq<char>) -> Seq<char> {
    let i = first_index(s, '/');
    if i >= 0 {
        let port_part = s.take(i);
        let proto_part = s.skip(i + 1);
        if first_index(proto_part, '/') >= 0 {
            "Invalid port format. Expected: port/protocol (e.g., 80/tcp)"@
        } else if !(port_part.len() > 0 && all_digits(port_part) && 1 <= dec_val(port_part)
            <= 65535) {
            "Invalid port number. Port must be a number between 1 and 65535."@
        } else {
            "Invalid protocol. Protocol must be tcp or udp."@
        }
    } else if starts_with(s, "iplist:"@) {
        "Invalid iplist format. Expected: iplist:<name> (e.g., iplist:cloudflare)"@
    } else if starts_with(s, "ipset:"@) {
        "Invalid ipset format. Expected: ipset:<name> (e.g., ipset:xcord)"@
    } else {
        "Invalid rule format. Valid formats are: port/protocol (e.g., 80/tcp), iplist:<name> (e.g., iplist:cloudflare), ipset:<name> (e.g., ipset:xcord)"@
    }
}

impl Rule {
    /// Parse one rule text.
    ///
    /// Succeeds exactly on the well-formed texts of the grammar, returning the
    /// denoted rule; fails on every other text with the branch's diagnostic.
    pub fn parse(s: &str) -> (r: Result<Rule, String>)
        ensures
            spec_parse_rule(s@) is Some <==> r is Ok,
            r is Ok ==> r->Ok_0.deep_view() == spec_parse_rule(s@)->Some_0,
            r is Err ==> r->Err_0@ == spec_parse_rule_error(s@),
    {
        let n: usize = s.unicode_len();
        let mut slash: Option<usize> = None;
        let mut j: usize = 0;
        loop
            invariant_except_break
                slash is None,
            invariant
                0 <= j <= n == s@.len(),
                forall|k: int| 0 <= k < j ==> s@[k] != '/',
            ensures
                slash is None ==> forall|k: int| 0 <= k < n ==> s@[k] != '/',
                slash is Some ==> {
                    let i = slash->Some_0;
                    &&& 0 <= i < n == s@.len()
                    &&& s@[i as int] == '/'
                    &&& forall|k: int| 0 <= k < i ==> s@[k] != '/'
                },
            decreases n - j,
        {
            if j >= n {
                break;
            }
            if s.get_char(j) == '/' {
                slash = Some(j);
                break;
            }
            j = j + 1;
        }
        match slash {
            Some(i) => {
                proof {
                    lemma_first_index(s@, '/', i as int);
                }
                // reject a second separator
                let mut k: usize = i + 1;
                while k < n
                    invariant
                        i < k <= n == s@.len(),
                        s@[i as int] == '/',
                        first_index(s@, '/') == i as int,
                        forall|m: int| i < m < k ==> s@[m] != '/',
                    decreases n - k,
                {
                    if s.get_char(k) == '/' {
                        proof {
                            let rest = s@.skip(i + 1);
                            assert(forall|m: int|
                                0 <= m < rest.len() ==> rest[m] == s@[m + i + 1]);
                            lemma_first_index(rest, '/', k - i - 1);
                        }
                        return Err(String::from_str(
                            "Invalid port format. Expected: port/protocol (e.g., 80/tcp)",
                        ));
                    }
                    k = k + 1;
                }
                proof {
                    let rest = s@.skip(i + 1);
                    assert(forall|m: int| 0 <= m < rest.len() ==> rest[m] == s@[m + i + 1]);
                    lemma_first_index(rest, '/', rest.len() as int);
                }
                let port_part = s.substring_char(0, i);
                let proto_part = s.substring_char(i + 1, n);
                proof {
                    assert(port_part@ =~= s@.take(i as int));
                    assert(proto_part@ =~= s@.skip(i + 1));
                }
                let number = match parse_port_number(port_part) {
                    Some(v) => v,
                    None => {
                        return Err(String::from_str(
                            "Invalid port number. Port must be a number between 1 and 65535.",
                        ));
                    },
                };
                match Protocol::parse(proto_part) {
                    Ok(protocol) => Ok(Rule::Port(PortRule { number, protocol })),
                    Err(_) => Err(String::from_str(
                        "Invalid protocol. Protocol must be tcp or udp.",
                    )),
                }
            },
            None => {
                proof {
                    lemma_first_index(s@, '/', n as int);
                }
                if str_starts_with(s, "iplist:") {
                    proof {
                        reveal_strlit("iplist:");
                    }
                    if n > 7 {
                        let name = String::from_str(s.substring_char(7, n));
                        proof {
                            assert(name@ =~= s@.skip(7));
                        }
                        Ok(Rule::IpList(IpListRule { name, config: None }))
                    } else {
                        Err(String::from_str(
                            "Invalid iplist format. Expected: iplist:<name> (e.g., iplist:cloudflare)",
                        ))
                    }
                } else if str_starts_with(s, "ipset:") {
                    proof {
                        reveal_strlit("ipset:");
                    }
                    if n > 6 {
                        let name = String::from_str(s.substring_char(6, n));
                        proof {
                            assert(name@ =~= s@.skip(6));
                        }
                        Ok(Rule::IpSet(IpSetRule { name }))
                    } else {
                        Err(String::from_str(
                            "Invalid ipset format. Expected: ipset:<name> (e.g., ipset:xcord)",
                        ))
                    }
                } else {
                    Err(String::from_str(
                        "Invalid rule format. Valid formats are: port/protocol (e.g., 80/tcp), iplist:<name> (e.g., iplist:cloudflare), ipset:<name> (e.g., ipset:xcord)",
                    ))
                }
            },
        }
    }
}

/// Parse one rule text and append the result to an already-parsed list.
///
/// On failure the list is left exactly as it was: a bad text never corrupts
/// rules parsed before it.
pub fn push_parsed(rules: &mut Vec<Rule>, s: &str) -> (r: Result<(), String>)
    ensures
        spec_parse_rule(s@) is Some <==> r is Ok,
        r is Ok ==> final(rules).deep_view() == old(rules).deep_view().push(
            spec_parse_rule(s@)->Some_0,
        ),
        r is Err ==> *final(rules) == *old(rules) && r->Err_0@ == spec_parse_rule_error(s@),
{
    match Rule::parse(s) {
        Ok(rule) => {
            let ghost prev = rules.deep_view();
            rules.push(rule);
            proof {
                assert(rules.deep_view() =~= prev.push(spec_parse_rule(s@)->Some_0));
            }
            Ok(())
        },
        Err(e) => Err(e),
    }
}

/// Whether every rule text in a sequence is well-formed.
pub open spec fn all_rules_parse(ts: Seq<Seq<char>>) -> bool {
    forall|i: int| 0 <= i < ts.len() ==> spec_parse_rule(#[trigger] ts[i]) is Some
}

/// The rules denoted by a sequence of well-formed rule texts.
pub open spec fn parsed_rules(ts: Seq<Seq<char>>) -> Seq<RuleV> {
    Seq::new(ts.len(), |i: int| spec_parse_rule(ts[i])->Some_0)
}

/// Parse a list of rule texts, failing on the first ill-formed text.
pub fn parse_rules(texts: &Vec<String>) -> (r: Result<Vec<Rule>, String>)
    ensures
        r is Ok <==> all_rules_parse(texts.deep_view()),
        r is Ok ==> r->Ok_0.deep_view() == parsed_rules(texts.deep_view()),
        r is Err ==> exists|i: int|
            0 <= i < texts.deep_view().len() && spec_parse_rule(
                #[trigger] texts.deep_view()[i],
            ) is None && r->Err_0@ == spec_parse_rule_error(texts.deep_view()[i]),
{
    let mut out: Vec<Rule> = Vec::new();
    let mut i: usize = 0;
    while i < texts.len()
        invariant
            0 <= i <= texts.len(),
            out.deep_view().len() == i as int,
            forall|j: int|
                0 <= j < i ==> spec_parse_rule(#[trigger] texts.deep_view()[j]) is Some,
            forall|j: int|
                0 <= j < i ==> out.deep_view()[j] == spec_parse_rule(
                    #[trigger] texts.deep_view()[j],
                )->Some_0,
        decreases texts.len() - i,
    {
        let ghost prev = out.deep_view();
        let text: &String = &texts[i];
        proof {
            assert(texts.deep_view()[i as int] == text@);
        }
        match push_parsed(&mut out, text.as_str()) {
            Ok(_) => {},
            Err(e) => {
                proof {
                    assert(spec_parse_rule(texts.deep_view()[i as int]) is None);
                    assert(!all_rules_parse(texts.deep_view()));
                }
                return Err(e);
            },
        }
        i = i + 1;
    }
    proof {
        assert(out.deep_view() =~= parsed_rules(texts.deep_view()));
    }
    Ok(out)
}

/// For every well-formed port rule text — one separator, a port in
/// 1..=65535, a protocol token in either case — parsing succeeds with that
/// port and protocol, and rendering the protocol back to its canonical
/// lowercase form parses to the same protocol again.
pub proof fn lemma_port_rule_round_trip(s: Seq<char>)
    requires
        ({
            let i = first_index(s, '/');
            let port_part = s.take(i);
            let proto_part = s.skip(i + 1);
            i >= 0 && first_index(proto_part, '/') < 0 && port_part.len() > 0 && all_digits(
                port_part,
            ) && 1 <= dec_val(port_part) <= 65535 && protocol_of(proto_part) is Some
        }),
    ensures
        spec_parse_rule(s) is Some,
        spec_parse_rule(s)->Some_0 is Port,
        ({
            let p = spec_parse_rule(s)->Some_0->Port_0;
            &&& p.number as int == dec_val(s.take(first_index(s, '/')))
            &&& Some(p.protocol) == protocol_of(s.skip(first_index(s, '/') + 1))
            &&& protocol_of(protocol_text(p.protocol)) == Some(p.protocol)
        }),
{
    lemma_protocol_round_trip(spec_parse_rule(s)->Some_0->Port_0.protocol);
}

/// A text whose port is out of range, or whose protocol token is not a
/// recognized one, never parses: the validation error is certain.
pub proof fn lemma_invalid_port_rule_rejected(s: Seq<char>)
    requires
        first_index(s, '/') >= 0,
        ({
            let i = first_index(s, '/');
            let port_part = s.take(i);
            let proto_part = s.skip(i + 1);
            !(port_part.len() > 0 && all_digits(port_part) && 1 <= dec_val(port_part) <= 65535)
                || protocol_of(proto_part) is None
        }),
    ensures
        spec_parse_rule(s) is None,
{
}

/// The subsequence of rules satisfying a predicate, in order.
pub open spec fn keep_rules(rs: Seq<RuleV>, pred: spec_fn(RuleV) -> bool) -> Seq<RuleV>
    decreases rs.len(),
{
    if rs.len() == 0 {
        seq![]
    } else {
        keep_rules(rs.drop_last(), pred) + (if pred(rs.last()) {
            seq![rs.last()]
        } else {
            seq![]
        })
    }
}

pub proof fn lemma_keep_rules_concat(a: Seq<RuleV>, b: Seq<RuleV>, pred: spec_fn(RuleV) -> bool)
    ensures
        keep_rules(a + b, pred) == keep_rules(a, pred) + keep_rules(b, pred),
    decreases b.len(),
{
    if b.len() == 0 {
        assert(a + b =~= a);
        assert(keep_rules(a, pred) + keep_rules(b, pred) =~= keep_rules(a, pred));
    } else {
        assert((a + b).drop_last() =~= a + b.drop_last());
        assert((a + b).last() == b.last());
        lemma_keep_rules_concat(a, b.drop_last(), pred);
        assert(keep_rules(a + b, pred) =~= keep_rules(a, pred) + keep_rules(b, pred));
    }
}

/// The IP-list rules of a rule sequence, in order.
pub open spec fn iplist_rules_of(rs: Seq<RuleV>) -> Seq<RuleV> {
    keep_rules(rs, |r: RuleV| r is IpList)
}

/// The port rules of a rule sequence, in order.
pub open spec fn port_rules_of(rs: Seq<RuleV>) -> Seq<RuleV> {
    keep_rules(rs, |r: RuleV| r is Port)
}

/// Holds the rule sequences of the two access lists of one configuration
/// snapshot: the allow list first in priority, the deny list second.
#[derive(Debug)]
pub struct RuleParser {
    pub whitelist_rules: Vec<Rule>,
    pub blacklist_rules: Vec<Rule>,
}

/// Copy a rule list.
fn clone_rules(v: &Vec<Rule>) -> (r: Vec<Rule>)
    ensures
        r.deep_view() == v.deep_view(),
{
    let r = v.clone();
    proof {
        assert forall|i: int| 0 <= i < v@.len() implies r@[i] == v@[i] by {
            assert(vstd::pervasive::cloned::<Rule>(v@[i], r@[i]));
        }
        assert(r.deep_view() =~= v.deep_view());
    }
    r
}

/// Append to `out` a copy of every rule of `src` satisfying the variant test
/// selected by `want_iplist` (IP-list rules if true, port rules if false).
fn push_kept_rules(out: &mut Vec<Rule>, src: &Vec<Rule>, want_iplist: bool)
    ensures
        want_iplist ==> final(out).deep_view() == old(out).deep_view() + iplist_rules_of(
            src.deep_view(),
        ),
        !want_iplist ==> final(out).deep_view() == old(out).deep_view() + port_rules_of(
            src.deep_view(),
        ),
{
    let ghost pred: spec_fn(RuleV) -> bool = if want_iplist {
        |r: RuleV| r is IpList
    } else {
        |r: RuleV| r is Port
    };
    let ghost base = out.deep_view();
    let n: usize = src.len();
    let mut i: usize = 0;
    proof {
        assert(src.deep_view().take(0) =~= Seq::<RuleV>::empty());
        assert(base + keep_rules(src.deep_view().take(0), pred) =~= base);
    }
    while i < n
        invariant
            0 <= i <= n == src.len(),
            out.deep_view() == base + keep_rules(src.deep_view().take(i as int), pred),
            pred == (if want_iplist {
                (|r: RuleV| r is IpList)
            } else {
                (|r: RuleV| r is Port)
            }),
        decreases n - i,
    {
        let rule = &src[i];
        proof {
            let dv = src.deep_view();
            assert(dv[i as int] == rule.deep_view());
            assert(dv.take(i + 1).drop_last() =~= dv.take(i as int));
            assert(dv.take(i + 1).last() == dv[i as int]);
        }
        let selected = if want_iplist {
            matches!(rule, Rule::IpList(_))
        } else {
            matches!(rule, Rule::Port(_))
        };
        if selected {
            let ghost prev = out.deep_view();
            out.push(rule.clone());
            proof {
                assert(out.deep_view() =~= prev.push(rule.deep_view()));
                assert(out.deep_view() =~= base + keep_rules(
                    src.deep_view().take(i + 1),
                    pred,
                ));
            }
        } else {
            proof {
                assert(out.deep_view() =~= base + keep_rules(
                    src.deep_view().take(i + 1),
                    pred,
                ));
            }
        }
        i = i + 1;
    }
    proof {
        assert(src.deep_view().take(n as int) =~= src.deep_view());
    }
}

impl RuleParser {
    /// A parser with no rules yet.
    pub fn new() -> (r: Self)
        ensures
            r.whitelist_rules.deep_view() == Seq::<RuleV>::empty(),
            r.blacklist_rules.deep_view() == Seq::<RuleV>::empty(),
    {
        let r = RuleParser { whitelist_rules: Vec::new(), blacklist_rules: Vec::new() };
        proof {
            assert(r.whitelist_rules.deep_view() =~= Seq::<RuleV>::empty());
            assert(r.blacklist_rules.deep_view() =~= Seq::<RuleV>::empty());
        }
        r
    }

    /// Take a configuration's two rule lists. An enabled list is copied
    /// verbatim, order preserved; a disabled one contributes nothing and
    /// leaves the previously held sequence in place.
    pub fn parse_config(&mut self, config: &crate::config::Config)
        ensures
            final(self).whitelist_rules.deep_view() == (if config.whitelist.enabled {
                config.whitelist.rules.deep_view()
            } else {
                old(self).whitelist_rules.deep_view()
            }),
            final(self).blacklist_rules.deep_view() == (if config.blacklist.enabled {
                config.blacklist.rules.deep_view()
            } else {
                old(self).blacklist_rules.deep_view()
            }),
    {
        if config.whitelist.enabled {
            self.whitelist_rules = clone_rules(&config.whitelist.rules);
        }
        if config.blacklist.enabled {
            self.blacklist_rules = clone_rules(&config.blacklist.rules);
        }
    }

    /// The allow list's rules, in configuration order.
    pub fn get_whitelist_rules(&self) -> (r: &Vec<Rule>)
        ensures
            r.deep_view() == self.whitelist_rules.deep_view(),
    {
        &self.whitelist_rules
    }

    /// The deny list's rules, in configuration order.
    pub fn get_blacklist_rules(&self) -> (r: &Vec<Rule>)
        ensures
            r.deep_view() == self.blacklist_rules.deep_view(),
    {
        &self.blacklist_rules
    }

    /// Every IP-list rule of both lists, allow list first, without
    /// deduplication: a name referenced twice resolves twice.
    pub fn get_iplist_rules(&self) -> (r: Vec<Rule>)
        ensures
            r.deep_view() == iplist_rules_of(
                self.whitelist_rules.deep_view() + self.blacklist_rules.deep_view(),
            ),
    {
        let mut out: Vec<Rule> = Vec::new();
        push_kept_rules(&mut out, &self.whitelist_rules, true);
        push_kept_rules(&mut out, &self.blacklist_rules, true);
        proof {
            lemma_keep_rules_concat(
                self.whitelist_rules.deep_view(),
                self.blacklist_rules.deep_view(),
                |r: RuleV| r is IpList,
            );
            assert(out.deep_view() =~= iplist_rules_of(
                self.whitelist_rules.deep_view() + self.blacklist_rules.deep_view(),
            ));
        }
        out
    }

    /// Every port rule of both lists, allow list first.
    pub fn get_port_rules(&self) -> (r: Vec<Rule>)
        ensures
            r.deep_view() == port_rules_of(
                self.whitelist_rules.deep_view() + self.blacklist_rules.deep_view(),
            ),
    {
        let mut out: Vec<Rule> = Vec::new();
        push_kept_rules(&mut out, &self.whitelist_rules, false);
        push_kept_rules(&mut out, &self.blacklist_rules, false);
        proof {
            lemma_keep_rules_concat(
                self.whitelist_rules.deep_view(),
                self.blacklist_rules.deep_view(),
                |r: RuleV| r is Port,
            );
            assert(out.deep_view() =~= port_rules_of(
                self.whitelist_rules.deep_view() + self.blacklist_rules.deep_view(),
            ));
        }
        out
    }
}

/// Validate a port argument: a decimal number that is not zero.
pub fn port_in_range(s: &str) -> (r: Result<u16, String>)
    ensures
        s@.len() > 0 && all_digits(s@) && 1 <= dec_val(s@) <= 65535 ==> r is Ok
            && r->Ok_0 as int == dec_val(s@),
        s@.len() > 0 && all_digits(s@) && dec_val(s@) == 0 ==> r is Err && r->Err_0@
            == "Port cannot be 0"@,
        !(s@.len() > 0 && all_digits(s@) && dec_val(s@) <= 65535) ==> r is Err && r->Err_0@
            == "Port must be a number"@,
{
    match crate::text::parse_u16(s) {
        Some(v) => {
            if v == 0 {
                Err(String::from_str("Port cannot be 0"))
            } else {
                Ok(v)
            }
        },
        None => Err(String::from_str("Port must be a number")),
    }
}

/// Validate a protocol argument, returning its canonical lowercase text.
pub fn parse_protocol(s: &str) -> (r: Result<String, String>)
    ensures
        protocol_of(s@) is Some ==> r is Ok && r->Ok_0@ == protocol_text(
            protocol_of(s@)->Some_0,
        ),
        protocol_of(s@) is None ==> r is Err && r->Err_0@
            == "Protocol must be either 'tcp' or 'udp'"@,
{
    match Protocol::parse(s) {
        Ok(p) => Ok(String::from_str(p.to_text())),
        Err(_) => Err(String::from_str("Protocol must be either 'tcp' or 'udp'")),
    }
}

} // verus!
