//! The configuration snapshot that drives one reconciliation.

use vstd::prelude::*;
use vstd::string::*;

use crate::rules::{IpListConfig, IpListConfigV, Rule, RuleV};

verus! {

/// Listen address of the administrative HTTP surface.
#[derive(Debug)]
pub struct ServerConfig {
    pub host: String,
    pub port: u16,
}

/// Optional firewall features.
#[derive(Debug, Clone, Copy, PartialEq, Eq, Structural)]
pub struct FeaturesConfig {
    pub portforward: bool,
    pub block_badtcp: bool,
}

/// One access list: an ordered rule sequence, applied only when enabled.
#[derive(Debug)]
pub struct AccessListConfig {
    pub enabled: bool,
    pub rules: Vec<Rule>,
}

/// A full configuration snapshot, treated as immutable for the duration of
/// one reconciliation.
#[derive(Debug)]
pub struct Config {
    pub server: ServerConfig,
    pub features: FeaturesConfig,
    pub whitelist: AccessListConfig,
    pub blacklist: AccessListConfig,
    pub docker: bool,
    pub interfaces: Vec<String>,
    pub iplists: Vec<(String, IpListConfig)>,
}

/// Command-line overrides applied on top of a loaded configuration.
#[derive(Debug)]
pub struct CliConfig {
    pub host: Option<String>,
    pub port: Option<u16>,
    pub portforward: Option<bool>,
    pub block_badtcp: Option<bool>,
    pub docker: Option<bool>,
    pub interfaces: Option<Vec<String>>,
}

/// Mathematical image of `ServerConfig`.
pub ghost struct ServerConfigV {
    pub host: Seq<char>,
    pub port: u16,
}

/// Mathematical image of `AccessListConfig`.
pub ghost struct AccessListConfigV {
    pub enabled: bool,
    pub rules: Seq<RuleV>,
}

/// Mathematical image of `Config`.
pub ghost struct ConfigV {
    pub server: ServerConfigV,
    pub features: FeaturesConfig,
    pub whitelist: AccessListConfigV,
    pub blacklist: AccessListConfigV,
    pub docker: bool,
    pub interfaces: Seq<Seq<char>>,
    pub iplists: Seq<(Seq<char>, IpListConfigV)>,
}

impl DeepView for ServerConfig {
    type V = ServerConfigV;

    open spec fn deep_view(&self) -> ServerConfigV {
        ServerConfigV { host: self.host@, port: self.port }
    }
}

impl DeepView for AccessListConfig {
    type V = AccessListConfigV;

    open spec fn deep_view(&self) -> AccessListConfigV {
        AccessListConfigV { enabled: self.enabled, rules: self.rules.deep_view() }
    }
}

impl DeepView for Config {
    type V = ConfigV;

    open spec fn deep_view(&self) -> ConfigV {
        ConfigV {
            server: self.server.deep_view(),
            features: self.features,
            whitelist: self.whitelist.deep_view(),
            blacklist: self.blacklist.deep_view(),
            docker: self.docker,
            interfaces: self.interfaces.deep_view(),
            iplists: self.iplists.deep_view(),
        }
    }
}

impl Default for ServerConfig {
    /// The default listen address.
    fn default() -> (r: Self)
        ensures
            r.host@ == "127.0.0.1"@,
            r.port == 8990,
    {
        ServerConfig { host: String::from_str("127.0.0.1"), port: 8990 }
    }
}

impl Default for FeaturesConfig {
    /// All optional features off.
    fn default() -> (r: Self)
        ensures
            !r.portforward,
            !r.block_badtcp,
    {
        FeaturesConfig { portforward: false, block_badtcp: false }
    }
}

impl Default for AccessListConfig {
    /// A disabled list with no rules.
    fn default() -> (r: Self)
        ensures
            !r.enabled,
            r.rules.deep_view() == Seq::<RuleV>::empty(),
    {
        let r = AccessListConfig { enabled: false, rules: Vec::new() };
        proof {
            assert(r.rules.deep_view() =~= Seq::<RuleV>::empty());
        }
        r
    }
}

impl Default for Config {
    /// The configuration written when none exists yet: default server
    /// address, no features, two disabled empty lists, nothing else.
    fn default() -> (r: Self)
        ensures
            r.server.host@ == "127.0.0.1"@,
            r.server.port == 8990,
            !r.features.portforward,
            !r.features.block_badtcp,
            !r.whitelist.enabled,
            r.whitelist.rules.deep_view() == Seq::<RuleV>::empty(),
            !r.blacklist.enabled,
            r.blacklist.rules.deep_view() == Seq::<RuleV>::empty(),
            !r.docker,
            r.interfaces.deep_view() == Seq::<Seq<char>>::empty(),
            r.iplists.deep_view() == Seq::<(Seq<char>, IpListConfigV)>::empty(),
    {
        let r = Config {
            server: ServerConfig::default(),
            features: FeaturesConfig::default(),
            whitelist: AccessListConfig::default(),
            blacklist: AccessListConfig::default(),
            docker: false,
            interfaces: Vec::new(),
            iplists: Vec::new(),
        };
        proof {
            assert(r.interfaces.deep_view() =~= Seq::<Seq<char>>::empty());
            assert(r.iplists.deep_view() =~= Seq::<(Seq<char>, IpListConfigV)>::empty());
        }
        r
    }
}

impl Config {
    /// Overlay command-line arguments: every given option replaces the
    /// corresponding field, every absent one leaves it untouched.
    pub fn update_from_cli(&mut self, cli_config: CliConfig)
        ensures
            final(self).server.host@ == (match cli_config.host {
                Some(h) => h@,
                None => old(self).server.host@,
            }),
            final(self).server.port == (match cli_config.port {
                Some(p) => p,
                None => old(self).server.port,
            }),
            final(self).features.portforward == (match cli_config.portforward {
                Some(b) => b,
                None => old(self).features.portforward,
            }),
            final(self).features.block_badtcp == (match cli_config.block_badtcp {
                Some(b) => b,
                None => old(self).features.block_badtcp,
            }),
            final(self).docker == (match cli_config.docker {
                Some(b) => b,
                None => old(self).docker,
            }),
            final(self).interfaces.deep_view() == (match cli_config.interfaces {
                Some(v) => v.deep_view(),
                None => old(self).interfaces.deep_view(),
            }),
            final(self).whitelist == old(self).whitelist,
            final(self).blacklist == old(self).blacklist,
            final(self).iplists == old(self).iplists,
    {
        let CliConfig { host, port, portforward, block_badtcp, docker, interfaces } = cli_config;
        if let Some(h) = host {
            self.server.host = h;
        }
        if let Some(p) = port {
            self.server.port = p;
        }
        if let Some(b) = portforward {
            self.features.portforward = b;
        }
        if let Some(b) = block_badtcp {
            self.features.block_badtcp = b;
        }
        if let Some(b) = docker {
            self.docker = b;
        }
        if let Some(v) = interfaces {
            self.interfaces = v;
        }
    }

    /// Look up a named IP-list source; the first entry with the name wins.
    pub fn find_iplist(&self, name: &str) -> (r: Option<&IpListConfig>)
        ensures
            r is Some <==> spec_find_iplist(self.iplists.deep_view(), name@) is Some,
            r is Some ==> r->Some_0.deep_view() == spec_find_iplist(
                self.iplists.deep_view(),
                name@,
            )->Some_0,
    {
        find_iplist_in(&self.iplists, name)
    }
}

/// The first source registered under a name, if any.
pub open spec fn spec_find_iplist(
    entries: Seq<(Seq<char>, IpListConfigV)>,
    name: Seq<char>,
) -> Option<IpListConfigV>
    decreases entries.len(),
{
    if entries.len() == 0 {
        None
    } else if entries[0].0 == name {
        Some(entries[0].1)
    } else {
        spec_find_iplist(entries.drop_first(), name)
    }
}

/// Look up a named IP-list source in a list of entries; first match wins.
pub fn find_iplist_in<'a>(
    entries: &'a Vec<(String, IpListConfig)>,
    name: &str,
) -> (r: Option<&'a IpListConfig>)
    ensures
        r is Some <==> spec_find_iplist(entries.deep_view(), name@) is Some,
        r is Some ==> r->Some_0.deep_view() == spec_find_iplist(
            entries.deep_view(),
            name@,
        )->Some_0,
{
    let n: usize = entries.len();
    let mut i: usize = 0;
    proof {
        assert(entries.deep_view().skip(0) =~= entries.deep_view());
    }
    while i < n
        invariant
            0 <= i <= n == entries.len(),
            spec_find_iplist(entries.deep_view(), name@) == spec_find_iplist(
                entries.deep_view().skip(i as int),
                name@,
            ),
        decreases n - i,
    {
        let entry = &entries[i];
        proof {
            let dv = entries.deep_view();
            assert(dv.skip(i as int)[0] == dv[i as int]);
            assert(dv[i as int] == entry.deep_view());
            assert(dv.skip(i as int).drop_first() =~= dv.skip(i + 1));
        }
        if crate::text::str_eq(entry.0.as_str(), name) {
            return Some(&entry.1);
        }
        i = i + 1;
    }
    proof {
        assert(entries.deep_view().skip(n as int) =~= Seq::<(Seq<char>, IpListConfigV)>::empty());
    }
    None
}

} // verus!
