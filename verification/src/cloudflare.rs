//! The built-in provider with hard-coded sources.

use vstd::prelude::*;
use vstd::string::*;

use crate::ipset::{list_v4_set, list_v4_set_name, list_v6_set, list_v6_set_name};

verus! {

/// The built-in list of a well-known network's published ranges.
#[derive(Debug, PartialEq, Eq)]
pub struct CloudflareList {
    pub name: String,
}

impl CloudflareList {
    /// The built-in list under its fixed name.
    pub fn new() -> (r: Self)
        ensures
            r.name@ == "cloudflare"@,
    {
        CloudflareList { name: String::from_str("cloudflare") }
    }

    /// The list's name.
    pub fn name(&self) -> (r: &str)
        ensures
            r@ == self.name@,
    {
        self.name.as_str()
    }

    /// The derived IPv4 membership set of this list.
    pub fn ipv4_set_name(&self) -> (r: String)
        ensures
            r@ == list_v4_set_name(self.name@),
    {
        list_v4_set(self.name.as_str())
    }

    /// The derived IPv6 membership set of this list.
    pub fn ipv6_set_name(&self) -> (r: String)
        ensures
            r@ == list_v6_set_name(self.name@),
    {
        list_v6_set(self.name.as_str())
    }

    /// The fixed endpoint publishing the IPv4 ranges.
    pub fn ipv4_url(&self) -> (r: &'static str)
        ensures
            r@ == "https://www.cloudflare.com/ips-v4"@,
    {
        "https://www.cloudflare.com/ips-v4"
    }

    /// The fixed endpoint publishing the IPv6 ranges.
    pub fn ipv6_url(&self) -> (r: &'static str)
        ensures
            r@ == "https://www.cloudflare.com/ips-v6"@,
    {
        "https://www.cloudflare.com/ips-v6"
    }
}

} // verus!
