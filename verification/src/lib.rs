//! Host firewall rule engine: a typed rule model with a textual grammar,
//! named IP-list resolution, and plan-generating backend controllers for
//! membership sets and rule chains.
//!
//! The library computes everything that can be decided in memory: parsing,
//! resolution, and the exact, ordered sequences of backend operations that a
//! reconciliation must apply. Executing those operations (and fetching list
//! bodies over the network) is left to the surrounding program.

pub mod cloudflare;
pub mod cmd;
pub mod config;
pub mod error;
pub mod iplist;
pub mod ipset;
pub mod iptables;
pub mod reconcile;
pub mod resolver;
pub mod rules;
pub mod text;

use vstd::prelude::*;

verus! {

/// Append one plan segment to a plan, keeping order.
pub fn append_plan<T: DeepView>(dst: &mut Vec<T>, src: Vec<T>)
    ensures
        final(dst).deep_view() == old(dst).deep_view() + src.deep_view(),
        final(dst)@.len() == old(dst)@.len() + src@.len(),
{
    let mut s = src;
    let ghost pd = dst.deep_view();
    let ghost ps = s.deep_view();
    dst.append(&mut s);
    proof {
        assert(dst.deep_view() =~= pd + ps);
    }
}

} // verus!
