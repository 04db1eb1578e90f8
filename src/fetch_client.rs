//! The generic HTTP pass-through's options and its proxy choice.
use vstd::prelude::*;
use std::collections::HashMap;
use crate::dynamo::types::opt_text;

verus! {

/// How to reach the network: whether certificates are checked, and an explicit proxy.
pub struct Agent {
    pub ssl: bool,
    pub http_proxy: Option<String>,
}

/// An HTTP request to pass through.
pub struct FetchApiOptions {
    pub method: String,
    pub headers: HashMap<String, String>,
    pub body: Option<String>,
    pub agent: Agent,
}

/// The proxy to use: an explicit non-empty one, else the system's.
pub open spec fn proxy_choice(explicit: Option<Seq<char>>, system: Option<Seq<char>>) -> Option<Seq<char>> {
    match explicit {
        Some(p) => if p.len() > 0 {
            Some(p)
        } else {
            system
        },
        None => system,
    }
}

/// Picks the proxy (see `proxy_choice`); the system proxy is read by the caller.
pub fn get_proxy(http_proxy: Option<String>, system_proxy: Option<String>) -> (r: Option<String>)
    ensures
        opt_text(r) == proxy_choice(opt_text(http_proxy), opt_text(system_proxy)),
{
    match http_proxy {
        Some(p) => if p.as_str().unicode_len() > 0 {
            Some(p)
        } else {
            system_proxy
        },
        None => system_proxy,
    }
}

/// The message for a passed-through response.
pub fn fetch_message(is_success: bool) -> (r: &'static str)
    ensures
        r@ == (if is_success {
            "Success"@
        } else {
            "Failed to fetch API"@
        }),
{
    if is_success {
        "Success"
    } else {
        "Failed to fetch API"
    }
}

} // verus!
