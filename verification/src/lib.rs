//! The decisions of a desktop streaming client's backend: reading VPN
//! configurations, finding VPN clients, steering a tunnel through connect,
//! disconnect and status, and shaping HTTP responses. The library computes
//! on plain values; running processes and sending requests is the caller's
//! part.

use vstd::prelude::*;
use vstd::string::StringExecFns;

pub mod config;
pub mod connection;
pub mod detect;
pub mod http;
pub mod session;
pub mod stream;
pub mod text;

pub use crate::config::{VpnConfigInfo, VpnType};
pub use crate::connection::{VpnStatus, VpnStatusInfo};
pub use crate::detect::{DetectedVpnClients, VpnClientInfo};
pub use crate::http::HttpResponse;

verus! {

/// The greeting for `name`.
pub open spec fn greeting(name: Seq<char>) -> Seq<char> {
    "Hello, "@ + name + "! Welcome to ClaudeTV!"@
}

/// Greets `name`.
pub fn greet(name: &str) -> (out: String)
    ensures
        out@ == greeting(name@),
{
    let mut out = String::from_str("Hello, ");
    out.append(name);
    out.append("! Welcome to ClaudeTV!");
    out
}

} // verus!
