//! The stream proxy: where a proxied stream will be served.

use vstd::prelude::*;
use vstd::string::StringExecFns;

verus! {

/// The character of a decimal digit.
pub open spec fn digit(d: nat) -> char
    recommends
        d < 10,
{
    (48 + d) as char
}

/// The decimal numeral of `n`, without leading zeros.
pub open spec fn decimal(n: nat) -> Seq<char>
    decreases n,
{
    if n < 10 {
        seq![digit(n)]
    } else {
        decimal(n / 10).push(digit(n % 10))
    }
}

/// Appends the decimal numeral of `n` to `out`.
pub fn push_decimal(out: &mut String, n: u16)
    ensures
        final(out)@ == old(out)@ + decimal(n as nat),
    decreases n,
{
    if n >= 10 {
        push_decimal(out, n / 10);
    }
    let d: u8 = (n % 10) as u8;
    out.push((48 + d) as char);
    assert(((48 + d) as char) == digit((n % 10) as nat));
    if n >= 10 {
        assert(old(out)@ + decimal((n / 10) as nat).push(digit((n % 10) as nat)) == (old(out)@
            + decimal((n / 10) as nat)).push(digit((n % 10) as nat)));
    } else {
        assert(old(out)@ + seq![digit(n as nat)] == old(out)@.push(digit(n as nat)));
    }
}

/// The address at which the stream proxied on `port` is served.
pub open spec fn hls_url(port: u16) -> Seq<char> {
    "http://localhost:"@ + decimal(port as nat) + "/stream/index.m3u8"@
}

/// What is reported of a stream proxy that was asked for.
#[derive(Debug)]
pub struct StreamProxy {
    pub hls_url: String,
    pub status: String,
}

/// Reports the stream proxy on `output_port`. No proxy is started yet: the
/// report names the address and says that the proxy is pending.
pub fn start_stream_proxy(output_port: u16) -> (proxy: StreamProxy)
    ensures
        proxy.hls_url@ == hls_url(output_port),
        proxy.status@ == "pending_implementation"@,
{
    let mut hls_url = String::from_str("http://localhost:");
    push_decimal(&mut hls_url, output_port);
    hls_url.append("/stream/index.m3u8");
    StreamProxy { hls_url, status: String::from_str("pending_implementation") }
}

} // verus!
