//! Recognising and reading VPN configuration files.
//!
//! A configuration is classified by the markers its text holds, then read
//! line by line: each line is trimmed and matched by its prefix. Keys are
//! only tested for presence; their values are never captured.

use crate::text::{
    contains, equals, find_char, from_chars, has_prefix, has_substring, index_of, is_trimmed,
    is_whitespace, join, joined, lemma_joined_has_part, lemma_prefix_of_trimmed, lemma_run_length,
    lemma_substring_in_concat, lemma_tokens_nonempty, lemma_trimmed_lines_are_trimmed, lines_of,
    occurs_at, push_chars, split_lines, split_whitespace, starts_with, str_views, to_chars,
    tokens_of, trim, trim_lines, trim_start, trimmed, trimmed_lines, trimmed_lines_of,
    trimmed_start, views,
};
use vstd::prelude::*;
use vstd::slice::slice_subrange;
use vstd::string::StringExecFns;

verus! {

/// The VPN protocol family of a configuration or a connection.
#[derive(Debug, Clone, Copy, PartialEq, Eq, Structural)]
pub enum VpnType {
    WireGuard,
    OpenVPN,
}

/// What was read from a configuration file.
#[derive(Debug)]
pub struct VpnConfigInfo {
    pub vpn_type: VpnType,
    pub endpoint: Option<String>,
    pub dns: Option<String>,
    pub address: Option<String>,
    pub is_valid: bool,
    pub error: Option<String>,
}

/// The mathematical content of a `VpnConfigInfo`.
pub struct ConfigModel {
    pub vpn_type: VpnType,
    pub endpoint: Option<Seq<char>>,
    pub dns: Option<Seq<char>>,
    pub address: Option<Seq<char>>,
    pub is_valid: bool,
    pub error: Option<Seq<char>>,
}

impl View for VpnConfigInfo {
    type V = ConfigModel;

    open spec fn view(&self) -> ConfigModel {
        ConfigModel {
            vpn_type: self.vpn_type,
            endpoint: self.endpoint.deep_view(),
            dns: self.dns.deep_view(),
            address: self.address.deep_view(),
            is_valid: self.is_valid,
            error: self.error.deep_view(),
        }
    }
}

// ---------------------------------------------------------------------------
// Lines by prefix
// ---------------------------------------------------------------------------

/// Whether some line of `ls` begins with `prefix`.
pub open spec fn any_with_prefix(ls: Seq<Seq<char>>, prefix: Seq<char>) -> bool {
    exists|i: int| 0 <= i < ls.len() && has_prefix(#[trigger] ls[i], prefix)
}

/// The first line of `ls` that begins with `prefix`.
pub open spec fn first_with_prefix(ls: Seq<Seq<char>>, prefix: Seq<char>) -> Option<Seq<char>>
    decreases ls.len(),
{
    if ls.len() == 0 {
        None
    } else {
        match first_with_prefix(ls.drop_last(), prefix) {
            Some(l) => Some(l),
            None => if has_prefix(ls.last(), prefix) {
                Some(ls.last())
            } else {
                None
            },
        }
    }
}

/// The last line of `ls` that begins with `prefix`.
pub open spec fn last_with_prefix(ls: Seq<Seq<char>>, prefix: Seq<char>) -> Option<Seq<char>>
    decreases ls.len(),
{
    if ls.len() == 0 {
        None
    } else if has_prefix(ls.last(), prefix) {
        Some(ls.last())
    } else {
        last_with_prefix(ls.drop_last(), prefix)
    }
}

/// `first_with_prefix` finds a line exactly when one begins with the
/// prefix, and no line before the one it finds does.
pub proof fn lemma_first_with_prefix(ls: Seq<Seq<char>>, prefix: Seq<char>)
    ensures
        first_with_prefix(ls, prefix) is Some <==> any_with_prefix(ls, prefix),
        first_with_prefix(ls, prefix) matches Some(l) ==> exists|i: int|
            0 <= i < ls.len() && #[trigger] ls[i] == l && has_prefix(l, prefix) && forall|j: int|
                0 <= j < i ==> !has_prefix(#[trigger] ls[j], prefix),
    decreases ls.len(),
{
    if ls.len() > 0 {
        let d = ls.drop_last();
        lemma_first_with_prefix(d, prefix);
        match first_with_prefix(d, prefix) {
            Some(l) => {
                let i = choose|i: int|
                    0 <= i < d.len() && #[trigger] d[i] == l && has_prefix(l, prefix) && forall|
                        j: int,
                    |
                        0 <= j < i ==> !has_prefix(#[trigger] d[j], prefix);
                assert(ls[i] == l);
                assert forall|j: int| 0 <= j < i implies !has_prefix(#[trigger] ls[j], prefix) by {
                    assert(ls[j] == d[j]);
                }
            },
            None => {
                assert forall|j: int| 0 <= j < d.len() implies !has_prefix(
                    #[trigger] ls[j],
                    prefix,
                ) by {
                    assert(ls[j] == d[j]);
                }
                if has_prefix(ls.last(), prefix) {
                    assert(ls[ls.len() - 1] == ls.last());
                }
            },
        }
    }
}

/// `last_with_prefix` finds a line exactly when one begins with the prefix,
/// and no line after the one it finds does.
pub proof fn lemma_last_with_prefix(ls: Seq<Seq<char>>, prefix: Seq<char>)
    ensures
        last_with_prefix(ls, prefix) is Some <==> any_with_prefix(ls, prefix),
        last_with_prefix(ls, prefix) matches Some(l) ==> exists|i: int|
            0 <= i < ls.len() && #[trigger] ls[i] == l && has_prefix(l, prefix) && forall|j: int|
                i < j < ls.len() ==> !has_prefix(#[trigger] ls[j], prefix),
    decreases ls.len(),
{
    if ls.len() > 0 {
        let d = ls.drop_last();
        lemma_last_with_prefix(d, prefix);
        if has_prefix(ls.last(), prefix) {
            assert(ls[ls.len() - 1] == ls.last());
        } else {
            match last_with_prefix(d, prefix) {
                Some(l) => {
                    let i = choose|i: int|
                        0 <= i < d.len() && #[trigger] d[i] == l && has_prefix(l, prefix)
                            && forall|j: int|
                            i < j < d.len() ==> !has_prefix(#[trigger] d[j], prefix);
                    assert(ls[i] == l);
                    assert forall|j: int| i < j < ls.len() implies !has_prefix(
                        #[trigger] ls[j],
                        prefix,
                    ) by {
                        if j < d.len() {
                            assert(ls[j] == d[j]);
                        }
                    }
                },
                None => {
                    assert forall|j: int| 0 <= j < ls.len() implies !has_prefix(
                        #[trigger] ls[j],
                        prefix,
                    ) by {
                        if j < d.len() {
                            assert(ls[j] == d[j]);
                        }
                    }
                },
            }
        }
    }
}

/// How `any_with_prefix` grows by one line.
proof fn lemma_any_with_prefix_step(ls: Seq<Seq<char>>, prefix: Seq<char>, i: int)
    requires
        0 <= i < ls.len(),
    ensures
        any_with_prefix(ls.take(i + 1), prefix) == (any_with_prefix(ls.take(i), prefix)
            || has_prefix(ls[i], prefix)),
{
    let a = ls.take(i);
    let b = ls.take(i + 1);
    if any_with_prefix(a, prefix) {
        let j = choose|j: int| 0 <= j < a.len() && has_prefix(#[trigger] a[j], prefix);
        assert(b[j] == a[j]);
    }
    if has_prefix(ls[i], prefix) {
        assert(b[i] == ls[i]);
    }
    if any_with_prefix(b, prefix) {
        let j = choose|j: int| 0 <= j < b.len() && has_prefix(#[trigger] b[j], prefix);
        if j < i {
            assert(a[j] == b[j]);
        }
    }
}

// ---------------------------------------------------------------------------
// Values on a line
// ---------------------------------------------------------------------------

/// The text after the first `=` of `line`, trimmed; none without a `=`.
pub open spec fn assigned_value(line: Seq<char>) -> Option<Seq<char>> {
    let i = find_char(line, '=');
    if i < line.len() {
        Some(trimmed(line.skip(i as int + 1)))
    } else {
        None
    }
}

/// The value that the last line beginning with `key` assigns.
pub open spec fn setting(ls: Seq<Seq<char>>, key: Seq<char>) -> Option<Seq<char>> {
    match last_with_prefix(ls, key) {
        Some(l) => assigned_value(l),
        None => None,
    }
}

/// The port of an OpenVPN server where a `remote` line names none.
pub open spec fn default_port() -> Seq<char> {
    "1194"@
}

/// `host:port` from the tokens of a `remote` line: the host is the second
/// token, the port the third, or the default port where there is no third.
pub open spec fn remote_endpoint(line: Seq<char>) -> Option<Seq<char>> {
    let t = tokens_of(line);
    if t.len() >= 2 {
        Some(
            t[1] + seq![':'] + (if t.len() >= 3 {
                t[2]
            } else {
                default_port()
            }),
        )
    } else {
        None
    }
}

/// The last token of `line`.
pub open spec fn last_token(line: Seq<char>) -> Option<Seq<char>> {
    let t = tokens_of(line);
    if t.len() > 0 {
        Some(t.last())
    } else {
        None
    }
}

/// Whether `line` opens an inline certificate block or names a certificate
/// file.
pub open spec fn is_ca_line(line: Seq<char>) -> bool {
    line == "<ca>"@ || has_prefix(line, "ca "@)
}

/// Whether some line of `ls` is a certificate line.
pub open spec fn has_ca_line(ls: Seq<Seq<char>>) -> bool {
    exists|i: int| 0 <= i < ls.len() && is_ca_line(#[trigger] ls[i])
}

/// Reads the value that `line` assigns.
pub fn read_assigned(line: &[char]) -> (out: Option<String>)
    ensures
        out.deep_view() == assigned_value(line@),
{
    let n = index_of(line, 0, '=');
    assert(line@.skip(0) == line@);
    if n < line.len() {
        let value = trim(slice_subrange(line, n + 1, line.len()));
        Some(from_chars(value))
    } else {
        None
    }
}

/// Reads `host:port` from a `remote` line.
pub fn read_remote(line: &[char]) -> (out: Option<String>)
    ensures
        out.deep_view() == remote_endpoint(line@),
{
    let parts = split_whitespace(line);
    if parts.len() >= 2 {
        assert(views(parts@)[1] == parts@[1]@);
        let mut endpoint = from_chars(parts[1].as_slice());
        endpoint.push(':');
        if parts.len() >= 3 {
            assert(views(parts@)[2] == parts@[2]@);
            push_chars(&mut endpoint, parts[2].as_slice());
        } else {
            endpoint.append("1194");
        }
        Some(endpoint)
    } else {
        None
    }
}

/// Reads the last token of `line`.
pub fn read_last_token(line: &[char]) -> (out: Option<String>)
    ensures
        out.deep_view() == last_token(line@),
{
    let parts = split_whitespace(line);
    if parts.len() > 0 {
        assert(views(parts@).last() == parts@[parts.len() - 1]@);
        Some(from_chars(parts[parts.len() - 1].as_slice()))
    } else {
        None
    }
}

// ---------------------------------------------------------------------------
// Diagnostics
// ---------------------------------------------------------------------------

/// The diagnostic that lists the required fields that were not found.
pub open spec fn missing_fields_error(names: Seq<Seq<char>>) -> Seq<char> {
    "Missing required fields: "@ + joined(names, ", "@)
}

/// The diagnostic for text in neither format.
pub open spec fn unknown_format_error() -> Seq<char> {
    "Unknown VPN configuration format. Expected WireGuard (.conf) or OpenVPN (.ovpn)"@
}

/// The names `present` leaves out, in order: `names[i]` is listed exactly
/// when `present[i]` is false.
pub open spec fn missing_names(names: Seq<Seq<char>>, present: Seq<bool>) -> Seq<Seq<char>>
    decreases names.len(),
{
    if names.len() == 0 || present.len() != names.len() {
        Seq::empty()
    } else {
        missing_names(names.drop_last(), present.drop_last()) + (if present.last() {
            Seq::empty()
        } else {
            seq![names.last()]
        })
    }
}

/// The required fields of a WireGuard configuration.
pub open spec fn wireguard_fields() -> Seq<Seq<char>> {
    seq!["PrivateKey"@, "PublicKey"@, "Endpoint"@]
}

/// The required fields of an OpenVPN configuration.
pub open spec fn openvpn_fields() -> Seq<Seq<char>> {
    seq!["remote server"@, "CA certificate"@]
}

/// Builds the diagnostic for the names that `present` leaves out.
fn missing_fields_message(names: &Vec<&str>, present: &Vec<bool>) -> (out: String)
    requires
        names.len() == present.len(),
    ensures
        out@ == missing_fields_error(missing_names(str_views(names@), present@)),
{
    let mut missing: Vec<&str> = Vec::new();
    let mut i: usize = 0;
    let ghost all = str_views(names@);
    assert(all.take(0) == Seq::<Seq<char>>::empty());
    assert(str_views(missing@) == Seq::<Seq<char>>::empty());
    while i < names.len()
        invariant
            i <= names.len(),
            names.len() == present.len(),
            all == str_views(names@),
            str_views(missing@) == missing_names(all.take(i as int), present@.take(i as int)),
        decreases names.len() - i,
    {
        assert(all.take(i + 1).drop_last() == all.take(i as int));
        assert(present@.take(i + 1).drop_last() == present@.take(i as int));
        let ghost before = str_views(missing@);
        if !present[i] {
            missing.push(names[i]);
            assert(str_views(missing@) == before + seq![names@[i as int]@]);
        } else {
            assert(before + Seq::<Seq<char>>::empty() == before);
        }
        i += 1;
    }
    assert(all.take(names.len() as int) == all);
    assert(present@.take(present.len() as int) == present@);
    let mut out = String::from_str("Missing required fields: ");
    let list = join(&missing, ", ");
    out.append(list.as_str());
    out
}

// ---------------------------------------------------------------------------
// WireGuard
// ---------------------------------------------------------------------------

/// What a WireGuard configuration with the trimmed lines `ls` holds.
///
/// `Endpoint`, `DNS` and `Address` take the value of the last line that
/// begins with the key. The configuration is valid when a line begins with
/// `PrivateKey`, one with `PublicKey`, and an endpoint was found.
pub open spec fn wireguard_model(ls: Seq<Seq<char>>) -> ConfigModel {
    let endpoint = setting(ls, "Endpoint"@);
    let has_private_key = any_with_prefix(ls, "PrivateKey"@);
    let has_public_key = any_with_prefix(ls, "PublicKey"@);
    let is_valid = has_private_key && has_public_key && endpoint is Some;
    ConfigModel {
        vpn_type: VpnType::WireGuard,
        endpoint,
        dns: setting(ls, "DNS"@),
        address: setting(ls, "Address"@),
        is_valid,
        error: if is_valid {
            None
        } else {
            Some(
                missing_fields_error(
                    missing_names(
                        wireguard_fields(),
                        seq![has_private_key, has_public_key, endpoint is Some],
                    ),
                ),
            )
        },
    }
}

/// Reads a WireGuard configuration from its trimmed lines.
fn wireguard_from_lines(lines: &Vec<Vec<char>>) -> (info: VpnConfigInfo)
    ensures
        info@ == wireguard_model(views(lines@)),
{
    let ghost ls = views(lines@);
    let mut endpoint: Option<String> = None;
    let mut dns: Option<String> = None;
    let mut address: Option<String> = None;
    let mut has_private_key = false;
    let mut has_public_key = false;
    let mut i: usize = 0;
    assert(ls.take(0) == Seq::<Seq<char>>::empty());
    while i < lines.len()
        invariant
            i <= lines.len(),
            ls == views(lines@),
            endpoint.deep_view() == setting(ls.take(i as int), "Endpoint"@),
            dns.deep_view() == setting(ls.take(i as int), "DNS"@),
            address.deep_view() == setting(ls.take(i as int), "Address"@),
            has_private_key == any_with_prefix(ls.take(i as int), "PrivateKey"@),
            has_public_key == any_with_prefix(ls.take(i as int), "PublicKey"@),
        decreases lines.len() - i,
    {
        let line = lines[i].as_slice();
        proof {
            assert(ls[i as int] == line@);
            assert(ls.take(i + 1).drop_last() == ls.take(i as int));
            assert(ls.take(i + 1).last() == line@);
            lemma_any_with_prefix_step(ls, "PrivateKey"@, i as int);
            lemma_any_with_prefix_step(ls, "PublicKey"@, i as int);
        }
        if starts_with(line, "Endpoint") {
            endpoint = read_assigned(line);
        }
        if starts_with(line, "DNS") {
            dns = read_assigned(line);
        }
        if starts_with(line, "Address") {
            address = read_assigned(line);
        }
        if starts_with(line, "PrivateKey") {
            has_private_key = true;
        }
        if starts_with(line, "PublicKey") {
            has_public_key = true;
        }
        i += 1;
    }
    assert(ls.take(lines.len() as int) == ls);
    let has_endpoint = endpoint.is_some();
    let is_valid = has_private_key && has_public_key && has_endpoint;
    let error = if is_valid {
        None
    } else {
        let names: Vec<&str> = vec!["PrivateKey", "PublicKey", "Endpoint"];
        let present: Vec<bool> = vec![has_private_key, has_public_key, has_endpoint];
        assert(str_views(names@) == wireguard_fields());
        assert(present@ == seq![has_private_key, has_public_key, has_endpoint]);
        Some(missing_fields_message(&names, &present))
    };
    VpnConfigInfo { vpn_type: VpnType::WireGuard, endpoint, dns, address, is_valid, error }
}

/// Reads a WireGuard configuration.
pub fn parse_wireguard_config(content: &str) -> (info: VpnConfigInfo)
    ensures
        info@ == wireguard_model(trimmed_lines_of(content@)),
{
    let chars = to_chars(content);
    let lines = trimmed_lines(chars.as_slice());
    wireguard_from_lines(&lines)
}

// ---------------------------------------------------------------------------
// OpenVPN
// ---------------------------------------------------------------------------

/// What an OpenVPN configuration with the trimmed lines `ls` holds.
///
/// The endpoint comes from the first line that begins with `remote `, the
/// DNS server is the last token of the last line that begins with
/// `dhcp-option DNS`. The configuration is valid when an endpoint was found
/// and some line is a certificate line.
pub open spec fn openvpn_model(ls: Seq<Seq<char>>) -> ConfigModel {
    let endpoint = match first_with_prefix(ls, "remote "@) {
        Some(l) => remote_endpoint(l),
        None => None,
    };
    let dns = match last_with_prefix(ls, "dhcp-option DNS"@) {
        Some(l) => last_token(l),
        None => None,
    };
    let has_ca = has_ca_line(ls);
    let is_valid = endpoint is Some && has_ca;
    ConfigModel {
        vpn_type: VpnType::OpenVPN,
        endpoint,
        dns,
        address: None,
        is_valid,
        error: if is_valid {
            None
        } else {
            Some(
                missing_fields_error(
                    missing_names(openvpn_fields(), seq![endpoint is Some, has_ca]),
                ),
            )
        },
    }
}

/// How `has_ca_line` grows by one line.
proof fn lemma_has_ca_line_step(ls: Seq<Seq<char>>, i: int)
    requires
        0 <= i < ls.len(),
    ensures
        has_ca_line(ls.take(i + 1)) == (has_ca_line(ls.take(i)) || is_ca_line(ls[i])),
{
    let a = ls.take(i);
    let b = ls.take(i + 1);
    if has_ca_line(a) {
        let j = choose|j: int| 0 <= j < a.len() && is_ca_line(#[trigger] a[j]);
        assert(b[j] == a[j]);
    }
    if is_ca_line(ls[i]) {
        assert(b[i] == ls[i]);
    }
    if has_ca_line(b) {
        let j = choose|j: int| 0 <= j < b.len() && is_ca_line(#[trigger] b[j]);
        if j < i {
            assert(a[j] == b[j]);
        }
    }
}

/// Reads an OpenVPN configuration from its trimmed lines.
fn openvpn_from_lines(lines: &Vec<Vec<char>>) -> (info: VpnConfigInfo)
    ensures
        info@ == openvpn_model(views(lines@)),
{
    let ghost ls = views(lines@);
    let mut endpoint: Option<String> = None;
    let mut remote_seen = false;
    let mut dns: Option<String> = None;
    let mut has_ca = false;
    let mut i: usize = 0;
    assert(ls.take(0) == Seq::<Seq<char>>::empty());
    while i < lines.len()
        invariant
            i <= lines.len(),
            ls == views(lines@),
            remote_seen == first_with_prefix(ls.take(i as int), "remote "@) is Some,
            endpoint.deep_view() == match first_with_prefix(ls.take(i as int), "remote "@) {
                Some(l) => remote_endpoint(l),
                None => None,
            },
            dns.deep_view() == match last_with_prefix(ls.take(i as int), "dhcp-option DNS"@) {
                Some(l) => last_token(l),
                None => None,
            },
            has_ca == has_ca_line(ls.take(i as int)),
        decreases lines.len() - i,
    {
        let line = lines[i].as_slice();
        proof {
            assert(ls[i as int] == line@);
            assert(ls.take(i + 1).drop_last() == ls.take(i as int));
            assert(ls.take(i + 1).last() == line@);
            lemma_has_ca_line_step(ls, i as int);
        }
        if !remote_seen && starts_with(line, "remote ") {
            endpoint = read_remote(line);
            remote_seen = true;
        }
        if starts_with(line, "dhcp-option DNS") {
            dns = read_last_token(line);
        }
        if equals(line, "<ca>") || starts_with(line, "ca ") {
            has_ca = true;
        }
        i += 1;
    }
    assert(ls.take(lines.len() as int) == ls);
    let has_endpoint = endpoint.is_some();
    let is_valid = has_endpoint && has_ca;
    let error = if is_valid {
        None
    } else {
        let names: Vec<&str> = vec!["remote server", "CA certificate"];
        let present: Vec<bool> = vec![has_endpoint, has_ca];
        assert(str_views(names@) == openvpn_fields());
        assert(present@ == seq![has_endpoint, has_ca]);
        Some(missing_fields_message(&names, &present))
    };
    VpnConfigInfo { vpn_type: VpnType::OpenVPN, endpoint, dns, address: None, is_valid, error }
}

/// Reads an OpenVPN configuration.
pub fn parse_openvpn_config(content: &str) -> (info: VpnConfigInfo)
    ensures
        info@ == openvpn_model(trimmed_lines_of(content@)),
{
    let chars = to_chars(content);
    let lines = trimmed_lines(chars.as_slice());
    openvpn_from_lines(&lines)
}

// ---------------------------------------------------------------------------
// Classification
// ---------------------------------------------------------------------------

/// Whether `content` holds both section markers of a WireGuard
/// configuration.
pub open spec fn is_wireguard(content: Seq<char>) -> bool {
    has_substring(content, "[Interface]"@) && has_substring(content, "[Peer]"@)
}

/// Whether some line of `ls`, trimmed at its start, begins with `prefix`.
pub open spec fn any_starting_with(ls: Seq<Seq<char>>, prefix: Seq<char>) -> bool {
    exists|i: int| 0 <= i < ls.len() && has_prefix(trimmed_start(#[trigger] ls[i]), prefix)
}

/// Whether `content` holds the word `client` and either the opener of an
/// inline certificate block or a line that, after the white space at its
/// start, begins with `remote `.
pub open spec fn is_openvpn(content: Seq<char>) -> bool {
    has_substring(content, "client"@) && (has_substring(content, "<ca>"@) || any_starting_with(
        lines_of(content),
        "remote "@,
    ))
}

/// What is reported of text in neither format.
pub open spec fn unknown_model() -> ConfigModel {
    ConfigModel {
        vpn_type: VpnType::WireGuard,
        endpoint: None,
        dns: None,
        address: None,
        is_valid: false,
        error: Some(unknown_format_error()),
    }
}

/// What `content` holds: WireGuard wins over OpenVPN, and text in neither
/// format is invalid.
pub open spec fn config_model(content: Seq<char>) -> ConfigModel {
    if is_wireguard(content) {
        wireguard_model(trimmed_lines_of(content))
    } else if is_openvpn(content) {
        openvpn_model(trimmed_lines_of(content))
    } else {
        unknown_model()
    }
}

/// Tests whether some line, trimmed at its start, begins with `prefix`.
fn any_line_starts_with(lines: &Vec<Vec<char>>, prefix: &str) -> (b: bool)
    ensures
        b == any_starting_with(views(lines@), prefix@),
{
    let ghost ls = views(lines@);
    let mut i: usize = 0;
    while i < lines.len()
        invariant
            i <= lines.len(),
            ls == views(lines@),
            forall|j: int| 0 <= j < i ==> !has_prefix(trimmed_start(#[trigger] ls[j]), prefix@),
        decreases lines.len() - i,
    {
        assert(ls[i as int] == lines@[i as int]@);
        if starts_with(trim_start(lines[i].as_slice()), prefix) {
            return true;
        }
        i += 1;
    }
    false
}

/// Classifies a configuration file by its text and reads it.
pub fn parse_vpn_config(content: String) -> (info: VpnConfigInfo)
    ensures
        info@ == config_model(content@),
        is_wireguard(content@) ==> info.vpn_type == VpnType::WireGuard,
        !is_wireguard(content@) && is_openvpn(content@) ==> info.vpn_type == VpnType::OpenVPN,
        !is_wireguard(content@) && !is_openvpn(content@) ==> !info.is_valid
            && info.error.deep_view() == Some(unknown_format_error()),
        info.is_valid <==> info.error is None,
        info.is_valid ==> info.endpoint is Some,
{
    let chars = to_chars(content.as_str());
    let text = chars.as_slice();
    let lines = split_lines(text);
    if contains(text, "[Interface]") && contains(text, "[Peer]") {
        wireguard_from_lines(&trim_lines(&lines))
    } else if contains(text, "client") && (contains(text, "<ca>") || any_line_starts_with(
        &lines,
        "remote ",
    )) {
        openvpn_from_lines(&trim_lines(&lines))
    } else {
        unknown_config()
    }
}

/// The record for text in neither format.
fn unknown_config() -> (info: VpnConfigInfo)
    ensures
        info@ == unknown_model(),
{
    VpnConfigInfo {
        vpn_type: VpnType::WireGuard,
        endpoint: None,
        dns: None,
        address: None,
        is_valid: false,
        error: Some(
            String::from_str(
                "Unknown VPN configuration format. Expected WireGuard (.conf) or OpenVPN (.ovpn)",
            ),
        ),
    }
}

// ---------------------------------------------------------------------------
// What holds of every configuration
// ---------------------------------------------------------------------------

/// A required field that was not found is among the missing names.
pub proof fn lemma_missing_names_has(names: Seq<Seq<char>>, present: Seq<bool>, i: int)
    requires
        names.len() == present.len(),
        0 <= i < names.len(),
        !present[i],
    ensures
        exists|j: int|
            0 <= j < missing_names(names, present).len() && #[trigger] missing_names(
                names,
                present,
            )[j] == names[i],
    decreases names.len(),
{
    let all = missing_names(names, present);
    let before = missing_names(names.drop_last(), present.drop_last());
    if i == names.len() - 1 {
        assert(all[before.len() as int] == names[i]);
    } else {
        lemma_missing_names_has(names.drop_last(), present.drop_last(), i);
        let j = choose|j: int| 0 <= j < before.len() && #[trigger] before[j] == names[i];
        assert(all[j] == before[j]);
    }
}

/// The diagnostic names every required field that was not found.
pub proof fn lemma_missing_field_is_named(names: Seq<Seq<char>>, present: Seq<bool>, i: int)
    requires
        names.len() == present.len(),
        0 <= i < names.len(),
        !present[i],
    ensures
        has_substring(missing_fields_error(missing_names(names, present)), names[i]),
{
    lemma_missing_names_has(names, present, i);
    let all = missing_names(names, present);
    let j = choose|j: int| 0 <= j < all.len() && #[trigger] all[j] == names[i];
    lemma_joined_has_part(all, ", "@, j);
    lemma_substring_in_concat("Missing required fields: "@, joined(all, ", "@), names[i]);
}

/// A WireGuard configuration is invalid exactly when a required field was
/// not found, and its diagnostic then names each such field.
pub proof fn lemma_wireguard_diagnostic(ls: Seq<Seq<char>>)
    ensures
        wireguard_model(ls).is_valid <==> wireguard_model(ls).error is None,
        wireguard_model(ls).is_valid <==> any_with_prefix(ls, "PrivateKey"@) && any_with_prefix(
            ls,
            "PublicKey"@,
        ) && wireguard_model(ls).endpoint is Some,
        !any_with_prefix(ls, "PrivateKey"@) ==> wireguard_model(ls).error is Some && has_substring(
            wireguard_model(ls).error->0,
            "PrivateKey"@,
        ),
        !any_with_prefix(ls, "PublicKey"@) ==> wireguard_model(ls).error is Some && has_substring(
            wireguard_model(ls).error->0,
            "PublicKey"@,
        ),
        wireguard_model(ls).endpoint is None ==> wireguard_model(ls).error is Some
            && has_substring(wireguard_model(ls).error->0, "Endpoint"@),
{
    let present = seq![
        any_with_prefix(ls, "PrivateKey"@),
        any_with_prefix(ls, "PublicKey"@),
        wireguard_model(ls).endpoint is Some,
    ];
    if !present[0] {
        lemma_missing_field_is_named(wireguard_fields(), present, 0);
    }
    if !present[1] {
        lemma_missing_field_is_named(wireguard_fields(), present, 1);
    }
    if !present[2] {
        lemma_missing_field_is_named(wireguard_fields(), present, 2);
    }
}

/// A trimmed line that begins with `remote ` has a second token, so it
/// names an endpoint.
pub proof fn lemma_remote_line_names_endpoint(line: Seq<char>)
    requires
        is_trimmed(line),
        has_prefix(line, "remote "@),
    ensures
        tokens_of(line).len() >= 2,
        remote_endpoint(line) is Some,
{
    reveal_strlit("remote ");
    let p = "remote "@;
    assert(p.len() == 7);
    assert forall|i: int| 0 <= i < 7 implies line[i] == p[i] by {
        assert(line.subrange(0, 7)[i] == line[i]);
    }
    assert(!is_whitespace(p[0]) && !is_whitespace(p[1]) && !is_whitespace(p[2]) && !is_whitespace(
        p[3],
    ) && !is_whitespace(p[4]) && !is_whitespace(p[5]) && is_whitespace(p[6]));
    lemma_run_length(line, false, 6);
    let rest = line.skip(6);
    assert(rest[line.len() - 7] == line.last());
    lemma_tokens_nonempty(rest, line.len() - 7);
}

/// An OpenVPN configuration has an endpoint exactly when one of its lines
/// begins with `remote `, and is invalid exactly when that line or the
/// certificate line is missing; its diagnostic then names what is missing.
pub proof fn lemma_openvpn_diagnostic(content: Seq<char>)
    ensures
        ({
            let ls = trimmed_lines_of(content);
            let model = openvpn_model(ls);
            &&& model.endpoint is Some <==> any_with_prefix(ls, "remote "@)
            &&& model.is_valid <==> any_with_prefix(ls, "remote "@) && has_ca_line(ls)
            &&& model.is_valid <==> model.error is None
            &&& !any_with_prefix(ls, "remote "@) ==> model.error is Some && has_substring(
                model.error->0,
                "remote server"@,
            )
            &&& !has_ca_line(ls) ==> model.error is Some && has_substring(
                model.error->0,
                "CA certificate"@,
            )
        }),
{
    let ls = trimmed_lines_of(content);
    let model = openvpn_model(ls);
    lemma_first_with_prefix(ls, "remote "@);
    lemma_trimmed_lines_are_trimmed(content);
    match first_with_prefix(ls, "remote "@) {
        Some(l) => {
            lemma_remote_line_names_endpoint(l);
        },
        None => {},
    }
    let present = seq![model.endpoint is Some, has_ca_line(ls)];
    if !present[0] {
        lemma_missing_field_is_named(openvpn_fields(), present, 0);
    }
    if !present[1] {
        lemma_missing_field_is_named(openvpn_fields(), present, 1);
    }
}

/// The diagnostic for text in neither format names both formats.
pub proof fn lemma_unknown_format_names_both()
    ensures
        has_substring(unknown_format_error(), "WireGuard"@),
        has_substring(unknown_format_error(), "OpenVPN"@),
{
    reveal_strlit(
        "Unknown VPN configuration format. Expected WireGuard (.conf) or OpenVPN (.ovpn)",
    );
    reveal_strlit("WireGuard");
    reveal_strlit("OpenVPN");
    let m = unknown_format_error();
    assert(m.subrange(43, 52) == "WireGuard"@);
    assert(occurs_at(m, "WireGuard"@, 43));
    assert(m.subrange(64, 71) == "OpenVPN"@);
    assert(occurs_at(m, "OpenVPN"@, 64));
}

/// A line that begins with `remote ` once trimmed classifies as a line
/// that begins with `remote ` after the white space at its start.
pub proof fn lemma_remote_line_classifies(content: Seq<char>)
    requires
        any_with_prefix(trimmed_lines_of(content), "remote "@),
    ensures
        any_starting_with(lines_of(content), "remote "@),
{
    let ls = trimmed_lines_of(content);
    let i = choose|i: int| 0 <= i < ls.len() && has_prefix(#[trigger] ls[i], "remote "@);
    lemma_prefix_of_trimmed(lines_of(content)[i], "remote "@);
}

/// Text that holds the word `client` and a line that reads `remote ` and
/// more once trimmed, and not both WireGuard markers, is read as an OpenVPN
/// configuration with the endpoint of that line.
pub proof fn lemma_openvpn_by_remote_line(content: Seq<char>)
    requires
        has_substring(content, "client"@),
        any_with_prefix(trimmed_lines_of(content), "remote "@),
        !is_wireguard(content),
    ensures
        is_openvpn(content),
        config_model(content).vpn_type == VpnType::OpenVPN,
        config_model(content).endpoint is Some,
{
    lemma_remote_line_classifies(content);
    lemma_openvpn_diagnostic(content);
}

/// Text that holds the word `client` and either the opener of a certificate
/// block or a line that begins with `remote ` after the white space at its
/// start, and not both WireGuard markers, is read as an OpenVPN
/// configuration, whether or not the line names a server.
pub proof fn lemma_openvpn_classified(content: Seq<char>)
    requires
        has_substring(content, "client"@),
        has_substring(content, "<ca>"@) || any_starting_with(lines_of(content), "remote "@),
        !is_wireguard(content),
    ensures
        config_model(content).vpn_type == VpnType::OpenVPN,
{
}

} // verus!
