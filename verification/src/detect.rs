//! Finding the installed VPN clients among their well-known install paths.
//!
//! The library names the paths to probe; the caller probes them and hands
//! back, for each path in order, whether a file exists there.

use crate::config::VpnType;
use vstd::prelude::*;
use vstd::string::StringExecFns;

verus! {

/// Whether a VPN client is installed, and where.
#[derive(Debug)]
pub struct VpnClientInfo {
    pub available: bool,
    pub path: Option<String>,
    pub vpn_type: VpnType,
}

/// The detection result for both client kinds.
#[derive(Debug)]
pub struct DetectedVpnClients {
    pub wireguard: VpnClientInfo,
    pub openvpn: VpnClientInfo,
}

/// The mathematical content of a `VpnClientInfo`.
pub struct ClientModel {
    pub available: bool,
    pub path: Option<Seq<char>>,
    pub vpn_type: VpnType,
}

impl View for VpnClientInfo {
    type V = ClientModel;

    open spec fn view(&self) -> ClientModel {
        ClientModel {
            available: self.available,
            path: self.path.deep_view(),
            vpn_type: self.vpn_type,
        }
    }
}

/// The install paths that are probed for a client kind, in order.
pub open spec fn candidates(kind: VpnType) -> Seq<Seq<char>> {
    match kind {
        VpnType::WireGuard => seq![
            r"C:\Program Files\WireGuard\wireguard.exe"@,
            r"C:\Program Files (x86)\WireGuard\wireguard.exe"@,
        ],
        VpnType::OpenVPN => seq![
            r"C:\Program Files\OpenVPN\bin\openvpn.exe"@,
            r"C:\Program Files (x86)\OpenVPN\bin\openvpn.exe"@,
            r"C:\Program Files\OpenVPN Connect\ovpncli.exe"@,
        ],
    }
}

/// Whether the probe of path `i` found a file. A path without a probe
/// counts as absent.
pub open spec fn found(probes: Seq<bool>, i: int) -> bool {
    0 <= i < probes.len() && probes[i]
}

/// The first of `paths` whose probe found a file.
pub open spec fn first_existing(paths: Seq<Seq<char>>, probes: Seq<bool>) -> Option<Seq<char>>
    decreases paths.len(),
{
    if paths.len() == 0 {
        None
    } else {
        match first_existing(paths.drop_last(), probes) {
            Some(p) => Some(p),
            None => if found(probes, paths.len() - 1) {
                Some(paths.last())
            } else {
                None
            },
        }
    }
}

/// What is reported of a client kind after its paths were probed.
pub open spec fn detected(kind: VpnType, probes: Seq<bool>) -> ClientModel {
    let path = first_existing(candidates(kind), probes);
    ClientModel { available: path is Some, path, vpn_type: kind }
}

/// `first_existing` is the path at the least index whose probe found a
/// file, and none where no probe of a path did.
pub proof fn lemma_first_existing(paths: Seq<Seq<char>>, probes: Seq<bool>)
    ensures
        match first_existing(paths, probes) {
            Some(p) => exists|i: int|
                0 <= i < paths.len() && #[trigger] found(probes, i) && paths[i] == p && forall|
                    j: int,
                |
                    0 <= j < i ==> !#[trigger] found(probes, j),
            None => forall|i: int| 0 <= i < paths.len() ==> !#[trigger] found(probes, i),
        },
    decreases paths.len(),
{
    if paths.len() > 0 {
        let d = paths.drop_last();
        lemma_first_existing(d, probes);
        match first_existing(d, probes) {
            Some(p) => {
                let i = choose|i: int|
                    0 <= i < d.len() && #[trigger] found(probes, i) && d[i] == p && forall|j: int|
                        0 <= j < i ==> !#[trigger] found(probes, j);
                assert(paths[i] == p);
            },
            None => {
                if found(probes, paths.len() - 1) {
                    assert(paths[paths.len() - 1] == paths.last());
                }
            },
        }
    }
}

/// The install paths to probe for a client kind, in order.
pub fn candidate_paths(kind: VpnType) -> (out: Vec<String>)
    ensures
        out.deep_view() == candidates(kind),
{
    let mut out: Vec<String> = Vec::new();
    match kind {
        VpnType::WireGuard => {
            out.push(String::from_str(r"C:\Program Files\WireGuard\wireguard.exe"));
            out.push(String::from_str(r"C:\Program Files (x86)\WireGuard\wireguard.exe"));
        },
        VpnType::OpenVPN => {
            out.push(String::from_str(r"C:\Program Files\OpenVPN\bin\openvpn.exe"));
            out.push(String::from_str(r"C:\Program Files (x86)\OpenVPN\bin\openvpn.exe"));
            out.push(String::from_str(r"C:\Program Files\OpenVPN Connect\ovpncli.exe"));
        },
    }
    assert(out.deep_view() =~= candidates(kind));
    out
}

/// Reports one client kind from the probes of its candidate paths:
/// `probes[i]` says whether a file exists at the path of index `i`.
pub fn detect_client(kind: VpnType, probes: &[bool]) -> (info: VpnClientInfo)
    ensures
        info@ == detected(kind, probes@),
        info.vpn_type == kind,
        info.available == info.path is Some,
        (forall|i: int| 0 <= i < probes.len() ==> !probes[i]) ==> !info.available,
{
    let paths = candidate_paths(kind);
    let ghost all = paths.deep_view();
    let mut path: Option<String> = None;
    let mut i: usize = 0;
    assert(all.take(0) == Seq::<Seq<char>>::empty());
    while i < paths.len() && path.is_none()
        invariant
            i <= paths.len(),
            all == paths.deep_view(),
            path.deep_view() == first_existing(all.take(i as int), probes@),
        decreases paths.len() - i,
    {
        assert(all.take(i + 1).drop_last() == all.take(i as int));
        assert(all.take(i + 1).last() == paths@[i as int]@);
        if i < probes.len() && probes[i] {
            path = Some(paths[i].clone());
        }
        i += 1;
    }
    proof {
        lemma_first_existing_extends(all, probes@, i as int);
        lemma_first_existing(all, probes@);
    }
    VpnClientInfo { available: path.is_some(), path, vpn_type: kind }
}

/// Once a path was found among the first `i`, it stays the first.
proof fn lemma_first_existing_extends(paths: Seq<Seq<char>>, probes: Seq<bool>, i: int)
    requires
        0 <= i <= paths.len(),
        i == paths.len() || first_existing(paths.take(i), probes) is Some,
    ensures
        first_existing(paths, probes) == first_existing(paths.take(i), probes),
    decreases paths.len() - i,
{
    if i == paths.len() {
        assert(paths.take(i) == paths);
    } else {
        assert(paths.take(i + 1).drop_last() == paths.take(i));
        lemma_first_existing_extends(paths, probes, i + 1);
    }
}

/// Reports both client kinds from the probes of their candidate paths.
pub fn detect_vpn_clients(wireguard_probes: &[bool], openvpn_probes: &[bool]) -> (out:
    DetectedVpnClients)
    ensures
        out.wireguard@ == detected(VpnType::WireGuard, wireguard_probes@),
        out.openvpn@ == detected(VpnType::OpenVPN, openvpn_probes@),
        (forall|i: int| 0 <= i < wireguard_probes.len() ==> !wireguard_probes[i])
            ==> !out.wireguard.available && out.wireguard.path is None,
        (forall|i: int| 0 <= i < openvpn_probes.len() ==> !openvpn_probes[i])
            ==> !out.openvpn.available && out.openvpn.path is None,
{
    DetectedVpnClients {
        wireguard: detect_client(VpnType::WireGuard, wireguard_probes),
        openvpn: detect_client(VpnType::OpenVPN, openvpn_probes),
    }
}

} // verus!
