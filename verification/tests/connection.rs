use stream_backend::config::VpnType;
use stream_backend::connection::{
    binary_path_of, disconnect_warning, judge_launch, openvpn_is_running, service_is_running,
    service_name_of, str_contains, tunnel_name_for, tunnel_name_from_stem, Command, ErrorKind,
    LaunchVerdict, ProcessOutput, VpnError, VpnStatus, VpnStatusInfo,
};

fn output(success: bool, stdout: &str, stderr: &str) -> ProcessOutput {
    ProcessOutput { success, stdout: stdout.to_string(), stderr: stderr.to_string() }
}

#[test]
fn status_records() {
    let info = VpnStatusInfo::connected(VpnType::WireGuard, "wg0".to_string());
    assert_eq!(info.status, VpnStatus::Connected);
    assert_eq!(info.vpn_type, Some(VpnType::WireGuard));
    assert_eq!(info.tunnel_name.as_deref(), Some("wg0"));
    assert_eq!(info.error, None);
    let info = VpnStatusInfo::disconnected();
    assert_eq!(info.status, VpnStatus::Disconnected);
    assert_eq!(info.vpn_type, None);
    assert_eq!(info.tunnel_name, None);
    assert_eq!(info.error, None);
}

#[test]
fn error_not_installed() {
    let e = VpnError::not_installed(VpnType::WireGuard);
    assert_eq!(e.kind, ErrorKind::NotFound);
    assert_eq!(
        e.message,
        "WireGuard is not installed. Please install WireGuard from https://www.wireguard.com/install/"
    );
    let e = VpnError::not_installed(VpnType::OpenVPN);
    assert_eq!(e.kind, ErrorKind::NotFound);
    assert_eq!(
        e.message,
        "OpenVPN is not installed. Please install OpenVPN from https://openvpn.net/community-downloads/"
    );
}

#[test]
fn error_cancelled() {
    let e = VpnError::cancelled();
    assert_eq!(e.kind, ErrorKind::PermissionDenied);
    assert_eq!(e.message, "Connection cancelled. Administrator privileges are required.");
}

#[test]
fn error_external_failures() {
    let e = VpnError::client_failed(VpnType::WireGuard, "boom");
    assert_eq!(e.kind, ErrorKind::ExternalFailure);
    assert_eq!(e.message, "WireGuard failed: boom");
    let e = VpnError::client_failed(VpnType::OpenVPN, "bad option");
    assert_eq!(e.message, "OpenVPN failed: bad option");
    let e = VpnError::start_failed(VpnType::WireGuard, "program not found");
    assert_eq!(e.kind, ErrorKind::ExternalFailure);
    assert_eq!(e.message, "Failed to start WireGuard: program not found");
    let e = VpnError::start_failed(VpnType::OpenVPN, "x");
    assert_eq!(e.message, "Failed to start OpenVPN: x");
    let e = VpnError::stop_failed(VpnType::WireGuard, "x");
    assert_eq!(e.kind, ErrorKind::ExternalFailure);
    assert_eq!(e.message, "Failed to stop WireGuard: x");
    let e = VpnError::stop_failed(VpnType::OpenVPN, "y");
    assert_eq!(e.message, "Failed to stop OpenVPN: y");
}

#[test]
fn tunnel_name_is_the_stem_or_the_default() {
    assert_eq!(tunnel_name_from_stem(Some("wg0".to_string())), "wg0");
    assert_eq!(tunnel_name_from_stem(Some(String::new())), "");
    assert_eq!(tunnel_name_from_stem(None), "claudetv_vpn");
}

#[test]
fn tunnel_name_for_a_path() {
    assert_eq!(tunnel_name_for("/etc/wireguard/wg0.conf"), "wg0");
    assert_eq!(tunnel_name_for("office.vpn.conf"), "office.vpn");
    assert_eq!(tunnel_name_for("dir/noext"), "noext");
    assert_eq!(tunnel_name_for(""), "claudetv_vpn");
    assert_eq!(tunnel_name_for("/"), "claudetv_vpn");
    assert_eq!(tunnel_name_for("a/.."), "claudetv_vpn");
}

#[test]
fn service_name_of_a_tunnel() {
    assert_eq!(service_name_of("wg0"), "WireGuardTunnel$wg0");
    assert_eq!(service_name_of(""), "WireGuardTunnel$");
}

#[test]
fn binary_paths() {
    assert_eq!(binary_path_of(VpnType::WireGuard), r"C:\Program Files\WireGuard\wireguard.exe");
    assert_eq!(binary_path_of(VpnType::OpenVPN), r"C:\Program Files\OpenVPN\bin\openvpn.exe");
}

#[test]
fn start_command_for_wireguard() {
    let c = Command::start(VpnType::WireGuard, r"C:\vpn\wg0.conf");
    assert_eq!(c.program, "powershell");
    assert_eq!(
        c.args,
        vec![
            "-NoProfile",
            "-ExecutionPolicy",
            "Bypass",
            "-Command",
            r#"Start-Process -FilePath 'C:\Program Files\WireGuard\wireguard.exe' -ArgumentList '/installtunnelservice "C:\vpn\wg0.conf"' -Verb RunAs -Wait -WindowStyle Hidden"#,
        ]
    );
}

#[test]
fn start_command_for_wireguard_quotes_the_path() {
    let c = Command::start(VpnType::WireGuard, r#"C:\it's\a "b".conf"#);
    assert_eq!(
        c.args[4],
        r#"Start-Process -FilePath 'C:\Program Files\WireGuard\wireguard.exe' -ArgumentList '/installtunnelservice "C:\it''s\a \"b\".conf"' -Verb RunAs -Wait -WindowStyle Hidden"#
    );
}

#[test]
fn start_command_for_openvpn() {
    let c = Command::start(VpnType::OpenVPN, r#"C:\o'k "x".ovpn"#);
    assert_eq!(c.program, "powershell");
    assert_eq!(c.args.len(), 5);
    assert_eq!(c.args[3], "-Command");
    assert_eq!(
        c.args[4],
        r#"Start-Process -FilePath 'C:\Program Files\OpenVPN\bin\openvpn.exe' -ArgumentList '--config', 'C:\o''k "x".ovpn' -Verb RunAs -WindowStyle Hidden"#
    );
}

#[test]
fn stop_commands() {
    let c = Command::stop(VpnType::WireGuard, "wg0");
    assert_eq!(c.program, "powershell");
    assert_eq!(
        c.args,
        vec![
            "-NoProfile",
            "-ExecutionPolicy",
            "Bypass",
            "-Command",
            r#"Start-Process -FilePath 'C:\Program Files\WireGuard\wireguard.exe' -ArgumentList '/uninstalltunnelservice "wg0"' -Verb RunAs -Wait -WindowStyle Hidden"#,
        ]
    );
    let c = Command::stop(VpnType::OpenVPN, "anything");
    assert_eq!(c.program, "powershell");
    assert_eq!(
        c.args,
        vec![
            "-NoProfile",
            "-ExecutionPolicy",
            "Bypass",
            "-Command",
            "Stop-Process -Name 'openvpn' -Force -ErrorAction SilentlyContinue",
        ]
    );
}

#[test]
fn query_commands() {
    let c = Command::service_query("wg0");
    assert_eq!(c.program, "sc");
    assert_eq!(c.args, vec!["query", "WireGuardTunnel$wg0"]);
    let c = Command::process_query();
    assert_eq!(c.program, "tasklist");
    assert_eq!(c.args, vec!["/FI", "IMAGENAME eq openvpn.exe"]);
}

#[test]
fn launch_that_succeeded_proceeds_whatever_it_printed() {
    for kind in [VpnType::WireGuard, VpnType::OpenVPN] {
        assert_eq!(judge_launch(kind, &output(true, "", "")), LaunchVerdict::Proceed);
        assert_eq!(judge_launch(kind, &output(true, "canceled", "cancelled")), LaunchVerdict::Proceed);
        assert_eq!(judge_launch(kind, &output(true, "", "error")), LaunchVerdict::Proceed);
    }
}

#[test]
fn failed_launch_with_a_word_of_cancellation_is_cancelled() {
    for kind in [VpnType::WireGuard, VpnType::OpenVPN] {
        assert_eq!(
            judge_launch(kind, &output(false, "", "The operation was canceled by the user.")),
            LaunchVerdict::Cancelled
        );
        assert_eq!(judge_launch(kind, &output(false, "", "cancelled")), LaunchVerdict::Cancelled);
    }
    assert_eq!(
        judge_launch(VpnType::WireGuard, &output(false, "was canceled", "")),
        LaunchVerdict::Cancelled
    );
    assert_eq!(
        judge_launch(VpnType::WireGuard, &output(false, "was cancelled", "")),
        LaunchVerdict::Proceed
    );
    assert_eq!(
        judge_launch(VpnType::OpenVPN, &output(false, "was canceled", "")),
        LaunchVerdict::Proceed
    );
    assert_eq!(
        judge_launch(VpnType::OpenVPN, &output(false, "was canceled", "oops")),
        LaunchVerdict::Failed
    );
}

#[test]
fn cancellation_wins_over_a_tunnel_that_exists() {
    assert_eq!(
        judge_launch(VpnType::WireGuard, &output(false, "already exists", "canceled")),
        LaunchVerdict::Cancelled
    );
}

#[test]
fn failed_launch_of_a_tunnel_that_exists_proceeds() {
    assert_eq!(
        judge_launch(VpnType::WireGuard, &output(false, "", "Tunnel already exists")),
        LaunchVerdict::Proceed
    );
    assert_eq!(
        judge_launch(VpnType::WireGuard, &output(false, "already exists", "other text")),
        LaunchVerdict::Proceed
    );
    assert_eq!(
        judge_launch(VpnType::OpenVPN, &output(false, "", "already exists")),
        LaunchVerdict::Failed
    );
}

#[test]
fn failed_launch_with_error_text_fails_and_silence_proceeds() {
    for kind in [VpnType::WireGuard, VpnType::OpenVPN] {
        assert_eq!(judge_launch(kind, &output(false, "", "Access denied")), LaunchVerdict::Failed);
        assert_eq!(judge_launch(kind, &output(false, "", " ")), LaunchVerdict::Failed);
        assert_eq!(judge_launch(kind, &output(false, "", "")), LaunchVerdict::Proceed);
        assert_eq!(judge_launch(kind, &output(false, "text", "")), LaunchVerdict::Proceed);
    }
}

#[test]
fn running_indicators() {
    assert!(service_is_running("        STATE              : 4  RUNNING \r\n"));
    assert!(!service_is_running("        STATE              : 1  STOPPED \r\n"));
    assert!(!service_is_running("running"));
    assert!(!service_is_running(""));
    assert!(openvpn_is_running("openvpn.exe                   1234 Console    1     10,000 K"));
    assert!(!openvpn_is_running("INFO: No tasks are running which match the specified criteria."));
    assert!(!openvpn_is_running("OpenVPN.exe"));
    assert!(!openvpn_is_running(""));
}

#[test]
fn str_contains_agrees_with_std() {
    assert!(str_contains("abc", "bc"));
    assert!(str_contains("abc", ""));
    assert!(!str_contains("abc", "cb"));
    assert!(!str_contains("", "a"));
}

#[test]
fn disconnect_warnings() {
    assert_eq!(disconnect_warning(VpnType::WireGuard, &output(true, "", "text")), None);
    assert_eq!(disconnect_warning(VpnType::WireGuard, &output(false, "", "")), None);
    assert_eq!(
        disconnect_warning(VpnType::WireGuard, &output(false, "", "was canceled")),
        None
    );
    assert_eq!(
        disconnect_warning(VpnType::WireGuard, &output(false, "", "no such tunnel")).as_deref(),
        Some("WireGuard disconnect warning: no such tunnel")
    );
    assert_eq!(
        disconnect_warning(VpnType::WireGuard, &output(false, "", "was cancelled")).as_deref(),
        Some("WireGuard disconnect warning: was cancelled")
    );
    assert_eq!(disconnect_warning(VpnType::OpenVPN, &output(true, "", "")), None);
    assert_eq!(
        disconnect_warning(VpnType::OpenVPN, &output(false, "", "")).as_deref(),
        Some("OpenVPN may not have been running")
    );
}

#[test]
fn tunnel_name_is_the_default_or_a_part_of_the_path() {
    let paths = [
        "",
        "/",
        ".",
        "..",
        "a/..",
        "wg0.conf",
        "/etc/wireguard/wg0.conf",
        r"C:\vpn\wg0.conf",
        "dir/.hidden",
        "dir/.hidden.conf",
        "dir/name.",
        "dir/...",
        "a.b.c",
        "dir/sub/",
        "caf\u{e9}.conf",
    ];
    for path in paths {
        let name = tunnel_name_for(path);
        assert!(
            name == "claudetv_vpn" || (!name.is_empty() && path.contains(name.as_str())),
            "{:?} gave {:?}",
            path,
            name
        );
    }
    assert_eq!(tunnel_name_for("dir/.hidden"), ".hidden");
    assert_eq!(tunnel_name_for("dir/name."), "name");
    assert_eq!(tunnel_name_for("caf\u{e9}.conf"), "caf\u{e9}");
    assert_eq!(tunnel_name_for("dir/sub/"), "sub");
}

#[test]
fn tunnel_name_of_a_bare_file_name() {
    let cases = [
        ("", "claudetv_vpn"),
        (".", "claudetv_vpn"),
        ("..", "claudetv_vpn"),
        ("...", ".."),
        ("....", "..."),
        ("a.", "a"),
        ("a..", "a."),
        (".hidden", ".hidden"),
        (".a.b", ".a"),
        ("..a", "."),
        ("wg0", "wg0"),
        ("wg0.conf", "wg0"),
        ("a.b.c", "a.b"),
        ("my tunnel.conf", "my tunnel"),
        (" ", " "),
        (" .conf", " "),
        ("caf\u{e9}.conf", "caf\u{e9}"),
        ("\u{65e5}\u{672c}.\u{8a9e}", "\u{65e5}\u{672c}"),
        ("claudetv_vpn.conf", "claudetv_vpn"),
    ];
    for (path, expected) in cases {
        assert_eq!(tunnel_name_for(path), expected, "{:?}", path);
    }
}
