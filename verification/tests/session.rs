use stream_backend::config::VpnType;
use stream_backend::connection::{
    ErrorKind, ProcessOutput, VpnError, VpnStatus, VpnStatusInfo,
};
use stream_backend::session::{Progress, Reply, Request, Session};

fn ran(success: bool, stdout: &str, stderr: &str) -> Reply {
    Reply::Ran {
        output: ProcessOutput { success, stdout: stdout.to_string(), stderr: stderr.to_string() },
    }
}

fn not_run(reason: &str) -> Reply {
    Reply::NotRun { reason: reason.to_string() }
}

fn session_of(progress: Progress) -> Session {
    match progress {
        Progress::Continue { session } => session,
        Progress::Finished { result } => panic!("finished: {:?}", result),
    }
}

fn result_of(progress: Progress) -> Result<VpnStatusInfo, VpnError> {
    match progress {
        Progress::Finished { result } => result,
        Progress::Continue { session } => panic!("under way: {:?}", session),
    }
}

fn command_of(request: Request) -> (String, Vec<String>) {
    match request {
        Request::Run { command } => (command.program, command.args),
        other => panic!("not a command: {:?}", other),
    }
}

fn assert_connected(info: &VpnStatusInfo, kind: VpnType, name: &str) {
    assert_eq!(info.status, VpnStatus::Connected);
    assert_eq!(info.vpn_type, Some(kind));
    assert_eq!(info.tunnel_name.as_deref(), Some(name));
    assert_eq!(info.error, None);
}

fn assert_disconnected(info: &VpnStatusInfo) {
    assert_eq!(info.status, VpnStatus::Disconnected);
    assert_eq!(info.vpn_type, None);
    assert_eq!(info.tunnel_name, None);
    assert_eq!(info.error, None);
}

#[test]
fn connect_wireguard_runs_to_connected() {
    let session = Session::connect(VpnType::WireGuard, "/etc/wireguard/wg0.conf".to_string());
    match session.request() {
        Request::ProbeFile { path } => {
            assert_eq!(path, r"C:\Program Files\WireGuard\wireguard.exe")
        }
        other => panic!("{:?}", other),
    }
    let session = session_of(session.advance(Reply::Probed { exists: true }));
    let (program, args) = command_of(session.request());
    assert_eq!(program, "powershell");
    assert_eq!(args.len(), 5);
    assert_eq!(
        args[4],
        r#"Start-Process -FilePath 'C:\Program Files\WireGuard\wireguard.exe' -ArgumentList '/installtunnelservice "/etc/wireguard/wg0.conf"' -Verb RunAs -Wait -WindowStyle Hidden"#
    );
    let session = session_of(session.advance(ran(true, "", "")));
    match session.request() {
        Request::Wait { millis } => assert_eq!(millis, 1500),
        other => panic!("{:?}", other),
    }
    let session = session_of(session.advance(Reply::Waited));
    let (program, args) = command_of(session.request());
    assert_eq!(program, "sc");
    assert_eq!(args, vec!["query", "WireGuardTunnel$wg0"]);
    let info = result_of(session.advance(ran(true, "STATE : 4  RUNNING", ""))).unwrap();
    assert_connected(&info, VpnType::WireGuard, "wg0");
}

#[test]
fn connect_wireguard_reports_connected_without_a_running_service() {
    for reply in [ran(true, "STATE : 1  STOPPED", ""), ran(false, "", "failed"), not_run("no sc")] {
        let session = Session::connect_with_stem(
            VpnType::WireGuard,
            "x.conf".to_string(),
            Some("x".to_string()),
        );
        let session = session_of(session.advance(Reply::Probed { exists: true }));
        let session = session_of(session.advance(ran(true, "", "")));
        let session = session_of(session.advance(Reply::Waited));
        let info = result_of(session.advance(reply)).unwrap();
        assert_connected(&info, VpnType::WireGuard, "x");
    }
}

#[test]
fn connect_wireguard_without_a_stem_uses_the_default_name() {
    let session = Session::connect_with_stem(VpnType::WireGuard, "".to_string(), None);
    let session = session_of(session.advance(Reply::Probed { exists: true }));
    let session = session_of(session.advance(ran(true, "", "")));
    let session = session_of(session.advance(Reply::Waited));
    let (_, args) = command_of(session.request());
    assert_eq!(args, vec!["query", "WireGuardTunnel$claudetv_vpn"]);
    let info = result_of(session.advance(ran(true, "", ""))).unwrap();
    assert_connected(&info, VpnType::WireGuard, "claudetv_vpn");
}

#[test]
fn connect_openvpn_runs_to_connected() {
    let session = Session::connect(VpnType::OpenVPN, r"C:\vpn\office.ovpn".to_string());
    match session.request() {
        Request::ProbeFile { path } => {
            assert_eq!(path, r"C:\Program Files\OpenVPN\bin\openvpn.exe")
        }
        other => panic!("{:?}", other),
    }
    let session = session_of(session.advance(Reply::Probed { exists: true }));
    let (program, args) = command_of(session.request());
    assert_eq!(program, "powershell");
    assert_eq!(
        args[4],
        r"Start-Process -FilePath 'C:\Program Files\OpenVPN\bin\openvpn.exe' -ArgumentList '--config', 'C:\vpn\office.ovpn' -Verb RunAs -WindowStyle Hidden"
    );
    let session = session_of(session.advance(ran(true, "", "")));
    match session.request() {
        Request::Wait { millis } => assert_eq!(millis, 2000),
        other => panic!("{:?}", other),
    }
    let info = result_of(session.advance(Reply::Waited)).unwrap();
    assert_connected(&info, VpnType::OpenVPN, "openvpn");
}

#[test]
fn connect_fails_when_the_binary_is_missing() {
    for kind in [VpnType::WireGuard, VpnType::OpenVPN] {
        let session = Session::connect(kind, "a.conf".to_string());
        let e = result_of(session.advance(Reply::Probed { exists: false })).unwrap_err();
        assert_eq!(e.kind, ErrorKind::NotFound);
        assert!(e.message.contains("is not installed"));
    }
}

#[test]
fn connect_fails_when_the_launcher_cannot_start() {
    let session = Session::connect(VpnType::WireGuard, "a.conf".to_string());
    let session = session_of(session.advance(Reply::Probed { exists: true }));
    let e = result_of(session.advance(not_run("program not found"))).unwrap_err();
    assert_eq!(e.kind, ErrorKind::ExternalFailure);
    assert_eq!(e.message, "Failed to start WireGuard: program not found");
}

#[test]
fn connect_fails_when_the_user_declines() {
    let session = Session::connect(VpnType::OpenVPN, "a.ovpn".to_string());
    let session = session_of(session.advance(Reply::Probed { exists: true }));
    let e = result_of(session.advance(ran(false, "", "The operation was canceled by the user")))
        .unwrap_err();
    assert_eq!(e.kind, ErrorKind::PermissionDenied);
    assert_eq!(e.message, "Connection cancelled. Administrator privileges are required.");
}

#[test]
fn connect_fails_when_the_client_reports_an_error() {
    let session = Session::connect(VpnType::WireGuard, "a.conf".to_string());
    let session = session_of(session.advance(Reply::Probed { exists: true }));
    let e = result_of(session.advance(ran(false, "", "Access is denied."))).unwrap_err();
    assert_eq!(e.kind, ErrorKind::ExternalFailure);
    assert_eq!(e.message, "WireGuard failed: Access is denied.");
}

#[test]
fn connect_proceeds_when_the_tunnel_exists_already() {
    let session = Session::connect(VpnType::WireGuard, "wg1.conf".to_string());
    let session = session_of(session.advance(Reply::Probed { exists: true }));
    let session = session_of(session.advance(ran(false, "", "Tunnel already exists")));
    assert!(matches!(session.request(), Request::Wait { millis: 1500 }));
}

#[test]
fn a_reply_that_is_no_answer_leaves_the_session() {
    let session = Session::connect(VpnType::WireGuard, "wg1.conf".to_string());
    let session = session_of(session.advance(Reply::Waited));
    let session = session_of(session.advance(not_run("x")));
    let session = session_of(session.advance(ran(true, "", "")));
    assert!(matches!(session.request(), Request::ProbeFile { .. }));
    let session = session_of(session.advance(Reply::Probed { exists: true }));
    let session = session_of(session.advance(Reply::Probed { exists: false }));
    let session = session_of(session.advance(Reply::Waited));
    assert!(matches!(session.request(), Request::Run { .. }));
    let session = session_of(session.advance(ran(true, "", "")));
    let session = session_of(session.advance(ran(true, "", "")));
    let session = session_of(session.advance(Reply::Probed { exists: true }));
    assert!(matches!(session.request(), Request::Wait { .. }));
    let session = Session::disconnect(VpnType::OpenVPN, "openvpn".to_string());
    let session = session_of(session.advance(Reply::Waited));
    let session = session_of(session.advance(Reply::Probed { exists: true }));
    assert!(matches!(session.request(), Request::Run { .. }));
}

#[test]
fn disconnect_wireguard_reports_disconnected() {
    let session = Session::disconnect(VpnType::WireGuard, "wg0".to_string());
    let (program, args) = command_of(session.request());
    assert_eq!(program, "powershell");
    assert_eq!(
        args[4],
        r#"Start-Process -FilePath 'C:\Program Files\WireGuard\wireguard.exe' -ArgumentList '/uninstalltunnelservice "wg0"' -Verb RunAs -Wait -WindowStyle Hidden"#
    );
    let info = result_of(session.advance(ran(true, "", ""))).unwrap();
    assert_disconnected(&info);
}

#[test]
fn disconnect_reports_disconnected_whatever_the_command_printed() {
    for kind in [VpnType::WireGuard, VpnType::OpenVPN] {
        for reply in [ran(false, "", "no such service"), ran(false, "", "canceled"), ran(true, "x", "y")] {
            let session = Session::disconnect(kind, "t".to_string());
            let info = result_of(session.advance(reply)).unwrap();
            assert_disconnected(&info);
        }
    }
}

#[test]
fn disconnect_openvpn_ends_the_process() {
    let session = Session::disconnect(VpnType::OpenVPN, "openvpn".to_string());
    let (program, args) = command_of(session.request());
    assert_eq!(program, "powershell");
    assert_eq!(args[4], "Stop-Process -Name 'openvpn' -Force -ErrorAction SilentlyContinue");
    assert_disconnected(&result_of(session.advance(ran(true, "", ""))).unwrap());
}

#[test]
fn disconnect_fails_when_the_launcher_cannot_start() {
    let session = Session::disconnect(VpnType::WireGuard, "wg0".to_string());
    let e = result_of(session.advance(not_run("no shell"))).unwrap_err();
    assert_eq!(e.kind, ErrorKind::ExternalFailure);
    assert_eq!(e.message, "Failed to stop WireGuard: no shell");
    let session = Session::disconnect(VpnType::OpenVPN, "openvpn".to_string());
    let e = result_of(session.advance(not_run("no shell"))).unwrap_err();
    assert_eq!(e.message, "Failed to stop OpenVPN: no shell");
}

#[test]
fn status_without_any_entry_is_disconnected() {
    let session = session_of(Session::status(Some("wg0".to_string()), None));
    let (program, args) = command_of(session.request());
    assert_eq!(program, "sc");
    assert_eq!(args, vec!["query", "WireGuardTunnel$wg0"]);
    let session = session_of(session.advance(ran(false, "The specified service does not exist", "")));
    let (program, args) = command_of(session.request());
    assert_eq!(program, "tasklist");
    assert_eq!(args, vec!["/FI", "IMAGENAME eq openvpn.exe"]);
    let info = result_of(session.advance(ran(true, "INFO: No tasks are running", ""))).unwrap();
    assert_disconnected(&info);
}

#[test]
fn status_when_nothing_can_be_run_is_disconnected() {
    let session = session_of(Session::status(Some("wg0".to_string()), None));
    let session = session_of(session.advance(not_run("no sc")));
    let info = result_of(session.advance(not_run("no tasklist"))).unwrap();
    assert_disconnected(&info);
}

#[test]
fn status_finds_a_running_wireguard_service() {
    for kind in [None, Some(VpnType::WireGuard)] {
        let session = session_of(Session::status(Some("wg0".to_string()), kind));
        let info = result_of(session.advance(ran(true, "STATE : 4  RUNNING", ""))).unwrap();
        assert_connected(&info, VpnType::WireGuard, "wg0");
    }
}

#[test]
fn status_for_wireguard_does_not_look_at_processes() {
    let session = session_of(Session::status(Some("wg0".to_string()), Some(VpnType::WireGuard)));
    let info = result_of(session.advance(ran(true, "STATE : 1  STOPPED", ""))).unwrap();
    assert_disconnected(&info);
    let info = result_of(Session::status(None, Some(VpnType::WireGuard))).unwrap();
    assert_disconnected(&info);
}

#[test]
fn status_finds_an_openvpn_process() {
    for name in [None, Some("anything".to_string())] {
        let session = session_of(Session::status(name, Some(VpnType::OpenVPN)));
        let (program, _) = command_of(session.request());
        assert_eq!(program, "tasklist");
        let info = result_of(session.advance(ran(true, "openvpn.exe  4242 Console", ""))).unwrap();
        assert_connected(&info, VpnType::OpenVPN, "openvpn");
    }
    let session = session_of(Session::status(None, None));
    let info = result_of(session.advance(ran(true, "openvpn.exe  4242 Console", ""))).unwrap();
    assert_connected(&info, VpnType::OpenVPN, "openvpn");
}

#[test]
fn status_falls_through_from_service_to_process() {
    let session = session_of(Session::status(Some("wg0".to_string()), None));
    let session = session_of(session.advance(ran(true, "STOPPED", "")));
    let info = result_of(session.advance(ran(true, "openvpn.exe", ""))).unwrap();
    assert_connected(&info, VpnType::OpenVPN, "openvpn");
}

#[test]
fn connect_names_the_tunnel_after_the_file() {
    match Session::connect(VpnType::WireGuard, "/etc/wireguard/office.conf".to_string()) {
        Session::Probing { kind, config_path, tunnel_name } => {
            assert_eq!(kind, VpnType::WireGuard);
            assert_eq!(config_path, "/etc/wireguard/office.conf");
            assert_eq!(tunnel_name, "office");
        }
        other => panic!("{:?}", other),
    }
    match Session::connect(VpnType::WireGuard, "".to_string()) {
        Session::Probing { tunnel_name, .. } => assert_eq!(tunnel_name, "claudetv_vpn"),
        other => panic!("{:?}", other),
    }
    match Session::connect(VpnType::OpenVPN, "/etc/openvpn/office.ovpn".to_string()) {
        Session::Probing { kind, tunnel_name, .. } => {
            assert_eq!(kind, VpnType::OpenVPN);
            assert_eq!(tunnel_name, "openvpn");
        }
        other => panic!("{:?}", other),
    }
}

#[test]
fn connect_names_the_tunnel_after_a_bare_file_name() {
    for (path, expected) in [("wg0.conf", "wg0"), ("office", "office"), (".wg", ".wg"), ("..", "claudetv_vpn")] {
        match Session::connect(VpnType::WireGuard, path.to_string()) {
            Session::Probing { kind, config_path, tunnel_name } => {
                assert_eq!(kind, VpnType::WireGuard);
                assert_eq!(config_path, path);
                assert_eq!(tunnel_name, expected);
            }
            other => panic!("{:?}", other),
        }
    }
}
