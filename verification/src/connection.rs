//! The vocabulary of the connection manager: status records, errors, the
//! commands handed to the operating system, and the reading of what those
//! commands print.
//!
//! Nothing here runs a process. Each function computes, from plain values,
//! either a command for the caller to run or a judgement on its output.

use crate::config::VpnType;
use crate::text::{
    contains, has_substring, occurs_at, push_chars, replace, replaced, to_chars,
};
use vstd::prelude::*;
use vstd::string::StringExecFns;

verus! {

// ---------------------------------------------------------------------------
// Status records
// ---------------------------------------------------------------------------

/// The state of a tunnel.
#[derive(Debug, Clone, Copy, PartialEq, Eq, Structural)]
pub enum VpnStatus {
    Disconnected,
    Connecting,
    Connected,
    Disconnecting,
    Error,
}

/// What is reported of a tunnel.
#[derive(Debug)]
pub struct VpnStatusInfo {
    pub status: VpnStatus,
    pub vpn_type: Option<VpnType>,
    pub tunnel_name: Option<String>,
    pub error: Option<String>,
}

/// The mathematical content of a `VpnStatusInfo`.
pub struct StatusModel {
    pub status: VpnStatus,
    pub vpn_type: Option<VpnType>,
    pub tunnel_name: Option<Seq<char>>,
    pub error: Option<Seq<char>>,
}

impl View for VpnStatusInfo {
    type V = StatusModel;

    open spec fn view(&self) -> StatusModel {
        StatusModel {
            status: self.status,
            vpn_type: self.vpn_type,
            tunnel_name: self.tunnel_name.deep_view(),
            error: self.error.deep_view(),
        }
    }
}

/// The report of a running tunnel.
pub open spec fn connected(kind: VpnType, tunnel_name: Seq<char>) -> StatusModel {
    StatusModel {
        status: VpnStatus::Connected,
        vpn_type: Some(kind),
        tunnel_name: Some(tunnel_name),
        error: None,
    }
}

/// The report of no tunnel.
pub open spec fn disconnected() -> StatusModel {
    StatusModel { status: VpnStatus::Disconnected, vpn_type: None, tunnel_name: None, error: None }
}

impl VpnStatusInfo {
    /// The report of a running tunnel of the given kind and name.
    pub fn connected(kind: VpnType, tunnel_name: String) -> (info: VpnStatusInfo)
        ensures
            info@ == connected(kind, tunnel_name@),
    {
        VpnStatusInfo {
            status: VpnStatus::Connected,
            vpn_type: Some(kind),
            tunnel_name: Some(tunnel_name),
            error: None,
        }
    }

    /// The report of no tunnel.
    pub fn disconnected() -> (info: VpnStatusInfo)
        ensures
            info@ == disconnected(),
    {
        VpnStatusInfo {
            status: VpnStatus::Disconnected,
            vpn_type: None,
            tunnel_name: None,
            error: None,
        }
    }
}

// ---------------------------------------------------------------------------
// Errors
// ---------------------------------------------------------------------------

/// Why connecting or disconnecting failed.
#[derive(Debug, Clone, Copy, PartialEq, Eq, Structural)]
pub enum ErrorKind {
    /// The client binary is not installed.
    NotFound,
    /// The user declined the request for elevated privileges.
    PermissionDenied,
    /// The launcher could not be started, or the client reported an error.
    ExternalFailure,
}

/// A failure with the message shown to the user.
#[derive(Debug)]
pub struct VpnError {
    pub kind: ErrorKind,
    pub message: String,
}

/// The mathematical content of a `VpnError`.
pub struct ErrorModel {
    pub kind: ErrorKind,
    pub message: Seq<char>,
}

impl View for VpnError {
    type V = ErrorModel;

    open spec fn view(&self) -> ErrorModel {
        ErrorModel { kind: self.kind, message: self.message@ }
    }
}

/// The name of a client as it stands in messages.
pub open spec fn client_name(kind: VpnType) -> Seq<char> {
    match kind {
        VpnType::WireGuard => "WireGuard"@,
        VpnType::OpenVPN => "OpenVPN"@,
    }
}

/// The failure when the client binary is missing.
pub open spec fn not_installed(kind: VpnType) -> ErrorModel {
    ErrorModel {
        kind: ErrorKind::NotFound,
        message: match kind {
            VpnType::WireGuard => "WireGuard is not installed. Please install WireGuard from https://www.wireguard.com/install/"@,
            VpnType::OpenVPN => "OpenVPN is not installed. Please install OpenVPN from https://openvpn.net/community-downloads/"@,
        },
    }
}

/// The failure when the user declined elevation.
pub open spec fn cancelled() -> ErrorModel {
    ErrorModel {
        kind: ErrorKind::PermissionDenied,
        message: "Connection cancelled. Administrator privileges are required."@,
    }
}

/// The failure when the client reported `stderr`.
pub open spec fn client_failed(kind: VpnType, stderr: Seq<char>) -> ErrorModel {
    ErrorModel {
        kind: ErrorKind::ExternalFailure,
        message: client_name(kind) + " failed: "@ + stderr,
    }
}

/// The failure when the launcher could not be started while connecting.
pub open spec fn start_failed(kind: VpnType, reason: Seq<char>) -> ErrorModel {
    ErrorModel {
        kind: ErrorKind::ExternalFailure,
        message: "Failed to start "@ + client_name(kind) + ": "@ + reason,
    }
}

/// The failure when the launcher could not be started while disconnecting.
pub open spec fn stop_failed(kind: VpnType, reason: Seq<char>) -> ErrorModel {
    ErrorModel {
        kind: ErrorKind::ExternalFailure,
        message: "Failed to stop "@ + client_name(kind) + ": "@ + reason,
    }
}

/// The name of a client as it stands in messages.
fn client_name_of(kind: VpnType) -> (name: &'static str)
    ensures
        name@ == client_name(kind),
{
    match kind {
        VpnType::WireGuard => "WireGuard",
        VpnType::OpenVPN => "OpenVPN",
    }
}

impl VpnError {
    /// The failure when the client binary is missing.
    pub fn not_installed(kind: VpnType) -> (e: VpnError)
        ensures
            e@ == not_installed(kind),
    {
        let message = match kind {
            VpnType::WireGuard => String::from_str(
                "WireGuard is not installed. Please install WireGuard from https://www.wireguard.com/install/",
            ),
            VpnType::OpenVPN => String::from_str(
                "OpenVPN is not installed. Please install OpenVPN from https://openvpn.net/community-downloads/",
            ),
        };
        VpnError { kind: ErrorKind::NotFound, message }
    }

    /// The failure when the user declined elevation.
    pub fn cancelled() -> (e: VpnError)
        ensures
            e@ == cancelled(),
    {
        VpnError {
            kind: ErrorKind::PermissionDenied,
            message: String::from_str(
                "Connection cancelled. Administrator privileges are required.",
            ),
        }
    }

    /// The failure when the client reported `stderr`.
    pub fn client_failed(kind: VpnType, stderr: &str) -> (e: VpnError)
        ensures
            e@ == client_failed(kind, stderr@),
    {
        let mut message = String::from_str(client_name_of(kind));
        message.append(" failed: ");
        message.append(stderr);
        VpnError { kind: ErrorKind::ExternalFailure, message }
    }

    /// The failure when the launcher could not be started while connecting.
    pub fn start_failed(kind: VpnType, reason: &str) -> (e: VpnError)
        ensures
            e@ == start_failed(kind, reason@),
    {
        let mut message = String::from_str("Failed to start ");
        message.append(client_name_of(kind));
        message.append(": ");
        message.append(reason);
        VpnError { kind: ErrorKind::ExternalFailure, message }
    }

    /// The failure when the launcher could not be started while
    /// disconnecting.
    pub fn stop_failed(kind: VpnType, reason: &str) -> (e: VpnError)
        ensures
            e@ == stop_failed(kind, reason@),
    {
        let mut message = String::from_str("Failed to stop ");
        message.append(client_name_of(kind));
        message.append(": ");
        message.append(reason);
        VpnError { kind: ErrorKind::ExternalFailure, message }
    }
}

// ---------------------------------------------------------------------------
// Tunnel names
// ---------------------------------------------------------------------------

/// The tunnel name where the configuration file's name gives none.
pub open spec fn default_tunnel_name() -> Seq<char> {
    "claudetv_vpn"@
}

/// The name under which an OpenVPN connection is reported.
pub open spec fn openvpn_tunnel_name() -> Seq<char> {
    "openvpn"@
}

/// The tunnel name of a WireGuard configuration file whose base name,
/// without its extension, is `stem`.
pub open spec fn tunnel_name_of(stem: Option<Seq<char>>) -> Seq<char> {
    match stem {
        Some(s) => s,
        None => default_tunnel_name(),
    }
}

/// The name of the service that runs the WireGuard tunnel `tunnel_name`.
pub open spec fn service_name(tunnel_name: Seq<char>) -> Seq<char> {
    "WireGuardTunnel$"@ + tunnel_name
}

/// Whether `c` parts a path into components, or marks a drive, on some
/// platform.
pub open spec fn is_path_mark(c: char) -> bool {
    c == '/' || c == '\\' || c == ':'
}

/// Whether `path` is a bare file name: it holds no character that parts a
/// path or marks a drive, so every platform reads it as one component.
pub open spec fn is_bare_name(path: Seq<char>) -> bool {
    forall|i: int| 0 <= i < path.len() ==> !is_path_mark(#[trigger] path[i])
}

/// The index of the last `.` in `name`, or `-1` where there is none.
pub open spec fn last_dot(name: Seq<char>) -> int
    decreases name.len(),
{
    if name.len() == 0 {
        -1
    } else if name.last() == '.' {
        name.len() - 1
    } else {
        last_dot(name.drop_last())
    }
}

/// The stem of a bare file name. The empty name, `.` and `..` are no file
/// names and have none. A name without a `.`, or with its only `.` at the
/// start, is its own stem. Of any other name the stem is what stands before
/// the last `.`.
pub open spec fn stem_of_name(name: Seq<char>) -> Option<Seq<char>> {
    if name.len() == 0 || name == seq!['.'] || name == seq!['.', '.'] {
        None
    } else if last_dot(name) <= 0 {
        Some(name)
    } else {
        Some(name.take(last_dot(name)))
    }
}

/// Whether `stem` can be the stem of the file name of `path`. On every
/// platform a stem is a part of the path and is not empty, and the stem of
/// a bare file name is `stem_of_name`. Of a path with more components, which
/// of them is the last depends on the platform.
pub open spec fn is_stem_of(path: Seq<char>, stem: Option<Seq<char>>) -> bool {
    &&& stem matches Some(s) ==> s.len() > 0 && has_substring(path, s)
    &&& is_bare_name(path) ==> stem == stem_of_name(path)
}

/// `last_dot` is an index of a `.`, or `-1`.
pub proof fn lemma_last_dot(name: Seq<char>)
    ensures
        -1 <= last_dot(name) < name.len(),
        last_dot(name) >= 0 ==> name[last_dot(name)] == '.',
        forall|i: int| last_dot(name) < i < name.len() ==> name[i] != '.',
    decreases name.len(),
{
    if name.len() > 0 && name.last() != '.' {
        let d = name.drop_last();
        lemma_last_dot(d);
        assert forall|i: int| last_dot(name) < i < name.len() implies name[i] != '.' by {
            if i < d.len() {
                assert(name[i] == d[i]);
            }
        }
    }
}

/// The stem of a bare file name is not empty and stands at the start of the
/// name: what is said of bare names agrees with what is said of all paths.
pub proof fn lemma_stem_of_name(name: Seq<char>)
    ensures
        stem_of_name(name) matches Some(s) ==> s.len() > 0 && occurs_at(name, s, 0),
        is_bare_name(name) ==> is_stem_of(name, stem_of_name(name)),
{
    lemma_last_dot(name);
    match stem_of_name(name) {
        Some(s) => {
            assert(name.subrange(0, s.len() as int) == s);
            assert(occurs_at(name, s, 0));
        },
        None => {},
    }
}

/// `Path::file_stem` of the standard library, on a path given as text: the
/// final component of the path without its extension, if the path has a
/// final component. Which characters part the components depends on the
/// platform, so the contract claims what holds on each: the stem is a part
/// of the path and is not empty, and of a bare file name, which every
/// platform reads as one component, it is the name up to its last `.` as
/// `stem_of_name` says.
#[verifier::external_body]
fn file_stem(path: &str) -> (stem: Option<String>)
    ensures
        stem matches Some(s) ==> s@.len() > 0 && has_substring(path@, s@),
        is_bare_name(path@) ==> stem.deep_view() == stem_of_name(path@),
{
    match std::path::Path::new(path).file_stem() {
        Some(stem) => match stem.to_str() {
            Some(text) => Some(text.to_string()),
            None => None,
        },
        None => None,
    }
}

/// The tunnel name for a file stem: the stem itself, or the default name
/// where there is none.
pub fn tunnel_name_from_stem(stem: Option<String>) -> (name: String)
    ensures
        name@ == tunnel_name_of(stem.deep_view()),
{
    match stem {
        Some(s) => s,
        None => String::from_str("claudetv_vpn"),
    }
}

/// The tunnel name of a WireGuard configuration file: the stem of its file
/// name as the platform reads the path, or the default name where the path
/// has no file name. For a bare file name that is the name up to its last
/// `.`; whatever the path, it is the default name or a part of the path
/// that is not empty.
pub fn tunnel_name_for(config_path: &str) -> (name: String)
    ensures
        exists|stem: Option<Seq<char>>|
            is_stem_of(config_path@, stem) && name@ == tunnel_name_of(stem),
        is_bare_name(config_path@) ==> name@ == tunnel_name_of(stem_of_name(config_path@)),
        name@ == default_tunnel_name() || (name@.len() > 0 && has_substring(
            config_path@,
            name@,
        )),
{
    let stem = file_stem(config_path);
    let ghost s = stem.deep_view();
    let name = tunnel_name_from_stem(stem);
    assert(is_stem_of(config_path@, s) && name@ == tunnel_name_of(s));
    name
}

/// The name of the service that runs the WireGuard tunnel `tunnel_name`.
pub fn service_name_of(tunnel_name: &str) -> (name: String)
    ensures
        name@ == service_name(tunnel_name@),
{
    let mut name = String::from_str("WireGuardTunnel$");
    name.append(tunnel_name);
    name
}

// ---------------------------------------------------------------------------
// Commands
// ---------------------------------------------------------------------------

/// A program to run with its arguments.
#[derive(Debug)]
pub struct Command {
    pub program: String,
    pub args: Vec<String>,
}

/// The mathematical content of a `Command`.
pub struct CommandModel {
    pub program: Seq<char>,
    pub args: Seq<Seq<char>>,
}

impl View for Command {
    type V = CommandModel;

    open spec fn view(&self) -> CommandModel {
        CommandModel { program: self.program@, args: self.args.deep_view() }
    }
}

/// Where the client binary of a kind is expected.
pub open spec fn binary_path(kind: VpnType) -> Seq<char> {
    match kind {
        VpnType::WireGuard => r"C:\Program Files\WireGuard\wireguard.exe"@,
        VpnType::OpenVPN => r"C:\Program Files\OpenVPN\bin\openvpn.exe"@,
    }
}

/// `path` as it stands between single quotes in a shell script, inside
/// double quotes: each `'` doubled, then each `"` preceded by a backslash.
pub open spec fn quoted_twice(path: Seq<char>) -> Seq<char> {
    replaced(replaced(path, '\'', "''"@), '"', "\\\""@)
}

/// `path` as it stands between single quotes in a shell script: each `'`
/// doubled.
pub open spec fn quoted(path: Seq<char>) -> Seq<char> {
    replaced(path, '\'', "''"@)
}

/// The script that starts a tunnel from the configuration at `config_path`
/// with elevated privileges.
pub open spec fn start_script(kind: VpnType, config_path: Seq<char>) -> Seq<char> {
    match kind {
        VpnType::WireGuard => "Start-Process -FilePath '"@ + binary_path(kind)
            + "' -ArgumentList '/installtunnelservice \""@ + quoted_twice(config_path)
            + "\"' -Verb RunAs -Wait -WindowStyle Hidden"@,
        VpnType::OpenVPN => "Start-Process -FilePath '"@ + binary_path(kind)
            + "' -ArgumentList '--config', '"@ + quoted(config_path)
            + "' -Verb RunAs -WindowStyle Hidden"@,
    }
}

/// The script that stops a tunnel: WireGuard removes the tunnel's service
/// with elevated privileges, OpenVPN has its process ended by name.
pub open spec fn stop_script(kind: VpnType, tunnel_name: Seq<char>) -> Seq<char> {
    match kind {
        VpnType::WireGuard => "Start-Process -FilePath '"@ + binary_path(kind)
            + "' -ArgumentList '/uninstalltunnelservice \""@ + tunnel_name
            + "\"' -Verb RunAs -Wait -WindowStyle Hidden"@,
        VpnType::OpenVPN => "Stop-Process -Name 'openvpn' -Force -ErrorAction SilentlyContinue"@,
    }
}

/// The command that hands `script` to the shell.
pub open spec fn shell(script: Seq<char>) -> CommandModel {
    CommandModel {
        program: "powershell"@,
        args: seq!["-NoProfile"@, "-ExecutionPolicy"@, "Bypass"@, "-Command"@, script],
    }
}

/// The command that asks the service manager for the service of a tunnel.
pub open spec fn service_query(tunnel_name: Seq<char>) -> CommandModel {
    CommandModel { program: "sc"@, args: seq!["query"@, service_name(tunnel_name)] }
}

/// The command that lists the running OpenVPN processes.
pub open spec fn process_query() -> CommandModel {
    CommandModel { program: "tasklist"@, args: seq!["/FI"@, "IMAGENAME eq openvpn.exe"@] }
}

/// Where the client binary of a kind is expected.
pub fn binary_path_of(kind: VpnType) -> (path: String)
    ensures
        path@ == binary_path(kind),
{
    match kind {
        VpnType::WireGuard => String::from_str(r"C:\Program Files\WireGuard\wireguard.exe"),
        VpnType::OpenVPN => String::from_str(r"C:\Program Files\OpenVPN\bin\openvpn.exe"),
    }
}

/// The command that hands `script` to the shell.
fn shell_command(script: String) -> (command: Command)
    ensures
        command@ == shell(script@),
{
    let mut args: Vec<String> = Vec::new();
    args.push(String::from_str("-NoProfile"));
    args.push(String::from_str("-ExecutionPolicy"));
    args.push(String::from_str("Bypass"));
    args.push(String::from_str("-Command"));
    args.push(script);
    let command = Command { program: String::from_str("powershell"), args };
    assert(command.args.deep_view() =~= shell(script@).args);
    command
}

impl Command {
    /// The command that starts a tunnel from the configuration at
    /// `config_path` with elevated privileges.
    pub fn start(kind: VpnType, config_path: &str) -> (command: Command)
        ensures
            command@ == shell(start_script(kind, config_path@)),
    {
        let path = to_chars(config_path);
        let mut script = String::from_str("Start-Process -FilePath '");
        script.append(binary_path_of(kind).as_str());
        match kind {
            VpnType::WireGuard => {
                let once = replace(path.as_slice(), '\'', "''");
                let twice = replace(once.as_slice(), '"', "\\\"");
                script.append("' -ArgumentList '/installtunnelservice \"");
                push_chars(&mut script, twice.as_slice());
                script.append("\"' -Verb RunAs -Wait -WindowStyle Hidden");
            },
            VpnType::OpenVPN => {
                let once = replace(path.as_slice(), '\'', "''");
                script.append("' -ArgumentList '--config', '");
                push_chars(&mut script, once.as_slice());
                script.append("' -Verb RunAs -WindowStyle Hidden");
            },
        }
        shell_command(script)
    }

    /// The command that stops a tunnel.
    pub fn stop(kind: VpnType, tunnel_name: &str) -> (command: Command)
        ensures
            command@ == shell(stop_script(kind, tunnel_name@)),
    {
        match kind {
            VpnType::WireGuard => {
                let mut script = String::from_str("Start-Process -FilePath '");
                script.append(binary_path_of(kind).as_str());
                script.append("' -ArgumentList '/uninstalltunnelservice \"");
                script.append(tunnel_name);
                script.append("\"' -Verb RunAs -Wait -WindowStyle Hidden");
                shell_command(script)
            },
            VpnType::OpenVPN => shell_command(
                String::from_str(
                    "Stop-Process -Name 'openvpn' -Force -ErrorAction SilentlyContinue",
                ),
            ),
        }
    }

    /// The command that asks the service manager for the service of a
    /// tunnel.
    pub fn service_query(tunnel_name: &str) -> (command: Command)
        ensures
            command@ == service_query(tunnel_name@),
    {
        let mut args: Vec<String> = Vec::new();
        args.push(String::from_str("query"));
        args.push(service_name_of(tunnel_name));
        let command = Command { program: String::from_str("sc"), args };
        assert(command.args.deep_view() =~= service_query(tunnel_name@).args);
        command
    }

    /// The command that lists the running OpenVPN processes.
    pub fn process_query() -> (command: Command)
        ensures
            command@ == process_query(),
    {
        let mut args: Vec<String> = Vec::new();
        args.push(String::from_str("/FI"));
        args.push(String::from_str("IMAGENAME eq openvpn.exe"));
        let command = Command { program: String::from_str("tasklist"), args };
        assert(command.args.deep_view() =~= process_query().args);
        command
    }
}

// ---------------------------------------------------------------------------
// Process output
// ---------------------------------------------------------------------------

/// What a finished process left behind.
#[derive(Debug)]
pub struct ProcessOutput {
    /// Whether the process exited with success.
    pub success: bool,
    pub stdout: String,
    pub stderr: String,
}

/// The mathematical content of a `ProcessOutput`.
pub struct OutputModel {
    pub success: bool,
    pub stdout: Seq<char>,
    pub stderr: Seq<char>,
}

impl View for ProcessOutput {
    type V = OutputModel;

    open spec fn view(&self) -> OutputModel {
        OutputModel { success: self.success, stdout: self.stdout@, stderr: self.stderr@ }
    }
}

/// How the launch of a client ended.
#[derive(Debug, Clone, Copy, PartialEq, Eq, Structural)]
pub enum LaunchVerdict {
    /// The client was started, or its tunnel exists already.
    Proceed,
    /// The user declined the request for elevated privileges.
    Cancelled,
    /// The client reported an error.
    Failed,
}

/// Whether the output of a failed launch says that the user declined.
pub open spec fn says_cancelled(kind: VpnType, output: OutputModel) -> bool {
    ||| has_substring(output.stderr, "canceled"@)
    ||| has_substring(output.stderr, "cancelled"@)
    ||| kind == VpnType::WireGuard && has_substring(output.stdout, "canceled"@)
}

/// Whether the output of a failed launch says that the tunnel exists
/// already. Only WireGuard reports this.
pub open spec fn says_already_exists(kind: VpnType, output: OutputModel) -> bool {
    kind == VpnType::WireGuard && (has_substring(output.stderr, "already exists"@)
        || has_substring(output.stdout, "already exists"@))
}

/// How the launch that left `output` ended. A launch that exited with
/// success proceeds. Of one that did not, a word of cancellation wins, then
/// a tunnel that exists already proceeds, then any text on the error stream
/// fails, and silence proceeds.
pub open spec fn launch_verdict(kind: VpnType, output: OutputModel) -> LaunchVerdict {
    if output.success {
        LaunchVerdict::Proceed
    } else if says_cancelled(kind, output) {
        LaunchVerdict::Cancelled
    } else if says_already_exists(kind, output) {
        LaunchVerdict::Proceed
    } else if output.stderr.len() > 0 {
        LaunchVerdict::Failed
    } else {
        LaunchVerdict::Proceed
    }
}

/// Whether the service manager's answer shows a running service.
pub open spec fn shows_running_service(stdout: Seq<char>) -> bool {
    has_substring(stdout, "RUNNING"@)
}

/// Whether the process list shows an OpenVPN process.
pub open spec fn shows_openvpn_process(stdout: Seq<char>) -> bool {
    has_substring(stdout, "openvpn.exe"@)
}

/// What is worth a warning after a tunnel was stopped: for WireGuard the
/// error text of a failed stop, unless it is empty or speaks of
/// cancellation; for OpenVPN any failed stop.
pub open spec fn stop_warning(kind: VpnType, output: OutputModel) -> Option<Seq<char>> {
    if output.success {
        None
    } else {
        match kind {
            VpnType::WireGuard => if output.stderr.len() > 0 && !has_substring(
                output.stderr,
                "canceled"@,
            ) {
                Some("WireGuard disconnect warning: "@ + output.stderr)
            } else {
                None
            },
            VpnType::OpenVPN => Some("OpenVPN may not have been running"@),
        }
    }
}

/// Tests whether `pattern` stands somewhere in `text`.
pub fn str_contains(text: &str, pattern: &str) -> (b: bool)
    ensures
        b == has_substring(text@, pattern@),
{
    let chars = to_chars(text);
    contains(chars.as_slice(), pattern)
}

/// Judges the launch that left `output`.
pub fn judge_launch(kind: VpnType, output: &ProcessOutput) -> (verdict: LaunchVerdict)
    ensures
        verdict == launch_verdict(kind, output@),
{
    if output.success {
        return LaunchVerdict::Proceed;
    }
    let stderr = to_chars(output.stderr.as_str());
    let stdout = to_chars(output.stdout.as_str());
    let wireguard = match kind {
        VpnType::WireGuard => true,
        VpnType::OpenVPN => false,
    };
    if contains(stderr.as_slice(), "canceled") || contains(stderr.as_slice(), "cancelled") || (
    wireguard && contains(stdout.as_slice(), "canceled")) {
        LaunchVerdict::Cancelled
    } else if wireguard && (contains(stderr.as_slice(), "already exists") || contains(
        stdout.as_slice(),
        "already exists",
    )) {
        LaunchVerdict::Proceed
    } else if stderr.len() > 0 {
        LaunchVerdict::Failed
    } else {
        LaunchVerdict::Proceed
    }
}

/// Tests whether the service manager's answer shows a running service.
pub fn service_is_running(stdout: &str) -> (b: bool)
    ensures
        b == shows_running_service(stdout@),
{
    str_contains(stdout, "RUNNING")
}

/// Tests whether the process list shows an OpenVPN process.
pub fn openvpn_is_running(stdout: &str) -> (b: bool)
    ensures
        b == shows_openvpn_process(stdout@),
{
    str_contains(stdout, "openvpn.exe")
}

/// The warning, if any, that the output of a stop command is worth.
pub fn disconnect_warning(kind: VpnType, output: &ProcessOutput) -> (warning: Option<String>)
    ensures
        warning.deep_view() == stop_warning(kind, output@),
{
    if output.success {
        return None;
    }
    match kind {
        VpnType::WireGuard => {
            let stderr = to_chars(output.stderr.as_str());
            if stderr.len() > 0 && !contains(stderr.as_slice(), "canceled") {
                let mut warning = String::from_str("WireGuard disconnect warning: ");
                warning.append(output.stderr.as_str());
                Some(warning)
            } else {
                None
            }
        },
        VpnType::OpenVPN => Some(String::from_str("OpenVPN may not have been running")),
    }
}

} // verus!
