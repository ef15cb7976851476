//! Connecting, disconnecting and querying a tunnel, as a state machine.
//!
//! The library decides; the caller acts. A `Session` names the one thing the
//! caller must do next (`request`), and `advance` takes what came of it and
//! either moves on or finishes with the operation's result. A reply that
//! does not answer the pending request leaves the session where it is.

use crate::config::VpnType;
use crate::connection::{
    binary_path, binary_path_of, cancelled, client_failed, connected, default_tunnel_name,
    disconnected, is_bare_name, is_stem_of, judge_launch, launch_verdict, lemma_stem_of_name,
    not_installed, openvpn_is_running, openvpn_tunnel_name, process_query, service_is_running,
    service_query, shell, shows_openvpn_process, shows_running_service, start_failed,
    start_script, stem_of_name, stop_failed, stop_script, tunnel_name_for, tunnel_name_of,
    Command, CommandModel, ErrorKind, ErrorModel, LaunchVerdict, OutputModel, ProcessOutput,
    StatusModel, VpnError, VpnStatusInfo,
};
use crate::text::has_substring;
use vstd::prelude::*;
use vstd::string::StringExecFns;

verus! {

// ---------------------------------------------------------------------------
// Requests and replies
// ---------------------------------------------------------------------------

/// What the caller must do next.
#[derive(Debug)]
pub enum Request {
    /// Test whether a file exists at `path`.
    ProbeFile { path: String },
    /// Run `command` to its end and capture what it prints.
    Run { command: Command },
    /// Let `millis` milliseconds pass.
    Wait { millis: u64 },
}

/// The mathematical content of a `Request`.
pub enum RequestModel {
    ProbeFile { path: Seq<char> },
    Run { command: CommandModel },
    Wait { millis: u64 },
}

impl View for Request {
    type V = RequestModel;

    open spec fn view(&self) -> RequestModel {
        match self {
            Request::ProbeFile { path } => RequestModel::ProbeFile { path: path@ },
            Request::Run { command } => RequestModel::Run { command: command@ },
            Request::Wait { millis } => RequestModel::Wait { millis: *millis },
        }
    }
}

/// What came of a request.
#[derive(Debug)]
pub enum Reply {
    /// The file of a `ProbeFile` exists, or does not.
    Probed { exists: bool },
    /// The command of a `Run` ran to its end.
    Ran { output: ProcessOutput },
    /// The command of a `Run` could not be started.
    NotRun { reason: String },
    /// The time of a `Wait` has passed.
    Waited,
}

/// The mathematical content of a `Reply`.
pub enum ReplyModel {
    Probed { exists: bool },
    Ran { output: OutputModel },
    NotRun { reason: Seq<char> },
    Waited,
}

impl View for Reply {
    type V = ReplyModel;

    open spec fn view(&self) -> ReplyModel {
        match self {
            Reply::Probed { exists } => ReplyModel::Probed { exists: *exists },
            Reply::Ran { output } => ReplyModel::Ran { output: output@ },
            Reply::NotRun { reason } => ReplyModel::NotRun { reason: reason@ },
            Reply::Waited => ReplyModel::Waited,
        }
    }
}

/// Whether `reply` is an answer to `request`.
pub open spec fn answers(request: RequestModel, reply: ReplyModel) -> bool {
    match request {
        RequestModel::ProbeFile { .. } => reply is Probed,
        RequestModel::Run { .. } => reply is Ran || reply is NotRun,
        RequestModel::Wait { .. } => reply is Waited,
    }
}

// ---------------------------------------------------------------------------
// Sessions
// ---------------------------------------------------------------------------

/// An operation under way.
#[derive(Debug)]
pub enum Session {
    /// Connecting: the client binary is being looked for.
    Probing { kind: VpnType, config_path: String, tunnel_name: String },
    /// Connecting: the client is being started with elevated privileges.
    Launching { kind: VpnType, config_path: String, tunnel_name: String },
    /// Connecting: the client is given time to come up.
    Settling { kind: VpnType, tunnel_name: String },
    /// Connecting: the tunnel's service is being looked for.
    Verifying { tunnel_name: String },
    /// Disconnecting: the tunnel is being stopped.
    Stopping { kind: VpnType, tunnel_name: String },
    /// Status: the service of a WireGuard tunnel is being looked for.
    QueryingService { tunnel_name: String, asked: Option<VpnType> },
    /// Status: an OpenVPN process is being looked for.
    QueryingProcesses,
}

/// The mathematical content of a `Session`.
pub enum SessionModel {
    Probing { kind: VpnType, config_path: Seq<char>, tunnel_name: Seq<char> },
    Launching { kind: VpnType, config_path: Seq<char>, tunnel_name: Seq<char> },
    Settling { kind: VpnType, tunnel_name: Seq<char> },
    Verifying { tunnel_name: Seq<char> },
    Stopping { kind: VpnType, tunnel_name: Seq<char> },
    QueryingService { tunnel_name: Seq<char>, asked: Option<VpnType> },
    QueryingProcesses,
}

impl View for Session {
    type V = SessionModel;

    open spec fn view(&self) -> SessionModel {
        match self {
            Session::Probing { kind, config_path, tunnel_name } => SessionModel::Probing {
                kind: *kind,
                config_path: config_path@,
                tunnel_name: tunnel_name@,
            },
            Session::Launching { kind, config_path, tunnel_name } => SessionModel::Launching {
                kind: *kind,
                config_path: config_path@,
                tunnel_name: tunnel_name@,
            },
            Session::Settling { kind, tunnel_name } => SessionModel::Settling {
                kind: *kind,
                tunnel_name: tunnel_name@,
            },
            Session::Verifying { tunnel_name } => SessionModel::Verifying {
                tunnel_name: tunnel_name@,
            },
            Session::Stopping { kind, tunnel_name } => SessionModel::Stopping {
                kind: *kind,
                tunnel_name: tunnel_name@,
            },
            Session::QueryingService { tunnel_name, asked } => SessionModel::QueryingService {
                tunnel_name: tunnel_name@,
                asked: *asked,
            },
            Session::QueryingProcesses => SessionModel::QueryingProcesses,
        }
    }
}

/// The result of an operation.
pub open spec fn result_model(result: Result<VpnStatusInfo, VpnError>) -> Result<
    StatusModel,
    ErrorModel,
> {
    match result {
        Ok(info) => Ok(info@),
        Err(e) => Err(e@),
    }
}

/// Where an operation stands: under way, or finished with its result.
#[derive(Debug)]
pub enum Progress {
    Continue { session: Session },
    Finished { result: Result<VpnStatusInfo, VpnError> },
}

/// The mathematical content of a `Progress`.
pub enum ProgressModel {
    Continue { session: SessionModel },
    Finished { result: Result<StatusModel, ErrorModel> },
}

impl View for Progress {
    type V = ProgressModel;

    open spec fn view(&self) -> ProgressModel {
        match self {
            Progress::Continue { session } => ProgressModel::Continue { session: session@ },
            Progress::Finished { result } => ProgressModel::Finished {
                result: result_model(*result),
            },
        }
    }
}

// ---------------------------------------------------------------------------
// The machine
// ---------------------------------------------------------------------------

/// How long a client is given to come up, in milliseconds.
pub open spec fn settle_millis(kind: VpnType) -> u64 {
    match kind {
        VpnType::WireGuard => 1500,
        VpnType::OpenVPN => 2000,
    }
}

/// Whether a status query for `kind` looks at the WireGuard service.
pub open spec fn asks_wireguard(kind: Option<VpnType>) -> bool {
    kind == Some(VpnType::WireGuard) || kind is None
}

/// Whether a status query for `kind` looks at the OpenVPN process.
pub open spec fn asks_openvpn(kind: Option<VpnType>) -> bool {
    kind == Some(VpnType::OpenVPN) || kind is None
}

/// The session that connects with the configuration at `config_path`, where
/// `stem` is the stem of the file's name. A WireGuard tunnel is named after
/// the stem, an OpenVPN connection has a fixed name.
pub open spec fn connect_start(kind: VpnType, config_path: Seq<char>, stem: Option<Seq<char>>) ->
    SessionModel {
    SessionModel::Probing {
        kind,
        config_path,
        tunnel_name: match kind {
            VpnType::WireGuard => tunnel_name_of(stem),
            VpnType::OpenVPN => openvpn_tunnel_name(),
        },
    }
}

/// The session that disconnects the tunnel `tunnel_name`.
pub open spec fn disconnect_start(kind: VpnType, tunnel_name: Seq<char>) -> SessionModel {
    SessionModel::Stopping { kind, tunnel_name }
}

/// Where a status query goes once the WireGuard service is out of the
/// question.
pub open spec fn status_after_service(kind: Option<VpnType>) -> ProgressModel {
    if asks_openvpn(kind) {
        ProgressModel::Continue { session: SessionModel::QueryingProcesses }
    } else {
        ProgressModel::Finished { result: Ok(disconnected()) }
    }
}

/// Where a status query begins: at the service of the named tunnel where
/// there is a name and WireGuard is asked for, else at the process list
/// where OpenVPN is asked for, else at its end.
pub open spec fn status_start(tunnel_name: Option<Seq<char>>, kind: Option<VpnType>) ->
    ProgressModel {
    match tunnel_name {
        Some(name) if asks_wireguard(kind) => ProgressModel::Continue {
            session: SessionModel::QueryingService { tunnel_name: name, asked: kind },
        },
        _ => status_after_service(kind),
    }
}

/// What the caller of a session must do next.
pub open spec fn pending(session: SessionModel) -> RequestModel {
    match session {
        SessionModel::Probing { kind, .. } => RequestModel::ProbeFile { path: binary_path(kind) },
        SessionModel::Launching { kind, config_path, .. } => RequestModel::Run {
            command: shell(start_script(kind, config_path)),
        },
        SessionModel::Settling { kind, .. } => RequestModel::Wait { millis: settle_millis(kind) },
        SessionModel::Verifying { tunnel_name } => RequestModel::Run {
            command: service_query(tunnel_name),
        },
        SessionModel::Stopping { kind, tunnel_name } => RequestModel::Run {
            command: shell(stop_script(kind, tunnel_name)),
        },
        SessionModel::QueryingService { tunnel_name, .. } => RequestModel::Run {
            command: service_query(tunnel_name),
        },
        SessionModel::QueryingProcesses => RequestModel::Run { command: process_query() },
    }
}

/// Where a session stands after `reply`.
///
/// Connecting fails when the client binary is missing, when the launcher
/// cannot be started, when the user declines elevation and when the client
/// reports an error; otherwise it reports the tunnel as connected, whether
/// or not its service was seen running. Disconnecting fails only when the
/// launcher cannot be started. A status query never fails: it reports a
/// tunnel as connected where the service manager or the process list shows
/// it, and no tunnel otherwise.
pub open spec fn next(session: SessionModel, reply: ReplyModel) -> ProgressModel {
    match (session, reply) {
        (SessionModel::Probing { kind, config_path, tunnel_name }, ReplyModel::Probed { exists }) => {
            if exists {
                ProgressModel::Continue {
                    session: SessionModel::Launching { kind, config_path, tunnel_name },
                }
            } else {
                ProgressModel::Finished { result: Err(not_installed(kind)) }
            }
        },
        (SessionModel::Launching { kind, .. }, ReplyModel::NotRun { reason }) => {
            ProgressModel::Finished { result: Err(start_failed(kind, reason)) }
        },
        (SessionModel::Launching { kind, tunnel_name, .. }, ReplyModel::Ran { output }) => {
            match launch_verdict(kind, output) {
                LaunchVerdict::Proceed => ProgressModel::Continue {
                    session: SessionModel::Settling { kind, tunnel_name },
                },
                LaunchVerdict::Cancelled => ProgressModel::Finished { result: Err(cancelled()) },
                LaunchVerdict::Failed => ProgressModel::Finished {
                    result: Err(client_failed(kind, output.stderr)),
                },
            }
        },
        (SessionModel::Settling { kind, tunnel_name }, ReplyModel::Waited) => {
            match kind {
                VpnType::WireGuard => ProgressModel::Continue {
                    session: SessionModel::Verifying { tunnel_name },
                },
                VpnType::OpenVPN => ProgressModel::Finished {
                    result: Ok(connected(kind, tunnel_name)),
                },
            }
        },
        (SessionModel::Verifying { tunnel_name }, ReplyModel::Ran { .. }) => {
            ProgressModel::Finished { result: Ok(connected(VpnType::WireGuard, tunnel_name)) }
        },
        (SessionModel::Verifying { tunnel_name }, ReplyModel::NotRun { .. }) => {
            ProgressModel::Finished { result: Ok(connected(VpnType::WireGuard, tunnel_name)) }
        },
        (SessionModel::Stopping { kind, .. }, ReplyModel::NotRun { reason }) => {
            ProgressModel::Finished { result: Err(stop_failed(kind, reason)) }
        },
        (SessionModel::Stopping { .. }, ReplyModel::Ran { .. }) => {
            ProgressModel::Finished { result: Ok(disconnected()) }
        },
        (SessionModel::QueryingService { tunnel_name, asked }, ReplyModel::Ran { output }) => {
            if shows_running_service(output.stdout) {
                ProgressModel::Finished { result: Ok(connected(VpnType::WireGuard, tunnel_name)) }
            } else {
                status_after_service(asked)
            }
        },
        (SessionModel::QueryingService { asked, .. }, ReplyModel::NotRun { .. }) => {
            status_after_service(asked)
        },
        (SessionModel::QueryingProcesses, ReplyModel::Ran { output }) => {
            if shows_openvpn_process(output.stdout) {
                ProgressModel::Finished {
                    result: Ok(connected(VpnType::OpenVPN, openvpn_tunnel_name())),
                }
            } else {
                ProgressModel::Finished { result: Ok(disconnected()) }
            }
        },
        (SessionModel::QueryingProcesses, ReplyModel::NotRun { .. }) => {
            ProgressModel::Finished { result: Ok(disconnected()) }
        },
        _ => ProgressModel::Continue { session },
    }
}

/// Where a status query goes once the WireGuard service is out of the
/// question.
fn after_service(kind: Option<VpnType>) -> (progress: Progress)
    ensures
        progress@ == status_after_service(kind),
{
    match kind {
        Some(VpnType::WireGuard) => Progress::Finished {
            result: Ok(VpnStatusInfo::disconnected()),
        },
        _ => Progress::Continue { session: Session::QueryingProcesses },
    }
}

impl Session {
    /// Begins to connect with the configuration at `config_path`, where
    /// `stem` is the stem of the file's name.
    pub fn connect_with_stem(kind: VpnType, config_path: String, stem: Option<String>) -> (session:
        Session)
        ensures
            session@ == connect_start(kind, config_path@, stem.deep_view()),
    {
        let tunnel_name = match kind {
            VpnType::WireGuard => crate::connection::tunnel_name_from_stem(stem),
            VpnType::OpenVPN => String::from_str("openvpn"),
        };
        Session::Probing { kind, config_path, tunnel_name }
    }

    /// Begins to connect with the configuration at `config_path`. A
    /// WireGuard tunnel is named after the stem of the file's name as the
    /// platform reads the path: for a bare file name after the name up to
    /// its last `.`, and whatever the path, after a part of it that is not
    /// empty, or by the default name.
    pub fn connect(kind: VpnType, config_path: String) -> (session: Session)
        ensures
            exists|stem: Option<Seq<char>>|
                is_stem_of(config_path@, stem) && session@ == connect_start(
                    kind,
                    config_path@,
                    stem,
                ),
            is_bare_name(config_path@) ==> session@ == connect_start(
                kind,
                config_path@,
                stem_of_name(config_path@),
            ),
            kind == VpnType::OpenVPN ==> session@ == connect_start(kind, config_path@, None),
            session@ matches SessionModel::Probing { kind: k, config_path: p, tunnel_name: t }
                && k == kind && p == config_path@ && (kind == VpnType::WireGuard ==> t
                == default_tunnel_name() || (t.len() > 0 && has_substring(config_path@, t))),
    {
        let tunnel_name = match kind {
            VpnType::WireGuard => {
                let name = tunnel_name_for(config_path.as_str());
                proof {
                    let stem = choose|stem: Option<Seq<char>>|
                        is_stem_of(config_path@, stem) && name@ == tunnel_name_of(stem);
                    assert(SessionModel::Probing {
                        kind,
                        config_path: config_path@,
                        tunnel_name: name@,
                    } == connect_start(kind, config_path@, stem));
                }
                name
            },
            VpnType::OpenVPN => {
                let name = String::from_str("openvpn");
                proof {
                    lemma_stem_of_name(config_path@);
                    let stem = if is_bare_name(config_path@) {
                        stem_of_name(config_path@)
                    } else {
                        None
                    };
                    assert(is_stem_of(config_path@, stem));
                    assert(SessionModel::Probing {
                        kind,
                        config_path: config_path@,
                        tunnel_name: name@,
                    } == connect_start(kind, config_path@, stem));
                }
                assert(SessionModel::Probing { kind, config_path: config_path@, tunnel_name: name@ }
                    == connect_start(kind, config_path@, None));
                name
            },
        };
        Session::Probing { kind, config_path, tunnel_name }
    }

    /// Begins to disconnect the tunnel `tunnel_name`.
    pub fn disconnect(kind: VpnType, tunnel_name: String) -> (session: Session)
        ensures
            session@ == disconnect_start(kind, tunnel_name@),
    {
        Session::Stopping { kind, tunnel_name }
    }

    /// Begins to query the status of a tunnel.
    pub fn status(tunnel_name: Option<String>, kind: Option<VpnType>) -> (progress: Progress)
        ensures
            progress@ == status_start(tunnel_name.deep_view(), kind),
    {
        let wireguard = match kind {
            Some(VpnType::OpenVPN) => false,
            _ => true,
        };
        match tunnel_name {
            Some(name) => {
                if wireguard {
                    Progress::Continue {
                        session: Session::QueryingService { tunnel_name: name, asked: kind },
                    }
                } else {
                    after_service(kind)
                }
            },
            None => after_service(kind),
        }
    }

    /// What the caller must do next.
    pub fn request(&self) -> (request: Request)
        ensures
            request@ == pending(self@),
    {
        match self {
            Session::Probing { kind, .. } => Request::ProbeFile { path: binary_path_of(*kind) },
            Session::Launching { kind, config_path, .. } => Request::Run {
                command: Command::start(*kind, config_path.as_str()),
            },
            Session::Settling { kind, .. } => Request::Wait {
                millis: match kind {
                    VpnType::WireGuard => 1500,
                    VpnType::OpenVPN => 2000,
                },
            },
            Session::Verifying { tunnel_name } => Request::Run {
                command: Command::service_query(tunnel_name.as_str()),
            },
            Session::Stopping { kind, tunnel_name } => Request::Run {
                command: Command::stop(*kind, tunnel_name.as_str()),
            },
            Session::QueryingService { tunnel_name, .. } => Request::Run {
                command: Command::service_query(tunnel_name.as_str()),
            },
            Session::QueryingProcesses => Request::Run { command: Command::process_query() },
        }
    }

    /// Takes what came of the pending request and moves on.
    pub fn advance(self, reply: Reply) -> (progress: Progress)
        ensures
            progress@ == next(self@, reply@),
    {
        match self {
            Session::Probing { kind, config_path, tunnel_name } => match reply {
                Reply::Probed { exists } => {
                    if exists {
                        Progress::Continue {
                            session: Session::Launching { kind, config_path, tunnel_name },
                        }
                    } else {
                        Progress::Finished { result: Err(VpnError::not_installed(kind)) }
                    }
                },
                _ => Progress::Continue {
                    session: Session::Probing { kind, config_path, tunnel_name },
                },
            },
            Session::Launching { kind, config_path, tunnel_name } => match reply {
                Reply::NotRun { reason } => Progress::Finished {
                    result: Err(VpnError::start_failed(kind, reason.as_str())),
                },
                Reply::Ran { output } => match judge_launch(kind, &output) {
                    LaunchVerdict::Proceed => Progress::Continue {
                        session: Session::Settling { kind, tunnel_name },
                    },
                    LaunchVerdict::Cancelled => Progress::Finished {
                        result: Err(VpnError::cancelled()),
                    },
                    LaunchVerdict::Failed => Progress::Finished {
                        result: Err(VpnError::client_failed(kind, output.stderr.as_str())),
                    },
                },
                _ => Progress::Continue {
                    session: Session::Launching { kind, config_path, tunnel_name },
                },
            },
            Session::Settling { kind, tunnel_name } => match reply {
                Reply::Waited => match kind {
                    VpnType::WireGuard => Progress::Continue {
                        session: Session::Verifying { tunnel_name },
                    },
                    VpnType::OpenVPN => Progress::Finished {
                        result: Ok(VpnStatusInfo::connected(kind, tunnel_name)),
                    },
                },
                _ => Progress::Continue { session: Session::Settling { kind, tunnel_name } },
            },
            Session::Verifying { tunnel_name } => match reply {
                Reply::Ran { .. } | Reply::NotRun { .. } => Progress::Finished {
                    result: Ok(VpnStatusInfo::connected(VpnType::WireGuard, tunnel_name)),
                },
                _ => Progress::Continue { session: Session::Verifying { tunnel_name } },
            },
            Session::Stopping { kind, tunnel_name } => match reply {
                Reply::NotRun { reason } => Progress::Finished {
                    result: Err(VpnError::stop_failed(kind, reason.as_str())),
                },
                Reply::Ran { .. } => Progress::Finished {
                    result: Ok(VpnStatusInfo::disconnected()),
                },
                _ => Progress::Continue { session: Session::Stopping { kind, tunnel_name } },
            },
            Session::QueryingService { tunnel_name, asked } => match reply {
                Reply::Ran { output } => {
                    if service_is_running(output.stdout.as_str()) {
                        Progress::Finished {
                            result: Ok(VpnStatusInfo::connected(VpnType::WireGuard, tunnel_name)),
                        }
                    } else {
                        after_service(asked)
                    }
                },
                Reply::NotRun { .. } => after_service(asked),
                _ => Progress::Continue {
                    session: Session::QueryingService { tunnel_name, asked },
                },
            },
            Session::QueryingProcesses => match reply {
                Reply::Ran { output } => {
                    if openvpn_is_running(output.stdout.as_str()) {
                        Progress::Finished {
                            result: Ok(
                                VpnStatusInfo::connected(
                                    VpnType::OpenVPN,
                                    String::from_str("openvpn"),
                                ),
                            ),
                        }
                    } else {
                        Progress::Finished { result: Ok(VpnStatusInfo::disconnected()) }
                    }
                },
                Reply::NotRun { .. } => Progress::Finished {
                    result: Ok(VpnStatusInfo::disconnected()),
                },
                _ => Progress::Continue { session: Session::QueryingProcesses },
            },
        }
    }
}

// ---------------------------------------------------------------------------
// What holds of every run
// ---------------------------------------------------------------------------

/// Where an operation stands after the caller handed it `replies` in order.
/// Replies that come after the end are not looked at.
pub open spec fn run(progress: ProgressModel, replies: Seq<ReplyModel>) -> ProgressModel
    decreases replies.len(),
{
    if replies.len() == 0 {
        progress
    } else {
        match progress {
            ProgressModel::Continue { session } => run(next(session, replies[0]), replies.skip(1)),
            ProgressModel::Finished { .. } => progress,
        }
    }
}

/// The number of requests that a session may still make.
pub open spec fn requests_left(session: SessionModel) -> nat {
    match session {
        SessionModel::Probing { .. } => 4,
        SessionModel::Launching { .. } => 3,
        SessionModel::Settling { .. } => 2,
        SessionModel::Verifying { .. } => 1,
        SessionModel::Stopping { .. } => 1,
        SessionModel::QueryingService { .. } => 2,
        SessionModel::QueryingProcesses => 1,
    }
}

/// Whether a reply shows a running tunnel: the output of a command that
/// names a running service or an OpenVPN process.
pub open spec fn shows_tunnel(reply: ReplyModel) -> bool {
    reply matches ReplyModel::Ran { output } && (shows_running_service(output.stdout)
        || shows_openvpn_process(output.stdout))
}

/// Whether a session connects a tunnel of the given kind and name.
pub open spec fn connects(session: SessionModel, kind: VpnType, tunnel_name: Seq<char>) -> bool {
    match session {
        SessionModel::Probing { kind: k, tunnel_name: t, .. } => k == kind && t == tunnel_name,
        SessionModel::Launching { kind: k, tunnel_name: t, .. } => k == kind && t == tunnel_name,
        SessionModel::Settling { kind: k, tunnel_name: t } => k == kind && t == tunnel_name,
        SessionModel::Verifying { tunnel_name: t } => kind == VpnType::WireGuard && t
            == tunnel_name,
        _ => false,
    }
}

/// Every answer to the pending request brings a session nearer to its end,
/// and a reply that is no answer leaves the session as it is. So an
/// operation ends after at most four answered requests.
pub proof fn lemma_every_answer_advances(session: SessionModel, reply: ReplyModel)
    ensures
        !answers(pending(session), reply) ==> next(session, reply) == (ProgressModel::Continue {
            session,
        }),
        answers(pending(session), reply) ==> match next(session, reply) {
            ProgressModel::Continue { session: after } => requests_left(after) < requests_left(
                session,
            ),
            ProgressModel::Finished { .. } => true,
        },
{
}

/// An operation whose every request is answered has ended once as many
/// replies came as it had requests left.
pub proof fn lemma_run_ends(session: SessionModel, replies: Seq<ReplyModel>)
    requires
        replies.len() >= requests_left(session),
        forall|i: int|
            0 <= i < replies.len() ==> (#[trigger] run(
                ProgressModel::Continue { session },
                replies.take(i),
            ) matches ProgressModel::Continue { session: at } ==> answers(pending(at), replies[i])),
    ensures
        run(ProgressModel::Continue { session }, replies) is Finished,
    decreases replies.len(),
{
    let start = ProgressModel::Continue { session };
    assert(replies.take(0) == Seq::<ReplyModel>::empty());
    assert(run(start, replies.take(0)) == start);
    assert(answers(pending(session), replies[0]));
    lemma_every_answer_advances(session, replies[0]);
    let rest = replies.skip(1);
    match next(session, replies[0]) {
        ProgressModel::Continue { session: after } => {
            assert forall|i: int| 0 <= i < rest.len() implies (#[trigger] run(
                ProgressModel::Continue { session: after },
                rest.take(i),
            ) matches ProgressModel::Continue { session: at } ==> answers(
                pending(at),
                rest[i],
            )) by {
                let longer = replies.take(i + 1);
                assert(longer.skip(1) == rest.take(i));
                assert(longer[0] == replies[0]);
                assert(run(start, longer) == run(
                    ProgressModel::Continue { session: after },
                    rest.take(i),
                ));
                assert(rest[i] == replies[i + 1]);
            }
            lemma_run_ends(after, rest);
        },
        ProgressModel::Finished { result } => {
            lemma_run_finished(result, rest);
        },
    }
}

/// What is finished stays finished.
pub proof fn lemma_run_finished(result: Result<StatusModel, ErrorModel>, replies: Seq<ReplyModel>)
    ensures
        run(ProgressModel::Finished { result }, replies) == (ProgressModel::Finished { result }),
{
}

/// Whether `info` is a report that a status query for the given tunnel
/// name and kind can end with: no tunnel, the named WireGuard tunnel where
/// WireGuard was asked for, or the OpenVPN connection where OpenVPN was
/// asked for.
pub open spec fn is_status_report(
    tunnel_name: Option<Seq<char>>,
    kind: Option<VpnType>,
    info: StatusModel,
) -> bool {
    ||| info == disconnected()
    ||| tunnel_name matches Some(name) && asks_wireguard(kind) && info == connected(
        VpnType::WireGuard,
        name,
    )
    ||| asks_openvpn(kind) && info == connected(VpnType::OpenVPN, openvpn_tunnel_name())
}

/// Whether a status query for the given tunnel name and kind can stand at
/// `progress`.
pub open spec fn is_status_progress(
    tunnel_name: Option<Seq<char>>,
    kind: Option<VpnType>,
    progress: ProgressModel,
) -> bool {
    match progress {
        ProgressModel::Continue { session } => match session {
            SessionModel::QueryingService { tunnel_name: name, asked } => tunnel_name == Some(name)
                && asked == kind && asks_wireguard(kind),
            SessionModel::QueryingProcesses => asks_openvpn(kind),
            _ => false,
        },
        ProgressModel::Finished { result } => result == Ok::<StatusModel, ErrorModel>(
            disconnected(),
        ),
    }
}

/// A status query never fails. It reports a tunnel only of a kind that was
/// asked for, and where no reply shows a running tunnel it reports that
/// there is none, with neither a kind nor a tunnel name.
pub proof fn lemma_status_run(
    tunnel_name: Option<Seq<char>>,
    kind: Option<VpnType>,
    replies: Seq<ReplyModel>,
)
    ensures
        run(status_start(tunnel_name, kind), replies) matches ProgressModel::Finished { result }
            ==> result matches Ok(info) && is_status_report(tunnel_name, kind, info),
        (forall|i: int| 0 <= i < replies.len() ==> !shows_tunnel(#[trigger] replies[i])) ==> (run(
            status_start(tunnel_name, kind),
            replies,
        ) matches ProgressModel::Finished { result } ==> result == Ok::<StatusModel, ErrorModel>(
            disconnected(),
        )),
{
    lemma_status_run_from(tunnel_name, kind, status_start(tunnel_name, kind), replies);
}

/// The same, from any point of a status query.
proof fn lemma_status_run_from(
    tunnel_name: Option<Seq<char>>,
    kind: Option<VpnType>,
    progress: ProgressModel,
    replies: Seq<ReplyModel>,
)
    requires
        is_status_progress(tunnel_name, kind, progress),
    ensures
        run(progress, replies) matches ProgressModel::Finished { result } ==> result matches Ok(
            info,
        ) && is_status_report(tunnel_name, kind, info),
        (forall|i: int| 0 <= i < replies.len() ==> !shows_tunnel(#[trigger] replies[i])) ==> (run(
            progress,
            replies,
        ) matches ProgressModel::Finished { result } ==> result == Ok::<StatusModel, ErrorModel>(
            disconnected(),
        )),
    decreases replies.len(),
{
    if replies.len() > 0 {
        match progress {
            ProgressModel::Continue { session } => {
                let after = next(session, replies[0]);
                let rest = replies.skip(1);
                let quiet = forall|i: int|
                    0 <= i < replies.len() ==> !shows_tunnel(#[trigger] replies[i]);
                if quiet {
                    assert(!shows_tunnel(replies[0]));
                    assert forall|i: int| 0 <= i < rest.len() implies !shows_tunnel(
                        #[trigger] rest[i],
                    ) by {
                        assert(rest[i] == replies[i + 1]);
                    }
                }
                match after {
                    ProgressModel::Continue { session: s } => {
                        lemma_status_run_from(tunnel_name, kind, after, rest);
                    },
                    ProgressModel::Finished { result } => {
                        lemma_run_finished(result, rest);
                    },
                }
            },
            ProgressModel::Finished { .. } => {},
        }
    }
}

/// Connecting ends in one of two ways: with the tunnel reported as
/// connected, under the kind and the name that the session began with, or
/// with one of the failures of the launch. It reports nothing else, also
/// where the tunnel's service was not seen running.
pub proof fn lemma_connect_run(
    kind: VpnType,
    config_path: Seq<char>,
    stem: Option<Seq<char>>,
    replies: Seq<ReplyModel>,
)
    ensures
        run(
            ProgressModel::Continue { session: connect_start(kind, config_path, stem) },
            replies,
        ) matches ProgressModel::Finished { result } ==> match result {
            Ok(info) => info == connected(
                kind,
                match kind {
                    VpnType::WireGuard => tunnel_name_of(stem),
                    VpnType::OpenVPN => openvpn_tunnel_name(),
                },
            ),
            Err(e) => is_connect_failure(kind, e),
        },
{
    let session = connect_start(kind, config_path, stem);
    let name = match kind {
        VpnType::WireGuard => tunnel_name_of(stem),
        VpnType::OpenVPN => openvpn_tunnel_name(),
    };
    lemma_connect_run_from(session, kind, name, replies);
}

/// Whether `e` is a failure that connecting reports: the client is not
/// installed, the user declined, the launcher could not be started, or the
/// client printed an error.
pub open spec fn is_connect_failure(kind: VpnType, e: ErrorModel) -> bool {
    ||| e == not_installed(kind)
    ||| e == cancelled()
    ||| exists|reason: Seq<char>| e == start_failed(kind, reason)
    ||| exists|stderr: Seq<char>| stderr.len() > 0 && e == client_failed(kind, stderr)
}

/// The same, from any point of connecting.
proof fn lemma_connect_run_from(
    session: SessionModel,
    kind: VpnType,
    tunnel_name: Seq<char>,
    replies: Seq<ReplyModel>,
)
    requires
        connects(session, kind, tunnel_name),
    ensures
        run(ProgressModel::Continue { session }, replies) matches ProgressModel::Finished { result }
            ==> match result {
            Ok(info) => info == connected(kind, tunnel_name),
            Err(e) => is_connect_failure(kind, e),
        },
    decreases replies.len(),
{
    if replies.len() > 0 {
        let reply = replies[0];
        let rest = replies.skip(1);
        match next(session, reply) {
            ProgressModel::Continue { session: after } => {
                lemma_connect_run_from(after, kind, tunnel_name, rest);
            },
            ProgressModel::Finished { result } => {
                lemma_run_finished(result, rest);
                match result {
                    Ok(info) => {},
                    Err(e) => {
                        match (session, reply) {
                            (SessionModel::Launching { .. }, ReplyModel::NotRun { reason }) => {
                                assert(e == start_failed(kind, reason));
                            },
                            (SessionModel::Launching { .. }, ReplyModel::Ran { output }) => {
                                if launch_verdict(kind, output) == LaunchVerdict::Failed {
                                    assert(output.stderr.len() > 0);
                                    assert(e == client_failed(kind, output.stderr));
                                }
                            },
                            _ => {},
                        }
                    },
                }
            },
        }
    }
}

/// Disconnecting reports that there is no tunnel whenever the stop command
/// ran, whatever it printed, and fails only where it could not be started.
pub proof fn lemma_disconnect_run(
    kind: VpnType,
    tunnel_name: Seq<char>,
    replies: Seq<ReplyModel>,
)
    ensures
        run(
            ProgressModel::Continue { session: disconnect_start(kind, tunnel_name) },
            replies,
        ) matches ProgressModel::Finished { result } ==> match result {
            Ok(info) => info == disconnected(),
            Err(e) => exists|reason: Seq<char>| e == stop_failed(kind, reason),
        },
    decreases replies.len(),
{
    if replies.len() > 0 {
        let session = disconnect_start(kind, tunnel_name);
        let reply = replies[0];
        let rest = replies.skip(1);
        match next(session, reply) {
            ProgressModel::Continue { session: after } => {
                assert(after == session);
                lemma_disconnect_run(kind, tunnel_name, rest);
            },
            ProgressModel::Finished { result } => {
                lemma_run_finished(result, rest);
                match reply {
                    ReplyModel::NotRun { reason } => {
                        assert(result == Err::<StatusModel, ErrorModel>(
                            stop_failed(kind, reason),
                        ));
                    },
                    _ => {},
                }
            },
        }
    }
}

/// Connecting fails at once, as not installed, where the client binary is
/// missing: nothing is launched.
pub proof fn lemma_missing_binary(
    kind: VpnType,
    config_path: Seq<char>,
    stem: Option<Seq<char>>,
)
    ensures
        pending(connect_start(kind, config_path, stem)) == (RequestModel::ProbeFile {
            path: binary_path(kind),
        }),
        next(connect_start(kind, config_path, stem), ReplyModel::Probed { exists: false }) == (
        ProgressModel::Finished { result: Err(not_installed(kind)) }),
        not_installed(kind).kind == ErrorKind::NotFound,
{
}

} // verus!
