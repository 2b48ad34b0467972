//! Opening, validating and closing projects.

use crate::auth::{build_auth_method, resolves_to, AuthError, CredentialSpec, Platform};
use crate::commands::terminal::{shell_sink, shell_sinks};
use crate::commands::{check, checked, ExecEvent, Request};
use crate::error::{Error, LookupError};
use crate::models::{Project, ProjectInfo, TerminalConnection};
use crate::seqs::lemma_filter_first;
use crate::ssh::{host_of, parse_host_port, port_of, ConnectError};
use crate::state::{
    add_project, contains_key, count_key, get_project_by_key, lemma_added, lemma_removed, other_key,
    project_of, take_projects, unique_keys, with_key, Registry,
};
use crate::text::{chars_of, opt_chars, string_of, trim, trimmed};
use vstd::prelude::*;
use vstd::string::*;

verus! {

/// The seconds allowed for the handshake when a connection is only tried out.
pub const VALIDATE_TIMEOUT_SECS: u64 = 5;

/// The seconds allowed for the handshake when a project is opened.
pub const START_TIMEOUT_SECS: u64 = 10;

/// What the transport needs to open a session.
#[derive(Debug, Clone, PartialEq, Eq)]
pub struct ConnectRequest {
    pub hostname: String,
    pub port: u16,
    pub user: String,
    pub credential: CredentialSpec,
    /// The time allowed for all of the handshake.
    pub timeout_secs: u64,
}

/// The characters of an optional string.
pub open spec fn opt_view(s: Option<String>) -> Option<Seq<char>> {
    match s {
        Some(s) => Some(s@),
        None => None,
    }
}

/// An optional string as an optional slice.
fn as_opt_str(s: &Option<String>) -> (r: Option<&str>)
    ensures
        opt_chars(r) == opt_view(*s),
{
    match s {
        Some(s) => Some(s.as_str()),
        None => None,
    }
}

/// Whether `r` is where to connect and with what credential for these inputs:
/// the host string split into host name and port, and the method and its
/// inputs resolved; or the error of credentials that do not resolve.
pub open spec fn requests(
    r: Result<ConnectRequest, AuthError>,
    host: Seq<char>,
    user: Seq<char>,
    password: Option<Seq<char>>,
    key_file: Option<Seq<char>>,
    public_key_file: Option<Seq<char>>,
    auth_method: Seq<char>,
    platform: Platform,
    timeout_secs: u64,
) -> bool {
    &&& resolves_to(
        match r {
            Ok(request) => Ok(request.credential@),
            Err(e) => Err(e@),
        },
        auth_method,
        password,
        key_file,
        public_key_file,
        platform,
    )
    &&& r matches Ok(request) ==> {
        &&& request.hostname@ == host_of(host)
        &&& request.port == port_of(host)
        &&& request.user@ == user
        &&& request.timeout_secs == timeout_secs
    }
}

/// Where to connect and with what credential.
pub fn connect_request(
    host: &str,
    user: &str,
    password: Option<&str>,
    key_file: Option<&str>,
    public_key_file: Option<&str>,
    auth_method: &str,
    platform: &Platform,
    timeout_secs: u64,
) -> (r: Result<ConnectRequest, AuthError>)
    ensures
        requests(
            r,
            host@,
            user@,
            opt_chars(password),
            opt_chars(key_file),
            opt_chars(public_key_file),
            auth_method@,
            *platform,
            timeout_secs,
        ),
{
    let host_port = parse_host_port(host);
    match build_auth_method(auth_method, password, key_file, public_key_file, platform) {
        Ok(credential) => Ok(
            ConnectRequest {
                hostname: host_port.hostname,
                port: host_port.port,
                user: user.to_string(),
                credential,
                timeout_secs,
            },
        ),
        Err(e) => Err(e),
    }
}

/// What the user gave to open a project.
#[derive(Debug, Clone, PartialEq, Eq)]
pub struct ProjectRequest {
    pub key: String,
    pub name: String,
    pub host: String,
    pub user: String,
    pub password: Option<String>,
    pub key_file: Option<String>,
    pub public_key_file: Option<String>,
    pub auth_method: String,
}

/// What a handshake is for.
#[derive(Debug, Clone, PartialEq, Eq)]
pub enum Goal {
    /// To learn whether a connection can be made.
    Validate,
    /// To open this project.
    Start(ProjectRequest),
}

/// The progress of a handshake: connect, then run a command to see that the
/// session works.
#[derive(Debug, Clone, PartialEq, Eq)]
pub enum Handshake<S> {
    /// The connection is being made.
    Connecting { goal: Goal },
    /// The test command runs on the new session.
    Probing { goal: Goal, connection: S },
    /// Nothing is left to do.
    Done,
}

/// What happened on the remote side during a handshake.
#[derive(Debug, Clone, PartialEq, Eq)]
pub enum ConnectEvent<S> {
    /// The session is open.
    Connected(S),
    /// The session could not be opened.
    ConnectFailed(ConnectError),
    /// The test command has ended.
    Probed(ExecEvent),
}

/// What to do next in a handshake.
#[derive(Debug, Clone, PartialEq, Eq)]
pub enum ConnectAction {
    /// Open a session.
    Connect(ConnectRequest),
    /// Run this command on the new session.
    Execute(String),
    /// The connection can be made.
    Validated,
    /// The project is open; show it to the user.
    OpenView { key: String, name: String },
    /// The handshake has failed.
    Fail(Error),
}

/// The command that tests a new session.
pub open spec fn probe_text(goal: Goal) -> Seq<char> {
    match goal {
        Goal::Validate => "echo connection_test"@,
        Goal::Start(_) => "echo start_project_test"@,
    }
}

/// The state and the action that start a handshake.
fn begin<S>(goal: Goal, request: Result<ConnectRequest, AuthError>) -> (r: (
    Handshake<S>,
    ConnectAction,
))
    ensures
        match request {
            Ok(request) => r.0 == (Handshake::<S>::Connecting { goal }) && r.1
                == ConnectAction::Connect(request),
            Err(e) => r.0 is Done && r.1 == ConnectAction::Fail(Error::Auth(e)),
        },
{
    match request {
        Ok(request) => (Handshake::Connecting { goal }, ConnectAction::Connect(request)),
        Err(e) => (Handshake::Done, ConnectAction::Fail(Error::Auth(e))),
    }
}

/// Whether `r` starts a handshake towards `goal` with these inputs: it says
/// what connection to make, or fails, before anything is sent, on credentials
/// that do not resolve.
pub open spec fn begun<S>(
    r: (Handshake<S>, ConnectAction),
    goal: Goal,
    host: Seq<char>,
    user: Seq<char>,
    password: Option<Seq<char>>,
    key_file: Option<Seq<char>>,
    public_key_file: Option<Seq<char>>,
    auth_method: Seq<char>,
    platform: Platform,
    timeout_secs: u64,
) -> bool {
    match r.1 {
        ConnectAction::Connect(request) => r.0 == (Handshake::<S>::Connecting { goal }) && requests(
            Ok(request),
            host,
            user,
            password,
            key_file,
            public_key_file,
            auth_method,
            platform,
            timeout_secs,
        ),
        ConnectAction::Fail(Error::Auth(e)) => r.0 is Done && requests(
            Err(e),
            host,
            user,
            password,
            key_file,
            public_key_file,
            auth_method,
            platform,
            timeout_secs,
        ),
        _ => false,
    }
}

/// Starts trying out a connection: resolves host and credentials, and says
/// what connection to make.
pub fn validate_ssh_connection<S>(
    host: &str,
    user: &str,
    password: Option<&str>,
    key_file: Option<&str>,
    public_key_file: Option<&str>,
    auth_method: &str,
    platform: &Platform,
) -> (r: (Handshake<S>, ConnectAction))
    ensures
        begun(
            r,
            Goal::Validate,
            host@,
            user@,
            opt_chars(password),
            opt_chars(key_file),
            opt_chars(public_key_file),
            auth_method@,
            *platform,
            VALIDATE_TIMEOUT_SECS,
        ),
{
    let request = connect_request(
        host,
        user,
        password,
        key_file,
        public_key_file,
        auth_method,
        platform,
        VALIDATE_TIMEOUT_SECS,
    );
    begin(Goal::Validate, request)
}

/// Starts opening a project: resolves host and credentials, and says what
/// connection to make.
pub fn start_project<S>(project: ProjectRequest, platform: &Platform) -> (r: (
    Handshake<S>,
    ConnectAction,
))
    ensures
        begun(
            r,
            Goal::Start(project),
            project.host@,
            project.user@,
            opt_view(project.password),
            opt_view(project.key_file),
            opt_view(project.public_key_file),
            project.auth_method@,
            *platform,
            START_TIMEOUT_SECS,
        ),
{
    let request = connect_request(
        project.host.as_str(),
        project.user.as_str(),
        as_opt_str(&project.password),
        as_opt_str(&project.key_file),
        as_opt_str(&project.public_key_file),
        project.auth_method.as_str(),
        platform,
        START_TIMEOUT_SECS,
    );
    begin(Goal::Start(project), request)
}

/// Whether `after` is `before` with one more project at its end, made of what
/// the user gave and the session, without terminals.
pub open spec fn registered<S, I>(
    before: Seq<Project<S, I>>,
    after: Seq<Project<S, I>>,
    project: ProjectRequest,
    connection: S,
) -> bool {
    &&& after.len() == before.len() + 1
    &&& after.drop_last() == before
    &&& after.last().key == project.key
    &&& after.last().name == project.name
    &&& after.last().user == project.user
    &&& after.last().host == project.host
    &&& after.last().password == project.password
    &&& after.last().key_file == project.key_file
    &&& after.last().public_key_file == project.public_key_file
    &&& after.last().auth_method == project.auth_method
    &&& after.last().main_connection == connection
    &&& after.last().terminal_connections@.len() == 0
}

/// Whether `r` and `after` are what one step of a handshake makes of `state`,
/// `event` and `before`. The registry changes in one case only: the test
/// command of a project's handshake has succeeded and no project has the key.
pub open spec fn connect_step<S, I>(
    state: Handshake<S>,
    event: ConnectEvent<S>,
    before: Seq<Project<S, I>>,
    r: (Handshake<S>, ConnectAction),
    after: Seq<Project<S, I>>,
) -> bool {
    match (state, event) {
        (Handshake::Connecting { goal }, ConnectEvent::Connected(connection)) => {
            &&& after == before
            &&& r.0 == (Handshake::Probing { goal, connection })
            &&& r.1 matches ConnectAction::Execute(command)
            &&& command@ == probe_text(goal)
        },
        (Handshake::Connecting { goal }, ConnectEvent::ConnectFailed(e)) => {
            &&& after == before
            &&& r.0 is Done
            &&& r.1 == ConnectAction::Fail(Error::Connect(e))
        },
        (Handshake::Probing { goal, connection }, ConnectEvent::Probed(outcome)) => match checked(
            outcome,
        ) {
            Ok(_) => match goal {
                Goal::Validate => after == before && r.0 is Done && r.1 == ConnectAction::Validated,
                Goal::Start(project) => if contains_key(before, project.key@) {
                    &&& after == before
                    &&& r.0 is Done
                    &&& r.1 == ConnectAction::Fail(Error::DuplicateKey)
                } else {
                    &&& registered(before, after, project, connection)
                    &&& r.0 is Done
                    &&& r.1 == (ConnectAction::OpenView { key: project.key, name: project.name })
                },
            },
            Err(e) => after == before && r.0 is Done && r.1 == ConnectAction::Fail(e),
        },
        _ => after == before && r.0 is Done && r.1 == ConnectAction::Fail(Error::UnexpectedEvent),
    }
}

/// Whatever a step of a handshake ends with, the registry holds the project
/// once or is as it was: a step that ends with the project shown has put it
/// into the registry, and exactly one project has its key; any other step has
/// left the registry as it was, so that a key that no project had is still the
/// key of none.
pub proof fn lemma_registered_once<S, I>(
    state: Handshake<S>,
    event: ConnectEvent<S>,
    before: Seq<Project<S, I>>,
    r: (Handshake<S>, ConnectAction),
    after: Seq<Project<S, I>>,
)
    requires
        connect_step(state, event, before, r, after),
    ensures
        match r.1 {
            ConnectAction::OpenView { key, name } => {
                &&& state matches Handshake::Probing { goal: Goal::Start(project), connection }
                &&& key == project.key
                &&& !contains_key(before, key@)
                &&& count_key(after, key@) == 1
                &&& after.last().key == key
            },
            _ => after == before,
        },
        unique_keys(before) ==> unique_keys(after),
{
    match r.1 {
        ConnectAction::OpenView { key, name } => {
            assert(after =~= before.push(after.last()));
            lemma_added(before, after.last());
        },
        _ => {},
    }
}

/// Takes a handshake one step on with what happened on the remote side. A
/// project enters the registry only when its session is open and the test
/// command has succeeded on it.
pub fn advance_connection<S, I>(
    state: Handshake<S>,
    event: ConnectEvent<S>,
    registry: &mut Registry<S, I>,
) -> (r: (Handshake<S>, ConnectAction))
    ensures
        connect_step(state, event, old(registry)@, r, final(registry)@),
        unique_keys(old(registry)@) ==> unique_keys(final(registry)@),
        match r.1 {
            ConnectAction::OpenView { key, name } => count_key(final(registry)@, key@) == 1,
            _ => final(registry)@ == old(registry)@,
        },
{
    match (state, event) {
        (Handshake::Connecting { goal }, ConnectEvent::Connected(connection)) => {
            let command = match &goal {
                Goal::Validate => "echo connection_test".to_string(),
                Goal::Start(_) => "echo start_project_test".to_string(),
            };
            (Handshake::Probing { goal, connection }, ConnectAction::Execute(command))
        },
        (Handshake::Connecting { goal: _ }, ConnectEvent::ConnectFailed(e)) => (
            Handshake::Done,
            ConnectAction::Fail(Error::Connect(e)),
        ),
        (Handshake::Probing { goal, connection }, ConnectEvent::Probed(outcome)) => match check(
            outcome,
        ) {
            Ok(_) => match goal {
                Goal::Validate => (Handshake::Done, ConnectAction::Validated),
                Goal::Start(project) => {
                    let key = project.key.clone();
                    let name = project.name.clone();
                    let entry = Project {
                        key: project.key,
                        name: project.name,
                        user: project.user,
                        host: project.host,
                        password: project.password,
                        key_file: project.key_file,
                        public_key_file: project.public_key_file,
                        auth_method: project.auth_method,
                        main_connection: connection,
                        terminal_connections: Vec::new(),
                    };
                    match add_project(registry, entry) {
                        Ok(()) => {
                            assert(registry@.drop_last() =~= old(registry)@);
                            (Handshake::Done, ConnectAction::OpenView { key, name })
                        },
                        Err(e) => (Handshake::Done, ConnectAction::Fail(e)),
                    }
                },
            },
            Err(e) => (Handshake::Done, ConnectAction::Fail(e)),
        },
        _ => (Handshake::Done, ConnectAction::Fail(Error::UnexpectedEvent)),
    }
}

/// What the user interface is told of the project with the key.
pub fn get_project<S, I>(registry: &Registry<S, I>, key: &str) -> (r: Result<
    ProjectInfo,
    LookupError,
>)
    ensures
        match r {
            Ok(info) => {
                let project = project_of(registry@, key@);
                &&& contains_key(registry@, key@)
                &&& info.key == project.key
                &&& info.name == project.name
                &&& info.user == project.user
                &&& info.host == project.host
                &&& info.auth_method == project.auth_method
            },
            Err(e) => e == LookupError::ProjectNotFound && !contains_key(registry@, key@),
        },
{
    let project = get_project_by_key(registry, key)?;
    Ok(
        ProjectInfo {
            key: project.key.clone(),
            name: project.name.clone(),
            user: project.user.clone(),
            host: project.host.clone(),
            auth_method: project.auth_method.clone(),
        },
    )
}

/// The command that tells the working directory of a project's session, to run
/// on that session.
pub fn get_current_pwd<'a, S, I>(registry: &'a Registry<S, I>, key: &str) -> (r: Result<
    Request<'a, S>,
    LookupError,
>)
    ensures
        match r {
            Ok(request) => {
                &&& contains_key(registry@, key@)
                &&& request.command@ == "pwd"@
                &&& *request.connection == project_of(registry@, key@).main_connection
            },
            Err(e) => e == LookupError::ProjectNotFound && !contains_key(registry@, key@),
        },
{
    let project = get_project_by_key(registry, key)?;
    Ok(Request { connection: &project.main_connection, command: "pwd".to_string() })
}

/// The working directory that the outcome of `pwd` tells: what the command
/// wrote, without the white space around it.
pub fn current_pwd(event: ExecEvent) -> (r: Result<String, Error>)
    ensures
        match checked(event) {
            Ok(output) => r matches Ok(path) && path@ == trimmed(output.stdout@),
            Err(e) => r == Err::<String, Error>(e),
        },
{
    match check(event) {
        Ok(output) => Ok(string_of(&trim(&chars_of(output.stdout.as_str())))),
        Err(e) => Err(e),
    }
}

/// The sinks of the shells that run in the terminals, taken out of them.
fn take_sinks<I>(terminals: &mut Vec<TerminalConnection<I>>) -> (r: Vec<I>)
    ensures
        r@ == shell_sinks(old(terminals)@),
{
    let ghost all = terminals@;
    let ghost f = |t: TerminalConnection<I>| shell_sink(t);
    let mut sinks: Vec<I> = Vec::new();
    let mut i: usize = 0;
    assert(all.take(0).filter_map(f) =~= Seq::<I>::empty());
    while i < terminals.len()
        invariant
            i <= terminals.len(),
            terminals@.len() == all.len(),
            forall|j: int| i <= j < all.len() ==> terminals@[j] == all[j],
            sinks@ == all.take(i as int).filter_map(f),
            f == |t: TerminalConnection<I>| shell_sink(t),
        decreases terminals.len() - i,
    {
        proof {
            all.lemma_filter_map_take_succ(f, i as int);
        }
        match terminals[i].current_executions.pop() {
            Some(execution) => {
                sinks.push(execution.stdin_tx);
            },
            None => {},
        }
        i = i + 1;
    }
    assert(all.take(all.len() as int) =~= all);
    sinks
}

/// Closes a project: removes it from the registry with all its terminals, and
/// hands out the sinks of the shells that run in them, for the bytes that ask
/// a shell to end to be sent to each.
pub fn close_project<S, I>(registry: &mut Registry<S, I>, key: &str) -> (r: Result<
    Vec<I>,
    LookupError,
>)
    ensures
        final(registry)@ == old(registry)@.filter(other_key(key@)),
        !contains_key(final(registry)@, key@),
        unique_keys(old(registry)@) ==> unique_keys(final(registry)@),
        match r {
            Ok(sinks) => contains_key(old(registry)@, key@) && sinks@ == shell_sinks(
                project_of(old(registry)@, key@).terminal_connections@,
            ),
            Err(e) => e == LookupError::ProjectNotFound && !contains_key(old(registry)@, key@)
                && final(registry)@ == old(registry)@,
        },
{
    proof {
        lemma_removed(registry@, key@);
        lemma_filter_first(registry@, with_key::<S, I>(key@));
    }
    let mut taken = take_projects(registry, key);
    if taken.len() == 0 {
        return Err(LookupError::ProjectNotFound);
    }
    let mut project = taken.remove(0);
    Ok(take_sinks(&mut project.terminal_connections))
}

} // verus!
