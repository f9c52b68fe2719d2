//! Tilt sessions that outlive the dashboard: their records, how they are
//! started, and how they are stopped.

use vstd::prelude::*;

use crate::digest;
use crate::panel;
use crate::paths;
use crate::project;
use crate::project::Project;
use crate::text;
use crate::tilt::model;

verus! {

// ---------------------------------------------------------------------------
// Records
// ---------------------------------------------------------------------------

/// How far a session has got.
#[derive(Clone, Copy, Debug, PartialEq, Eq, Structural)]
pub enum SessionPhase {
    Running,
    Exited,
}

/// What is known of a session.
#[derive(Debug, PartialEq, Eq)]
pub struct SessionRecord {
    pub tiltfile: String,
    pub project_root: String,
    pub port: u16,
    pub runner_pid: u32,
    pub tilt_pid: u32,
    pub started_unix_ms: u64,
    pub phase: SessionPhase,
    pub exit_code: Option<i32>,
}

impl Clone for SessionRecord {
    fn clone(&self) -> (copy: Self)
        ensures
            copy == *self,
    {
        SessionRecord {
            tiltfile: self.tiltfile.clone(),
            project_root: self.project_root.clone(),
            port: self.port,
            runner_pid: self.runner_pid,
            tilt_pid: self.tilt_pid,
            started_unix_ms: self.started_unix_ms,
            phase: self.phase,
            exit_code: self.exit_code,
        }
    }
}

/// A project that a session is to be started for.
#[derive(Debug, PartialEq, Eq)]
pub struct StartRequest {
    pub project_root: String,
    pub tiltfile: String,
}

/// A project that a session is to be started for, as mathematics has it.
pub struct RequestView {
    pub project_root: Seq<char>,
    pub tiltfile: Seq<char>,
}

impl View for StartRequest {
    type V = RequestView;

    open spec fn view(&self) -> RequestView {
        RequestView { project_root: self.project_root@, tiltfile: self.tiltfile@ }
    }
}

/// The key under which all that belongs to a Tiltfile is kept.
pub fn project_key(tiltfile: &str) -> (key: String)
    ensures
        key@ == digest::key_of(tiltfile@),
        digest::is_key(key@),
{
    digest::key(tiltfile)
}

/// Where the record of a Tiltfile's session is kept.
pub open spec fn record_file(state_dir: Seq<char>, tiltfile: Seq<char>) -> Seq<char> {
    panel::document_path(state_dir, "sessions"@, digest::key_of(tiltfile), ".json"@)
}

/// Where the record of a Tiltfile's session is kept.
pub fn record_path(state_dir: &str, tiltfile: &str) -> (path: String)
    ensures
        path@ == record_file(state_dir@, tiltfile@),
        digest::is_key(digest::key_of(tiltfile@)),
{
    panel::document_file(state_dir, "sessions", project_key(tiltfile).as_str(), ".json")
}

/// The lock that a Tiltfile's session holds as long as it runs.
pub open spec fn lock_file(state_dir: Seq<char>, tiltfile: Seq<char>) -> Seq<char> {
    panel::document_path(state_dir, "sessions"@, digest::key_of(tiltfile), ".lock"@)
}

/// The lock that a Tiltfile's session holds as long as it runs.
pub fn lock_path(state_dir: &str, tiltfile: &str) -> (path: String)
    ensures
        path@ == lock_file(state_dir@, tiltfile@),
        digest::is_key(digest::key_of(tiltfile@)),
{
    panel::document_file(state_dir, "sessions", project_key(tiltfile).as_str(), ".lock")
}

/// Where the output of a Tiltfile's session is kept.
pub open spec fn log_file(state_dir: Seq<char>, tiltfile: Seq<char>) -> Seq<char> {
    panel::document_path(state_dir, "logs"@, digest::key_of(tiltfile), ".log"@)
}

/// Where the output of a Tiltfile's session is kept.
pub fn log_path(state_dir: &str, tiltfile: &str) -> (path: String)
    ensures
        path@ == log_file(state_dir@, tiltfile@),
        digest::is_key(digest::key_of(tiltfile@)),
{
    panel::document_file(state_dir, "logs", project_key(tiltfile).as_str(), ".log")
}

/// Where the request to start a session from a workspace is kept.
pub open spec fn request_file(state_dir: Seq<char>, workspace_id: Seq<char>) -> Seq<char> {
    panel::document_path(state_dir, "start-requests"@, digest::key_of(workspace_id), ".json"@)
}

/// Where the request to start a session from a workspace is kept.
pub fn start_request_path(state_dir: &str, workspace_id: &str) -> (path: String)
    ensures
        path@ == request_file(state_dir@, workspace_id@),
        digest::is_key(digest::key_of(workspace_id@)),
{
    panel::document_file(state_dir, "start-requests", digest::key(workspace_id).as_str(), ".json")
}

/// Where the record of a project's session is kept, if the project has a
/// Tiltfile: without one it has no session.
pub fn session_file(project: &Project, state_dir: &str) -> (path: Option<String>)
    ensures
        model::optional_text(path) == match project@.tiltfile {
            Some(tiltfile) => Some(record_file(state_dir@, tiltfile)),
            None => None,
        },
{
    match &project.tiltfile {
        Some(tiltfile) => Some(record_path(state_dir, tiltfile.as_str())),
        None => None,
    }
}

// ---------------------------------------------------------------------------
// Requests
// ---------------------------------------------------------------------------

/// What is said where a session needs a Tiltfile and there is none.
pub open spec fn no_tiltfile() -> Seq<char> {
    "No Tiltfile found in this workspace"@
}

/// What is said where a session needs a Tiltfile and there is none.
pub fn no_tiltfile_message() -> (message: String)
    ensures
        message@ == no_tiltfile(),
{
    "No Tiltfile found in this workspace".to_owned()
}

/// A request to start a session, and where to keep it.
#[derive(Debug, PartialEq, Eq)]
pub struct PreparedRequest {
    pub path: String,
    pub request: StartRequest,
}

/// The request that hands over a project, if the project has a Tiltfile.
pub open spec fn request_of(project: project::ProjectView) -> Option<RequestView> {
    match project.tiltfile {
        Some(tiltfile) => Some(RequestView { project_root: project.root, tiltfile }),
        None => None,
    }
}

/// The request that hands a project to the session that is to be started from a
/// workspace. Outside of a workspace there is none.
pub fn prepare_start_request(project: &Project, state_dir: &str, workspace_id: Option<&str>) -> (
    prepared: Result<Option<PreparedRequest>, String>)
    ensures
        match prepared {
            Ok(None) => workspace_id is None,
            Ok(Some(found)) => {
                &&& workspace_id is Some
                &&& request_of(project@) == Some(found.request@)
                &&& found.path@ == request_file(state_dir@, workspace_id->0@)
            },
            Err(message) => workspace_id is Some && request_of(project@) is None && message@
                == no_tiltfile(),
        },
{
    match workspace_id {
        None => Ok(None),
        Some(workspace_id) => match &project.tiltfile {
            None => Err(no_tiltfile_message()),
            Some(tiltfile) => Ok(
                Some(
                    PreparedRequest {
                        path: start_request_path(state_dir, workspace_id),
                        request: StartRequest {
                            project_root: project.root.clone(),
                            tiltfile: tiltfile.clone(),
                        },
                    },
                ),
            ),
        },
    }
}

/// Where a session that is started from a workspace looks for a request.
/// Outside of a workspace it does not look.
pub open spec fn requested_file(state_dir: Seq<char>, workspace_id: Option<Seq<char>>) -> Option<
    Seq<char>,
> {
    match workspace_id {
        Some(id) => Some(request_file(state_dir, id)),
        None => None,
    }
}

/// Where a session that is started from a workspace looks for a request.
pub fn requested_path(state_dir: &str, workspace_id: Option<&str>) -> (path: Option<String>)
    ensures
        model::optional_text(path) == requested_file(
            state_dir@,
            match workspace_id {
                Some(id) => Some(id@),
                None => None,
            },
        ),
{
    match workspace_id {
        Some(id) => Some(start_request_path(state_dir, id)),
        None => None,
    }
}

/// What follows from the search for a request.
#[derive(Debug, PartialEq, Eq)]
pub enum TakeStep {
    /// There is no request.
    Nothing,
    /// There is one: remove it from where it is kept, then read it.
    Consume(String),
}

/// What follows from the search for a request, as mathematics has it.
pub enum TakeView {
    Nothing,
    Consume(Seq<char>),
}

impl View for TakeStep {
    type V = TakeView;

    open spec fn view(&self) -> TakeView {
        match self {
            TakeStep::Nothing => TakeView::Nothing,
            TakeStep::Consume(path) => TakeView::Consume(path@),
        }
    }
}

/// A request that is found is used up before anything else is done with it.
pub open spec fn take_of(path: Option<Seq<char>>, found: bool) -> TakeView {
    match path {
        Some(file) => if found {
            TakeView::Consume(file)
        } else {
            TakeView::Nothing
        },
        None => TakeView::Nothing,
    }
}

/// What follows from where a session looks for a request and whether it found
/// one there.
pub fn take_start_request(path: Option<String>, found: bool) -> (step: TakeStep)
    ensures
        step@ == take_of(model::optional_text(path), found),
{
    match path {
        Some(file) => {
            if found {
                TakeStep::Consume(file)
            } else {
                TakeStep::Nothing
            }
        },
        None => TakeStep::Nothing,
    }
}

/// Whether a file stands in a directory itself, not below it.
pub open spec fn stands_in(file: Seq<char>, directory: Seq<char>) -> bool {
    let parts = paths::components(file);
    &&& parts.len() > 0
    &&& parts != seq![seq!['/']]
    &&& parts.drop_last() == paths::components(directory)
}

fn has_parent(file: &str, directory: &str) -> (found: bool)
    ensures
        found == stands_in(file@, directory@),
{
    let mut parts = paths::path_components(file);
    let ghost all = text::texts(parts@);
    assert(all.len() == parts@.len());
    if parts.len() == 0 {
        return false;
    }
    proof {
        reveal_strlit("/");
        assert("/"@ =~= seq!['/']);
        assert(all[0] == parts@[0]@);
        if parts@.len() == 1 && all[0] == seq!['/'] {
            assert(all =~= seq![seq!['/']]);
        }
        if all == seq![seq!['/']] {
            assert(all[0] == seq!['/']);
            assert(parts@.len() == 1);
        }
    }
    if parts.len() == 1 && text::text_eq(parts[0].as_str(), "/") {
        return false;
    }
    let _ = parts.pop();
    assert(text::texts(parts@) =~= all.drop_last());
    paths::equal_texts(&parts, &paths::path_components(directory))
}

/// The project that a request hands over, if its Tiltfile is a file of that
/// project.
pub open spec fn accepted(request: RequestView, is_file: bool) -> Option<project::ProjectView> {
    if is_file && stands_in(request.tiltfile, request.project_root) {
        Some(
            project::ProjectView {
                root: request.project_root,
                tiltfile: Some(request.tiltfile),
            },
        )
    } else {
        None
    }
}

/// Checks that a request names a Tiltfile of its project. Both paths are
/// canonical.
pub fn accept_start_request(project_root: String, tiltfile: String, is_file: bool) -> (result:
    Result<Project, String>)
    ensures
        ({
            let request = RequestView { project_root: project_root@, tiltfile: tiltfile@ };
            match result {
                Ok(found) => accepted(request, is_file) == Some(found@),
                Err(message) => accepted(request, is_file) is None && message@
                    == "retained Tilt start request does not identify a project Tiltfile"@,
            }
        }),
{
    if !is_file || !has_parent(tiltfile.as_str(), project_root.as_str()) {
        return Err(
            "retained Tilt start request does not identify a project Tiltfile".to_owned(),
        );
    }
    Ok(Project { root: project_root, tiltfile: Some(tiltfile) })
}

// ---------------------------------------------------------------------------
// Running
// ---------------------------------------------------------------------------

/// What a session needs to run.
#[derive(Debug, PartialEq, Eq)]
pub struct RunPlan {
    pub tiltfile: String,
    pub sessions_dir: String,
    pub logs_dir: String,
    pub lock_path: String,
    pub log_path: String,
    pub record_path: String,
}

/// What the session of a project needs to run. Each Tiltfile has a lock, a
/// record and a log of its own.
pub fn run_plan(project: &Project, state_dir: &str) -> (plan: Result<RunPlan, String>)
    ensures
        match plan {
            Ok(found) => {
                &&& project@.tiltfile == Some(found.tiltfile@)
                &&& found.sessions_dir@ == paths::within(state_dir@, "sessions"@)
                &&& found.logs_dir@ == paths::within(state_dir@, "logs"@)
                &&& found.lock_path@ == lock_file(state_dir@, found.tiltfile@)
                &&& found.log_path@ == log_file(state_dir@, found.tiltfile@)
                &&& found.record_path@ == record_file(state_dir@, found.tiltfile@)
            },
            Err(message) => project@.tiltfile is None && message@ == no_tiltfile(),
        },
{
    match &project.tiltfile {
        None => Err(no_tiltfile_message()),
        Some(tiltfile) => Ok(
            RunPlan {
                tiltfile: tiltfile.clone(),
                sessions_dir: paths::join(state_dir, "sessions"),
                logs_dir: paths::join(state_dir, "logs"),
                lock_path: lock_path(state_dir, tiltfile.as_str()),
                log_path: log_path(state_dir, tiltfile.as_str()),
                record_path: record_path(state_dir, tiltfile.as_str()),
            },
        ),
    }
}

/// What Tilt is told to start.
pub open spec fn up_command(port: u16, tiltfile: Seq<char>) -> Seq<Seq<char>> {
    seq!["up"@, "--stream"@, "--port"@, text::decimal(port as nat), "-f"@, tiltfile]
}

/// What Tilt is told to start.
pub fn tilt_up_args(port: u16, tiltfile: &str) -> (args: Vec<String>)
    ensures
        text::texts(args@) == up_command(port, tiltfile@),
{
    let number = text::decimal_text(port as u64);
    let args = text::owned(vec!["up", "--stream", "--port", number.as_str(), "-f", tiltfile]);
    assert(text::texts(args@) =~= up_command(port, tiltfile@));
    args
}

/// A session that holds its lock. Only such a session starts Tilt.
#[derive(Debug)]
pub struct LockedRun {
    plan: RunPlan,
}

impl View for LockedRun {
    type V = RunPlan;

    closed spec fn view(&self) -> RunPlan {
        self.plan
    }
}

/// Goes on if the lock was free. Where another session holds it, there is
/// nothing to do.
pub fn run_locked(plan: RunPlan, acquired: bool) -> (run: Option<LockedRun>)
    ensures
        match run {
            Some(found) => acquired && found@ == plan,
            None => !acquired,
        },
{
    if acquired {
        Some(LockedRun { plan })
    } else {
        None
    }
}

/// A session that is about to start Tilt.
#[derive(Debug)]
pub struct StartingRun {
    plan: RunPlan,
    port: u16,
}

/// A session that is about to start Tilt, as mathematics has it.
pub struct StartingView {
    pub plan: RunPlan,
    pub port: u16,
}

impl View for StartingRun {
    type V = StartingView;

    closed spec fn view(&self) -> StartingView {
        StartingView { plan: self.plan, port: self.port }
    }
}

impl LockedRun {
    /// Where the output of the session is kept.
    pub fn log_path(&self) -> (path: &str)
        ensures
            path@ == self@.log_path@,
    {
        self.plan.log_path.as_str()
    }

    /// Takes a port for Tilt. The port that stands for any is refused.
    pub fn with_port(self, port: u16) -> (run: Result<StartingRun, String>)
        ensures
            match run {
                Ok(found) => port != 0 && found@ == (StartingView { plan: self@, port }),
                Err(message) => port == 0 && message@
                    == "operating system returned an invalid Tilt API port"@,
            },
    {
        if port == 0 {
            return Err("operating system returned an invalid Tilt API port".to_owned());
        }
        Ok(StartingRun { plan: self.plan, port })
    }
}

impl StartingRun {
    /// What Tilt is told.
    pub fn args(&self) -> (args: Vec<String>)
        ensures
            text::texts(args@) == up_command(self@.port, self@.plan.tiltfile@),
    {
        tilt_up_args(self.port, self.plan.tiltfile.as_str())
    }

    /// Takes account of Tilt having started.
    pub fn started(self, project: &Project, runner_pid: u32, tilt_pid: u32, started_unix_ms: u64)
        -> (session: RunningSession)
        ensures
            session.path() == self@.plan.record_path@,
            session.record().tiltfile@ == self@.plan.tiltfile@,
            session.record().project_root@ == project@.root,
            session.record().port == self@.port,
            session.record().runner_pid == runner_pid,
            session.record().tilt_pid == tilt_pid,
            session.record().started_unix_ms == started_unix_ms,
            session.record().phase == SessionPhase::Running,
            session.record().exit_code is None,
    {
        RunningSession {
            path: self.plan.record_path,
            record: SessionRecord {
                tiltfile: self.plan.tiltfile,
                project_root: project.root.clone(),
                port: self.port,
                runner_pid,
                tilt_pid,
                started_unix_ms,
                phase: SessionPhase::Running,
                exit_code: None,
            },
        }
    }
}

/// A session whose Tilt has started.
#[derive(Debug)]
pub struct RunningSession {
    path: String,
    record: SessionRecord,
}

impl RunningSession {
    /// Where the record is kept.
    pub closed spec fn path(&self) -> Seq<char> {
        self.path@
    }

    /// The record.
    pub closed spec fn record(&self) -> SessionRecord {
        self.record
    }

    /// Where the record is kept.
    pub fn record_path(&self) -> (path: &str)
        ensures
            path@ == self.path(),
    {
        self.path.as_str()
    }

    /// The record to keep now.
    pub fn current_record(&self) -> (record: &SessionRecord)
        ensures
            *record == self.record(),
    {
        &self.record
    }

    /// Takes account of Tilt having ended: the record says so, and how.
    pub fn ended(&mut self, exit_code: Option<i32>)
        ensures
            final(self).path() == old(self).path(),
            final(self).record() == (SessionRecord {
                phase: SessionPhase::Exited,
                exit_code,
                ..old(self).record()
            }),
    {
        self.record.phase = SessionPhase::Exited;
        self.record.exit_code = exit_code;
    }
}

/// A number of milliseconds as far as a record can hold it.
pub fn unix_millis(millis: u128) -> (result: u64)
    ensures
        result == if millis <= u64::MAX {
            millis as int
        } else {
            u64::MAX as int
        },
{
    if millis <= u64::MAX as u128 {
        millis as u64
    } else {
        u64::MAX
    }
}

// ---------------------------------------------------------------------------
// Stopping
// ---------------------------------------------------------------------------

/// What Tilt is told to stop.
pub open spec fn down_command(tiltfile: Seq<char>) -> Seq<Seq<char>> {
    seq!["down"@, "-f"@, tiltfile]
}

/// What is needed to stop a project's session.
#[derive(Debug, PartialEq, Eq)]
pub struct DownPlan {
    pub lock_path: String,
    pub record_path: String,
    pub args: Vec<String>,
}

/// What is needed to stop a project's session.
pub fn down_plan(project: &Project, state_dir: &str) -> (plan: Result<DownPlan, String>)
    ensures
        match plan {
            Ok(found) => {
                &&& project@.tiltfile matches Some(tiltfile)
                &&& found.lock_path@ == lock_file(state_dir@, tiltfile)
                &&& found.record_path@ == record_file(state_dir@, tiltfile)
                &&& text::texts(found.args@) == down_command(tiltfile)
            },
            Err(message) => project@.tiltfile is None && message@ == no_tiltfile(),
        },
{
    match &project.tiltfile {
        None => Err(no_tiltfile_message()),
        Some(tiltfile) => {
            let args = text::owned(vec!["down", "-f", tiltfile.as_str()]);
            assert(text::texts(args@) =~= down_command(tiltfile@));
            Ok(
                DownPlan {
                    lock_path: lock_path(state_dir, tiltfile.as_str()),
                    record_path: record_path(state_dir, tiltfile.as_str()),
                    args,
                },
            )
        },
    }
}

/// Whether a record says that its session runs.
pub open spec fn says_running(record: Option<SessionRecord>) -> bool {
    record matches Some(found) && found.phase == SessionPhase::Running
}

/// Whether a record says that its session runs.
pub fn is_recorded_running(record: &Option<SessionRecord>) -> (running: bool)
    ensures
        running == says_running(*record),
{
    match record {
        Some(found) => found.phase == SessionPhase::Running,
        None => false,
    }
}

/// The process to signal before Tilt cleans up: the one that the record names,
/// if the record says that it runs and the lock is held. A record that no lock
/// stands behind may name a process that has nothing to do with Tilt.
pub fn process_to_signal(lock_held: bool, record: &Option<SessionRecord>) -> (result: Result<
    Option<i32>,
    String,
>)
    ensures
        match result {
            Ok(Some(pid)) => lock_held && says_running(*record) && pid == record->0.tilt_pid,
            Ok(None) => !lock_held || !says_running(*record),
            Err(message) => lock_held && says_running(*record) && record->0.tilt_pid > i32::MAX
                && message@ == "Tilt PID is out of range"@,
        },
        result matches Ok(Some(pid)) ==> lock_held && record is Some && record->0.phase
            == SessionPhase::Running && pid == record->0.tilt_pid,
        lock_held && record is Some && record->0.phase == SessionPhase::Running
            && record->0.tilt_pid <= i32::MAX ==> result matches Ok(Some(_)),
{
    if !lock_held {
        return Ok(None);
    }
    match record {
        Some(found) => {
            if found.phase != SessionPhase::Running {
                return Ok(None);
            }
            if found.tilt_pid > i32::MAX as u32 {
                return Err("Tilt PID is out of range".to_owned());
            }
            Ok(Some(found.tilt_pid as i32))
        },
        None => Ok(None),
    }
}

/// How often a session that was signaled is looked at before it is given up.
pub const STOP_CHECKS: u32 = 100;

/// How many milliseconds pass between two looks.
pub const STOP_CHECK_INTERVAL_MS: u64 = 50;

/// What comes first in stopping a session.
#[derive(Debug)]
pub enum DownStep {
    /// Signal the process of the session.
    Signal(StoppingSession),
    /// There is no session to wait for: let Tilt clean up.
    Clean(CleanUp),
}

/// A session that is being stopped.
#[derive(Debug)]
pub struct StoppingSession {
    plan: DownPlan,
    process: i32,
    checks: u32,
}

/// A session that is being stopped, as mathematics has it.
pub struct StoppingView {
    pub plan: DownPlan,
    /// The process that is signaled.
    pub process: i32,
    /// How often the session was found running since.
    pub checks: nat,
}

impl View for StoppingSession {
    type V = StoppingView;

    closed spec fn view(&self) -> StoppingView {
        StoppingView { plan: self.plan, process: self.process, checks: self.checks as nat }
    }
}

/// A session that is down, whose resources are left to clean up. There is no
/// other way to one than `begin_down` and `StoppingSession::observe`.
#[derive(Debug)]
pub struct CleanUp {
    plan: DownPlan,
}

impl View for CleanUp {
    type V = DownPlan;

    closed spec fn view(&self) -> DownPlan {
        self.plan
    }
}

/// What follows from a look at a session that was signaled.
#[derive(Debug)]
pub enum WaitStep {
    /// The session has ended: let Tilt clean up.
    Stopped(CleanUp),
    /// Let some time pass, and look again.
    Again(StoppingSession),
    /// Let some time pass, and give up.
    GiveUp(String),
}

/// Begins to stop a session: its process is signaled first, where that is safe
/// and needed; resources are cleaned up at once only where no session runs.
pub fn begin_down(plan: DownPlan, lock_held: bool, record: &Option<SessionRecord>) -> (step: Result<
    DownStep,
    String,
>)
    ensures
        match step {
            Ok(DownStep::Signal(stopping)) => {
                &&& lock_held && says_running(*record)
                &&& record->0.tilt_pid <= i32::MAX
                &&& stopping@ == (StoppingView {
                    plan,
                    process: record->0.tilt_pid as i32,
                    checks: 0,
                })
            },
            Ok(DownStep::Clean(clean)) => (!lock_held || !says_running(*record)) && clean@ == plan,
            Err(message) => lock_held && says_running(*record) && record->0.tilt_pid > i32::MAX
                && message@ == "Tilt PID is out of range"@,
        },
{
    match process_to_signal(lock_held, record) {
        Ok(Some(process)) => Ok(DownStep::Signal(StoppingSession { plan, process, checks: 0 })),
        Ok(None) => Ok(DownStep::Clean(CleanUp { plan })),
        Err(message) => Err(message),
    }
}

impl StoppingSession {
    #[verifier::type_invariant]
    closed spec fn still_waits(&self) -> bool {
        self.checks < STOP_CHECKS
    }

    /// The process to signal.
    pub fn process(&self) -> (process: i32)
        ensures
            process == self@.process,
    {
        self.process
    }

    /// Takes account of what the record says after the signal. A session that
    /// is found running too often is given up.
    pub fn observe(self, record: &Option<SessionRecord>) -> (step: WaitStep)
        ensures
            match step {
                WaitStep::Stopped(clean) => !says_running(*record) && clean@ == self@.plan,
                WaitStep::Again(stopping) => {
                    &&& says_running(*record)
                    &&& self@.checks + 1 < STOP_CHECKS
                    &&& stopping@ == (StoppingView { checks: self@.checks + 1, ..self@ })
                },
                WaitStep::GiveUp(message) => {
                    &&& says_running(*record)
                    &&& self@.checks + 1 == STOP_CHECKS
                    &&& message@ == "Timed out waiting for retained Tilt process to stop"@
                },
            },
    {
        proof {
            use_type_invariant(&self);
        }
        if !is_recorded_running(record) {
            return WaitStep::Stopped(CleanUp { plan: self.plan });
        }
        let checks: u32 = self.checks + 1;
        if checks < STOP_CHECKS {
            WaitStep::Again(StoppingSession { plan: self.plan, process: self.process, checks })
        } else {
            WaitStep::GiveUp("Timed out waiting for retained Tilt process to stop".to_owned())
        }
    }
}

impl CleanUp {
    /// What Tilt is told.
    pub fn args(&self) -> (args: &Vec<String>)
        ensures
            args == self@.args,
    {
        &self.plan.args
    }

    /// Takes account of whether Tilt cleaned up: if it did, the record is to be
    /// removed.
    pub fn cleaned(self, success: bool, stderr: &[u8]) -> (result: Result<String, String>)
        ensures
            match result {
                Ok(path) => success && path@ == self@.record_path@,
                Err(message) => !success && message@ == panel::failure(
                    "Tilt down failed"@,
                    stderr@,
                ),
            },
    {
        if !success {
            return Err(panel::failure_message("Tilt down failed", stderr));
        }
        Ok(self.plan.record_path)
    }
}

/// The lock of a Tiltfile and its record are never the same file, nor is its
/// log.
pub proof fn law_lock_record_and_log_differ(state_dir: Seq<char>, tiltfile: Seq<char>)
    ensures
        lock_file(state_dir, tiltfile) != record_file(state_dir, tiltfile),
        lock_file(state_dir, tiltfile) != log_file(state_dir, tiltfile),
        record_file(state_dir, tiltfile) != log_file(state_dir, tiltfile),
{
    reveal_strlit(".json");
    reveal_strlit(".lock");
    reveal_strlit(".log");
    assert(lock_file(state_dir, tiltfile).last() == 'k');
    assert(record_file(state_dir, tiltfile).last() == 'n');
    assert(log_file(state_dir, tiltfile).last() == 'g');
}

/// A Tiltfile that is where it was found is in the project that was found with
/// it, so the session accepts the request of the dashboard.
pub proof fn law_tiltfile_stands_in_its_directory(directory: Seq<char>)
    ensures
        stands_in(paths::within(directory, "Tiltfile"@), directory),
{
    reveal_strlit("Tiltfile");
    let name = "Tiltfile"@;
    assert(name[0] == 'T');
    assert(!name.contains('/'));
    paths::law_name_is_the_last_component(directory, name);
    let parts = paths::components(paths::within(directory, name));
    assert(parts.last() == name);
    assert(parts.drop_last() =~= paths::components(directory));
}

/// The requests that are kept after a step, given those that were kept before.
pub open spec fn requests_after(
    kept: Map<Seq<char>, RequestView>,
    step: TakeView,
) -> Map<Seq<char>, RequestView> {
    match step {
        TakeView::Nothing => kept,
        TakeView::Consume(path) => kept.remove(path),
    }
}

/// Whether a session finds a request where it looks for one.
pub open spec fn is_kept(kept: Map<Seq<char>, RequestView>, path: Option<Seq<char>>) -> bool {
    match path {
        Some(file) => kept.dom().contains(file),
        None => false,
    }
}

/// What is prepared for a workspace is found by the session that is started
/// from it, and accepted as the same project. It is used up: the next session
/// finds nothing. Other requests stay as they were, and a session outside of a
/// workspace takes none.
pub proof fn law_prepared_project_is_handed_over(
    kept: Map<Seq<char>, RequestView>,
    project: project::ProjectView,
    state_dir: Seq<char>,
    workspace_id: Seq<char>,
)
    requires
        project.tiltfile matches Some(tiltfile) && stands_in(tiltfile, project.root),
    ensures
        request_of(project) matches Some(request) && {
            let path = requested_file(state_dir, Some(workspace_id));
            let file = request_file(state_dir, workspace_id);
            let prepared = kept.insert(file, request);
            let first = take_of(path, is_kept(prepared, path));
            let left = requests_after(prepared, first);
            &&& first == TakeView::Consume(file)
            &&& prepared[file] == request
            &&& accepted(request, true) == Some(project)
            &&& take_of(path, is_kept(left, path)) is Nothing
            &&& left == kept.remove(file)
            &&& take_of(requested_file(state_dir, None), is_kept(
                prepared,
                requested_file(state_dir, None),
            )) is Nothing
        },
{
    let file = request_file(state_dir, workspace_id);
    let request = request_of(project)->0;
    assert(kept.insert(file, request).remove(file) =~= kept.remove(file));
}

/// Workspaces whose identifiers have different digests have requests of their
/// own.
pub proof fn law_workspaces_have_requests_of_their_own(
    state_dir: Seq<char>,
    left: Seq<char>,
    right: Seq<char>,
)
    requires
        digest::sha256(vstd::utf8::encode_utf8(left)) != digest::sha256(
            vstd::utf8::encode_utf8(right),
        ),
    ensures
        request_file(state_dir, left) != request_file(state_dir, right),
{
    lemma_files_differ(state_dir, "start-requests"@, left, right, ".json"@);
}

/// Tiltfiles whose names have different digests have records, locks and logs of
/// their own.
pub proof fn law_tiltfiles_have_files_of_their_own(
    state_dir: Seq<char>,
    left: Seq<char>,
    right: Seq<char>,
)
    requires
        digest::sha256(vstd::utf8::encode_utf8(left)) != digest::sha256(
            vstd::utf8::encode_utf8(right),
        ),
    ensures
        record_file(state_dir, left) != record_file(state_dir, right),
        lock_file(state_dir, left) != lock_file(state_dir, right),
        log_file(state_dir, left) != log_file(state_dir, right),
{
    lemma_files_differ(state_dir, "sessions"@, left, right, ".json"@);
    lemma_files_differ(state_dir, "sessions"@, left, right, ".lock"@);
    lemma_files_differ(state_dir, "logs"@, left, right, ".log"@);
}

proof fn lemma_files_differ(
    state_dir: Seq<char>,
    kind: Seq<char>,
    left: Seq<char>,
    right: Seq<char>,
    ending: Seq<char>,
)
    requires
        digest::sha256(vstd::utf8::encode_utf8(left)) != digest::sha256(
            vstd::utf8::encode_utf8(right),
        ),
    ensures
        panel::document_path(state_dir, kind, digest::key_of(left), ending)
            != panel::document_path(state_dir, kind, digest::key_of(right), ending),
{
    let first = panel::document_path(state_dir, kind, digest::key_of(left), ending);
    let second = panel::document_path(state_dir, kind, digest::key_of(right), ending);
    if first == second {
        let directory = paths::within(state_dir, kind);
        let start: int = if directory.len() == 0 {
            0
        } else if directory.last() == '/' {
            directory.len() as int
        } else {
            directory.len() as int + 1
        };
        assert(first.subrange(start, first.len() - ending.len()) =~= digest::key_of(left));
        assert(second.subrange(start, second.len() - ending.len()) =~= digest::key_of(right));
        digest::law_hex_is_injective(
            digest::sha256(vstd::utf8::encode_utf8(left)),
            digest::sha256(vstd::utf8::encode_utf8(right)),
        );
    }
}

proof fn lemma_key_file_is_a_name(key: Seq<char>, ending: Seq<char>)
    requires
        ending.len() > 1,
        !ending.contains('/'),
    ensures
        paths::is_name(digest::key_of(key) + ending),
{
    let bytes = digest::sha256(vstd::utf8::encode_utf8(key));
    let name = digest::hex(bytes) + ending;
    digest::law_hex_is_plain(bytes);
    assert forall|i: int| 0 <= i < name.len() implies #[trigger] name[i] != '/' by {
        if i < digest::hex(bytes).len() {
            assert(name[i] == digest::hex(bytes)[i]);
        } else {
            assert(name[i] == ending[i - digest::hex(bytes).len()]);
        }
    }
    assert(name.len() > 1);
    assert(name != seq!['.']);
    assert(!name.contains('/'));
}

/// Whatever a Tiltfile is called, what is kept for it stays in the directory
/// that is meant for it.
pub proof fn law_session_files_stay_in_their_directories(
    state_dir: Seq<char>,
    tiltfile: Seq<char>,
)
    ensures
        stands_in(record_file(state_dir, tiltfile), paths::within(state_dir, "sessions"@)),
        stands_in(lock_file(state_dir, tiltfile), paths::within(state_dir, "sessions"@)),
        stands_in(log_file(state_dir, tiltfile), paths::within(state_dir, "logs"@)),
{
    reveal_strlit(".json");
    reveal_strlit(".lock");
    reveal_strlit(".log");
    lemma_key_file_stays(state_dir, "sessions"@, tiltfile, ".json"@);
    lemma_key_file_stays(state_dir, "sessions"@, tiltfile, ".lock"@);
    lemma_key_file_stays(state_dir, "logs"@, tiltfile, ".log"@);
}

/// Whatever a workspace is called, its request stays in the directory that is
/// meant for it.
pub proof fn law_requests_stay_in_their_directory(state_dir: Seq<char>, workspace_id: Seq<char>)
    ensures
        stands_in(
            request_file(state_dir, workspace_id),
            paths::within(state_dir, "start-requests"@),
        ),
{
    reveal_strlit(".json");
    lemma_key_file_stays(state_dir, "start-requests"@, workspace_id, ".json"@);
}

proof fn lemma_key_file_stays(
    state_dir: Seq<char>,
    kind: Seq<char>,
    key: Seq<char>,
    ending: Seq<char>,
)
    requires
        ending.len() > 1,
        !ending.contains('/'),
    ensures
        stands_in(
            panel::document_path(state_dir, kind, digest::key_of(key), ending),
            paths::within(state_dir, kind),
        ),
{
    let directory = paths::within(state_dir, kind);
    let name = digest::key_of(key) + ending;
    lemma_key_file_is_a_name(key, ending);
    paths::law_name_is_the_last_component(directory, name);
    let parts = paths::components(paths::within(directory, name));
    assert(parts.last() == name);
    assert(parts.drop_last() =~= paths::components(directory));
}

/// The record of a Tiltfile, its lock and its log stand under its key, in the
/// directories for sessions and for logs; a request stands under the key of its
/// workspace, in the directory for requests.
pub proof fn law_files_stand_where_they_belong(state_dir: Seq<char>, name: Seq<char>)
    ensures
        record_file(state_dir, name) == paths::within(
            paths::within(state_dir, "sessions"@),
            digest::key_of(name) + ".json"@,
        ),
        lock_file(state_dir, name) == paths::within(
            paths::within(state_dir, "sessions"@),
            digest::key_of(name) + ".lock"@,
        ),
        log_file(state_dir, name) == paths::within(
            paths::within(state_dir, "logs"@),
            digest::key_of(name) + ".log"@,
        ),
        request_file(state_dir, name) == paths::within(
            paths::within(state_dir, "start-requests"@),
            digest::key_of(name) + ".json"@,
        ),
{
}

/// A request hands over the directory and the Tiltfile of a project. A project
/// without a Tiltfile has none to hand over, and that is said.
pub proof fn law_requests_hand_over_the_project(root: Seq<char>, tiltfile: Seq<char>)
    ensures
        request_of(project::ProjectView { root, tiltfile: Some(tiltfile) }) == Some(
            RequestView { project_root: root, tiltfile },
        ),
        request_of(project::ProjectView { root, tiltfile: None }) is None,
        no_tiltfile() == "No Tiltfile found in this workspace"@,
{
}

/// A request is looked for in a workspace, under its name, and nowhere else. It
/// is consumed exactly if it is there.
pub proof fn law_requests_are_consumed_where_found(
    state_dir: Seq<char>,
    workspace_id: Seq<char>,
    file: Seq<char>,
)
    ensures
        requested_file(state_dir, Some(workspace_id)) == Some(request_file(state_dir, workspace_id)),
        requested_file(state_dir, None) is None,
        take_of(Some(file), true) == TakeView::Consume(file),
        take_of(Some(file), false) is Nothing,
        take_of(None, true) is Nothing,
        take_of(None, false) is Nothing,
{
}

/// A request is accepted exactly if its Tiltfile is a file right in its project:
/// not if there is no such file, nor if the file stands further down.
pub proof fn law_requests_are_accepted_for_files_of_the_project(
    root: Seq<char>,
    name: Seq<char>,
    below: Seq<char>,
)
    requires
        paths::is_name(name),
        paths::is_name(below),
    ensures
        ({
            let tiltfile = paths::within(root, name);
            let deeper = paths::within(paths::within(root, below), name);
            &&& accepted(RequestView { project_root: root, tiltfile }, true) == Some(
                project::ProjectView { root, tiltfile: Some(tiltfile) },
            )
            &&& accepted(RequestView { project_root: root, tiltfile }, false) is None
            &&& accepted(RequestView { project_root: root, tiltfile: deeper }, true) is None
            &&& accepted(RequestView { project_root: root, tiltfile: root }, true) is None
        }),
{
    let parts = paths::components(root);
    paths::law_name_is_the_last_component(root, name);
    paths::law_name_is_the_last_component(root, below);
    paths::law_name_is_the_last_component(paths::within(root, below), name);
    assert(parts.push(name).drop_last() =~= parts);
    assert(parts.push(below).push(name).drop_last() =~= parts.push(below));
    assert(parts.push(name).last() == name);
    if parts.push(name) == seq![seq!['/']] {
        assert(parts.push(name)[0] == seq!['/']);
        assert(name == seq!['/']);
        assert(name[0] == '/');
        assert(name.contains('/'));
    }
    assert(parts.push(below).len() != parts.len());
    if parts.len() > 0 {
        assert(parts.drop_last().len() != parts.len());
    }
}

/// Tilt is told to run on its port for its Tiltfile, and to clean up for that
/// Tiltfile.
pub proof fn law_tilt_is_told_port_and_tiltfile(port: u16, tiltfile: Seq<char>)
    ensures
        up_command(port, tiltfile) == seq!["up"@, "--stream"@] + seq![
            "--port"@,
            text::decimal(port as nat),
        ] + seq!["-f"@, tiltfile],
        down_command(tiltfile) == seq!["down"@] + seq!["-f"@, tiltfile],
{
    assert(up_command(port, tiltfile) =~= seq!["up"@, "--stream"@] + seq![
        "--port"@,
        text::decimal(port as nat),
    ] + seq!["-f"@, tiltfile]);
    assert(down_command(tiltfile) =~= seq!["down"@] + seq!["-f"@, tiltfile]);
}

/// A record says that its session runs exactly if that is its phase; no record
/// says so of nothing.
pub proof fn law_phases_tell_running_sessions(record: SessionRecord)
    ensures
        says_running(Some(record)) <==> record.phase == SessionPhase::Running,
        !says_running(None),
{
}

/// A session that was signaled has five seconds to end, and is looked at a
/// hundred times.
pub proof fn law_sessions_have_five_seconds_to_end()
    ensures
        STOP_CHECKS * STOP_CHECK_INTERVAL_MS == 5000,
        STOP_CHECKS == 100,
{
}

} // verus!
