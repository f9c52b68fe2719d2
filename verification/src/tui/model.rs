//! What the dashboard knows, and how it learns of Tilt.

use vstd::prelude::*;

use crate::order;
use crate::panel;
use crate::paths;
use crate::project;
use crate::project::Project;
use crate::session;
use crate::session::{PreparedRequest, SessionPhase, SessionRecord};
use crate::text;
use crate::tilt::buttons;
use crate::tilt::buttons::{attach_service_actions, ButtonActions};
use crate::tilt::model;
use crate::tilt::model::{DashboardSnapshot, ResourceGroup, Service, SessionIdentity};

verus! {

/// The port of a Tilt that was started without the dashboard.
pub const DEFAULT_TILT_PORT: u16 = 10350;

/// How Tilt is doing as a whole.
#[derive(Clone, Copy, Debug, PartialEq, Eq, Structural)]
pub enum OverallStatus {
    /// There is no Tiltfile.
    Unavailable,
    Stopped,
    Starting,
    Running,
    Failed,
}

/// What the dashboard knows.
#[derive(Debug)]
pub struct DashboardModel {
    pub project: Project,
    pub state_dir: String,
    pub services: Vec<Service>,
    pub groups: Vec<ResourceGroup>,
    workspace_id: Option<String>,
    overall_status: OverallStatus,
    warning: Option<String>,
}

/// What the dashboard knows, as mathematics has it.
pub struct ModelView {
    pub project: project::ProjectView,
    pub state_dir: Seq<char>,
    pub services: Seq<model::ServiceView>,
    pub groups: Seq<model::GroupView>,
    pub workspace_id: Option<Seq<char>>,
    pub overall_status: OverallStatus,
    pub warning: Option<Seq<char>>,
}

impl View for DashboardModel {
    type V = ModelView;

    closed spec fn view(&self) -> ModelView {
        ModelView {
            project: self.project@,
            state_dir: self.state_dir@,
            services: order::views(self.services@),
            groups: order::views(self.groups@),
            workspace_id: model::optional_text(self.workspace_id),
            overall_status: self.overall_status,
            warning: model::optional_text(self.warning),
        }
    }
}

// ---------------------------------------------------------------------------
// What follows from what
// ---------------------------------------------------------------------------

/// Whether a record says that its session has ended.
pub open spec fn says_exited(record: Option<SessionRecord>) -> bool {
    record matches Some(found) && found.phase == SessionPhase::Exited
}

/// The exit code of a record, if it tells of a failure.
pub open spec fn failure_code(record: Option<SessionRecord>) -> Option<i32> {
    match record {
        Some(found) => match found.exit_code {
            Some(code) => if code != 0 {
                Some(code)
            } else {
                None
            },
            None => None,
        },
        None => None,
    }
}

/// The port on which Tilt is spoken to: that of the running session, or the
/// default one.
pub open spec fn port_of(record: Option<SessionRecord>) -> u16 {
    if session::says_running(record) {
        record->0.port
    } else {
        DEFAULT_TILT_PORT
    }
}

impl ModelView {
    /// A dashboard that has not looked at Tilt yet.
    pub open spec fn opened(
        project: project::ProjectView,
        state_dir: Seq<char>,
        workspace_id: Option<Seq<char>>,
    ) -> ModelView {
        ModelView {
            project,
            state_dir,
            services: Seq::empty(),
            groups: Seq::empty(),
            workspace_id,
            overall_status: if project.tiltfile is Some {
                OverallStatus::Stopped
            } else {
                OverallStatus::Unavailable
            },
            warning: if project.tiltfile is Some {
                None
            } else {
                Some(session::no_tiltfile())
            },
        }
    }

    /// Whether Tilt can be started.
    pub open spec fn startable(self) -> bool {
        self.project.tiltfile is Some && (self.overall_status == OverallStatus::Stopped
            || self.overall_status == OverallStatus::Failed)
    }

    /// Whether Tilt can be stopped.
    pub open spec fn stoppable(self) -> bool {
        self.project.tiltfile is Some && (self.overall_status == OverallStatus::Starting
            || self.overall_status == OverallStatus::Running || self.overall_status
            == OverallStatus::Failed)
    }

    /// The dashboard without services.
    pub open spec fn emptied(self, overall_status: OverallStatus, warning: Option<Seq<char>>) -> ModelView {
        ModelView {
            services: Seq::empty(),
            groups: Seq::empty(),
            overall_status,
            warning,
            ..self
        }
    }

    /// The dashboard with another status and warning.
    pub open spec fn with_status(
        self,
        overall_status: OverallStatus,
        warning: Option<Seq<char>>,
    ) -> ModelView {
        ModelView { overall_status, warning, ..self }
    }

    /// The dashboard when the session has ended.
    pub open spec fn exited(self, record: Option<SessionRecord>) -> ModelView {
        match failure_code(record) {
            Some(code) => self.emptied(
                OverallStatus::Failed,
                Some("Tilt exited with status "@ + text::signed_decimal(code as int)),
            ),
            None => self.emptied(OverallStatus::Stopped, None),
        }
    }

    /// The dashboard when Tilt does not answer: for a session of its own it
    /// waits, with what it showed before; otherwise there is no Tilt.
    pub open spec fn unanswered(self, managed: bool) -> ModelView {
        if managed {
            self.waiting()
        } else {
            self.emptied(OverallStatus::Stopped, None)
        }
    }

    /// The dashboard while it waits for Tilt.
    pub open spec fn waiting(self) -> ModelView {
        self.with_status(OverallStatus::Starting, Some("Waiting for the Tilt API"@))
    }

    /// The dashboard when another Tilt answers.
    pub open spec fn rejected(self, managed: bool) -> ModelView {
        if managed {
            self.emptied(
                OverallStatus::Failed,
                Some("Tilt API belongs to another Tiltfile or process"@),
            )
        } else {
            self.emptied(
                OverallStatus::Stopped,
                Some("Tilt's default port belongs to another workspace"@),
            )
        }
    }

    /// The dashboard with what Tilt shows.
    pub open spec fn showing(self, snapshot: model::SnapshotView) -> ModelView {
        ModelView {
            services: snapshot.services,
            groups: snapshot.groups,
            overall_status: OverallStatus::Running,
            warning: snapshot.tiltfile_error,
            ..self
        }
    }

    /// Whether a service of a name is shown while Tilt runs.
    pub open spec fn shows(self, name: Seq<char>) -> bool {
        self.overall_status == OverallStatus::Running && exists|i: int|
            0 <= i < self.services.len() && (#[trigger] self.services[i]).name == name
    }
}

/// What is said while Tilt does not answer.
pub open spec fn not_ready(stderr: Seq<u8>) -> Seq<char> {
    panel::failure("Tilt API is not ready"@, stderr)
}

/// A question to Tilt, on a port.
pub open spec fn get_command(what: Seq<char>, port: u16) -> Seq<Seq<char>> {
    seq!["get"@, what, "-o"@, "json"@, "--port"@, text::decimal(port as nat)]
}

fn get_args(what: &str, port: u16) -> (args: Vec<String>)
    ensures
        text::texts(args@) == get_command(what@, port),
{
    let number = text::decimal_text(port as u64);
    let args = text::owned(vec!["get", what, "-o", "json", "--port", number.as_str()]);
    assert(text::texts(args@) =~= get_command(what@, port));
    args
}

// ---------------------------------------------------------------------------
// Looking at Tilt
// ---------------------------------------------------------------------------

/// A look at Tilt: whom to ask, and who should answer.
#[derive(Debug)]
pub struct RefreshQuery {
    port: u16,
    managed: bool,
    expected_pid: Option<u32>,
    expected_tiltfile: String,
}

/// A look at Tilt, as mathematics has it.
pub struct QueryView {
    /// The port that is asked.
    pub port: u16,
    /// Whether the session is the dashboard's own.
    pub managed: bool,
    /// The process that should answer, where it is known.
    pub expected_pid: Option<u32>,
    /// The Tiltfile that the answer should be for.
    pub expected_tiltfile: Seq<char>,
}

impl View for RefreshQuery {
    type V = QueryView;

    closed spec fn view(&self) -> QueryView {
        QueryView {
            port: self.port,
            managed: self.managed,
            expected_pid: self.expected_pid,
            expected_tiltfile: self.expected_tiltfile@,
        }
    }
}

/// Whom to ask, and who should answer: the session of the record, or else
/// whoever listens on the default port.
pub open spec fn query_of(tiltfile: Seq<char>, record: Option<SessionRecord>) -> QueryView {
    match record {
        Some(found) => QueryView {
            port: found.port,
            managed: true,
            expected_pid: Some(found.tilt_pid),
            expected_tiltfile: found.tiltfile@,
        },
        None => QueryView {
            port: DEFAULT_TILT_PORT,
            managed: false,
            expected_pid: None,
            expected_tiltfile: tiltfile,
        },
    }
}

/// Whether the answer comes from whom it should: it is for the Tiltfile, and
/// from the process where that is known.
pub open spec fn is_expected(query: QueryView, tiltfile: Seq<char>, pid: u32) -> bool {
    paths::same_path(tiltfile, query.expected_tiltfile) && (query.expected_pid matches Some(
        expected,
    ) ==> pid == expected)
}

/// What comes next in a look at Tilt.
#[derive(Debug)]
pub enum RefreshStep {
    /// There is nothing to ask.
    Done,
    /// Ask which session answers.
    AskSession(RefreshQuery),
}

/// A look at Tilt in which the right session has answered. There is no other
/// way to one than `DashboardModel::verify_session`.
#[derive(Debug)]
pub struct VerifiedQuery {
    query: RefreshQuery,
    tiltfile: String,
    pid: u32,
}

impl VerifiedQuery {
    /// Whom was asked, and who should have answered.
    pub closed spec fn query(&self) -> QueryView {
        self.query@
    }

    /// The Tiltfile that the answer is for.
    pub closed spec fn tiltfile(&self) -> Seq<char> {
        self.tiltfile@
    }

    /// The process that has answered.
    pub closed spec fn pid(&self) -> u32 {
        self.pid
    }

    #[verifier::type_invariant]
    closed spec fn is_verified(&self) -> bool {
        is_expected(self.query@, self.tiltfile@, self.pid)
    }

    /// What Tilt is asked for its resources.
    pub fn resources_args(&self) -> (args: Vec<String>)
        ensures
            text::texts(args@) == get_command("uiresources"@, self.query().port),
            text::texts(args@) == seq![
                "get"@,
                "uiresources"@,
                "-o"@,
                "json"@,
                "--port"@,
                text::decimal(self.query().port as nat),
            ],
    {
        get_args("uiresources", self.query.port)
    }

    /// What Tilt is asked for its buttons.
    pub fn buttons_args(&self) -> (args: Vec<String>)
        ensures
            text::texts(args@) == get_command("uibuttons"@, self.query().port),
            text::texts(args@) == seq![
                "get"@,
                "uibuttons"@,
                "-o"@,
                "json"@,
                "--port"@,
                text::decimal(self.query().port as nat),
            ],
    {
        get_args("uibuttons", self.query.port)
    }
}

impl RefreshQuery {
    /// What Tilt is asked for its session.
    pub fn session_args(&self) -> (args: Vec<String>)
        ensures
            text::texts(args@) == get_command("sessions"@, self@.port),
            text::texts(args@) == seq![
                "get"@,
                "sessions"@,
                "-o"@,
                "json"@,
                "--port"@,
                text::decimal(self@.port as nat),
            ],
    {
        get_args("sessions", self.port)
    }
}

/// What it takes to start Tilt.
#[derive(Debug, PartialEq, Eq)]
pub struct StartPlan {
    /// The request that hands over the project, to be written first.
    pub request: Option<PreparedRequest>,
    /// What Herdr is told.
    pub args: Vec<String>,
}

/// What Herdr is told to start a session.
pub open spec fn start_command() -> Seq<Seq<char>> {
    seq!["plugin"@, "action"@, "invoke"@, "herdr.tilt.run"@]
}

impl DashboardModel {
    /// The project that the dashboard is for.
    pub fn project(&self) -> (project: &Project)
        ensures
            project@ == self@.project,
    {
        &self.project
    }

    /// Where the dashboard keeps its state.
    pub fn state_dir(&self) -> (state_dir: &str)
        ensures
            state_dir@ == self@.state_dir,
    {
        self.state_dir.as_str()
    }

    /// The services that are shown.
    pub fn services(&self) -> (services: &[Service])
        ensures
            order::views(services@) == self@.services,
    {
        self.services.as_slice()
    }

    /// The groups that are shown.
    pub fn groups(&self) -> (groups: &[ResourceGroup])
        ensures
            order::views(groups@) == self@.groups,
    {
        self.groups.as_slice()
    }

    /// A dashboard that has not looked at Tilt yet.
    pub fn new(project: Project, state_dir: String) -> (dashboard: DashboardModel)
        ensures
            dashboard@ == ModelView::opened(project@, state_dir@, None),
    {
        DashboardModel::new_for_workspace(project, state_dir, None)
    }

    /// A dashboard of a workspace that has not looked at Tilt yet.
    pub fn new_for_workspace(
        project: Project,
        state_dir: String,
        workspace_id: Option<String>,
    ) -> (dashboard: DashboardModel)
        ensures
            dashboard@ == ModelView::opened(
                project@,
                state_dir@,
                model::optional_text(workspace_id),
            ),
    {
        let (overall_status, warning) = match &project.tiltfile {
            Some(_) => (OverallStatus::Stopped, None),
            None => (OverallStatus::Unavailable, Some(session::no_tiltfile_message())),
        };
        let dashboard = DashboardModel {
            project,
            state_dir,
            services: Vec::new(),
            groups: Vec::new(),
            workspace_id,
            overall_status,
            warning,
        };
        assert(dashboard@.services =~= Seq::<model::ServiceView>::empty());
        assert(dashboard@.groups =~= Seq::<model::GroupView>::empty());
        dashboard
    }

    /// How Tilt is doing as a whole.
    pub fn overall_status(&self) -> (status: OverallStatus)
        ensures
            status == self@.overall_status,
    {
        self.overall_status
    }

    /// What is wrong, if anything is.
    pub fn warning(&self) -> (warning: Option<&str>)
        ensures
            match warning {
                Some(found) => self@.warning == Some(found@),
                None => self@.warning is None,
            },
    {
        match &self.warning {
            Some(found) => Some(found.as_str()),
            None => None,
        }
    }

    /// Whether Tilt can be started.
    pub fn can_start(&self) -> (can: bool)
        ensures
            can == self@.startable(),
            can <==> self@.project.tiltfile is Some && (self@.overall_status
                == OverallStatus::Stopped || self@.overall_status == OverallStatus::Failed),
    {
        self.project.tiltfile.is_some() && (self.overall_status == OverallStatus::Stopped
            || self.overall_status == OverallStatus::Failed)
    }

    /// Whether Tilt can be stopped.
    pub fn can_stop(&self) -> (can: bool)
        ensures
            can == self@.stoppable(),
            can <==> self@.project.tiltfile is Some && (self@.overall_status
                == OverallStatus::Starting || self@.overall_status == OverallStatus::Running
                || self@.overall_status == OverallStatus::Failed),
    {
        self.project.tiltfile.is_some() && (self.overall_status == OverallStatus::Starting
            || self.overall_status == OverallStatus::Running || self.overall_status
            == OverallStatus::Failed)
    }

    /// The port on which Tilt is spoken to, given the record of the session.
    pub fn active_port(&self, record: &Option<SessionRecord>) -> (port: u16)
        ensures
            port == port_of(*record),
            match *record {
                Some(found) => if found.phase == SessionPhase::Running {
                    port == found.port
                } else {
                    port == 10350
                },
                None => port == 10350,
            },
    {
        match record {
            Some(found) => if found.phase == SessionPhase::Running {
                found.port
            } else {
                DEFAULT_TILT_PORT
            },
            None => DEFAULT_TILT_PORT,
        }
    }

    /// Says what is wrong.
    pub fn set_warning(&mut self, warning: String)
        ensures
            final(self)@ == (ModelView { warning: Some(warning@), ..old(self)@ }),
    {
        self.warning = Some(warning);
    }

    fn empty(&mut self, overall_status: OverallStatus, warning: Option<String>)
        ensures
            final(self)@ == old(self)@.emptied(overall_status, model::optional_text(warning)),
    {
        self.services = Vec::new();
        self.groups = Vec::new();
        self.overall_status = overall_status;
        self.warning = warning;
        assert(self@.services =~= Seq::<model::ServiceView>::empty());
        assert(self@.groups =~= Seq::<model::GroupView>::empty());
    }

    /// Begins a look at Tilt, given the record of the session.
    pub fn refresh_with_tilt(&mut self, record: &Option<SessionRecord>) -> (step: RefreshStep)
        ensures
            match old(self)@.project.tiltfile {
                None => step is Done && final(self)@ == old(self)@,
                Some(tiltfile) => if says_exited(*record) {
                    step is Done && final(self)@ == old(self)@.exited(*record)
                } else {
                    &&& step matches RefreshStep::AskSession(query)
                    &&& query@ == query_of(tiltfile, *record)
                    &&& final(self)@ == old(self)@
                },
            },
            step is AskSession <==> old(self)@.project.tiltfile is Some && (
            record matches Some(found) ==> found.phase == SessionPhase::Running),
            step matches RefreshStep::AskSession(query) ==> match *record {
                Some(found) => {
                    &&& query@.managed
                    &&& query@.port == found.port
                    &&& query@.expected_pid == Some(found.tilt_pid)
                    &&& query@.expected_tiltfile == found.tiltfile@
                },
                None => {
                    &&& !query@.managed
                    &&& query@.port == 10350
                    &&& query@.expected_pid is None
                    &&& old(self)@.project.tiltfile == Some(query@.expected_tiltfile)
                },
            },
    {
        let tiltfile = match &self.project.tiltfile {
            Some(tiltfile) => tiltfile.clone(),
            None => return RefreshStep::Done,
        };
        match record {
            Some(found) => {
                if found.phase == SessionPhase::Exited {
                    match found.exit_code {
                        Some(code) => {
                            if code != 0 {
                                let mut warning = "Tilt exited with status ".to_owned();
                                warning.append(text::signed_decimal_text(code as i64).as_str());
                                self.empty(OverallStatus::Failed, Some(warning));
                            } else {
                                self.empty(OverallStatus::Stopped, None);
                            }
                        },
                        None => self.empty(OverallStatus::Stopped, None),
                    }
                    return RefreshStep::Done;
                }
                RefreshStep::AskSession(
                    RefreshQuery {
                        port: found.port,
                        managed: true,
                        expected_pid: Some(found.tilt_pid),
                        expected_tiltfile: found.tiltfile.clone(),
                    },
                )
            },
            None => RefreshStep::AskSession(
                RefreshQuery {
                    port: DEFAULT_TILT_PORT,
                    managed: false,
                    expected_pid: None,
                    expected_tiltfile: tiltfile,
                },
            ),
        }
    }

    /// Takes account of Tilt not telling its session.
    pub fn session_unavailable(&mut self, query: &RefreshQuery, stderr: &[u8]) -> (result: Result<
        (),
        String,
    >)
        ensures
            final(self)@ == old(self)@.unanswered(query@.managed),
            match result {
                Ok(_) => !query@.managed,
                Err(message) => query@.managed && message@ == not_ready(stderr@),
            },
    {
        if !query.managed {
            self.empty(OverallStatus::Stopped, None);
            return Ok(());
        }
        self.overall_status = OverallStatus::Starting;
        self.warning = Some("Waiting for the Tilt API".to_owned());
        Err(panel::failure_message("Tilt API is not ready", stderr))
    }

    /// Checks that the session that answers is the right one. Its Tiltfile is
    /// given in canonical form where it has one.
    pub fn verify_session(
        &mut self,
        query: RefreshQuery,
        identity: &SessionIdentity,
        reported_tiltfile: &str,
    ) -> (result: Result<VerifiedQuery, String>)
        ensures
            match result {
                Ok(verified) => {
                    &&& is_expected(query@, reported_tiltfile@, identity.pid)
                    &&& verified.query() == query@
                    &&& verified.tiltfile() == reported_tiltfile@
                    &&& verified.pid() == identity.pid
                    &&& final(self)@ == old(self)@
                },
                Err(message) => {
                    &&& !is_expected(query@, reported_tiltfile@, identity.pid)
                    &&& message@ == "Tilt API port belongs to another Tiltfile or process"@
                    &&& final(self)@ == old(self)@.rejected(query@.managed)
                },
            },
    {
        let right_process = match query.expected_pid {
            Some(expected) => identity.pid == expected,
            None => true,
        };
        if right_process && paths::equal_paths(
            reported_tiltfile,
            query.expected_tiltfile.as_str(),
        ) {
            return Ok(
                VerifiedQuery { query, tiltfile: reported_tiltfile.to_owned(), pid: identity.pid },
            );
        }
        if query.managed {
            self.empty(
                OverallStatus::Failed,
                Some("Tilt API belongs to another Tiltfile or process".to_owned()),
            );
        } else {
            self.empty(
                OverallStatus::Stopped,
                Some("Tilt's default port belongs to another workspace".to_owned()),
            );
        }
        Err("Tilt API port belongs to another Tiltfile or process".to_owned())
    }

    /// Takes account of Tilt not telling its resources.
    pub fn resources_unavailable(&mut self, _query: &VerifiedQuery, stderr: &[u8]) -> (message:
        String)
        ensures
            final(self)@ == old(self)@.waiting(),
            message@ == not_ready(stderr@),
    {
        self.overall_status = OverallStatus::Starting;
        self.warning = Some("Waiting for the Tilt API".to_owned());
        panel::failure_message("Tilt API is not ready", stderr)
    }

    /// Shows what the right session has told: its resources and, where it told
    /// them, its buttons. No other session's services are ever shown.
    pub fn show_snapshot(
        &mut self,
        query: VerifiedQuery,
        snapshot: DashboardSnapshot,
        actions: Option<ButtonActions>,
    )
        ensures
            is_expected(query.query(), query.tiltfile(), query.pid()),
            final(self)@ == old(self)@.showing(
                match actions {
                    Some(table) => buttons::snapshot_equipped(snapshot@, table@),
                    None => snapshot@,
                },
            ),
    {
        proof {
            use_type_invariant(&query);
        }
        let mut shown = snapshot;
        if let Some(table) = &actions {
            attach_service_actions(&mut shown, table);
        }
        self.services = shown.services;
        self.groups = shown.groups;
        self.warning = shown.tiltfile_error;
        self.overall_status = OverallStatus::Running;
    }

    /// Says why a look at Tilt failed, unless the dashboard waits for Tilt
    /// anyway.
    pub fn note_refresh_failure(&mut self, message: String)
        ensures
            final(self)@ == if old(self)@.overall_status == OverallStatus::Starting {
                old(self)@
            } else {
                ModelView { warning: Some(message@), ..old(self)@ }
            },
    {
        if self.overall_status != OverallStatus::Starting {
            self.warning = Some(message);
        }
    }

    // -----------------------------------------------------------------------
    // Starting and stopping
    // -----------------------------------------------------------------------

    /// What it takes to start Tilt.
    pub fn start_with_herdr(&self) -> (plan: Result<StartPlan, String>)
        ensures
            match plan {
                Ok(found) => {
                    &&& self@.startable()
                    &&& text::texts(found.args@) == start_command()
                    &&& match found.request {
                        Some(prepared) => {
                            &&& self@.workspace_id matches Some(id)
                            &&& prepared.path@ == session::request_file(self@.state_dir, id)
                            &&& self@.project.tiltfile == Some(prepared.request.tiltfile@)
                            &&& prepared.request.project_root@ == self@.project.root
                        },
                        None => self@.workspace_id is None,
                    }
                },
                Err(message) => !self@.startable() && message@
                    == "Tilt cannot be started in the current dashboard state"@,
            },
    {
        if !self.can_start() {
            return Err("Tilt cannot be started in the current dashboard state".to_owned());
        }
        let workspace_id = match &self.workspace_id {
            Some(id) => Some(id.as_str()),
            None => None,
        };
        let request = match session::prepare_start_request(
            &self.project,
            self.state_dir.as_str(),
            workspace_id,
        ) {
            Ok(request) => request,
            Err(message) => return Err(message),
        };
        let args = text::owned(vec!["plugin", "action", "invoke", "herdr.tilt.run"]);
        assert(text::texts(args@) =~= start_command());
        Ok(StartPlan { request, args })
    }

    /// Takes account of whether Herdr started Tilt.
    pub fn finish_start(&mut self, success: bool, stderr: &[u8]) -> (result: Result<(), String>)
        ensures
            final(self)@ == if success {
                old(self)@.with_status(OverallStatus::Starting, None)
            } else {
                old(self)@
            },
            success && old(self)@.project.tiltfile is Some ==> final(self)@.stoppable(),
            match result {
                Ok(_) => success,
                Err(message) => !success && message@ == panel::failure(
                    "Herdr could not start Tilt"@,
                    stderr@,
                ),
            },
    {
        if !success {
            return Err(panel::failure_message("Herdr could not start Tilt", stderr));
        }
        self.overall_status = OverallStatus::Starting;
        self.warning = None;
        Ok(())
    }

    /// What this program is told to stop Tilt.
    pub fn stop_with_binary(&self) -> (args: Result<Vec<String>, String>)
        ensures
            match args {
                Ok(found) => self@.stoppable() && text::texts(found@) == seq!["down"@],
                Err(message) => !self@.stoppable() && message@
                    == "Tilt cannot be stopped in the current dashboard state"@,
            },
            args is Ok <==> self@.project.tiltfile is Some && (self@.overall_status
                == OverallStatus::Starting || self@.overall_status == OverallStatus::Running
                || self@.overall_status == OverallStatus::Failed),
    {
        if !self.can_stop() {
            return Err("Tilt cannot be stopped in the current dashboard state".to_owned());
        }
        let args = text::owned(vec!["down"]);
        assert(text::texts(args@) =~= seq!["down"@]);
        Ok(args)
    }

    /// Takes account of whether Tilt was stopped.
    pub fn finish_stop(&mut self, success: bool, stderr: &[u8]) -> (result: Result<(), String>)
        ensures
            final(self)@ == if success {
                old(self)@.emptied(OverallStatus::Stopped, None)
            } else {
                old(self)@
            },
            match result {
                Ok(_) => success,
                Err(message) => !success && message@ == panel::failure(
                    "Could not stop Tilt"@,
                    stderr@,
                ),
            },
    {
        if !success {
            return Err(panel::failure_message("Could not stop Tilt", stderr));
        }
        self.empty(OverallStatus::Stopped, None);
        Ok(())
    }

    // -----------------------------------------------------------------------
    // Services
    // -----------------------------------------------------------------------

    fn is_shown(&self, name: &str) -> (shown: bool)
        ensures
            shown == self@.shows(name@),
    {
        if self.overall_status != OverallStatus::Running {
            return false;
        }
        let mut index: usize = 0;
        while index < self.services.len()
            invariant
                index <= self.services@.len(),
                self@.overall_status == OverallStatus::Running,
                forall|i: int| 0 <= i < index ==> (#[trigger] self@.services[i]).name != name@,
            decreases self.services@.len() - index,
        {
            if text::text_eq(self.services[index].name.as_str(), name) {
                assert(self@.services[index as int].name == name@);
                return true;
            }
            index += 1;
        }
        false
    }

    /// What Tilt is told to rebuild a service.
    pub fn trigger_service_with_tilt(&self, service_name: &str, record: &Option<SessionRecord>) -> (
        args: Result<Vec<String>, String>)
        ensures
            match args {
                Ok(found) => self@.shows(service_name@) && text::texts(found@) == service_command(
                    "trigger"@,
                    service_name@,
                    port_of(*record),
                ),
                Err(message) => !self@.shows(service_name@) && message@
                    == "Tilt service cannot be triggered in the current dashboard state"@,
            },
    {
        if !self.is_shown(service_name) {
            return Err(
                "Tilt service cannot be triggered in the current dashboard state".to_owned(),
            );
        }
        Ok(service_args("trigger", service_name, self.active_port(record)))
    }

    /// What Tilt is told to enable a service that is disabled, or to disable
    /// one that is not.
    pub fn toggle_service_with_tilt(&self, service: &Service, record: &Option<SessionRecord>) -> (
        args: Result<Vec<String>, String>)
        ensures
            match args {
                Ok(found) => self@.shows(service@.name) && text::texts(found@) == service_command(
                    toggle_word(service@),
                    service@.name,
                    port_of(*record),
                ),
                Err(message) => !self@.shows(service@.name) && message@
                    == "Tilt service cannot be toggled in the current dashboard state"@,
            },
    {
        if !self.is_shown(service.name.as_str()) {
            return Err(
                "Tilt service cannot be toggled in the current dashboard state".to_owned(),
            );
        }
        Ok(service_args(toggle_action(service), service.name.as_str(), self.active_port(record)))
    }
}

/// What Tilt is told to do to a service.
pub open spec fn service_command(action: Seq<char>, service: Seq<char>, port: u16) -> Seq<
    Seq<char>,
> {
    seq![action, service, "--port"@, text::decimal(port as nat)]
}

fn service_args(action: &str, service: &str, port: u16) -> (args: Vec<String>)
    ensures
        text::texts(args@) == service_command(action@, service@, port),
{
    let number = text::decimal_text(port as u64);
    let args = text::owned(vec![action, service, "--port", number.as_str()]);
    assert(text::texts(args@) =~= service_command(action@, service@, port));
    args
}

/// The word for what toggling does to a service.
pub open spec fn toggle_word(service: model::ServiceView) -> Seq<char> {
    if service.disabled {
        "enable"@
    } else {
        "disable"@
    }
}

/// The word for what toggling does to a service.
pub fn toggle_action(service: &Service) -> (word: &'static str)
    ensures
        word@ == toggle_word(service@),
{
    if service.disabled {
        "enable"
    } else {
        "disable"
    }
}

/// What is said where something could not be done to a service.
pub open spec fn service_failure(action: Seq<char>, service: Seq<char>, stderr: Seq<u8>) -> Seq<
    char,
> {
    panel::failure("Could not "@ + action + " "@ + service, stderr)
}

/// What is said where something could not be done to a service.
pub fn service_failure_message(action: &str, service: &str, stderr: &[u8]) -> (message: String)
    ensures
        message@ == service_failure(action@, service@, stderr@),
{
    let mut what = "Could not ".to_owned();
    what.append(action);
    what.append(" ");
    what.append(service);
    panel::failure_message(what.as_str(), stderr)
}

/// Without a Tiltfile, Tilt can neither be started nor stopped.
pub proof fn law_no_tiltfile_disables_the_controls(dashboard: ModelView)
    requires
        dashboard.project.tiltfile is None,
    ensures
        !dashboard.startable(),
        !dashboard.stoppable(),
{
}

/// Rejecting an answer hides all services, so none of another project is shown.
pub proof fn law_rejected_answers_show_nothing(dashboard: ModelView, managed: bool)
    ensures
        dashboard.rejected(managed).services.len() == 0,
        dashboard.rejected(managed).groups.len() == 0,
{
}

/// A look at Tilt goes to the port that the record of the session names, and
/// takes an answer only from the process and for the Tiltfile that the record
/// names. Without a record it goes to the default port, and takes any process.
pub proof fn law_refresh_asks_the_recorded_session(tiltfile: Seq<char>, record: SessionRecord)
    ensures
        ({
            let query = query_of(tiltfile, Some(record));
            &&& query.port == record.port
            &&& query.managed
            &&& query.expected_pid == Some(record.tilt_pid)
            &&& query.expected_tiltfile == record.tiltfile@
        }),
        ({
            let query = query_of(tiltfile, None);
            &&& query.port == 10350
            &&& !query.managed
            &&& query.expected_pid is None
            &&& query.expected_tiltfile == tiltfile
        }),
{
}

/// All that is said to Tilt while a session runs goes to one port: the looks of
/// the dashboard, and whatever is asked of a service. Where no session runs,
/// what is asked of a service goes to the default port.
pub proof fn law_one_session_has_one_port(tiltfile: Seq<char>, record: SessionRecord)
    ensures
        record.phase == SessionPhase::Running ==> port_of(Some(record)) == query_of(
            tiltfile,
            Some(record),
        ).port,
        record.phase == SessionPhase::Running ==> port_of(Some(record)) == record.port,
        record.phase == SessionPhase::Exited ==> port_of(Some(record)) == 10350,
        port_of(None) == query_of(tiltfile, None).port,
{
}

/// A question to Tilt names what is asked for and the port, and asks for JSON.
pub proof fn law_questions_name_what_and_where(what: Seq<char>, port: u16)
    ensures
        get_command(what, port) == seq!["get"@, what] + seq!["-o"@, "json"@] + seq![
            "--port"@,
            text::decimal(port as nat),
        ],
{
    assert(get_command(what, port) =~= seq!["get"@, what] + seq!["-o"@, "json"@] + seq![
        "--port"@,
        text::decimal(port as nat),
    ]);
}

/// An answer counts only if it is for the Tiltfile that was asked about, and
/// from the process of the record where there is a record.
pub proof fn law_only_the_right_session_counts(
    tiltfile: Seq<char>,
    record: SessionRecord,
    reported: Seq<char>,
    pid: u32,
)
    ensures
        is_expected(query_of(tiltfile, Some(record)), reported, pid) <==> pid == record.tilt_pid
            && paths::components(reported) == paths::components(record.tiltfile@),
        is_expected(query_of(tiltfile, None), reported, pid) <==> paths::components(reported)
            == paths::components(tiltfile),
{
}

/// With a Tiltfile, Tilt can be started exactly where it is stopped or has
/// failed, and stopped exactly where it starts, runs or has failed.
pub proof fn law_states_decide_the_controls(dashboard: ModelView)
    requires
        dashboard.project.tiltfile is Some,
    ensures
        match dashboard.overall_status {
            OverallStatus::Unavailable => !dashboard.startable() && !dashboard.stoppable(),
            OverallStatus::Stopped => dashboard.startable() && !dashboard.stoppable(),
            OverallStatus::Starting => !dashboard.startable() && dashboard.stoppable(),
            OverallStatus::Running => !dashboard.startable() && dashboard.stoppable(),
            OverallStatus::Failed => dashboard.startable() && dashboard.stoppable(),
        },
{
}

/// What a start leaves can be stopped but not started again; what a stop leaves
/// can be started but not stopped again; what another look finds running can be
/// stopped.
pub proof fn law_starting_and_stopping_alternate(
    dashboard: ModelView,
    snapshot: model::SnapshotView,
)
    requires
        dashboard.project.tiltfile is Some,
    ensures
        ({
            let started = dashboard.with_status(OverallStatus::Starting, None);
            &&& started.stoppable() && !started.startable()
            &&& started.services == dashboard.services
            &&& started.warning is None
        }),
        ({
            let stopped = dashboard.emptied(OverallStatus::Stopped, None);
            &&& stopped.startable() && !stopped.stoppable()
            &&& stopped.services.len() == 0 && stopped.groups.len() == 0
            &&& stopped.warning is None
        }),
        dashboard.showing(snapshot).stoppable() && !dashboard.showing(snapshot).startable(),
        dashboard.waiting().stoppable() && !dashboard.waiting().startable(),
{
}

/// A dashboard that has just been opened shows nothing. With a Tiltfile it can
/// start Tilt and warns of nothing; without one it says so.
pub proof fn law_dashboards_open_empty(
    project: project::ProjectView,
    state_dir: Seq<char>,
    workspace_id: Option<Seq<char>>,
)
    ensures
        ({
            let dashboard = ModelView::opened(project, state_dir, workspace_id);
            &&& dashboard.project == project
            &&& dashboard.state_dir == state_dir
            &&& dashboard.workspace_id == workspace_id
            &&& dashboard.services.len() == 0 && dashboard.groups.len() == 0
            &&& project.tiltfile is Some ==> dashboard.overall_status == OverallStatus::Stopped
                && dashboard.warning is None && dashboard.startable()
            &&& project.tiltfile is None ==> dashboard.overall_status
                == OverallStatus::Unavailable && dashboard.warning == Some(
                "No Tiltfile found in this workspace"@,
            )
        }),
{
}

/// A session that ended with an exit code other than zero has failed, and the
/// warning names the code. One that ended with zero, or without a code, has
/// stopped, and there is nothing to warn of. Either way nothing is shown.
pub proof fn law_exit_codes_tell_failures(dashboard: ModelView, record: SessionRecord)
    ensures
        ({
            let after = dashboard.exited(Some(record));
            &&& after.services.len() == 0 && after.groups.len() == 0
            &&& after.project == dashboard.project
            &&& match record.exit_code {
                Some(code) => if code == 0 {
                    after.overall_status == OverallStatus::Stopped && after.warning is None
                } else {
                    after.overall_status == OverallStatus::Failed && after.warning == Some(
                        "Tilt exited with status "@ + text::signed_decimal(code as int),
                    )
                },
                None => after.overall_status == OverallStatus::Stopped && after.warning is None,
            }
        }),
        record.phase == SessionPhase::Exited <==> says_exited(Some(record)),
        !says_exited(None),
{
}

/// While the Tilt that the dashboard started does not answer, the dashboard
/// waits and keeps what it showed. Where it started none, an answer that does
/// not come means that no Tilt runs.
pub proof fn law_silence_means_waiting_or_stopped(dashboard: ModelView)
    ensures
        ({
            let after = dashboard.unanswered(true);
            &&& after.overall_status == OverallStatus::Starting
            &&& after.warning == Some("Waiting for the Tilt API"@)
            &&& after.services == dashboard.services && after.groups == dashboard.groups
            &&& after == dashboard.waiting()
        }),
        ({
            let after = dashboard.unanswered(false);
            &&& after.overall_status == OverallStatus::Stopped
            &&& after.warning is None
            &&& after.services.len() == 0 && after.groups.len() == 0
        }),
{
}

/// Where another Tilt answers in place of the one that the dashboard started,
/// that one has failed; on the default port, it only means that no Tilt of this
/// project runs. Both are said.
pub proof fn law_strangers_are_told_of(dashboard: ModelView)
    ensures
        dashboard.rejected(true).overall_status == OverallStatus::Failed,
        dashboard.rejected(true).warning == Some(
            "Tilt API belongs to another Tiltfile or process"@,
        ),
        dashboard.rejected(false).overall_status == OverallStatus::Stopped,
        dashboard.rejected(false).warning == Some(
            "Tilt's default port belongs to another workspace"@,
        ),
        dashboard.rejected(true).project == dashboard.project,
        dashboard.rejected(false).project == dashboard.project,
{
}

/// What Tilt shows is what the dashboard shows: its services, its groups and,
/// as a warning, the error of its Tiltfile.
pub proof fn law_the_dashboard_shows_what_tilt_shows(
    dashboard: ModelView,
    snapshot: model::SnapshotView,
)
    ensures
        ({
            let after = dashboard.showing(snapshot);
            &&& after.overall_status == OverallStatus::Running
            &&& after.services == snapshot.services
            &&& after.groups == snapshot.groups
            &&& after.warning == snapshot.tiltfile_error
            &&& after.project == dashboard.project
            &&& after.state_dir == dashboard.state_dir
            &&& after.workspace_id == dashboard.workspace_id
        }),
{
}

/// Only a service that is shown while Tilt runs can be told anything, and any
/// that is shown can.
pub proof fn law_shown_services_can_be_told(dashboard: ModelView, name: Seq<char>, place: int)
    ensures
        dashboard.overall_status == OverallStatus::Running && 0 <= place
            < dashboard.services.len() ==> dashboard.shows(dashboard.services[place].name),
        dashboard.shows(name) ==> dashboard.overall_status == OverallStatus::Running && exists|
            i: int,
        |
            0 <= i < dashboard.services.len() && (#[trigger] dashboard.services[i]).name == name,
{
}

/// What Tilt is told to do to a service names the action, the service and the
/// port.
pub proof fn law_commands_name_action_service_and_port(
    action: Seq<char>,
    service: Seq<char>,
    port: u16,
)
    ensures
        service_command(action, service, port) == seq![action, service] + seq![
            "--port"@,
            text::decimal(port as nat),
        ],
{
    assert(service_command(action, service, port) =~= seq![action, service] + seq![
        "--port"@,
        text::decimal(port as nat),
    ]);
}

/// Toggling enables what is disabled and disables what is not.
pub proof fn law_toggling_reverses(service: model::ServiceView)
    ensures
        service.disabled ==> toggle_word(service) == "enable"@,
        !service.disabled ==> toggle_word(service) == "disable"@,
{
}

/// Herdr is told to invoke the action that runs Tilt.
pub proof fn law_herdr_invokes_the_run_action()
    ensures
        start_command() == seq!["plugin"@, "action"@, "invoke"@].push("herdr.tilt.run"@),
{
    assert(start_command() =~= seq!["plugin"@, "action"@, "invoke"@].push("herdr.tilt.run"@));
}

/// What is said where something could not be done names the action, the service
/// and what the program wrote, without the white space around it.
pub proof fn law_failures_say_what_failed(action: Seq<char>, service: Seq<char>, stderr: Seq<u8>)
    ensures
        service_failure(action, service, stderr) == "Could not "@ + action + " "@ + service + ": "@
            + text::trimmed(text::utf8_lossy(stderr)),
        not_ready(stderr) == "Tilt API is not ready"@ + ": "@ + text::trimmed(
            text::utf8_lossy(stderr),
        ),
{
}

} // verus!
