use herdr_tilt::project::Project;
use herdr_tilt::session::{SessionPhase, SessionRecord};
use herdr_tilt::tilt::buttons::{
    parse_ui_buttons, ButtonActions, UIButton, UIButtonList, UIButtonLocation, UIButtonSpec,
};
use herdr_tilt::tilt::{
    parse_ui_resources, CircleStatus, DashboardSnapshot, DisableStatus, EndpointLink, Metadata,
    ResourceStatus, ServiceAction, SessionIdentity, UIResource, UIResourceList,
};
use herdr_tilt::tui::model::{service_failure_message, RefreshQuery, RefreshStep, VerifiedQuery};
use herdr_tilt::tui::{DashboardModel, OverallStatus};

const TILTFILE: &str = "/work/project/Tiltfile";

fn project() -> Project {
    Project {
        root: "/work/project".to_owned(),
        tiltfile: Some(TILTFILE.to_owned()),
    }
}

fn model() -> DashboardModel {
    DashboardModel::new(project(), "/state".to_owned())
}

fn record(port: u16, tilt_pid: u32) -> SessionRecord {
    SessionRecord {
        tiltfile: TILTFILE.to_owned(),
        project_root: "/work/project".to_owned(),
        port,
        runner_pid: 100,
        tilt_pid,
        started_unix_ms: 1234,
        phase: SessionPhase::Running,
        exit_code: None,
    }
}

fn identity(tiltfile: &str, pid: u32) -> SessionIdentity {
    SessionIdentity {
        tiltfile: tiltfile.to_owned(),
        pid,
        start_time: "2026-08-20T01:02:03Z".to_owned(),
    }
}

fn metadata(name: &str) -> Metadata {
    Metadata {
        name: name.to_owned(),
        labels: Vec::new(),
        annotations: Vec::new(),
    }
}

fn resource(name: &str, order: i32, state: &str) -> UIResource {
    UIResource {
        metadata: metadata(name),
        status: ResourceStatus {
            order,
            update_status: "ok".to_owned(),
            runtime_status: "ok".to_owned(),
            disable_status: DisableStatus {
                state: state.to_owned(),
            },
            current_build: false,
            queued: false,
            build_history: Vec::new(),
            endpoint_links: Vec::new(),
        },
    }
}

fn snapshot(items: Vec<UIResource>) -> DashboardSnapshot {
    parse_ui_resources(UIResourceList { items })
}

fn asked(step: RefreshStep) -> RefreshQuery {
    match step {
        RefreshStep::AskSession(query) => query,
        RefreshStep::Done => panic!("nothing was asked"),
    }
}

fn verified(model: &mut DashboardModel, session: &Option<SessionRecord>, pid: u32) -> VerifiedQuery {
    let query = asked(model.refresh_with_tilt(session));
    model
        .verify_session(query, &identity(TILTFILE, pid), TILTFILE)
        .unwrap()
}

fn refreshed(
    session: &Option<SessionRecord>,
    pid: u32,
    items: Vec<UIResource>,
    actions: Option<ButtonActions>,
) -> DashboardModel {
    let mut model = model();
    let query = verified(&mut model, session, pid);
    model.show_snapshot(query, snapshot(items), actions);
    model
}

#[test]
fn dashboard_without_tiltfile_warns_and_disables_controls() {
    let project = Project {
        root: "/work/project".to_owned(),
        tiltfile: None,
    };

    let model = DashboardModel::new(project, "/state".to_owned());

    assert_eq!(model.overall_status(), OverallStatus::Unavailable);
    assert_eq!(model.warning(), Some("No Tiltfile found in this workspace"));
    assert!(!model.can_start());
    assert!(!model.can_stop());
}

#[test]
fn running_dashboard_refreshes_services_from_tilt() {
    let mut api = resource("api", 1, "");
    api.status.endpoint_links = vec![EndpointLink {
        name: "API".to_owned(),
        url: "https://api.test".to_owned(),
    }];
    let buttons = parse_ui_buttons(UIButtonList {
        items: vec![UIButton {
            metadata: metadata("api-seed"),
            spec: UIButtonSpec {
                disabled: false,
                text: "Seed".to_owned(),
                requires_confirmation: false,
                location: UIButtonLocation {
                    component_id: "api".to_owned(),
                    component_type: "Resource".to_owned(),
                },
                inputs: Vec::new(),
            },
        }],
    });

    let model = refreshed(&Some(record(41234, 101)), 101, vec![api], Some(buttons));

    assert_eq!(model.overall_status(), OverallStatus::Running);
    assert_eq!(model.services.len(), 1);
    assert_eq!(model.services[0].name, "api");
    assert_eq!(model.services[0].status, CircleStatus::Green);
    assert!(matches!(
        model.services[0].actions[0],
        ServiceAction::Link { .. }
    ));
    assert!(matches!(
        model.services[0].actions[1],
        ServiceAction::Button { .. }
    ));
    assert!(!model.can_start());
    assert!(model.can_stop());
}

#[test]
fn dashboard_discovers_manually_started_tilt_on_the_default_port() {
    let mut model = model();
    let query = asked(model.refresh_with_tilt(&None));
    assert_eq!(
        query.session_args(),
        ["get", "sessions", "-o", "json", "--port", "10350"]
    );
    let query = model
        .verify_session(query, &identity(TILTFILE, 321), TILTFILE)
        .unwrap();
    assert_eq!(
        query.resources_args(),
        ["get", "uiresources", "-o", "json", "--port", "10350"]
    );
    assert_eq!(
        query.buttons_args(),
        ["get", "uibuttons", "-o", "json", "--port", "10350"]
    );
    model.show_snapshot(query, snapshot(vec![resource("manual-api", 1, "")]), None);

    assert_eq!(model.overall_status(), OverallStatus::Running);
    assert_eq!(model.services.len(), 1);
    assert_eq!(model.services[0].name, "manual-api");
    assert!(!model.can_start());
}

#[test]
fn dashboard_without_a_default_tilt_api_remains_stopped() {
    let mut model = model();
    let query = asked(model.refresh_with_tilt(&None));

    model.session_unavailable(&query, b"").unwrap();

    assert_eq!(model.overall_status(), OverallStatus::Stopped);
    assert!(model.services.is_empty());
    assert_eq!(model.warning(), None);
}

#[test]
fn dashboard_rejects_a_tilt_api_for_another_project() {
    let mut model = model();
    let query = asked(model.refresh_with_tilt(&Some(record(41234, 101))));

    let error = model
        .verify_session(
            query,
            &identity("/another/project/Tiltfile", 999),
            "/another/project/Tiltfile",
        )
        .unwrap_err();

    assert!(
        error.contains("another Tiltfile"),
        "unexpected refresh failure: {error}"
    );
    assert!(model.services.is_empty());
    assert_eq!(model.overall_status(), OverallStatus::Failed);
    assert_eq!(
        model.warning(),
        Some("Tilt API belongs to another Tiltfile or process")
    );
}

#[test]
fn dashboard_rejects_another_process_and_hides_what_it_showed() {
    let session = Some(record(41234, 101));
    let mut model = refreshed(&session, 101, vec![resource("api", 1, "")], None);
    let query = asked(model.refresh_with_tilt(&session));

    assert!(model
        .verify_session(query, &identity(TILTFILE, 102), TILTFILE)
        .is_err());
    assert!(model.services.is_empty());
    assert!(model.groups.is_empty());

    let mut model = refreshed(&None, 5, vec![resource("api", 1, "")], None);
    let query = asked(model.refresh_with_tilt(&None));
    assert!(model
        .verify_session(query, &identity("/other/Tiltfile", 5), "/other/Tiltfile")
        .is_err());
    assert_eq!(model.overall_status(), OverallStatus::Stopped);
    assert_eq!(
        model.warning(),
        Some("Tilt's default port belongs to another workspace")
    );
}

#[test]
fn tiltfiles_are_compared_as_paths() {
    let mut model = model();
    let query = asked(model.refresh_with_tilt(&None));

    assert!(model
        .verify_session(
            query,
            &identity("/work//project/./Tiltfile", 5),
            "/work//project/./Tiltfile"
        )
        .is_ok());
}

#[test]
fn a_session_of_its_own_is_waited_for() {
    let session = Some(record(41234, 101));
    let mut model = refreshed(&session, 101, vec![resource("api", 1, "")], None);
    let query = asked(model.refresh_with_tilt(&session));

    assert_eq!(
        model.session_unavailable(&query, b" refused \n").unwrap_err(),
        "Tilt API is not ready: refused"
    );
    assert_eq!(model.overall_status(), OverallStatus::Starting);
    assert_eq!(model.warning(), Some("Waiting for the Tilt API"));
    assert_eq!(model.services.len(), 1);
    model.note_refresh_failure("refused".to_owned());
    assert_eq!(model.warning(), Some("Waiting for the Tilt API"));

    let query = verified(&mut model, &session, 101);
    assert_eq!(
        model.resources_unavailable(&query, b"later"),
        "Tilt API is not ready: later"
    );
    assert_eq!(model.overall_status(), OverallStatus::Starting);
}

#[test]
fn other_failures_of_a_refresh_are_told() {
    let mut model = model();

    model.note_refresh_failure("no such program".to_owned());

    assert_eq!(model.warning(), Some("no such program"));
}

#[test]
fn an_ended_session_tells_how_it_ended() {
    let mut failed = record(41234, 101);
    failed.phase = SessionPhase::Exited;
    failed.exit_code = Some(-7);
    let mut model = refreshed(&None, 5, vec![resource("api", 1, "")], None);
    assert!(matches!(
        model.refresh_with_tilt(&Some(failed)),
        RefreshStep::Done
    ));
    assert_eq!(model.overall_status(), OverallStatus::Failed);
    assert_eq!(model.warning(), Some("Tilt exited with status -7"));
    assert!(model.services.is_empty());
    assert!(model.can_start());
    assert!(model.can_stop());

    for exit_code in [Some(0), None] {
        let mut ended = record(41234, 101);
        ended.phase = SessionPhase::Exited;
        ended.exit_code = exit_code;
        assert!(matches!(
            model.refresh_with_tilt(&Some(ended)),
            RefreshStep::Done
        ));
        assert_eq!(model.overall_status(), OverallStatus::Stopped);
        assert_eq!(model.warning(), None);
    }
}

#[test]
fn dashboard_start_invokes_the_retained_herdr_action() {
    let mut model = model();

    let plan = model.start_with_herdr().unwrap();
    model.finish_start(true, b"").unwrap();

    assert_eq!(plan.args, ["plugin", "action", "invoke", "herdr.tilt.run"]);
    assert_eq!(plan.request, None);
    assert_eq!(model.overall_status(), OverallStatus::Starting);
    assert!(!model.can_start());
}

#[test]
fn dashboard_start_hands_its_project_to_the_retained_action() {
    let model = DashboardModel::new_for_workspace(
        project(),
        "/state".to_owned(),
        Some("w1".to_owned()),
    );

    let plan = model.start_with_herdr().unwrap();

    let prepared = plan.request.unwrap();
    assert_eq!(
        prepared.path,
        herdr_tilt::session::start_request_path("/state", "w1")
    );
    assert_eq!(prepared.request.tiltfile, TILTFILE);
    let accepted = herdr_tilt::session::accept_start_request(
        prepared.request.project_root,
        prepared.request.tiltfile,
        true,
    );
    assert_eq!(accepted.unwrap(), project());
}

#[test]
fn a_failed_start_changes_nothing() {
    let mut model = model();

    assert_eq!(
        model.finish_start(false, b"no plugin\n").unwrap_err(),
        "Herdr could not start Tilt: no plugin"
    );
    assert_eq!(model.overall_status(), OverallStatus::Stopped);
    model.finish_start(true, b"").unwrap();
    assert_eq!(
        model.start_with_herdr().unwrap_err(),
        "Tilt cannot be started in the current dashboard state"
    );
}

#[test]
fn stopping_clears_the_services() {
    let mut model = refreshed(&None, 5, vec![resource("api", 1, "")], None);

    assert_eq!(model.stop_with_binary().unwrap(), ["down"]);
    assert_eq!(
        model.finish_stop(false, b"busy").unwrap_err(),
        "Could not stop Tilt: busy"
    );
    assert_eq!(model.services.len(), 1);
    model.finish_stop(true, b"").unwrap();
    assert!(model.services.is_empty());
    assert_eq!(model.overall_status(), OverallStatus::Stopped);
    assert_eq!(
        model.stop_with_binary().unwrap_err(),
        "Tilt cannot be stopped in the current dashboard state"
    );
}

#[test]
fn dashboard_triggers_a_resource_on_the_active_tilt_port() {
    let session = Some(record(41234, 321));
    let model = refreshed(&session, 321, vec![resource("api", 1, "")], None);

    assert_eq!(
        model.trigger_service_with_tilt("api", &session).unwrap(),
        ["trigger", "api", "--port", "41234"]
    );
    assert_eq!(
        model.trigger_service_with_tilt("web", &session).unwrap_err(),
        "Tilt service cannot be triggered in the current dashboard state"
    );
}

#[test]
fn dashboard_toggles_resources_between_enabled_and_disabled() {
    let mut worker = resource("worker", 2, "Disabled");
    worker.status.update_status.clear();
    worker.status.runtime_status.clear();
    let model = refreshed(&None, 321, vec![resource("api", 1, ""), worker], None);
    let api = model.services[0].clone();
    let worker = model.services[1].clone();

    assert_eq!(
        [
            model.toggle_service_with_tilt(&api, &None).unwrap().join(" "),
            model
                .toggle_service_with_tilt(&worker, &None)
                .unwrap()
                .join(" "),
        ],
        ["disable api --port 10350", "enable worker --port 10350"]
    );
}

#[test]
fn services_of_a_stopped_tilt_cannot_be_toggled() {
    let mut model = refreshed(&None, 321, vec![resource("api", 1, "")], None);
    let api = model.services[0].clone();
    model.finish_start(true, b"").unwrap();

    assert_eq!(
        model.toggle_service_with_tilt(&api, &None).unwrap_err(),
        "Tilt service cannot be toggled in the current dashboard state"
    );
    assert_eq!(
        service_failure_message("disable", "api", b"\tdenied "),
        "Could not disable api: denied"
    );
}

#[test]
fn the_active_port_is_that_of_the_running_session() {
    let model = model();
    let mut ended = record(41234, 1);
    ended.phase = SessionPhase::Exited;

    assert_eq!(model.active_port(&Some(record(41234, 1))), 41234);
    assert_eq!(model.active_port(&Some(ended)), 10350);
    assert_eq!(model.active_port(&None), 10350);
}
