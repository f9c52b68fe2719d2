use herdr_tilt::digest::key;
use herdr_tilt::panel::{
    document_file, failure_message, focus_args, is_safe_id, open_args, open_panel, panel_focused,
    panel_state_path, temporary_path, told_message, PanelStep,
};
use herdr_tilt::project::{InvocationContext, Project};
use herdr_tilt::session::{
    accept_start_request, begin_down, down_plan, lock_path, log_path, prepare_start_request,
    process_to_signal, record_path, requested_path, run_locked, run_plan, session_file,
    start_request_path, take_start_request, tilt_up_args, unix_millis, CleanUp, DownPlan, DownStep, RunningSession,
    SessionPhase, SessionRecord, StoppingSession, TakeStep, WaitStep,
};

const ABC_KEY: &str = "ba7816bf8f01cfea414140de5dae2223b00361a396177a9cb410ff61f20015ad";

fn project(tiltfile: Option<&str>) -> Project {
    Project {
        root: "/work/project".to_owned(),
        tiltfile: tiltfile.map(|path| path.to_owned()),
    }
}

fn tilt_project() -> Project {
    project(Some("/work/project/Tiltfile"))
}

fn session(tilt_pid: u32) -> RunningSession {
    let plan = run_plan(&tilt_project(), "/state").unwrap();
    run_locked(plan, true)
        .unwrap()
        .with_port(41234)
        .unwrap()
        .started(&tilt_project(), 100, tilt_pid, 1234)
}

fn running(tilt_pid: u32) -> Option<SessionRecord> {
    Some(session(tilt_pid).current_record().clone())
}

fn exited(exit_code: Option<i32>) -> Option<SessionRecord> {
    let mut session = session(101);
    session.ended(exit_code);
    Some(session.current_record().clone())
}

fn plan() -> DownPlan {
    down_plan(&tilt_project(), "/state").unwrap()
}

fn stopping(record: &Option<SessionRecord>) -> StoppingSession {
    match begin_down(plan(), true, record).unwrap() {
        DownStep::Signal(stopping) => stopping,
        DownStep::Clean(_) => panic!("nothing was signaled"),
    }
}

fn clean(step: WaitStep) -> CleanUp {
    match step {
        WaitStep::Stopped(clean) => clean,
        other => panic!("still waiting: {other:?}"),
    }
}

#[test]
fn keys_are_digests_in_hexadecimal() {
    assert_eq!(key("abc"), ABC_KEY);
    assert_eq!(
        record_path("/state", "abc"),
        format!("/state/sessions/{ABC_KEY}.json")
    );
    assert_eq!(
        lock_path("/state", "abc"),
        format!("/state/sessions/{ABC_KEY}.lock")
    );
    assert_eq!(
        log_path("/state", "abc"),
        format!("/state/logs/{ABC_KEY}.log")
    );
    assert_eq!(
        start_request_path("/state", "abc"),
        format!("/state/start-requests/{ABC_KEY}.json")
    );
    assert_eq!(
        panel_state_path("/state/", "abc"),
        format!("/state/panels/{ABC_KEY}.json")
    );
    assert_eq!(
        temporary_path("/state/a.json", 4321),
        "/state/a.json.tmp-4321"
    );
}

#[test]
fn different_tiltfiles_keep_different_records() {
    assert_ne!(
        record_path("/state", "/a/Tiltfile"),
        record_path("/state", "/b/Tiltfile")
    );
    assert_eq!(
        session_file(&project(Some("/a/Tiltfile")), "/state"),
        Some(record_path("/state", "/a/Tiltfile"))
    );
    assert_eq!(session_file(&project(None), "/state"), None);
}

#[test]
fn open_command_opens_status_split_for_workspace() {
    let context = InvocationContext {
        workspace_id: Some("w1".to_owned()),
        focused_pane_id: Some("w1:p1".to_owned()),
        ..InvocationContext::default()
    };

    assert_eq!(
        open_args(&context, "/tmp/project"),
        [
            "plugin",
            "pane",
            "open",
            "--plugin",
            "herdr.tilt",
            "--entrypoint",
            "status",
            "--placement",
            "split",
            "--direction",
            "right",
            "--workspace",
            "w1",
            "--target-pane",
            "w1:p1",
            "--cwd",
            "/tmp/project",
            "--focus",
        ]
    );
}

#[test]
fn open_leaves_out_what_is_not_known() {
    assert_eq!(
        open_args(&InvocationContext::default(), "/p")[11..],
        ["--cwd", "/p", "--focus"]
    );
}

#[test]
fn repeated_open_focuses_the_saved_plugin_pane() {
    let context = InvocationContext {
        workspace_id: Some("w1".to_owned()),
        focused_pane_id: Some("w1:p1".to_owned()),
        ..InvocationContext::default()
    };
    let calls = [None, Some("w1:p9")].map(|saved| {
        match open_panel(&context, "/tmp/project", saved) {
            PanelStep::Open(args) | PanelStep::Focus(args) => args.join(" "),
            PanelStep::Done => panic!("Herdr was not called"),
        }
    });

    assert!(calls[0].starts_with("plugin pane open "));
    assert_eq!(calls[1], "plugin pane focus w1:p9");
    assert_eq!(focus_args(None), None);
    assert_eq!(focus_args(Some("--help")), None);
}

#[test]
fn identifiers_are_checked_before_they_are_handed_over() {
    for id in ["w1:p9", "A.b_C-7", "0"] {
        assert!(is_safe_id(id), "{id}");
    }
    for id in ["", "-a", "a b", "a;b", "é", "a\n"] {
        assert!(!is_safe_id(id), "{id}");
    }
}

#[test]
fn a_pane_that_is_gone_is_opened_again() {
    let context = InvocationContext::default();
    let open = PanelStep::Open(open_args(&context, "/p"));

    assert_eq!(open_panel(&context, "/p", None), open);
    assert_eq!(open_panel(&context, "/p", Some("-x")), open);
    assert_eq!(
        open_panel(&context, "/p", Some("w1:p9")),
        PanelStep::Focus(focus_args(Some("w1:p9")).unwrap())
    );
    assert_eq!(panel_focused(&context, "/p", true), PanelStep::Done);
    assert_eq!(panel_focused(&context, "/p", false), open);
}

#[test]
fn failures_quote_what_the_program_wrote() {
    assert_eq!(
        failure_message("It failed", b"  because \xff\n"),
        "It failed: because \u{fffd}"
    );
    assert_eq!(told_message("It failed", "\tagain\u{a0}"), "It failed: again");
    assert_eq!(document_file("/state", "kind", "key", ".end"), "/state/kind/key.end");
}

#[test]
fn run_command_starts_tilt_and_records_the_session() {
    let plan = run_plan(&tilt_project(), "/state").unwrap();
    assert_eq!(plan.sessions_dir, "/state/sessions");
    assert_eq!(plan.logs_dir, "/state/logs");
    assert_eq!(plan.lock_path, lock_path("/state", "/work/project/Tiltfile"));

    let run = run_locked(plan, true).unwrap();
    assert_eq!(run.log_path(), log_path("/state", "/work/project/Tiltfile"));
    let run = run.with_port(41234).unwrap();
    assert_eq!(
        run.args(),
        ["up", "--stream", "--port", "41234", "-f", "/work/project/Tiltfile"]
    );
    assert_eq!(run.args(), tilt_up_args(41234, "/work/project/Tiltfile"));

    let mut session = run.started(&tilt_project(), 100, 101, 1234);
    assert_eq!(
        session.record_path(),
        record_path("/state", "/work/project/Tiltfile")
    );
    assert_eq!(session.current_record().phase, SessionPhase::Running);
    assert_eq!(session.current_record().project_root, "/work/project");
    session.ended(Some(0));
    assert_eq!(session.current_record().phase, SessionPhase::Exited);
    assert_eq!(session.current_record().exit_code, Some(0));
    assert_eq!(session.current_record().port, 41234);
}

#[test]
fn a_session_needs_its_lock_and_a_port() {
    let plan = || run_plan(&tilt_project(), "/state").unwrap();

    assert!(run_locked(plan(), false).is_none());
    assert_eq!(
        run_locked(plan(), true).unwrap().with_port(0).unwrap_err(),
        "operating system returned an invalid Tilt API port"
    );
}

#[test]
fn sessions_need_a_tiltfile() {
    let message = "No Tiltfile found in this workspace";

    assert_eq!(run_plan(&project(None), "/state").unwrap_err(), message);
    assert_eq!(down_plan(&project(None), "/state").unwrap_err(), message);
    assert_eq!(
        prepare_start_request(&project(None), "/state", Some("w1")).unwrap_err(),
        message
    );
}

#[test]
fn down_stops_the_retained_runner_before_cleaning_resources() {
    let stopping = stopping(&running(101));
    assert_eq!(stopping.process(), 101);
    let stopping = match stopping.observe(&running(101)) {
        WaitStep::Again(stopping) => stopping,
        other => panic!("did not wait: {other:?}"),
    };
    let clean = clean(stopping.observe(&exited(Some(0))));

    assert_eq!(clean.args(), &["down", "-f", "/work/project/Tiltfile"]);
    assert_eq!(
        clean.cleaned(true, b""),
        Ok(record_path("/state", "/work/project/Tiltfile"))
    );
    assert_eq!(plan().lock_path, lock_path("/state", "/work/project/Tiltfile"));
}

#[test]
fn nothing_is_signaled_without_the_lock_and_a_running_session() {
    assert_eq!(process_to_signal(false, &running(101)), Ok(None));
    assert_eq!(process_to_signal(true, &exited(None)), Ok(None));
    assert_eq!(process_to_signal(true, &None), Ok(None));
    assert_eq!(
        process_to_signal(true, &running(2_147_483_648)),
        Err("Tilt PID is out of range".to_owned())
    );
    assert_eq!(
        process_to_signal(true, &running(2_147_483_647)),
        Ok(Some(2_147_483_647))
    );
    assert!(matches!(
        begin_down(plan(), false, &running(101)),
        Ok(DownStep::Clean(_))
    ));
    assert_eq!(
        begin_down(plan(), true, &running(4_000_000_000)).unwrap_err(),
        "Tilt PID is out of range"
    );
}

#[test]
fn the_wait_for_a_session_ends() {
    let mut stopping = stopping(&running(101));
    for _ in 0..99 {
        stopping = match stopping.observe(&running(101)) {
            WaitStep::Again(stopping) => stopping,
            other => panic!("did not wait: {other:?}"),
        };
    }
    assert!(matches!(
        stopping.observe(&running(101)),
        WaitStep::GiveUp(message)
            if message == "Timed out waiting for retained Tilt process to stop"
    ));
}

#[test]
fn a_failed_clean_up_keeps_the_record() {
    let clean = clean(stopping(&running(101)).observe(&None));

    assert_eq!(
        clean.cleaned(false, b"in use\n"),
        Err("Tilt down failed: in use".to_owned())
    );
}

#[test]
fn a_request_is_found_where_it_was_put() {
    let project = project(Some("/work/project/Tiltfile"));
    let prepared = prepare_start_request(&project, "/state", Some("w1"))
        .unwrap()
        .unwrap();

    assert_eq!(
        requested_path("/state", Some("w1")),
        Some(prepared.path.clone())
    );
    assert_ne!(requested_path("/state", Some("w2")), Some(prepared.path.clone()));
    assert_eq!(requested_path("/state", None), None);
    assert_eq!(
        take_start_request(Some(prepared.path.clone()), true),
        TakeStep::Consume(prepared.path.clone())
    );
    assert_eq!(
        take_start_request(Some(prepared.path), false),
        TakeStep::Nothing
    );
    assert_eq!(take_start_request(None, false), TakeStep::Nothing);
    assert_eq!(prepare_start_request(&project, "/state", None), Ok(None));
    assert_eq!(
        accept_start_request(
            prepared.request.project_root,
            prepared.request.tiltfile,
            true
        ),
        Ok(project)
    );
}

#[test]
fn a_request_must_name_a_tiltfile_of_its_project() {
    let refused = "retained Tilt start request does not identify a project Tiltfile";
    let accept = |root: &str, tiltfile: &str, is_file: bool| {
        accept_start_request(root.to_owned(), tiltfile.to_owned(), is_file)
    };

    assert_eq!(accept("/work", "/work/Tiltfile", false).unwrap_err(), refused);
    assert_eq!(accept("/work", "/work/a/Tiltfile", true).unwrap_err(), refused);
    assert_eq!(accept("/work", "/other/Tiltfile", true).unwrap_err(), refused);
    assert_eq!(accept("", "/", true).unwrap_err(), refused);
    assert!(accept("/", "/Tiltfile", true).is_ok());
}

#[test]
fn times_are_kept_within_what_a_record_holds() {
    assert_eq!(unix_millis(1234), 1234);
    assert_eq!(unix_millis(u128::MAX), u64::MAX);
}
