use herdr_tilt::tilt::{
    parse_session_identity, parse_ui_resources, BuildRecord, CircleStatus, DisableStatus,
    EndpointLink, Metadata, ResourceStatus, ServiceAction, SessionList, TiltSession, UIResource,
    UIResourceList,
};

fn status(order: i32, update: &str, runtime: &str) -> ResourceStatus {
    ResourceStatus {
        order,
        update_status: update.to_owned(),
        runtime_status: runtime.to_owned(),
        disable_status: DisableStatus {
            state: String::new(),
        },
        current_build: false,
        queued: false,
        build_history: Vec::new(),
        endpoint_links: Vec::new(),
    }
}

fn resource(name: &str, labels: &[&str], status: ResourceStatus) -> UIResource {
    UIResource {
        metadata: Metadata {
            name: name.to_owned(),
            labels: labels.iter().map(|label| (*label).to_owned()).collect(),
            annotations: Vec::new(),
        },
        status,
    }
}

fn build(error: &str, warnings: &[&str]) -> BuildRecord {
    BuildRecord {
        error: error.to_owned(),
        warnings: warnings
            .iter()
            .map(|warning| (*warning).to_owned())
            .collect(),
    }
}

/// The status and the detail that a resource is shown with.
fn shown(status: ResourceStatus) -> (CircleStatus, String) {
    let mut snapshot = parse_ui_resources(UIResourceList {
        items: vec![resource("api", &[], status)],
    });
    let service = snapshot.services.remove(0);
    (service.status, service.detail)
}

#[test]
fn ui_resources_become_ordered_four_color_services() {
    let mut optional = status(4, "none", "none");
    optional.disable_status.state = "Disabled".to_owned();
    let mut tiltfile = status(0, "error", "");
    tiltfile.build_history = vec![build("Tiltfile: unknown function", &[])];

    let snapshot = parse_ui_resources(UIResourceList {
        items: vec![
            resource("worker", &[], status(2, "error", "ok")),
            resource("frontend", &[], status(1, "ok", "ok")),
            resource("assets", &[], status(3, "in_progress", "pending")),
            resource("optional", &[], optional),
            resource("(Tiltfile)", &[], tiltfile),
        ],
    });

    assert_eq!(
        snapshot
            .services
            .iter()
            .map(|service| (service.name.as_str(), service.status))
            .collect::<Vec<_>>(),
        [
            ("frontend", CircleStatus::Green),
            ("worker", CircleStatus::Red),
            ("assets", CircleStatus::Orange),
            ("optional", CircleStatus::Grey),
        ]
    );
    assert_eq!(
        snapshot.tiltfile_error.as_deref(),
        Some("Tiltfile: unknown function")
    );
}

#[test]
fn ui_resources_are_grouped_by_labels_with_ungrouped_last() {
    let snapshot = parse_ui_resources(UIResourceList {
        items: vec![
            resource("database", &["infra"], status(2, "error", "ok")),
            resource("api", &["apps", "services"], status(1, "ok", "ok")),
            resource("docs", &[], status(3, "ok", "ok")),
            resource("cache", &["infra"], status(1, "in_progress", "pending")),
        ],
    });

    assert_eq!(
        snapshot
            .groups
            .iter()
            .map(|group| {
                (
                    group.name.as_str(),
                    group.status,
                    group
                        .services
                        .iter()
                        .map(|service| service.name.as_str())
                        .collect::<Vec<_>>(),
                )
            })
            .collect::<Vec<_>>(),
        [
            ("apps", CircleStatus::Green, vec!["api"]),
            ("infra", CircleStatus::Red, vec!["cache", "database"]),
            ("services", CircleStatus::Green, vec!["api"]),
            ("Ungrouped", CircleStatus::Green, vec!["docs"]),
        ]
    );
}

#[test]
fn session_identity_uses_the_tilt_reported_tiltfile_and_pid() {
    let identity = parse_session_identity(SessionList {
        items: vec![TiltSession {
            tiltfile_path: "/work/project/Tiltfile".to_owned(),
            pid: 4321,
            start_time: "2026-08-20T01:02:03Z".to_owned(),
        }],
    })
    .unwrap();

    assert_eq!(identity.tiltfile, "/work/project/Tiltfile");
    assert_eq!(identity.pid, 4321);
    assert_eq!(identity.start_time, "2026-08-20T01:02:03Z");
}

#[test]
fn session_identity_needs_a_session() {
    assert_eq!(
        parse_session_identity(SessionList { items: Vec::new() }).unwrap_err(),
        "Tilt API returned no Session"
    );
}

#[test]
fn resources_expose_named_and_unnamed_endpoint_links() {
    let mut linked = status(0, "", "");
    linked.endpoint_links = vec![
        EndpointLink {
            name: "Docs".to_owned(),
            url: "https://example.test/docs".to_owned(),
        },
        EndpointLink {
            name: String::new(),
            url: "https://example.test/health".to_owned(),
        },
    ];
    let mut snapshot = parse_ui_resources(UIResourceList {
        items: vec![resource("api", &[], linked)],
    });

    assert_eq!(
        snapshot.services.remove(0).actions,
        vec![
            ServiceAction::Link {
                label: "Docs".to_owned(),
                url: "https://example.test/docs".to_owned(),
            },
            ServiceAction::Link {
                label: "example.test/health".to_owned(),
                url: "https://example.test/health".to_owned(),
            },
        ]
    );
}

#[test]
fn unnamed_links_lose_their_scheme_and_trailing_slashes() {
    let labels = ["http://localhost:8080//", "ftp://host/", "https://"]
        .into_iter()
        .map(|url| {
            let mut linked = status(0, "", "");
            linked.endpoint_links = vec![EndpointLink {
                name: String::new(),
                url: url.to_owned(),
            }];
            let snapshot = parse_ui_resources(UIResourceList {
                items: vec![resource("api", &[], linked)],
            });
            snapshot.services[0].actions[0].label().to_owned()
        })
        .collect::<Vec<_>>();

    assert_eq!(labels, ["localhost:8080", "ftp://host", ""]);
}

#[test]
fn every_status_has_its_color_and_its_word() {
    let disabled = |state: &str| {
        let mut value = status(0, "error", "error");
        value.disable_status.state = state.to_owned();
        value
    };
    let with_build = |record: BuildRecord, update: &str, runtime: &str| {
        let mut value = status(0, update, runtime);
        value.build_history = vec![record, build("older", &["older"])];
        value
    };
    let mut building = with_build(build("stale", &[]), "ok", "ok");
    building.current_build = true;
    let mut queued = status(0, "ok", "ok");
    queued.queued = true;

    assert_eq!(
        shown(disabled("DISABLED")),
        (CircleStatus::Grey, "disabled".to_owned())
    );
    assert_eq!(
        shown(with_build(build("it broke", &[]), "ok", "ok")),
        (CircleStatus::Red, "it broke".to_owned())
    );
    assert_eq!(
        shown(status(0, "ok", "error")),
        (CircleStatus::Red, "error".to_owned())
    );
    assert_eq!(shown(building), (CircleStatus::Orange, "building".to_owned()));
    assert_eq!(shown(queued), (CircleStatus::Orange, "queued".to_owned()));
    assert_eq!(
        shown(with_build(build("", &["careful"]), "ok", "ok")),
        (CircleStatus::Orange, "healthy".to_owned())
    );
    assert_eq!(
        shown(status(0, "ok", "pending")),
        (CircleStatus::Orange, "pending".to_owned())
    );
    assert_eq!(
        shown(status(0, "ok", "not_applicable")),
        (CircleStatus::Green, "healthy".to_owned())
    );
    assert_eq!(
        shown(status(0, "not_applicable", "ok")),
        (CircleStatus::Green, "healthy".to_owned())
    );
    assert_eq!(
        shown(status(0, "not_applicable", "not_applicable")),
        (CircleStatus::Grey, "inactive".to_owned())
    );
    for unknown in ["none", "unknown", "", "surprising"] {
        assert_eq!(
            shown(status(0, unknown, "ok")),
            (CircleStatus::Grey, "healthy".to_owned())
        );
        assert_eq!(
            shown(status(0, "ok", unknown)),
            (CircleStatus::Grey, "healthy".to_owned())
        );
    }
    assert_eq!(
        shown(status(0, "none", "none")),
        (CircleStatus::Grey, "inactive".to_owned())
    );
    assert_eq!(
        shown(status(0, "surprising", "word")),
        (CircleStatus::Grey, "inactive".to_owned())
    );
}

#[test]
fn services_of_the_same_place_come_by_name() {
    let snapshot = parse_ui_resources(UIResourceList {
        items: vec![
            resource("b", &[], status(1, "ok", "ok")),
            resource("c", &[], status(-1, "ok", "ok")),
            resource("a", &[], status(1, "ok", "ok")),
            resource("B", &[], status(1, "ok", "ok")),
        ],
    });

    assert_eq!(
        snapshot
            .services
            .iter()
            .map(|service| service.name.as_str())
            .collect::<Vec<_>>(),
        ["c", "B", "a", "b"]
    );
}

#[test]
fn no_resources_make_an_empty_snapshot() {
    let snapshot = parse_ui_resources(UIResourceList { items: Vec::new() });

    assert!(snapshot.services.is_empty());
    assert!(snapshot.groups.is_empty());
    assert_eq!(snapshot.tiltfile_error, None);
}
