use herdr_tilt::tilt::activation::{
    activation_at, button_request, button_status_body, check_button_response, check_response_text,
};
use herdr_tilt::tilt::buttons::{
    BoolInput, ChoiceInput, HiddenInput, TextInput, UIButton, UIButtonInput, UIButtonList,
    UIButtonLocation, UIButtonSpec,
};
use herdr_tilt::tilt::{
    activate_service_action, attach_service_actions, open_tilt_web_ui, parse_ui_buttons,
    parse_ui_resources, tilt_web_url, Activation, ButtonActions, DisableStatus, Metadata,
    ResourceStatus, ServiceAction, UIButtonInputValue, UIResource, UIResourceList,
};

fn input(name: &str) -> UIButtonInput {
    UIButtonInput {
        name: name.to_owned(),
        text: None,
        boolean: None,
        hidden: None,
        choice: None,
    }
}

fn button(name: &str, text: &str, component_id: &str, component_type: &str) -> UIButton {
    UIButton {
        metadata: Metadata {
            name: name.to_owned(),
            labels: Vec::new(),
            annotations: Vec::new(),
        },
        spec: UIButtonSpec {
            disabled: false,
            text: text.to_owned(),
            requires_confirmation: false,
            location: UIButtonLocation {
                component_id: component_id.to_owned(),
                component_type: component_type.to_owned(),
            },
            inputs: Vec::new(),
        },
    }
}

fn seed(inputs: Vec<UIButtonInputValue>) -> ServiceAction {
    ServiceAction::Button {
        name: "api-seed".to_owned(),
        label: "Seed".to_owned(),
        requires_confirmation: false,
        inputs,
    }
}

fn link() -> ServiceAction {
    ServiceAction::Link {
        label: "Docs".to_owned(),
        url: "https://example.test/docs".to_owned(),
    }
}

#[test]
fn ui_buttons_attach_to_their_service_with_default_inputs() {
    let mut seed = button("api-seed", "Seed data", "api", "Resource");
    seed.spec.requires_confirmation = true;
    seed.spec.inputs = vec![
        UIButtonInput {
            boolean: Some(BoolInput {
                default_value: true,
            }),
            ..input("force")
        },
        UIButtonInput {
            hidden: Some(HiddenInput {
                value: "abc".to_owned(),
            }),
            ..input("token")
        },
        UIButtonInput {
            choice: Some(ChoiceInput {
                choices: vec!["dev".to_owned(), "prod".to_owned()],
            }),
            ..input("environment")
        },
        UIButtonInput {
            text: Some(TextInput {
                default_value: "hello".to_owned(),
            }),
            ..input("message")
        },
    ];
    let buttons = parse_ui_buttons(UIButtonList { items: vec![seed] });

    assert_eq!(
        buttons.get("api").unwrap(),
        &[ServiceAction::Button {
            name: "api-seed".to_owned(),
            label: "Seed data".to_owned(),
            requires_confirmation: true,
            inputs: vec![
                UIButtonInputValue::Bool {
                    name: "force".to_owned(),
                    value: true
                },
                UIButtonInputValue::Hidden {
                    name: "token".to_owned(),
                    value: "abc".to_owned()
                },
                UIButtonInputValue::Choice {
                    name: "environment".to_owned(),
                    value: "dev".to_owned()
                },
                UIButtonInputValue::Text {
                    name: "message".to_owned(),
                    value: "hello".to_owned()
                },
            ],
        }]
    );
}

#[test]
fn attaching_buttons_updates_unique_and_grouped_service_copies() {
    let mut snapshot = parse_ui_resources(UIResourceList {
        items: vec![UIResource {
            metadata: Metadata {
                name: "api".to_owned(),
                labels: vec!["apps".to_owned()],
                annotations: Vec::new(),
            },
            status: ResourceStatus {
                order: 0,
                update_status: String::new(),
                runtime_status: String::new(),
                disable_status: DisableStatus {
                    state: String::new(),
                },
                current_build: false,
                queued: false,
                build_history: Vec::new(),
                endpoint_links: Vec::new(),
            },
        }],
    });
    let mut actions = ButtonActions::new();
    actions.insert("api", vec![seed(vec![])]);

    attach_service_actions(&mut snapshot, &actions);

    assert_eq!(snapshot.services[0].actions.len(), 1);
    assert_eq!(snapshot.groups[0].services[0].actions.len(), 1);
}

#[test]
fn built_in_and_global_buttons_are_not_service_actions() {
    let mut stop = button("stop", "Stop", "api", "Resource");
    stop.metadata.annotations = vec![("tilt.dev/uibutton-type".to_owned(), "StopBuild".to_owned())];
    let buttons = parse_ui_buttons(UIButtonList {
        items: vec![stop, button("global", "Global", "nav", "Global")],
    });

    assert!(buttons.is_empty());
}

#[test]
fn disabled_and_placeless_buttons_are_not_service_actions() {
    let mut disabled = button("off", "Off", "api", "Resource");
    disabled.spec.disabled = true;
    let mut toggle = button("toggle", "Toggle", "api", "Resource");
    toggle.metadata.annotations = vec![
        ("other".to_owned(), "StopBuild".to_owned()),
        (
            "tilt.dev/uibutton-type".to_owned(),
            "DisableToggle".to_owned(),
        ),
    ];
    let buttons = parse_ui_buttons(UIButtonList {
        items: vec![disabled, toggle, button("lost", "Lost", "", "Resource")],
    });

    assert!(buttons.is_empty());
    assert!(buttons.get("api").is_none());
}

#[test]
fn buttons_of_a_service_come_by_title() {
    let mut empty_choice = button("named", "", "api", "Resource");
    empty_choice.spec.inputs = vec![UIButtonInput {
        choice: Some(ChoiceInput {
            choices: Vec::new(),
        }),
        ..input("environment")
    }];
    let buttons = parse_ui_buttons(UIButtonList {
        items: vec![
            button("z", "Zap", "api", "Resource"),
            button("w", "Wipe", "worker", "Resource"),
            empty_choice,
            button("a", "Add", "api", "Resource"),
        ],
    });

    let titles = buttons
        .get("api")
        .unwrap()
        .iter()
        .map(|action| action.label())
        .collect::<Vec<_>>();
    assert_eq!(titles, ["Add", "Zap", "named"]);
    assert!(matches!(
        &buttons.get("api").unwrap()[2],
        ServiceAction::Button { inputs, .. } if inputs.is_empty()
    ));
    assert_eq!(buttons.get("worker").unwrap().len(), 1);
}

#[test]
fn button_status_matches_tilts_status_subresource_payload() {
    let action = seed(vec![
        UIButtonInputValue::Bool {
            name: "force".to_owned(),
            value: true,
        },
        UIButtonInputValue::Hidden {
            name: "token".to_owned(),
            value: "abc".to_owned(),
        },
    ]);

    let body = button_status_body(&action, "2026-08-20T02:30:00.000000Z").unwrap();

    let body: serde_json::Value = serde_json::from_str(&body).unwrap();
    let expected: serde_json::Value = serde_json::from_str(
        r#"{
            "metadata": {"name": "api-seed"},
            "status": {
                "lastClickedAt": "2026-08-20T02:30:00.000000Z",
                "inputs": [
                    {"name": "force", "bool": {"value": true}},
                    {"name": "token", "hidden": {"value": "abc"}}
                ]
            }
        }"#,
    )
    .unwrap();
    assert_eq!(body, expected);
}

#[test]
fn button_status_is_the_text_that_serde_json_writes() {
    let action = seed(vec![
        UIButtonInputValue::Text {
            name: "message".to_owned(),
            value: "a \"quoted\"\\ line\n\t\u{8}\u{c}\r\u{1}é".to_owned(),
        },
        UIButtonInputValue::Choice {
            name: "environment".to_owned(),
            value: "dev".to_owned(),
        },
        UIButtonInputValue::Bool {
            name: "force".to_owned(),
            value: false,
        },
    ]);

    let body = button_status_body(&action, "now").unwrap();

    let value: serde_json::Value = serde_json::from_str(&body).unwrap();
    assert_eq!(serde_json::to_string(&value).unwrap(), body);
    assert_eq!(
        value["status"]["inputs"][0]["text"]["value"],
        serde_json::Value::String("a \"quoted\"\\ line\n\t\u{8}\u{c}\r\u{1}é".to_owned())
    );
    assert_eq!(
        value["status"]["inputs"][1]["choice"]["value"],
        serde_json::Value::String("dev".to_owned())
    );
    assert_eq!(
        value["status"]["inputs"][2]["bool"]["value"],
        serde_json::Value::Bool(false)
    );
}

#[test]
fn only_buttons_have_a_status() {
    assert_eq!(
        button_status_body(&link(), "now").unwrap_err(),
        "only Tilt UI buttons have a status payload"
    );
    assert_eq!(
        button_request(&link(), 10350, "now").unwrap_err(),
        "only Tilt UI buttons can be activated through the Tilt API"
    );
}

#[test]
fn button_activation_puts_status_to_the_tilt_api() {
    let request = button_request(&seed(vec![]), 41234, "2026-08-20T02:30:00.000000Z").unwrap();

    assert!(request
        .starts_with("PUT /proxy/apis/tilt.dev/v1alpha1/uibuttons/api-seed/status HTTP/1.1\r\n"));
    assert!(request.contains("Content-Type: application/json\r\n"));
    assert!(request.contains(r#""lastClickedAt":"2026-08-20T02:30:00.000000Z""#));
    assert!(request.contains("Host: 127.0.0.1:41234\r\n"));
    assert!(check_button_response(
        "api-seed",
        b"HTTP/1.1 200 OK\r\nContent-Length: 2\r\n\r\n{}"
    )
    .is_ok());
}

#[test]
fn a_request_gives_the_length_of_its_body_in_bytes() {
    let action = ServiceAction::Button {
        name: "é".to_owned(),
        label: "Accent".to_owned(),
        requires_confirmation: false,
        inputs: Vec::new(),
    };

    let body = button_status_body(&action, "now").unwrap();
    let request = button_request(&action, 10350, "now").unwrap();

    let (head, rest) = request.split_once("\r\n\r\n").unwrap();
    assert_eq!(rest, body);
    assert!(head.contains(&format!("Content-Length: {}\r\n", body.len())));
    assert!(body.len() > body.chars().count());
}

#[test]
fn responses_are_judged_by_their_first_line() {
    assert!(check_button_response("seed", b"HTTP/1.1 201 Created\r\n\r\n").is_ok());
    assert_eq!(
        check_button_response("seed", b"HTTP/1.1 409 Conflict\r\n\r\n 200 ").unwrap_err(),
        "Tilt rejected button seed: HTTP/1.1 409 Conflict"
    );
    assert_eq!(
        check_button_response("seed", b"").unwrap_err(),
        "Tilt rejected button seed: "
    );
    assert_eq!(
        check_button_response("seed", b"\xff 500 \n").unwrap_err(),
        "Tilt rejected button seed: \u{fffd} 500 "
    );
    assert_eq!(
        check_response_text("seed", "200").unwrap_err(),
        "Tilt rejected button seed: 200"
    );
}

#[test]
fn activation_opens_links_and_clicks_buttons() {
    assert_eq!(
        activate_service_action(&link(), 10350, 0, 0),
        Activation::OpenUrl {
            url: "https://example.test/docs".to_owned()
        }
    );
    assert_eq!(
        activate_service_action(&seed(vec![]), 41234, 1_787_193_000, 123_456_789),
        activation_at(&seed(vec![]), 41234, "2026-08-20T02:30:00.123456Z")
    );
    assert_eq!(
        activate_service_action(&seed(vec![]), 41234, 951_825_599, 999_999_999),
        activation_at(&seed(vec![]), 41234, "2000-02-29T11:59:59.999999Z")
    );
    for (seconds, stamp) in [
        (0, "1970-01-01T00:00:00.000000Z"),
        (4_107_542_399, "2100-02-28T23:59:59.000000Z"),
        (4_107_542_400, "2100-03-01T00:00:00.000000Z"),
        (253_402_300_799, "9999-12-31T23:59:59.000000Z"),
        (253_402_300_800, "+10000-01-01T00:00:00.000000Z"),
        (8_210_266_876_799, "+262142-12-31T23:59:59.000000Z"),
    ] {
        assert_eq!(
            activate_service_action(&seed(vec![]), 41234, seconds, 999),
            activation_at(&seed(vec![]), 41234, stamp)
        );
    }
}

#[test]
fn tilt_web_url_uses_the_active_api_port() {
    assert_eq!(tilt_web_url(10350), "http://localhost:10350/");
    assert_eq!(tilt_web_url(41234), "http://localhost:41234/");
}

#[test]
fn the_web_page_is_opened_on_its_port() {
    assert_eq!(
        open_tilt_web_ui(41234),
        Activation::OpenUrl {
            url: "http://localhost:41234/".to_owned()
        }
    );
}
