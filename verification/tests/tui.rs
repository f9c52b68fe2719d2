use herdr_tilt::logs::{LogBuffer, LogMessage, StreamEvent};
use herdr_tilt::project::Project;
use herdr_tilt::style;
use herdr_tilt::tilt::{
    CircleStatus, DashboardSnapshot, ResourceGroup, Service, ServiceAction, SessionIdentity,
};
use herdr_tilt::tui::keys::{
    down_confirmation_decision, handle_log_key, toggle_help_for_key, DownConfirmationDecision,
    KeyCode,
};
use herdr_tilt::tui::list::{SelectedServiceAction, ServiceListState, ServiceNavigation};
use herdr_tilt::tui::log_view::{
    end_of_lines, lines_of_record, log_frame, log_page_size, styled_log_lines, LogBody, LogView,
};
use herdr_tilt::tui::model::RefreshStep;
use herdr_tilt::tui::picker::{ActionPicker, ActionPickerEvent};
use herdr_tilt::tui::screen::{Command, Screen};
use herdr_tilt::tui::view::{
    circle_color, clip_with_ellipsis, dashboard_frame, empty_message, overall_color, overall_label,
    picker_frame, section_height, service_line, service_metric_lines,
};
use herdr_tilt::tui::{DashboardModel, OverallStatus};
use ratatui::backend::TestBackend;
use ratatui::layout::{Alignment, Constraint, Direction, Layout, Rect};
use ratatui::style::{Color, Modifier, Style};
use ratatui::text::{Line, Span, Text};
use ratatui::widgets::{Block, Borders, List, ListItem, ListState, Paragraph, Wrap};
use ratatui::{Frame, Terminal};

const SERVICE_SELECTION_BG: Color = Color::Rgb(58, 58, 58);

// Drawing, as a terminal would show it.

fn color(color: style::Color) -> Color {
    match color {
        style::Color::Red => Color::Red,
        style::Color::Green => Color::Green,
        style::Color::Yellow => Color::Yellow,
        style::Color::Cyan => Color::Cyan,
        style::Color::Gray => Color::Gray,
        style::Color::DarkGray => Color::DarkGray,
        style::Color::Rgb(red, green, blue) => Color::Rgb(red, green, blue),
    }
}

fn span(span: &style::Span) -> Span<'static> {
    let mut look = Style::default();
    if let Some(fg) = span.style.fg {
        look = look.fg(color(fg));
    }
    if span.style.bold {
        look = look.add_modifier(Modifier::BOLD);
    }
    Span::styled(span.content.clone(), look)
}

fn line(line: &style::Line) -> Line<'static> {
    Line::from(line.spans.iter().map(span).collect::<Vec<_>>())
}

fn lines(lines: &[style::Line]) -> Text<'static> {
    Text::from(lines.iter().map(line).collect::<Vec<_>>())
}

fn draw_rows(frame: &mut Frame<'_>, rows: &[style::Line], selected: Option<usize>, area: Rect) {
    let items = rows.iter().map(|row| ListItem::new(line(row)));
    let mut state = ListState::default();
    state.select(selected);
    frame.render_stateful_widget(
        List::new(items).highlight_style(Style::default().bg(SERVICE_SELECTION_BG)),
        area,
        &mut state,
    );
}

fn render(
    frame: &mut Frame<'_>,
    model: &DashboardModel,
    confirm_down: bool,
    show_help: bool,
    list: &ServiceListState,
) {
    let shown = dashboard_frame(model, frame.area().width, confirm_down, show_help, list);
    let banner = if shown.warning.is_some() { 3 } else { 0 };
    let chunks = Layout::default()
        .direction(Direction::Vertical)
        .constraints([
            Constraint::Length(section_height(shown.metrics.len())),
            Constraint::Length(banner),
            Constraint::Min(2),
            Constraint::Length(section_height(shown.footer.len())),
        ])
        .split(frame.area());
    frame.render_widget(Paragraph::new(lines(&shown.metrics)), chunks[0]);
    frame.render_widget(
        Paragraph::new(span(&shown.status)).alignment(Alignment::Right),
        Rect::new(chunks[0].x, chunks[0].y, chunks[0].width, 1),
    );
    if let Some(warning) = shown.warning {
        frame.render_widget(
            Paragraph::new(warning)
                .wrap(Wrap { trim: true })
                .block(Block::default().borders(Borders::ALL).title("Warning")),
            chunks[1],
        );
    }
    draw_rows(frame, &shown.rows, shown.selected, chunks[2]);
    frame.render_widget(
        Paragraph::new(lines(&shown.footer)).wrap(Wrap { trim: true }),
        chunks[3],
    );
}

fn render_action_picker(frame: &mut Frame<'_>, picker: &ActionPicker, confirming: bool) {
    let shown = picker_frame(picker, frame.area().width, confirming);
    let chunks = Layout::default()
        .direction(Direction::Vertical)
        .constraints([
            Constraint::Length(1),
            Constraint::Min(1),
            Constraint::Length(section_height(shown.footer.len())),
        ])
        .split(frame.area());
    frame.render_widget(Paragraph::new(line(&shown.title)), chunks[0]);
    draw_rows(frame, &shown.rows, shown.selected, chunks[1]);
    frame.render_widget(
        Paragraph::new(lines(&shown.footer)).wrap(Wrap { trim: true }),
        chunks[2],
    );
}

fn render_logs(frame: &mut Frame<'_>, view: &LogView) {
    let shown = log_frame(view, frame.area().width);
    let chunks = Layout::default()
        .direction(Direction::Vertical)
        .constraints([
            Constraint::Length(1),
            Constraint::Min(1),
            Constraint::Length(section_height(shown.footer.len())),
        ])
        .split(frame.area());
    frame.render_widget(Paragraph::new(line(&shown.title)), chunks[0]);
    frame.render_widget(
        Paragraph::new(line(&shown.status)).alignment(Alignment::Right),
        chunks[0],
    );
    match view.body(chunks[1].height, chunks[1].width) {
        LogBody::Message(message) => frame.render_widget(Paragraph::new(message), chunks[1]),
        LogBody::Records {
            lines: records,
            wrap,
            down,
            sideways,
        } => {
            let mut body = Paragraph::new(lines(&records)).scroll((down, sideways));
            if wrap {
                body = body.wrap(Wrap { trim: false });
            }
            frame.render_widget(body, chunks[1]);
        }
    }
    frame.render_widget(
        Paragraph::new(lines(&shown.footer)).wrap(Wrap { trim: true }),
        chunks[2],
    );
}

fn buffer_text(terminal: &Terminal<TestBackend>) -> String {
    terminal
        .backend()
        .buffer()
        .content()
        .iter()
        .map(|cell| cell.symbol())
        .collect()
}

fn row_text(terminal: &Terminal<TestBackend>, row: u16, from: u16, to: u16) -> String {
    (from..to)
        .map(|x| terminal.backend().buffer()[(x, row)].symbol())
        .collect()
}

// What is drawn.

fn service(name: &str, status: CircleStatus, detail: &str) -> Service {
    Service {
        name: name.to_owned(),
        status,
        detail: detail.to_owned(),
        disabled: false,
        actions: vec![],
    }
}

fn group(name: &str, member: &str) -> ResourceGroup {
    ResourceGroup {
        name: name.to_owned(),
        status: CircleStatus::Green,
        services: vec![service(member, CircleStatus::Green, "healthy")],
    }
}

fn open_app(label: &str) -> ServiceAction {
    ServiceAction::Link {
        label: label.to_owned(),
        url: "https://app.test".to_owned(),
    }
}

fn seed(label: &str, requires_confirmation: bool) -> ServiceAction {
    ServiceAction::Button {
        name: "seed".to_owned(),
        label: label.to_owned(),
        requires_confirmation,
        inputs: vec![],
    }
}

fn project() -> Project {
    Project {
        root: "/project".to_owned(),
        tiltfile: Some("/project/Tiltfile".to_owned()),
    }
}

/// A dashboard of a running Tilt.
fn running(services: Vec<Service>, groups: Vec<ResourceGroup>) -> DashboardModel {
    let mut model = DashboardModel::new(project(), "/state".to_owned());
    let query = match model.refresh_with_tilt(&None) {
        RefreshStep::AskSession(query) => query,
        RefreshStep::Done => panic!("nothing was asked"),
    };
    let identity = SessionIdentity {
        tiltfile: "/project/Tiltfile".to_owned(),
        pid: 1,
        start_time: String::new(),
    };
    let query = model
        .verify_session(query, &identity, "/project/Tiltfile")
        .unwrap();
    model.show_snapshot(
        query,
        DashboardSnapshot {
            services,
            groups,
            tiltfile_error: None,
        },
        None,
    );
    model
}

fn content(line: &style::Line) -> String {
    line.spans
        .iter()
        .map(|span| span.content.as_str())
        .collect::<String>()
}

#[test]
fn service_list_can_scroll_to_the_last_item_in_a_small_panel() {
    let model = running(
        Vec::new(),
        vec![ResourceGroup {
            name: "services".to_owned(),
            status: CircleStatus::Green,
            services: (0..20)
                .map(|index| service(&format!("service-{index}"), CircleStatus::Green, "healthy"))
                .collect(),
        }],
    );
    let mut list_state = ServiceListState::default();
    list_state.navigate(ServiceNavigation::End, &model.groups);
    let mut terminal = Terminal::new(TestBackend::new(60, 10)).unwrap();

    terminal
        .draw(|frame| render(frame, &model, false, false, &list_state))
        .unwrap();

    let rendered = terminal.backend().buffer().content().to_vec();
    let selected_cell = rendered
        .iter()
        .find(|cell| cell.symbol() == "9")
        .expect("selected service is rendered");
    assert_eq!(selected_cell.bg, SERVICE_SELECTION_BG);
    assert!(!selected_cell.modifier.contains(Modifier::REVERSED));
    let rendered = buffer_text(&terminal);
    assert!(rendered.contains("service-19"));
    assert!(!rendered.contains("service-0 "));
}

#[test]
fn collapsed_group_stays_hidden_after_a_dashboard_refresh() {
    let groups = || vec![group("apps", "frontend"), group("infra", "postgres")];
    let model = running(Vec::new(), groups());
    let mut list_state = ServiceListState::default();
    list_state.sync(&model.groups);
    list_state.toggle_selected_group(&model.groups);

    let model = running(Vec::new(), groups());
    list_state.sync(&model.groups);
    let mut terminal = Terminal::new(TestBackend::new(60, 14)).unwrap();
    terminal
        .draw(|frame| render(frame, &model, false, false, &list_state))
        .unwrap();
    let rendered = buffer_text(&terminal);

    assert!(rendered.contains("apps"));
    assert!(!rendered.contains("frontend"));
    assert!(rendered.contains("infra"));
    assert!(rendered.contains("postgres"));
}

#[test]
fn services_render_as_a_borderless_colored_hierarchy() {
    let groups = vec![group("apps", "frontend")];
    let model = running(groups[0].services.clone(), groups);
    let mut list_state = ServiceListState::default();
    list_state.sync(&model.groups);
    let mut terminal = Terminal::new(TestBackend::new(100, 12)).unwrap();

    terminal
        .draw(|frame| render(frame, &model, false, false, &list_state))
        .unwrap();
    let group_row = row_text(&terminal, 1, 0, 100);
    let service_row = row_text(&terminal, 2, 0, 100);

    assert!(group_row.starts_with("▾ ● apps (1)"));
    assert_eq!(
        terminal.backend().buffer()[(4, 1)].fg,
        color(circle_color(CircleStatus::Green))
    );
    assert!(service_row.starts_with("  ● frontend  healthy"));
}

#[test]
fn group_toggle_keys_handle_the_selected_header_without_arrow_aliases() {
    let groups = vec![group("apps", "frontend")];
    let mut list_state = ServiceListState::default();
    list_state.sync(&groups);

    assert!(list_state.handle_key(KeyCode::Char(' '), &groups));
    assert_eq!(list_state.visible_rows(&groups).len(), 1);
    assert!(list_state.handle_key(KeyCode::Enter, &groups));
    assert_eq!(list_state.visible_rows(&groups).len(), 2);
    assert!(!list_state.handle_key(KeyCode::Left, &groups));
    assert!(!list_state.handle_key(KeyCode::Right, &groups));
    assert!(!list_state.handle_key(KeyCode::Char('u'), &groups));
}

#[test]
fn service_action_keys_target_only_the_selected_service() {
    let groups = vec![group("apps", "frontend")];
    let mut list_state = ServiceListState::default();
    list_state.sync(&groups);

    assert!(list_state
        .selected_service_action(KeyCode::Char('t'), &groups)
        .is_none());

    list_state.navigate(ServiceNavigation::Down, &groups);
    let (action, service) = list_state
        .selected_service_action(KeyCode::Char('t'), &groups)
        .unwrap();
    assert_eq!(action, SelectedServiceAction::Trigger);
    assert_eq!(service.name, "frontend");
    assert_eq!(
        list_state
            .selected_service_action(KeyCode::Char('e'), &groups)
            .unwrap()
            .0,
        SelectedServiceAction::ToggleEnabled
    );
    assert_eq!(
        list_state
            .selected_service_action(KeyCode::Char('l'), &groups)
            .unwrap()
            .0,
        SelectedServiceAction::Logs
    );
    assert_eq!(
        list_state
            .selected_service_action(KeyCode::Char('a'), &groups)
            .unwrap()
            .0,
        SelectedServiceAction::Actions
    );
    assert!(list_state
        .selected_service_action(KeyCode::Char('x'), &groups)
        .is_none());
}

#[test]
fn service_rows_show_a_right_aligned_action_count() {
    let mut service = group("apps", "frontend").services.remove(0);
    service.actions = vec![open_app("App"), seed("Seed", false)];

    let line = service_line(&service, 40, false);
    let rendered = content(&line);

    assert!(rendered.starts_with("  ● frontend  healthy"));
    assert!(rendered.ends_with("↗ 2"));
    assert_eq!(line.width(), 40);
}

#[test]
fn action_indicator_survives_a_long_service_detail() {
    let mut service = group("apps", "frontend").services.remove(0);
    service.detail = "a very long build failure that cannot fit in this pane".to_owned();
    service.actions = vec![open_app("App")];

    let line = service_line(&service, 24, false);
    let rendered = content(&line);

    assert_eq!(line.width(), 24);
    assert!(rendered.ends_with('↗'));
}

#[test]
fn selected_service_row_previews_action_titles_next_to_the_icon() {
    let mut service = group("apps", "frontend").services.remove(0);
    service.actions = vec![open_app("Open app"), seed("Seed data", false)];

    let line = service_line(&service, 60, true);
    let rendered = content(&line);

    assert_eq!(line.width(), 60);
    assert!(rendered.ends_with("↗ Open app · Seed data"));
}

#[test]
fn selected_action_preview_truncates_without_losing_the_icon() {
    let mut service = group("apps", "frontend").services.remove(0);
    service.detail = "healthy but with a long explanation".to_owned();
    service.actions = vec![open_app("An extremely long action title")];

    let line = service_line(&service, 28, true);
    let rendered = content(&line);

    assert_eq!(line.width(), 28);
    assert!(rendered.contains("↗ "));
    assert!(rendered.ends_with('…'));
}

#[test]
fn narrow_rows_keep_the_mark_alone() {
    let mut service = service("frontend", CircleStatus::Red, "broken");
    service.actions = vec![open_app("App"), seed("Seed", false)];

    assert_eq!(content(&service_line(&service, 12, true)), "  ● front… ↗");
    assert_eq!(content(&service_line(&service, 8, false)), "  ●  ↗ 2");
    service.actions.clear();
    assert_eq!(content(&service_line(&service, 15, false)), "  ● frontend  …");
    assert_eq!(content(&service_line(&service, 14, false)), "  ● frontend");
}

#[test]
fn action_picker_navigates_selects_and_returns() {
    let actions = vec![open_app("App"), seed("Seed", false)];
    let mut picker = ActionPicker::new("frontend".to_owned(), actions.clone());

    assert_eq!(picker.handle_key(KeyCode::Down), ActionPickerEvent::Stay);
    assert_eq!(
        picker.handle_key(KeyCode::Enter),
        ActionPickerEvent::Activate(actions[1].clone())
    );
    assert_eq!(picker.handle_key(KeyCode::Esc), ActionPickerEvent::Back);
}

#[test]
fn action_picker_stops_at_its_ends() {
    let actions = vec![open_app("App"), seed("Seed", false)];
    let mut picker = ActionPicker::new("frontend".to_owned(), actions.clone());

    picker.handle_key(KeyCode::Char('k'));
    assert_eq!(picker.selected(), Some(&actions[0]));
    for _ in 0..5 {
        picker.handle_key(KeyCode::Char('j'));
    }
    assert_eq!(picker.selected(), Some(&actions[1]));
    assert_eq!(picker.handle_key(KeyCode::Char('x')), ActionPickerEvent::Stay);

    let mut empty = ActionPicker::new("frontend".to_owned(), Vec::new());
    assert_eq!(empty.handle_key(KeyCode::Down), ActionPickerEvent::Stay);
    assert_eq!(empty.handle_key(KeyCode::Enter), ActionPickerEvent::Stay);
    assert_eq!(empty.selected(), None);
}

#[test]
fn action_picker_replaces_the_dashboard_and_lists_action_kinds() {
    let picker = ActionPicker::new(
        "frontend".to_owned(),
        vec![open_app("Open app"), seed("Seed data", true)],
    );
    let mut terminal = Terminal::new(TestBackend::new(60, 10)).unwrap();

    terminal
        .draw(|frame| render_action_picker(frame, &picker, false))
        .unwrap();
    let rendered = buffer_text(&terminal);

    assert!(rendered.contains("frontend actions"));
    assert!(rendered.contains("↗ Open app"));
    assert!(rendered.contains("▶ Seed data"));
    assert!(rendered.contains("↵/space open"));
    assert!(rendered.contains("q/esc back"));
    assert!(!rendered.contains("Services:"));
    assert!(rendered.contains("https://app.test"));
    assert!(rendered.contains("confirmation required"));
}

#[test]
fn action_confirmation_replaces_picker_footer() {
    let picker = ActionPicker::new("frontend".to_owned(), vec![seed("Seed data", true)]);
    let mut terminal = Terminal::new(TestBackend::new(60, 8)).unwrap();

    terminal
        .draw(|frame| render_action_picker(frame, &picker, true))
        .unwrap();
    let rendered = buffer_text(&terminal);

    assert!(rendered.contains("Run Seed data?"));
    assert!(rendered.contains("y yes"));
    assert!(rendered.contains("n no"));
    assert!(!rendered.contains("q/esc back"));
}

#[test]
fn shortcut_legend_wraps_without_clipping_in_a_narrow_panel() {
    let model = running(Vec::new(), vec![group("apps", "frontend")]);
    let mut list_state = ServiceListState::default();
    list_state.sync(&model.groups);
    let mut terminal = Terminal::new(TestBackend::new(38, 18)).unwrap();

    terminal
        .draw(|frame| render(frame, &model, false, false, &list_state))
        .unwrap();
    let rendered = buffer_text(&terminal);

    for shortcut in [
        "↑/↓ nav",
        "↵/space toggle",
        "t trigger",
        "e enable/disable",
        "l logs",
        "a actions",
        "u up",
        "d down",
        "r refresh",
        "? help",
        "q close",
    ] {
        assert!(rendered.contains(shortcut), "missing shortcut: {shortcut}");
    }
    assert!(!rendered.contains("← collapse"));
    assert!(!rendered.contains("→ expand"));
    assert!(!rendered.contains("pg↑/pg↓ page"));
    assert!(!rendered.contains("home/end jump"));
    assert!(rendered.contains("frontend"));
}

#[test]
fn help_footer_shows_all_keybinds_in_a_narrow_panel() {
    let groups = vec![group("apps", "frontend")];
    let model = running(groups[0].services.clone(), groups);
    let mut list_state = ServiceListState::default();
    list_state.sync(&model.groups);
    let mut terminal = Terminal::new(TestBackend::new(38, 22)).unwrap();

    terminal
        .draw(|frame| render(frame, &model, false, true, &list_state))
        .unwrap();
    let rendered = buffer_text(&terminal);

    for shortcut in [
        "↑/↓/j/k nav",
        "pg↑/pg↓ page",
        "home/end jump",
        "↵/space toggle",
        "t trigger",
        "e enable/disable",
        "l logs",
        "a actions",
        "w web",
        "u up",
        "d down",
        "r refresh",
        "? help",
        "q/esc close",
    ] {
        assert!(rendered.contains(shortcut), "missing shortcut: {shortcut}");
    }
    assert!(rendered.contains("frontend"));
}

#[test]
fn question_mark_toggles_help_visibility() {
    let mut show_help = false;

    assert!(toggle_help_for_key(KeyCode::Char('?'), &mut show_help));
    assert!(show_help);
    assert!(toggle_help_for_key(KeyCode::Char('?'), &mut show_help));
    assert!(!show_help);
    assert!(!toggle_help_for_key(KeyCode::Char('t'), &mut show_help));
}

#[test]
fn log_view_replaces_the_dashboard_with_pretty_live_output_and_controls() {
    let mut view = LogView::open("api".to_owned());
    view.buffer = LogBuffer::with_limits(20, 1024);
    view.buffer.push(&"word ".repeat(100));
    view.buffer
        .push(r#"api │ {"level":"warn","message":"slow"}"#);
    view.buffer.push("api │ ERROR request failed");
    view.buffer.push("api │ TAIL");
    let mut terminal = Terminal::new(TestBackend::new(60, 14)).unwrap();

    terminal.draw(|frame| render_logs(frame, &view)).unwrap();
    let rendered = buffer_text(&terminal);
    let has_red_error = terminal
        .backend()
        .buffer()
        .content()
        .iter()
        .any(|cell| cell.symbol() == "E" && cell.fg == Color::Red);

    assert!(rendered.contains("api logs"));
    assert!(rendered.contains(r#""level": "warn""#));
    assert!(rendered.contains("f follow"));
    assert!(rendered.contains("w wrap"));
    assert!(rendered.contains("c clear"));
    assert!(rendered.contains("q/esc back"));
    assert!(rendered.contains("TAIL"));
    assert!(has_red_error);
    assert!(!rendered.contains("Services:"));
}

#[test]
fn log_view_keys_control_navigation_display_and_back() {
    let mut buffer = LogBuffer::with_limits(10, 80);
    for line in ["one", "two", "three"] {
        buffer.push(line);
    }

    assert!(!handle_log_key(&mut buffer, KeyCode::Up, 2));
    assert!(!buffer.is_following());
    assert!(!handle_log_key(&mut buffer, KeyCode::Char('f'), 2));
    assert!(buffer.is_following());
    assert!(!handle_log_key(&mut buffer, KeyCode::Char('w'), 2));
    assert!(!buffer.is_wrapping());
    assert!(!handle_log_key(&mut buffer, KeyCode::Char('c'), 2));
    assert!(buffer.is_empty());
    assert!(handle_log_key(&mut buffer, KeyCode::Esc, 2));
    assert!(handle_log_key(&mut buffer, KeyCode::Char('q'), 2));
}

#[test]
fn down_confirmation_replaces_the_shortcut_footer_with_yes_or_no() {
    let groups = vec![group("apps", "frontend")];
    let model = running(groups[0].services.clone(), groups);
    let mut list_state = ServiceListState::default();
    list_state.sync(&model.groups);
    let mut terminal = Terminal::new(TestBackend::new(60, 12)).unwrap();

    terminal
        .draw(|frame| render(frame, &model, true, false, &list_state))
        .unwrap();
    let rendered = buffer_text(&terminal);

    assert!(rendered.contains("Stop Tilt and clean up its resources?"));
    assert!(rendered.contains("y yes"));
    assert!(rendered.contains("n no"));
    assert!(!rendered.contains("q close"));
    assert!(!rendered.contains("Press d again"));
}

#[test]
fn down_confirmation_requires_an_explicit_yes_or_no() {
    assert_eq!(
        down_confirmation_decision(KeyCode::Char('y')),
        Some(DownConfirmationDecision::Confirm)
    );
    assert_eq!(
        down_confirmation_decision(KeyCode::Char('n')),
        Some(DownConfirmationDecision::Cancel)
    );
    assert_eq!(down_confirmation_decision(KeyCode::Char('d')), None);
    assert_eq!(down_confirmation_decision(KeyCode::Esc), None);
}

#[test]
fn compact_header_shows_status_and_unique_service_totals_without_a_card() {
    let services = || {
        [
            ("healthy", CircleStatus::Green),
            ("building", CircleStatus::Orange),
            ("failed", CircleStatus::Red),
            ("inactive", CircleStatus::Grey),
        ]
        .into_iter()
        .map(|(name, status)| service(name, status, name))
        .collect::<Vec<_>>()
    };
    let model = running(
        services(),
        vec![ResourceGroup {
            name: "all".to_owned(),
            status: CircleStatus::Red,
            services: services(),
        }],
    );
    let mut list_state = ServiceListState::default();
    list_state.sync(&model.groups);
    let mut terminal = Terminal::new(TestBackend::new(80, 14)).unwrap();

    terminal
        .draw(|frame| render(frame, &model, false, false, &list_state))
        .unwrap();
    let rendered = buffer_text(&terminal);

    let first_row = row_text(&terminal, 0, 0, 80);
    let status = row_text(&terminal, 0, 73, 80);
    assert_eq!(terminal.backend().buffer()[(0, 0)].symbol(), "S");
    assert_eq!(status, "running");
    assert!(!rendered.contains("Tilt"));
    assert!(first_row.contains("Services: 4"));
    assert!(first_row.contains("running"));
    assert!(rendered.contains("Services: 4"));
    assert!(rendered.contains("Healthy: 1"));
    assert!(rendered.contains("Building: 1"));
    assert!(rendered.contains("Failed: 1"));
    assert!(rendered.contains("Inactive: 1"));
}

#[test]
fn compact_header_metrics_wrap_without_clipping_in_a_narrow_panel() {
    let services = || {
        [
            CircleStatus::Green,
            CircleStatus::Orange,
            CircleStatus::Red,
            CircleStatus::Grey,
        ]
        .into_iter()
        .enumerate()
        .map(|(index, status)| service(&format!("service-{index}"), status, "status"))
        .collect::<Vec<_>>()
    };
    let model = running(
        services(),
        vec![ResourceGroup {
            name: "all".to_owned(),
            status: CircleStatus::Red,
            services: services(),
        }],
    );
    let mut list_state = ServiceListState::default();
    list_state.sync(&model.groups);
    let mut terminal = Terminal::new(TestBackend::new(38, 18)).unwrap();

    terminal
        .draw(|frame| render(frame, &model, false, false, &list_state))
        .unwrap();
    let first_row = row_text(&terminal, 0, 0, 38);
    let status = row_text(&terminal, 0, 31, 38);
    let rendered = buffer_text(&terminal);

    assert_eq!(terminal.backend().buffer()[(0, 0)].symbol(), "S");
    assert_eq!(status, "running");
    assert!(first_row.contains("running"));
    assert!(first_row.contains("Services: 4"));
    for metric in [
        "Services: 4",
        "Healthy: 1",
        "Building: 1",
        "Failed: 1",
        "Inactive: 1",
        "running",
    ] {
        assert!(rendered.contains(metric), "missing metric: {metric}");
    }
    assert!(rendered.contains("service-0"));
}

#[test]
fn metrics_leave_the_first_line_to_the_status_where_there_is_no_room() {
    let model = running(Vec::new(), Vec::new());

    let shown = service_metric_lines(&model, 18)
        .iter()
        .map(content)
        .collect::<Vec<_>>();

    assert_eq!(
        shown,
        ["", "Services: 0", "Healthy: 0", "Building: 0", "Failed: 0", "Inactive: 0"]
    );
    assert_eq!(
        content(&service_metric_lines(&model, 32)[0]),
        "Services: 0 │ Healthy: 0"
    );
}

#[test]
fn an_empty_list_says_why() {
    let model = DashboardModel::new(project(), "/state".to_owned());
    let list_state = ServiceListState::default();

    let shown = dashboard_frame(&model, 80, false, false, &list_state);

    assert_eq!(content(&shown.rows[0]), "Tilt is stopped. Press u to start it.");
    assert_eq!(shown.selected, None);
    assert_eq!(shown.status.content, "stopped");
    assert_eq!(
        [
            OverallStatus::Unavailable,
            OverallStatus::Starting,
            OverallStatus::Running,
            OverallStatus::Failed
        ]
        .map(empty_message),
        [
            "No Tiltfile found in this workspace.",
            "Waiting for the Tilt API…",
            "Tilt is running but has no visible services.",
            "Tilt exited. Check the warning and plugin logs.",
        ]
    );
}

#[test]
fn statuses_have_words_and_colors() {
    assert_eq!(overall_label(OverallStatus::Unavailable), "unavailable");
    assert_eq!(overall_label(OverallStatus::Starting), "starting");
    assert_eq!(overall_label(OverallStatus::Failed), "failed");
    assert_eq!(overall_color(OverallStatus::Running), style::Color::Green);
    assert_eq!(
        overall_color(OverallStatus::Starting),
        style::Color::Rgb(255, 165, 0)
    );
    assert_eq!(overall_color(OverallStatus::Failed), style::Color::Red);
    assert_eq!(overall_color(OverallStatus::Stopped), style::Color::DarkGray);
    assert_eq!(
        circle_color(CircleStatus::Orange),
        style::Color::Rgb(255, 165, 0)
    );
    assert_eq!(circle_color(CircleStatus::Grey), style::Color::DarkGray);
}

#[test]
fn clipping_counts_characters() {
    assert_eq!(clip_with_ellipsis("été", 3), "été");
    assert_eq!(clip_with_ellipsis("étés", 3), "ét…");
    assert_eq!(clip_with_ellipsis("étés", 1), "…");
    assert_eq!(clip_with_ellipsis("étés", 0), "");
}

#[test]
fn wide_characters_take_two_columns() {
    let narrow = style::Line::from(vec![style::Span::raw("ab".to_owned())]);
    let wide = style::Line::from(vec![style::Span::raw("日本".to_owned())]);

    assert_eq!(narrow.width(), 2);
    assert_eq!(wide.width(), 4);
}

#[test]
fn wrapping_keeps_every_entry_in_order() {
    let entries = || {
        ["one", "two", "three", "a long entry", "x"]
            .into_iter()
            .map(|entry| style::Line::from(vec![style::Span::raw(entry.to_owned())]))
            .collect::<Vec<_>>()
    };
    let shown = |lines: Vec<style::Line>| lines.iter().map(content).collect::<Vec<_>>();

    assert_eq!(
        shown(style::wrap_entries(&entries(), 9)),
        ["one │ two", "three", "a long entry", "x"]
    );
    assert_eq!(
        shown(style::wrap_head_entries(&entries(), 3, 20)),
        ["one", "two │ three", "a long entry │ x"]
    );
    assert_eq!(
        shown(style::wrap_head_entries(&entries(), 2, 20)),
        ["", "one │ two │ three", "a long entry │ x"]
    );
}

#[test]
fn layout_goes_by_widths_alone() {
    assert_eq!(style::fit_lines(&vec![3, 3, 5, 12, 1], 3, 9, 20), [2, 2, 1]);
    assert_eq!(style::fit_lines(&vec![30, 30], 3, 9, 20), [1, 1]);
    assert!(style::fit_lines(&vec![], 3, 9, 20).is_empty());
    assert_eq!(style::fit_head_lines(&vec![10, 2], 3, 9, 20), [0, 2]);
    assert_eq!(style::fit_head_lines(&vec![9, 2], 3, 9, 20), [1, 1]);
}

#[test]
fn wrapped_lines_scroll_to_their_last_row() {
    assert_eq!(end_of_lines(&vec![1, 1, 2], 2), 2);
    assert_eq!(end_of_lines(&vec![1], 2), 0);
    assert_eq!(end_of_lines(&Vec::new(), 2), 0);
    assert_eq!(end_of_lines(&vec![usize::MAX, usize::MAX], 2), u16::MAX);
}

#[test]
fn rows_of_lines_are_counted_by_words() {
    let rows = |parts: &[&str], columns: u16| {
        let spans = parts
            .iter()
            .map(|part| style::Span::raw((*part).to_owned()))
            .collect();
        style::Line::from(spans).rows(columns)
    };

    assert_eq!(rows(&["abcdef abcdef abcdef abcdef"], 10), 4);
    assert_eq!(rows(&["abcdef abcdef ", "abcdef abcdef"], 13), 2);
    assert_eq!(rows(&["abcdef ", "abcdef"], 13), 1);
    assert_eq!(rows(&[&"x".repeat(21)], 10), 3);
    assert_eq!(rows(&[&"x".repeat(20)], 10), 2);
    assert_eq!(rows(&[], 10), 1);
    assert_eq!(rows(&["wide"], style::MAX_WRAP_COLUMNS), 1);
    assert_eq!(
        style::line_row_counts(
            &vec![
                style::Line::from(vec![style::Span::raw("one two".to_owned())]),
                style::Line::from(Vec::new()),
            ],
            4,
        ),
        [2, 1]
    );
}

#[test]
fn following_shows_the_last_word_of_a_wrapped_record() {
    let mut view = LogView::open("api".to_owned());
    view.buffer
        .push("first second thirds fourth fifths sixths lastly");
    match view.body(3, 10) {
        LogBody::Records { down, .. } => assert_eq!(down, 4),
        LogBody::Message(message) => panic!("no records: {message}"),
    }

    let mut terminal = Terminal::new(TestBackend::new(10, 12)).unwrap();
    terminal.draw(|frame| render_logs(frame, &view)).unwrap();
    let rendered = terminal
        .backend()
        .buffer()
        .content()
        .iter()
        .map(|cell| cell.symbol())
        .collect::<String>();
    assert!(rendered.contains("lastly"));
    assert!(matches!(view.body(3, u16::MAX), LogBody::Records { down: 0, .. }));
}

#[test]
fn records_are_colored_by_their_gravest_word() {
    let color_of = |record: &str| styled_log_lines(record)[0].spans[0].style.fg;

    assert_eq!(color_of("all FATAL debug"), Some(style::Color::Red));
    assert_eq!(color_of("Panicked"), Some(style::Color::Red));
    assert_eq!(color_of("a Warning, debug"), Some(style::Color::Yellow));
    assert_eq!(color_of("TRACE x"), Some(style::Color::DarkGray));
    assert_eq!(color_of("hello"), Some(style::Color::Gray));
}

#[test]
fn json_records_are_spread_under_their_prefix() {
    let shown = |record: &str| {
        styled_log_lines(record)
            .iter()
            .map(content)
            .collect::<Vec<_>>()
    };

    assert_eq!(
        shown(r#"api │  {"a":[1]} "#),
        ["api │ {", r#"    "a": ["#, "      1", "    ]", "  }"]
    );
    assert_eq!(shown("[1]"), ["[", "  1", "]"]);
    assert_eq!(shown("api │ 17"), ["api │ 17"]);
    assert_eq!(shown("a │ b │ c"), ["a │ b │ c"]);
    assert_eq!(
        lines_of_record("plain", None)
            .iter()
            .map(content)
            .collect::<Vec<_>>(),
        ["plain"]
    );
}

#[test]
fn logs_follow_both_streams_to_the_newest_row() {
    let event = |text: &str, stderr: bool| {
        StreamEvent::Message(LogMessage::Line {
            text: text.to_owned(),
            truncated: false,
            stderr,
        })
    };
    let mut view = LogView::open("api".to_owned());
    assert!(matches!(
        view.body(5, 20),
        LogBody::Message(message) if message == "Waiting for logs…"
    ));

    view.poll(
        &vec![event("building", false)],
        &vec![event("started", false), event(&"x".repeat(50), false)],
        false,
        false,
    );
    match view.body(3, 20) {
        LogBody::Records {
            lines,
            wrap,
            down,
            sideways,
        } => {
            assert_eq!(
                lines.iter().map(content).collect::<Vec<_>>(),
                [
                    "tilt │ building".to_owned(),
                    "app │ started".to_owned(),
                    format!("app │ {}", "x".repeat(50)),
                ]
            );
            assert!(wrap);
            assert_eq!(down, 3);
            assert_eq!(sideways, 0);
        }
        LogBody::Message(message) => panic!("no records: {message}"),
    }

    view.poll(&vec![StreamEvent::Disconnected], &Vec::new(), false, false);
    assert!(view.running);
    view.poll(&Vec::new(), &Vec::new(), true, true);
    assert!(!view.running);
    assert_eq!(content(&log_frame(&view, 80).status), "ended │ follow │ wrap │ 3 lines");
}

#[test]
fn ended_logs_without_records_tell_the_last_error() {
    let mut view = LogView::open("api".to_owned());
    view.poll(&Vec::new(), &Vec::new(), true, true);
    assert!(matches!(
        view.body(5, 20),
        LogBody::Message(message) if message == "Log stream ended"
    ));

    view.poll(
        &vec![StreamEvent::Message(LogMessage::Line {
            text: "no such resource".to_owned(),
            truncated: false,
            stderr: true,
        })],
        &Vec::new(),
        true,
        true,
    );
    view.buffer.clear();
    assert!(matches!(
        view.body(5, 20),
        LogBody::Message(message) if message == "no such resource"
    ));
}

#[test]
fn pages_of_logs_leave_out_the_frame() {
    assert_eq!(log_page_size(24, 1), 22);
    assert_eq!(log_page_size(20, 3), 16);
    assert_eq!(log_page_size(20, 0), 18);
    assert_eq!(log_page_size(3, 5), 1);
    assert_eq!(log_page_size(0, 1), 1);
    assert_eq!(log_page_size(u16::MAX, usize::MAX), 1);
    assert_eq!(section_height(0), 1);
    assert_eq!(section_height(7), 7);
    assert_eq!(section_height(70_000), u16::MAX);
}

#[test]
fn pages_of_logs_are_as_high_as_the_body() {
    let mut view = LogView::open("api".to_owned());
    for number in 0..100 {
        view.buffer.push(&format!("record {number}"));
    }
    let shown = |view: &LogView, rows: usize| {
        view.buffer
            .visible_lines(rows)
            .iter()
            .map(|record| (*record).to_owned())
            .collect::<Vec<String>>()
    };
    let records = |from: usize, to: usize| {
        (from..to)
            .map(|number| format!("record {number}"))
            .collect::<Vec<String>>()
    };

    for (width, height) in [(200, 24), (30, 24), (30, 3)] {
        let rows = view.page_size(width, height);
        let footer = log_frame(&view, width).footer.len();
        assert_eq!(rows, usize::from(height).saturating_sub(1 + footer).max(1));

        assert!(!handle_log_key(&mut view.buffer, KeyCode::Home, rows));
        assert_eq!(shown(&view, rows), records(0, rows));
        assert!(!handle_log_key(&mut view.buffer, KeyCode::PageDown, rows));
        assert_eq!(shown(&view, rows), records(rows, 2 * rows));
        assert!(!handle_log_key(&mut view.buffer, KeyCode::PageUp, rows));
        assert_eq!(shown(&view, rows), records(0, rows));
        assert!(!handle_log_key(&mut view.buffer, KeyCode::End, rows));
        assert_eq!(shown(&view, rows), records(100 - rows, 100));
    }
}

// Keys.

fn screen(groups: Vec<ResourceGroup>) -> Screen {
    let services = groups
        .iter()
        .flat_map(|group| group.services.clone())
        .collect();
    let mut screen = Screen::new(running(services, groups));
    screen.sync();
    screen
}

fn press(screen: &mut Screen, key: KeyCode) -> (Command, bool) {
    let outcome = screen.handle_key(key, 10);
    (outcome.command, outcome.refresh)
}

fn with_actions(actions: Vec<ServiceAction>) -> Screen {
    let mut apps = group("apps", "frontend");
    apps.services[0].actions = actions;
    let mut screen = screen(vec![apps]);
    press(&mut screen, KeyCode::Down);
    screen
}

#[test]
fn tilt_is_stopped_only_after_a_yes() {
    let mut screen = screen(vec![group("apps", "frontend")]);

    assert_eq!(press(&mut screen, KeyCode::Char('d')), (Command::Stay, false));
    assert!(screen.confirm_down);
    assert_eq!(press(&mut screen, KeyCode::Char('q')), (Command::Stay, false));
    assert_eq!(press(&mut screen, KeyCode::Char('n')), (Command::Stay, false));
    assert!(!screen.confirm_down);
    press(&mut screen, KeyCode::Char('d'));
    assert_eq!(press(&mut screen, KeyCode::Char('Y')), (Command::StopTilt, true));
    assert!(!screen.confirm_down);
}

#[test]
fn keys_of_the_dashboard_ask_for_what_they_say() {
    let mut screen = screen(vec![group("apps", "frontend")]);

    assert_eq!(press(&mut screen, KeyCode::Char('u')), (Command::Stay, false));
    assert_eq!(press(&mut screen, KeyCode::Char('r')), (Command::Stay, true));
    assert_eq!(press(&mut screen, KeyCode::Char('w')), (Command::OpenWebUi, false));
    assert_eq!(press(&mut screen, KeyCode::Char('t')), (Command::Stay, false));
    press(&mut screen, KeyCode::Char('j'));
    assert_eq!(
        press(&mut screen, KeyCode::Char('t')),
        (Command::Trigger("frontend".to_owned()), true)
    );
    assert_eq!(
        press(&mut screen, KeyCode::Char('e')),
        (
            Command::Toggle(service("frontend", CircleStatus::Green, "healthy")),
            true
        )
    );
    assert_eq!(
        press(&mut screen, KeyCode::Char('l')),
        (Command::OpenLogs("frontend".to_owned()), false)
    );
    assert_eq!(press(&mut screen, KeyCode::Char('?')), (Command::Stay, false));
    assert!(screen.show_help);
    assert_eq!(press(&mut screen, KeyCode::Esc), (Command::Quit, false));

    let mut stopped = Screen::new(DashboardModel::new(project(), "/state".to_owned()));
    assert_eq!(press(&mut stopped, KeyCode::Char('u')), (Command::StartTilt, false));
    press(&mut stopped, KeyCode::Char('d'));
    assert!(!stopped.confirm_down);
    assert_eq!(press(&mut stopped, KeyCode::Other), (Command::Stay, false));
}

#[test]
fn the_only_action_runs_at_once() {
    let mut screen = with_actions(vec![open_app("App")]);

    assert_eq!(
        press(&mut screen, KeyCode::Char('a')),
        (Command::Activate(open_app("App")), true)
    );
    assert!(screen.picker.is_none());
}

#[test]
fn a_service_without_actions_says_so() {
    let mut screen = with_actions(Vec::new());

    assert_eq!(press(&mut screen, KeyCode::Char('a')), (Command::Stay, true));
    assert_eq!(screen.model.warning(), Some("frontend has no actions"));
}

#[test]
fn an_action_that_must_be_confirmed_waits_for_a_yes() {
    let mut screen = with_actions(vec![seed("Seed", true)]);

    assert_eq!(press(&mut screen, KeyCode::Char('a')), (Command::Stay, true));
    assert!(screen.picker.is_some());
    assert_eq!(press(&mut screen, KeyCode::Enter), (Command::Stay, false));
    assert_eq!(screen.pending_action, Some(seed("Seed", true)));
    assert_eq!(press(&mut screen, KeyCode::Char('q')), (Command::Stay, false));
    assert_eq!(press(&mut screen, KeyCode::Char('n')), (Command::Stay, false));
    assert_eq!(screen.pending_action, None);
    press(&mut screen, KeyCode::Enter);
    assert_eq!(
        press(&mut screen, KeyCode::Char('y')),
        (Command::Activate(seed("Seed", true)), true)
    );
    assert_eq!(press(&mut screen, KeyCode::Esc), (Command::Stay, false));
    assert!(screen.picker.is_none());
}

#[test]
fn the_picker_runs_other_actions_at_once() {
    let mut screen = with_actions(vec![open_app("App"), seed("Seed", false)]);

    press(&mut screen, KeyCode::Char('a'));
    press(&mut screen, KeyCode::Down);
    assert_eq!(
        press(&mut screen, KeyCode::Char(' ')),
        (Command::Activate(seed("Seed", false)), true)
    );
    assert!(screen.picker.is_some());
}

#[test]
fn logs_cover_the_dashboard_until_they_are_left() {
    let mut screen = screen(vec![group("apps", "frontend")]);
    screen.show_logs("frontend".to_owned());

    assert_eq!(press(&mut screen, KeyCode::Char('d')), (Command::Stay, false));
    assert!(!screen.confirm_down);
    screen.poll_logs(
        &vec![StreamEvent::Message(LogMessage::Line {
            text: "hello".to_owned(),
            truncated: false,
            stderr: false,
        })],
        &Vec::new(),
        false,
        false,
    );
    assert_eq!(
        screen.log_view.as_ref().unwrap().buffer.lines(),
        ["tilt │ hello"]
    );
    press(&mut screen, KeyCode::Char('c'));
    assert!(screen.log_view.as_ref().unwrap().buffer.is_empty());
    assert_eq!(press(&mut screen, KeyCode::Char('q')), (Command::Stay, true));
    assert!(screen.log_view.is_none());
}

#[test]
fn tilt_is_looked_at_every_second_unless_something_covers_the_dashboard() {
    let mut screen = with_actions(vec![open_app("App"), seed("Seed", false)]);

    assert!(screen.refresh_due(None));
    assert!(!screen.refresh_due(Some(999)));
    assert!(screen.refresh_due(Some(1000)));
    press(&mut screen, KeyCode::Char('a'));
    assert!(!screen.refresh_due(None));
    press(&mut screen, KeyCode::Esc);
    screen.show_logs("frontend".to_owned());
    assert!(!screen.refresh_due(Some(5000)));
}

#[test]
fn the_list_moves_by_rows_and_pages() {
    let groups = vec![ResourceGroup {
        name: "services".to_owned(),
        status: CircleStatus::Green,
        services: (0..20)
            .map(|index| service(&format!("service-{index}"), CircleStatus::Green, "healthy"))
            .collect(),
    }];
    let mut list_state = ServiceListState::default();

    list_state.navigate(ServiceNavigation::PageDown, &groups);
    assert_eq!(list_state.selected, Some(10));
    list_state.navigate(ServiceNavigation::Up, &groups);
    assert_eq!(list_state.selected, Some(9));
    list_state.navigate(ServiceNavigation::PageDown, &groups);
    list_state.navigate(ServiceNavigation::PageDown, &groups);
    assert_eq!(list_state.selected, Some(20));
    list_state.navigate(ServiceNavigation::Down, &groups);
    assert_eq!(list_state.selected, Some(20));
    list_state.navigate(ServiceNavigation::PageUp, &groups);
    assert_eq!(list_state.selected, Some(10));
    list_state.navigate(ServiceNavigation::Home, &groups);
    assert_eq!(list_state.selected, Some(0));
    assert_eq!(list_state.selected_group_name(&groups), Some("services".to_owned()));
    list_state.sync(&[]);
    assert_eq!(list_state.selected, None);
    list_state.navigate(ServiceNavigation::End, &[]);
    assert_eq!(list_state.selected, None);
}

#[test]
fn toggling_a_group_twice_restores_the_list() {
    let groups = vec![group("apps", "frontend"), group("infra", "postgres")];
    let mut list_state = ServiceListState::default();
    list_state.navigate(ServiceNavigation::Home, &groups);
    list_state.navigate(ServiceNavigation::Down, &groups);
    list_state.navigate(ServiceNavigation::Down, &groups);
    assert_eq!(list_state.selected_group_name(&groups), Some("infra".to_owned()));

    list_state.toggle_selected_group(&groups);
    assert_eq!(list_state.visible_rows(&groups).len(), 3);
    assert_eq!(list_state.selected, Some(2));
    list_state.toggle_selected_group(&groups);
    assert_eq!(list_state.visible_rows(&groups).len(), 4);
    assert_eq!(list_state.selected, Some(2));
}
