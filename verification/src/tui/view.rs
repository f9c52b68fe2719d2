//! What the dashboard and the picker show.

use vstd::prelude::*;

use crate::order;
use crate::style;
use crate::style::{wrap_entries, wrap_head_entries, Color, Line, Span};
use crate::text;
use crate::tilt::model;
use crate::tilt::model::{CircleStatus, Service, ServiceAction};
use crate::tui::list;
use crate::tui::list::{ServiceListRow, ServiceListState};
use crate::tui::model::{DashboardModel, ModelView, OverallStatus};
use crate::tui::picker;
use crate::tui::picker::ActionPicker;

verus! {

// ---------------------------------------------------------------------------
// Words and colors
// ---------------------------------------------------------------------------

/// The word for how Tilt is doing.
pub open spec fn status_word(status: OverallStatus) -> Seq<char> {
    match status {
        OverallStatus::Unavailable => "unavailable"@,
        OverallStatus::Stopped => "stopped"@,
        OverallStatus::Starting => "starting"@,
        OverallStatus::Running => "running"@,
        OverallStatus::Failed => "failed"@,
    }
}

/// The word for how Tilt is doing.
pub fn overall_label(status: OverallStatus) -> (label: &'static str)
    ensures
        label@ == status_word(status),
{
    match status {
        OverallStatus::Unavailable => "unavailable",
        OverallStatus::Stopped => "stopped",
        OverallStatus::Starting => "starting",
        OverallStatus::Running => "running",
        OverallStatus::Failed => "failed",
    }
}

/// The color for how Tilt is doing.
pub open spec fn status_color(status: OverallStatus) -> Color {
    match status {
        OverallStatus::Running => Color::Green,
        OverallStatus::Starting => Color::Rgb(255, 165, 0),
        OverallStatus::Failed => Color::Red,
        OverallStatus::Unavailable | OverallStatus::Stopped => Color::DarkGray,
    }
}

/// The color for how Tilt is doing.
pub fn overall_color(status: OverallStatus) -> (color: Color)
    ensures
        color == status_color(status),
{
    match status {
        OverallStatus::Running => Color::Green,
        OverallStatus::Starting => Color::Rgb(255, 165, 0),
        OverallStatus::Failed => Color::Red,
        OverallStatus::Unavailable | OverallStatus::Stopped => Color::DarkGray,
    }
}

/// The color of a circle on the terminal.
pub open spec fn circle_paint(status: CircleStatus) -> Color {
    match status {
        CircleStatus::Green => Color::Green,
        CircleStatus::Orange => Color::Rgb(255, 165, 0),
        CircleStatus::Red => Color::Red,
        CircleStatus::Grey => Color::DarkGray,
    }
}

/// The color of a circle on the terminal.
pub fn circle_color(status: CircleStatus) -> (color: Color)
    ensures
        color == circle_paint(status),
{
    match status {
        CircleStatus::Green => Color::Green,
        CircleStatus::Orange => Color::Rgb(255, 165, 0),
        CircleStatus::Red => Color::Red,
        CircleStatus::Grey => Color::DarkGray,
    }
}

/// Statuses that differ have circles of different colors.
pub proof fn law_circles_tell_statuses_apart(left: CircleStatus, right: CircleStatus)
    ensures
        circle_paint(left) == circle_paint(right) <==> left == right,
{
}

/// What stands in place of the services where there are none.
pub open spec fn empty_text(status: OverallStatus) -> Seq<char> {
    match status {
        OverallStatus::Unavailable => "No Tiltfile found in this workspace."@,
        OverallStatus::Stopped => "Tilt is stopped. Press u to start it."@,
        OverallStatus::Starting => "Waiting for the Tilt API…"@,
        OverallStatus::Running => "Tilt is running but has no visible services."@,
        OverallStatus::Failed => "Tilt exited. Check the warning and plugin logs."@,
    }
}

/// What stands in place of the services where there are none.
pub fn empty_message(status: OverallStatus) -> (message: &'static str)
    ensures
        message@ == empty_text(status),
{
    match status {
        OverallStatus::Unavailable => "No Tiltfile found in this workspace.",
        OverallStatus::Stopped => "Tilt is stopped. Press u to start it.",
        OverallStatus::Starting => "Waiting for the Tilt API…",
        OverallStatus::Running => "Tilt is running but has no visible services.",
        OverallStatus::Failed => "Tilt exited. Check the warning and plugin logs.",
    }
}

// ---------------------------------------------------------------------------
// Shortcuts
// ---------------------------------------------------------------------------

/// A key and what it does, and whether it does it now.
#[derive(Clone, Copy, Debug)]
pub struct Shortcut<'a> {
    pub key: &'a str,
    pub label: &'a str,
    pub enabled: bool,
}

/// A key and what it does, and whether it does it now, as mathematics has it.
pub struct ShortcutView {
    pub key: Seq<char>,
    pub label: Seq<char>,
    pub enabled: bool,
}

impl<'a> View for Shortcut<'a> {
    type V = ShortcutView;

    open spec fn view(&self) -> ShortcutView {
        ShortcutView { key: self.key@, label: self.label@, enabled: self.enabled }
    }
}

/// A shortcut.
pub open spec fn shortcut(key: Seq<char>, label: Seq<char>, enabled: bool) -> ShortcutView {
    ShortcutView { key, label, enabled }
}

/// How a shortcut is shown: the key, darker where it does nothing now, and what
/// it does, where there is a word for it.
pub open spec fn shortcut_entry(shortcut: ShortcutView) -> Seq<style::SpanView> {
    seq![
        style::colored(
            shortcut.key,
            if shortcut.enabled {
                Color::Gray
            } else {
                Color::DarkGray
            },
        ),
        style::colored(
            if shortcut.label.len() == 0 {
                Seq::empty()
            } else {
                " "@ + shortcut.label
            },
            Color::DarkGray,
        ),
    ]
}

/// How shortcuts are shown.
pub open spec fn shortcut_entries(shortcuts: Seq<ShortcutView>) -> Seq<Seq<style::SpanView>> {
    shortcuts.map_values(|shortcut: ShortcutView| shortcut_entry(shortcut))
}

/// Shortcuts on lines of a width.
pub open spec fn shortcut_lines(shortcuts: Seq<ShortcutView>, width: u16) -> Seq<
    Seq<style::SpanView>,
> {
    style::wrapped(shortcut_entries(shortcuts), width as nat)
}

fn entry_of(shortcut: &Shortcut) -> (entry: Line)
    ensures
        entry@ == shortcut_entry(shortcut@),
{
    let key_color = if shortcut.enabled {
        Color::Gray
    } else {
        Color::DarkGray
    };
    let label = if shortcut.label.is_empty() {
        String::new()
    } else {
        text::joined(" ", shortcut.label)
    };
    let entry = Line::from(
        vec![
            Span::colored(shortcut.key.to_owned(), key_color),
            Span::colored(label, Color::DarkGray),
        ],
    );
    assert(entry@ =~= shortcut_entry(shortcut@));
    entry
}

/// Lays out shortcuts on lines of a width.
pub fn wrap_shortcuts(width: u16, shortcuts: &Vec<Shortcut>) -> (lines: Vec<Line>)
    ensures
        order::views(lines@) == shortcut_lines(order::views(shortcuts@), width),
{
    let ghost wanted = shortcut_entries(order::views(shortcuts@));
    let mut entries: Vec<Line> = Vec::new();
    let mut index: usize = 0;
    while index < shortcuts.len()
        invariant
            index <= shortcuts@.len(),
            wanted == shortcut_entries(order::views(shortcuts@)),
            order::views(entries@) == wanted.take(index as int),
        decreases shortcuts@.len() - index,
    {
        let ghost before = order::views(entries@);
        let entry = entry_of(&shortcuts[index]);
        entries.push(entry);
        proof {
            assert(order::views(entries@) =~= before.push(entry@));
            assert(wanted.take(index + 1) =~= wanted.take(index as int).push(entry@));
        }
        index += 1;
    }
    assert(wanted.take(wanted.len() as int) =~= wanted);
    wrap_entries(&entries, width as usize)
}

/// The shortcuts of the dashboard: those most used or, on request, all.
pub open spec fn dashboard_shortcuts(dashboard: ModelView, show_help: bool) -> Seq<ShortcutView> {
    let navigable = dashboard.groups.len() > 0;
    if show_help {
        seq![
            shortcut("↑/↓/j/k"@, "nav"@, navigable),
            shortcut("pg↑/pg↓"@, "page"@, navigable),
            shortcut("home/end"@, "jump"@, navigable),
            shortcut("↵/space"@, "toggle"@, navigable),
            shortcut("t"@, "trigger"@, navigable),
            shortcut("e"@, "enable/disable"@, navigable),
            shortcut("l"@, "logs"@, navigable),
            shortcut("a"@, "actions"@, navigable),
            shortcut("w"@, "web"@, true),
            shortcut("u"@, "up"@, dashboard.startable()),
            shortcut("d"@, "down"@, dashboard.stoppable()),
            shortcut("r"@, "refresh"@, true),
            shortcut("?"@, "help"@, true),
            shortcut("q/esc"@, "close"@, true),
        ]
    } else {
        seq![
            shortcut("↑/↓"@, "nav"@, navigable),
            shortcut("↵/space"@, "toggle"@, navigable),
            shortcut("t"@, "trigger"@, navigable),
            shortcut("e"@, "enable/disable"@, navigable),
            shortcut("l"@, "logs"@, navigable),
            shortcut("a"@, "actions"@, navigable),
            shortcut("u"@, "up"@, dashboard.startable()),
            shortcut("d"@, "down"@, dashboard.stoppable()),
            shortcut("r"@, "refresh"@, true),
            shortcut("?"@, "help"@, true),
            shortcut("q"@, "close"@, true),
        ]
    }
}

fn key_entry<'a>(key: &'a str, label: &'a str, enabled: bool) -> (entry: Shortcut<'a>)
    ensures
        entry@ == shortcut(key@, label@, enabled),
{
    Shortcut { key, label, enabled }
}

/// The shortcuts of the dashboard, on lines of a width.
pub fn shortcut_legend(dashboard: &DashboardModel, width: u16, show_help: bool) -> (lines: Vec<Line>)
    ensures
        order::views(lines@) == shortcut_lines(dashboard_shortcuts(dashboard@, show_help), width),
{
    let groups = dashboard.groups();
    assert(order::views(groups@).len() == groups@.len());
    let navigable = groups.len() > 0;
    let shortcuts = if show_help {
        vec![
            key_entry("↑/↓/j/k", "nav", navigable),
            key_entry("pg↑/pg↓", "page", navigable),
            key_entry("home/end", "jump", navigable),
            key_entry("↵/space", "toggle", navigable),
            key_entry("t", "trigger", navigable),
            key_entry("e", "enable/disable", navigable),
            key_entry("l", "logs", navigable),
            key_entry("a", "actions", navigable),
            key_entry("w", "web", true),
            key_entry("u", "up", dashboard.can_start()),
            key_entry("d", "down", dashboard.can_stop()),
            key_entry("r", "refresh", true),
            key_entry("?", "help", true),
            key_entry("q/esc", "close", true),
        ]
    } else {
        vec![
            key_entry("↑/↓", "nav", navigable),
            key_entry("↵/space", "toggle", navigable),
            key_entry("t", "trigger", navigable),
            key_entry("e", "enable/disable", navigable),
            key_entry("l", "logs", navigable),
            key_entry("a", "actions", navigable),
            key_entry("u", "up", dashboard.can_start()),
            key_entry("d", "down", dashboard.can_stop()),
            key_entry("r", "refresh", true),
            key_entry("?", "help", true),
            key_entry("q", "close", true),
        ]
    };
    assert(order::views(shortcuts@) =~= dashboard_shortcuts(dashboard@, show_help));
    wrap_shortcuts(width, &shortcuts)
}

/// The shortcuts of the log view. Without wrapping, lines can be moved
/// sideways.
pub open spec fn log_shortcuts(wrapping: bool) -> Seq<ShortcutView> {
    seq![
        shortcut("↑/↓/j/k"@, "scroll"@, true),
        shortcut("pg↑/pg↓"@, "page"@, true),
        shortcut("home/end"@, "jump"@, true),
        shortcut("f"@, "follow"@, true),
        shortcut("w"@, "wrap"@, true),
        shortcut("h/l"@, "horizontal"@, !wrapping),
        shortcut("c"@, "clear"@, true),
        shortcut("q/esc"@, "back"@, true),
    ]
}

/// The shortcuts of the log view, on lines of a width.
pub fn log_shortcut_legend(width: u16, wrapping: bool) -> (lines: Vec<Line>)
    ensures
        order::views(lines@) == shortcut_lines(log_shortcuts(wrapping), width),
{
    let shortcuts = vec![
        key_entry("↑/↓/j/k", "scroll", true),
        key_entry("pg↑/pg↓", "page", true),
        key_entry("home/end", "jump", true),
        key_entry("f", "follow", true),
        key_entry("w", "wrap", true),
        key_entry("h/l", "horizontal", !wrapping),
        key_entry("c", "clear", true),
        key_entry("q/esc", "back", true),
    ];
    assert(order::views(shortcuts@) =~= log_shortcuts(wrapping));
    wrap_shortcuts(width, &shortcuts)
}

/// The shortcuts of the picker.
pub open spec fn picker_shortcuts() -> Seq<ShortcutView> {
    seq![
        shortcut("↑/↓/j/k"@, "nav"@, true),
        shortcut("↵/space"@, "open"@, true),
        shortcut("q/esc"@, "back"@, true),
    ]
}

/// The question whether to run an action, and the answers.
pub open spec fn run_question(label: Seq<char>) -> Seq<ShortcutView> {
    seq![
        shortcut("Run "@ + label + "?"@, Seq::empty(), true),
        shortcut("y"@, "yes"@, true),
        shortcut("n"@, "no"@, true),
    ]
}

/// The question whether to run an action, on lines of a width.
pub fn action_confirmation_footer(width: u16, label: &str) -> (lines: Vec<Line>)
    ensures
        order::views(lines@) == shortcut_lines(run_question(label@), width),
{
    let mut prompt = "Run ".to_owned();
    prompt.append(label);
    prompt.append("?");
    proof {
        reveal_strlit("");
        assert(""@ =~= Seq::<char>::empty());
    }
    let shortcuts = vec![
        key_entry(prompt.as_str(), "", true),
        key_entry("y", "yes", true),
        key_entry("n", "no", true),
    ];
    assert(order::views(shortcuts@) =~= run_question(label@));
    wrap_shortcuts(width, &shortcuts)
}

/// The question whether to stop Tilt, and the answers.
pub open spec fn down_question() -> Seq<Seq<style::SpanView>> {
    seq![
        seq![style::colored("Stop Tilt and clean up its resources?"@, Color::Yellow)],
        shortcut_entry(shortcut("y"@, "yes"@, true)),
        shortcut_entry(shortcut("n"@, "no"@, true)),
    ]
}

/// The question whether to stop Tilt, on lines of a width.
pub fn down_confirmation_footer(width: u16) -> (lines: Vec<Line>)
    ensures
        order::views(lines@) == style::wrapped(down_question(), width as nat),
{
    let question = Line::from(
        vec![Span::colored("Stop Tilt and clean up its resources?".to_owned(), Color::Yellow)],
    );
    assert(question@ =~= down_question()[0]);
    let entries = vec![
        question,
        entry_of(&key_entry("y", "yes", true)),
        entry_of(&key_entry("n", "no", true)),
    ];
    assert(order::views(entries@) =~= down_question());
    wrap_entries(&entries, width as usize)
}

// ---------------------------------------------------------------------------
// The head of the dashboard
// ---------------------------------------------------------------------------

/// How many services have a status.
pub open spec fn count_of(services: Seq<model::ServiceView>, status: CircleStatus) -> nat
    decreases services.len(),
{
    if services.len() == 0 {
        0
    } else {
        count_of(services.drop_last(), status) + if services.last().status == status {
            1nat
        } else {
            0nat
        }
    }
}

/// Every service is counted once.
pub proof fn law_counts_add_up(services: Seq<model::ServiceView>)
    ensures
        count_of(services, CircleStatus::Green) + count_of(services, CircleStatus::Orange)
            + count_of(services, CircleStatus::Red) + count_of(services, CircleStatus::Grey)
            == services.len(),
    decreases services.len(),
{
    if services.len() > 0 {
        law_counts_add_up(services.drop_last());
    }
}

fn count(services: &[Service], status: CircleStatus) -> (found: usize)
    ensures
        found == count_of(order::views(services@), status),
{
    let ghost all = order::views(services@);
    let mut found: usize = 0;
    let mut index: usize = 0;
    while index < services.len()
        invariant
            index <= services@.len(),
            all == order::views(services@),
            found == count_of(all.take(index as int), status),
            found <= index,
        decreases services@.len() - index,
    {
        assert(all.take(index + 1).drop_last() =~= all.take(index as int));
        if services[index].status == status {
            found += 1;
        }
        index += 1;
    }
    assert(all.take(all.len() as int) =~= all);
    found
}

/// A number and what it counts.
pub open spec fn metric(label: Seq<char>, value: nat) -> Seq<style::SpanView> {
    seq![
        style::colored(label, Color::DarkGray),
        style::colored(text::decimal(value), Color::Gray),
    ]
}

/// How many services there are, and how they are doing.
pub open spec fn metrics(services: Seq<model::ServiceView>) -> Seq<Seq<style::SpanView>> {
    seq![
        metric("Services: "@, services.len()),
        metric("Healthy: "@, count_of(services, CircleStatus::Green)),
        metric("Building: "@, count_of(services, CircleStatus::Orange)),
        metric("Failed: "@, count_of(services, CircleStatus::Red)),
        metric("Inactive: "@, count_of(services, CircleStatus::Grey)),
    ]
}

/// The columns of the first line that the word for how Tilt is doing leaves.
pub open spec fn head_columns(status: OverallStatus, width: u16) -> nat {
    let taken = text::encoded_len(status_word(status)) + 1;
    if taken <= width {
        (width - taken) as nat
    } else {
        0
    }
}

/// The metrics on lines of a width. The first line leaves room for the word for
/// how Tilt is doing; where that leaves no room for a metric, it stays empty.
pub open spec fn metric_lines(dashboard: ModelView, width: u16) -> Seq<Seq<style::SpanView>> {
    style::head_wrapped(
        metrics(dashboard.services),
        head_columns(dashboard.overall_status, width),
        width as nat,
    )
}

fn metric_entry(label: &str, value: usize) -> (entry: Line)
    ensures
        entry@ == metric(label@, value as nat),
{
    let entry = Line::from(
        vec![
            Span::colored(label.to_owned(), Color::DarkGray),
            Span::colored(text::decimal_text(value as u64), Color::Gray),
        ],
    );
    assert(entry@ =~= metric(label@, value as nat));
    entry
}

/// The metrics of the dashboard, on lines of a width.
pub fn service_metric_lines(dashboard: &DashboardModel, width: u16) -> (lines: Vec<Line>)
    ensures
        order::views(lines@) == metric_lines(dashboard@, width),
{
    let services = dashboard.services();
    assert(order::views(services@).len() == services@.len());
    let entries = vec![
        metric_entry("Services: ", services.len()),
        metric_entry("Healthy: ", count(services, CircleStatus::Green)),
        metric_entry("Building: ", count(services, CircleStatus::Orange)),
        metric_entry("Failed: ", count(services, CircleStatus::Red)),
        metric_entry("Inactive: ", count(services, CircleStatus::Grey)),
    ];
    assert(order::views(entries@) =~= metrics(dashboard@.services));
    let full: usize = width as usize;
    let word: usize = overall_label(dashboard.overall_status()).as_bytes().len();
    let first: usize = full.saturating_sub(word.saturating_add(1));
    wrap_head_entries(&entries, first, full)
}

// ---------------------------------------------------------------------------
// The row of a service
// ---------------------------------------------------------------------------

/// A text cut down to a number of characters, the last of them an ellipsis.
pub open spec fn clipped(value: Seq<char>, width: nat) -> Seq<char> {
    if value.len() <= width {
        value
    } else if width == 0 {
        Seq::empty()
    } else {
        value.take(width - 1).push('…')
    }
}

/// A clipped text has no more characters than asked for, and begins as the text
/// does.
pub proof fn law_clipping_keeps_to_the_width(value: Seq<char>, width: nat)
    ensures
        clipped(value, width).len() <= width,
        value.len() <= width ==> clipped(value, width) == value,
        value.len() > width && width > 0 ==> clipped(value, width).len() == width && clipped(
            value,
            width,
        ).drop_last() == value.take(width - 1),
{
    if value.len() > width && width > 0 {
        assert(clipped(value, width).drop_last() =~= value.take(width - 1));
    }
}

/// Cuts a text down to a number of characters, the last of them an ellipsis.
pub fn clip_with_ellipsis(value: &str, width: usize) -> (result: String)
    ensures
        result@ == clipped(value@, width as nat),
{
    let chars = text::chars_of(value);
    if chars.len() <= width {
        return value.to_owned();
    }
    if width == 0 {
        return String::new();
    }
    let mut result = text::text_between(&chars, 0, width - 1);
    assert(result@ =~= value@.take(width - 1));
    result.push('…');
    result
}

/// The titles of actions, with dots between them.
pub open spec fn titles(actions: Seq<model::ActionView>) -> Seq<char>
    decreases actions.len(),
{
    if actions.len() == 0 {
        Seq::empty()
    } else if actions.len() == 1 {
        actions[0].title()
    } else {
        titles(actions.drop_last()) + " · "@ + actions.last().title()
    }
}

fn joined_titles(actions: &Vec<ServiceAction>) -> (result: String)
    ensures
        result@ == titles(order::views(actions@)),
{
    let ghost all = order::views(actions@);
    let mut result = String::new();
    let mut index: usize = 0;
    while index < actions.len()
        invariant
            index <= actions@.len(),
            all == order::views(actions@),
            result@ == titles(all.take(index as int)),
        decreases actions@.len() - index,
    {
        proof {
            assert(all.take(index + 1).drop_last() =~= all.take(index as int));
            assert(all.take(index + 1)[0] == all[0]);
        }
        if index == 0 {
            result = actions[index].label().to_owned();
        } else {
            result.append(" · ");
            result.append(actions[index].label());
        }
        index += 1;
    }
    assert(all.take(all.len() as int) =~= all);
    result
}

/// The columns that the titles of actions can take at most, with the mark
/// before them: ten are left for the service.
pub open spec fn badge_columns(width: u16) -> nat {
    if width > 11 {
        (width - 10) as nat
    } else {
        1
    }
}

/// What stands behind the mark that tells that a service has actions: how many
/// there are if there are several or, where the service is selected and there is
/// room, their titles.
pub open spec fn behind_mark(service: model::ServiceView, width: u16, selected: bool) -> Seq<char> {
    if selected && badge_columns(width) > 2 {
        " "@ + clipped(titles(service.actions), (badge_columns(width) - 2) as nat)
    } else if selected || service.actions.len() == 1 {
        Seq::empty()
    } else {
        " "@ + text::decimal(service.actions.len())
    }
}

/// What tells that a service has actions.
pub open spec fn badge(service: model::ServiceView, width: u16, selected: bool) -> Seq<char> {
    "↗"@ + behind_mark(service, width, selected)
}

/// How the badge is shown.
pub open spec fn badge_spans(service: model::ServiceView, width: u16, selected: bool) -> Seq<
    style::SpanView,
> {
    if selected && badge_columns(width) > 2 {
        seq![
            style::colored("↗"@, Color::Cyan),
            style::colored(behind_mark(service, width, selected), Color::DarkGray),
        ]
    } else {
        seq![style::colored(badge(service, width, selected), Color::Cyan)]
    }
}

/// One number less another, but not below zero.
pub open spec fn less(number: nat, other: nat) -> nat {
    if other <= number {
        (number - other) as nat
    } else {
        0
    }
}

/// The columns of a service's row that are left of its badge.
pub open spec fn left_columns(service: model::ServiceView, width: u16, selected: bool) -> nat {
    if service.actions.len() == 0 {
        width as nat
    } else {
        less(width as nat, badge(service, width, selected).len() + 1)
    }
}

/// The left of a service's row, in a number of columns: the circle, the name
/// and, where there is room, the detail.
pub open spec fn left_spans(service: model::ServiceView, columns: nat) -> Seq<style::SpanView> {
    let name = clipped(service.name, less(columns, 4));
    let room = less(columns, 4 + name.len());
    seq![
        style::plain("  "@),
        style::colored("● "@, circle_paint(service.status)),
        style::bold(name),
        style::plain(
            if room >= 3 {
                clipped("  "@ + service.detail, room)
            } else {
                Seq::empty()
            },
        ),
    ]
}

/// A number of spaces.
pub open spec fn spaces(count: nat) -> Seq<char> {
    Seq::new(count, |i: int| ' ')
}

/// The row of a service, given how many columns its left takes: on the left what
/// it is, on the right its badge.
pub open spec fn padded_spans(
    service: model::ServiceView,
    width: u16,
    selected: bool,
    taken: nat,
) -> Seq<style::SpanView> {
    let left = left_spans(service, left_columns(service, width, selected));
    if service.actions.len() == 0 {
        left
    } else {
        let padding = less(width as nat, taken + badge(service, width, selected).len());
        left + seq![style::plain(spaces(padding))] + badge_spans(service, width, selected)
    }
}

/// The row of a service: on the left what it is, on the right its badge.
pub open spec fn service_spans(service: model::ServiceView, width: u16, selected: bool) -> Seq<
    style::SpanView,
> {
    padded_spans(
        service,
        width,
        selected,
        style::line_width(left_spans(service, left_columns(service, width, selected))),
    )
}

fn blank_text(count: usize) -> (result: String)
    ensures
        result@ == spaces(count as nat),
{
    let mut result = String::new();
    let mut index: usize = 0;
    while index < count
        invariant
            index <= count,
            result@ =~= spaces(index as nat),
        decreases count - index,
    {
        result.push(' ');
        index += 1;
    }
    result
}

fn left_line(service: &Service, columns: usize) -> (line: Line)
    ensures
        line@ == left_spans(service@, columns as nat),
{
    let name = clip_with_ellipsis(service.name.as_str(), columns.saturating_sub(4));
    let length: usize = text::chars_of(name.as_str()).len();
    let room: usize = columns.saturating_sub(4).saturating_sub(length);
    let detail = if room >= 3 {
        let shown = text::joined("  ", service.detail.as_str());
        clip_with_ellipsis(shown.as_str(), room)
    } else {
        String::new()
    };
    let line = Line::from(
        vec![
            Span::raw("  ".to_owned()),
            Span::colored("● ".to_owned(), circle_color(service.status)),
            Span::bold(name),
            Span::raw(detail),
        ],
    );
    assert(line@ =~= left_spans(service@, columns as nat));
    line
}

fn badge_columns_of(width: u16) -> (columns: usize)
    ensures
        columns == badge_columns(width),
{
    let full: usize = width as usize;
    full.saturating_sub(10).max(1)
}

fn text_behind_mark(service: &Service, width: u16, selected: bool) -> (behind: String)
    ensures
        behind@ == behind_mark(service@, width, selected),
{
    assert(service@.actions.len() == service.actions@.len());
    let limit: usize = badge_columns_of(width);
    if selected && limit > 2 {
        let shown = joined_titles(&service.actions);
        let clip = clip_with_ellipsis(shown.as_str(), limit - 2);
        text::joined(" ", clip.as_str())
    } else if selected || service.actions.len() == 1 {
        String::new()
    } else {
        let number = text::decimal_text(service.actions.len() as u64);
        text::joined(" ", number.as_str())
    }
}

fn badge_text(service: &Service, width: u16, selected: bool) -> (result: String)
    ensures
        result@ == badge(service@, width, selected),
{
    text::joined("↗", text_behind_mark(service, width, selected).as_str())
}

/// The left of a service's row.
pub fn left_of_service(service: &Service, width: u16, selected: bool) -> (line: Line)
    ensures
        line@ == left_spans(service@, left_columns(service@, width, selected)),
{
    let full: usize = width as usize;
    assert(service@.actions.len() == service.actions@.len());
    if service.actions.len() == 0 {
        return left_line(service, full);
    }
    let badge_length: usize = text::chars_of(badge_text(service, width, selected).as_str()).len();
    left_line(service, full.saturating_sub(badge_length).saturating_sub(1))
}

/// The row of a service, given how many columns its left takes.
pub fn padded_service_line(service: &Service, width: u16, selected: bool, taken: u128) -> (line:
    Line)
    ensures
        line@ == padded_spans(service@, width, selected, taken as nat),
{
    let mut line = left_of_service(service, width, selected);
    assert(service@.actions.len() == service.actions@.len());
    if service.actions.len() == 0 {
        return line;
    }
    let full: usize = width as usize;
    let mark = badge_text(service, width, selected);
    let badge_length: usize = text::chars_of(mark.as_str()).len();
    let padding: usize = if taken >= full as u128 {
        0
    } else {
        (full - taken as usize).saturating_sub(badge_length)
    };
    let ghost left = line@;
    line.spans.push(Span::raw(blank_text(padding)));
    let ghost padded = line@;
    assert(padded =~= left + seq![style::plain(spaces(padding as nat))]);
    if selected && badge_columns_of(width) > 2 {
        line.spans.push(Span::colored("↗".to_owned(), Color::Cyan));
        line.spans.push(
            Span::colored(text_behind_mark(service, width, selected), Color::DarkGray),
        );
    } else {
        line.spans.push(Span::colored(mark, Color::Cyan));
    }
    assert(line@ =~= padded + badge_spans(service@, width, selected));
    line
}

/// The row of a service.
pub fn service_line(service: &Service, width: u16, selected: bool) -> (line: Line)
    ensures
        line@ == service_spans(service@, width, selected),
{
    let taken: u128 = left_of_service(service, width, selected).width();
    padded_service_line(service, width, selected, taken)
}

/// How many characters a line has.
pub open spec fn char_count(spans: Seq<style::SpanView>) -> nat
    decreases spans.len(),
{
    if spans.len() == 0 {
        0
    } else {
        char_count(spans.drop_last()) + spans.last().content.len()
    }
}

proof fn lemma_char_count_concat(left: Seq<style::SpanView>, right: Seq<style::SpanView>)
    ensures
        char_count(left + right) == char_count(left) + char_count(right),
    decreases right.len(),
{
    if right.len() == 0 {
        assert(left + right =~= left);
    } else {
        assert((left + right).drop_last() =~= left + right.drop_last());
        lemma_char_count_concat(left, right.drop_last());
    }
}

/// The row of a service with actions is as long as the pane is wide, so that
/// its badge ends at the right, wherever the badge leaves room for the circle
/// and the characters on the left take one column each.
pub proof fn law_badge_ends_at_the_right(
    service: model::ServiceView,
    width: u16,
    selected: bool,
)
    requires
        service.actions.len() > 0,
        badge(service, width, selected).len() + 5 <= width,
        ({
            let left = left_spans(service, left_columns(service, width, selected));
            style::line_width(left) == char_count(left)
        }),
    ensures
        char_count(service_spans(service, width, selected)) == width,
{
    reveal_with_fuel(char_count, 5);
    reveal_strlit("  ");
    reveal_strlit("● ");
    reveal_strlit("↗");
    reveal_strlit(" ");
    let columns = left_columns(service, width, selected);
    let left = left_spans(service, columns);
    let name = clipped(service.name, less(columns, 4));
    law_clipping_keeps_to_the_width(service.name, less(columns, 4));
    law_clipping_keeps_to_the_width("  "@ + service.detail, less(columns, 4 + name.len()));
    assert(left.drop_last() =~= seq![left[0], left[1], left[2]]);
    assert(left.drop_last().drop_last() =~= seq![left[0], left[1]]);
    assert(left.drop_last().drop_last().drop_last() =~= seq![left[0]]);
    assert(char_count(left) <= columns);
    let padding = less(
        width as nat,
        style::line_width(left) + badge(service, width, selected).len(),
    );
    let blank = seq![style::plain(spaces(padding))];
    let mark = badge_spans(service, width, selected);
    lemma_char_count_concat(left + blank, mark);
    lemma_char_count_concat(left, blank);
    assert(blank.drop_last() =~= Seq::<style::SpanView>::empty());
    if mark.len() == 2 {
        assert(mark.drop_last() =~= seq![mark[0]]);
        assert(mark.drop_last().drop_last() =~= Seq::<style::SpanView>::empty());
    } else {
        assert(mark.drop_last() =~= Seq::<style::SpanView>::empty());
    }
    assert(char_count(mark) == badge(service, width, selected).len());
}

/// The titles of a selected service's actions always leave room for the
/// service, in a pane of thirteen columns or more.
pub proof fn law_titles_leave_room_for_the_service(service: model::ServiceView, width: u16)
    requires
        width >= 13,
    ensures
        badge(service, width, true).len() + 10 <= width,
{
    reveal_strlit("↗");
    reveal_strlit(" ");
    law_clipping_keeps_to_the_width(titles(service.actions), (badge_columns(width) - 2) as nat);
}

// ---------------------------------------------------------------------------
// The dashboard as a whole
// ---------------------------------------------------------------------------

/// The heading of a group: whether it is collapsed, its status, its name, and
/// how many services it has.
pub open spec fn heading_spans(group: model::GroupView, collapsed: bool) -> Seq<style::SpanView> {
    let paint = circle_paint(group.status);
    seq![
        style::bold_colored(
            if collapsed {
                "▸ "@
            } else {
                "▾ "@
            },
            paint,
        ),
        style::bold_colored("● "@, paint),
        style::bold_colored(group.name, paint),
        style::colored(" ("@ + text::decimal(group.services.len()) + ")"@, Color::DarkGray),
    ]
}

/// A row of the list, as it is shown.
pub open spec fn row_spans(row: list::RowView, list: list::ListView, width: u16, place: nat) -> Seq<
    style::SpanView,
> {
    match row {
        list::RowView::Group(group) => heading_spans(group, list.collapsed.contains(group.name)),
        list::RowView::Service(service) => service_spans(
            service,
            width,
            list.selected == Some(place),
        ),
    }
}

/// The list, as it is shown: its rows or, where there are none, why.
pub open spec fn list_lines(dashboard: ModelView, list: list::ListView, width: u16) -> Seq<
    Seq<style::SpanView>,
> {
    let rows = list::rows(dashboard.groups, list.collapsed);
    if rows.len() == 0 {
        seq![seq![style::plain(empty_text(dashboard.overall_status))]]
    } else {
        rows.map(|place: int, row: list::RowView| row_spans(row, list, width, place as nat))
    }
}

/// What the dashboard shows.
#[derive(Debug)]
pub struct DashboardFrame {
    pub metrics: Vec<Line>,
    pub status: Span,
    pub warning: Option<String>,
    pub rows: Vec<Line>,
    pub selected: Option<usize>,
    pub footer: Vec<Line>,
}

/// What stands at the foot of the dashboard: the question whether to stop Tilt,
/// while it is asked, or else the shortcuts.
pub open spec fn footer_lines(
    dashboard: ModelView,
    width: u16,
    confirm_down: bool,
    show_help: bool,
) -> Seq<Seq<style::SpanView>> {
    if confirm_down {
        style::wrapped(down_question(), width as nat)
    } else {
        shortcut_lines(dashboard_shortcuts(dashboard, show_help), width)
    }
}

fn heading_line(group: &model::ResourceGroup, collapsed: bool) -> (line: Line)
    ensures
        line@ == heading_spans(group@, collapsed),
{
    let paint = circle_color(group.status);
    let disclosure = if collapsed {
        "▸ "
    } else {
        "▾ "
    };
    let mut size = " (".to_owned();
    size.append(text::decimal_text(group.services.len() as u64).as_str());
    size.append(")");
    assert(group@.services.len() == group.services@.len());
    let line = Line::from(
        vec![
            Span::bold_colored(disclosure.to_owned(), paint),
            Span::bold_colored("● ".to_owned(), paint),
            Span::bold_colored(group.name.clone(), paint),
            Span::colored(size, Color::DarkGray),
        ],
    );
    assert(line@ =~= heading_spans(group@, collapsed));
    line
}

fn row_lines(dashboard: &DashboardModel, list: &ServiceListState, width: u16) -> (lines: Vec<Line>)
    ensures
        order::views(lines@) == list_lines(dashboard@, list@, width),
{
    let rows = list.visible_rows(dashboard.groups());
    let ghost shown = order::views(rows@);
    assert(shown.len() == rows@.len());
    if rows.len() == 0 {
        let message = empty_message(dashboard.overall_status());
        let line = Line::from(vec![Span::raw(message.to_owned())]);
        let lines = vec![line];
        proof {
            assert(line@ =~= seq![style::plain(message@)]);
            assert(order::views(lines@) =~= seq![line@]);
        }
        return lines;
    }
    let ghost wanted = list_lines(dashboard@, list@, width);
    let mut lines: Vec<Line> = Vec::new();
    let mut place: usize = 0;
    while place < rows.len()
        invariant
            place <= rows@.len(),
            shown == order::views(rows@),
            wanted == shown.map(
                |place: int, row: list::RowView| row_spans(row, list@, width, place as nat),
            ),
            order::views(lines@) == wanted.take(place as int),
        decreases rows@.len() - place,
    {
        let ghost before = order::views(lines@);
        assert(shown[place as int] == rows@[place as int]@);
        let line = match &rows[place] {
            ServiceListRow::Group(group) => heading_line(
                group,
                list.collapsed.contains(group.name.as_str()),
            ),
            ServiceListRow::Service(service) => service_line(
                service,
                width,
                match list.selected {
                    Some(selected) => selected == place,
                    None => false,
                },
            ),
        };
        lines.push(line);
        proof {
            assert(order::views(lines@) =~= before.push(line@));
            assert(wanted.take(place + 1) =~= wanted.take(place as int).push(line@));
        }
        place += 1;
    }
    assert(wanted.take(wanted.len() as int) =~= wanted);
    lines
}

/// What the dashboard shows in a pane of a width.
pub fn dashboard_frame(
    dashboard: &DashboardModel,
    width: u16,
    confirm_down: bool,
    show_help: bool,
    list: &ServiceListState,
) -> (frame: DashboardFrame)
    ensures
        order::views(frame.metrics@) == metric_lines(dashboard@, width),
        frame.status@ == style::colored(
            status_word(dashboard@.overall_status),
            status_color(dashboard@.overall_status),
        ),
        model::optional_text(frame.warning) == dashboard@.warning,
        order::views(frame.rows@) == list_lines(dashboard@, list@, width),
        picker::place_of(frame.selected) == list@.selected,
        order::views(frame.footer@) == footer_lines(dashboard@, width, confirm_down, show_help),
{
    let status = dashboard.overall_status();
    DashboardFrame {
        metrics: service_metric_lines(dashboard, width),
        status: Span::colored(overall_label(status).to_owned(), overall_color(status)),
        warning: match dashboard.warning() {
            Some(warning) => Some(warning.to_owned()),
            None => None,
        },
        rows: row_lines(dashboard, list, width),
        selected: list.selected,
        footer: if confirm_down {
            down_confirmation_footer(width)
        } else {
            shortcut_legend(dashboard, width, show_help)
        },
    }
}

/// How many rows a section of lines takes: one at least, and no more than the
/// terminal can have.
pub open spec fn section_rows(lines: nat) -> nat {
    if lines == 0 {
        1
    } else if lines <= u16::MAX {
        lines
    } else {
        u16::MAX as nat
    }
}

/// How many rows a section of lines takes: one at least, and no more than the
/// terminal can have.
pub fn section_height(lines: usize) -> (height: u16)
    ensures
        height == section_rows(lines as nat),
{
    if lines == 0 {
        1
    } else if lines <= u16::MAX as usize {
        lines as u16
    } else {
        u16::MAX
    }
}

// ---------------------------------------------------------------------------
// The picker
// ---------------------------------------------------------------------------

/// The row of an action: what kind it is, its title, and where it leads or how
/// it runs.
pub open spec fn action_spans(action: model::ActionView) -> Seq<style::SpanView> {
    let (icon, detail) = match action {
        model::ActionView::Link { url, .. } => ("↗ "@, url),
        model::ActionView::Button { requires_confirmation, .. } => (
            "▶ "@,
            if requires_confirmation {
                "confirmation required"@
            } else {
                "Tilt action"@
            },
        ),
    };
    seq![
        style::colored(icon, Color::Cyan),
        style::bold(action.title()),
        style::colored("  "@ + detail, Color::DarkGray),
    ]
}

/// What stands at the foot of the picker: the question whether to run the
/// selected action, while it is asked, or else the shortcuts.
pub open spec fn picker_footer(picker: picker::PickerView, width: u16, confirming: bool) -> Seq<
    Seq<style::SpanView>,
> {
    if confirming {
        shortcut_lines(
            run_question(
                match picker.chosen() {
                    Some(action) => action.title(),
                    None => "action"@,
                },
            ),
            width,
        )
    } else {
        shortcut_lines(picker_shortcuts(), width)
    }
}

/// What the picker shows.
#[derive(Debug)]
pub struct PickerFrame {
    pub title: Line,
    pub rows: Vec<Line>,
    pub selected: Option<usize>,
    pub footer: Vec<Line>,
}

fn action_line(action: &ServiceAction) -> (line: Line)
    ensures
        line@ == action_spans(action@),
{
    let (icon, detail) = match action {
        ServiceAction::Link { url, .. } => ("↗ ", url.as_str()),
        ServiceAction::Button { requires_confirmation, .. } => (
            "▶ ",
            if *requires_confirmation {
                "confirmation required"
            } else {
                "Tilt action"
            },
        ),
    };
    let line = Line::from(
        vec![
            Span::colored(icon.to_owned(), Color::Cyan),
            Span::bold(action.label().to_owned()),
            Span::colored(text::joined("  ", detail), Color::DarkGray),
        ],
    );
    assert(line@ =~= action_spans(action@));
    line
}

/// What the picker shows in a pane of a width.
pub fn picker_frame(picker: &ActionPicker, width: u16, confirming: bool) -> (frame: PickerFrame)
    ensures
        frame.title@ == seq![
            style::bold_colored(picker@.service_name, Color::Cyan),
            style::colored(" actions"@, Color::DarkGray),
        ],
        order::views(frame.rows@) == picker@.actions.map_values(
            |action: model::ActionView| action_spans(action),
        ),
        picker::place_of(frame.selected) == picker@.selected,
        order::views(frame.footer@) == picker_footer(picker@, width, confirming),
{
    let footer = if confirming {
        let label = match picker.selected() {
            Some(action) => action.label(),
            None => "action",
        };
        action_confirmation_footer(width, label)
    } else {
        let shortcuts = vec![
            key_entry("↑/↓/j/k", "nav", true),
            key_entry("↵/space", "open", true),
            key_entry("q/esc", "back", true),
        ];
        assert(order::views(shortcuts@) =~= picker_shortcuts());
        wrap_shortcuts(width, &shortcuts)
    };
    let title = Line::from(
        vec![
            Span::bold_colored(picker.service_name.clone(), Color::Cyan),
            Span::colored(" actions".to_owned(), Color::DarkGray),
        ],
    );
    assert(title@ =~= seq![
        style::bold_colored(picker@.service_name, Color::Cyan),
        style::colored(" actions"@, Color::DarkGray),
    ]);
    let ghost wanted = picker@.actions.map_values(
        |action: model::ActionView| action_spans(action),
    );
    let mut rows: Vec<Line> = Vec::new();
    let mut index: usize = 0;
    while index < picker.actions.len()
        invariant
            index <= picker.actions@.len(),
            wanted == picker@.actions.map_values(
                |action: model::ActionView| action_spans(action),
            ),
            order::views(rows@) == wanted.take(index as int),
        decreases picker.actions@.len() - index,
    {
        let ghost before = order::views(rows@);
        let row = action_line(&picker.actions[index]);
        rows.push(row);
        proof {
            assert(order::views(rows@) =~= before.push(row@));
            assert(wanted.take(index + 1) =~= wanted.take(index as int).push(row@));
        }
        index += 1;
    }
    assert(wanted.take(wanted.len() as int) =~= wanted);
    PickerFrame { title, rows, selected: picker.selected, footer }
}

// ---------------------------------------------------------------------------
// Laws
// ---------------------------------------------------------------------------

/// Each state of Tilt has a word, a color and a message of its own. Green is
/// what runs, orange what starts, red what has failed; all else is dark.
pub proof fn law_states_are_told_in_words_and_colors(status: OverallStatus)
    ensures
        match status {
            OverallStatus::Unavailable => status_word(status) == "unavailable"@ && status_color(
                status,
            ) == Color::DarkGray && empty_text(status) == "No Tiltfile found in this workspace."@,
            OverallStatus::Stopped => status_word(status) == "stopped"@ && status_color(status)
                == Color::DarkGray && empty_text(status)
                == "Tilt is stopped. Press u to start it."@,
            OverallStatus::Starting => status_word(status) == "starting"@ && status_color(status)
                == Color::Rgb(255, 165, 0) && empty_text(status) == "Waiting for the Tilt API…"@,
            OverallStatus::Running => status_word(status) == "running"@ && status_color(status)
                == Color::Green && empty_text(status)
                == "Tilt is running but has no visible services."@,
            OverallStatus::Failed => status_word(status) == "failed"@ && status_color(status)
                == Color::Red && empty_text(status)
                == "Tilt exited. Check the warning and plugin logs."@,
        },
{
}

/// A circle is painted in the color of its status; what is grey is dark.
pub proof fn law_circles_are_painted_like_their_status(status: CircleStatus)
    ensures
        status == CircleStatus::Green ==> circle_paint(status) == Color::Green,
        status == CircleStatus::Orange ==> circle_paint(status) == Color::Rgb(255, 165, 0),
        status == CircleStatus::Red ==> circle_paint(status) == Color::Red,
        status == CircleStatus::Grey ==> circle_paint(status) == Color::DarkGray,
{
}

/// A key that does something now is brighter than what it does, and one that
/// does nothing now is not. What it does stands a space behind it, where there
/// is a word for it.
pub proof fn law_keys_that_work_are_bright(key: Seq<char>, label: Seq<char>)
    ensures
        shortcut_entry(shortcut(key, label, true))[0] == style::colored(key, Color::Gray),
        shortcut_entry(shortcut(key, label, false))[0] == style::colored(key, Color::DarkGray),
        label.len() > 0 ==> shortcut_entry(shortcut(key, label, true))[1] == style::colored(
            " "@ + label,
            Color::DarkGray,
        ),
        label.len() == 0 ==> shortcut_entry(shortcut(key, label, true))[1].content.len() == 0,
        shortcut_entry(shortcut(key, label, true)).len() == 2,
        shortcut_entry(shortcut(key, label, false)).len() == 2,
        shortcut_entry(shortcut(key, label, true))[1] == shortcut_entry(
            shortcut(key, label, false),
        )[1],
{
}

/// The dashboard tells its keys. Those of the list and of services work where
/// there is a group, up where Tilt can be started, down where it can be stopped,
/// and the others always.
pub proof fn law_the_dashboard_tells_its_keys(dashboard: ModelView)
    ensures
        ({
            let some = dashboard.groups.len() > 0;
            let short = dashboard_shortcuts(dashboard, false);
            let all = dashboard_shortcuts(dashboard, true);
            &&& short.len() == 11
            &&& short[0] == shortcut("↑/↓"@, "nav"@, some)
            &&& short[1] == shortcut("↵/space"@, "toggle"@, some)
            &&& short[2] == shortcut("t"@, "trigger"@, some)
            &&& short[3] == shortcut("e"@, "enable/disable"@, some)
            &&& short[4] == shortcut("l"@, "logs"@, some)
            &&& short[5] == shortcut("a"@, "actions"@, some)
            &&& short[6] == shortcut("u"@, "up"@, dashboard.startable())
            &&& short[7] == shortcut("d"@, "down"@, dashboard.stoppable())
            &&& short[8] == shortcut("r"@, "refresh"@, true)
            &&& short[9] == shortcut("?"@, "help"@, true)
            &&& short[10] == shortcut("q"@, "close"@, true)
            &&& all.len() == 14
            &&& all[0] == shortcut("↑/↓/j/k"@, "nav"@, some)
            &&& all[1] == shortcut("pg↑/pg↓"@, "page"@, some)
            &&& all[2] == shortcut("home/end"@, "jump"@, some)
            &&& all.subrange(3, 8) == short.subrange(1, 6)
            &&& all[8] == shortcut("w"@, "web"@, true)
            &&& all.subrange(9, 13) == short.subrange(6, 10)
            &&& all[13] == shortcut("q/esc"@, "close"@, true)
        }),
{
    let short = dashboard_shortcuts(dashboard, false);
    let all = dashboard_shortcuts(dashboard, true);
    assert(all.subrange(3, 8) =~= short.subrange(1, 6));
    assert(all.subrange(9, 13) =~= short.subrange(6, 10));
}

/// The log view tells its keys. All of them work, but that lines are moved
/// sideways only where they do not wrap.
pub proof fn law_the_log_view_tells_its_keys(wrapping: bool)
    ensures
        log_shortcuts(wrapping) == seq![
            shortcut("↑/↓/j/k"@, "scroll"@, true),
            shortcut("pg↑/pg↓"@, "page"@, true),
            shortcut("home/end"@, "jump"@, true),
            shortcut("f"@, "follow"@, true),
            shortcut("w"@, "wrap"@, true),
        ] + seq![shortcut("h/l"@, "horizontal"@, !wrapping)] + seq![
            shortcut("c"@, "clear"@, true),
            shortcut("q/esc"@, "back"@, true),
        ],
{
    assert(log_shortcuts(wrapping) =~= seq![
        shortcut("↑/↓/j/k"@, "scroll"@, true),
        shortcut("pg↑/pg↓"@, "page"@, true),
        shortcut("home/end"@, "jump"@, true),
        shortcut("f"@, "follow"@, true),
        shortcut("w"@, "wrap"@, true),
    ] + seq![shortcut("h/l"@, "horizontal"@, !wrapping)] + seq![
        shortcut("c"@, "clear"@, true),
        shortcut("q/esc"@, "back"@, true),
    ]);
}

/// The picker tells its keys or, while it asks, names the action that it asks
/// about. The dashboard does likewise for stopping Tilt. Questions are answered
/// with y and n.
pub proof fn law_questions_take_the_place_of_keys(
    picker: picker::PickerView,
    dashboard: ModelView,
    width: u16,
    show_help: bool,
)
    ensures
        ({
            let answers = seq![shortcut("y"@, "yes"@, true), shortcut("n"@, "no"@, true)];
            let name = match picker.chosen() {
                Some(action) => action.title(),
                None => "action"@,
            };
            &&& picker_footer(picker, width, true) == shortcut_lines(
                seq![shortcut("Run "@ + name + "?"@, Seq::empty(), true)] + answers,
                width,
            )
            &&& picker_footer(picker, width, false) == shortcut_lines(
                seq![
                    shortcut("↑/↓/j/k"@, "nav"@, true),
                    shortcut("↵/space"@, "open"@, true),
                    shortcut("q/esc"@, "back"@, true),
                ],
                width,
            )
            &&& footer_lines(dashboard, width, true, show_help) == style::wrapped(
                seq![
                    seq![style::colored("Stop Tilt and clean up its resources?"@, Color::Yellow)],
                ] + shortcut_entries(answers),
                width as nat,
            )
            &&& footer_lines(dashboard, width, false, show_help) == shortcut_lines(
                dashboard_shortcuts(dashboard, show_help),
                width,
            )
        }),
{
    let answers = seq![shortcut("y"@, "yes"@, true), shortcut("n"@, "no"@, true)];
    let name = match picker.chosen() {
        Some(action) => action.title(),
        None => "action"@,
    };
    assert(run_question(name) =~= seq![shortcut("Run "@ + name + "?"@, Seq::empty(), true)]
        + answers);
    assert(down_question() =~= seq![
        seq![style::colored("Stop Tilt and clean up its resources?"@, Color::Yellow)],
    ] + shortcut_entries(answers));
}

/// Services are counted by status, each as often as it occurs: as healthy where
/// green, building where orange, failed where red, inactive where grey.
pub proof fn law_metrics_count_services_by_status(
    services: Seq<model::ServiceView>,
    status: CircleStatus,
)
    ensures
        count_of(services, status) == services.filter(
            |service: model::ServiceView| service.status == status,
        ).len(),
        ({
            let count = |color: CircleStatus| text::decimal(count_of(services, color));
            let told = |label: Seq<char>, number: Seq<char>|
                seq![style::colored(label, Color::DarkGray), style::colored(number, Color::Gray)];
            &&& metrics(services).len() == 5
            &&& metrics(services)[0] == told("Services: "@, text::decimal(services.len()))
            &&& metrics(services)[1] == told("Healthy: "@, count(CircleStatus::Green))
            &&& metrics(services)[2] == told("Building: "@, count(CircleStatus::Orange))
            &&& metrics(services)[3] == told("Failed: "@, count(CircleStatus::Red))
            &&& metrics(services)[4] == told("Inactive: "@, count(CircleStatus::Grey))
        }),
    decreases services.len(),
{
    reveal(Seq::filter);
    if services.len() > 0 {
        law_metrics_count_services_by_status(services.drop_last(), status);
    }
}

/// The first line of the metrics leaves room for the word for how Tilt is doing
/// and a space before it; the others have the whole width.
pub proof fn law_metrics_leave_room_for_the_status(dashboard: ModelView, width: u16)
    ensures
        ({
            let word = vstd::utf8::encode_utf8(status_word(dashboard.overall_status)).len();
            let first = if width > word {
                (width - word - 1) as nat
            } else {
                0
            };
            metric_lines(dashboard, width) == style::head_wrapped(
                metrics(dashboard.services),
                first,
                width as nat,
            )
        }),
{
}

/// What is clipped ends with an ellipsis, where there is room for one.
pub proof fn law_clipped_texts_end_with_an_ellipsis(value: Seq<char>, width: nat)
    requires
        value.len() > width,
    ensures
        width > 0 ==> clipped(value, width).last() == '…',
        width == 0 ==> clipped(value, width).len() == 0,
{
}

/// The titles of actions stand in their order, with dots between them.
pub proof fn law_titles_are_joined_by_dots(
    actions: Seq<model::ActionView>,
    action: model::ActionView,
)
    ensures
        titles(Seq::empty()).len() == 0,
        titles(seq![action]) == action.title(),
        actions.len() > 0 ==> titles(actions.push(action)) == titles(actions) + " · "@
            + action.title(),
{
    assert(actions.push(action).drop_last() =~= actions);
}

/// A service with actions has a mark. Where it is not selected, the mark is
/// followed by their number if there are several; where it is selected and the
/// pane is wide enough, by their titles, clipped so that ten columns are left.
pub proof fn law_marks_tell_of_actions(service: model::ServiceView, width: u16)
    ensures
        service.actions.len() == 1 ==> badge(service, width, false) == "↗"@,
        service.actions.len() > 1 ==> badge(service, width, false) == "↗"@ + (" "@ + text::decimal(
            service.actions.len(),
        )),
        width >= 13 ==> badge(service, width, true) == "↗"@ + (" "@ + clipped(
            titles(service.actions),
            (width - 12) as nat,
        )),
        width < 13 ==> badge(service, width, true) == "↗"@,
{
    assert("↗"@ + Seq::<char>::empty() =~= "↗"@);
}

/// The mark is bright and titles behind it are dark. A service without actions
/// has no mark at all.
pub proof fn law_marks_are_bright(service: model::ServiceView, width: u16, selected: bool)
    ensures
        ({
            let row = service_spans(service, width, selected);
            let left = left_spans(service, left_columns(service, width, selected));
            &&& service.actions.len() == 0 ==> row == left && left == left_spans(
                service,
                width as nat,
            )
            &&& service.actions.len() > 0 ==> row.len() > left.len() && row.take(left.len() as int)
                == left
            &&& service.actions.len() > 0 && !selected ==> row.len() == left.len() + 2
                && row.last() == style::colored(badge(service, width, false), Color::Cyan)
            &&& service.actions.len() > 0 && selected && width >= 13 ==> row.len() == left.len() + 3
                && row[left.len() as int + 1] == style::colored("↗"@, Color::Cyan)
                && row.last().style.fg == Some(Color::DarkGray) && "↗"@ + row.last().content
                == badge(service, width, true)
        }),
{
    let row = service_spans(service, width, selected);
    let left = left_spans(service, left_columns(service, width, selected));
    if service.actions.len() > 0 {
        assert(row.take(left.len() as int) =~= left);
    }
}

/// A service is shown with its circle, its name and its detail, whole where
/// there is room for all of it.
pub proof fn law_services_are_shown_whole_where_they_fit(
    service: model::ServiceView,
    columns: nat,
)
    requires
        4 + service.name.len() + 2 + service.detail.len() <= columns,
        service.detail.len() > 0,
    ensures
        left_spans(service, columns) == seq![
            style::plain("  "@),
            style::colored("● "@, circle_paint(service.status)),
            style::bold(service.name),
            style::plain("  "@ + service.detail),
        ],
{
    reveal_strlit("  ");
    assert(left_spans(service, columns) =~= seq![
        style::plain("  "@),
        style::colored("● "@, circle_paint(service.status)),
        style::bold(service.name),
        style::plain("  "@ + service.detail),
    ]);
}

/// Where there is no room for all of a service, its name comes first: it is
/// clipped only to what the circle leaves, and the detail to what the name
/// leaves. The circle is always there.
pub proof fn law_names_come_before_details(service: model::ServiceView, columns: nat)
    ensures
        ({
            let left = left_spans(service, columns);
            &&& left.len() == 4
            &&& left[0] == style::plain("  "@)
            &&& left[1] == style::colored("● "@, circle_paint(service.status))
            &&& columns >= 4 ==> left[2] == style::bold(
                clipped(service.name, (columns - 4) as nat),
            )
            &&& columns < 4 ==> left[2].content.len() == 0
            &&& columns >= 4 + left[2].content.len() + 3 ==> left[3] == style::plain(
                clipped("  "@ + service.detail, (columns - 4 - left[2].content.len()) as nat),
            )
            &&& columns < 4 + left[2].content.len() + 3 ==> left[3].content.len() == 0
        }),
{
    law_clipping_keeps_to_the_width(service.name, less(columns, 4));
}

/// The heading of a group tells whether it is collapsed, its name and how many
/// services it has, in the color of its status.
pub proof fn law_headings_tell_of_their_group(group: model::GroupView)
    ensures
        ({
            let paint = circle_paint(group.status);
            let rest = seq![
                style::bold_colored("● "@, paint),
                style::bold_colored(group.name, paint),
                style::colored(" ("@ + text::decimal(group.services.len()) + ")"@, Color::DarkGray),
            ];
            &&& heading_spans(group, true) == seq![style::bold_colored("▸ "@, paint)] + rest
            &&& heading_spans(group, false) == seq![style::bold_colored("▾ "@, paint)] + rest
        }),
{
    let paint = circle_paint(group.status);
    let rest = seq![
        style::bold_colored("● "@, paint),
        style::bold_colored(group.name, paint),
        style::colored(" ("@ + text::decimal(group.services.len()) + ")"@, Color::DarkGray),
    ];
    assert(heading_spans(group, true) =~= seq![style::bold_colored("▸ "@, paint)] + rest);
    assert(heading_spans(group, false) =~= seq![style::bold_colored("▾ "@, paint)] + rest);
}

/// The list shows a line for each row, a heading as collapsed as its group and
/// a service as selected as its row. Where there is no row, one line says why.
pub proof fn law_lists_show_their_rows(
    dashboard: ModelView,
    list: list::ListView,
    width: u16,
    place: int,
)
    ensures
        ({
            let rows = list::rows(dashboard.groups, list.collapsed);
            let lines = list_lines(dashboard, list, width);
            &&& rows.len() == 0 ==> lines == seq![
                seq![style::plain(empty_text(dashboard.overall_status))],
            ]
            &&& rows.len() > 0 ==> lines.len() == rows.len()
            &&& 0 <= place < rows.len() ==> match rows[place] {
                list::RowView::Group(group) => {
                    &&& list.collapsed.contains(group.name) ==> lines[place] == heading_spans(
                        group,
                        true,
                    )
                    &&& !list.collapsed.contains(group.name) ==> lines[place] == heading_spans(
                        group,
                        false,
                    )
                },
                list::RowView::Service(service) => {
                    &&& list.selected == Some(place as nat) ==> lines[place] == service_spans(
                        service,
                        width,
                        true,
                    )
                    &&& list.selected != Some(place as nat) ==> lines[place] == service_spans(
                        service,
                        width,
                        false,
                    )
                },
            }
        }),
{
}

/// A section has as many rows as lines, one at least.
pub proof fn law_sections_have_a_row_for_each_line(lines: nat)
    ensures
        0 < lines <= 65535 ==> section_rows(lines) == lines,
        section_rows(0) == 1,
        lines > 65535 ==> section_rows(lines) == 65535,
{
}

/// The picker shows of an action its title and where it leads, or whether it
/// must be confirmed, and marks what opens an address.
pub proof fn law_actions_are_shown_with_what_they_do(action: model::ActionView)
    ensures
        ({
            let row = action_spans(action);
            &&& row.len() == 3
            &&& row[1] == style::bold(action.title())
            &&& match action {
                model::ActionView::Link { url, .. } => row[0] == style::colored("↗ "@, Color::Cyan)
                    && row[2] == style::colored("  "@ + url, Color::DarkGray),
                model::ActionView::Button { requires_confirmation, .. } => {
                    &&& row[0] == style::colored("▶ "@, Color::Cyan)
                    &&& requires_confirmation ==> row[2] == style::colored(
                        "  "@ + "confirmation required"@,
                        Color::DarkGray,
                    )
                    &&& !requires_confirmation ==> row[2] == style::colored(
                        "  "@ + "Tilt action"@,
                        Color::DarkGray,
                    )
                },
            }
        }),
{
}

} // verus!
