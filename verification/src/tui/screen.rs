//! What the keys do: the dashboard, and what covers it.

use vstd::prelude::*;

use crate::tilt::model;
use crate::tilt::model::{Service, ServiceAction};
use crate::tui::keys;
use crate::tui::keys::{
    down_confirmation_decision, handle_log_key, toggle_help_for_key, DownConfirmationDecision,
    KeyCode,
};
use crate::tui::list;
use crate::tui::list::{SelectedServiceAction, ServiceListState};
use crate::tui::log_view;
use crate::tui::log_view::LogView;
use crate::tui::model::{DashboardModel, ModelView};
use crate::tui::picker;
use crate::tui::picker::{ActionPicker, ActionPickerEvent};

verus! {

/// How many milliseconds pass between two looks at Tilt.
pub const REFRESH_INTERVAL_MS: u64 = 1000;

/// What a key asks for.
#[derive(Debug, PartialEq, Eq)]
pub enum Command {
    /// Nothing.
    Stay,
    /// Close the dashboard.
    Quit,
    /// Start Tilt.
    StartTilt,
    /// Stop Tilt.
    StopTilt,
    /// Rebuild a service.
    Trigger(String),
    /// Enable a service or disable it.
    Toggle(Service),
    /// Open the logs of a service.
    OpenLogs(String),
    /// Carry out an action.
    Activate(ServiceAction),
    /// Open Tilt's web page.
    OpenWebUi,
}

/// What a key asks for, as mathematics has it.
pub enum CommandView {
    Stay,
    Quit,
    StartTilt,
    StopTilt,
    Trigger(Seq<char>),
    Toggle(model::ServiceView),
    OpenLogs(Seq<char>),
    Activate(model::ActionView),
    OpenWebUi,
}

impl View for Command {
    type V = CommandView;

    open spec fn view(&self) -> CommandView {
        match self {
            Command::Stay => CommandView::Stay,
            Command::Quit => CommandView::Quit,
            Command::StartTilt => CommandView::StartTilt,
            Command::StopTilt => CommandView::StopTilt,
            Command::Trigger(name) => CommandView::Trigger(name@),
            Command::Toggle(service) => CommandView::Toggle(service@),
            Command::OpenLogs(name) => CommandView::OpenLogs(name@),
            Command::Activate(action) => CommandView::Activate(action@),
            Command::OpenWebUi => CommandView::OpenWebUi,
        }
    }
}

/// What a key asks for, and whether Tilt is to be looked at again at once.
#[derive(Debug)]
pub struct KeyOutcome {
    pub command: Command,
    pub refresh: bool,
}

/// The dashboard, and what covers it.
#[derive(Debug)]
pub struct Screen {
    pub model: DashboardModel,
    pub list: ServiceListState,
    pub confirm_down: bool,
    pub show_help: bool,
    pub log_view: Option<LogView>,
    pub picker: Option<ActionPicker>,
    pub pending_action: Option<ServiceAction>,
}

/// The dashboard, and what covers it, as mathematics has it.
pub struct ScreenView {
    pub model: ModelView,
    pub list: list::ListView,
    pub confirm_down: bool,
    pub show_help: bool,
    pub log_view: Option<log_view::LogViewView>,
    pub picker: Option<picker::PickerView>,
    pub pending_action: Option<model::ActionView>,
}

/// The logs that cover the dashboard, if any do.
pub open spec fn logs_of(view: Option<LogView>) -> Option<log_view::LogViewView> {
    match view {
        Some(found) => Some(found@),
        None => None,
    }
}

/// The picker that covers the dashboard, if one does.
pub open spec fn picker_of(picker: Option<ActionPicker>) -> Option<picker::PickerView> {
    match picker {
        Some(found) => Some(found@),
        None => None,
    }
}

/// The action that waits for an answer, if one does.
pub open spec fn pending_of(action: Option<ServiceAction>) -> Option<model::ActionView> {
    match action {
        Some(found) => Some(found@),
        None => None,
    }
}

impl View for Screen {
    type V = ScreenView;

    open spec fn view(&self) -> ScreenView {
        ScreenView {
            model: self.model@,
            list: self.list@,
            confirm_down: self.confirm_down,
            show_help: self.show_help,
            log_view: logs_of(self.log_view),
            picker: picker_of(self.picker),
            pending_action: pending_of(self.pending_action),
        }
    }
}

/// The screen after a key, and what the key asks for.
pub struct KeyStep {
    pub screen: ScreenView,
    pub command: CommandView,
    pub refresh: bool,
}

/// A key that asks for nothing.
pub open spec fn stays(screen: ScreenView) -> KeyStep {
    KeyStep { screen, command: CommandView::Stay, refresh: false }
}

impl ScreenView {
    /// What holds of every screen: the scrollback of the logs is in order, and
    /// an action waits for an answer only while the picker is open.
    pub open spec fn well_formed(self) -> bool {
        &&& self.log_view matches Some(view) ==> view.buffer.well_formed()
        &&& self.pending_action is Some ==> self.picker is Some
    }

    /// A key while the logs cover the dashboard.
    pub open spec fn log_step(self, key: KeyCode, page_size: nat) -> KeyStep {
        let view = self.log_view->0;
        if keys::is_back(key) {
            KeyStep {
                screen: ScreenView { log_view: None, ..self },
                command: CommandView::Stay,
                refresh: true,
            }
        } else {
            stays(
                ScreenView {
                    log_view: Some(
                        log_view::LogViewView {
                            buffer: keys::scrollback_after(view.buffer, key, page_size),
                            ..view
                        },
                    ),
                    ..self
                },
            )
        }
    }

    /// A key while an action waits for an answer.
    pub open spec fn pending_step(self, key: KeyCode) -> KeyStep {
        match keys::decision_of(key) {
            Some(DownConfirmationDecision::Confirm) => KeyStep {
                screen: ScreenView { pending_action: None, ..self },
                command: CommandView::Activate(self.pending_action->0),
                refresh: true,
            },
            Some(DownConfirmationDecision::Cancel) => stays(
                ScreenView { pending_action: None, ..self },
            ),
            None => stays(self),
        }
    }

    /// A key while the picker covers the dashboard.
    pub open spec fn picker_step(self, key: KeyCode) -> KeyStep {
        let open = self.picker->0;
        match open.event(key) {
            picker::PickerEventView::Back => stays(ScreenView { picker: None, ..self }),
            picker::PickerEventView::Activate(action) => if action.must_confirm() {
                stays(ScreenView { pending_action: Some(action), ..self })
            } else {
                KeyStep {
                    screen: self,
                    command: CommandView::Activate(action),
                    refresh: true,
                }
            },
            picker::PickerEventView::Stay => stays(
                ScreenView { picker: Some(open.after(key)), ..self },
            ),
        }
    }

    /// A key while the question is asked whether to stop Tilt.
    pub open spec fn down_step(self, key: KeyCode) -> KeyStep {
        match keys::decision_of(key) {
            Some(DownConfirmationDecision::Confirm) => KeyStep {
                screen: ScreenView { confirm_down: false, ..self },
                command: CommandView::StopTilt,
                refresh: true,
            },
            Some(DownConfirmationDecision::Cancel) => stays(
                ScreenView { confirm_down: false, ..self },
            ),
            None => stays(self),
        }
    }

    /// The key for the actions of a service: the only one is carried out at
    /// once, unless it must be confirmed; otherwise the picker opens.
    pub open spec fn actions_step(self, service: model::ServiceView) -> KeyStep {
        if service.actions.len() == 0 {
            KeyStep {
                screen: ScreenView {
                    model: ModelView {
                        warning: Some(service.name + " has no actions"@),
                        ..self.model
                    },
                    ..self
                },
                command: CommandView::Stay,
                refresh: true,
            }
        } else if service.actions.len() == 1 && !service.actions[0].must_confirm() {
            KeyStep {
                screen: self,
                command: CommandView::Activate(service.actions[0]),
                refresh: true,
            }
        } else {
            KeyStep {
                screen: ScreenView {
                    picker: Some(picker::opened_picker(service.name, service.actions)),
                    ..self
                },
                command: CommandView::Stay,
                refresh: true,
            }
        }
    }

    /// A key for the selected service.
    pub open spec fn service_step(
        self,
        action: SelectedServiceAction,
        service: model::ServiceView,
    ) -> KeyStep {
        match action {
            SelectedServiceAction::Trigger => KeyStep {
                screen: self,
                command: CommandView::Trigger(service.name),
                refresh: true,
            },
            SelectedServiceAction::ToggleEnabled => KeyStep {
                screen: self,
                command: CommandView::Toggle(service),
                refresh: true,
            },
            SelectedServiceAction::Logs => KeyStep {
                screen: self,
                command: CommandView::OpenLogs(service.name),
                refresh: false,
            },
            SelectedServiceAction::Actions => self.actions_step(service),
        }
    }

    /// A key for the dashboard as a whole.
    pub open spec fn control_step(self, key: KeyCode) -> KeyStep {
        if keys::is_back(key) {
            KeyStep { screen: self, command: CommandView::Quit, refresh: false }
        } else if key == KeyCode::Char('u') && self.model.startable() {
            KeyStep { screen: self, command: CommandView::StartTilt, refresh: false }
        } else if key == KeyCode::Char('d') && self.model.stoppable() {
            stays(ScreenView { confirm_down: true, ..self })
        } else if key == KeyCode::Char('r') {
            KeyStep { screen: self, command: CommandView::Stay, refresh: true }
        } else if key == KeyCode::Char('w') {
            KeyStep { screen: self, command: CommandView::OpenWebUi, refresh: false }
        } else {
            stays(self)
        }
    }

    /// A key while nothing covers the dashboard.
    pub open spec fn dashboard_step(self, key: KeyCode) -> KeyStep {
        if self.confirm_down {
            self.down_step(key)
        } else if key == KeyCode::Char('?') {
            stays(ScreenView { show_help: !self.show_help, ..self })
        } else if list::navigation_of(key) is Some || list::is_toggle(key) {
            stays(ScreenView { list: self.list.after(key, self.model.groups), ..self })
        } else if list::service_key(key) is Some && self.list.selected_service(
            self.model.groups,
        ) is Some {
            self.service_step(
                list::service_key(key)->0,
                self.list.selected_service(self.model.groups)->0,
            )
        } else {
            self.control_step(key)
        }
    }

    /// A key.
    pub open spec fn step(self, key: KeyCode, page_size: nat) -> KeyStep {
        if self.log_view is Some {
            self.log_step(key, page_size)
        } else if self.picker is Some {
            if self.pending_action is Some {
                self.pending_step(key)
            } else {
                self.picker_step(key)
            }
        } else {
            self.dashboard_step(key)
        }
    }
}

// ---------------------------------------------------------------------------
// Laws
// ---------------------------------------------------------------------------

/// Keys keep a screen in order.
pub proof fn law_keys_keep_the_screen_well_formed(
    screen: ScreenView,
    key: KeyCode,
    page_size: nat,
)
    requires
        screen.well_formed(),
    ensures
        screen.step(key, page_size).screen.well_formed(),
{
}

/// Tilt is stopped only by a yes to the question whether to stop it.
pub proof fn law_stopping_needs_a_yes(screen: ScreenView, key: KeyCode, page_size: nat)
    requires
        screen.step(key, page_size).command is StopTilt,
    ensures
        screen.confirm_down,
        keys::decision_of(key) == Some(DownConfirmationDecision::Confirm),
{
}

/// The question whether to stop Tilt is asked only where Tilt can be stopped.
pub proof fn law_stopping_is_offered_where_it_can_be(
    screen: ScreenView,
    key: KeyCode,
    page_size: nat,
)
    requires
        !screen.confirm_down,
        screen.step(key, page_size).screen.confirm_down,
    ensures
        screen.model.stoppable(),
        key == KeyCode::Char('d'),
{
}

/// An action that must be confirmed is carried out only by a yes to the
/// question whether to run it.
pub proof fn law_confirmed_actions_need_a_yes(
    screen: ScreenView,
    key: KeyCode,
    page_size: nat,
    action: model::ActionView,
)
    requires
        screen.step(key, page_size).command == CommandView::Activate(action),
        action.must_confirm(),
    ensures
        screen.pending_action == Some(action),
        keys::decision_of(key) == Some(DownConfirmationDecision::Confirm),
{
}

/// While the logs or the picker cover the dashboard, no key reaches it: its
/// list, its help and its question stay, and nothing is started, stopped,
/// rebuilt or closed.
pub proof fn law_what_covers_the_dashboard_takes_the_keys(
    screen: ScreenView,
    key: KeyCode,
    page_size: nat,
)
    requires
        screen.log_view is Some || screen.picker is Some,
    ensures
        ({
            let step = screen.step(key, page_size);
            &&& step.screen.model == screen.model
            &&& step.screen.list == screen.list
            &&& step.screen.show_help == screen.show_help
            &&& step.screen.confirm_down == screen.confirm_down
            &&& step.command is Stay || step.command is Activate
        }),
{
}

/// Asking for the help twice leaves the screen as it was.
pub proof fn law_help_toggles(screen: ScreenView, page_size: nat)
    requires
        screen.log_view is None,
        screen.picker is None,
        !screen.confirm_down,
    ensures
        screen.step(KeyCode::Char('?'), page_size).screen.step(
            KeyCode::Char('?'),
            page_size,
        ).screen == screen,
{
}

// ---------------------------------------------------------------------------
// Keys
// ---------------------------------------------------------------------------

fn outcome(command: Command, refresh: bool) -> (result: KeyOutcome)
    ensures
        result.command == command,
        result.refresh == refresh,
{
    KeyOutcome { command, refresh }
}

impl Screen {
    /// A dashboard that nothing covers.
    pub fn new(model: DashboardModel) -> (screen: Screen)
        ensures
            screen@ == (ScreenView {
                model: model@,
                list: list::ListView { selected: None, collapsed: Set::empty() },
                confirm_down: false,
                show_help: false,
                log_view: None,
                picker: None,
                pending_action: None,
            }),
            screen@.well_formed(),
    {
        Screen {
            model,
            list: ServiceListState::default(),
            confirm_down: false,
            show_help: false,
            log_view: None,
            picker: None,
            pending_action: None,
        }
    }

    /// Whether it is time to look at Tilt again, given how many milliseconds ago
    /// that was last done, if it was. What covers the dashboard holds it off.
    pub fn refresh_due(&self, elapsed_ms: Option<u64>) -> (due: bool)
        ensures
            due == (self@.log_view is None && self@.picker is None && match elapsed_ms {
                Some(elapsed) => elapsed >= REFRESH_INTERVAL_MS,
                None => true,
            }),
    {
        self.log_view.is_none() && self.picker.is_none() && match elapsed_ms {
            Some(elapsed) => elapsed >= REFRESH_INTERVAL_MS,
            None => true,
        }
    }

    /// Fits the list to the services.
    pub fn sync(&mut self)
        ensures
            final(self)@ == (ScreenView {
                list: old(self)@.list.synced(old(self)@.model.groups),
                ..old(self)@
            }),
    {
        self.list.sync(self.model.groups());
    }

    /// Covers the dashboard with the logs of a service.
    pub fn show_logs(&mut self, service_name: String)
        requires
            old(self)@.well_formed(),
        ensures
            final(self)@ == (ScreenView {
                log_view: Some(log_view::opened_logs(service_name@)),
                ..old(self)@
            }),
            final(self)@.well_formed(),
    {
        self.log_view = Some(LogView::open(service_name));
    }

    fn dashboard_key(&mut self, key: KeyCode) -> (result: KeyOutcome)
        requires
            old(self)@.well_formed(),
            old(self)@.log_view is None,
            old(self)@.picker is None,
        ensures
            ({
                let step = old(self)@.dashboard_step(key);
                &&& final(self)@ == step.screen
                &&& result.command@ == step.command
                &&& result.refresh == step.refresh
            }),
    {
        if self.confirm_down {
            return match down_confirmation_decision(key) {
                Some(DownConfirmationDecision::Confirm) => {
                    self.confirm_down = false;
                    outcome(Command::StopTilt, true)
                },
                Some(DownConfirmationDecision::Cancel) => {
                    self.confirm_down = false;
                    outcome(Command::Stay, false)
                },
                None => outcome(Command::Stay, false),
            };
        }
        if toggle_help_for_key(key, &mut self.show_help) {
            return outcome(Command::Stay, false);
        }
        if self.list.handle_key(key, self.model.groups()) {
            return outcome(Command::Stay, false);
        }
        let chosen = match self.list.selected_service_action(key, self.model.groups()) {
            Some((action, service)) => Some((action, service.clone())),
            None => None,
        };
        if let Some((action, service)) = chosen {
            return match action {
                SelectedServiceAction::Trigger => outcome(Command::Trigger(service.name), true),
                SelectedServiceAction::ToggleEnabled => outcome(Command::Toggle(service), true),
                SelectedServiceAction::Logs => outcome(Command::OpenLogs(service.name), false),
                SelectedServiceAction::Actions => self.actions_key(service),
            };
        }
        if key == KeyCode::Char('q') || key == KeyCode::Esc {
            outcome(Command::Quit, false)
        } else if key == KeyCode::Char('u') && self.model.can_start() {
            outcome(Command::StartTilt, false)
        } else if key == KeyCode::Char('d') && self.model.can_stop() {
            self.confirm_down = true;
            outcome(Command::Stay, false)
        } else if key == KeyCode::Char('r') {
            outcome(Command::Stay, true)
        } else if key == KeyCode::Char('w') {
            outcome(Command::OpenWebUi, false)
        } else {
            outcome(Command::Stay, false)
        }
    }

    fn actions_key(&mut self, service: Service) -> (result: KeyOutcome)
        ensures
            ({
                let step = old(self)@.actions_step(service@);
                &&& final(self)@ == step.screen
                &&& result.command@ == step.command
                &&& result.refresh == step.refresh
            }),
    {
        assert(service@.actions.len() == service.actions@.len());
        if service.actions.len() == 0 {
            let mut warning = service.name.clone();
            warning.append(" has no actions");
            self.model.set_warning(warning);
            return outcome(Command::Stay, true);
        }
        assert(service@.actions[0] == service.actions@[0]@);
        if service.actions.len() == 1 && !service.actions[0].requires_confirmation() {
            return outcome(Command::Activate(service.actions[0].clone()), true);
        }
        self.picker = Some(ActionPicker::new(service.name, service.actions));
        outcome(Command::Stay, true)
    }

    fn picker_key(&mut self, key: KeyCode) -> (result: KeyOutcome)
        requires
            old(self)@.picker is Some,
            old(self)@.pending_action is None,
        ensures
            ({
                let step = old(self)@.picker_step(key);
                &&& final(self)@ == step.screen
                &&& result.command@ == step.command
                &&& result.refresh == step.refresh
            }),
    {
        let event = match &mut self.picker {
            Some(open) => open.handle_key(key),
            None => ActionPickerEvent::Stay,
        };
        match event {
            ActionPickerEvent::Back => {
                self.picker = None;
                outcome(Command::Stay, false)
            },
            ActionPickerEvent::Activate(action) => {
                if action.requires_confirmation() {
                    self.pending_action = Some(action);
                    outcome(Command::Stay, false)
                } else {
                    outcome(Command::Activate(action), true)
                }
            },
            ActionPickerEvent::Stay => outcome(Command::Stay, false),
        }
    }

    fn pending_key(&mut self, key: KeyCode) -> (result: KeyOutcome)
        requires
            old(self)@.pending_action is Some,
        ensures
            ({
                let step = old(self)@.pending_step(key);
                &&& final(self)@ == step.screen
                &&& result.command@ == step.command
                &&& result.refresh == step.refresh
            }),
    {
        match down_confirmation_decision(key) {
            Some(DownConfirmationDecision::Confirm) => match self.pending_action.take() {
                Some(action) => outcome(Command::Activate(action), true),
                None => outcome(Command::Stay, false),
            },
            Some(DownConfirmationDecision::Cancel) => {
                self.pending_action = None;
                outcome(Command::Stay, false)
            },
            None => outcome(Command::Stay, false),
        }
    }

    /// Lets a key act on the screen, and says what it asks for.
    pub fn handle_key(&mut self, key: KeyCode, page_size: usize) -> (result: KeyOutcome)
        requires
            old(self)@.well_formed(),
        ensures
            ({
                let step = old(self)@.step(key, page_size as nat);
                &&& final(self)@ == step.screen
                &&& result.command@ == step.command
                &&& result.refresh == step.refresh
            }),
            final(self)@.well_formed(),
    {
        if self.log_view.is_some() {
            let closed = match &mut self.log_view {
                Some(view) => handle_log_key(&mut view.buffer, key, page_size),
                None => false,
            };
            if closed {
                self.log_view = None;
                return outcome(Command::Stay, true);
            }
            return outcome(Command::Stay, false);
        }
        if self.picker.is_some() {
            if self.pending_action.is_some() {
                return self.pending_key(key);
            }
            return self.picker_key(key);
        }
        self.dashboard_key(key)
    }

    /// Takes account of what came through the log streams, where logs are
    /// shown.
    pub fn poll_logs(
        &mut self,
        build_events: &Vec<crate::logs::StreamEvent>,
        runtime_events: &Vec<crate::logs::StreamEvent>,
        build_exited: bool,
        runtime_exited: bool,
    )
        requires
            old(self)@.well_formed(),
        ensures
            final(self)@ == (ScreenView {
                log_view: match old(self)@.log_view {
                    Some(view) => Some(
                        view.after_events(
                            build_events@,
                            runtime_events@,
                            build_exited,
                            runtime_exited,
                        ),
                    ),
                    None => None,
                },
                ..old(self)@
            }),
            final(self)@.well_formed(),
    {
        match &mut self.log_view {
            Some(view) => {
                view.poll(build_events, runtime_events, build_exited, runtime_exited);
            },
            None => {},
        }
    }
}

// ---------------------------------------------------------------------------
// Laws of the keys
// ---------------------------------------------------------------------------

/// Where nothing covers the dashboard and nothing is asked, the keys of a
/// service act on the selected one: t rebuilds it, e toggles it, and l opens its
/// logs. What changes a service asks for another look at Tilt.
pub proof fn law_service_keys_act_on_the_selected_service(
    screen: ScreenView,
    service: model::ServiceView,
    page_size: nat,
)
    requires
        screen.log_view is None,
        screen.picker is None,
        !screen.confirm_down,
        screen.list.selected_service(screen.model.groups) == Some(service),
    ensures
        screen.step(KeyCode::Char('t'), page_size) == (KeyStep {
            screen,
            command: CommandView::Trigger(service.name),
            refresh: true,
        }),
        screen.step(KeyCode::Char('e'), page_size) == (KeyStep {
            screen,
            command: CommandView::Toggle(service),
            refresh: true,
        }),
        screen.step(KeyCode::Char('l'), page_size) == (KeyStep {
            screen,
            command: CommandView::OpenLogs(service.name),
            refresh: false,
        }),
{
}

/// The key for the actions of a service says so where it has none, runs the
/// only one at once unless it must be confirmed, and otherwise opens the picker
/// on all of them.
pub proof fn law_actions_run_or_are_offered(
    screen: ScreenView,
    service: model::ServiceView,
    page_size: nat,
)
    requires
        screen.log_view is None,
        screen.picker is None,
        !screen.confirm_down,
        screen.list.selected_service(screen.model.groups) == Some(service),
    ensures
        ({
            let step = screen.step(KeyCode::Char('a'), page_size);
            let actions = service.actions;
            let at_once = actions.len() == 1 && !actions[0].must_confirm();
            &&& step.refresh
            &&& actions.len() == 0 ==> step.command is Stay && step.screen.picker is None
                && step.screen.model.warning == Some(service.name + " has no actions"@)
            &&& at_once ==> step.command == CommandView::Activate(actions[0]) && step.screen
                == screen
            &&& actions.len() > 0 && !at_once ==> step.command is Stay && step.screen.model
                == screen.model && (step.screen.picker matches Some(open) && open.actions
                == actions && open.service_name == service.name && open.selected == Some(0nat))
        }),
{
}

/// Without a service selected, the keys of a service do nothing.
pub proof fn law_service_keys_need_a_service(screen: ScreenView, page_size: nat)
    requires
        screen.log_view is None,
        screen.picker is None,
        !screen.confirm_down,
        screen.list.selected_service(screen.model.groups) is None,
    ensures
        screen.step(KeyCode::Char('t'), page_size) == stays(screen),
        screen.step(KeyCode::Char('e'), page_size) == stays(screen),
        screen.step(KeyCode::Char('l'), page_size) == stays(screen),
        screen.step(KeyCode::Char('a'), page_size) == stays(screen),
{
}

/// Where nothing covers the dashboard and nothing is asked, u starts Tilt where
/// it can be started, d asks whether to stop it where it can be stopped, r looks
/// at it again, w opens its page, the question mark shows or hides the help,
/// and q and Escape close the dashboard and nothing else.
pub proof fn law_dashboard_keys_do_what_they_say(screen: ScreenView, page_size: nat)
    requires
        screen.log_view is None,
        screen.picker is None,
        !screen.confirm_down,
    ensures
        screen.model.startable() ==> screen.step(KeyCode::Char('u'), page_size) == (KeyStep {
            screen,
            command: CommandView::StartTilt,
            refresh: false,
        }),
        !screen.model.startable() ==> screen.step(KeyCode::Char('u'), page_size) == stays(screen),
        screen.model.stoppable() ==> screen.step(KeyCode::Char('d'), page_size) == stays(
            ScreenView { confirm_down: true, ..screen },
        ),
        !screen.model.stoppable() ==> screen.step(KeyCode::Char('d'), page_size) == stays(screen),
        screen.step(KeyCode::Char('r'), page_size) == (KeyStep {
            screen,
            command: CommandView::Stay,
            refresh: true,
        }),
        screen.step(KeyCode::Char('w'), page_size) == (KeyStep {
            screen,
            command: CommandView::OpenWebUi,
            refresh: false,
        }),
        screen.step(KeyCode::Char('?'), page_size) == stays(
            ScreenView { show_help: !screen.show_help, ..screen },
        ),
        screen.step(KeyCode::Char('q'), page_size) == (KeyStep {
            screen,
            command: CommandView::Quit,
            refresh: false,
        }),
        screen.step(KeyCode::Esc, page_size) == (KeyStep {
            screen,
            command: CommandView::Quit,
            refresh: false,
        }),
        screen.step(KeyCode::Other, page_size) == stays(screen),
{
}

/// Where nothing covers the dashboard and nothing is asked, the keys of the list
/// act on the list, and on nothing else.
pub proof fn law_list_keys_act_on_the_list(screen: ScreenView, key: KeyCode, page_size: nat)
    requires
        screen.log_view is None,
        screen.picker is None,
        !screen.confirm_down,
        key == KeyCode::Up || key == KeyCode::Down || key == KeyCode::PageUp || key
            == KeyCode::PageDown || key == KeyCode::Home || key == KeyCode::End || key
            == KeyCode::Enter || key == KeyCode::Char(' ') || key == KeyCode::Char('j') || key
            == KeyCode::Char('k'),
    ensures
        screen.step(key, page_size) == stays(
            ScreenView { list: screen.list.after(key, screen.model.groups), ..screen },
        ),
{
}

/// A key that asks for nothing has no command and asks for no other look.
pub proof fn law_staying_asks_for_nothing(screen: ScreenView)
    ensures
        stays(screen).screen == screen,
        stays(screen).command is Stay,
        !stays(screen).refresh,
{
}

/// While it is asked whether to stop Tilt, a yes stops it and looks again, a no
/// drops the question, and any other key leaves it.
pub proof fn law_the_question_to_stop_is_answered(
    screen: ScreenView,
    key: KeyCode,
    page_size: nat,
)
    requires
        screen.log_view is None,
        screen.picker is None,
        screen.confirm_down,
    ensures
        ({
            let step = screen.step(key, page_size);
            let yes = key == KeyCode::Char('y') || key == KeyCode::Char('Y');
            let no = key == KeyCode::Char('n') || key == KeyCode::Char('N');
            &&& yes ==> step.command is StopTilt && step.refresh && step.screen == (ScreenView {
                confirm_down: false,
                ..screen
            })
            &&& no ==> step == stays(ScreenView { confirm_down: false, ..screen })
            &&& !yes && !no ==> step == stays(screen)
        }),
{
}

/// While it is asked whether to run an action, a yes runs that action and looks
/// again, a no drops the question, and any other key leaves it.
pub proof fn law_the_question_to_run_is_answered(
    screen: ScreenView,
    key: KeyCode,
    page_size: nat,
    action: model::ActionView,
)
    requires
        screen.log_view is None,
        screen.picker is Some,
        screen.pending_action == Some(action),
    ensures
        ({
            let step = screen.step(key, page_size);
            let yes = key == KeyCode::Char('y') || key == KeyCode::Char('Y');
            let no = key == KeyCode::Char('n') || key == KeyCode::Char('N');
            &&& yes ==> step.command == CommandView::Activate(action) && step.refresh
                && step.screen == (ScreenView { pending_action: None, ..screen })
            &&& no ==> step == stays(ScreenView { pending_action: None, ..screen })
            &&& !yes && !no ==> step == stays(screen)
        }),
{
}

/// In the picker, Enter and the space bar run the selected action, or ask first
/// where it must be confirmed; q and Escape close the picker, and the keys of
/// the picker move it.
pub proof fn law_picker_keys_run_or_ask(
    screen: ScreenView,
    key: KeyCode,
    page_size: nat,
    place: nat,
)
    requires
        screen.log_view is None,
        screen.pending_action is None,
        screen.picker is Some,
        screen.picker->0.selected == Some(place),
        place < screen.picker->0.actions.len(),
    ensures
        ({
            let step = screen.step(key, page_size);
            let action = screen.picker->0.actions[place as int];
            let activates = key == KeyCode::Enter || key == KeyCode::Char(' ');
            let leaves = key == KeyCode::Char('q') || key == KeyCode::Esc;
            &&& activates && action.must_confirm() ==> step == stays(
                ScreenView { pending_action: Some(action), ..screen },
            )
            &&& activates && !action.must_confirm() ==> step == (KeyStep {
                screen,
                command: CommandView::Activate(action),
                refresh: true,
            })
            &&& leaves ==> step == stays(ScreenView { picker: None, ..screen })
            &&& !activates && !leaves ==> step == stays(
                ScreenView { picker: Some(screen.picker->0.after(key)), ..screen },
            )
        }),
{
}

/// In the log view, q and Escape close it and look at Tilt again; any other key
/// acts on the records, and on nothing else.
pub proof fn law_log_keys_act_on_the_records(screen: ScreenView, key: KeyCode, page_size: nat)
    requires
        screen.log_view is Some,
    ensures
        ({
            let step = screen.step(key, page_size);
            let view = screen.log_view->0;
            let leaves = key == KeyCode::Char('q') || key == KeyCode::Esc;
            &&& step.command is Stay
            &&& leaves ==> step.refresh && step.screen == (ScreenView { log_view: None, ..screen })
            &&& !leaves ==> !step.refresh && step.screen == (ScreenView {
                log_view: Some(
                    log_view::LogViewView {
                        buffer: keys::scrollback_after(view.buffer, key, page_size),
                        ..view
                    },
                ),
                ..screen
            })
        }),
{
}

/// Tilt is looked at once a second.
pub proof fn law_tilt_is_looked_at_once_a_second()
    ensures
        REFRESH_INTERVAL_MS == 1000,
{
}

} // verus!
