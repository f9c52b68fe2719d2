//! Choosing one of the actions of a service.

use vstd::prelude::*;

use crate::order;
use crate::tilt::model;
use crate::tilt::model::ServiceAction;
use crate::tui::keys;
use crate::tui::keys::KeyCode;

verus! {

/// What a key does to the picker.
#[derive(Debug, PartialEq, Eq)]
pub enum ActionPickerEvent {
    Stay,
    Back,
    Activate(ServiceAction),
}

/// What a key does to the picker, as mathematics has it.
pub enum PickerEventView {
    Stay,
    Back,
    Activate(model::ActionView),
}

impl View for ActionPickerEvent {
    type V = PickerEventView;

    open spec fn view(&self) -> PickerEventView {
        match self {
            ActionPickerEvent::Stay => PickerEventView::Stay,
            ActionPickerEvent::Back => PickerEventView::Back,
            ActionPickerEvent::Activate(action) => PickerEventView::Activate(action@),
        }
    }
}

/// The actions of a service, one of them selected.
#[derive(Debug)]
pub struct ActionPicker {
    pub service_name: String,
    pub actions: Vec<ServiceAction>,
    pub selected: Option<usize>,
}

/// The actions of a service, one of them selected, as mathematics has it.
pub struct PickerView {
    pub service_name: Seq<char>,
    pub actions: Seq<model::ActionView>,
    pub selected: Option<nat>,
}

/// A place in a list, as a number without bounds.
pub open spec fn place_of(selected: Option<usize>) -> Option<nat> {
    match selected {
        Some(place) => Some(place as nat),
        None => None,
    }
}

/// A place in a list, the first where there is none.
pub open spec fn place_or_first(selected: Option<nat>) -> nat {
    match selected {
        Some(place) => place,
        None => 0,
    }
}

impl View for ActionPicker {
    type V = PickerView;

    open spec fn view(&self) -> PickerView {
        PickerView {
            service_name: self.service_name@,
            actions: order::views(self.actions@),
            selected: place_of(self.selected),
        }
    }
}

/// A picker that has just been opened: the first action is selected.
pub open spec fn opened_picker(
    service_name: Seq<char>,
    actions: Seq<model::ActionView>,
) -> PickerView {
    PickerView {
        service_name,
        actions,
        selected: if actions.len() > 0 {
            Some(0)
        } else {
            None
        },
    }
}

impl PickerView {
    /// The selected action, if there is one.
    pub open spec fn chosen(self) -> Option<model::ActionView> {
        match self.selected {
            Some(place) => if place < self.actions.len() {
                Some(self.actions[place as int])
            } else {
                None
            },
            None => None,
        }
    }

    /// The selection moved up by one, as far as there is room.
    pub open spec fn moved_up(self) -> PickerView {
        let place = place_or_first(self.selected);
        PickerView {
            selected: Some(
                if place > 0 {
                    (place - 1) as nat
                } else {
                    0
                },
            ),
            ..self
        }
    }

    /// The selection moved down by one, as far as there is room.
    pub open spec fn moved_down(self) -> PickerView {
        let last = if self.actions.len() > 0 {
            (self.actions.len() - 1) as nat
        } else {
            0
        };
        let next = place_or_first(self.selected) + 1;
        PickerView {
            selected: Some(
                if next <= last {
                    next
                } else {
                    last
                },
            ),
            ..self
        }
    }

    /// The picker after a key.
    pub open spec fn after(self, key: KeyCode) -> PickerView {
        if key == KeyCode::Up || key == KeyCode::Char('k') {
            self.moved_up()
        } else if key == KeyCode::Down || key == KeyCode::Char('j') {
            self.moved_down()
        } else {
            self
        }
    }

    /// What a key does.
    pub open spec fn event(self, key: KeyCode) -> PickerEventView {
        if keys::is_back(key) {
            PickerEventView::Back
        } else if key == KeyCode::Enter || key == KeyCode::Char(' ') {
            match self.chosen() {
                Some(action) => PickerEventView::Activate(action),
                None => PickerEventView::Stay,
            }
        } else {
            PickerEventView::Stay
        }
    }
}

/// Moving the selection keeps it on an action.
pub proof fn law_selection_stays_on_an_action(picker: PickerView, key: KeyCode)
    requires
        picker.chosen() is Some,
    ensures
        picker.after(key).chosen() is Some,
{
}

impl ActionPicker {
    /// A picker of the actions of a service, the first of them selected.
    pub fn new(service_name: String, actions: Vec<ServiceAction>) -> (picker: ActionPicker)
        ensures
            picker@ == opened_picker(service_name@, order::views(actions@)),
    {
        let selected: Option<usize> = if actions.len() > 0 {
            Some(0)
        } else {
            None
        };
        ActionPicker { service_name, actions, selected }
    }

    /// The selected action, if there is one.
    pub fn selected(&self) -> (action: Option<&ServiceAction>)
        ensures
            match action {
                Some(found) => self@.chosen() == Some(found@),
                None => self@.chosen() is None,
            },
    {
        match self.selected {
            Some(place) => {
                if place < self.actions.len() {
                    assert(self@.actions[place as int] == self.actions@[place as int]@);
                    Some(&self.actions[place])
                } else {
                    None
                }
            },
            None => None,
        }
    }

    /// Lets a key act on the picker.
    pub fn handle_key(&mut self, key: KeyCode) -> (event: ActionPickerEvent)
        ensures
            event@ == old(self)@.event(key),
            final(self)@ == old(self)@.after(key),
    {
        let place: usize = match self.selected {
            Some(place) => place,
            None => 0,
        };
        if key == KeyCode::Char('q') || key == KeyCode::Esc {
            return ActionPickerEvent::Back;
        }
        if key == KeyCode::Up || key == KeyCode::Char('k') {
            self.selected = Some(place.saturating_sub(1));
        } else if key == KeyCode::Down || key == KeyCode::Char('j') {
            let last: usize = self.actions.len().saturating_sub(1);
            self.selected = Some(
                if place < last {
                    place + 1
                } else {
                    last
                },
            );
        } else if key == KeyCode::Enter || key == KeyCode::Char(' ') {
            return match self.selected() {
                Some(action) => ActionPickerEvent::Activate(action.clone()),
                None => ActionPickerEvent::Stay,
            };
        }
        ActionPickerEvent::Stay
    }
}

/// A picker opens with the first action selected, and with all actions of the
/// service in their order.
pub proof fn law_pickers_open_at_the_first_action(
    service_name: Seq<char>,
    actions: Seq<model::ActionView>,
)
    ensures
        ({
            let picker = opened_picker(service_name, actions);
            &&& picker.service_name == service_name
            &&& picker.actions == actions
            &&& actions.len() > 0 ==> picker.chosen() == Some(actions[0])
            &&& actions.len() == 0 ==> picker.chosen() is None
            &&& picker.selected is Some <==> actions.len() > 0
            &&& picker.selected matches Some(place) ==> place == 0
        }),
{
}

/// Up and down move the selection by one action, up to the first and down to
/// the last, and no other key moves it.
pub proof fn law_picker_keys_move_by_one(picker: PickerView, key: KeyCode, place: nat)
    requires
        picker.selected == Some(place),
        place < picker.actions.len(),
    ensures
        ({
            let after = picker.after(key);
            let up = key == KeyCode::Up || key == KeyCode::Char('k');
            let down = key == KeyCode::Down || key == KeyCode::Char('j');
            &&& after.actions == picker.actions && after.service_name == picker.service_name
            &&& up && place > 0 ==> after.selected == Some((place - 1) as nat)
            &&& up && place == 0 ==> after.selected == Some(0nat)
            &&& down && place + 1 < picker.actions.len() ==> after.selected == Some(place + 1)
            &&& down && place + 1 == picker.actions.len() ==> after.selected == Some(place)
            &&& !up && !down ==> after == picker
        }),
{
}

/// Enter and the space bar activate the selected action, q and Escape go back,
/// and no other key does either.
pub proof fn law_picker_keys_activate_and_go_back(picker: PickerView, key: KeyCode, place: nat)
    requires
        picker.selected == Some(place),
        place < picker.actions.len(),
    ensures
        picker.event(key) == PickerEventView::Activate(picker.actions[place as int]) <==> key
            == KeyCode::Enter || key == KeyCode::Char(' '),
        picker.event(key) is Activate ==> picker.event(key) == PickerEventView::Activate(
            picker.actions[place as int],
        ),
        picker.event(key) is Back <==> key == KeyCode::Char('q') || key == KeyCode::Esc,
{
}

/// A picker without actions activates none, whatever is pressed, and only its
/// keys for going back do anything: q and Escape.
pub proof fn law_empty_pickers_only_go_back(picker: PickerView, key: KeyCode)
    requires
        picker.actions.len() == 0,
    ensures
        picker.event(key) !is Activate,
        picker.event(key) is Back <==> key == KeyCode::Char('q') || key == KeyCode::Esc,
        picker.after(key).actions.len() == 0,
        picker.after(key).chosen() is None,
{
}

/// Where nothing is selected, up and down count from the first action: up
/// selects it, down the one behind it, or the first where there is no other.
/// The keys that activate do nothing then.
pub proof fn law_moving_starts_at_the_first_action(picker: PickerView, key: KeyCode)
    requires
        picker.selected is None,
    ensures
        ({
            let after = picker.after(key);
            let up = key == KeyCode::Up || key == KeyCode::Char('k');
            let down = key == KeyCode::Down || key == KeyCode::Char('j');
            &&& up ==> after.selected == Some(0nat)
            &&& down && picker.actions.len() >= 2 ==> after.selected == Some(1nat)
            &&& down && picker.actions.len() < 2 ==> after.selected == Some(0nat)
            &&& !up && !down ==> after.selected is None
            &&& after.actions == picker.actions && after.service_name == picker.service_name
            &&& picker.event(key) !is Activate
        }),
{
}

} // verus!
