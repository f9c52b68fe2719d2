//! Services, their groups, and their actions.

use vstd::prelude::*;

use crate::order;
use crate::order::Ranked;

verus! {

/// The color of a status circle.
#[derive(Clone, Copy, Debug, PartialEq, Eq, Structural)]
pub enum CircleStatus {
    /// Healthy.
    Green,
    /// Building, queued, pending, or with a warning.
    Orange,
    /// With an update, build, or runtime error.
    Red,
    /// Disabled, inactive, stopped, or unknown.
    Grey,
}

/// The value a button sends for one of its inputs.
#[allow(inconsistent_fields)]
#[derive(Debug, PartialEq, Eq)]
pub enum UIButtonInputValue {
    Text { name: String, value: String },
    Bool { name: String, value: bool },
    Hidden { name: String, value: String },
    Choice { name: String, value: String },
}

/// The value of an input, as mathematics has it.
#[allow(inconsistent_fields)]
pub enum InputView {
    Text { name: Seq<char>, value: Seq<char> },
    Bool { name: Seq<char>, value: bool },
    Hidden { name: Seq<char>, value: Seq<char> },
    Choice { name: Seq<char>, value: Seq<char> },
}

impl View for UIButtonInputValue {
    type V = InputView;

    open spec fn view(&self) -> InputView {
        match self {
            UIButtonInputValue::Text { name, value } => InputView::Text {
                name: name@,
                value: value@,
            },
            UIButtonInputValue::Bool { name, value } => InputView::Bool {
                name: name@,
                value: *value,
            },
            UIButtonInputValue::Hidden { name, value } => InputView::Hidden {
                name: name@,
                value: value@,
            },
            UIButtonInputValue::Choice { name, value } => InputView::Choice {
                name: name@,
                value: value@,
            },
        }
    }
}

impl Clone for UIButtonInputValue {
    fn clone(&self) -> (copy: Self)
        ensures
            copy@ == self@,
    {
        match self {
            UIButtonInputValue::Text { name, value } => UIButtonInputValue::Text {
                name: name.clone(),
                value: value.clone(),
            },
            UIButtonInputValue::Bool { name, value } => UIButtonInputValue::Bool {
                name: name.clone(),
                value: *value,
            },
            UIButtonInputValue::Hidden { name, value } => UIButtonInputValue::Hidden {
                name: name.clone(),
                value: value.clone(),
            },
            UIButtonInputValue::Choice { name, value } => UIButtonInputValue::Choice {
                name: name.clone(),
                value: value.clone(),
            },
        }
    }
}

/// Something that can be done to a service.
#[derive(Debug, PartialEq, Eq)]
pub enum ServiceAction {
    /// Open an endpoint of the service.
    Link { label: String, url: String },
    /// Press a button of Tilt's.
    Button {
        name: String,
        label: String,
        requires_confirmation: bool,
        inputs: Vec<UIButtonInputValue>,
    },
}

/// Something that can be done to a service, as mathematics has it.
pub enum ActionView {
    Link { label: Seq<char>, url: Seq<char> },
    Button {
        name: Seq<char>,
        label: Seq<char>,
        requires_confirmation: bool,
        inputs: Seq<InputView>,
    },
}

impl ActionView {
    /// The title of the action.
    pub open spec fn title(self) -> Seq<char> {
        match self {
            ActionView::Link { label, .. } => label,
            ActionView::Button { label, .. } => label,
        }
    }

    /// Whether the action must be confirmed.
    pub open spec fn must_confirm(self) -> bool {
        match self {
            ActionView::Link { .. } => false,
            ActionView::Button { requires_confirmation, .. } => requires_confirmation,
        }
    }
}

impl View for ServiceAction {
    type V = ActionView;

    open spec fn view(&self) -> ActionView {
        match self {
            ServiceAction::Link { label, url } => ActionView::Link { label: label@, url: url@ },
            ServiceAction::Button { name, label, requires_confirmation, inputs } => {
                ActionView::Button {
                    name: name@,
                    label: label@,
                    requires_confirmation: *requires_confirmation,
                    inputs: order::views(inputs@),
                }
            },
        }
    }
}

/// Copies a list item by item.
pub fn copied<T: Clone + View>(items: &Vec<T>) -> (copies: Vec<T>)
    requires
        forall|item: T, copy: T| #[trigger] call_ensures(T::clone, (&item,), copy) ==> copy@
            == item@,
        forall|item: &T| #[trigger] call_requires(T::clone, (item,)),
    ensures
        order::views(copies@) == order::views(items@),
{
    let mut copies: Vec<T> = Vec::new();
    let mut index: usize = 0;
    while index < items.len()
        invariant
            index <= items@.len(),
            forall|item: T, copy: T| #[trigger] call_ensures(T::clone, (&item,), copy) ==> copy@
                == item@,
            forall|item: &T| #[trigger] call_requires(T::clone, (item,)),
            order::views(copies@) == order::views(items@).take(index as int),
        decreases items@.len() - index,
    {
        let ghost before = copies@;
        let copy = items[index].clone();
        copies.push(copy);
        proof {
            assert(order::views(copies@) =~= order::views(before).push(copy@));
            assert(order::views(items@).take(index + 1) =~= order::views(items@).take(
                index as int,
            ).push(items@[index as int]@));
        }
        index += 1;
    }
    assert(order::views(items@).take(items@.len() as int) =~= order::views(items@));
    copies
}

impl Clone for ServiceAction {
    fn clone(&self) -> (copy: Self)
        ensures
            copy@ == self@,
    {
        match self {
            ServiceAction::Link { label, url } => ServiceAction::Link {
                label: label.clone(),
                url: url.clone(),
            },
            ServiceAction::Button { name, label, requires_confirmation, inputs } => {
                ServiceAction::Button {
                    name: name.clone(),
                    label: label.clone(),
                    requires_confirmation: *requires_confirmation,
                    inputs: copied(inputs),
                }
            },
        }
    }
}

/// The title of an action.
pub fn action_label(action: &ServiceAction) -> (label: &str)
    ensures
        label@ == action@.title(),
{
    match action {
        ServiceAction::Link { label, .. } => label.as_str(),
        ServiceAction::Button { label, .. } => label.as_str(),
    }
}

impl ServiceAction {
    /// The title of the action.
    pub fn label(&self) -> (label: &str)
        ensures
            label@ == self@.title(),
    {
        action_label(self)
    }

    /// Whether the action must be confirmed.
    pub fn requires_confirmation(&self) -> (required: bool)
        ensures
            required == self@.must_confirm(),
    {
        match self {
            ServiceAction::Link { .. } => false,
            ServiceAction::Button { requires_confirmation, .. } => *requires_confirmation,
        }
    }
}

/// An action goes by its label, and only a button that says so must be
/// confirmed.
pub proof fn law_actions_go_by_their_label(
    name: Seq<char>,
    label: Seq<char>,
    url: Seq<char>,
    asks: bool,
    inputs: Seq<InputView>,
)
    ensures
        (ActionView::Link { label, url }).title() == label,
        !(ActionView::Link { label, url }).must_confirm(),
        (ActionView::Button { name, label, requires_confirmation: asks, inputs }).title() == label,
        (ActionView::Button { name, label, requires_confirmation: asks, inputs }).must_confirm()
            == asks,
{
}

/// Whether one action's title does not come after another's.
pub open spec fn action_order() -> spec_fn(ActionView, ActionView) -> bool {
    order::rank_order::<ServiceAction>()
}

impl Ranked for ServiceAction {
    open spec fn ranks(left: ActionView, right: ActionView) -> bool {
        order::text_le(left.title(), right.title())
    }

    fn not_after(&self, other: &Self) -> (ordered: bool) {
        order::text_not_after(self.label(), other.label())
    }
}

/// The order of actions by title is total and transitive.
pub proof fn lemma_action_order()
    ensures
        order::is_total_preorder(action_order()),
{
    let le = action_order();
    assert forall|left: ActionView, right: ActionView| #[trigger] le(left, right) || le(
        right,
        left,
    ) by {
        order::law_text_order_is_total(left.title(), right.title());
    }
    assert forall|first: ActionView, second: ActionView, third: ActionView|
        #[trigger] le(first, second) && #[trigger] le(second, third) implies le(first, third) by {
        order::law_text_order_is_transitive(first.title(), second.title(), third.title());
    }
}

/// A service of Tilt's.
#[derive(Debug, PartialEq, Eq)]
pub struct Service {
    pub name: String,
    pub status: CircleStatus,
    pub detail: String,
    pub disabled: bool,
    pub actions: Vec<ServiceAction>,
}

/// A service, as mathematics has it.
pub struct ServiceView {
    pub name: Seq<char>,
    pub status: CircleStatus,
    pub detail: Seq<char>,
    pub disabled: bool,
    pub actions: Seq<ActionView>,
}

impl View for Service {
    type V = ServiceView;

    open spec fn view(&self) -> ServiceView {
        ServiceView {
            name: self.name@,
            status: self.status,
            detail: self.detail@,
            disabled: self.disabled,
            actions: order::views(self.actions@),
        }
    }
}

impl Clone for Service {
    fn clone(&self) -> (copy: Self)
        ensures
            copy@ == self@,
    {
        Service {
            name: self.name.clone(),
            status: self.status,
            detail: self.detail.clone(),
            disabled: self.disabled,
            actions: copied(&self.actions),
        }
    }
}

/// Services under one heading.
#[derive(Debug, PartialEq, Eq)]
pub struct ResourceGroup {
    pub name: String,
    pub status: CircleStatus,
    pub services: Vec<Service>,
}

/// Services under one heading, as mathematics has it.
pub struct GroupView {
    pub name: Seq<char>,
    pub status: CircleStatus,
    pub services: Seq<ServiceView>,
}

impl View for ResourceGroup {
    type V = GroupView;

    open spec fn view(&self) -> GroupView {
        GroupView {
            name: self.name@,
            status: self.status,
            services: order::views(self.services@),
        }
    }
}

impl Clone for ResourceGroup {
    fn clone(&self) -> (copy: Self)
        ensures
            copy@ == self@,
    {
        ResourceGroup {
            name: self.name.clone(),
            status: self.status,
            services: copied(&self.services),
        }
    }
}

/// All that one look at Tilt shows.
#[derive(Debug, PartialEq, Eq)]
pub struct DashboardSnapshot {
    pub services: Vec<Service>,
    pub groups: Vec<ResourceGroup>,
    pub tiltfile_error: Option<String>,
}

/// All that one look at Tilt shows, as mathematics has it.
pub struct SnapshotView {
    pub services: Seq<ServiceView>,
    pub groups: Seq<GroupView>,
    pub tiltfile_error: Option<Seq<char>>,
}

/// The text that an optional string holds.
pub open spec fn optional_text(value: Option<String>) -> Option<Seq<char>> {
    match value {
        Some(content) => Some(content@),
        None => None,
    }
}

/// Copies an optional string.
pub fn optional_copy(value: &Option<String>) -> (copy: Option<String>)
    ensures
        copy == *value,
{
    match value {
        Some(content) => Some(content.clone()),
        None => None,
    }
}

impl View for DashboardSnapshot {
    type V = SnapshotView;

    open spec fn view(&self) -> SnapshotView {
        SnapshotView {
            services: order::views(self.services@),
            groups: order::views(self.groups@),
            tiltfile_error: optional_text(self.tiltfile_error),
        }
    }
}

impl Clone for DashboardSnapshot {
    fn clone(&self) -> (copy: Self)
        ensures
            copy@ == self@,
    {
        DashboardSnapshot {
            services: copied(&self.services),
            groups: copied(&self.groups),
            tiltfile_error: optional_copy(&self.tiltfile_error),
        }
    }
}

impl Default for DashboardSnapshot {
    fn default() -> (snapshot: Self)
        ensures
            snapshot@ == (SnapshotView {
                services: Seq::empty(),
                groups: Seq::empty(),
                tiltfile_error: None,
            }),
    {
        let snapshot = DashboardSnapshot {
            services: Vec::new(),
            groups: Vec::new(),
            tiltfile_error: None,
        };
        assert(snapshot@.services =~= Seq::<ServiceView>::empty());
        assert(snapshot@.groups =~= Seq::<GroupView>::empty());
        snapshot
    }
}

/// What Tilt says of the session it runs.
#[derive(Debug, PartialEq, Eq)]
pub struct SessionIdentity {
    pub tiltfile: String,
    pub pid: u32,
    pub start_time: String,
}

impl Clone for SessionIdentity {
    fn clone(&self) -> (copy: Self)
        ensures
            copy == *self,
    {
        SessionIdentity {
            tiltfile: self.tiltfile.clone(),
            pid: self.pid,
            start_time: self.start_time.clone(),
        }
    }
}

} // verus!
