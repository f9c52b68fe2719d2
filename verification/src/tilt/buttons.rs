//! From the buttons that Tilt reports to the actions of services.

use vstd::prelude::*;

use crate::order;
use crate::text;
use crate::tilt::model;
use crate::tilt::model::{
    copied, DashboardSnapshot, ResourceGroup, Service, ServiceAction, UIButtonInputValue,
};
use crate::tilt::resources::Metadata;

verus! {

// ---------------------------------------------------------------------------
// What Tilt reports
// ---------------------------------------------------------------------------

/// The buttons that Tilt reports.
#[derive(Debug)]
pub struct UIButtonList {
    pub items: Vec<UIButton>,
}

/// A button that Tilt reports.
#[derive(Debug)]
pub struct UIButton {
    pub metadata: Metadata,
    pub spec: UIButtonSpec,
}

/// What a button does and where it stands.
#[derive(Debug)]
pub struct UIButtonSpec {
    pub disabled: bool,
    pub text: String,
    pub requires_confirmation: bool,
    pub location: UIButtonLocation,
    pub inputs: Vec<UIButtonInput>,
}

/// Where a button stands.
#[derive(Debug)]
pub struct UIButtonLocation {
    pub component_id: String,
    pub component_type: String,
}

/// An input of a button.
#[derive(Debug)]
pub struct UIButtonInput {
    pub name: String,
    pub text: Option<TextInput>,
    pub boolean: Option<BoolInput>,
    pub hidden: Option<HiddenInput>,
    pub choice: Option<ChoiceInput>,
}

/// An input of a text.
#[derive(Debug)]
pub struct TextInput {
    pub default_value: String,
}

/// An input of yes or no.
#[derive(Debug)]
pub struct BoolInput {
    pub default_value: bool,
}

/// An input that is not shown.
#[derive(Debug)]
pub struct HiddenInput {
    pub value: String,
}

/// An input of one of several texts.
#[derive(Debug)]
pub struct ChoiceInput {
    pub choices: Vec<String>,
}

// ---------------------------------------------------------------------------
// Inputs
// ---------------------------------------------------------------------------

/// The value that an input has before anyone touches it: that of the first of
/// text, yes or no, hidden value and choice that the input has. A choice of
/// nothing has no value.
pub open spec fn default_of(input: UIButtonInput) -> Option<model::InputView> {
    if input.text is Some {
        Some(
            model::InputView::Text { name: input.name@, value: input.text->0.default_value@ },
        )
    } else if input.boolean is Some {
        Some(
            model::InputView::Bool { name: input.name@, value: input.boolean->0.default_value },
        )
    } else if input.hidden is Some {
        Some(model::InputView::Hidden { name: input.name@, value: input.hidden->0.value@ })
    } else if input.choice is Some && input.choice->0.choices@.len() > 0 {
        Some(model::InputView::Choice { name: input.name@, value: input.choice->0.choices@[0]@ })
    } else {
        None
    }
}

/// The value of an input, if it has one.
pub open spec fn input_view(value: Option<UIButtonInputValue>) -> Option<model::InputView> {
    match value {
        Some(found) => Some(found@),
        None => None,
    }
}

/// The value that an input has before anyone touches it.
pub fn default_input_value(input: &UIButtonInput) -> (value: Option<UIButtonInputValue>)
    ensures
        input_view(value) == default_of(*input),
        input.text matches Some(field) ==> value matches Some(
            UIButtonInputValue::Text { name, value: given },
        ) && name@ == input.name@ && given@ == field.default_value@,
        input.text is None ==> (input.boolean matches Some(field) ==> value matches Some(
            UIButtonInputValue::Bool { name, value: given },
        ) && name@ == input.name@ && given == field.default_value),
        input.text is None && input.boolean is None ==> (input.hidden matches Some(field)
            ==> value matches Some(UIButtonInputValue::Hidden { name, value: given }) && name@
            == input.name@ && given@ == field.value@),
        input.text is None && input.boolean is None && input.hidden is None ==> (
        input.choice matches Some(field) ==> if field.choices@.len() > 0 {
            value matches Some(UIButtonInputValue::Choice { name, value: given }) && name@
                == input.name@ && given@ == field.choices@[0]@
        } else {
            value is None
        }),
        input.text is None && input.boolean is None && input.hidden is None && input.choice is None
            ==> value is None,
{
    if let Some(field) = &input.text {
        return Some(
            UIButtonInputValue::Text {
                name: input.name.clone(),
                value: field.default_value.clone(),
            },
        );
    }
    if let Some(field) = &input.boolean {
        return Some(
            UIButtonInputValue::Bool { name: input.name.clone(), value: field.default_value },
        );
    }
    if let Some(field) = &input.hidden {
        return Some(
            UIButtonInputValue::Hidden { name: input.name.clone(), value: field.value.clone() },
        );
    }
    match &input.choice {
        Some(field) => {
            if field.choices.len() == 0 {
                return None;
            }
            Some(
                UIButtonInputValue::Choice {
                    name: input.name.clone(),
                    value: field.choices[0].clone(),
                },
            )
        },
        None => None,
    }
}

/// The values of inputs before anyone touches them, without those that have
/// none.
pub open spec fn defaults_of(inputs: Seq<UIButtonInput>) -> Seq<model::InputView>
    decreases inputs.len(),
{
    if inputs.len() == 0 {
        Seq::empty()
    } else {
        let front = defaults_of(inputs.drop_last());
        match default_of(inputs.last()) {
            Some(value) => front.push(value),
            None => front,
        }
    }
}

fn default_input_values(inputs: &Vec<UIButtonInput>) -> (values: Vec<UIButtonInputValue>)
    ensures
        order::views(values@) == defaults_of(inputs@),
{
    let mut values: Vec<UIButtonInputValue> = Vec::new();
    let mut index: usize = 0;
    assert(order::views(values@) =~= defaults_of(inputs@.take(0)));
    while index < inputs.len()
        invariant
            index <= inputs@.len(),
            order::views(values@) == defaults_of(inputs@.take(index as int)),
        decreases inputs@.len() - index,
    {
        assert(inputs@.take(index + 1).drop_last() =~= inputs@.take(index as int));
        let ghost before = values@;
        if let Some(value) = default_input_value(&inputs[index]) {
            values.push(value);
            assert(order::views(values@) =~= order::views(before).push(value@));
        }
        index += 1;
    }
    assert(inputs@.take(inputs@.len() as int) =~= inputs@);
    values
}

// ---------------------------------------------------------------------------
// Actions
// ---------------------------------------------------------------------------

/// Whether a button is one that Tilt has for every resource: those have keys of
/// their own.
pub open spec fn is_built_in(button: UIButton) -> bool {
    exists|i: int|
        0 <= i < button.metadata.annotations@.len()
            && (#[trigger] button.metadata.annotations@[i]).0@ == "tilt.dev/uibutton-type"@ && (
        button.metadata.annotations@[i].1@ == "StopBuild"@
            || button.metadata.annotations@[i].1@ == "DisableToggle"@)
}

/// Whether a button is offered as an action of a service.
pub open spec fn is_offered(button: UIButton) -> bool {
    &&& !button.spec.disabled
    &&& button.spec.location.component_type@ == "Resource"@
    &&& button.spec.location.component_id@.len() > 0
    &&& !is_built_in(button)
}

/// Whether a button is offered as an action of the given service.
pub open spec fn is_offered_by(button: UIButton, service: Seq<char>) -> bool {
    is_offered(button) && button.spec.location.component_id@ == service
}

/// The action of a button. A button without a text goes by its name.
pub open spec fn button_action(button: UIButton) -> model::ActionView {
    model::ActionView::Button {
        name: button.metadata.name@,
        label: if button.spec.text@.len() == 0 {
            button.metadata.name@
        } else {
            button.spec.text@
        },
        requires_confirmation: button.spec.requires_confirmation,
        inputs: defaults_of(button.spec.inputs@),
    }
}

/// The actions that a service offers, as Tilt reports them.
pub open spec fn reported_actions(items: Seq<UIButton>, service: Seq<char>) -> Seq<
    model::ActionView,
> {
    items.filter(|button: UIButton| is_offered_by(button, service)).map_values(
        |button: UIButton| button_action(button),
    )
}

/// The actions that a service offers, by title.
pub open spec fn actions_of(items: Seq<UIButton>, service: Seq<char>) -> Seq<model::ActionView> {
    order::stable_sort(reported_actions(items, service), model::action_order())
}

/// Whether some button is offered as an action of a service.
pub open spec fn offers(items: Seq<UIButton>, service: Seq<char>) -> bool {
    exists|i: int| 0 <= i < items.len() && is_offered_by(#[trigger] items[i], service)
}

/// The actions of the services that offer any.
pub open spec fn action_table(items: Seq<UIButton>) -> Map<Seq<char>, Seq<model::ActionView>> {
    Map::new(|service: Seq<char>| offers(items, service), |service: Seq<char>| actions_of(items, service))
}

fn built_in(button: &UIButton) -> (result: bool)
    ensures
        result == is_built_in(*button),
{
    let mut index: usize = 0;
    while index < button.metadata.annotations.len()
        invariant
            index <= button.metadata.annotations@.len(),
            forall|i: int|
                0 <= i < index ==> !((#[trigger] button.metadata.annotations@[i]).0@
                    == "tilt.dev/uibutton-type"@ && (button.metadata.annotations@[i].1@
                    == "StopBuild"@ || button.metadata.annotations@[i].1@ == "DisableToggle"@)),
        decreases button.metadata.annotations@.len() - index,
    {
        let annotation = &button.metadata.annotations[index];
        if text::text_eq(annotation.0.as_str(), "tilt.dev/uibutton-type") && (text::text_eq(
            annotation.1.as_str(),
            "StopBuild",
        ) || text::text_eq(annotation.1.as_str(), "DisableToggle")) {
            return true;
        }
        index += 1;
    }
    false
}

fn offered(button: &UIButton) -> (result: bool)
    ensures
        result == is_offered(*button),
{
    !button.spec.disabled && text::text_eq(button.spec.location.component_type.as_str(), "Resource")
        && !button.spec.location.component_id.as_str().is_empty() && !built_in(button)
}

fn action_from(button: &UIButton) -> (action: ServiceAction)
    ensures
        action@ == button_action(*button),
{
    ServiceAction::Button {
        name: button.metadata.name.clone(),
        label: if button.spec.text.as_str().is_empty() {
            button.metadata.name.clone()
        } else {
            button.spec.text.clone()
        },
        requires_confirmation: button.spec.requires_confirmation,
        inputs: default_input_values(&button.spec.inputs),
    }
}

fn actions_from(items: &Vec<UIButton>, service: &str) -> (actions: Vec<ServiceAction>)
    ensures
        order::views(actions@) == actions_of(items@, service@),
{
    let ghost keeps = |button: UIButton| is_offered_by(button, service@);
    let ghost makes = |button: UIButton| button_action(button);
    let mut actions: Vec<ServiceAction> = Vec::new();
    let mut index: usize = 0;
    proof {
        reveal(Seq::filter);
        assert(order::views(actions@) =~= items@.take(0).filter(keeps).map_values(makes));
    }
    while index < items.len()
        invariant
            index <= items@.len(),
            keeps == (|button: UIButton| is_offered_by(button, service@)),
            makes == (|button: UIButton| button_action(button)),
            order::views(actions@) == items@.take(index as int).filter(keeps).map_values(makes),
        decreases items@.len() - index,
    {
        proof {
            reveal(Seq::filter);
            assert(items@.take(index + 1).drop_last() =~= items@.take(index as int));
        }
        let ghost before = actions@;
        let ghost found = items@.take(index as int).filter(keeps);
        if offered(&items[index]) && text::text_eq(
            items[index].spec.location.component_id.as_str(),
            service,
        ) {
            let action = action_from(&items[index]);
            actions.push(action);
            proof {
                assert(items@.take(index + 1).filter(keeps) =~= found.push(items@[index as int]));
                assert(order::views(actions@) =~= order::views(before).push(action@));
                assert(found.push(items@[index as int]).map_values(makes) =~= found.map_values(
                    makes,
                ).push(action@));
            }
        } else {
            assert(items@.take(index + 1).filter(keeps) =~= found);
        }
        index += 1;
    }
    assert(items@.take(items@.len() as int) =~= items@);
    order::sort_by_rank(actions)
}

/// The actions of one service.
#[derive(Debug)]
struct ActionEntry {
    service: String,
    actions: Vec<ServiceAction>,
}

/// The actions of services, by the name of the service.
#[derive(Debug, Default)]
pub struct ButtonActions {
    entries: Vec<ActionEntry>,
}

spec fn entry_table(entries: Seq<ActionEntry>) -> Map<Seq<char>, Seq<model::ActionView>>
    decreases entries.len(),
{
    if entries.len() == 0 {
        Map::empty()
    } else {
        entry_table(entries.drop_last()).insert(
            entries.last().service@,
            order::views(entries.last().actions@),
        )
    }
}

impl View for ButtonActions {
    type V = Map<Seq<char>, Seq<model::ActionView>>;

    closed spec fn view(&self) -> Map<Seq<char>, Seq<model::ActionView>> {
        entry_table(self.entries@)
    }
}

impl ButtonActions {
    /// No actions.
    pub fn new() -> (table: ButtonActions)
        ensures
            table@ == Map::<Seq<char>, Seq<model::ActionView>>::empty(),
    {
        ButtonActions { entries: Vec::new() }
    }

    /// Sets the actions of a service.
    pub fn insert(&mut self, service: &str, actions: Vec<ServiceAction>)
        ensures
            final(self)@ == old(self)@.insert(service@, order::views(actions@)),
    {
        let ghost before = self.entries@;
        let entry = ActionEntry { service: service.to_owned(), actions };
        self.entries.push(entry);
        assert(self.entries@.drop_last() =~= before);
    }

    /// The actions of a service, if it has any.
    pub fn get(&self, service: &str) -> (actions: Option<&Vec<ServiceAction>>)
        ensures
            match actions {
                Some(found) => self@.dom().contains(service@) && order::views(found@)
                    == self@[service@],
                None => !self@.dom().contains(service@),
            },
    {
        let mut count: usize = self.entries.len();
        assert(self.entries@.take(count as int) =~= self.entries@);
        while count > 0
            invariant
                count <= self.entries@.len(),
                self@.dom().contains(service@) == entry_table(
                    self.entries@.take(count as int),
                ).dom().contains(service@),
                self@[service@] == entry_table(self.entries@.take(count as int))[service@],
            decreases count,
        {
            let entry = &self.entries[count - 1];
            assert(self.entries@.take(count as int).drop_last() =~= self.entries@.take(
                count - 1,
            ));
            if text::text_eq(entry.service.as_str(), service) {
                return Some(&entry.actions);
            }
            count -= 1;
        }
        None
    }

    /// Whether no service has any action.
    pub fn is_empty(&self) -> (empty: bool)
        ensures
            empty == (self@ == Map::<Seq<char>, Seq<model::ActionView>>::empty()),
    {
        if self.entries.len() > 0 {
            let ghost last = self.entries@.last().service@;
            assert(self@.dom().contains(last));
        }
        self.entries.len() == 0
    }
}

/// What services can do, by the buttons that Tilt reports.
pub fn parse_ui_buttons(list: UIButtonList) -> (table: ButtonActions)
    ensures
        table@ == action_table(list.items@),
{
    let items = list.items;
    let mut services: Vec<String> = Vec::new();
    let mut index: usize = 0;
    while index < items.len()
        invariant
            index <= items@.len(),
            order::is_strictly_ascending(text::texts(services@)),
            forall|service: Seq<char>|
                #[trigger] text::texts(services@).contains(service) <==> offers(
                    items@.take(index as int),
                    service,
                ),
        decreases items@.len() - index,
    {
        let button = &items[index];
        let ghost seen = items@.take(index as int);
        proof {
            let more = seen.push(*button);
            assert(items@.take(index + 1) =~= more);
            assert(more[seen.len() as int] == *button);
            assert forall|service: Seq<char>|
                #[trigger] offers(more, service) <==> offers(seen, service) || is_offered_by(
                    *button,
                    service,
                ) by {
                if offers(seen, service) {
                    let i = choose|i: int|
                        0 <= i < seen.len() && is_offered_by(#[trigger] seen[i], service);
                    assert(is_offered_by(more[i], service));
                }
                if offers(more, service) {
                    let i = choose|i: int|
                        0 <= i < more.len() && is_offered_by(#[trigger] more[i], service);
                    if i < seen.len() {
                        assert(is_offered_by(seen[i], service));
                    }
                }
            }
        }
        if offered(button) {
            order::insert_name(&mut services, button.spec.location.component_id.as_str());
        }
        index += 1;
    }
    assert(items@.take(items@.len() as int) =~= items@);
    let ghost names = text::texts(services@);
    let mut table = ButtonActions::new();
    let mut place: usize = 0;
    while place < services.len()
        invariant
            place <= services@.len(),
            names == text::texts(services@),
            forall|service: Seq<char>|
                #[trigger] table@.dom().contains(service) <==> names.take(place as int).contains(
                    service,
                ),
            forall|service: Seq<char>|
                names.take(place as int).contains(service) ==> #[trigger] table@[service]
                    == actions_of(items@, service),
        decreases services@.len() - place,
    {
        let ghost seen = names.take(place as int);
        let ghost current = names[place as int];
        let actions = actions_from(&items, services[place].as_str());
        table.insert(services[place].as_str(), actions);
        proof {
            assert(names.take(place + 1) =~= seen.push(current));
            assert forall|service: Seq<char>|
                #[trigger] seen.push(current).contains(service) <==> seen.contains(service)
                    || service == current by {
                if seen.contains(service) {
                    let i = choose|i: int| 0 <= i < seen.len() && seen[i] == service;
                    assert(seen.push(current)[i] == service);
                }
                assert(seen.push(current)[seen.len() as int] == current);
            }
        }
        place += 1;
    }
    proof {
        assert(names.take(names.len() as int) =~= names);
        assert(table@ =~= action_table(items@));
    }
    table
}

// ---------------------------------------------------------------------------
// Attaching
// ---------------------------------------------------------------------------

/// A service with the actions that a table has for it, behind its own.
pub open spec fn equipped(
    service: model::ServiceView,
    table: Map<Seq<char>, Seq<model::ActionView>>,
) -> model::ServiceView {
    if table.dom().contains(service.name) {
        model::ServiceView { actions: service.actions + table[service.name], ..service }
    } else {
        service
    }
}

/// Services with the actions that a table has for them.
pub open spec fn all_equipped(
    services: Seq<model::ServiceView>,
    table: Map<Seq<char>, Seq<model::ActionView>>,
) -> Seq<model::ServiceView> {
    services.map_values(|service: model::ServiceView| equipped(service, table))
}

/// A group with the actions that a table has for its services.
pub open spec fn group_equipped(
    group: model::GroupView,
    table: Map<Seq<char>, Seq<model::ActionView>>,
) -> model::GroupView {
    model::GroupView { services: all_equipped(group.services, table), ..group }
}

/// A snapshot with the actions that a table has for its services, wherever they
/// are shown.
pub open spec fn snapshot_equipped(
    snapshot: model::SnapshotView,
    table: Map<Seq<char>, Seq<model::ActionView>>,
) -> model::SnapshotView {
    model::SnapshotView {
        services: all_equipped(snapshot.services, table),
        groups: snapshot.groups.map_values(
            |group: model::GroupView| group_equipped(group, table),
        ),
        ..snapshot
    }
}

fn equip(service: &mut Service, table: &ButtonActions)
    ensures
        final(service)@ == equipped(old(service)@, table@),
{
    if let Some(actions) = table.get(service.name.as_str()) {
        let ghost own = service.actions@;
        let mut added = copied(actions);
        let ghost more = added@;
        service.actions.append(&mut added);
        assert(order::views(service.actions@) =~= order::views(own) + order::views(more));
    }
}

fn equip_all(services: &mut Vec<Service>, table: &ButtonActions)
    ensures
        order::views(final(services)@) == all_equipped(order::views(old(services)@), table@),
{
    let ghost before = order::views(services@);
    let mut index: usize = 0;
    while index < services.len()
        invariant
            index <= services@.len(),
            services@.len() == before.len(),
            forall|i: int|
                0 <= i < services@.len() ==> #[trigger] order::views(services@)[i] == if i < index {
                    equipped(before[i], table@)
                } else {
                    before[i]
                },
        decreases services@.len() - index,
    {
        let ghost held = services@;
        assert(order::views(held)[index as int] == before[index as int]);
        equip(&mut services[index], table);
        assert forall|i: int| 0 <= i < services@.len() implies #[trigger] order::views(
            services@,
        )[i] == if i < index + 1 {
            equipped(before[i], table@)
        } else {
            before[i]
        } by {
            if i != index {
                assert(services@[i] == held[i]);
                assert(order::views(held)[i] == held[i]@);
            }
        }
        index += 1;
    }
    assert(order::views(services@) =~= all_equipped(before, table@));
}

fn equip_group(group: &mut ResourceGroup, table: &ButtonActions)
    ensures
        final(group)@ == group_equipped(old(group)@, table@),
{
    equip_all(&mut group.services, table);
}

/// Adds the actions of a table to the services that it names, in the list of
/// services and in every group.
pub fn attach_service_actions(snapshot: &mut DashboardSnapshot, actions_by_service: &ButtonActions)
    ensures
        final(snapshot)@ == snapshot_equipped(old(snapshot)@, actions_by_service@),
{
    let ghost before = order::views(snapshot.groups@);
    equip_all(&mut snapshot.services, actions_by_service);
    let mut index: usize = 0;
    while index < snapshot.groups.len()
        invariant
            index <= snapshot.groups@.len(),
            snapshot.groups@.len() == before.len(),
            order::views(snapshot.services@) == all_equipped(
                old(snapshot)@.services,
                actions_by_service@,
            ),
            snapshot.tiltfile_error == old(snapshot).tiltfile_error,
            forall|i: int|
                0 <= i < snapshot.groups@.len() ==> #[trigger] order::views(snapshot.groups@)[i]
                    == if i < index {
                    group_equipped(before[i], actions_by_service@)
                } else {
                    before[i]
                },
        decreases snapshot.groups@.len() - index,
    {
        let ghost held = snapshot.groups@;
        assert(order::views(held)[index as int] == before[index as int]);
        equip_group(&mut snapshot.groups[index], actions_by_service);
        assert forall|i: int| 0 <= i < snapshot.groups@.len() implies #[trigger] order::views(
            snapshot.groups@,
        )[i] == if i < index + 1 {
            group_equipped(before[i], actions_by_service@)
        } else {
            before[i]
        } by {
            if i != index {
                assert(snapshot.groups@[i] == held[i]);
                assert(order::views(held)[i] == held[i]@);
            }
        }
        index += 1;
    }
    assert(snapshot@.groups =~= snapshot_equipped(old(snapshot)@, actions_by_service@).groups);
}

/// The copies of a service in the list and in the groups stay alike: equal
/// services are equal with the actions attached.
pub proof fn law_copies_stay_alike(
    snapshot: model::SnapshotView,
    table: Map<Seq<char>, Seq<model::ActionView>>,
    group: int,
    member: int,
    place: int,
)
    requires
        0 <= group < snapshot.groups.len(),
        0 <= member < snapshot.groups[group].services.len(),
        0 <= place < snapshot.services.len(),
        snapshot.groups[group].services[member] == snapshot.services[place],
    ensures
        snapshot_equipped(snapshot, table).groups[group].services[member] == snapshot_equipped(
            snapshot,
            table,
        ).services[place],
{
}

/// Attaching actions changes nothing but actions: names, states, details, the
/// groups and what they hold stay.
pub proof fn law_attaching_changes_only_actions(
    service: model::ServiceView,
    table: Map<Seq<char>, Seq<model::ActionView>>,
)
    ensures
        equipped(service, table).name == service.name,
        equipped(service, table).status == service.status,
        equipped(service, table).detail == service.detail,
        equipped(service, table).disabled == service.disabled,
        service.actions.is_prefix_of(equipped(service, table).actions),
{
}

/// The actions that buttons give a service are in order of their titles.
pub proof fn law_button_actions_come_by_title(items: Seq<UIButton>, service: Seq<char>)
    ensures
        order::is_ascending(actions_of(items, service), model::action_order()),
        actions_of(items, service).len() == reported_actions(items, service).len(),
{
    model::lemma_action_order();
    order::law_sort_is_ascending(reported_actions(items, service), model::action_order());
}

/// A disabled button, a button of the page as a whole and the buttons that Tilt
/// has for every resource are actions of no service.
pub proof fn law_other_buttons_are_not_offered(button: UIButton, service: Seq<char>)
    requires
        button.spec.disabled || button.spec.location.component_type@ != "Resource"@ || is_built_in(
            button,
        ),
    ensures
        !is_offered_by(button, service),
{
}

// ---------------------------------------------------------------------------
// What is offered of what is reported
// ---------------------------------------------------------------------------

/// An input is sent with the value that Tilt gives it: a text and a yes or no
/// with its default, what is not shown with its value, and a choice with its
/// first. Each goes under the name of the input and as what it is.
pub proof fn law_inputs_have_the_values_tilt_gives_them(input: UIButtonInput)
    ensures
        input.text matches Some(field) ==> default_of(input) == Some(
            model::InputView::Text { name: input.name@, value: field.default_value@ },
        ),
        input.text is None ==> (input.boolean matches Some(field) ==> default_of(input) == Some(
            model::InputView::Bool { name: input.name@, value: field.default_value },
        )),
        input.text is None && input.boolean is None ==> (input.hidden matches Some(field)
            ==> default_of(input) == Some(
            model::InputView::Hidden { name: input.name@, value: field.value@ },
        )),
        input.text is None && input.boolean is None && input.hidden is None ==> (
        input.choice matches Some(field) ==> if field.choices@.len() == 0 {
            default_of(input) is None
        } else {
            default_of(input) == Some(
                model::InputView::Choice { name: input.name@, value: field.choices@[0]@ },
            )
        }),
        input.text is None && input.boolean is None && input.hidden is None && input.choice is None
            ==> default_of(input) is None,
{
}

/// Inputs of yes or no that differ in their default are sent with different
/// values.
pub proof fn law_defaults_tell_inputs_apart(left: UIButtonInput, right: UIButtonInput)
    requires
        left.text is None && left.boolean is Some,
        right.text is None && right.boolean is Some,
        left.boolean->0.default_value != right.boolean->0.default_value,
    ensures
        default_of(left) is Some && default_of(right) is Some,
        default_of(left) != default_of(right),
{
    assert(default_of(left)->0->Bool_value == left.boolean->0.default_value);
    assert(default_of(right)->0->Bool_value == right.boolean->0.default_value);
}

/// The values of inputs are sent in the order of the inputs, one for each that
/// has a value and none for the others.
pub proof fn law_values_come_in_the_order_of_inputs(
    before: Seq<UIButtonInput>,
    input: UIButtonInput,
    behind: Seq<UIButtonInput>,
)
    ensures
        defaults_of(before.push(input) + behind) == defaults_of(before) + (match default_of(
            input,
        ) {
            Some(value) => seq![value],
            None => Seq::empty(),
        }) + defaults_of(behind),
        defaults_of(Seq::empty()).len() == 0,
    decreases behind.len(),
{
    let whole = before.push(input) + behind;
    let middle = match default_of(input) {
        Some(value) => seq![value],
        None => Seq::empty(),
    };
    if behind.len() == 0 {
        assert(whole =~= before.push(input));
        assert(before.push(input).drop_last() =~= before);
        assert(defaults_of(whole) =~= defaults_of(before) + middle + defaults_of(behind));
    } else {
        law_values_come_in_the_order_of_inputs(before, input, behind.drop_last());
        assert(whole.drop_last() =~= before.push(input) + behind.drop_last());
        assert(defaults_of(whole) =~= defaults_of(before) + middle + defaults_of(behind));
    }
}

/// A button is offered by the service that it stands at, and by no other,
/// unless it is disabled, stands elsewhere than at a resource, or is one of
/// those that Tilt has for every resource.
pub proof fn law_buttons_are_offered_where_they_stand(button: UIButton, service: Seq<char>)
    ensures
        ({
            let built_in = exists|i: int|
                0 <= i < button.metadata.annotations@.len() && (
                #[trigger] button.metadata.annotations@[i]).0@ == "tilt.dev/uibutton-type"@ && (
                button.metadata.annotations@[i].1@ == "StopBuild"@
                    || button.metadata.annotations@[i].1@ == "DisableToggle"@);
            is_offered_by(button, service) <==> {
                &&& !button.spec.disabled
                &&& button.spec.location.component_type@ == "Resource"@
                &&& service.len() > 0
                &&& button.spec.location.component_id@ == service
                &&& !built_in
            }
        }),
{
}

/// The action of a button presses that button. It goes by the text of the
/// button, or by its name where it has no text, asks where the button asks, and
/// sends the values of its inputs.
pub proof fn law_actions_press_their_button(button: UIButton)
    ensures
        button_action(button) matches model::ActionView::Button {
            name,
            label,
            requires_confirmation,
            inputs,
        } && {
            &&& name == button.metadata.name@
            &&& button.spec.text@.len() > 0 ==> label == button.spec.text@
            &&& button.spec.text@.len() == 0 ==> label == button.metadata.name@
            &&& requires_confirmation == button.spec.requires_confirmation
            &&& inputs == defaults_of(button.spec.inputs@)
        },
        button_action(button).must_confirm() == button.spec.requires_confirmation,
{
}

/// A table has an entry for each service that some button is offered by, and
/// the entry holds the actions of those buttons and no others, by title.
pub proof fn law_tables_hold_the_offered_buttons(
    items: Seq<UIButton>,
    service: Seq<char>,
    action: model::ActionView,
)
    ensures
        action_table(items).dom().contains(service) <==> exists|i: int|
            0 <= i < items.len() && is_offered_by(#[trigger] items[i], service),
        action_table(items).dom().contains(service) ==> (action_table(items)[service].contains(
            action,
        ) <==> exists|i: int|
            0 <= i < items.len() && is_offered_by(#[trigger] items[i], service) && button_action(
                items[i],
            ) == action),
        action_table(items).dom().contains(service) ==> action_table(items)[service].len()
            == items.filter(|button: UIButton| is_offered_by(button, service)).len(),
        action_table(items).dom().contains(service) ==> forall|i: int, j: int|
            0 <= i < j < action_table(items)[service].len() ==> order::text_le(
                (#[trigger] action_table(items)[service][i]).title(),
                (#[trigger] action_table(items)[service][j]).title(),
            ),
{
    broadcast use vstd::seq_lib::group_to_multiset_ensures;

    let keeps = |button: UIButton| is_offered_by(button, service);
    let chosen = items.filter(keeps);
    let reported = reported_actions(items, service);
    let sorted = actions_of(items, service);
    model::lemma_action_order();
    order::law_sort_keeps_the_items(reported, model::action_order());
    order::law_sort_is_ascending(reported, model::action_order());
    assert(sorted.contains(action) <==> sorted.to_multiset().count(action) > 0);
    assert(reported.contains(action) <==> reported.to_multiset().count(action) > 0);
    if reported.contains(action) {
        let m = choose|m: int| 0 <= m < reported.len() && reported[m] == action;
        assert(chosen.contains(chosen[m]));
        items.lemma_filter_contains_rev(keeps, chosen[m]);
        items.lemma_filter_pred(keeps, m);
        let i = choose|i: int| 0 <= i < items.len() && items[i] == chosen[m];
        assert(is_offered_by(items[i], service) && button_action(items[i]) == action);
    }
    if exists|i: int|
        0 <= i < items.len() && is_offered_by(#[trigger] items[i], service) && button_action(
            items[i],
        ) == action {
        let i = choose|i: int|
            0 <= i < items.len() && is_offered_by(#[trigger] items[i], service) && button_action(
                items[i],
            ) == action;
        items.lemma_filter_contains(keeps, i);
        let m = choose|m: int| 0 <= m < chosen.len() && chosen[m] == items[i];
        assert(reported[m] == action);
    }
    let le = model::action_order();
    assert forall|i: int, j: int| 0 <= i < j < sorted.len() implies order::text_le(
        (#[trigger] sorted[i]).title(),
        (#[trigger] sorted[j]).title(),
    ) by {
        assert(le(sorted[i], sorted[j]));
    }
}

/// Attaching puts the actions of a table behind those that a service has of
/// itself, in the list and in every group. A service that the table does not
/// name stays as it is.
pub proof fn law_attached_actions_come_behind(
    snapshot: model::SnapshotView,
    table: Map<Seq<char>, Seq<model::ActionView>>,
    place: int,
    group: int,
    member: int,
)
    ensures
        ({
            let after = snapshot_equipped(snapshot, table);
            &&& after.services.len() == snapshot.services.len()
            &&& after.groups.len() == snapshot.groups.len()
            &&& after.tiltfile_error == snapshot.tiltfile_error
            &&& 0 <= place < snapshot.services.len() ==> {
                let service = snapshot.services[place];
                after.services[place].actions == if table.dom().contains(service.name) {
                    service.actions + table[service.name]
                } else {
                    service.actions
                }
            }
            &&& 0 <= group < snapshot.groups.len() ==> {
                &&& after.groups[group].name == snapshot.groups[group].name
                &&& after.groups[group].status == snapshot.groups[group].status
                &&& after.groups[group].services.len() == snapshot.groups[group].services.len()
                &&& 0 <= member < snapshot.groups[group].services.len() ==> {
                    let service = snapshot.groups[group].services[member];
                    after.groups[group].services[member].actions == if table.dom().contains(
                        service.name,
                    ) {
                        service.actions + table[service.name]
                    } else {
                        service.actions
                    }
                }
            }
        }),
{
}

} // verus!
