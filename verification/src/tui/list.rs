//! The list of services: its groups, which of them are collapsed, and which row
//! is selected.

use vstd::prelude::*;

use crate::order;
use crate::order::TextSet;
use crate::tilt::model;
use crate::tilt::model::{ResourceGroup, Service};
use crate::tilt::resources;
use crate::tui::keys::KeyCode;
use crate::tui::picker;

verus! {

/// How many rows a page has.
pub const SERVICE_PAGE_SIZE: usize = 10;

/// A move through the list.
#[derive(Clone, Copy, Debug, PartialEq, Eq, Structural)]
pub enum ServiceNavigation {
    Up,
    Down,
    PageUp,
    PageDown,
    Home,
    End,
}

/// What a key does to the selected service.
#[derive(Clone, Copy, Debug, PartialEq, Eq, Structural)]
pub enum SelectedServiceAction {
    Trigger,
    ToggleEnabled,
    Logs,
    Actions,
}

/// A row of the list.
#[derive(Debug)]
pub enum ServiceListRow<'a> {
    Group(&'a ResourceGroup),
    Service(&'a Service),
}

/// A row of the list, as mathematics has it.
pub enum RowView {
    Group(model::GroupView),
    Service(model::ServiceView),
}

impl<'a> View for ServiceListRow<'a> {
    type V = RowView;

    open spec fn view(&self) -> RowView {
        match self {
            ServiceListRow::Group(group) => RowView::Group(group@),
            ServiceListRow::Service(service) => RowView::Service(service@),
        }
    }
}

/// The rows of services.
pub open spec fn service_rows(services: Seq<model::ServiceView>) -> Seq<RowView> {
    services.map_values(|service: model::ServiceView| RowView::Service(service))
}

/// The rows of a group: its heading and, unless it is collapsed, its services.
pub open spec fn group_rows(group: model::GroupView, collapsed: Set<Seq<char>>) -> Seq<RowView> {
    if collapsed.contains(group.name) {
        seq![RowView::Group(group)]
    } else {
        seq![RowView::Group(group)] + service_rows(group.services)
    }
}

/// The rows of groups.
pub open spec fn rows(groups: Seq<model::GroupView>, collapsed: Set<Seq<char>>) -> Seq<RowView>
    decreases groups.len(),
{
    if groups.len() == 0 {
        Seq::empty()
    } else {
        rows(groups.drop_last(), collapsed) + group_rows(groups.last(), collapsed)
    }
}

/// A place among a number of rows: the nearest that there is, or none where
/// there is no row.
pub open spec fn nearest(selected: Option<nat>, count: nat) -> Option<nat> {
    let place = picker::place_or_first(selected);
    if count == 0 {
        None
    } else if place < count {
        Some(place)
    } else {
        Some((count - 1) as nat)
    }
}

/// The place after a move from another, among a number of rows.
pub open spec fn moved(place: nat, navigation: ServiceNavigation, count: nat) -> int {
    let back = |rows: int| if place >= rows {
        place - rows
    } else {
        0
    };
    let forth = |rows: int| if place + rows < count {
        place + rows
    } else {
        count - 1
    };
    match navigation {
        ServiceNavigation::Up => back(1),
        ServiceNavigation::Down => forth(1),
        ServiceNavigation::PageUp => back(SERVICE_PAGE_SIZE as int),
        ServiceNavigation::PageDown => forth(SERVICE_PAGE_SIZE as int),
        ServiceNavigation::Home => 0,
        ServiceNavigation::End => count - 1,
    }
}

/// A set of names with one added if it is not there, and taken out if it is.
pub open spec fn toggled(names: Set<Seq<char>>, name: Seq<char>) -> Set<Seq<char>> {
    if names.contains(name) {
        names.remove(name)
    } else {
        names.insert(name)
    }
}

/// Where a key moves the list, if it moves it.
pub open spec fn navigation_of(key: KeyCode) -> Option<ServiceNavigation> {
    match key {
        KeyCode::Up => Some(ServiceNavigation::Up),
        KeyCode::Down => Some(ServiceNavigation::Down),
        KeyCode::PageUp => Some(ServiceNavigation::PageUp),
        KeyCode::PageDown => Some(ServiceNavigation::PageDown),
        KeyCode::Home => Some(ServiceNavigation::Home),
        KeyCode::End => Some(ServiceNavigation::End),
        KeyCode::Char(character) => if character == 'k' {
            Some(ServiceNavigation::Up)
        } else if character == 'j' {
            Some(ServiceNavigation::Down)
        } else {
            None
        },
        _ => None,
    }
}

/// Whether a key collapses and expands groups.
pub open spec fn is_toggle(key: KeyCode) -> bool {
    key == KeyCode::Enter || key == KeyCode::Char(' ')
}

/// What a key does to a service, if it does anything.
pub open spec fn service_key(key: KeyCode) -> Option<SelectedServiceAction> {
    match key {
        KeyCode::Char(character) => if character == 't' {
            Some(SelectedServiceAction::Trigger)
        } else if character == 'e' {
            Some(SelectedServiceAction::ToggleEnabled)
        } else if character == 'l' {
            Some(SelectedServiceAction::Logs)
        } else if character == 'a' {
            Some(SelectedServiceAction::Actions)
        } else {
            None
        },
        _ => None,
    }
}

/// The state of the list.
#[derive(Debug)]
pub struct ServiceListState {
    pub selected: Option<usize>,
    pub collapsed: TextSet,
}

/// The state of the list, as mathematics has it.
pub struct ListView {
    pub selected: Option<nat>,
    pub collapsed: Set<Seq<char>>,
}

impl View for ServiceListState {
    type V = ListView;

    open spec fn view(&self) -> ListView {
        ListView { selected: picker::place_of(self.selected), collapsed: self.collapsed@ }
    }
}

impl ListView {
    /// The row that is selected, if there is one.
    pub open spec fn selected_row(self, groups: Seq<model::GroupView>) -> Option<RowView> {
        match self.selected {
            Some(place) => if place < rows(groups, self.collapsed).len() {
                Some(rows(groups, self.collapsed)[place as int])
            } else {
                None
            },
            None => None,
        }
    }

    /// The name of the group whose heading is selected.
    pub open spec fn selected_heading(self, groups: Seq<model::GroupView>) -> Option<Seq<char>> {
        match self.selected_row(groups) {
            Some(RowView::Group(group)) => Some(group.name),
            _ => None,
        }
    }

    /// The service that is selected.
    pub open spec fn selected_service(self, groups: Seq<model::GroupView>) -> Option<
        model::ServiceView,
    > {
        match self.selected_row(groups) {
            Some(RowView::Service(service)) => Some(service),
            _ => None,
        }
    }

    /// The list fitted to groups: the selection moves to a row that there is.
    pub open spec fn synced(self, groups: Seq<model::GroupView>) -> ListView {
        ListView {
            selected: nearest(self.selected, rows(groups, self.collapsed).len()),
            ..self
        }
    }

    /// The list after a move.
    pub open spec fn navigated(
        self,
        navigation: ServiceNavigation,
        groups: Seq<model::GroupView>,
    ) -> ListView {
        let count = rows(groups, self.collapsed).len();
        ListView {
            selected: match nearest(self.selected, count) {
                Some(place) => Some(moved(place, navigation, count) as nat),
                None => None,
            },
            ..self
        }
    }

    /// The list with the selected group collapsed or expanded.
    pub open spec fn group_toggled(self, groups: Seq<model::GroupView>) -> ListView {
        match self.selected_heading(groups) {
            Some(name) => (ListView { collapsed: toggled(self.collapsed, name), ..self }).synced(
                groups,
            ),
            None => self,
        }
    }

    /// The list after a key.
    pub open spec fn after(self, key: KeyCode, groups: Seq<model::GroupView>) -> ListView {
        match navigation_of(key) {
            Some(navigation) => self.navigated(navigation, groups),
            None => if is_toggle(key) {
                self.group_toggled(groups)
            } else {
                self
            },
        }
    }
}

/// The row that is selected after a move is one that there is.
pub proof fn law_moving_stays_in_the_list(
    list: ListView,
    navigation: ServiceNavigation,
    groups: Seq<model::GroupView>,
)
    ensures
        match list.navigated(navigation, groups).selected {
            Some(place) => place < rows(groups, list.collapsed).len(),
            None => rows(groups, list.collapsed).len() == 0,
        },
{
}

/// New services do not expand a group: fitting the list to other groups leaves
/// what is collapsed.
pub proof fn law_collapsed_groups_stay_collapsed(list: ListView, groups: Seq<model::GroupView>)
    ensures
        list.synced(groups).collapsed == list.collapsed,
{
}

/// Of a collapsed group nothing is shown but the heading.
pub proof fn law_collapsed_group_shows_its_heading_alone(
    group: model::GroupView,
    collapsed: Set<Seq<char>>,
)
    requires
        collapsed.contains(group.name),
    ensures
        group_rows(group, collapsed) == seq![RowView::Group(group)],
{
}

/// Every heading is among the rows, whatever is collapsed.
pub proof fn law_every_heading_is_shown(
    groups: Seq<model::GroupView>,
    collapsed: Set<Seq<char>>,
    place: int,
)
    requires
        0 <= place < groups.len(),
    ensures
        rows(groups, collapsed).contains(RowView::Group(groups[place])),
    decreases groups.len(),
{
    let before = rows(groups.drop_last(), collapsed);
    let last = group_rows(groups.last(), collapsed);
    if place == groups.len() - 1 {
        assert(last[0] == RowView::Group(groups[place]));
        assert(rows(groups, collapsed)[before.len() as int] == RowView::Group(groups[place]));
    } else {
        law_every_heading_is_shown(groups.drop_last(), collapsed, place);
        let i = choose|i: int| 0 <= i < before.len() && before[i] == RowView::Group(groups[place]);
        assert(rows(groups, collapsed)[i] == RowView::Group(groups[place]));
    }
}

/// Whether no two groups have the same name.
pub open spec fn have_distinct_names(groups: Seq<model::GroupView>) -> bool {
    forall|i: int, j: int|
        0 <= i < j < groups.len() ==> (#[trigger] groups[i]).name != (#[trigger] groups[j]).name
}

proof fn lemma_rows_without(
    groups: Seq<model::GroupView>,
    collapsed: Set<Seq<char>>,
    name: Seq<char>,
)
    requires
        forall|i: int| 0 <= i < groups.len() ==> (#[trigger] groups[i]).name != name,
    ensures
        rows(groups, toggled(collapsed, name)) == rows(groups, collapsed),
    decreases groups.len(),
{
    if groups.len() > 0 {
        let front = groups.drop_last();
        assert forall|i: int| 0 <= i < front.len() implies (#[trigger] front[i]).name != name by {
            assert(front[i] == groups[i]);
        }
        lemma_rows_without(front, collapsed, name);
        assert(groups[groups.len() - 1].name != name);
    }
}

proof fn lemma_headings_come_from_groups(
    groups: Seq<model::GroupView>,
    collapsed: Set<Seq<char>>,
    place: int,
) -> (index: int)
    requires
        0 <= place < rows(groups, collapsed).len(),
        rows(groups, collapsed)[place] is Group,
    ensures
        0 <= index < groups.len(),
        rows(groups, collapsed)[place] == RowView::Group(groups[index]),
        place == rows(groups.take(index), collapsed).len(),
    decreases groups.len(),
{
    let front = groups.drop_last();
    let before = rows(front, collapsed);
    if place < before.len() {
        let index = lemma_headings_come_from_groups(front, collapsed, place);
        assert(front.take(index) =~= groups.take(index));
        index
    } else {
        let last = group_rows(groups.last(), collapsed);
        assert(rows(groups, collapsed)[place] == last[place - before.len()]);
        assert(place == before.len());
        assert(groups.take(groups.len() - 1) =~= front);
        groups.len() - 1
    }
}

proof fn lemma_heading_place(
    groups: Seq<model::GroupView>,
    collapsed: Set<Seq<char>>,
    index: int,
)
    requires
        0 <= index < groups.len(),
    ensures
        ({
            let place = rows(groups.take(index), collapsed).len();
            &&& place < rows(groups, collapsed).len()
            &&& rows(groups, collapsed)[place as int] == RowView::Group(groups[index])
        }),
    decreases groups.len(),
{
    let front = groups.drop_last();
    if index == groups.len() - 1 {
        assert(groups.take(index) =~= front);
    } else {
        lemma_heading_place(front, collapsed, index);
        assert(front.take(index) =~= groups.take(index));
    }
}

/// Collapsing a group, or expanding it, leaves its heading selected, where no
/// other group has its name.
pub proof fn law_toggling_keeps_the_heading_selected(
    list: ListView,
    groups: Seq<model::GroupView>,
)
    requires
        list.selected_heading(groups) is Some,
        have_distinct_names(groups),
    ensures
        list.group_toggled(groups).selected == list.selected,
        list.group_toggled(groups).selected_heading(groups) == list.selected_heading(groups),
{
    let name = list.selected_heading(groups)->0;
    let place = list.selected->0 as int;
    let index = lemma_headings_come_from_groups(groups, list.collapsed, place);
    let front = groups.take(index);
    assert forall|i: int| 0 <= i < front.len() implies (#[trigger] front[i]).name != name by {
        assert(front[i] == groups[i]);
    }
    lemma_rows_without(front, list.collapsed, name);
    lemma_heading_place(groups, toggled(list.collapsed, name), index);
}

/// Collapsing a group and expanding it again leaves the list as it was, where
/// no other group has its name.
pub proof fn law_toggling_twice_changes_nothing(list: ListView, groups: Seq<model::GroupView>)
    requires
        list.selected_heading(groups) is Some,
        have_distinct_names(groups),
    ensures
        list.group_toggled(groups).group_toggled(groups) == list,
{
    let name = list.selected_heading(groups)->0;
    let once = list.group_toggled(groups);
    law_toggling_keeps_the_heading_selected(list, groups);
    law_toggling_keeps_the_heading_selected(once, groups);
    assert(toggled(toggled(list.collapsed, name), name) =~= list.collapsed);
}

/// The groups that are made of Tilt's resources have names of their own, where
/// no label is called like the group of what has none.
pub proof fn law_reported_groups_have_distinct_names(
    groups: Seq<model::GroupView>,
    items: Seq<resources::UIResource>,
)
    requires
        resources::is_grouping_of(groups, items),
        !resources::is_label(items, "Ungrouped"@),
    ensures
        have_distinct_names(groups),
{
    let last = resources::unlabelled_groups(items);
    let labelled = groups.take(groups.len() - last.len());
    let names = resources::group_names(labelled);
    assert forall|i: int, j: int| 0 <= i < j < groups.len() implies (#[trigger] groups[i]).name
        != (#[trigger] groups[j]).name by {
        assert(names[i] == groups[i].name);
        if j < labelled.len() {
            assert(names[j] == groups[j].name);
        } else {
            assert(groups[j] == last[0]);
            assert(names.contains(names[i]));
        }
    }
}

impl Default for ServiceListState {
    fn default() -> (list: Self)
        ensures
            list@ == (ListView { selected: None, collapsed: Set::empty() }),
    {
        ServiceListState { selected: None, collapsed: TextSet::new() }
    }
}

impl ServiceListState {
    /// The rows that are shown.
    pub fn visible_rows<'a>(&self, groups: &'a [ResourceGroup]) -> (found: Vec<ServiceListRow<'a>>)
        ensures
            order::views(found@) == rows(order::views(groups@), self@.collapsed),
    {
        let ghost all = order::views(groups@);
        let ghost collapsed = self.collapsed@;
        let mut found: Vec<ServiceListRow<'a>> = Vec::new();
        let mut index: usize = 0;
        assert(order::views(found@) =~= rows(all.take(0), collapsed));
        while index < groups.len()
            invariant
                index <= groups@.len(),
                all == order::views(groups@),
                collapsed == self.collapsed@,
                order::views(found@) == rows(all.take(index as int), collapsed),
            decreases groups@.len() - index,
        {
            let group = &groups[index];
            let ghost before = order::views(found@);
            assert(all.take(index + 1).drop_last() =~= all.take(index as int));
            found.push(ServiceListRow::Group(group));
            assert(order::views(found@) =~= before + seq![RowView::Group(group@)]);
            if !self.collapsed.contains(group.name.as_str()) {
                let ghost heading = order::views(found@);
                let ghost members = service_rows(group@.services);
                let mut member: usize = 0;
                assert(heading + members.take(0) =~= heading);
                while member < group.services.len()
                    invariant
                        member <= group.services@.len(),
                        members == service_rows(group@.services),
                        order::views(found@) == heading + members.take(member as int),
                    decreases group.services@.len() - member,
                {
                    let ghost held = order::views(found@);
                    let row = ServiceListRow::Service(&group.services[member]);
                    found.push(row);
                    proof {
                        assert(order::views(found@) =~= held.push(row@));
                        assert(members[member as int] == row@);
                        assert(heading + members.take(member + 1) =~= (heading + members.take(
                            member as int,
                        )).push(row@));
                    }
                    member += 1;
                }
                proof {
                    assert(members.take(members.len() as int) =~= members);
                    assert(heading + members =~= before + (seq![RowView::Group(group@)] + members));
                }
            }
            index += 1;
        }
        assert(all.take(all.len() as int) =~= all);
        found
    }

    fn row_count(&self, groups: &[ResourceGroup]) -> (count: usize)
        ensures
            count == rows(order::views(groups@), self@.collapsed).len(),
    {
        let found = self.visible_rows(groups);
        assert(order::views(found@).len() == found@.len());
        found.len()
    }

    /// Fits the list to groups.
    pub fn sync(&mut self, groups: &[ResourceGroup])
        ensures
            final(self)@ == old(self)@.synced(order::views(groups@)),
    {
        let count = self.row_count(groups);
        self.selected = nearest_place(self.selected, count);
    }

    /// Moves through the list.
    pub fn navigate(&mut self, navigation: ServiceNavigation, groups: &[ResourceGroup])
        ensures
            final(self)@ == old(self)@.navigated(navigation, order::views(groups@)),
    {
        let count = self.row_count(groups);
        match nearest_place(self.selected, count) {
            None => {
                self.selected = None;
            },
            Some(place) => {
                let last: usize = count - 1;
                self.selected = Some(
                    match navigation {
                        ServiceNavigation::Up => place.saturating_sub(1),
                        ServiceNavigation::Down => place.saturating_add(1).min(last),
                        ServiceNavigation::PageUp => place.saturating_sub(SERVICE_PAGE_SIZE),
                        ServiceNavigation::PageDown => place.saturating_add(
                            SERVICE_PAGE_SIZE,
                        ).min(last),
                        ServiceNavigation::Home => 0,
                        ServiceNavigation::End => last,
                    },
                );
            },
        }
    }

    /// The name of the group whose heading is selected.
    pub fn selected_group_name(&self, groups: &[ResourceGroup]) -> (name: Option<String>)
        ensures
            model::optional_text(name) == self@.selected_heading(order::views(groups@)),
    {
        let found = self.visible_rows(groups);
        match self.selected {
            None => None,
            Some(place) => {
                assert(order::views(found@).len() == found@.len());
                if place >= found.len() {
                    return None;
                }
                assert(order::views(found@)[place as int] == found@[place as int]@);
                match &found[place] {
                    ServiceListRow::Group(group) => Some(group.name.clone()),
                    ServiceListRow::Service(_) => None,
                }
            },
        }
    }

    /// Collapses the selected group, or expands it.
    pub fn toggle_selected_group(&mut self, groups: &[ResourceGroup])
        ensures
            final(self)@ == old(self)@.group_toggled(order::views(groups@)),
    {
        if let Some(name) = self.selected_group_name(groups) {
            if !self.collapsed.remove(name.as_str()) {
                let ghost before = self.collapsed@;
                self.collapsed.insert(name.as_str());
                assert(old(self).collapsed@ =~= before);
            }
            assert(self.collapsed@ == toggled(old(self)@.collapsed, name@));
            self.sync(groups);
        }
    }

    /// Lets a key act on the list, and says whether it does anything there.
    pub fn handle_key(&mut self, key: KeyCode, groups: &[ResourceGroup]) -> (handled: bool)
        ensures
            handled == (navigation_of(key) is Some || is_toggle(key)),
            final(self)@ == old(self)@.after(key, order::views(groups@)),
    {
        match key {
            KeyCode::Up => self.navigate(ServiceNavigation::Up, groups),
            KeyCode::Down => self.navigate(ServiceNavigation::Down, groups),
            KeyCode::PageUp => self.navigate(ServiceNavigation::PageUp, groups),
            KeyCode::PageDown => self.navigate(ServiceNavigation::PageDown, groups),
            KeyCode::Home => self.navigate(ServiceNavigation::Home, groups),
            KeyCode::End => self.navigate(ServiceNavigation::End, groups),
            KeyCode::Enter => self.toggle_selected_group(groups),
            KeyCode::Char(character) => {
                if character == 'k' {
                    self.navigate(ServiceNavigation::Up, groups);
                } else if character == 'j' {
                    self.navigate(ServiceNavigation::Down, groups);
                } else if character == ' ' {
                    self.toggle_selected_group(groups);
                } else {
                    return false;
                }
            },
            _ => return false,
        }
        true
    }

    /// What a key does to the selected service, if it does anything and a
    /// service is selected.
    pub fn selected_service_action<'a>(&self, key: KeyCode, groups: &'a [ResourceGroup]) -> (found:
        Option<(SelectedServiceAction, &'a Service)>)
        ensures
            match found {
                Some((action, service)) => {
                    &&& service_key(key) == Some(action)
                    &&& self@.selected_service(order::views(groups@)) == Some(service@)
                },
                None => service_key(key) is None || self@.selected_service(
                    order::views(groups@),
                ) is None,
            },
    {
        let action = match key {
            KeyCode::Char(character) => {
                if character == 't' {
                    SelectedServiceAction::Trigger
                } else if character == 'e' {
                    SelectedServiceAction::ToggleEnabled
                } else if character == 'l' {
                    SelectedServiceAction::Logs
                } else if character == 'a' {
                    SelectedServiceAction::Actions
                } else {
                    return None;
                }
            },
            _ => return None,
        };
        let mut found = self.visible_rows(groups);
        match self.selected {
            None => None,
            Some(place) => {
                assert(order::views(found@).len() == found@.len());
                if place >= found.len() {
                    return None;
                }
                assert(order::views(found@)[place as int] == found@[place as int]@);
                match found.swap_remove(place) {
                    ServiceListRow::Service(service) => Some((action, service)),
                    ServiceListRow::Group(_) => None,
                }
            },
        }
    }
}

fn nearest_place(selected: Option<usize>, count: usize) -> (place: Option<usize>)
    ensures
        picker::place_of(place) == nearest(picker::place_of(selected), count as nat),
{
    if count == 0 {
        return None;
    }
    let place: usize = match selected {
        Some(place) => place,
        None => 0,
    };
    Some(place.min(count - 1))
}

// ---------------------------------------------------------------------------
// Laws
// ---------------------------------------------------------------------------

/// Each group shows its heading and then, unless it is collapsed, its services
/// in their order; then come the groups behind it.
pub proof fn law_rows_come_group_by_group(
    groups: Seq<model::GroupView>,
    group: model::GroupView,
    collapsed: Set<Seq<char>>,
    member: int,
)
    ensures
        rows(Seq::empty(), collapsed).len() == 0,
        ({
            let before = rows(groups, collapsed);
            let after = rows(groups.push(group), collapsed);
            &&& after.len() == before.len() + 1 + if collapsed.contains(group.name) {
                0
            } else {
                group.services.len()
            }
            &&& after.take(before.len() as int) == before
            &&& after[before.len() as int] == RowView::Group(group)
            &&& !collapsed.contains(group.name) && 0 <= member < group.services.len()
                ==> after[before.len() + 1 + member] == RowView::Service(group.services[member])
        }),
{
    assert(groups.push(group).drop_last() =~= groups);
    let before = rows(groups, collapsed);
    let after = rows(groups.push(group), collapsed);
    assert(after.take(before.len() as int) =~= before);
}

/// A selection that is still in the list stays. One that is not moves to the
/// last row, none becomes the first row, and in an empty list there is none.
pub proof fn law_fitting_moves_the_selection_as_little_as_it_can(
    list: ListView,
    groups: Seq<model::GroupView>,
)
    ensures
        ({
            let count = rows(groups, list.collapsed).len();
            let after = list.synced(groups);
            &&& count == 0 ==> after.selected is None
            &&& count > 0 ==> match list.selected {
                Some(place) => if place < count {
                    after.selected == Some(place)
                } else {
                    after.selected == Some((count - 1) as nat)
                },
                None => after.selected == Some(0nat),
            }
            &&& after.collapsed == list.collapsed
        }),
{
}

/// Moves go by one row, by ten rows, or to the first or the last row, as far as
/// there are rows.
pub proof fn law_moves_go_by_one_ten_or_all(
    list: ListView,
    groups: Seq<model::GroupView>,
    place: nat,
)
    requires
        list.selected == Some(place),
        place < rows(groups, list.collapsed).len(),
    ensures
        ({
            let last = rows(groups, list.collapsed).len() - 1;
            let to = |navigation: ServiceNavigation| list.navigated(navigation, groups).selected;
            &&& place >= 1 ==> to(ServiceNavigation::Up) == Some((place - 1) as nat)
            &&& place == 0 ==> to(ServiceNavigation::Up) == Some(0nat)
            &&& place < last ==> to(ServiceNavigation::Down) == Some(place + 1)
            &&& place == last ==> to(ServiceNavigation::Down) == Some(place)
            &&& place >= 10 ==> to(ServiceNavigation::PageUp) == Some((place - 10) as nat)
            &&& place < 10 ==> to(ServiceNavigation::PageUp) == Some(0nat)
            &&& place + 10 <= last ==> to(ServiceNavigation::PageDown) == Some(place + 10)
            &&& place + 10 > last ==> to(ServiceNavigation::PageDown) == Some(last as nat)
            &&& to(ServiceNavigation::Home) == Some(0nat)
            &&& to(ServiceNavigation::End) == Some(last as nat)
        }),
{
}

/// Toggling collapses the selected group if it shows its services, expands it if
/// not, and touches no other group. Where no heading is selected, it does
/// nothing.
pub proof fn law_toggling_touches_the_selected_group_alone(
    list: ListView,
    groups: Seq<model::GroupView>,
    place: nat,
    other: Seq<char>,
)
    requires
        list.selected == Some(place),
        place < rows(groups, list.collapsed).len(),
    ensures
        match rows(groups, list.collapsed)[place as int] {
            RowView::Group(group) => {
                let after = list.group_toggled(groups).collapsed;
                &&& after.contains(group.name) <==> !list.collapsed.contains(group.name)
                &&& other != group.name ==> (after.contains(other) <==> list.collapsed.contains(
                    other,
                ))
            },
            RowView::Service(_) => list.group_toggled(groups) == list,
        },
{
}

/// The keys of the list: arrows, j and k, pages, Home and End move the
/// selection, Enter and the space bar toggle the group, all others leave it.
pub proof fn law_list_keys_do_what_they_say(
    list: ListView,
    groups: Seq<model::GroupView>,
    key: KeyCode,
)
    ensures
        key == KeyCode::Up || key == KeyCode::Char('k') ==> list.after(key, groups)
            == list.navigated(ServiceNavigation::Up, groups),
        key == KeyCode::Down || key == KeyCode::Char('j') ==> list.after(key, groups)
            == list.navigated(ServiceNavigation::Down, groups),
        key == KeyCode::PageUp ==> list.after(key, groups) == list.navigated(
            ServiceNavigation::PageUp,
            groups,
        ),
        key == KeyCode::PageDown ==> list.after(key, groups) == list.navigated(
            ServiceNavigation::PageDown,
            groups,
        ),
        key == KeyCode::Home ==> list.after(key, groups) == list.navigated(
            ServiceNavigation::Home,
            groups,
        ),
        key == KeyCode::End ==> list.after(key, groups) == list.navigated(
            ServiceNavigation::End,
            groups,
        ),
        key == KeyCode::Enter || key == KeyCode::Char(' ') ==> list.after(key, groups)
            == list.group_toggled(groups),
        key == KeyCode::Left || key == KeyCode::Right || key == KeyCode::Esc || key
            == KeyCode::Other ==> list.after(key, groups) == list,
        key matches KeyCode::Char(letter) && letter != 'k' && letter != 'j' && letter != ' '
            ==> list.after(key, groups) == list,
{
}

/// The keys of a service: t rebuilds it, e enables or disables it, l opens its
/// logs, a its actions, and no other key does anything to it.
pub proof fn law_service_keys_do_what_they_say(key: KeyCode)
    ensures
        service_key(key) == Some(SelectedServiceAction::Trigger) <==> key == KeyCode::Char('t'),
        service_key(key) == Some(SelectedServiceAction::ToggleEnabled) <==> key == KeyCode::Char(
            'e',
        ),
        service_key(key) == Some(SelectedServiceAction::Logs) <==> key == KeyCode::Char('l'),
        service_key(key) == Some(SelectedServiceAction::Actions) <==> key == KeyCode::Char('a'),
{
}

/// What is selected is the row at the selected place: a service where that row
/// is a service, a group where it is a heading.
pub proof fn law_the_selected_row_is_what_is_selected(
    list: ListView,
    groups: Seq<model::GroupView>,
)
    ensures
        ({
            let shown = rows(groups, list.collapsed);
            match list.selected {
                Some(place) => if place < shown.len() {
                    match shown[place as int] {
                        RowView::Service(service) => list.selected_service(groups) == Some(service)
                            && list.selected_heading(groups) is None,
                        RowView::Group(group) => list.selected_heading(groups) == Some(group.name)
                            && list.selected_service(groups) is None,
                    }
                } else {
                    list.selected_service(groups) is None && list.selected_heading(groups) is None
                },
                None => list.selected_service(groups) is None && list.selected_heading(
                    groups,
                ) is None,
            }
        }),
{
}

} // verus!
