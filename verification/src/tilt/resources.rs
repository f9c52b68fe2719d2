//! From the resources that Tilt reports to the services that the dashboard
//! shows.

use vstd::prelude::*;

use crate::order;
use crate::order::Ranked;
use crate::text;
use crate::text::CharClass;
use crate::tilt::model;
use crate::tilt::model::{
    CircleStatus, DashboardSnapshot, ResourceGroup, Service, ServiceAction, SessionIdentity,
};

verus! {

// ---------------------------------------------------------------------------
// What Tilt reports
// ---------------------------------------------------------------------------

/// The resources that Tilt reports.
#[derive(Debug)]
pub struct UIResourceList {
    pub items: Vec<UIResource>,
}

/// A resource that Tilt reports.
#[derive(Debug)]
pub struct UIResource {
    pub metadata: Metadata,
    pub status: ResourceStatus,
}

/// What identifies an object of Tilt's.
#[derive(Debug)]
pub struct Metadata {
    pub name: String,
    /// The names of the labels.
    pub labels: Vec<String>,
    /// The annotations, each a name and a value.
    pub annotations: Vec<(String, String)>,
}

/// The status of a resource.
#[derive(Debug)]
pub struct ResourceStatus {
    pub order: i32,
    pub update_status: String,
    pub runtime_status: String,
    pub disable_status: DisableStatus,
    /// Whether a build is under way.
    pub current_build: bool,
    pub queued: bool,
    /// The builds of the resource, newest first.
    pub build_history: Vec<BuildRecord>,
    pub endpoint_links: Vec<EndpointLink>,
}

/// Whether a resource is disabled.
#[derive(Debug)]
pub struct DisableStatus {
    pub state: String,
}

/// How a build ended.
#[derive(Debug)]
pub struct BuildRecord {
    pub error: String,
    pub warnings: Vec<String>,
}

/// Where a resource can be reached.
#[derive(Debug)]
pub struct EndpointLink {
    pub name: String,
    pub url: String,
}

/// The sessions that Tilt reports.
#[derive(Debug)]
pub struct SessionList {
    pub items: Vec<TiltSession>,
}

/// A session that Tilt reports.
#[derive(Debug)]
pub struct TiltSession {
    pub tiltfile_path: String,
    pub pid: u32,
    pub start_time: String,
}

/// The session that an API speaks for: the first one it reports.
pub fn parse_session_identity(list: SessionList) -> (identity: Result<SessionIdentity, String>)
    ensures
        match identity {
            Ok(found) => list.items@.len() > 0 && found == (SessionIdentity {
                tiltfile: list.items@[0].tiltfile_path,
                pid: list.items@[0].pid,
                start_time: list.items@[0].start_time,
            }),
            Err(message) => list.items@.len() == 0 && message@ == "Tilt API returned no Session"@,
        },
{
    let mut items = list.items;
    if items.len() == 0 {
        return Err("Tilt API returned no Session".to_owned());
    }
    let session = items.remove(0);
    Ok(
        SessionIdentity {
            tiltfile: session.tiltfile_path,
            pid: session.pid,
            start_time: session.start_time,
        },
    )
}

// ---------------------------------------------------------------------------
// Status
// ---------------------------------------------------------------------------

/// Whether a resource is disabled.
pub open spec fn is_disabled(status: ResourceStatus) -> bool {
    text::lower(status.disable_status.state@) == text::lower("disabled"@)
}

/// Whether a newer build than the last finished one is due or under way.
pub open spec fn is_superseded(status: ResourceStatus) -> bool {
    ||| status.current_build
    ||| status.update_status@ == "in_progress"@
    ||| status.update_status@ == "pending"@
    ||| status.queued
}

/// The error of the newest build, if there is one and no newer build is due.
pub open spec fn build_error(status: ResourceStatus) -> Option<Seq<char>> {
    if !is_superseded(status) && status.build_history@.len() > 0
        && status.build_history@[0].error@.len() > 0 {
        Some(status.build_history@[0].error@)
    } else {
        None
    }
}

/// Whether something failed.
pub open spec fn is_failing(status: ResourceStatus) -> bool {
    ||| status.update_status@ == "error"@
    ||| status.runtime_status@ == "error"@
    ||| build_error(status) is Some
}

/// Whether something is under way, due, or warns.
pub open spec fn is_working(status: ResourceStatus) -> bool {
    ||| status.update_status@ == "in_progress"@
    ||| status.update_status@ == "pending"@
    ||| status.runtime_status@ == "pending"@
    ||| status.current_build
    ||| status.queued
    ||| (status.build_history@.len() > 0 && status.build_history@[0].warnings@.len() > 0)
}

/// Whether a status word says that all is well or that there is nothing to say.
pub open spec fn is_fine(word: Seq<char>) -> bool {
    word == "ok"@ || word == "not_applicable"@
}

/// Whether all that applies is well, and something applies.
pub open spec fn is_healthy(status: ResourceStatus) -> bool {
    &&& is_fine(status.update_status@)
    &&& is_fine(status.runtime_status@)
    &&& status.update_status@ == "ok"@ || status.runtime_status@ == "ok"@
}

/// The color of a resource's circle: grey where it is disabled, else the
/// gravest of error, work and health that holds, else grey.
pub open spec fn circle_of(status: ResourceStatus) -> CircleStatus {
    if is_disabled(status) {
        CircleStatus::Grey
    } else if is_failing(status) {
        CircleStatus::Red
    } else if is_working(status) {
        CircleStatus::Orange
    } else if is_healthy(status) {
        CircleStatus::Green
    } else {
        CircleStatus::Grey
    }
}

/// What is said of a resource beside its name. Where nothing is wrong and
/// nothing under way, one word of `ok` is enough to say so; the circle is green
/// only if the other word does not leave it open.
pub open spec fn detail_of(status: ResourceStatus) -> Seq<char> {
    if is_disabled(status) {
        "disabled"@
    } else if build_error(status) is Some {
        build_error(status)->0
    } else if status.update_status@ == "error"@ || status.runtime_status@ == "error"@ {
        "error"@
    } else if status.update_status@ == "in_progress"@ || status.current_build {
        "building"@
    } else if status.queued || status.update_status@ == "pending"@ {
        "queued"@
    } else if status.runtime_status@ == "pending"@ {
        "pending"@
    } else if status.runtime_status@ == "ok"@ || status.update_status@ == "ok"@ {
        "healthy"@
    } else {
        "inactive"@
    }
}

/// Whether a resource is disabled.
fn disabled(status: &ResourceStatus) -> (result: bool)
    ensures
        result == is_disabled(*status),
{
    text::eq_ignoring_case(status.disable_status.state.as_str(), "disabled")
}

/// The error of the newest build, if there is one and no newer build is due.
pub fn latest_error(status: &ResourceStatus) -> (error: Option<&str>)
    ensures
        match error {
            Some(found) => build_error(*status) == Some(found@),
            None => build_error(*status) is None,
        },
{
    if status.current_build || text::text_eq(status.update_status.as_str(), "in_progress")
        || text::text_eq(status.update_status.as_str(), "pending") || status.queued {
        return None;
    }
    if status.build_history.len() > 0 && !status.build_history[0].error.as_str().is_empty() {
        Some(status.build_history[0].error.as_str())
    } else {
        None
    }
}

fn fine(word: &str) -> (result: bool)
    ensures
        result == is_fine(word@),
{
    text::text_eq(word, "ok") || text::text_eq(word, "not_applicable")
}

/// The color of a resource's circle.
pub fn circle_status(status: &ResourceStatus) -> (circle: CircleStatus)
    ensures
        circle == circle_of(*status),
{
    let update = status.update_status.as_str();
    let runtime = status.runtime_status.as_str();
    if disabled(status) {
        return CircleStatus::Grey;
    }
    if text::text_eq(update, "error") || text::text_eq(runtime, "error") || latest_error(
        status,
    ).is_some() {
        return CircleStatus::Red;
    }
    if text::text_eq(update, "in_progress") || text::text_eq(update, "pending") || text::text_eq(
        runtime,
        "pending",
    ) || status.current_build || status.queued || (status.build_history.len() > 0
        && status.build_history[0].warnings.len() > 0) {
        return CircleStatus::Orange;
    }
    if fine(update) && fine(runtime) && (text::text_eq(update, "ok") || text::text_eq(
        runtime,
        "ok",
    )) {
        return CircleStatus::Green;
    }
    CircleStatus::Grey
}

/// What is said of a resource beside its name.
pub fn status_detail(status: &ResourceStatus) -> (detail: &str)
    ensures
        detail@ == detail_of(*status),
{
    let update = status.update_status.as_str();
    let runtime = status.runtime_status.as_str();
    if disabled(status) {
        return "disabled";
    }
    if let Some(error) = latest_error(status) {
        return error;
    }
    if text::text_eq(update, "error") || text::text_eq(runtime, "error") {
        "error"
    } else if text::text_eq(update, "in_progress") || status.current_build {
        "building"
    } else if status.queued || text::text_eq(update, "pending") {
        "queued"
    } else if text::text_eq(runtime, "pending") {
        "pending"
    } else if text::text_eq(runtime, "ok") || text::text_eq(update, "ok") {
        "healthy"
    } else {
        "inactive"
    }
}

/// A disabled resource is grey and says so, whatever else is reported of it.
pub proof fn law_disabled_is_grey(status: ResourceStatus)
    requires
        is_disabled(status),
    ensures
        circle_of(status) == CircleStatus::Grey,
        detail_of(status) == "disabled"@,
{
}

/// An enabled resource is red exactly if its update, its newest build or its
/// runtime failed; no work under way and no health hides that.
pub proof fn law_errors_come_first(status: ResourceStatus)
    requires
        !is_disabled(status),
    ensures
        circle_of(status) == CircleStatus::Red <==> is_failing(status),
{
}

/// A status word that says nothing, or that means nothing to the dashboard,
/// leaves a resource grey where nothing is wrong and nothing under way, whatever
/// the other word says.
pub proof fn law_unknown_status_is_grey(status: ResourceStatus)
    requires
        !is_failing(status),
        !is_working(status),
        !is_fine(status.update_status@) || !is_fine(status.runtime_status@),
    ensures
        circle_of(status) == CircleStatus::Grey,
{
}

/// What is reported of a resource decides the color of its circle. Grey is what
/// is disabled, in whatever case that is written. Otherwise red is what failed:
/// an update, a running service, or the newest build where no other is due or
/// under way. Otherwise orange is what is under way, due, or warns. Otherwise
/// green is what is well, where both words say so or say that they do not
/// apply, and one says so. All else is grey.
pub proof fn law_reports_decide_the_color(status: ResourceStatus)
    ensures
        ({
            let update = status.update_status@;
            let runtime = status.runtime_status@;
            let off = text::lower(status.disable_status.state@) == text::lower("disabled"@);
            let due = status.current_build || status.queued || update == "in_progress"@ || update
                == "pending"@;
            let broken = status.build_history@.len() > 0 && status.build_history@[0].error@.len()
                > 0;
            let warns = status.build_history@.len() > 0 && status.build_history@[0].warnings@.len()
                > 0;
            let failed = update == "error"@ || runtime == "error"@ || (broken && !due);
            let busy = due || runtime == "pending"@ || warns;
            &&& off ==> circle_of(status) == CircleStatus::Grey
            &&& !off && failed ==> circle_of(status) == CircleStatus::Red
            &&& !off && !failed && busy ==> circle_of(status) == CircleStatus::Orange
            &&& !off && !failed && !busy && runtime == "ok"@ && (update == "ok"@ || update
                == "not_applicable"@) ==> circle_of(status) == CircleStatus::Green
            &&& !off && !failed && !busy && runtime == "not_applicable"@ && update == "ok"@
                ==> circle_of(status) == CircleStatus::Green
            &&& circle_of(status) == CircleStatus::Green ==> (update == "ok"@ || runtime == "ok"@)
                && (update == "ok"@ || update == "not_applicable"@) && (runtime == "ok"@ || runtime
                == "not_applicable"@)
        }),
{
}

/// Only the newest build can have failed, and only where it says why and no
/// other build is due or under way.
pub proof fn law_only_the_newest_build_counts(status: ResourceStatus)
    ensures
        match build_error(status) {
            Some(error) => {
                &&& status.build_history@.len() > 0
                &&& error == status.build_history@[0].error@
                &&& error.len() > 0
                &&& !status.current_build && !status.queued
                &&& status.update_status@ != "in_progress"@ && status.update_status@ != "pending"@
            },
            None => {
                ||| status.build_history@.len() == 0
                ||| status.build_history@[0].error@.len() == 0
                ||| status.current_build
                ||| status.queued
                ||| status.update_status@ == "in_progress"@
                ||| status.update_status@ == "pending"@
            },
        },
{
}

/// What is said of a resource is the first of these that holds: that it is
/// disabled, the error of its newest build, that there is an error, that it is
/// building, queued, pending or healthy, and otherwise that it is inactive.
pub proof fn law_the_detail_says_what_comes_first(status: ResourceStatus)
    ensures
        ({
            let update = status.update_status@;
            let runtime = status.runtime_status@;
            let off = text::lower(status.disable_status.state@) == text::lower("disabled"@);
            let due = status.current_build || status.queued || update == "in_progress"@ || update
                == "pending"@;
            let broken = status.build_history@.len() > 0 && status.build_history@[0].error@.len()
                > 0 && !due;
            let error = update == "error"@ || runtime == "error"@;
            let building = update == "in_progress"@ || status.current_build;
            let told = detail_of(status);
            &&& off ==> told == "disabled"@
            &&& !off && broken ==> told == status.build_history@[0].error@
            &&& !off && !broken && error ==> told == "error"@
            &&& !off && !broken && !error && building ==> told == "building"@
            &&& !off && !broken && !error && !building && due ==> told == "queued"@
            &&& !off && !broken && !error && !due && runtime == "pending"@ ==> told == "pending"@
            &&& !off && !broken && !error && !due && runtime != "pending"@ && (runtime == "ok"@
                || update == "ok"@) ==> told == "healthy"@
            &&& !off && !broken && !error && !due && runtime != "pending"@ && runtime != "ok"@
                && update != "ok"@ ==> told == "inactive"@
        }),
{
}

/// A resource with a green circle says that it is healthy.
pub proof fn law_green_says_healthy(status: ResourceStatus)
    requires
        circle_of(status) == CircleStatus::Green,
    ensures
        detail_of(status) == "healthy"@,
{
}

/// Whether some service has a status.
pub open spec fn any_has(services: Seq<model::ServiceView>, status: CircleStatus) -> bool {
    exists|i: int| 0 <= i < services.len() && (#[trigger] services[i]).status == status
}

/// The gravest status among services: red, then orange, then green.
pub open spec fn gravest(services: Seq<model::ServiceView>) -> CircleStatus {
    if any_has(services, CircleStatus::Red) {
        CircleStatus::Red
    } else if any_has(services, CircleStatus::Orange) {
        CircleStatus::Orange
    } else if any_has(services, CircleStatus::Green) {
        CircleStatus::Green
    } else {
        CircleStatus::Grey
    }
}

/// How grave a status is: an error more than work under way, that more than
/// health, and that more than what says nothing.
pub open spec fn graveness(status: CircleStatus) -> nat {
    match status {
        CircleStatus::Grey => 0,
        CircleStatus::Green => 1,
        CircleStatus::Orange => 2,
        CircleStatus::Red => 3,
    }
}

/// The status of services together is that of one of them, and none has a
/// graver one: an error is hidden by nothing, and work under way only by an
/// error. Services of which none says anything are grey together.
pub proof fn law_groups_have_their_gravest_status(services: Seq<model::ServiceView>)
    ensures
        forall|i: int|
            0 <= i < services.len() ==> graveness((#[trigger] services[i]).status) <= graveness(
                gravest(services),
            ),
        services.len() > 0 ==> exists|i: int|
            0 <= i < services.len() && (#[trigger] services[i]).status == gravest(services),
        services.len() == 0 ==> gravest(services) == CircleStatus::Grey,
        match gravest(services) {
            CircleStatus::Red => exists|i: int|
                0 <= i < services.len() && (#[trigger] services[i]).status == CircleStatus::Red,
            CircleStatus::Orange => forall|i: int|
                0 <= i < services.len() ==> (#[trigger] services[i]).status != CircleStatus::Red,
            CircleStatus::Green => forall|i: int|
                0 <= i < services.len() ==> (#[trigger] services[i]).status != CircleStatus::Red
                    && services[i].status != CircleStatus::Orange,
            CircleStatus::Grey => forall|i: int|
                0 <= i < services.len() ==> (#[trigger] services[i]).status == CircleStatus::Grey,
        },
{
    assert forall|i: int| 0 <= i < services.len() implies graveness((#[trigger] services[i]).status)
        <= graveness(gravest(services)) by {
        assert(any_has(services, services[i].status));
    }
    if services.len() > 0 {
        assert(graveness(services[0].status) <= graveness(gravest(services)));
        if gravest(services) == CircleStatus::Grey {
            assert(services[0].status == CircleStatus::Grey);
        }
    }
}

fn some_service_has(services: &Vec<Service>, status: CircleStatus) -> (found: bool)
    ensures
        found == any_has(order::views(services@), status),
{
    let mut index: usize = 0;
    while index < services.len()
        invariant
            index <= services@.len(),
            forall|i: int|
                0 <= i < index ==> (#[trigger] order::views(services@)[i]).status != status,
        decreases services@.len() - index,
    {
        if services[index].status == status {
            assert(order::views(services@)[index as int].status == status);
            return true;
        }
        index += 1;
    }
    false
}

/// The gravest status among services.
pub fn aggregate_status(services: &Vec<Service>) -> (status: CircleStatus)
    ensures
        status == gravest(order::views(services@)),
        forall|i: int|
            0 <= i < services@.len() ==> graveness((#[trigger] services@[i]).status) <= graveness(
                status,
            ),
        services@.len() == 0 ==> status == CircleStatus::Grey,
        services@.len() > 0 ==> exists|i: int|
            0 <= i < services@.len() && (#[trigger] services@[i]).status == status,
{
    proof {
        let all = order::views(services@);
        law_groups_have_their_gravest_status(all);
        assert forall|i: int| 0 <= i < services@.len() implies graveness(
            (#[trigger] services@[i]).status,
        ) <= graveness(gravest(all)) by {
            assert(all[i] == services@[i]@);
        }
        if services@.len() > 0 {
            let i = choose|i: int|
                0 <= i < all.len() && (#[trigger] all[i]).status == gravest(all);
            assert(services@[i].status == gravest(all));
        }
    }
    if some_service_has(services, CircleStatus::Red) {
        CircleStatus::Red
    } else if some_service_has(services, CircleStatus::Orange) {
        CircleStatus::Orange
    } else if some_service_has(services, CircleStatus::Green) {
        CircleStatus::Green
    } else {
        CircleStatus::Grey
    }
}

// ---------------------------------------------------------------------------
// Services
// ---------------------------------------------------------------------------

/// A web address without its scheme.
pub open spec fn without_scheme(url: Seq<char>) -> Seq<char> {
    match text::without_prefix(url, "https://"@) {
        Some(rest) => rest,
        None => match text::without_prefix(url, "http://"@) {
            Some(rest) => rest,
            None => url,
        },
    }
}

/// What an endpoint is called: its name, or else its address in short.
pub open spec fn link_title(link: EndpointLink) -> Seq<char> {
    if link.name@.len() > 0 {
        link.name@
    } else {
        text::trimmed_end(without_scheme(link.url@), CharClass::Slash)
    }
}

/// What an endpoint is called.
pub fn endpoint_label(link: &EndpointLink) -> (label: String)
    ensures
        label@ == link_title(*link),
{
    if !link.name.as_str().is_empty() {
        return link.name.clone();
    }
    let rest = match text::strip_prefix(link.url.as_str(), "https://") {
        Some(rest) => rest,
        None => match text::strip_prefix(link.url.as_str(), "http://") {
            Some(rest) => rest,
            None => link.url.clone(),
        },
    };
    text::trim_end(rest.as_str(), CharClass::Slash)
}

/// The action that opens an endpoint.
pub open spec fn link_action(link: EndpointLink) -> model::ActionView {
    model::ActionView::Link { label: link_title(link), url: link.url@ }
}

/// The actions that open endpoints, in the order Tilt reports them.
pub open spec fn link_actions(links: Seq<EndpointLink>) -> Seq<model::ActionView> {
    links.map_values(|link: EndpointLink| link_action(link))
}

fn endpoint_actions(links: &Vec<EndpointLink>) -> (actions: Vec<ServiceAction>)
    ensures
        order::views(actions@) == link_actions(links@),
{
    let mut actions: Vec<ServiceAction> = Vec::new();
    let mut index: usize = 0;
    while index < links.len()
        invariant
            index <= links@.len(),
            order::views(actions@) == link_actions(links@).take(index as int),
        decreases links@.len() - index,
    {
        let ghost before = actions@;
        let action = ServiceAction::Link {
            label: endpoint_label(&links[index]),
            url: links[index].url.clone(),
        };
        actions.push(action);
        proof {
            assert(order::views(actions@) =~= order::views(before).push(action@));
            assert(link_actions(links@).take(index + 1) =~= link_actions(links@).take(
                index as int,
            ).push(link_action(links@[index as int])));
        }
        index += 1;
    }
    assert(link_actions(links@).take(links@.len() as int) =~= link_actions(links@));
    actions
}

/// The service that a resource is shown as.
pub open spec fn service_of(resource: UIResource) -> model::ServiceView {
    model::ServiceView {
        name: resource.metadata.name@,
        status: circle_of(resource.status),
        detail: detail_of(resource.status),
        disabled: is_disabled(resource.status),
        actions: link_actions(resource.status.endpoint_links@),
    }
}

fn service(resource: &UIResource) -> (result: Service)
    ensures
        result@ == service_of(*resource),
{
    Service {
        name: resource.metadata.name.clone(),
        status: circle_status(&resource.status),
        detail: status_detail(&resource.status).to_owned(),
        disabled: disabled(&resource.status),
        actions: endpoint_actions(&resource.status.endpoint_links),
    }
}

/// A service and its place in Tilt's order.
#[derive(Debug)]
pub struct ServiceRow {
    pub order: i32,
    pub service: Service,
}

impl View for ServiceRow {
    type V = (i32, model::ServiceView);

    open spec fn view(&self) -> (i32, model::ServiceView) {
        (self.order, self.service@)
    }
}

impl Ranked for ServiceRow {
    open spec fn ranks(left: (i32, model::ServiceView), right: (i32, model::ServiceView)) -> bool {
        ||| left.0 < right.0
        ||| (left.0 == right.0 && order::text_le(left.1.name, right.1.name))
    }

    fn not_after(&self, other: &Self) -> (ordered: bool) {
        self.order < other.order || (self.order == other.order && order::text_not_after(
            self.service.name.as_str(),
            other.service.name.as_str(),
        ))
    }
}

/// The order of services: Tilt's, and by name where Tilt's leaves it open.
pub open spec fn row_order() -> spec_fn(
    (i32, model::ServiceView),
    (i32, model::ServiceView),
) -> bool {
    order::rank_order::<ServiceRow>()
}

/// The order of services is total and transitive.
pub proof fn lemma_row_order()
    ensures
        order::is_total_preorder(row_order()),
{
    let le = row_order();
    assert forall|left: (i32, model::ServiceView), right: (i32, model::ServiceView)|
        #[trigger] le(left, right) || le(right, left) by {
        order::law_text_order_is_total(left.1.name, right.1.name);
    }
    assert forall|
        first: (i32, model::ServiceView),
        second: (i32, model::ServiceView),
        third: (i32, model::ServiceView),
    |
        #[trigger] le(first, second) && #[trigger] le(second, third) implies le(first, third) by {
        if first.0 == second.0 && second.0 == third.0 {
            order::law_text_order_is_transitive(first.1.name, second.1.name, third.1.name);
        }
    }
}

// ---------------------------------------------------------------------------
// Groups
// ---------------------------------------------------------------------------

/// Whether a resource stands for the Tiltfile itself.
pub open spec fn is_tiltfile(resource: UIResource) -> bool {
    resource.metadata.name@ == "(Tiltfile)"@
}

/// Which services to show together.
#[derive(Clone, Copy, Debug)]
pub enum Selection<'a> {
    /// Every service.
    All,
    /// The services with a label.
    Labelled(&'a str),
    /// The services without labels.
    Unlabelled,
}

/// Which services to show together, as mathematics has it.
pub enum SelectionView {
    All,
    Labelled(Seq<char>),
    Unlabelled,
}

impl<'a> View for Selection<'a> {
    type V = SelectionView;

    open spec fn view(&self) -> SelectionView {
        match self {
            Selection::All => SelectionView::All,
            Selection::Labelled(label) => SelectionView::Labelled(label@),
            Selection::Unlabelled => SelectionView::Unlabelled,
        }
    }
}

/// Whether a resource has a label.
pub open spec fn has_label(resource: UIResource, label: Seq<char>) -> bool {
    text::texts(resource.metadata.labels@).contains(label)
}

/// Whether a resource is a service of a selection.
pub open spec fn is_selected(resource: UIResource, selection: SelectionView) -> bool {
    !is_tiltfile(resource) && match selection {
        SelectionView::All => true,
        SelectionView::Labelled(label) => has_label(resource, label),
        SelectionView::Unlabelled => resource.metadata.labels@.len() == 0,
    }
}

/// Whether a resource is a service of a selection, as a function.
pub open spec fn selects(selection: SelectionView) -> spec_fn(UIResource) -> bool {
    |resource: UIResource| is_selected(resource, selection)
}

/// The resources of a selection, as Tilt reports them.
pub open spec fn selected(items: Seq<UIResource>, selection: SelectionView) -> Seq<UIResource> {
    items.filter(selects(selection))
}

/// The place and the service of a resource.
pub open spec fn row_of(resource: UIResource) -> (i32, model::ServiceView) {
    (resource.status.order, service_of(resource))
}

/// The services of a selection with their places, as Tilt reports them.
pub open spec fn rows_of(items: Seq<UIResource>, selection: SelectionView) -> Seq<
    (i32, model::ServiceView),
> {
    selected(items, selection).map_values(|resource: UIResource| row_of(resource))
}

/// The services of rows.
pub open spec fn services_in(rows: Seq<(i32, model::ServiceView)>) -> Seq<model::ServiceView> {
    rows.map_values(|row: (i32, model::ServiceView)| row.1)
}

/// The services of a selection, in the order they are shown.
pub open spec fn services_of(items: Seq<UIResource>, selection: SelectionView) -> Seq<
    model::ServiceView,
> {
    services_in(order::stable_sort(rows_of(items, selection), row_order()))
}

/// The services of a selection under a heading.
pub open spec fn group_of(
    name: Seq<char>,
    items: Seq<UIResource>,
    selection: SelectionView,
) -> model::GroupView {
    model::GroupView {
        name,
        status: gravest(services_of(items, selection)),
        services: services_of(items, selection),
    }
}

/// Whether some service has a label.
pub open spec fn is_label(items: Seq<UIResource>, label: Seq<char>) -> bool {
    exists|i: int|
        0 <= i < items.len() && is_selected(#[trigger] items[i], SelectionView::Labelled(label))
}

/// Whether some service has no label.
pub open spec fn has_unlabelled(items: Seq<UIResource>) -> bool {
    exists|i: int|
        0 <= i < items.len() && is_selected(#[trigger] items[i], SelectionView::Unlabelled)
}

/// The names of groups.
pub open spec fn group_names(groups: Seq<model::GroupView>) -> Seq<Seq<char>> {
    groups.map_values(|group: model::GroupView| group.name)
}

/// The group of what has no label, where there is any.
pub open spec fn unlabelled_groups(items: Seq<UIResource>) -> Seq<model::GroupView> {
    if has_unlabelled(items) {
        seq![group_of("Ungrouped"@, items, SelectionView::Unlabelled)]
    } else {
        Seq::empty()
    }
}

/// Whether groups are those of the labels: one for each, by name.
pub open spec fn are_label_groups(groups: Seq<model::GroupView>, items: Seq<UIResource>) -> bool {
    &&& order::is_strictly_ascending(group_names(groups))
    &&& forall|label: Seq<char>|
        #[trigger] group_names(groups).contains(label) <==> is_label(items, label)
    &&& forall|i: int|
        0 <= i < groups.len() ==> #[trigger] groups[i] == group_of(
            groups[i].name,
            items,
            SelectionView::Labelled(groups[i].name),
        )
}

/// Whether groups are those of the resources: first those of the labels, then
/// that of what has no label.
pub open spec fn is_grouping_of(groups: Seq<model::GroupView>, items: Seq<UIResource>) -> bool {
    let labelled = groups.take(groups.len() - unlabelled_groups(items).len());
    &&& unlabelled_groups(items).len() <= groups.len()
    &&& groups == labelled + unlabelled_groups(items)
    &&& are_label_groups(labelled, items)
}

/// The error of the Tiltfile itself: that of the last resource that stands for
/// it.
pub open spec fn tiltfile_error_of(items: Seq<UIResource>) -> Option<Seq<char>>
    decreases items.len(),
{
    if items.len() == 0 {
        None
    } else if is_tiltfile(items.last()) {
        build_error(items.last().status)
    } else {
        tiltfile_error_of(items.drop_last())
    }
}

/// Whether a snapshot shows the resources that Tilt reports.
pub open spec fn is_snapshot_of(snapshot: model::SnapshotView, items: Seq<UIResource>) -> bool {
    &&& snapshot.services == services_of(items, SelectionView::All)
    &&& is_grouping_of(snapshot.groups, items)
    &&& snapshot.tiltfile_error == tiltfile_error_of(items)
}

proof fn lemma_rows_step(items: Seq<UIResource>, selection: SelectionView)
    requires
        items.len() > 0,
    ensures
        rows_of(items, selection) == if is_selected(items.last(), selection) {
            rows_of(items.drop_last(), selection).push(row_of(items.last()))
        } else {
            rows_of(items.drop_last(), selection)
        },
{
    reveal(Seq::filter);
    let front = selected(items.drop_last(), selection);
    if is_selected(items.last(), selection) {
        assert(selected(items, selection) =~= front.push(items.last()));
        assert(rows_of(items, selection) =~= rows_of(items.drop_last(), selection).push(
            row_of(items.last()),
        ));
    } else {
        assert(selected(items, selection) =~= front);
    }
}

proof fn lemma_one_more_resource(items: Seq<UIResource>, resource: UIResource)
    ensures
        forall|label: Seq<char>|
            #[trigger] is_label(items.push(resource), label) <==> is_label(items, label)
                || is_selected(resource, SelectionView::Labelled(label)),
        has_unlabelled(items.push(resource)) <==> has_unlabelled(items) || is_selected(
            resource,
            SelectionView::Unlabelled,
        ),
{
    let more = items.push(resource);
    assert(more[items.len() as int] == resource);
    assert(forall|i: int| 0 <= i < items.len() ==> #[trigger] more[i] == items[i]);
    assert forall|label: Seq<char>|
        #[trigger] is_label(items.push(resource), label) <==> is_label(items, label) || is_selected(
            resource,
            SelectionView::Labelled(label),
        ) by {
        if is_label(items, label) {
            let i = choose|i: int|
                0 <= i < items.len() && is_selected(
                    #[trigger] items[i],
                    SelectionView::Labelled(label),
                );
            assert(is_selected(more[i], SelectionView::Labelled(label)));
        }
    }
    if has_unlabelled(items) {
        let i = choose|i: int|
            0 <= i < items.len() && is_selected(#[trigger] items[i], SelectionView::Unlabelled);
        assert(is_selected(more[i], SelectionView::Unlabelled));
    }
}

fn insert_labels(names: &mut Vec<String>, labels: &Vec<String>)
    requires
        order::is_strictly_ascending(text::texts(old(names)@)),
    ensures
        order::is_strictly_ascending(text::texts(final(names)@)),
        forall|name: Seq<char>|
            #[trigger] text::texts(final(names)@).contains(name) <==> text::texts(
                old(names)@,
            ).contains(name) || text::texts(labels@).contains(name),
{
    let ghost all = text::texts(labels@);
    let mut index: usize = 0;
    while index < labels.len()
        invariant
            index <= labels@.len(),
            all == text::texts(labels@),
            order::is_strictly_ascending(text::texts(names@)),
            forall|name: Seq<char>|
                #[trigger] text::texts(names@).contains(name) <==> text::texts(
                    old(names)@,
                ).contains(name) || all.take(index as int).contains(name),
        decreases labels@.len() - index,
    {
        let ghost seen = all.take(index as int);
        proof {
            let current = all[index as int];
            assert(all.take(index + 1) =~= seen.push(current));
            assert forall|name: Seq<char>|
                #[trigger] seen.push(current).contains(name) <==> seen.contains(name) || name
                    == current by {
                if seen.contains(name) {
                    let i = choose|i: int| 0 <= i < seen.len() && seen[i] == name;
                    assert(seen.push(current)[i] == name);
                }
                assert(seen.push(current)[seen.len() as int] == current);
            }
        }
        order::insert_name(names, labels[index].as_str());
        index += 1;
    }
    assert(all.take(all.len() as int) =~= all);
}

fn stands_for_tiltfile(resource: &UIResource) -> (result: bool)
    ensures
        result == is_tiltfile(*resource),
{
    text::text_eq(resource.metadata.name.as_str(), "(Tiltfile)")
}

fn carries_label(resource: &UIResource, label: &str) -> (found: bool)
    ensures
        found == has_label(*resource, label@),
{
    let mut index: usize = 0;
    while index < resource.metadata.labels.len()
        invariant
            index <= resource.metadata.labels@.len(),
            forall|i: int| 0 <= i < index ==> #[trigger] text::texts(resource.metadata.labels@)[i] != label@,
        decreases resource.metadata.labels@.len() - index,
    {
        if text::text_eq(resource.metadata.labels[index].as_str(), label) {
            assert(text::texts(resource.metadata.labels@)[index as int] == label@);
            return true;
        }
        index += 1;
    }
    false
}

fn rows(items: &Vec<UIResource>, selection: Selection) -> (found: Vec<ServiceRow>)
    ensures
        order::views(found@) == rows_of(items@, selection@),
{
    let mut found: Vec<ServiceRow> = Vec::new();
    let mut index: usize = 0;
    proof {
        reveal(Seq::filter);
        assert(order::views(found@) =~= rows_of(items@.take(0), selection@));
    }
    while index < items.len()
        invariant
            index <= items@.len(),
            order::views(found@) == rows_of(items@.take(index as int), selection@),
        decreases items@.len() - index,
    {
        let resource = &items[index];
        proof {
            lemma_rows_step(items@.take(index + 1), selection@);
            assert(items@.take(index + 1).drop_last() =~= items@.take(index as int));
        }
        let wanted = !stands_for_tiltfile(resource) && match selection {
            Selection::All => true,
            Selection::Labelled(label) => carries_label(resource, label),
            Selection::Unlabelled => resource.metadata.labels.len() == 0,
        };
        if wanted {
            let ghost before = found@;
            let row = ServiceRow { order: resource.status.order, service: service(resource) };
            found.push(row);
            assert(order::views(found@) =~= order::views(before).push(row@));
        }
        index += 1;
    }
    assert(items@.take(items@.len() as int) =~= items@);
    found
}

/// Sorts rows as services are shown.
pub fn sort_services(rows: Vec<ServiceRow>) -> (sorted: Vec<ServiceRow>)
    ensures
        order::views(sorted@) == order::stable_sort(order::views(rows@), row_order()),
{
    order::sort_by_rank(rows)
}

fn shown_services(items: &Vec<UIResource>, selection: Selection) -> (services: Vec<Service>)
    ensures
        order::views(services@) == services_of(items@, selection@),
{
    let mut remaining = sort_services(rows(items, selection));
    let ghost all = services_of(items@, selection@);
    let ghost sorted = order::views(remaining@);
    let mut services: Vec<Service> = Vec::new();
    while remaining.len() > 0
        invariant
            all == services_in(sorted),
            order::views(remaining@) == sorted.skip(services@.len() as int),
            order::views(services@) == all.take(services@.len() as int),
            services@.len() + remaining@.len() == sorted.len(),
        decreases remaining@.len(),
    {
        let ghost count = services@.len() as int;
        let ghost before = services@;
        let ghost left = remaining@;
        let row = remaining.remove(0);
        proof {
            assert(sorted.skip(count)[0] == row@);
            assert(order::views(remaining@) =~= order::views(left).drop_first());
            assert(sorted.skip(count).drop_first() =~= sorted.skip(count + 1));
            assert(all.take(count + 1) =~= all.take(count).push(row@.1));
            assert(order::views(before.push(row.service)) =~= order::views(before).push(row@.1));
        }
        services.push(row.service);
    }
    assert(all.take(all.len() as int) =~= all);
    services
}

fn resource_group(name: String, items: &Vec<UIResource>, selection: Selection) -> (group:
    ResourceGroup)
    ensures
        group@ == group_of(name@, items@, selection@),
{
    let services = shown_services(items, selection);
    ResourceGroup { name, status: aggregate_status(&services), services }
}

/// What the dashboard shows of the resources that Tilt reports.
pub fn parse_ui_resources(list: UIResourceList) -> (snapshot: DashboardSnapshot)
    ensures
        is_snapshot_of(snapshot@, list.items@),
{
    let items = list.items;
    let mut names: Vec<String> = Vec::new();
    let mut unlabelled = false;
    let mut tiltfile_error: Option<String> = None;
    let mut index: usize = 0;
    while index < items.len()
        invariant
            index <= items@.len(),
            order::is_strictly_ascending(text::texts(names@)),
            forall|label: Seq<char>|
                #[trigger] text::texts(names@).contains(label) <==> is_label(
                    items@.take(index as int),
                    label,
                ),
            unlabelled == has_unlabelled(items@.take(index as int)),
            model::optional_text(tiltfile_error) == tiltfile_error_of(items@.take(index as int)),
        decreases items@.len() - index,
    {
        let resource = &items[index];
        let ghost seen = items@.take(index as int);
        let ghost more = items@.take(index + 1);
        proof {
            assert(more.drop_last() =~= seen);
            assert(more =~= seen.push(*resource));
            lemma_one_more_resource(seen, *resource);
        }
        if stands_for_tiltfile(resource) {
            tiltfile_error = match latest_error(&resource.status) {
                Some(error) => Some(error.to_owned()),
                None => None,
            };
        } else if resource.metadata.labels.len() == 0 {
            unlabelled = true;
        } else {
            insert_labels(&mut names, &resource.metadata.labels);
        }
        index += 1;
    }
    assert(items@.take(items@.len() as int) =~= items@);
    let mut groups: Vec<ResourceGroup> = Vec::new();
    let mut place: usize = 0;
    while place < names.len()
        invariant
            place <= names@.len(),
            order::views(groups@).len() == place,
            forall|i: int|
                0 <= i < place ==> #[trigger] order::views(groups@)[i] == group_of(
                    text::texts(names@)[i],
                    items@,
                    SelectionView::Labelled(text::texts(names@)[i]),
                ),
        decreases names@.len() - place,
    {
        let name = names[place].clone();
        let group = resource_group(name, &items, Selection::Labelled(names[place].as_str()));
        let ghost before = order::views(groups@);
        groups.push(group);
        assert(order::views(groups@) =~= before.push(group@));
        place += 1;
    }
    let ghost labelled = order::views(groups@);
    assert(group_names(labelled) =~= text::texts(names@));
    assert(are_label_groups(labelled, items@));
    if unlabelled {
        let group = resource_group("Ungrouped".to_owned(), &items, Selection::Unlabelled);
        groups.push(group);
        assert(order::views(groups@) =~= labelled.push(group@));
    }
    proof {
        let last = unlabelled_groups(items@);
        assert(order::views(groups@) =~= labelled + last);
        assert(order::views(groups@).take(labelled.len() as int) =~= labelled);
    }
    let services = shown_services(&items, Selection::All);
    DashboardSnapshot { services, groups, tiltfile_error }
}

/// The resources that Tilt reports fix the snapshot.
pub proof fn law_snapshot_is_unique(
    left: model::SnapshotView,
    right: model::SnapshotView,
    items: Seq<UIResource>,
)
    requires
        is_snapshot_of(left, items),
        is_snapshot_of(right, items),
    ensures
        left == right,
{
    let last = unlabelled_groups(items);
    let first = left.groups.take(left.groups.len() - last.len());
    let second = right.groups.take(right.groups.len() - last.len());
    assert forall|name: Seq<char>| group_names(first).contains(name) <==> group_names(
        second,
    ).contains(name) by {}
    order::law_strictly_ascending_is_unique(group_names(first), group_names(second));
    assert(group_names(first).len() == group_names(second).len());
    assert forall|i: int| 0 <= i < first.len() implies first[i] == second[i] by {
        assert(group_names(first)[i] == first[i].name);
        assert(group_names(second)[i] == second[i].name);
    }
    assert(first =~= second);
}

proof fn lemma_sorted_contains<V>(items: Seq<V>, le: spec_fn(V, V) -> bool, item: V)
    requires
        order::is_total_preorder(le),
    ensures
        order::stable_sort(items, le).contains(item) <==> items.contains(item),
{
    broadcast use vstd::seq_lib::group_to_multiset_ensures;

    order::law_sort_keeps_the_items(items, le);
    let sorted = order::stable_sort(items, le);
    assert(sorted.contains(item) <==> sorted.to_multiset().count(item) > 0);
    assert(items.contains(item) <==> items.to_multiset().count(item) > 0);
}

/// A selection shows each of its resources and no others; the Tiltfile's own
/// resource is in none.
pub proof fn law_selection_shows_its_resources(
    items: Seq<UIResource>,
    selection: SelectionView,
    service: model::ServiceView,
)
    ensures
        services_of(items, selection).contains(service) <==> exists|i: int|
            0 <= i < items.len() && is_selected(#[trigger] items[i], selection) && service_of(
                items[i],
            ) == service,
        services_of(items, selection).len() == selected(items, selection).len(),
        services_of(items, selection).contains(service) ==> service.name != "(Tiltfile)"@,
{
    let rows = rows_of(items, selection);
    let sorted = order::stable_sort(rows, row_order());
    let chosen = selected(items, selection);
    let keeps = selects(selection);
    lemma_row_order();
    order::law_sort_is_ascending(rows, row_order());
    if services_of(items, selection).contains(service) {
        let k = choose|k: int|
            0 <= k < sorted.len() && services_of(items, selection)[k] == service;
        lemma_sorted_contains(rows, row_order(), sorted[k]);
        assert(sorted.contains(sorted[k]));
        let m = choose|m: int| 0 <= m < rows.len() && rows[m] == sorted[k];
        assert(chosen.contains(chosen[m]));
        items.lemma_filter_contains_rev(keeps, chosen[m]);
        items.lemma_filter_pred(keeps, m);
        let i = choose|i: int| 0 <= i < items.len() && items[i] == chosen[m];
        assert(is_selected(items[i], selection) && service_of(items[i]) == service);
    }
    if exists|i: int|
        0 <= i < items.len() && is_selected(#[trigger] items[i], selection) && service_of(items[i])
            == service {
        let i = choose|i: int|
            0 <= i < items.len() && is_selected(#[trigger] items[i], selection) && service_of(
                items[i],
            ) == service;
        items.lemma_filter_contains(keeps, i);
        let m = choose|m: int| 0 <= m < chosen.len() && chosen[m] == items[i];
        assert(rows[m] == row_of(items[i]));
        lemma_sorted_contains(rows, row_order(), rows[m]);
        let k = choose|k: int| 0 <= k < sorted.len() && sorted[k] == rows[m];
        assert(services_of(items, selection)[k] == service);
    }
}

/// Services come in Tilt's order, and by name where Tilt's leaves it open.
pub proof fn law_services_come_in_order(items: Seq<UIResource>, selection: SelectionView)
    ensures
        order::is_ascending(order::stable_sort(rows_of(items, selection), row_order()), row_order()),
{
    lemma_row_order();
    order::law_sort_is_ascending(rows_of(items, selection), row_order());
}

/// A service is in the group of each of its labels.
pub proof fn law_labelled_service_is_in_each_group(
    groups: Seq<model::GroupView>,
    items: Seq<UIResource>,
    place: int,
    label: Seq<char>,
)
    requires
        is_grouping_of(groups, items),
        0 <= place < items.len(),
        !is_tiltfile(items[place]),
        has_label(items[place], label),
    ensures
        exists|i: int|
            0 <= i < groups.len() && (#[trigger] groups[i]).name == label
                && groups[i].services.contains(service_of(items[place])),
{
    let labelled = groups.take(groups.len() - unlabelled_groups(items).len());
    assert(is_selected(items[place], SelectionView::Labelled(label)));
    assert(group_names(labelled).contains(label));
    let i = choose|i: int| 0 <= i < labelled.len() && group_names(labelled)[i] == label;
    assert(labelled[i] == groups[i]);
    law_selection_shows_its_resources(
        items,
        SelectionView::Labelled(label),
        service_of(items[place]),
    );
}

/// A service without labels is in the group "Ungrouped", which comes last.
pub proof fn law_unlabelled_service_is_in_the_last_group(
    groups: Seq<model::GroupView>,
    items: Seq<UIResource>,
    place: int,
)
    requires
        is_grouping_of(groups, items),
        0 <= place < items.len(),
        !is_tiltfile(items[place]),
        items[place].metadata.labels@.len() == 0,
    ensures
        groups.len() > 0,
        groups.last().name == "Ungrouped"@,
        groups.last().services.contains(service_of(items[place])),
{
    assert(is_selected(items[place], SelectionView::Unlabelled));
    assert(groups.last() == unlabelled_groups(items)[0]);
    law_selection_shows_its_resources(
        items,
        SelectionView::Unlabelled,
        service_of(items[place]),
    );
}

// ---------------------------------------------------------------------------
// What is shown of what is reported
// ---------------------------------------------------------------------------

proof fn lemma_slashes_come_off(content: Seq<char>, slashes: Seq<char>)
    requires
        content.len() > 0 ==> content[content.len() - 1] != '/',
        forall|i: int| 0 <= i < slashes.len() ==> #[trigger] slashes[i] == '/',
    ensures
        text::trimmed_end(content + slashes, CharClass::Slash) == content,
{
    let whole = content + slashes;
    text::law_trimming_the_end_takes_the_class_alone(whole, CharClass::Slash);
    let kept = text::trimmed_end(whole, CharClass::Slash);
    if kept.len() < content.len() {
        assert(whole[content.len() - 1] == content[content.len() - 1]);
    }
    if kept.len() > content.len() {
        assert(kept[kept.len() - 1] == whole[kept.len() - 1]);
        assert(whole[kept.len() - 1] == slashes[kept.len() - 1 - content.len()]);
    }
    assert(kept =~= content);
}

/// An endpoint goes by its name where it has one. Where it has none, it goes by
/// its address, without the scheme of the web and without slashes at the end.
#[verifier::spinoff_prover]
pub proof fn law_endpoints_go_by_name_or_address(
    link: EndpointLink,
    address: Seq<char>,
    slashes: Seq<char>,
)
    requires
        address.len() > 0 ==> address[address.len() - 1] != '/',
        forall|i: int| 0 <= i < slashes.len() ==> #[trigger] slashes[i] == '/',
    ensures
        link.name@.len() > 0 ==> link_title(link) == link.name@,
        link.name@.len() == 0 && link.url@ == "https://"@ + address + slashes ==> link_title(link)
            == address,
        link.name@.len() == 0 && link.url@ == "http://"@ + address + slashes ==> link_title(link)
            == address,
        link.name@.len() == 0 && link.url@ == address + slashes && text::without_prefix(
            link.url@,
            "https://"@,
        ) is None && text::without_prefix(link.url@, "http://"@) is None ==> link_title(link)
            == address,
{
    let rest = address + slashes;
    let (secure, plain) = ("https://"@, "http://"@);
    lemma_slashes_come_off(address, slashes);
    lemma_schemes_come_off(rest);
    lemma_grouping(secure, address, slashes);
    lemma_grouping(plain, address, slashes);
    if link.name@.len() == 0 {
        let short = without_scheme(link.url@);
        if link.url@ == secure + address + slashes || link.url@ == plain + address + slashes {
            assert(short == rest);
        }
    }
}

proof fn lemma_grouping(first: Seq<char>, second: Seq<char>, third: Seq<char>)
    ensures
        first + second + third == first + (second + third),
{
    assert(first + second + third =~= first + (second + third));
}

#[verifier::spinoff_prover]
proof fn lemma_schemes_come_off(rest: Seq<char>)
    ensures
        without_scheme("https://"@ + rest) == rest,
        without_scheme("http://"@ + rest) == rest,
{
    let plain = "http://"@ + rest;
    text::law_prefixes_come_off("https://"@, rest, plain);
    text::law_prefixes_come_off("http://"@, rest, plain);
    lemma_plain_is_not_secure(rest);
}

proof fn lemma_plain_is_not_secure(rest: Seq<char>)
    ensures
        !("https://"@.is_prefix_of("http://"@ + rest)),
{
    reveal_strlit("https://");
    reveal_strlit("http://");
    let plain = "http://"@ + rest;
    assert(plain[4] == ':');
    if "https://"@.is_prefix_of(plain) {
        assert(plain.subrange(0, 8)[4] == "https://"@[4]);
    }
}

/// A service is called like its resource, is as disabled as it, and offers what
/// opens its endpoints, one action for each in the order they are reported.
pub proof fn law_services_are_their_resources(resource: UIResource, place: int)
    ensures
        ({
            let service = service_of(resource);
            let links = resource.status.endpoint_links@;
            &&& service.name == resource.metadata.name@
            &&& service.status == circle_of(resource.status)
            &&& service.detail == detail_of(resource.status)
            &&& service.disabled <==> text::lower(resource.status.disable_status.state@)
                == text::lower("disabled"@)
            &&& service.actions.len() == links.len()
            &&& 0 <= place < links.len() ==> service.actions[place] == (model::ActionView::Link {
                label: link_title(links[place]),
                url: links[place].url@,
            })
        }),
{
}

/// What the dashboard lists is every resource but the Tiltfile's own, each once.
pub proof fn law_every_resource_is_listed_once(
    snapshot: model::SnapshotView,
    items: Seq<UIResource>,
    service: model::ServiceView,
)
    requires
        is_snapshot_of(snapshot, items),
    ensures
        snapshot.services.contains(service) <==> exists|i: int|
            0 <= i < items.len() && (#[trigger] items[i]).metadata.name@ != "(Tiltfile)"@
                && service_of(items[i]) == service,
        snapshot.services.len() == items.filter(
            |resource: UIResource| resource.metadata.name@ != "(Tiltfile)"@,
        ).len(),
{
    law_selection_shows_its_resources(items, SelectionView::All, service);
    let raw = |resource: UIResource| resource.metadata.name@ != "(Tiltfile)"@;
    assert(selects(SelectionView::All) =~= raw);
    if exists|i: int|
        0 <= i < items.len() && (#[trigger] items[i]).metadata.name@ != "(Tiltfile)"@ && service_of(
            items[i],
        ) == service {
        let i = choose|i: int|
            0 <= i < items.len() && (#[trigger] items[i]).metadata.name@ != "(Tiltfile)"@
                && service_of(items[i]) == service;
        assert(is_selected(items[i], SelectionView::All));
    }
}

/// There is a group for each label, and it holds the services with that label
/// and no others. The Tiltfile's own resource is in none.
pub proof fn law_groups_hold_the_services_with_their_label(
    snapshot: model::SnapshotView,
    items: Seq<UIResource>,
    label: Seq<char>,
    service: model::ServiceView,
)
    requires
        is_snapshot_of(snapshot, items),
        label != "Ungrouped"@,
    ensures
        (exists|k: int|
            0 <= k < snapshot.groups.len() && (#[trigger] snapshot.groups[k]).name == label
                && snapshot.groups[k].services.contains(service)) <==> exists|i: int|
            0 <= i < items.len() && (#[trigger] items[i]).metadata.name@ != "(Tiltfile)"@
                && text::texts(items[i].metadata.labels@).contains(label) && service_of(items[i])
                == service,
{
    let groups = snapshot.groups;
    let last = unlabelled_groups(items);
    let labelled = groups.take(groups.len() - last.len());
    let selection = SelectionView::Labelled(label);
    law_selection_shows_its_resources(items, selection, service);
    if exists|k: int|
        0 <= k < groups.len() && (#[trigger] groups[k]).name == label
            && groups[k].services.contains(service) {
        let k = choose|k: int|
            0 <= k < groups.len() && (#[trigger] groups[k]).name == label
                && groups[k].services.contains(service);
        if k >= labelled.len() {
            assert(groups[k] == last[0]);
        }
        assert(groups[k] == labelled[k]);
        let i = choose|i: int|
            0 <= i < items.len() && is_selected(#[trigger] items[i], selection) && service_of(
                items[i],
            ) == service;
        assert(items[i].metadata.name@ != "(Tiltfile)"@);
    }
    if exists|i: int|
        0 <= i < items.len() && (#[trigger] items[i]).metadata.name@ != "(Tiltfile)"@
            && text::texts(items[i].metadata.labels@).contains(label) && service_of(items[i])
            == service {
        let i = choose|i: int|
            0 <= i < items.len() && (#[trigger] items[i]).metadata.name@ != "(Tiltfile)"@
                && text::texts(items[i].metadata.labels@).contains(label) && service_of(items[i])
                == service;
        law_labelled_service_is_in_each_group(groups, items, i, label);
    }
}

/// Services without labels, and only they, are in a group of their own, called
/// "Ungrouped", behind all others. Where there are none, there is no such group.
pub proof fn law_unlabelled_services_come_last(
    snapshot: model::SnapshotView,
    items: Seq<UIResource>,
    service: model::ServiceView,
)
    requires
        is_snapshot_of(snapshot, items),
    ensures
        ({
            let some = exists|i: int|
                0 <= i < items.len() && (#[trigger] items[i]).metadata.name@ != "(Tiltfile)"@
                    && items[i].metadata.labels@.len() == 0;
            &&& some ==> snapshot.groups.len() > 0 && snapshot.groups.last().name == "Ungrouped"@
            &&& some ==> (snapshot.groups.last().services.contains(service) <==> exists|i: int|
                0 <= i < items.len() && (#[trigger] items[i]).metadata.name@ != "(Tiltfile)"@
                    && items[i].metadata.labels@.len() == 0 && service_of(items[i]) == service)
            &&& !some && !(exists|i: int|
                0 <= i < items.len() && text::texts(
                    (#[trigger] items[i]).metadata.labels@,
                ).contains("Ungrouped"@)) ==> forall|k: int|
                0 <= k < snapshot.groups.len() ==> (#[trigger] snapshot.groups[k]).name
                    != "Ungrouped"@
        }),
{
    let groups = snapshot.groups;
    let last = unlabelled_groups(items);
    let labelled = groups.take(groups.len() - last.len());
    law_selection_shows_its_resources(items, SelectionView::Unlabelled, service);
    let some = exists|i: int|
        0 <= i < items.len() && (#[trigger] items[i]).metadata.name@ != "(Tiltfile)"@
            && items[i].metadata.labels@.len() == 0;
    if some {
        let i = choose|i: int|
            0 <= i < items.len() && (#[trigger] items[i]).metadata.name@ != "(Tiltfile)"@
                && items[i].metadata.labels@.len() == 0;
        assert(is_selected(items[i], SelectionView::Unlabelled));
        assert(groups.last() == last[0]);
        if groups.last().services.contains(service) {
            let j = choose|j: int|
                0 <= j < items.len() && is_selected(#[trigger] items[j], SelectionView::Unlabelled)
                    && service_of(items[j]) == service;
            assert(items[j].metadata.labels@.len() == 0);
        }
        if exists|j: int|
            0 <= j < items.len() && (#[trigger] items[j]).metadata.name@ != "(Tiltfile)"@
                && items[j].metadata.labels@.len() == 0 && service_of(items[j]) == service {
            let j = choose|j: int|
                0 <= j < items.len() && (#[trigger] items[j]).metadata.name@ != "(Tiltfile)"@
                    && items[j].metadata.labels@.len() == 0 && service_of(items[j]) == service;
            assert(is_selected(items[j], SelectionView::Unlabelled));
        }
    } else {
        assert(!has_unlabelled(items));
        assert(labelled =~= groups);
        assert forall|k: int| 0 <= k < groups.len() && !(exists|i: int|
            0 <= i < items.len() && text::texts(
                (#[trigger] items[i]).metadata.labels@,
            ).contains("Ungrouped"@)) implies (#[trigger] groups[k]).name != "Ungrouped"@ by {
            assert(group_names(groups)[k] == groups[k].name);
            assert(group_names(groups).contains(groups[k].name));
        }
    }
}

/// The groups of labels come in the order of their names, no name twice.
pub proof fn law_groups_come_by_name(
    snapshot: model::SnapshotView,
    items: Seq<UIResource>,
    earlier: int,
    later: int,
)
    requires
        is_snapshot_of(snapshot, items),
        0 <= earlier < later < snapshot.groups.len(),
        later < snapshot.groups.len() - 1 || forall|i: int|
            0 <= i < items.len() ==> (#[trigger] items[i]).metadata.name@ == "(Tiltfile)"@
                || items[i].metadata.labels@.len() > 0,
    ensures
        order::text_le(snapshot.groups[earlier].name, snapshot.groups[later].name),
        snapshot.groups[earlier].name != snapshot.groups[later].name,
{
    let groups = snapshot.groups;
    let labelled = groups.take(groups.len() - unlabelled_groups(items).len());
    let names = group_names(labelled);
    assert(names[earlier] == groups[earlier].name);
    assert(names[later] == groups[later].name);
}

/// Every group has the gravest status of its services.
pub proof fn law_headings_show_the_gravest_status(
    snapshot: model::SnapshotView,
    items: Seq<UIResource>,
    place: int,
    member: int,
)
    requires
        is_snapshot_of(snapshot, items),
        0 <= place < snapshot.groups.len(),
        0 <= member < snapshot.groups[place].services.len(),
    ensures
        ({
            let group = snapshot.groups[place];
            &&& graveness(group.services[member].status) <= graveness(group.status)
            &&& exists|i: int|
                0 <= i < group.services.len() && (#[trigger] group.services[i]).status
                    == group.status
        }),
{
    let groups = snapshot.groups;
    let last = unlabelled_groups(items);
    let labelled = groups.take(groups.len() - last.len());
    if place < labelled.len() {
        assert(groups[place] == labelled[place]);
    } else {
        assert(groups[place] == last[0]);
    }
    law_groups_have_their_gravest_status(groups[place].services);
}

/// Services come by the place that Tilt gives them and, where two have the same
/// place, by name.
pub proof fn law_services_come_by_place_and_name(
    items: Seq<UIResource>,
    selection: SelectionView,
    earlier: int,
    later: int,
)
    requires
        0 <= earlier < later < services_of(items, selection).len(),
    ensures
        ({
            let rows = order::stable_sort(rows_of(items, selection), row_order());
            &&& services_of(items, selection)[earlier] == rows[earlier].1
            &&& services_of(items, selection)[later] == rows[later].1
            &&& rows[earlier].0 <= rows[later].0
            &&& rows[earlier].0 == rows[later].0 ==> order::text_le(
                rows[earlier].1.name,
                rows[later].1.name,
            )
            &&& exists|i: int, j: int|
                0 <= i < items.len() && 0 <= j < items.len() && i != j && rows[earlier] == (
                    (#[trigger] items[i]).status.order,
                    service_of(items[i]),
                ) && rows[later] == ((#[trigger] items[j]).status.order, service_of(items[j]))
        }),
{
    let rows = rows_of(items, selection);
    let sorted = order::stable_sort(rows, row_order());
    law_services_come_in_order(items, selection);
    let le = row_order();
    assert(le(sorted[earlier], sorted[later]));
    let (i, j) = lemma_rows_come_from_items(items, selection, earlier, later);
    assert(sorted[earlier] == (items[i].status.order, service_of(items[i])));
    assert(sorted[later] == (items[j].status.order, service_of(items[j])));
}

proof fn lemma_rows_come_from_items(
    items: Seq<UIResource>,
    selection: SelectionView,
    earlier: int,
    later: int,
) -> (places: (int, int))
    requires
        0 <= earlier < later < services_of(items, selection).len(),
    ensures
        ({
            let sorted = order::stable_sort(rows_of(items, selection), row_order());
            let (i, j) = places;
            &&& 0 <= i < items.len() && 0 <= j < items.len() && i != j
            &&& sorted[earlier] == row_of(items[i])
            &&& sorted[later] == row_of(items[j])
        }),
{
    let rows = rows_of(items, selection);
    let sorted = order::stable_sort(rows, row_order());
    lemma_row_order();
    let (k, m) = order::lemma_sorted_places(rows, row_order(), earlier, later);
    let chosen = selected(items, selection);
    let (i, j) = lemma_filtered_places(items, selects(selection), k, m);
    assert(rows[k] == row_of(chosen[k]));
    assert(rows[m] == row_of(chosen[m]));
    (i, j)
}

proof fn lemma_filtered_places(
    items: Seq<UIResource>,
    keeps: spec_fn(UIResource) -> bool,
    left: int,
    right: int,
) -> (places: (int, int))
    requires
        0 <= left < items.filter(keeps).len(),
        0 <= right < items.filter(keeps).len(),
        left != right,
    ensures
        ({
            let (i, j) = places;
            &&& 0 <= i < items.len() && 0 <= j < items.len() && i != j
            &&& items[i] == items.filter(keeps)[left]
            &&& items[j] == items.filter(keeps)[right]
        }),
    decreases items.len(),
{
    reveal(Seq::filter);
    let front = items.drop_last();
    let found = front.filter(keeps);
    let end = items.len() - 1;
    if left < found.len() && right < found.len() {
        lemma_filtered_places(front, keeps, left, right)
    } else if left < found.len() {
        (lemma_filtered_place(front, keeps, left), end)
    } else {
        (end, lemma_filtered_place(front, keeps, right))
    }
}

proof fn lemma_filtered_place(
    items: Seq<UIResource>,
    keeps: spec_fn(UIResource) -> bool,
    place: int,
) -> (index: int)
    requires
        0 <= place < items.filter(keeps).len(),
    ensures
        0 <= index < items.len(),
        items[index] == items.filter(keeps)[place],
    decreases items.len(),
{
    reveal(Seq::filter);
    let front = items.drop_last();
    if place < front.filter(keeps).len() {
        lemma_filtered_place(front, keeps, place)
    } else {
        items.len() - 1
    }
}

/// The warning of the dashboard is the error of the newest build of the
/// Tiltfile's own resource, the last one where there are several, unless another
/// build of it is due or under way. Without such a resource there is none.
pub proof fn law_tiltfile_errors_are_told(items: Seq<UIResource>, place: int)
    requires
        forall|i: int|
            place < i < items.len() ==> (#[trigger] items[i]).metadata.name@ != "(Tiltfile)"@,
        place >= 0 ==> place < items.len() && items[place].metadata.name@ == "(Tiltfile)"@,
        place >= -1,
    ensures
        place == -1 ==> tiltfile_error_of(items) is None,
        place >= 0 ==> tiltfile_error_of(items) == build_error(items[place].status),
    decreases items.len(),
{
    if items.len() > 0 && place < items.len() - 1 {
        assert(items[items.len() - 1].metadata.name@ != "(Tiltfile)"@);
        let front = items.drop_last();
        assert forall|i: int| place < i < front.len() implies (
        #[trigger] front[i]).metadata.name@ != "(Tiltfile)"@ by {
            assert(front[i] == items[i]);
        }
        law_tiltfile_errors_are_told(front, place);
    }
}

} // verus!
