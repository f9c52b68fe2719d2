//! Which project the dashboard is for.

use vstd::prelude::*;

use crate::paths;
use crate::text;
use crate::tilt::model;
use crate::tilt::model::optional_copy;

verus! {

// ---------------------------------------------------------------------------
// Where the dashboard was opened
// ---------------------------------------------------------------------------

/// Where the dashboard was opened.
#[derive(Debug, PartialEq, Eq)]
pub struct InvocationContext {
    pub workspace_id: Option<String>,
    pub workspace_cwd: Option<String>,
    pub focused_pane_id: Option<String>,
    pub focused_pane_cwd: Option<String>,
    pub worktree_checkout_path: Option<String>,
}

/// Where the dashboard was opened, as Herdr tells it.
#[derive(Debug)]
pub struct RawInvocationContext {
    pub workspace_id: Option<String>,
    pub workspace_cwd: Option<String>,
    pub focused_pane_id: Option<String>,
    pub focused_pane_cwd: Option<String>,
    pub worktree: Option<RawWorktree>,
}

/// The worktree that a workspace shows.
#[derive(Debug)]
pub struct RawWorktree {
    pub checkout_path: String,
}

impl Clone for InvocationContext {
    fn clone(&self) -> (copy: Self)
        ensures
            copy == *self,
    {
        InvocationContext {
            workspace_id: optional_copy(&self.workspace_id),
            workspace_cwd: optional_copy(&self.workspace_cwd),
            focused_pane_id: optional_copy(&self.focused_pane_id),
            focused_pane_cwd: optional_copy(&self.focused_pane_cwd),
            worktree_checkout_path: optional_copy(&self.worktree_checkout_path),
        }
    }
}

impl Default for InvocationContext {
    fn default() -> (context: Self)
        ensures
            context == (InvocationContext {
                workspace_id: None,
                workspace_cwd: None,
                focused_pane_id: None,
                focused_pane_cwd: None,
                worktree_checkout_path: None,
            }),
    {
        InvocationContext {
            workspace_id: None,
            workspace_cwd: None,
            focused_pane_id: None,
            focused_pane_cwd: None,
            worktree_checkout_path: None,
        }
    }
}

impl InvocationContext {
    /// Reads what Herdr tells.
    pub fn from_json(raw: RawInvocationContext) -> (context: InvocationContext)
        ensures
            context == (InvocationContext {
                workspace_id: raw.workspace_id,
                workspace_cwd: raw.workspace_cwd,
                focused_pane_id: raw.focused_pane_id,
                focused_pane_cwd: raw.focused_pane_cwd,
                worktree_checkout_path: match raw.worktree {
                    Some(worktree) => Some(worktree.checkout_path),
                    None => None,
                },
            }),
    {
        InvocationContext {
            workspace_id: raw.workspace_id,
            workspace_cwd: raw.workspace_cwd,
            focused_pane_id: raw.focused_pane_id,
            focused_pane_cwd: raw.focused_pane_cwd,
            worktree_checkout_path: match raw.worktree {
                Some(worktree) => Some(worktree.checkout_path),
                None => None,
            },
        }
    }
}

// ---------------------------------------------------------------------------
// The project
// ---------------------------------------------------------------------------

/// A directory, and the Tiltfile in it if there is one.
#[derive(Debug, PartialEq, Eq)]
pub struct Project {
    pub root: String,
    pub tiltfile: Option<String>,
}

/// A directory, and the Tiltfile in it if there is one, as mathematics has it.
pub struct ProjectView {
    pub root: Seq<char>,
    pub tiltfile: Option<Seq<char>>,
}

impl View for Project {
    type V = ProjectView;

    open spec fn view(&self) -> ProjectView {
        ProjectView { root: self.root@, tiltfile: model::optional_text(self.tiltfile) }
    }
}

impl Clone for Project {
    fn clone(&self) -> (copy: Self)
        ensures
            copy@ == self@,
    {
        Project { root: self.root.clone(), tiltfile: optional_copy(&self.tiltfile) }
    }
}

/// How far up the search for a Tiltfile goes: to the worktree, or else the
/// workspace, or else the current directory. A directory that does not exist is
/// passed over.
pub open spec fn boundary_of(
    worktree: Option<Seq<char>>,
    workspace: Option<Seq<char>>,
    current: Seq<char>,
) -> Seq<char> {
    match worktree {
        Some(directory) => directory,
        None => match workspace {
            Some(directory) => directory,
            None => current,
        },
    }
}

/// How far up the search for a Tiltfile goes, given which of the directories
/// exist.
pub fn search_boundary(
    worktree: Option<String>,
    workspace: Option<String>,
    current: String,
) -> (boundary: String)
    ensures
        boundary@ == boundary_of(
            model::optional_text(worktree),
            model::optional_text(workspace),
            current@,
        ),
{
    match worktree {
        Some(directory) => directory,
        None => match workspace {
            Some(directory) => directory,
            None => current,
        },
    }
}

/// Where the search for a Tiltfile begins: in the directory of the focused
/// pane, if that exists and lies under the boundary, or else at the boundary.
pub open spec fn start_of(boundary: Seq<char>, focused: Option<Seq<char>>) -> Seq<char> {
    match focused {
        Some(directory) => if paths::lies_under(directory, boundary) {
            directory
        } else {
            boundary
        },
        None => boundary,
    }
}

/// A directory and those above it, up to another, each as its components.
pub open spec fn ascent(start: Seq<Seq<char>>, top: Seq<Seq<char>>) -> Seq<Seq<Seq<char>>> {
    Seq::new((start.len() - top.len() + 1) as nat, |i: int| start.take(start.len() - i))
}

/// The directories in which a Tiltfile is looked for, the nearest first.
pub open spec fn searched_directories(boundary: Seq<char>, focused: Option<Seq<char>>) -> Seq<
    Seq<char>,
> {
    ascent(
        paths::components(start_of(boundary, focused)),
        paths::components(boundary),
    ).map_values(|parts: Seq<Seq<char>>| paths::path_of(parts))
}

/// No search leaves the boundary: every directory that is searched lies under
/// it, and the boundary itself comes last.
pub proof fn law_search_stays_within_the_boundary(
    boundary: Seq<char>,
    focused: Option<Seq<char>>,
    place: int,
)
    requires
        0 <= place < searched_directories(boundary, focused).len(),
    ensures
        paths::lies_under(searched_directories(boundary, focused)[place], boundary),
        paths::same_path(searched_directories(boundary, focused).last(), boundary),
{
    let top = paths::components(boundary);
    let start = paths::components(start_of(boundary, focused));
    assert(top.is_prefix_of(start)) by {
        assert(top =~= top.subrange(0, top.len() as int));
    }
    let parts = start.take(start.len() - place);
    paths::lemma_components_are_proper(start_of(boundary, focused));
    paths::lemma_components_are_proper(boundary);
    assert(paths::are_components(parts));
    paths::law_path_has_its_components(parts);
    paths::law_path_has_its_components(top);
    assert(parts.subrange(0, top.len() as int) =~= start.subrange(0, top.len() as int));
    assert(start.take(top.len() as int) =~= top);
}

/// The search goes up one directory at a time: each directory that is searched
/// is the parent of the one before.
pub proof fn law_search_goes_up_step_by_step(
    boundary: Seq<char>,
    focused: Option<Seq<char>>,
    place: int,
)
    requires
        0 < place < searched_directories(boundary, focused).len(),
    ensures
        paths::components(searched_directories(boundary, focused)[place]) == paths::components(
            searched_directories(boundary, focused)[place - 1],
        ).drop_last(),
{
    let start = paths::components(start_of(boundary, focused));
    let lower = start.take(start.len() - (place - 1));
    let upper = start.take(start.len() - place);
    paths::lemma_components_are_proper(start_of(boundary, focused));
    assert(paths::are_components(lower));
    assert(paths::are_components(upper));
    paths::law_path_has_its_components(lower);
    paths::law_path_has_its_components(upper);
    assert(lower.drop_last() =~= upper);
}

/// The directories in which a Tiltfile is looked for, the nearest first.
pub fn search_path(boundary: &str, focused: Option<String>) -> (directories: Vec<String>)
    ensures
        text::texts(directories@) == searched_directories(
            boundary@,
            model::optional_text(focused),
        ),
        directories@.len() > 0,
{
    let top = paths::path_components(boundary);
    let mut parts = match focused {
        Some(directory) => {
            if paths::starts_with(directory.as_str(), boundary) {
                paths::path_components(directory.as_str())
            } else {
                paths::path_components(boundary)
            }
        },
        None => paths::path_components(boundary),
    };
    let ghost all = text::texts(parts@);
    let ghost wanted = searched_directories(boundary@, model::optional_text(focused));
    proof {
        assert(text::texts(top@).len() == top@.len());
        assert(all.len() == parts@.len());
        let base = paths::components(boundary@);
        assert(base.is_prefix_of(all)) by {
            assert(base =~= base.subrange(0, base.len() as int));
        }
    }
    let mut directories: Vec<String> = Vec::new();
    assert(all.take(all.len() as int) =~= all);
    directories.push(paths::path_from(&parts));
    while parts.len() > top.len()
        invariant
            top@.len() <= parts@.len() <= all.len(),
            text::texts(parts@) == all.take(parts@.len() as int),
            wanted.len() == all.len() - top@.len() + 1,
            forall|i: int|
                0 <= i < wanted.len() ==> #[trigger] wanted[i] == paths::path_of(
                    all.take(all.len() - i),
                ),
            directories@.len() == all.len() - parts@.len() + 1,
            forall|i: int|
                0 <= i < directories@.len() ==> #[trigger] text::texts(directories@)[i]
                    == wanted[i],
        decreases parts@.len(),
    {
        let ghost before = text::texts(directories@);
        let ghost held = parts@;
        let _ = parts.pop();
        proof {
            assert(text::texts(parts@) =~= text::texts(held).drop_last());
            assert(all.take(held.len() as int).drop_last() =~= all.take(held.len() - 1));
        }
        let directory = paths::path_from(&parts);
        directories.push(directory);
        assert(text::texts(directories@) =~= before.push(directory@));
    }
    assert(text::texts(directories@) =~= wanted);
    directories
}

/// The place of the first that was found.
pub open spec fn first_found(tiltfiles: Seq<Option<String>>, from: int) -> Option<int>
    decreases tiltfiles.len() - from,
{
    if from < 0 || from >= tiltfiles.len() {
        None
    } else if tiltfiles[from] is Some {
        Some(from)
    } else {
        first_found(tiltfiles, from + 1)
    }
}

/// The project of a search: the nearest directory with a Tiltfile, or else the
/// boundary.
pub open spec fn project_of(
    boundary: Seq<char>,
    directories: Seq<String>,
    tiltfiles: Seq<Option<String>>,
) -> ProjectView {
    match first_found(tiltfiles, 0) {
        Some(place) => ProjectView {
            root: directories[place]@,
            tiltfile: model::optional_text(tiltfiles[place]),
        },
        None => ProjectView { root: boundary, tiltfile: None },
    }
}

/// The project, given the Tiltfiles that were found in the directories, as far
/// as those were searched.
pub fn resolve_project(
    boundary: String,
    directories: &Vec<String>,
    tiltfiles: &Vec<Option<String>>,
) -> (project: Project)
    requires
        tiltfiles@.len() <= directories@.len(),
    ensures
        project@ == project_of(boundary@, directories@, tiltfiles@),
{
    let mut place: usize = 0;
    while place < tiltfiles.len()
        invariant
            place <= tiltfiles@.len() <= directories@.len(),
            first_found(tiltfiles@, 0) == first_found(tiltfiles@, place as int),
        decreases tiltfiles@.len() - place,
    {
        if let Some(tiltfile) = &tiltfiles[place] {
            return Project { root: directories[place].clone(), tiltfile: Some(tiltfile.clone()) };
        }
        place += 1;
    }
    Project { root: boundary, tiltfile: None }
}

/// What a directory's Tiltfile is called.
pub fn tiltfile_in(directory: &str) -> (path: String)
    ensures
        path@ == paths::within(directory@, "Tiltfile"@),
{
    paths::join(directory, "Tiltfile")
}

/// The search ends at the worktree where there is one, else at the workspace,
/// else where the dashboard was opened.
pub proof fn law_the_worktree_bounds_the_search(
    worktree: Seq<char>,
    workspace: Seq<char>,
    current: Seq<char>,
    other: Option<Seq<char>>,
)
    ensures
        boundary_of(Some(worktree), other, current) == worktree,
        boundary_of(None, Some(workspace), current) == workspace,
        boundary_of(None, None, current) == current,
{
}

/// The search begins in the directory of the focused pane if that lies within
/// the boundary. Otherwise, and where there is no pane, the boundary alone is
/// searched.
pub proof fn law_the_focused_pane_starts_the_search(boundary: Seq<char>, focused: Seq<char>)
    ensures
        ({
            let top = paths::components(boundary);
            let parts = paths::components(focused);
            let inside = top.len() <= parts.len() && parts.take(top.len() as int) == top;
            &&& inside ==> paths::components(searched_directories(boundary, Some(focused))[0])
                == parts
            &&& inside ==> searched_directories(boundary, Some(focused)).len() == parts.len()
                - top.len() + 1
            &&& !inside ==> searched_directories(boundary, Some(focused)) == searched_directories(
                boundary,
                None,
            )
            &&& searched_directories(boundary, None).len() == 1
            &&& paths::components(searched_directories(boundary, None)[0]) == top
        }),
{
    let top = paths::components(boundary);
    let parts = paths::components(focused);
    paths::law_paths_compare_by_components(focused, boundary);
    paths::lemma_components_are_proper(focused);
    paths::lemma_components_are_proper(boundary);
    paths::law_path_has_its_components(parts);
    paths::law_path_has_its_components(top);
    assert(parts.take(parts.len() as int) =~= parts);
    assert(top.take(top.len() as int) =~= top);
}

proof fn lemma_first_found(tiltfiles: Seq<Option<String>>, from: int)
    requires
        0 <= from,
    ensures
        match first_found(tiltfiles, from) {
            Some(place) => {
                &&& from <= place < tiltfiles.len()
                &&& tiltfiles[place] is Some
                &&& forall|i: int| from <= i < place ==> #[trigger] tiltfiles[i] is None
            },
            None => forall|i: int| from <= i < tiltfiles.len() ==> #[trigger] tiltfiles[i] is None,
        },
    decreases tiltfiles.len() - from,
{
    if from < tiltfiles.len() && tiltfiles[from] is None {
        lemma_first_found(tiltfiles, from + 1);
    }
}

/// The project is the first directory of the search that has a Tiltfile, with
/// that Tiltfile. Where none has one, it is the boundary, without a Tiltfile.
pub proof fn law_the_nearest_tiltfile_is_taken(
    boundary: Seq<char>,
    directories: Seq<String>,
    tiltfiles: Seq<Option<String>>,
    place: int,
)
    requires
        0 <= place < tiltfiles.len() ==> tiltfiles[place] is Some,
        forall|i: int|
            0 <= i < place && i < tiltfiles.len() ==> #[trigger] tiltfiles[i] is None,
        0 <= place <= tiltfiles.len(),
    ensures
        place < tiltfiles.len() ==> project_of(boundary, directories, tiltfiles) == (ProjectView {
            root: directories[place]@,
            tiltfile: Some(tiltfiles[place]->0@),
        }),
        place == tiltfiles.len() ==> project_of(boundary, directories, tiltfiles) == (ProjectView {
            root: boundary,
            tiltfile: None,
        }),
{
    lemma_first_found(tiltfiles, 0);
}

} // verus!
