//! The pane that shows the dashboard: how Herdr is asked to open or focus it.

use vstd::prelude::*;

use crate::digest;
use crate::paths;
use crate::project::InvocationContext;
use crate::text;
use crate::tilt::model;

verus! {

/// Whether a character may stand in the identifier of a pane.
pub open spec fn is_id_char(character: char) -> bool {
    ||| 'a' <= character <= 'z'
    ||| 'A' <= character <= 'Z'
    ||| '0' <= character <= '9'
    ||| character == '_'
    ||| character == '-'
    ||| character == ':'
    ||| character == '.'
}

/// Whether an identifier can be handed to Herdr: it holds nothing but letters,
/// digits and some punctuation, and cannot be taken for an option.
pub open spec fn is_safe(id: Seq<char>) -> bool {
    &&& id.len() > 0
    &&& id[0] != '-'
    &&& forall|i: int| 0 <= i < id.len() ==> is_id_char(#[trigger] id[i])
}

fn id_char(character: char) -> (allowed: bool)
    ensures
        allowed == is_id_char(character),
{
    ('a' <= character && character <= 'z') || ('A' <= character && character <= 'Z') || ('0'
        <= character && character <= '9') || character == '_' || character == '-' || character
        == ':' || character == '.'
}

/// Whether an identifier can be handed to Herdr.
pub fn is_safe_id(id: &str) -> (safe: bool)
    ensures
        safe == is_safe(id@),
{
    let chars = text::chars_of(id);
    if chars.len() == 0 || chars[0] == '-' {
        return false;
    }
    let mut index: usize = 0;
    while index < chars.len()
        invariant
            index <= chars@.len(),
            chars@ == id@,
            forall|i: int| 0 <= i < index ==> is_id_char(#[trigger] chars@[i]),
        decreases chars@.len() - index,
    {
        if !id_char(chars[index]) {
            return false;
        }
        index += 1;
    }
    true
}

/// What Herdr is told to focus a pane.
pub open spec fn focus_command(id: Seq<char>) -> Seq<Seq<char>> {
    seq!["plugin"@, "pane"@, "focus"@, id]
}

/// What Herdr is told to focus the pane that was opened before, if one was and
/// its identifier can be handed over.
pub fn focus_args(saved: Option<&str>) -> (args: Option<Vec<String>>)
    ensures
        match args {
            Some(found) => saved is Some && is_safe(saved->0@) && text::texts(found@)
                == focus_command(saved->0@),
            None => saved is None || !is_safe(saved->0@),
        },
{
    match saved {
        Some(id) => {
            if !is_safe_id(id) {
                return None;
            }
            let args = text::owned(vec!["plugin", "pane", "focus", id]);
            assert(text::texts(args@) =~= focus_command(id@));
            Some(args)
        },
        None => None,
    }
}

/// An option and its value, where there is a value.
pub open spec fn option_args(option: Seq<char>, value: Option<Seq<char>>) -> Seq<Seq<char>> {
    match value {
        Some(content) => seq![option, content],
        None => Seq::empty(),
    }
}

/// What Herdr is told to open the dashboard: a split to the right, in the
/// workspace and beside the pane where it was asked for, in the project.
pub open spec fn open_command(
    workspace: Option<Seq<char>>,
    pane: Option<Seq<char>>,
    root: Seq<char>,
) -> Seq<Seq<char>> {
    seq![
        "plugin"@,
        "pane"@,
        "open"@,
        "--plugin"@,
        "herdr.tilt"@,
        "--entrypoint"@,
        "status"@,
        "--placement"@,
        "split"@,
        "--direction"@,
        "right"@,
    ] + option_args("--workspace"@, workspace) + option_args("--target-pane"@, pane) + seq![
        "--cwd"@,
        root,
        "--focus"@,
    ]
}

fn push_option(args: &mut Vec<String>, option: &str, value: &Option<String>)
    ensures
        text::texts(final(args)@) == text::texts(old(args)@) + option_args(
            option@,
            model::optional_text(*value),
        ),
{
    if let Some(content) = value {
        text::push_text(args, option);
        text::push_text(args, content.as_str());
        assert(text::texts(args@) =~= text::texts(old(args)@) + seq![option@, content@]);
    } else {
        assert(text::texts(args@) =~= text::texts(old(args)@) + Seq::<Seq<char>>::empty());
    }
}

/// What Herdr is told to open the dashboard.
pub fn open_args(context: &InvocationContext, root: &str) -> (args: Vec<String>)
    ensures
        text::texts(args@) == open_command(
            model::optional_text(context.workspace_id),
            model::optional_text(context.focused_pane_id),
            root@,
        ),
{
    let mut args = text::owned(
        vec![
            "plugin",
            "pane",
            "open",
            "--plugin",
            "herdr.tilt",
            "--entrypoint",
            "status",
            "--placement",
            "split",
            "--direction",
            "right",
        ],
    );
    proof {
        assert(text::texts(args@) =~= seq![
            "plugin"@,
            "pane"@,
            "open"@,
            "--plugin"@,
            "herdr.tilt"@,
            "--entrypoint"@,
            "status"@,
            "--placement"@,
            "split"@,
            "--direction"@,
            "right"@,
        ]);
    }
    push_option(&mut args, "--workspace", &context.workspace_id);
    push_option(&mut args, "--target-pane", &context.focused_pane_id);
    let ghost first = text::texts(args@);
    text::push_text(&mut args, "--cwd");
    text::push_text(&mut args, root);
    text::push_text(&mut args, "--focus");
    assert(text::texts(args@) =~= first + seq!["--cwd"@, root@, "--focus"@]);
    args
}

/// What comes next in opening the dashboard.
#[derive(Debug, PartialEq, Eq)]
pub enum PanelStep {
    /// Ask Herdr to focus the pane that was opened before.
    Focus(Vec<String>),
    /// Ask Herdr to open a pane.
    Open(Vec<String>),
    /// The dashboard is in view.
    Done,
}

/// Opening the dashboard begins with the pane that was opened before, if there
/// is one whose identifier can be handed over, and otherwise with a new one.
pub fn open_panel(context: &InvocationContext, root: &str, saved: Option<&str>) -> (step: PanelStep)
    ensures
        match step {
            PanelStep::Focus(args) => saved is Some && is_safe(saved->0@) && text::texts(args@)
                == focus_command(saved->0@),
            PanelStep::Open(args) => (saved is None || !is_safe(saved->0@)) && text::texts(args@)
                == open_command(
                model::optional_text(context.workspace_id),
                model::optional_text(context.focused_pane_id),
                root@,
            ),
            PanelStep::Done => false,
        },
{
    match focus_args(saved) {
        Some(args) => PanelStep::Focus(args),
        None => PanelStep::Open(open_args(context, root)),
    }
}

/// Where the pane that was opened before could not be focused, a new one is
/// opened; where it could, nothing is.
pub fn panel_focused(context: &InvocationContext, root: &str, focused: bool) -> (step: PanelStep)
    ensures
        match step {
            PanelStep::Focus(_) => false,
            PanelStep::Open(args) => !focused && text::texts(args@) == open_command(
                model::optional_text(context.workspace_id),
                model::optional_text(context.focused_pane_id),
                root@,
            ),
            PanelStep::Done => focused,
        },
{
    if focused {
        PanelStep::Done
    } else {
        PanelStep::Open(open_args(context, root))
    }
}

/// What is said of a program that failed: what went wrong, and what the program
/// wrote, without the white space around it.
pub open spec fn told(what: Seq<char>, written: Seq<char>) -> Seq<char> {
    what + ": "@ + text::trimmed(written)
}

/// What is said of a program that failed, given the bytes that it wrote.
pub open spec fn failure(what: Seq<char>, stderr: Seq<u8>) -> Seq<char> {
    told(what, text::utf8_lossy(stderr))
}

/// What is said of a program that failed, given what it wrote.
pub fn told_message(what: &str, written: &str) -> (message: String)
    ensures
        message@ == told(what@, written@),
{
    let mut message = what.to_owned();
    message.append(": ");
    message.append(text::trim(written).as_str());
    message
}

/// What is said of a program that failed, given the bytes that it wrote.
pub fn failure_message(what: &str, stderr: &[u8]) -> (message: String)
    ensures
        message@ == failure(what@, stderr@),
{
    told_message(what, text::decode_lossy(stderr).as_str())
}

/// Where a key's document is kept, under a state directory.
pub open spec fn document_path(
    state_dir: Seq<char>,
    kind: Seq<char>,
    key: Seq<char>,
    ending: Seq<char>,
) -> Seq<char> {
    paths::within(paths::within(state_dir, kind), key + ending)
}

/// Where a key's document is kept, under a state directory.
pub fn document_file(state_dir: &str, kind: &str, key: &str, ending: &str) -> (path: String)
    ensures
        path@ == document_path(state_dir@, kind@, key@, ending@),
{
    let directory = paths::join(state_dir, kind);
    let name = text::joined(key, ending);
    paths::join(directory.as_str(), name.as_str())
}

/// Where it is kept which pane shows the dashboard of a project.
pub fn panel_state_path(state_dir: &str, project_root: &str) -> (path: String)
    ensures
        path@ == document_path(state_dir@, "panels"@, digest::key_of(project_root@), ".json"@),
        digest::is_key(digest::key_of(project_root@)),
{
    let key = digest::key(project_root);
    document_file(state_dir, "panels", key.as_str(), ".json")
}

/// Where a document is written before it takes its place, so that no one reads
/// half of it. Each process writes beside its own number.
pub fn temporary_path(path: &str, process: u32) -> (temporary: String)
    ensures
        temporary@ == path@ + ".tmp-"@ + text::decimal(process as nat),
{
    let mut temporary = path.to_owned();
    temporary.append(".tmp-");
    temporary.append(text::decimal_text(process as u64).as_str());
    temporary
}

// ---------------------------------------------------------------------------
// Laws
// ---------------------------------------------------------------------------

/// An identifier can be handed over exactly if it is made of ASCII letters,
/// digits, underscores, hyphens, colons and dots, there is at least one, and the
/// first is no hyphen.
pub proof fn law_safe_identifiers_are_plain(id: Seq<char>, behind: Seq<char>, character: char)
    ensures
        !is_safe(Seq::empty()),
        !is_safe(seq!['-'] + behind),
        is_safe(id) ==> (is_safe(id.push(character)) <==> {
            let code = character as u32;
            ||| 48 <= code <= 57
            ||| 65 <= code <= 90
            ||| 97 <= code <= 122
            ||| code == 95 || code == 45 || code == 58 || code == 46
        }),
        !is_safe(id) && id.len() > 0 ==> !is_safe(id.push(character)),
        is_safe(seq![character]) <==> {
            let code = character as u32;
            ||| 48 <= code <= 57
            ||| 65 <= code <= 90
            ||| 97 <= code <= 122
            ||| code == 95 || code == 58 || code == 46
        },
{
    assert((seq!['-'] + behind)[0] == '-');
    let more = id.push(character);
    assert(more[id.len() as int] == character);
    assert(forall|i: int| 0 <= i < id.len() ==> #[trigger] more[i] == id[i]);
    if is_safe(more) && id.len() > 0 {
        assert forall|i: int| 0 <= i < id.len() implies is_id_char(#[trigger] id[i]) by {
            assert(is_id_char(more[i]));
        }
        assert(more[0] == id[0]);
    }
    assert(seq![character][0] == character);
}

/// Focusing names the pane. Opening asks for the status of this plugin in a
/// split to the right, in the directory of the project, and for the focus. The
/// workspace and the pane to open beside are named where they are known, and
/// left out where they are not.
pub proof fn law_herdr_is_told_where_to_open(
    id: Seq<char>,
    workspace: Seq<char>,
    pane: Seq<char>,
    root: Seq<char>,
)
    ensures
        focus_command(id) == seq!["plugin"@, "pane"@, "focus"@].push(id),
        ({
            let what = seq![
                "plugin"@,
                "pane"@,
                "open"@,
                "--plugin"@,
                "herdr.tilt"@,
                "--entrypoint"@,
                "status"@,
                "--placement"@,
                "split"@,
                "--direction"@,
                "right"@,
            ];
            let place = seq!["--cwd"@, root, "--focus"@];
            &&& open_command(None, None, root) == what + place
            &&& open_command(Some(workspace), None, root) == what + seq!["--workspace"@, workspace]
                + place
            &&& open_command(None, Some(pane), root) == what + seq!["--target-pane"@, pane] + place
            &&& open_command(Some(workspace), Some(pane), root) == what + seq![
                "--workspace"@,
                workspace,
            ] + seq!["--target-pane"@, pane] + place
        }),
{
    let what = seq![
        "plugin"@,
        "pane"@,
        "open"@,
        "--plugin"@,
        "herdr.tilt"@,
        "--entrypoint"@,
        "status"@,
        "--placement"@,
        "split"@,
        "--direction"@,
        "right"@,
    ];
    let place = seq!["--cwd"@, root, "--focus"@];
    assert(focus_command(id) =~= seq!["plugin"@, "pane"@, "focus"@].push(id));
    assert(open_command(None, None, root) =~= what + place);
    assert(open_command(Some(workspace), None, root) =~= what + seq!["--workspace"@, workspace]
        + place);
    assert(open_command(None, Some(pane), root) =~= what + seq!["--target-pane"@, pane] + place);
}

/// What is said of a program that failed ends with what it wrote, and white
/// space around that is left out.
pub proof fn law_failures_tell_what_was_written(
    what: Seq<char>,
    before: Seq<char>,
    written: Seq<char>,
    behind: Seq<char>,
)
    requires
        forall|i: int| 0 <= i < before.len() ==> text::is_white_space(#[trigger] before[i]),
        forall|i: int| 0 <= i < behind.len() ==> text::is_white_space(#[trigger] behind[i]),
        written.len() > 0,
        !text::is_white_space(written[0]),
        !text::is_white_space(written[written.len() - 1]),
    ensures
        told(what, before + written + behind) == what + ": "@ + written,
{
    text::law_trimming_leaves_what_stands_between(before, written, behind);
}

/// A document stands in the directory of its kind in the state directory, under
/// its key.
pub proof fn law_documents_stand_by_kind_and_key(
    state_dir: Seq<char>,
    kind: Seq<char>,
    key: Seq<char>,
    ending: Seq<char>,
)
    requires
        paths::is_name(kind),
        paths::is_name(key + ending),
    ensures
        paths::components(document_path(state_dir, kind, key, ending)) == paths::components(
            state_dir,
        ).push(kind).push(key + ending),
{
    paths::law_name_is_the_last_component(state_dir, kind);
    paths::law_name_is_the_last_component(paths::within(state_dir, kind), key + ending);
}

} // verus!
