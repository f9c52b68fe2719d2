use herdr_tilt::paths::{equal_paths, join, path_components, path_from, starts_with};
use herdr_tilt::project::{
    resolve_project, search_boundary, search_path, tiltfile_in, InvocationContext, Project,
    RawInvocationContext, RawWorktree,
};

fn text(value: &str) -> Option<String> {
    Some(value.to_owned())
}

#[test]
fn nested_pane_resolves_workspace_tiltfile() {
    let boundary = search_boundary(text("/work"), text("/work"), "/home".to_owned());
    let directories = search_path(&boundary, text("/work/services/api"));
    let tiltfiles = vec![None, None, text("/work/Tiltfile")];

    let project = resolve_project(boundary, &directories, &tiltfiles);

    assert_eq!(project.root, "/work");
    assert_eq!(project.tiltfile, text("/work/Tiltfile"));
}

#[test]
fn the_nearest_tiltfile_wins() {
    let directories = search_path("/work", text("/work/services/api"));
    assert_eq!(
        directories,
        ["/work/services/api", "/work/services", "/work"]
    );

    let project = resolve_project(
        "/work".to_owned(),
        &directories,
        &vec![None, text("/work/services/Tiltfile"), text("/work/Tiltfile")],
    );

    assert_eq!(
        project,
        Project {
            root: "/work/services".to_owned(),
            tiltfile: text("/work/services/Tiltfile"),
        }
    );
}

#[test]
fn without_a_tiltfile_the_project_is_the_boundary() {
    let directories = search_path("/work", text("/elsewhere/api"));
    assert_eq!(directories, ["/work"]);

    let project = resolve_project("/work".to_owned(), &directories, &vec![None]);

    assert_eq!(
        project,
        Project {
            root: "/work".to_owned(),
            tiltfile: None,
        }
    );
}

#[test]
fn the_boundary_falls_back_to_the_current_directory() {
    let current = || "/current".to_owned();

    assert_eq!(search_boundary(text("/tree"), text("/space"), current()), "/tree");
    assert_eq!(search_boundary(None, text("/space"), current()), "/space");
    assert_eq!(search_boundary(None, None, current()), "/current");
}

#[test]
fn a_sibling_with_the_same_beginning_is_outside_the_boundary() {
    assert_eq!(search_path("/work", text("/workshop/api")), ["/work"]);
    assert_eq!(search_path("/", text("/work")), ["/work", "/"]);
    assert_eq!(tiltfile_in("/"), "/Tiltfile");
    assert_eq!(tiltfile_in("/work"), "/work/Tiltfile");
}

#[test]
fn the_context_takes_the_path_of_its_worktree() {
    let context = InvocationContext::from_json(RawInvocationContext {
        workspace_id: text("w1"),
        workspace_cwd: text("/work"),
        focused_pane_id: None,
        focused_pane_cwd: text("/work/api"),
        worktree: Some(RawWorktree {
            checkout_path: "/tree".to_owned(),
        }),
    });

    assert_eq!(
        context,
        InvocationContext {
            workspace_id: text("w1"),
            workspace_cwd: text("/work"),
            focused_pane_cwd: text("/work/api"),
            worktree_checkout_path: text("/tree"),
            ..InvocationContext::default()
        }
    );
}

#[test]
fn paths_are_their_components() {
    for path in ["/a//b/./c/", "a/b", "./a/.", "/", "", ".", "../a", "/.."] {
        let expected = std::path::Path::new(path)
            .components()
            .map(|part| part.as_os_str().to_str().unwrap().to_owned())
            .collect::<Vec<_>>();
        assert_eq!(path_components(path), expected, "components of {path}");
        assert_eq!(path_components(&path_from(&expected)), expected);
    }
    assert!(equal_paths("/a/b", "/a//b/"));
    assert!(!equal_paths("/a/b", "a/b"));
    assert!(starts_with("/a/b/c", "/a/b/"));
    assert!(!starts_with("/a/bc", "/a/b"));
    assert_eq!(join("/a", "b"), "/a/b");
    assert_eq!(join("/a/", "b"), "/a/b");
    assert_eq!(join("", "b"), "b");
}
