use smolgent::path::{
    normalize_lexically, path_comes_before, resolve_below, strip_windows_verbatim_prefix,
    AncestorSearch, FilePath, PathComponent, SearchStep,
};
use smolgent::AgentState;

fn path(text: &str) -> FilePath {
    let mut parts = Vec::new();
    for (i, piece) in text.split('/').enumerate() {
        match piece {
            "" if i == 0 => parts.push(PathComponent::Root),
            "" => {}
            "." => parts.push(PathComponent::Current),
            ".." => parts.push(PathComponent::Parent),
            name => parts.push(PathComponent::Normal(name.to_string())),
        }
    }
    FilePath { parts }
}

#[test]
fn write_roots_are_also_readable() {
    let state = AgentState::new(&vec![path("/tmp/read")], &vec![path("/tmp/write")]);

    assert!(state.can_read(&path("/tmp/read/file.txt")));
    assert!(state.can_read(&path("/tmp/write/file.txt")));
    assert!(state.can_write(&path("/tmp/write/file.txt")));
    assert!(!state.can_write(&path("/tmp/read/file.txt")));
}

#[test]
fn sibling_paths_do_not_match_by_string_prefix() {
    let state = AgentState::new(&vec![path("/tmp/allowed")], &vec![]);

    assert!(!state.can_read(&path("/tmp/allowed-but-not-really/secret.txt")));
}

#[test]
fn roots_are_kept_once_and_in_order() {
    let state = AgentState::new(
        &vec![path("/a"), path("/b"), path("/a")],
        &vec![path("/b"), path("/c"), path("/c")],
    );
    assert_eq!(
        state.read_roots(),
        &vec![path("/a"), path("/b"), path("/c")]
    );
    assert_eq!(state.write_roots(), &vec![path("/b"), path("/c")]);
    let none = AgentState::default();
    assert!(!none.can_read(&path("/")));
    assert_eq!(
        state.readable_path(path("/a/x")),
        Some(path("/a/x"))
    );
    assert_eq!(state.writable_path(path("/a/x")), None);
}

#[test]
fn dots_are_resolved() {
    for (given, expected) in [
        ("/a/./b/../c", "/a/c"),
        ("/../a", "/a"),
        ("a/../../b", "b"),
        ("/a/b/..", "/a"),
    ] {
        let normalized = normalize_lexically(&path(given));
        assert_eq!(normalized, path(expected), "{given}");
        assert_eq!(normalize_lexically(&normalized), normalized);
    }
    // A path that climbs out of a root is not below it.
    let state = AgentState::new(&vec![path("/a")], &vec![]);
    assert!(!state.can_read(&normalize_lexically(&path("/a/../b"))));
}

fn search(text: &str, existing: &[usize]) -> Option<usize> {
    let mut search = AncestorSearch::new(path(text));
    let mut kept = search.first();
    loop {
        match search.next(existing.contains(&kept)) {
            SearchStep::Probe(next) => kept = next,
            SearchStep::Found(found) => return Some(found),
            SearchStep::Exhausted => return None,
        }
    }
}

#[test]
fn missing_names_are_put_behind_the_nearest_ancestor() {
    assert_eq!(search("/a/b/c", &[1, 2]), Some(2));
    assert_eq!(search("/a/b/c", &[4]), Some(4));
    assert_eq!(search("/a/b/c", &[1]), Some(1));
    assert_eq!(search("/a/../c", &[1]), None);
    assert_eq!(search("/a", &[]), None);
    assert_eq!(
        resolve_below(&path("/link/b/c"), 2, Some(path("/real"))),
        path("/real/b/c")
    );
    assert_eq!(
        resolve_below(&path("/a/./x/b"), 3, None),
        path("/a/x/b")
    );
}

#[test]
fn paths_are_ordered_as_std_orders_them() {
    let texts = ["/", "/a", "/a/b", "/a-b", "/ab", "/b", "a", "./a", "../a", "/é"];
    for a in texts {
        for b in texts {
            assert_eq!(
                path_comes_before(&path(a), &path(b)),
                std::path::Path::new(a) < std::path::Path::new(b),
                "{a} {b}"
            );
        }
    }
}

#[test]
fn verbatim_prefixes_are_not_shown() {
    for (given, shown) in [
        (r"\\?\C:\a", r"C:\a"),
        (r"\\?\UNC\server\share", r"\\server\share"),
        ("/a", "/a"),
    ] {
        assert_eq!(strip_windows_verbatim_prefix(given), shown);
    }
}

#[test]
fn paths_have_the_texts_of_std() {
    for text in ["/", "/a", "/a/b c/日", "a/b", "..", "../a", ".", ""] {
        let path = std::path::Path::new(text);
        let parts = path
            .components()
            .map(|component| match component {
                std::path::Component::RootDir => PathComponent::Root,
                std::path::Component::CurDir => PathComponent::Current,
                std::path::Component::ParentDir => PathComponent::Parent,
                other => {
                    PathComponent::Normal(other.as_os_str().to_str().unwrap().to_string())
                }
            })
            .collect();
        assert_eq!(FilePath { parts }.text('/'), text);
    }
    let share = FilePath {
        parts: vec![
            PathComponent::Prefix(r"\\?\UNC\srv\share".to_string()),
            PathComponent::Root,
            PathComponent::Normal("a".to_string()),
            PathComponent::Normal("b".to_string()),
        ],
    };
    assert_eq!(share.text('\\'), r"\\?\UNC\srv\share\a\b");
}
