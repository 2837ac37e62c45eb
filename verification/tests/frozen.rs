use crucible::manifest::frozen::{
    counting_text, frozen_manifest_location, frozen_manifest_source, frozen_manifest_text,
    load_frozen_generic, notice, FrozenSource,
};
use crucible::paths::{absolute, components_of, is_absolute, join_path, manifest_dir, parent, path_of};

fn at(cwd: &str, manifest: &str, workspace: &str) -> Option<(String, String)> {
    frozen_manifest_location(cwd, manifest, workspace).map(|l| (l.repo_dir, l.rel))
}

fn inside(text: Option<&str>) -> FrozenSource {
    frozen_manifest_source("/", "/w/conf/crucible.toml", "/w", |place| {
        assert_eq!((place.repo_dir.as_str(), place.rel.as_str()), ("/w", "conf/crucible.toml"));
        text.map(|t| ("abc123".to_string(), t.to_string()))
    })
}

fn outside() -> FrozenSource {
    frozen_manifest_source("/", "/p/crucible.toml", "/p/workspace", |_| panic!("nothing to read"))
}

#[test]
fn manifest_inside_its_workspace_is_located() {
    assert_eq!(
        at("/home/u", "pack/crucible.toml", "pack/."),
        Some(("/home/u/pack".to_string(), "crucible.toml".to_string()))
    );
    assert_eq!(
        at("/x", "/w/sub/../conf/crucible.toml", "/w"),
        Some(("/w".to_string(), "conf/crucible.toml".to_string()))
    );
}

#[test]
fn manifest_beside_its_workspace_is_not_located() {
    assert_eq!(at("/home/u", "pack/crucible.toml", "pack/workspace"), None);
    assert_eq!(at("/", "/w", "/w"), None, "the workspace itself is not inside it");
    assert_eq!(at("/", "/work/crucible.toml", "/w"), None, "components, not letters");
    assert_eq!(at("/a", "crucible.toml", "../b"), None);
}

#[test]
fn base_commit_wins_over_the_working_tree() {
    let source = inside(Some("committed"));
    assert!(matches!(&source, FrozenSource::Head { sha, .. } if sha == "abc123"));
    let parsed: Result<String, String> =
        load_frozen_generic("dirty".to_string(), source, |text| Ok(text));
    assert_eq!(parsed.unwrap(), "committed");
    let text = counting_text("dirty".to_string(), inside(Some("committed")));
    assert_eq!(text, "committed");
    let text = frozen_manifest_text("/", "/w/c.toml", "/w", "dirty".to_string(), |place| {
        assert_eq!((place.repo_dir.as_str(), place.rel.as_str()), ("/w", "c.toml"));
        Some(("abc123".to_string(), "committed".to_string()))
    });
    assert_eq!(text, "committed");
    let broken: Result<String, String> = load_frozen_generic(
        "dirty".to_string(),
        inside(Some("committed")),
        |_| Err("bad toml".to_string()),
    );
    assert_eq!(broken.unwrap_err(), "bad toml");
}

#[test]
fn working_tree_stands_before_the_first_commit_and_outside() {
    assert!(matches!(inside(None), FrozenSource::Unborn));
    assert!(matches!(outside(), FrozenSource::Outside));
    for source in [inside(None), outside()] {
        let parsed: Result<String, String> =
            load_frozen_generic("tree".to_string(), source, |text| Ok(text));
        assert_eq!(parsed.unwrap(), "tree");
    }
    assert_eq!(counting_text("tree".to_string(), FrozenSource::Unborn), "tree");
    let text = |workspace: &str| {
        frozen_manifest_text("/", "/w/c.toml", workspace, "tree".to_string(), |_| None)
    };
    assert_eq!((text("/w"), text("/elsewhere")), ("tree".to_string(), "tree".to_string()));
}

#[test]
fn operator_is_told_of_the_choice() {
    assert_eq!(notice("m", "w", &FrozenSource::Outside), None);
    assert_eq!(
        notice("m", "w", &inside(Some("t"))).unwrap(),
        "[crucible] manifest m lives inside the workspace repo — loading its content from base \
         commit abc123, not the working tree"
    );
    assert_eq!(
        notice("m", "w", &FrozenSource::Unborn).unwrap(),
        "[crucible] WARNING: manifest m lives inside the workspace-to-be (w), but no base commit \
         exists yet to pin it to — this run trusts the working tree. Once the workspace has a \
         first commit, later runs freeze to it."
    );
}

#[test]
fn paths_agree_with_the_standard_library() {
    let samples = [
        "", ".", "..", "/", "a", "a/b", "/a/b/", "a//b", "./a", "a/./b", "a/../b", "//a", "a/", "../a",
        "./", "/.", "/..", "x/.hidden", "...",
    ];
    for p in samples {
        let ours = components_of(p);
        let theirs: Vec<String> = std::path::Path::new(p)
            .components()
            .map(|c| c.as_os_str().to_str().unwrap().to_string())
            .collect();
        assert_eq!(ours, theirs, "{p:?}");
        assert_eq!(is_absolute(p), std::path::Path::new(p).is_absolute(), "{p:?}");
        let ours = parent(p);
        let theirs = std::path::Path::new(p).parent();
        assert_eq!(ours.is_some(), theirs.is_some(), "{p:?}");
        if let (Some(a), Some(b)) = (&ours, theirs) {
            assert_eq!(std::path::Path::new(a), b, "{p:?}");
        }
        for q in samples {
            let theirs = std::path::Path::new(p).join(q);
            assert_eq!(join_path(p, q), theirs.to_str().unwrap(), "{p:?} {q:?}");
        }
    }
}

#[test]
fn resolving_collapses_dots_and_stops_at_the_root() {
    assert_eq!(path_of(&absolute("/a/b", "../c/./d")), "/a/c/d");
    assert_eq!(path_of(&absolute("/a", "../../../x")), "/x");
    assert_eq!(path_of(&absolute("/a", "/b/..")), "/");
    assert_eq!(path_of(&absolute("", "../x")), "x");
    let once = path_of(&absolute("/a", "b/../c//d/."));
    assert_eq!(once, "/a/c/d");
    assert_eq!(path_of(&absolute("/elsewhere", &once)), once);
    assert_eq!(components_of(&once), ["/", "a", "c", "d"]);
    assert_eq!(manifest_dir("crucible.toml"), ".");
    assert_eq!(manifest_dir("/crucible.toml"), "/");
    assert_eq!(manifest_dir("p/q/crucible.toml"), "p/q");
}

#[test]
fn carried_paths_lead_below_the_workspace() {
    for (cwd, dir) in [("/x", "ws"), ("/x", "/abs/ws/"), ("/x", "../up"), ("", "")] {
        let base = absolute(cwd, dir);
        for entry in ["out", "a/b/", "a//b", "..c/.d"] {
            let inside = absolute(cwd, &join_path(dir, entry));
            assert!(inside.len() > base.len(), "{dir} {entry}");
            assert_eq!(inside[..base.len()], base[..], "{dir} {entry}");
        }
    }
}
