use vstd::prelude::*;

use crate::paths;
use crate::text;

verus! {

/// Where in the workspace's repository a manifest lies.
#[derive(Debug)]
pub struct FrozenLocation {
    pub repo_dir: String,
    /// Relative to the repository.
    pub rel: String,
}

/// Which content of a manifest counts.
#[derive(Debug)]
pub enum FrozenSource {
    /// The manifest lies outside the workspace.
    Outside,
    /// It lies inside, and the workspace has a base commit that holds it.
    Head { sha: String, text: String },
    /// It lies inside, and there is nothing yet to read it from.
    Unborn,
}

/// The repository and the path in it, where the manifest lies strictly below the workspace.
pub open spec fn location(cwd: Seq<char>, manifest: Seq<char>, workspace: Seq<char>) -> Option<
    (Seq<char>, Seq<char>),
> {
    let m = paths::resolved(cwd, manifest);
    let w = paths::resolved(cwd, workspace);
    if w.is_prefix_of(m) && m != w {
        Some((paths::path_text(w), paths::path_text(m.skip(w.len() as int))))
    } else {
        None
    }
}

fn has_prefix(parts: &Vec<String>, prefix: &Vec<String>) -> (r: bool)
    ensures
        r == text::texts(prefix@).is_prefix_of(text::texts(parts@)),
{
    let ghost p = text::texts(prefix@);
    let ghost all = text::texts(parts@);
    if prefix.len() > parts.len() {
        return false;
    }
    let mut i: usize = 0;
    while i < prefix.len()
        invariant
            p == text::texts(prefix@),
            all == text::texts(parts@),
            i <= prefix@.len() <= parts@.len(),
            forall|j: int| 0 <= j < i ==> p[j] == all[j],
        decreases prefix@.len() - i,
    {
        if !text::same_text(prefix[i].as_str(), parts[i].as_str()) {
            assert(all.subrange(0, p.len() as int)[i as int] == all[i as int]);
            assert(p[i as int] != all[i as int]);
            return false;
        }
        i = i + 1;
    }
    assert(p =~= all.subrange(0, p.len() as int));
    true
}

/// Where the manifest lies in the workspace's repository; `None` where it does not. The two paths
/// are compared as they are written, from the directory `cwd`.
pub fn frozen_manifest_location(cwd: &str, manifest_path: &str, workspace: &str) -> (r: Option<
    FrozenLocation,
>)
    ensures
        match r {
            Some(l) => location(cwd@, manifest_path@, workspace@) == Some((l.repo_dir@, l.rel@)),
            None => location(cwd@, manifest_path@, workspace@) is None,
        },
{
    let m = paths::absolute(cwd, manifest_path);
    let w = paths::absolute(cwd, workspace);
    let ghost parts = text::texts(m@);
    let ghost dir = text::texts(w@);
    if !has_prefix(&m, &w) {
        return None;
    }
    if m.len() == w.len() {
        assert(dir == parts.subrange(0, dir.len() as int));
        assert(parts =~= dir);
        return None;
    }
    let mut rest: Vec<String> = Vec::new();
    let mut i: usize = w.len();
    while i < m.len()
        invariant
            w@.len() <= i <= m@.len(),
            rest@.len() == i - w@.len(),
            forall|j: int| 0 <= j < i - w@.len() ==> (#[trigger] rest@[j])@ == m@[j + w@.len()]@,
        decreases m@.len() - i,
    {
        rest.push(m[i].clone());
        i = i + 1;
    }
    assert(text::texts(rest@) =~= parts.skip(dir.len() as int));
    Some(FrozenLocation { repo_dir: paths::path_of(&w), rel: paths::path_of(&rest) })
}

/// Which content counts for a manifest at `path` whose workspace is `workspace`: `source` is what
/// `head` yields at the manifest's place in the workspace, if it has one.
pub open spec fn sourced<H: FnOnce(FrozenLocation) -> Option<(String, String)>>(
    cwd: Seq<char>,
    path: Seq<char>,
    workspace: Seq<char>,
    head: H,
    source: FrozenSource,
) -> bool {
    match location(cwd, path, workspace) {
        None => source is Outside,
        Some((repo_dir, rel)) => exists|place: FrozenLocation, found: Option<(String, String)>|
            {
                &&& place.repo_dir@ == repo_dir && place.rel@ == rel
                &&& #[trigger] call_ensures(head, (place,), found)
                &&& match found {
                    Some((sha, text)) => source == (FrozenSource::Head { sha, text }),
                    None => source is Unborn,
                }
            },
    }
}

/// Which content of a manifest counts. `head` reads the manifest's blob out of the base commit: the
/// commit's id and the text, or nothing.
pub fn frozen_manifest_source<H: FnOnce(FrozenLocation) -> Option<(String, String)>>(
    cwd: &str,
    manifest_path: &str,
    workspace: &str,
    head: H,
) -> (r: FrozenSource)
    requires
        forall|place: FrozenLocation| #[trigger] call_requires(head, (place,)),
    ensures
        sourced(cwd@, manifest_path@, workspace@, head, r),
{
    match frozen_manifest_location(cwd, manifest_path, workspace) {
        None => FrozenSource::Outside,
        Some(place) => match head(place) {
            Some((sha, text)) => FrozenSource::Head { sha, text },
            None => FrozenSource::Unborn,
        },
    }
}

/// The manifest for a run: what `reparse` makes of the base commit's text where there is one, else
/// what was read from the working tree.
pub fn load_frozen_generic<T, E, F: FnOnce(String) -> Result<T, E>>(
    working_tree: T,
    source: FrozenSource,
    reparse: F,
) -> (r: Result<T, E>)
    requires
        source matches FrozenSource::Head { text, .. } ==> call_requires(reparse, (text,)),
    ensures
        match source {
            FrozenSource::Head { text, .. } => call_ensures(reparse, (text,), r),
            _ => r == Ok::<T, E>(working_tree),
        },
{
    match source {
        FrozenSource::Head { text, .. } => reparse(text),
        _ => Ok(working_tree),
    }
}

/// The text that counts.
pub open spec fn frozen_text(working_tree: Seq<char>, source: FrozenSource) -> Seq<char> {
    match source {
        FrozenSource::Head { text, .. } => text@,
        _ => working_tree,
    }
}

/// Chooses the text that counts.
pub fn counting_text(working_tree: String, source: FrozenSource) -> (r: String)
    ensures
        r@ == frozen_text(working_tree@, source),
{
    match source {
        FrozenSource::Head { text, .. } => text,
        _ => working_tree,
    }
}

/// Whether `text` is the text that counts for a manifest at `path` whose workspace is `workspace`.
pub open spec fn identifies<H: FnOnce(FrozenLocation) -> Option<(String, String)>>(
    cwd: Seq<char>,
    path: Seq<char>,
    workspace: Seq<char>,
    working_tree: Seq<char>,
    head: H,
    text: Seq<char>,
) -> bool {
    exists|source: FrozenSource| #[trigger]
        sourced(cwd, path, workspace, head, source) && text == frozen_text(working_tree, source)
}

/// The exact text that a frozen load parses, for the identity of a run: the base commit's where
/// that counts, else the working tree's.
pub fn frozen_manifest_text<H: FnOnce(FrozenLocation) -> Option<(String, String)>>(
    cwd: &str,
    manifest_path: &str,
    workspace: &str,
    working_tree: String,
    head: H,
) -> (r: String)
    requires
        forall|place: FrozenLocation| #[trigger] call_requires(head, (place,)),
    ensures
        identifies(cwd@, manifest_path@, workspace@, working_tree@, head, r@),
{
    let source = frozen_manifest_source(cwd, manifest_path, workspace, head);
    let ghost counts = source;
    assert(sourced(cwd@, manifest_path@, workspace@, head, counts));
    counting_text(working_tree, source)
}

/// Whether two answers from a base commit are one, in their texts.
pub open spec fn same_blob(a: Option<(String, String)>, b: Option<(String, String)>) -> bool {
    match (a, b) {
        (None, None) => true,
        (Some((sha, text)), Some((other_sha, other))) => sha@ == other_sha@ && text@ == other@,
        _ => false,
    }
}

/// Whether a base commit gives one answer at each place: nothing is committed in between.
pub open spec fn answers_once<H: FnOnce(FrozenLocation) -> Option<(String, String)>>(
    head: H,
) -> bool {
    forall|
        p: FrozenLocation,
        q: FrozenLocation,
        a: Option<(String, String)>,
        b: Option<(String, String)>,
    |
        #[trigger] call_ensures(head, (p,), a) && #[trigger] call_ensures(head, (q,), b)
            && p.repo_dir@ == q.repo_dir@ && p.rel@ == q.rel@ ==> same_blob(a, b)
}

/// Whether two sources are one, in their texts.
pub open spec fn same_source(a: FrozenSource, b: FrozenSource) -> bool {
    match (a, b) {
        (FrozenSource::Outside, FrozenSource::Outside) => true,
        (FrozenSource::Unborn, FrozenSource::Unborn) => true,
        (
            FrozenSource::Head { sha, text },
            FrozenSource::Head { sha: other_sha, text: other },
        ) => sha@ == other_sha@ && text@ == other@,
        _ => false,
    }
}

/// Where a base commit gives one answer at each place, one content counts.
pub proof fn one_source_counts<H: FnOnce(FrozenLocation) -> Option<(String, String)>>(
    cwd: Seq<char>,
    path: Seq<char>,
    workspace: Seq<char>,
    head: H,
    a: FrozenSource,
    b: FrozenSource,
)
    requires
        answers_once(head),
        sourced(cwd, path, workspace, head, a),
        sourced(cwd, path, workspace, head, b),
    ensures
        same_source(a, b),
{
}

/// What the operator is told of the choice. Nothing where the manifest lies outside.
pub open spec fn notice_text(
    manifest: Seq<char>,
    workspace: Seq<char>,
    source: FrozenSource,
) -> Option<Seq<char>> {
    match source {
        FrozenSource::Outside => None,
        FrozenSource::Head { sha, .. } => Some(
            "[crucible] manifest "@ + manifest
                + " lives inside the workspace repo — loading its content from base commit "@ + sha@
                + ", not the working tree"@,
        ),
        FrozenSource::Unborn => Some(
            "[crucible] WARNING: manifest "@ + manifest + " lives inside the workspace-to-be ("@
                + workspace
                + "), but no base commit exists yet to pin it to — this run trusts the working tree. Once the workspace has a first commit, later runs freeze to it."@,
        ),
    }
}

/// What the operator is told of the choice.
pub fn notice(manifest_path: &str, workspace: &str, source: &FrozenSource) -> (r: Option<String>)
    ensures
        text::text_opt(r) == notice_text(manifest_path@, workspace@, *source),
{
    match source {
        FrozenSource::Outside => None,
        FrozenSource::Head { sha, .. } => {
            let head = text::concat3(
                "[crucible] manifest ",
                manifest_path,
                " lives inside the workspace repo — loading its content from base commit ",
            );
            Some(text::concat3(head.as_str(), sha.as_str(), ", not the working tree"))
        },
        FrozenSource::Unborn => {
            let head = text::concat3(
                "[crucible] WARNING: manifest ",
                manifest_path,
                " lives inside the workspace-to-be (",
            );
            Some(
                text::concat3(
                    head.as_str(),
                    workspace,
                    "), but no base commit exists yet to pin it to — this run trusts the working tree. Once the workspace has a first commit, later runs freeze to it.",
                ),
            )
        },
    }
}

/// A bare name: no separator in it, and neither empty nor a dot or two.
pub open spec fn plain_name(name: Seq<char>) -> bool {
    paths::plain_name(name)
}

proof fn lemma_plain_name(name: Seq<char>)
    requires
        plain_name(name),
    ensures
        !paths::rooted(name),
        text::split(name, '/') == seq![name],
        paths::named(seq![name]) == seq![name],
{
    if paths::rooted(name) {
        assert(name.contains(name[0]));
    }
    text::join_then_split(seq![name], '/');
    assert(text::join(seq![name], seq!['/']) == name);
    assert(seq![name].drop_last() == Seq::<Seq<char>>::empty());
    assert(paths::named(Seq::<Seq<char>>::empty()) == Seq::<Seq<char>>::empty());
    assert(seq![name].last() == name);
    assert(Seq::<Seq<char>>::empty().push(name) == seq![name]);
}

/// A manifest that lies directly in its workspace is found there, under its own name.
pub proof fn manifest_in_its_workspace_is_frozen(cwd: Seq<char>, workspace: Seq<char>, name: Seq<char>)
    requires
        plain_name(name),
    ensures
        location(cwd, paths::joined(workspace, name), workspace) == Some(
            (paths::path_text(paths::resolved(cwd, workspace)), name),
        ),
{
    lemma_plain_name(name);
    paths::undotted_path_leads_below(cwd, workspace, name);
    let w = paths::resolved(cwd, workspace);
    let m = w + seq![name];
    assert(w == m.subrange(0, w.len() as int));
    assert(m.skip(w.len() as int) == seq![name]);
    assert(m.len() != w.len());
    reveal_strlit("/");
    if name == "/"@ {
        assert(name.contains(name[0]));
    }
}

/// A manifest beside the workspace directory lies outside it: nothing is frozen.
pub proof fn manifest_beside_its_workspace_is_outside(
    cwd: Seq<char>,
    dir: Seq<char>,
    name: Seq<char>,
    workspace: Seq<char>,
)
    requires
        plain_name(name),
        plain_name(workspace),
    ensures
        location(cwd, paths::joined(dir, name), paths::joined(dir, workspace)) is None,
{
    lemma_plain_name(name);
    lemma_plain_name(workspace);
    paths::undotted_path_leads_below(cwd, dir, name);
    paths::undotted_path_leads_below(cwd, dir, workspace);
    let d = paths::resolved(cwd, dir);
    let m = d + seq![name];
    let w = d + seq![workspace];
    if w.is_prefix_of(m) {
        assert(m.subrange(0, w.len() as int) == m);
    }
}

/// A manifest at any depth below its workspace is found there: for every relative path of bare
/// names, however many, the repository is where the workspace leads and the path in it is that
/// relative path as it was written.
pub proof fn manifest_at_any_depth_is_frozen(
    cwd: Seq<char>,
    workspace: Seq<char>,
    names: Seq<Seq<char>>,
)
    requires
        names.len() > 0,
        paths::plain_names(names),
    ensures
        location(cwd, paths::joined(workspace, text::join(names, "/"@)), workspace) == Some(
            (paths::path_text(paths::resolved(cwd, workspace)), text::join(names, "/"@)),
        ),
{
    paths::names_lead_below(cwd, workspace, names);
    paths::lemma_plain_names(names);
    let w = paths::resolved(cwd, workspace);
    let m = w + names;
    assert(w == m.subrange(0, w.len() as int));
    assert(m.skip(w.len() as int) == names);
    assert(m.len() != w.len());
}

/// A manifest that is written from its own directory, with the workspace the directory it lies in
/// (`.`), is found there too.
pub proof fn manifest_of_its_own_directory_is_frozen(
    cwd: Seq<char>,
    dir: Seq<char>,
    name: Seq<char>,
)
    requires
        plain_name(name),
    ensures
        location(cwd, paths::joined(dir, name), paths::joined(dir, "."@)) == Some(
            (paths::path_text(paths::resolved(cwd, dir)), name),
        ),
{
    manifest_in_its_workspace_is_frozen(cwd, dir, name);
    paths::dot_stays(cwd, dir);
}

/// The place of a manifest, wherever it is found, leads back to it: the names of the relative path,
/// at least one, behind those of the workspace are those of the manifest. Where no such names
/// exist, the manifest lies outside.
pub proof fn location_leads_back_to_the_manifest(
    cwd: Seq<char>,
    manifest: Seq<char>,
    workspace: Seq<char>,
)
    ensures
        location(cwd, manifest, workspace) matches Some((repo_dir, rel)) ==> {
            &&& repo_dir == paths::path_text(paths::resolved(cwd, workspace))
            &&& exists|names: Seq<Seq<char>>|
                names.len() > 0 && rel == #[trigger] paths::path_text(names) && paths::resolved(
                    cwd,
                    manifest,
                ) == paths::resolved(cwd, workspace) + names
        },
        location(cwd, manifest, workspace) is None ==> forall|names: Seq<Seq<char>>|
            names.len() > 0 ==> paths::resolved(cwd, manifest) != #[trigger] (paths::resolved(
                cwd,
                workspace,
            ) + names),
{
    let m = paths::resolved(cwd, manifest);
    let w = paths::resolved(cwd, workspace);
    if location(cwd, manifest, workspace) is Some {
        let names = m.skip(w.len() as int);
        assert(m == w + names);
        assert(names.len() > 0) by {
            if names.len() == 0 {
                assert(m == w);
            }
        }
        assert(paths::path_text(names) == (location(cwd, manifest, workspace)->0).1);
    } else {
        assert forall|names: Seq<Seq<char>>| names.len() > 0 implies m != #[trigger] (w + names) by {
            if m == w + names {
                assert(w == m.subrange(0, w.len() as int));
                assert(m.len() > w.len());
            }
        }
    }
}

/// The working directory does not matter where both paths start at the root.
pub proof fn rooted_paths_are_compared_from_anywhere(
    cwd: Seq<char>,
    elsewhere: Seq<char>,
    manifest: Seq<char>,
    workspace: Seq<char>,
)
    requires
        paths::rooted(manifest),
        paths::rooted(workspace),
    ensures
        location(cwd, manifest, workspace) == location(elsewhere, manifest, workspace),
{
    paths::rooted_path_needs_no_directory(cwd, elsewhere, manifest);
    paths::rooted_path_needs_no_directory(cwd, elsewhere, workspace);
}

/// For a manifest below its workspace the base commit is asked once for the file at its place in the
/// repository. What it holds there counts, with the commit's id; where it holds nothing, there is
/// nothing yet to freeze. Such a manifest is never outside.
pub proof fn base_commit_is_asked_for_the_manifest<
    H: FnOnce(FrozenLocation) -> Option<(String, String)>,
>(
    cwd: Seq<char>,
    workspace: Seq<char>,
    names: Seq<Seq<char>>,
    working_tree: Seq<char>,
    head: H,
    source: FrozenSource,
)
    requires
        names.len() > 0,
        paths::plain_names(names),
        sourced(
            cwd,
            paths::joined(workspace, text::join(names, "/"@)),
            workspace,
            head,
            source,
        ),
    ensures
        exists|place: FrozenLocation, found: Option<(String, String)>|
            {
                &&& place.repo_dir@ == paths::path_text(paths::resolved(cwd, workspace))
                &&& place.rel@ == text::join(names, "/"@)
                &&& #[trigger] call_ensures(head, (place,), found)
                &&& found matches Some((sha, text)) ==> {
                    &&& source == (FrozenSource::Head { sha, text })
                    &&& frozen_text(working_tree, source) == text@
                }
                &&& found is None ==> source is Unborn && frozen_text(working_tree, source)
                    == working_tree
            },
{
    manifest_at_any_depth_is_frozen(cwd, workspace, names);
}

/// For a manifest outside its workspace the base commit is not asked: what was read counts.
pub proof fn outside_the_workspace_nothing_is_frozen<
    H: FnOnce(FrozenLocation) -> Option<(String, String)>,
>(
    cwd: Seq<char>,
    dir: Seq<char>,
    name: Seq<char>,
    workspace: Seq<char>,
    working_tree: Seq<char>,
    head: H,
    source: FrozenSource,
)
    requires
        plain_name(name),
        plain_name(workspace),
        sourced(cwd, paths::joined(dir, name), paths::joined(dir, workspace), head, source),
    ensures
        source is Outside,
        frozen_text(working_tree, source) == working_tree,
{
    manifest_beside_its_workspace_is_outside(cwd, dir, name, workspace);
}

/// The text that identifies a run with its manifest below the workspace is the one that the base
/// commit holds at the manifest's place, and what was read only where it holds none.
pub proof fn run_is_identified_by_the_committed_text<
    H: FnOnce(FrozenLocation) -> Option<(String, String)>,
>(
    cwd: Seq<char>,
    workspace: Seq<char>,
    names: Seq<Seq<char>>,
    working_tree: Seq<char>,
    head: H,
    text: Seq<char>,
)
    requires
        names.len() > 0,
        paths::plain_names(names),
        identifies(
            cwd,
            paths::joined(workspace, text::join(names, "/"@)),
            workspace,
            working_tree,
            head,
            text,
        ),
    ensures
        exists|place: FrozenLocation, found: Option<(String, String)>|
            {
                &&& place.repo_dir@ == paths::path_text(paths::resolved(cwd, workspace))
                &&& place.rel@ == text::join(names, "/"@)
                &&& #[trigger] call_ensures(head, (place,), found)
                &&& found matches Some((_, committed)) ==> text == committed@
                &&& found is None ==> text == working_tree
            },
{
    let path = paths::joined(workspace, text::join(names, "/"@));
    let source = choose|source: FrozenSource| #[trigger]
        sourced(cwd, path, workspace, head, source) && text == frozen_text(working_tree, source);
    base_commit_is_asked_for_the_manifest(cwd, workspace, names, working_tree, head, source);
}

/// The operator is told of every choice but the obvious one: which manifest, and which commit it is
/// read from or which workspace has none yet.
pub proof fn operator_is_told_what_was_chosen(
    manifest: Seq<char>,
    workspace: Seq<char>,
    source: FrozenSource,
)
    ensures
        notice_text(manifest, workspace, source) is None <==> source is Outside,
        notice_text(manifest, workspace, source) matches Some(notice) ==> text::mentions(
            notice,
            manifest,
        ) && (source matches FrozenSource::Head { sha, .. } ==> text::mentions(notice, sha@)) && (
        source is Unborn ==> text::mentions(notice, workspace)),
{
    match source {
        FrozenSource::Outside => {},
        FrozenSource::Head { sha, .. } => {
            let head = "[crucible] manifest "@;
            let middle =
                " lives inside the workspace repo — loading its content from base commit "@;
            let end = ", not the working tree"@;
            text::lemma_mentions(head, manifest, middle + sha@ + end);
            assert(head + manifest + middle + sha@ + end == head + manifest + (middle + sha@ + end));
            text::lemma_mentions(head + manifest + middle, sha@, end);
        },
        FrozenSource::Unborn => {
            let head = "[crucible] WARNING: manifest "@;
            let middle = " lives inside the workspace-to-be ("@;
            let end =
                "), but no base commit exists yet to pin it to — this run trusts the working tree. Once the workspace has a first commit, later runs freeze to it."@;
            text::lemma_mentions(head, manifest, middle + workspace + end);
            assert(head + manifest + middle + workspace + end == head + manifest + (middle + workspace
                + end));
            text::lemma_mentions(head + manifest + middle, workspace, end);
        },
    }
}

/// Wherever a manifest is located, the base commit is asked at that place and its answer decides;
/// where it is not, nothing is asked.
pub proof fn base_commit_is_asked_at_the_location<
    H: FnOnce(FrozenLocation) -> Option<(String, String)>,
>(
    cwd: Seq<char>,
    path: Seq<char>,
    workspace: Seq<char>,
    head: H,
    source: FrozenSource,
)
    requires
        sourced(cwd, path, workspace, head, source),
    ensures
        location(cwd, path, workspace) is None <==> source is Outside,
        location(cwd, path, workspace) matches Some((repo_dir, rel)) ==> exists|
            place: FrozenLocation,
            found: Option<(String, String)>,
        |
            {
                &&& place.repo_dir@ == repo_dir
                &&& place.rel@ == rel
                &&& #[trigger] call_ensures(head, (place,), found)
                &&& found matches Some((sha, text)) ==> source == (FrozenSource::Head { sha, text })
                &&& found is None ==> source is Unborn
            },
{
}

} // verus!
