use vstd::prelude::*;

use crate::manifest::error::{Refusal, RefusalFault};
use crate::manifest::frozen;
use crate::manifest::frozen::{FrozenLocation, FrozenSource};
use crate::manifest::types::{CompositeManifest, Manifest};
use crate::manifest::validate::TableVerdicts;
use crate::paths;
use crate::text;

verus! {

/// Why a manifest was not loaded.
#[derive(Debug)]
pub enum LoadError<E> {
    Parse { error: E },
    /// The text of the workspace's base commit could not be parsed.
    BaseParse { error: E },
    Refused { refusal: Refusal },
}

/// A manifest that was loaded for a run, with what the operator is told of where it came from.
#[derive(Debug)]
pub struct FrozenLoad<M> {
    pub manifest: M,
    pub notice: Option<String>,
}

/// What loading needs of a manifest, of either shape.
pub trait RunManifest: Sized {
    /// What is wrong with it.
    spec fn refusal(self, verdicts: TableVerdicts) -> Option<RefusalFault>;

    /// The directory of its workspace, as it is written.
    spec fn workspace_dir(self) -> Seq<char>;

    /// The checks over several fields at once.
    fn check(&self, verdicts: &TableVerdicts) -> (r: Result<(), Refusal>)
        ensures
            match r {
                Ok(()) => self.refusal(*verdicts) is None,
                Err(e) => self.refusal(*verdicts) == Some(e@),
            },
    ;

    /// Its workspace, where it lies at a path.
    fn workspace_of(&self, manifest_path: &str) -> (r: String)
        ensures
            r@ == paths::joined(paths::directory_of(manifest_path@), self.workspace_dir()),
    ;
}

/// The workspace of a manifest that lies at a path.
pub open spec fn workspace_at<M: RunManifest>(path: Seq<char>, manifest: M) -> Seq<char> {
    paths::joined(paths::directory_of(path), manifest.workspace_dir())
}

impl RunManifest for Manifest {
    open spec fn refusal(self, verdicts: TableVerdicts) -> Option<RefusalFault> {
        self.fault(verdicts)
    }

    open spec fn workspace_dir(self) -> Seq<char> {
        self.workspace.dir@
    }

    fn check(&self, verdicts: &TableVerdicts) -> (r: Result<(), Refusal>) {
        self.validate(verdicts)
    }

    fn workspace_of(&self, manifest_path: &str) -> (r: String) {
        self.workspace_path(manifest_path)
    }
}

impl RunManifest for CompositeManifest {
    open spec fn refusal(self, verdicts: TableVerdicts) -> Option<RefusalFault> {
        self.fault(verdicts)
    }

    open spec fn workspace_dir(self) -> Seq<char> {
        self.workspace.dir@
    }

    fn check(&self, verdicts: &TableVerdicts) -> (r: Result<(), Refusal>) {
        self.validate(verdicts)
    }

    fn workspace_of(&self, manifest_path: &str) -> (r: String) {
        self.base_dir(paths::manifest_dir(manifest_path).as_str())
    }
}

/// Whether `r` is what loading makes of an outcome of the parse: the manifest where it is
/// acceptable.
pub open spec fn accepted<M: RunManifest, E>(
    outcome: Result<(M, TableVerdicts), E>,
    r: Result<M, LoadError<E>>,
) -> bool {
    match outcome {
        Err(e) => r == Err::<M, LoadError<E>>(LoadError::Parse { error: e }),
        Ok((manifest, verdicts)) => match r {
            Ok(m) => m == manifest && manifest.refusal(verdicts) is None,
            Err(LoadError::Refused { refusal }) => manifest.refusal(verdicts) == Some(refusal@),
            Err(_) => false,
        },
    }
}

/// Whether `r` is what loading makes of a text.
pub open spec fn loads<M: RunManifest, E, P: Fn(String) -> Result<(M, TableVerdicts), E>>(
    parse: P,
    text: String,
    r: Result<M, LoadError<E>>,
) -> bool {
    exists|outcome: Result<(M, TableVerdicts), E>| #[trigger]
        call_ensures(parse, (text,), outcome) && accepted(outcome, r)
}

/// Whether `r` is what comes of the base commit's text, given what loading makes of that text.
pub open spec fn from_base<M, E>(
    second: Result<M, LoadError<E>>,
    path: Seq<char>,
    workspace: Seq<char>,
    source: FrozenSource,
    r: Result<FrozenLoad<M>, LoadError<E>>,
) -> bool {
    match second {
        Ok(manifest) => r matches Ok(loaded) && loaded.manifest == manifest && text::text_opt(
            loaded.notice,
        ) == frozen::notice_text(path, workspace, source),
        Err(LoadError::Parse { error }) => r == Err::<FrozenLoad<M>, LoadError<E>>(
            LoadError::BaseParse { error },
        ),
        Err(e) => r == Err::<FrozenLoad<M>, LoadError<E>>(e),
    }
}

/// Whether `r` is what loading for a run yields, given the manifest of the working tree and which
/// content counts.
pub open spec fn chosen<M: RunManifest, E, P: Fn(String) -> Result<(M, TableVerdicts), E>>(
    path: Seq<char>,
    tree: M,
    source: FrozenSource,
    parse: P,
    r: Result<FrozenLoad<M>, LoadError<E>>,
) -> bool {
    let workspace = workspace_at(path, tree);
    match source {
        FrozenSource::Head { text, .. } => exists|second: Result<M, LoadError<E>>| #[trigger]
            loads(parse, text, second) && from_base(second, path, workspace, source, r),
        _ => r matches Ok(loaded) && loaded.manifest == tree && text::text_opt(loaded.notice)
            == frozen::notice_text(path, workspace, source),
    }
}

/// Whether `r` is what loading for a run yields, given the manifest of the working tree.
pub open spec fn frozen_choice<
    M: RunManifest,
    E,
    H: FnOnce(FrozenLocation) -> Option<(String, String)>,
    P: Fn(String) -> Result<(M, TableVerdicts), E>,
>(
    cwd: Seq<char>,
    path: Seq<char>,
    tree: M,
    head: H,
    parse: P,
    r: Result<FrozenLoad<M>, LoadError<E>>,
) -> bool {
    exists|source: FrozenSource| #[trigger]
        frozen::sourced(cwd, path, workspace_at(path, tree), head, source) && chosen(
            path,
            tree,
            source,
            parse,
            r,
        )
}

/// Whether `r` is what loading for a run yields: the base commit's manifest where that counts, else
/// the working tree's.
pub open spec fn loads_frozen<
    M: RunManifest,
    E,
    H: FnOnce(FrozenLocation) -> Option<(String, String)>,
    P: Fn(String) -> Result<(M, TableVerdicts), E>,
>(
    cwd: Seq<char>,
    path: Seq<char>,
    working_tree: String,
    head: H,
    parse: P,
    r: Result<FrozenLoad<M>, LoadError<E>>,
) -> bool {
    exists|first: Result<M, LoadError<E>>| #[trigger]
        loads(parse, working_tree, first) && match first {
            Err(e) => r == Err::<FrozenLoad<M>, LoadError<E>>(e),
            Ok(tree) => frozen_choice(cwd, path, tree, head, parse, r),
        }
}

/// Loads a manifest of either shape.
fn load_text<M: RunManifest, E, P: Fn(String) -> Result<(M, TableVerdicts), E>>(
    text: String,
    parse: &P,
) -> (r: Result<M, LoadError<E>>)
    requires
        call_requires(*parse, (text,)),
    ensures
        loads(*parse, text, r),
{
    let ghost given = text;
    let outcome = parse(text);
    let ghost parsed = outcome;
    let r = match outcome {
        Err(error) => Err(LoadError::Parse { error }),
        Ok((manifest, verdicts)) => match manifest.check(&verdicts) {
            Ok(()) => Ok(manifest),
            Err(refusal) => Err(LoadError::Refused { refusal }),
        },
    };
    assert(call_ensures(*parse, (given,), parsed) && accepted(parsed, r));
    r
}

/// Loads a manifest of either shape for a run.
fn load_for_run<
    M: RunManifest,
    E,
    H: FnOnce(FrozenLocation) -> Option<(String, String)>,
    P: Fn(String) -> Result<(M, TableVerdicts), E>,
>(cwd: &str, manifest_path: &str, working_tree: String, head: H, parse: &P) -> (r: Result<
    FrozenLoad<M>,
    LoadError<E>,
>)
    requires
        forall|text: String| #[trigger] call_requires(*parse, (text,)),
        forall|place: FrozenLocation| #[trigger] call_requires(head, (place,)),
    ensures
        loads_frozen(cwd@, manifest_path@, working_tree, head, *parse, r),
{
    let tree = match load_text::<M, E, P>(working_tree, parse) {
        Ok(tree) => tree,
        Err(error) => return Err(error),
    };
    let ghost on_disk = tree;
    let workspace = tree.workspace_of(manifest_path);
    let source = frozen::frozen_manifest_source(cwd, manifest_path, workspace.as_str(), head);
    let ghost counts = source;
    let notice = frozen::notice(manifest_path, workspace.as_str(), &source);
    let reparse = |text: String| -> (r: Result<M, LoadError<E>>)
        requires
            call_requires(*parse, (text,)),
        ensures
            loads(*parse, text, r),
        { load_text::<M, E, P>(text, parse) };
    let r = match frozen::load_frozen_generic(tree, source, reparse) {
        Ok(manifest) => Ok(FrozenLoad { manifest, notice }),
        Err(LoadError::Parse { error }) => Err(LoadError::BaseParse { error }),
        Err(error) => Err(error),
    };
    assert(chosen(manifest_path@, on_disk, counts, *parse, r));
    r
}

impl Manifest {
    /// Loads a manifest: `parse` reads the text, and what it yields is checked.
    pub fn load<E, P: Fn(String) -> Result<(Manifest, TableVerdicts), E>>(
        text: String,
        parse: &P,
    ) -> (r: Result<Manifest, LoadError<E>>)
        requires
            call_requires(*parse, (text,)),
        ensures
            loads(*parse, text, r),
    {
        load_text(text, parse)
    }

    /// Loads a manifest for a run. Where it lies inside its own workspace, the text of the base
    /// commit counts, as `head` reads it, and not that of the working tree; the working tree only
    /// says where the workspace is.
    pub fn load_frozen<
        E,
        H: FnOnce(FrozenLocation) -> Option<(String, String)>,
        P: Fn(String) -> Result<(Manifest, TableVerdicts), E>,
    >(cwd: &str, manifest_path: &str, working_tree: String, head: H, parse: &P) -> (r: Result<
        FrozenLoad<Manifest>,
        LoadError<E>,
    >)
        requires
            forall|text: String| #[trigger] call_requires(*parse, (text,)),
            forall|place: FrozenLocation| #[trigger] call_requires(head, (place,)),
        ensures
            loads_frozen(cwd@, manifest_path@, working_tree, head, *parse, r),
    {
        load_for_run(cwd, manifest_path, working_tree, head, parse)
    }
}

impl CompositeManifest {
    /// Loads a composite: `parse` reads the text, and what it yields is checked.
    pub fn load<E, P: Fn(String) -> Result<(CompositeManifest, TableVerdicts), E>>(
        text: String,
        parse: &P,
    ) -> (r: Result<CompositeManifest, LoadError<E>>)
        requires
            call_requires(*parse, (text,)),
        ensures
            loads(*parse, text, r),
    {
        load_text(text, parse)
    }

    /// Loads a composite for a run, in the same way as a single manifest.
    pub fn load_frozen<
        E,
        H: FnOnce(FrozenLocation) -> Option<(String, String)>,
        P: Fn(String) -> Result<(CompositeManifest, TableVerdicts), E>,
    >(cwd: &str, manifest_path: &str, working_tree: String, head: H, parse: &P) -> (r: Result<
        FrozenLoad<CompositeManifest>,
        LoadError<E>,
    >)
        requires
            forall|text: String| #[trigger] call_requires(*parse, (text,)),
            forall|place: FrozenLocation| #[trigger] call_requires(head, (place,)),
        ensures
            loads_frozen(cwd@, manifest_path@, working_tree, head, *parse, r),
    {
        load_for_run(cwd, manifest_path, working_tree, head, parse)
    }
}

/// What is loaded for a run is the parse of the very text that identifies the run, in the workspace
/// of the manifest on disk, and it was found acceptable.
pub proof fn frozen_load_is_of_the_frozen_text<
    M: RunManifest,
    E,
    H: FnOnce(FrozenLocation) -> Option<(String, String)>,
    P: Fn(String) -> Result<(M, TableVerdicts), E>,
>(
    cwd: Seq<char>,
    path: Seq<char>,
    working_tree: String,
    head: H,
    parse: P,
    r: Result<FrozenLoad<M>, LoadError<E>>,
)
    requires
        loads_frozen(cwd, path, working_tree, head, parse, r),
        r is Ok,
    ensures
        exists|tree: M, text: String|
            {
                &&& #[trigger] loads(parse, working_tree, Ok::<M, LoadError<E>>(tree))
                &&& frozen::identifies(
                    cwd,
                    path,
                    workspace_at(path, tree),
                    working_tree@,
                    head,
                    text@,
                )
                &&& #[trigger] loads(parse, text, Ok::<M, LoadError<E>>(r->Ok_0.manifest))
            },
        exists|verdicts: TableVerdicts| #[trigger] r->Ok_0.manifest.refusal(verdicts) is None,
{
    let loaded = Ok::<M, LoadError<E>>(r->Ok_0.manifest);
    let first = choose|first: Result<M, LoadError<E>>| #[trigger]
        loads(parse, working_tree, first) && match first {
            Err(e) => r == Err::<FrozenLoad<M>, LoadError<E>>(e),
            Ok(tree) => frozen_choice(cwd, path, tree, head, parse, r),
        };
    let tree = first->Ok_0;
    let source = choose|source: FrozenSource| #[trigger]
        frozen::sourced(cwd, path, workspace_at(path, tree), head, source) && chosen(
            path,
            tree,
            source,
            parse,
            r,
        );
    let text = match source {
        FrozenSource::Head { text, .. } => text,
        _ => working_tree,
    };
    assert(loads(parse, working_tree, Ok::<M, LoadError<E>>(tree)));
    assert(loads(parse, text, loaded));
    let outcome = choose|outcome: Result<(M, TableVerdicts), E>| #[trigger]
        call_ensures(parse, (text,), outcome) && accepted(outcome, loaded);
    assert(r->Ok_0.manifest.refusal((outcome->Ok_0).1) is None);
}

/// Whether a parser gives one answer to each text.
pub open spec fn parses_once<M, E, P: Fn(String) -> Result<(M, TableVerdicts), E>>(
    parse: P,
) -> bool {
    forall|
        s: String,
        t: String,
        a: Result<(M, TableVerdicts), E>,
        b: Result<(M, TableVerdicts), E>,
    |
        #[trigger] call_ensures(parse, (s,), a) && #[trigger] call_ensures(parse, (t,), b) && s@
            == t@ ==> a == b
}

/// Whether two errors are one, a refusal in its texts.
pub open spec fn same_error<E>(a: LoadError<E>, b: LoadError<E>) -> bool {
    match (a, b) {
        (LoadError::Refused { refusal }, LoadError::Refused { refusal: other }) => refusal@
            == other@,
        _ => a == b,
    }
}

/// Whether two loads of a text came to the same.
pub open spec fn same_result<M, E>(a: Result<M, LoadError<E>>, b: Result<M, LoadError<E>>) -> bool {
    match (a, b) {
        (Ok(m), Ok(other)) => m == other,
        (Err(e), Err(other)) => same_error(e, other),
        _ => false,
    }
}

/// Whether two loads for a run came to the same, what the operator is told included.
pub open spec fn same_load<M, E>(
    a: Result<FrozenLoad<M>, LoadError<E>>,
    b: Result<FrozenLoad<M>, LoadError<E>>,
) -> bool {
    match (a, b) {
        (Ok(l), Ok(other)) => l.manifest == other.manifest && text::text_opt(l.notice)
            == text::text_opt(other.notice),
        (Err(e), Err(other)) => same_error(e, other),
        _ => false,
    }
}

/// A text has one load.
proof fn lemma_one_load<M: RunManifest, E, P: Fn(String) -> Result<(M, TableVerdicts), E>>(
    parse: P,
    s: String,
    t: String,
    a: Result<M, LoadError<E>>,
    b: Result<M, LoadError<E>>,
)
    requires
        parses_once(parse),
        s@ == t@,
        loads(parse, s, a),
        loads(parse, t, b),
    ensures
        same_result(a, b),
{
    let x = choose|outcome: Result<(M, TableVerdicts), E>| #[trigger]
        call_ensures(parse, (s,), outcome) && accepted(outcome, a);
    let y = choose|outcome: Result<(M, TableVerdicts), E>| #[trigger]
        call_ensures(parse, (t,), outcome) && accepted(outcome, b);
    assert(x == y);
}

/// Which manifest is on disk, and which content counts, where each is asked of something that gives
/// one answer.
proof fn lemma_choice<
    M: RunManifest,
    E,
    H: FnOnce(FrozenLocation) -> Option<(String, String)>,
    P: Fn(String) -> Result<(M, TableVerdicts), E>,
>(
    cwd: Seq<char>,
    path: Seq<char>,
    working_tree: String,
    head: H,
    parse: P,
    r: Result<FrozenLoad<M>, LoadError<E>>,
    tree: M,
) -> (source: FrozenSource)
    requires
        loads_frozen(cwd, path, working_tree, head, parse, r),
        parses_once(parse),
        loads(parse, working_tree, Ok::<M, LoadError<E>>(tree)),
    ensures
        frozen::sourced(cwd, path, workspace_at(path, tree), head, source),
        chosen(path, tree, source, parse, r),
{
    let first = choose|first: Result<M, LoadError<E>>| #[trigger]
        loads(parse, working_tree, first) && match first {
            Err(e) => r == Err::<FrozenLoad<M>, LoadError<E>>(e),
            Ok(tree) => frozen_choice(cwd, path, tree, head, parse, r),
        };
    lemma_one_load(
        parse,
        working_tree,
        working_tree,
        first,
        Ok::<M, LoadError<E>>(tree),
    );
    choose|source: FrozenSource| #[trigger]
        frozen::sourced(cwd, path, workspace_at(path, tree), head, source) && chosen(
            path,
            tree,
            source,
            parse,
            r,
        )
}

/// The text that identifies a run, in the workspace of the manifest on disk, loads as the very
/// manifest that was loaded for the run.
pub proof fn identifying_text_is_the_one_loaded<
    M: RunManifest,
    E,
    H: FnOnce(FrozenLocation) -> Option<(String, String)>,
    P: Fn(String) -> Result<(M, TableVerdicts), E>,
>(
    cwd: Seq<char>,
    path: Seq<char>,
    working_tree: String,
    head: H,
    parse: P,
    r: Result<FrozenLoad<M>, LoadError<E>>,
    tree: M,
    text: String,
    again: Result<M, LoadError<E>>,
)
    requires
        parses_once(parse),
        frozen::answers_once(head),
        loads_frozen(cwd, path, working_tree, head, parse, r),
        r is Ok,
        loads(parse, working_tree, Ok::<M, LoadError<E>>(tree)),
        frozen::identifies(cwd, path, workspace_at(path, tree), working_tree@, head, text@),
        loads(parse, text, again),
    ensures
        again == Ok::<M, LoadError<E>>(r->Ok_0.manifest),
{
    let workspace = workspace_at(path, tree);
    let source = lemma_choice(cwd, path, working_tree, head, parse, r, tree);
    let other = choose|other: FrozenSource| #[trigger]
        frozen::sourced(cwd, path, workspace, head, other) && text@ == frozen::frozen_text(
            working_tree@,
            other,
        );
    frozen::one_source_counts(cwd, path, workspace, head, source, other);
    let counts = match source {
        FrozenSource::Head { text, .. } => text,
        _ => working_tree,
    };
    assert(loads(parse, counts, Ok::<M, LoadError<E>>(r->Ok_0.manifest)));
    lemma_one_load(parse, counts, text, Ok::<M, LoadError<E>>(r->Ok_0.manifest), again);
}

/// Where the base commit counts, what is on disk does not: any two texts there that load with the
/// same workspace directory come to the same, namely to what the base commit's text comes to.
pub proof fn base_commit_hides_the_working_tree<
    M: RunManifest,
    E,
    H: FnOnce(FrozenLocation) -> Option<(String, String)>,
    P: Fn(String) -> Result<(M, TableVerdicts), E>,
>(
    cwd: Seq<char>,
    path: Seq<char>,
    head: H,
    parse: P,
    working_tree: String,
    tree: M,
    r: Result<FrozenLoad<M>, LoadError<E>>,
    other_working_tree: String,
    other_tree: M,
    other: Result<FrozenLoad<M>, LoadError<E>>,
    source: FrozenSource,
)
    requires
        parses_once(parse),
        frozen::answers_once(head),
        loads(parse, working_tree, Ok::<M, LoadError<E>>(tree)),
        loads(parse, other_working_tree, Ok::<M, LoadError<E>>(other_tree)),
        tree.workspace_dir() == other_tree.workspace_dir(),
        loads_frozen(cwd, path, working_tree, head, parse, r),
        loads_frozen(cwd, path, other_working_tree, head, parse, other),
        frozen::sourced(cwd, path, workspace_at(path, tree), head, source),
        source is Head,
    ensures
        same_load(r, other),
        exists|text: String, second: Result<M, LoadError<E>>|
            source matches FrozenSource::Head { text: committed, .. } && text@ == committed@
                && #[trigger] loads(parse, text, second) && from_base(
                second,
                path,
                workspace_at(path, tree),
                source,
                r,
            ),
{
    let workspace = workspace_at(path, tree);
    let a = lemma_choice(cwd, path, working_tree, head, parse, r, tree);
    let b = lemma_choice(cwd, path, other_working_tree, head, parse, other, other_tree);
    frozen::one_source_counts(cwd, path, workspace, head, source, a);
    frozen::one_source_counts(cwd, path, workspace, head, source, b);
    let s = a->text;
    let t = b->text;
    let x = choose|second: Result<M, LoadError<E>>| #[trigger]
        loads(parse, s, second) && from_base(second, path, workspace, a, r);
    let y = choose|second: Result<M, LoadError<E>>| #[trigger]
        loads(parse, t, second) && from_base(second, path, workspace, b, other);
    lemma_one_load(parse, s, t, x, y);
    assert(loads(parse, s, x) && from_base(x, path, workspace, source, r));
}

/// Where no base commit counts, because the manifest lies outside its workspace or nothing is
/// committed yet, loading for a run is loading.
pub proof fn working_tree_stands_without_a_base_commit<
    M: RunManifest,
    E,
    H: FnOnce(FrozenLocation) -> Option<(String, String)>,
    P: Fn(String) -> Result<(M, TableVerdicts), E>,
>(
    cwd: Seq<char>,
    path: Seq<char>,
    working_tree: String,
    head: H,
    parse: P,
    r: Result<FrozenLoad<M>, LoadError<E>>,
    plain: Result<M, LoadError<E>>,
    source: FrozenSource,
)
    requires
        parses_once(parse),
        frozen::answers_once(head),
        loads_frozen(cwd, path, working_tree, head, parse, r),
        loads(parse, working_tree, plain),
        plain matches Ok(tree) ==> frozen::sourced(
            cwd,
            path,
            workspace_at(path, tree),
            head,
            source,
        ) && !(source is Head),
    ensures
        match (plain, r) {
            (Ok(tree), Ok(loaded)) => loaded.manifest == tree,
            (Err(e), Err(other)) => same_error(e, other),
            _ => false,
        },
{
    match plain {
        Ok(tree) => {
            let counts = lemma_choice(cwd, path, working_tree, head, parse, r, tree);
            frozen::one_source_counts(
                cwd,
                path,
                workspace_at(path, tree),
                head,
                source,
                counts,
            );
        },
        Err(_) => {
            let first = choose|first: Result<M, LoadError<E>>| #[trigger]
                loads(parse, working_tree, first) && match first {
                    Err(e) => r == Err::<FrozenLoad<M>, LoadError<E>>(e),
                    Ok(tree) => frozen_choice(cwd, path, tree, head, parse, r),
                };
            lemma_one_load(parse, working_tree, working_tree, first, plain);
        },
    }
}

/// Loading is parsing and then checking: a text that is not parsed fails for that, a manifest that is
/// refused fails for that, and any other is loaded as it was parsed.
pub proof fn load_is_parse_then_check<
    M: RunManifest,
    E,
    P: Fn(String) -> Result<(M, TableVerdicts), E>,
>(
    parse: P,
    text: String,
    outcome: Result<(M, TableVerdicts), E>,
    r: Result<M, LoadError<E>>,
)
    requires
        parses_once(parse),
        call_ensures(parse, (text,), outcome),
        loads(parse, text, r),
    ensures
        match outcome {
            Err(e) => r == Err::<M, LoadError<E>>(LoadError::Parse { error: e }),
            Ok((manifest, verdicts)) => match manifest.refusal(verdicts) {
                None => r == Ok::<M, LoadError<E>>(manifest),
                Some(fault) => r matches Err(LoadError::Refused { refusal }) && refusal@ == fault,
            },
        },
{
    let x = choose|outcome: Result<(M, TableVerdicts), E>| #[trigger]
        call_ensures(parse, (text,), outcome) && accepted(outcome, r);
    assert(x == outcome);
}

/// Both shapes of manifest are held to their own checks, and both name their workspace.
pub proof fn manifests_are_held_to_their_checks(
    m: Manifest,
    composite: CompositeManifest,
    verdicts: TableVerdicts,
)
    ensures
        m.refusal(verdicts) == m.fault(verdicts),
        composite.refusal(verdicts) == composite.fault(verdicts),
        m.workspace_dir() == m.workspace.dir@,
        composite.workspace_dir() == composite.workspace.dir@,
{
}

/// Where a base commit holds the manifest, its text is loaded in place of what is on disk: a failure
/// to parse it is reported as one of the base commit, a refusal as such, and the operator is told of
/// the choice.
pub proof fn base_commit_is_loaded_where_it_counts<
    M: RunManifest,
    E,
    H: FnOnce(FrozenLocation) -> Option<(String, String)>,
    P: Fn(String) -> Result<(M, TableVerdicts), E>,
>(
    cwd: Seq<char>,
    path: Seq<char>,
    working_tree: String,
    head: H,
    parse: P,
    r: Result<FrozenLoad<M>, LoadError<E>>,
    tree: M,
    source: FrozenSource,
    committed: String,
    outcome: Result<(M, TableVerdicts), E>,
)
    requires
        parses_once(parse),
        frozen::answers_once(head),
        loads_frozen(cwd, path, working_tree, head, parse, r),
        loads(parse, working_tree, Ok::<M, LoadError<E>>(tree)),
        frozen::sourced(cwd, path, workspace_at(path, tree), head, source),
        source matches FrozenSource::Head { text, .. } && committed@ == text@,
        call_ensures(parse, (committed,), outcome),
    ensures
        match outcome {
            Err(e) => r == Err::<FrozenLoad<M>, LoadError<E>>(LoadError::BaseParse { error: e }),
            Ok((manifest, verdicts)) => match manifest.refusal(verdicts) {
                None => r matches Ok(loaded) && loaded.manifest == manifest && text::text_opt(
                    loaded.notice,
                ) == frozen::notice_text(path, workspace_at(path, tree), source),
                Some(fault) => r matches Err(LoadError::Refused { refusal }) && refusal@ == fault,
            },
        },
{
    let workspace = workspace_at(path, tree);
    let a = lemma_choice(cwd, path, working_tree, head, parse, r, tree);
    frozen::one_source_counts(cwd, path, workspace, head, source, a);
    let s = a->text;
    let x = choose|second: Result<M, LoadError<E>>| #[trigger]
        loads(parse, s, second) && from_base(second, path, workspace, a, r);
    let parsed = choose|outcome: Result<(M, TableVerdicts), E>| #[trigger]
        call_ensures(parse, (s,), outcome) && accepted(outcome, x);
    assert(parsed == outcome);
}

/// The workspace lies beside the manifest, in the directory that the manifest names, unless that is
/// given from the root.
pub proof fn workspace_lies_by_the_manifest<M: RunManifest>(
    dir: Seq<Seq<char>>,
    name: Seq<char>,
    manifest: M,
)
    requires
        dir.len() > 0,
        paths::plain(dir),
        paths::plain_name(name),
    ensures
        workspace_at(paths::joined(paths::path_text(dir), name), manifest) == paths::joined(
            paths::path_text(dir),
            manifest.workspace_dir(),
        ),
        workspace_at(name, manifest) == paths::joined("."@, manifest.workspace_dir()),
        paths::rooted(manifest.workspace_dir()) ==> workspace_at(
            paths::joined(paths::path_text(dir), name),
            manifest,
        ) == manifest.workspace_dir(),
{
    paths::path_text_reads_back(dir);
    let written = paths::path_text(dir);
    assert(written.len() > 0) by {
        reveal_strlit("/");
        if written.len() == 0 {
            assert(written == Seq::<char>::empty());
            paths::lemma_empty_path();
        }
    }
    paths::directory_is_what_the_name_was_joined_to(written, name);
}

} // verus!
