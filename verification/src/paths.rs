use vstd::prelude::*;

use crate::text;

verus! {

/// Whether a path starts at the root.
pub open spec fn rooted(path: Seq<char>) -> bool {
    path.len() > 0 && path[0] == '/'
}

/// Whether a path starts at the root.
pub fn is_absolute(path: &str) -> (r: bool)
    ensures
        r == rooted(path@),
{
    path.unicode_len() > 0 && path.get_char(0) == '/'
}

/// `rel` under `base`: `rel` itself where it starts at the root, else the two with a slash between
/// them where `base` is not empty and does not end in one.
pub open spec fn joined(base: Seq<char>, rel: Seq<char>) -> Seq<char> {
    if rooted(rel) {
        rel
    } else if base.len() == 0 || base.last() == '/' {
        base + rel
    } else {
        base + "/"@ + rel
    }
}

/// `rel` under `base`.
pub fn join_path(base: &str, rel: &str) -> (r: String)
    ensures
        r@ == joined(base@, rel@),
{
    if is_absolute(rel) {
        return rel.to_owned();
    }
    let len: usize = base.unicode_len();
    if len == 0 || base.get_char(len - 1) == '/' {
        text::concat2(base, rel)
    } else {
        text::concat3(base, "/", rel)
    }
}

/// The pieces that name something: neither empty nor a single dot.
pub open spec fn named(pieces: Seq<Seq<char>>) -> Seq<Seq<char>>
    decreases pieces.len(),
{
    if pieces.len() == 0 {
        Seq::empty()
    } else {
        let before = named(pieces.drop_last());
        if pieces.last().len() == 0 || pieces.last() == "."@ {
            before
        } else {
            before.push(pieces.last())
        }
    }
}

/// The components of a path. The root is the component `/`; of the single dots only one at the
/// start of a relative path is a component.
pub open spec fn components(path: Seq<char>) -> Seq<Seq<char>> {
    let pieces = text::split(path, '/');
    let start = if rooted(path) {
        seq!["/"@]
    } else if pieces[0] == "."@ {
        seq!["."@]
    } else {
        Seq::empty()
    };
    start + named(pieces)
}

/// A path of the given components.
pub open spec fn path_text(parts: Seq<Seq<char>>) -> Seq<char> {
    if parts.len() > 0 && parts[0] == "/"@ {
        "/"@ + text::join(parts.drop_first(), "/"@)
    } else {
        text::join(parts, "/"@)
    }
}

/// The components with each `.` left out and each `..` taken together with the component before
/// it. Above the root, and above the start of a relative path, `..` leads nowhere.
pub open spec fn collapsed(parts: Seq<Seq<char>>) -> Seq<Seq<char>>
    decreases parts.len(),
{
    if parts.len() == 0 {
        Seq::empty()
    } else {
        let before = collapsed(parts.drop_last());
        if parts.last() == "."@ {
            before
        } else if parts.last() == ".."@ {
            if before.len() > 0 && before.last() != "/"@ {
                before.drop_last()
            } else {
                before
            }
        } else {
            before.push(parts.last())
        }
    }
}

/// Where a path leads from the directory `cwd`, as components.
pub open spec fn resolved(cwd: Seq<char>, path: Seq<char>) -> Seq<Seq<char>> {
    collapsed(components(joined(cwd, path)))
}

/// The components of a path, in order.
pub fn components_of(path: &str) -> (r: Vec<String>)
    ensures
        text::texts(r@) == components(path@),
{
    let pieces = text::split_on(path, '/');
    let ghost all = text::texts(pieces@);
    proof {
        text::split_then_join(path@, '/');
        assert(all[0] == pieces@[0]@);
    }
    let mut out: Vec<String> = Vec::new();
    if is_absolute(path) {
        out.push("/".to_owned());
    } else if text::same_text(pieces[0].as_str(), ".") {
        out.push(".".to_owned());
    }
    let ghost start = text::texts(out@);
    assert(start =~= if rooted(path@) {
        seq!["/"@]
    } else if all[0] == "."@ {
        seq!["."@]
    } else {
        Seq::empty()
    });
    assert(start + named(all.take(0)) =~= start);
    let mut i: usize = 0;
    while i < pieces.len()
        invariant
            i <= pieces@.len(),
            all == text::texts(pieces@),
            text::texts(out@) == start + named(all.take(i as int)),
        decreases pieces@.len() - i,
    {
        assert(all.take(i + 1).drop_last() == all.take(i as int));
        assert(all.take(i + 1).last() == pieces@[i as int]@);
        let ghost before = text::texts(out@);
        if pieces[i].as_str().unicode_len() > 0 && !text::same_text(pieces[i].as_str(), ".") {
            out.push(pieces[i].clone());
            assert(text::texts(out@) =~= before.push(all[i as int]));
            assert(start + named(all.take(i as int)).push(all[i as int]) =~= before.push(
                all[i as int],
            ));
        }
        i = i + 1;
    }
    assert(all.take(i as int) == all);
    out
}

/// Leaves out each `.` and takes each `..` together with the component before it.
pub fn collapse(parts: &Vec<String>) -> (r: Vec<String>)
    ensures
        text::texts(r@) == collapsed(text::texts(parts@)),
{
    let ghost all = text::texts(parts@);
    let mut out: Vec<String> = Vec::new();
    let mut i: usize = 0;
    assert(text::texts(out@) =~= collapsed(all.take(0)));
    while i < parts.len()
        invariant
            i <= parts@.len(),
            all == text::texts(parts@),
            text::texts(out@) == collapsed(all.take(i as int)),
        decreases parts@.len() - i,
    {
        assert(all.take(i + 1).drop_last() == all.take(i as int));
        assert(all.take(i + 1).last() == parts@[i as int]@);
        let ghost before = text::texts(out@);
        if text::same_text(parts[i].as_str(), ".") {
        } else if text::same_text(parts[i].as_str(), "..") {
            let n: usize = out.len();
            if n > 0 {
                assert(before.last() == out@[n - 1]@);
                if !text::same_text(out[n - 1].as_str(), "/") {
                    out.pop();
                    assert(text::texts(out@) =~= before.drop_last());
                }
            }
        } else {
            out.push(parts[i].clone());
            assert(text::texts(out@) =~= before.push(all[i as int]));
        }
        i = i + 1;
    }
    assert(all.take(i as int) == all);
    out
}

/// The path of the given components.
pub fn path_of(parts: &Vec<String>) -> (r: String)
    ensures
        r@ == path_text(text::texts(parts@)),
{
    let ghost all = text::texts(parts@);
    if parts.len() > 0 && text::same_text(parts[0].as_str(), "/") {
        assert(all[0] == parts@[0]@);
        let mut rest: Vec<String> = Vec::new();
        let mut i: usize = 1;
        while i < parts.len()
            invariant
                1 <= i <= parts@.len(),
                rest@.len() == i - 1,
                forall|j: int| 0 <= j < i - 1 ==> (#[trigger] rest@[j])@ == parts@[j + 1]@,
            decreases parts@.len() - i,
        {
            rest.push(parts[i].clone());
            i = i + 1;
        }
        assert(text::texts(rest@) =~= all.drop_first());
        text::concat2("/", text::join_with(&rest, "/").as_str())
    } else {
        proof {
            if parts@.len() > 0 {
                assert(all[0] == parts@[0]@);
            }
        }
        text::join_with(parts, "/")
    }
}

/// Where a path leads from `cwd`, with no `.` or `..` left in it. Nothing on disk is consulted:
/// the path need not exist.
pub fn absolute(cwd: &str, path: &str) -> (r: Vec<String>)
    ensures
        text::texts(r@) == resolved(cwd@, path@),
{
    let whole = join_path(cwd, path);
    collapse(&components_of(whole.as_str()))
}

/// The directory of a path: all components but the last, if the last is one that can be taken
/// away.
pub open spec fn parent_of(path: Seq<char>) -> Option<Seq<char>> {
    let parts = components(path);
    if parts.len() == 0 || parts.last() == "/"@ {
        None
    } else {
        Some(path_text(parts.drop_last()))
    }
}

/// The directory of a path. The root and the empty path have none; a bare name has the empty path.
pub fn parent(path: &str) -> (r: Option<String>)
    ensures
        text::text_opt(r) == parent_of(path@),
{
    let mut parts = components_of(path);
    let n: usize = parts.len();
    if n == 0 {
        return None;
    }
    let ghost all = text::texts(parts@);
    assert(all.last() == parts@[n - 1]@);
    if text::same_text(parts[n - 1].as_str(), "/") {
        return None;
    }
    parts.pop();
    assert(text::texts(parts@) =~= all.drop_last());
    Some(path_of(&parts))
}

/// The directory of a manifest; the current one where the path is a bare name.
pub open spec fn directory_of(path: Seq<char>) -> Seq<char> {
    match parent_of(path) {
        Some(dir) if dir.len() > 0 => dir,
        _ => "."@,
    }
}

/// The directory of a manifest.
pub fn manifest_dir(path: &str) -> (r: String)
    ensures
        r@ == directory_of(path@),
{
    match parent(path) {
        Some(dir) => if dir.as_str().unicode_len() > 0 {
            dir
        } else {
            ".".to_owned()
        },
        None => ".".to_owned(),
    }
}

/// Components that a resolved path can have: names other than `.` and `..`, behind the root where
/// there is one.
pub open spec fn plain(parts: Seq<Seq<char>>) -> bool {
    forall|i: int| 0 <= i < parts.len() ==> plain_at(parts, i)
}

pub open spec fn plain_at(parts: Seq<Seq<char>>, i: int) -> bool {
    ||| i == 0 && parts[i] == "/"@
    ||| parts[i].len() > 0 && !parts[i].contains('/') && parts[i] != "."@ && parts[i] != ".."@
}

/// Components of a path as it is written: names, with the root or a dot only at the start.
spec fn written_at(parts: Seq<Seq<char>>, i: int) -> bool {
    ||| i == 0 && (parts[i] == "/"@ || parts[i] == "."@)
    ||| parts[i].len() > 0 && !parts[i].contains('/') && parts[i] != "."@
}

proof fn lemma_named(pieces: Seq<Seq<char>>, k: int)
    requires
        forall|i: int| 0 <= i < pieces.len() ==> !(#[trigger] pieces[i]).contains('/'),
        0 <= k < named(pieces).len(),
    ensures
        named(pieces)[k].len() > 0,
        !named(pieces)[k].contains('/'),
        named(pieces)[k] != "."@,
    decreases pieces.len(),
{
    let init = pieces.drop_last();
    assert forall|i: int| 0 <= i < init.len() implies !(#[trigger] init[i]).contains('/') by {
        assert(init[i] == pieces[i]);
    }
    if k < named(init).len() {
        lemma_named(init, k);
    } else {
        assert(!pieces[pieces.len() - 1].contains('/'));
    }
}

proof fn lemma_components_written(path: Seq<char>, k: int)
    requires
        0 <= k < components(path).len(),
    ensures
        written_at(components(path), k),
{
    let pieces = text::split(path, '/');
    text::split_then_join(path, '/');
    let n = components(path).len() - named(pieces).len();
    if k >= n {
        lemma_named(pieces, k - n);
    }
}

proof fn lemma_collapsed_plain(parts: Seq<Seq<char>>)
    requires
        forall|i: int| 0 <= i < parts.len() ==> #[trigger] written_at(parts, i),
    ensures
        plain(collapsed(parts)),
        collapsed(parts).len() <= parts.len(),
        parts.len() > 0 && parts[0] == "/"@ ==> collapsed(parts).len() > 0 && collapsed(parts)[0]
            == "/"@,
    decreases parts.len(),
{
    reveal_strlit("/");
    reveal_strlit(".");
    reveal_strlit("..");
    if parts.len() > 0 {
        let init = parts.drop_last();
        let last = parts.last();
        assert forall|i: int| 0 <= i < init.len() implies #[trigger] written_at(init, i) by {
            assert(written_at(parts, i));
        }
        lemma_collapsed_plain(init);
        assert(written_at(parts, parts.len() - 1));
        let before = collapsed(init);
        let after = collapsed(parts);
        assert forall|i: int| 0 <= i < after.len() implies plain_at(after, i) by {
            if i < before.len() {
                assert(plain_at(before, i));
                assert(after[i] == before[i]);
            }
        }
        if parts[0] == "/"@ {
            if init.len() > 0 {
                assert(init[0] == "/"@);
            } else {
                assert("/"@[0] == '/' && "."@[0] == '.' && ".."@[0] == '.');
                assert(after =~= seq!["/"@]);
            }
        }
    }
}

/// A resolved path has no `.` and no `..` component.
pub proof fn resolved_path_is_plain(cwd: Seq<char>, path: Seq<char>)
    ensures
        plain(resolved(cwd, path)),
        rooted(joined(cwd, path)) ==> resolved(cwd, path).len() > 0 && resolved(cwd, path)[0]
            == "/"@,
{
    let whole = joined(cwd, path);
    let parts = components(whole);
    assert forall|i: int| 0 <= i < parts.len() implies #[trigger] written_at(parts, i) by {
        lemma_components_written(whole, i);
    }
    lemma_collapsed_plain(parts);
}

/// Pieces that all name something are kept.
proof fn lemma_all_named(pieces: Seq<Seq<char>>)
    requires
        forall|i: int| 0 <= i < pieces.len() ==> (#[trigger] pieces[i]).len() > 0 && pieces[i] != "."@,
    ensures
        named(pieces) == pieces,
    decreases pieces.len(),
{
    if pieces.len() > 0 {
        let init = pieces.drop_last();
        assert forall|i: int| 0 <= i < init.len() implies (#[trigger] init[i]).len() > 0 && init[i]
            != "."@ by {
            assert(init[i] == pieces[i]);
        }
        lemma_all_named(init);
        assert(pieces[pieces.len() - 1].len() > 0);
        assert(init.push(pieces.last()) == pieces);
    }
}

/// An empty first piece is left out.
proof fn lemma_named_skips_empty(pieces: Seq<Seq<char>>)
    ensures
        named(seq![Seq::<char>::empty()] + pieces) == named(pieces),
    decreases pieces.len(),
{
    let whole = seq![Seq::<char>::empty()] + pieces;
    if pieces.len() == 0 {
        assert(whole.drop_last() == Seq::<Seq<char>>::empty());
        assert(named(whole.drop_last()) == Seq::<Seq<char>>::empty());
        assert(whole.last().len() == 0);
    } else {
        lemma_named_skips_empty(pieces.drop_last());
        assert(whole.last() == pieces.last());
        assert(whole.drop_last() == seq![Seq::<char>::empty()] + pieces.drop_last());
    }
}

/// A relative path of plain components is read back as those components.
proof fn lemma_relative_reads_back(parts: Seq<Seq<char>>)
    requires
        plain(parts),
        parts.len() > 0,
        parts[0] != "/"@,
    ensures
        components(path_text(parts)) == parts,
        text::split(path_text(parts), '/') == parts,
        path_text(parts).len() > 0,
        path_text(parts)[0] != '/',
{
    reveal_strlit("/");
    assert("/"@ == seq!['/']);
    assert forall|i: int| 0 <= i < parts.len() implies (#[trigger] parts[i]).len() > 0 && parts[i]
        != "."@ && !parts[i].contains('/') by {
        assert(plain_at(parts, i));
    }
    text::join_then_split(parts, '/');
    lemma_all_named(parts);
    lemma_join_starts_with_first(parts);
    let path = path_text(parts);
    assert(path[0] == parts[0][0]);
    assert(parts[0].contains(parts[0][0]));
    assert(Seq::<Seq<char>>::empty() + parts == parts);
}

proof fn lemma_join_starts_with_first(parts: Seq<Seq<char>>)
    requires
        parts.len() > 0,
        parts[0].len() > 0,
    ensures
        text::join(parts, "/"@).len() > 0,
        text::join(parts, "/"@)[0] == parts[0][0],
    decreases parts.len(),
{
    if parts.len() > 1 {
        lemma_join_starts_with_first(parts.drop_last());
    }
}

/// A path written from plain components is read back as those components.
pub proof fn path_text_reads_back(parts: Seq<Seq<char>>)
    requires
        plain(parts),
    ensures
        components(path_text(parts)) == parts,
{
    reveal_strlit("/");
    reveal_strlit(".");
    let path = path_text(parts);
    if parts.len() == 0 {
        assert(path == Seq::<char>::empty());
        assert(text::split(path, '/') == seq![Seq::<char>::empty()]);
        lemma_named_skips_empty(parts);
        assert(seq![Seq::<char>::empty()] + parts == seq![Seq::<char>::empty()]);
        assert(components(path) =~= parts);
    } else if parts[0] != "/"@ {
        lemma_relative_reads_back(parts);
    } else {
        let rest = parts.drop_first();
        assert(plain(rest) && (rest.len() > 0 ==> rest[0] != "/"@)) by {
            assert forall|i: int| 0 <= i < rest.len() implies plain_at(rest, i) && rest[i] != "/"@ by {
                assert(plain_at(parts, i + 1));
                assert(rest[i] == parts[i + 1]);
                assert("/"@[0] == '/');
            }
        }
        assert("/"@ == seq!['/']);
        if rest.len() == 0 {
            assert(path == Seq::<char>::empty() + seq!['/'] + Seq::<char>::empty());
            assert(path.drop_last() == Seq::<char>::empty());
            let e = Seq::<char>::empty();
            assert(text::split(path.drop_last(), '/') == seq![e]);
            assert(path.last() == '/');
            assert(text::split(path, '/') == seq![e] + seq![e]);
            lemma_named_skips_empty(seq![e]);
            lemma_named_skips_empty(rest);
            assert(seq![e] + rest == seq![e]);
            assert(components(path) =~= parts);
        } else {
            lemma_relative_reads_back(rest);
            let e = Seq::<char>::empty();
            let pieces = seq![e] + rest;
            assert forall|i: int| 0 <= i < pieces.len() implies !(#[trigger] pieces[i]).contains(
                '/',
            ) by {
                if i > 0 {
                    assert(plain_at(rest, i - 1));
                    assert(pieces[i] == rest[i - 1]);
                }
            }
            text::join_then_split(pieces, '/');
            lemma_join_behind_empty(rest);
            assert(text::join(pieces, "/"@) == path);
            lemma_named_skips_empty(rest);
            assert forall|i: int| 0 <= i < rest.len() implies (#[trigger] rest[i]).len() > 0
                && rest[i] != "."@ by {
                assert(plain_at(rest, i));
            }
            lemma_all_named(rest);
            assert(seq!["/"@] + rest == parts);
        }
    }
}

proof fn lemma_join_behind_empty(parts: Seq<Seq<char>>)
    requires
        parts.len() > 0,
    ensures
        text::join(seq![Seq::<char>::empty()] + parts, "/"@) == "/"@ + text::join(parts, "/"@),
    decreases parts.len(),
{
    let e = Seq::<char>::empty();
    let whole = seq![e] + parts;
    let init = parts.drop_last();
    assert(whole.drop_last() == seq![e] + init);
    assert(whole.last() == parts.last());
    if parts.len() == 1 {
        assert(seq![e] + init == seq![e]);
        assert(text::join(seq![e], "/"@) == e);
        assert(e + "/"@ + parts[0] == "/"@ + parts[0]);
    } else {
        lemma_join_behind_empty(init);
        let head = text::join(init, "/"@);
        assert("/"@ + head + "/"@ + parts.last() == "/"@ + (head + "/"@ + parts.last()));
    }
}

proof fn lemma_collapse_keeps_plain(parts: Seq<Seq<char>>)
    requires
        plain(parts),
    ensures
        collapsed(parts) == parts,
    decreases parts.len(),
{
    reveal_strlit("/");
    reveal_strlit(".");
    reveal_strlit("..");
    if parts.len() > 0 {
        let init = parts.drop_last();
        assert forall|i: int| 0 <= i < init.len() implies plain_at(init, i) by {
            assert(plain_at(parts, i));
            assert(init[i] == parts[i]);
        }
        lemma_collapse_keeps_plain(init);
        assert(plain_at(parts, parts.len() - 1));
        assert(parts.last() != "."@ && parts.last() != ".."@) by {
            assert("/"@[0] == '/');
            assert("."@[0] == '.');
            assert(".."@.len() == 2);
        }
        assert(init.push(parts.last()) == parts);
    }
}

/// Resolving a resolved path changes nothing, whatever the current directory, where it starts at
/// the root.
pub proof fn resolving_twice_is_resolving_once(cwd: Seq<char>, path: Seq<char>, elsewhere: Seq<char>)
    requires
        rooted(joined(cwd, path)),
    ensures
        resolved(elsewhere, path_text(resolved(cwd, path))) == resolved(cwd, path),
{
    let parts = resolved(cwd, path);
    resolved_path_is_plain(cwd, path);
    path_text_reads_back(parts);
    reveal_strlit("/");
    assert(rooted(path_text(parts)));
    lemma_collapse_keeps_plain(parts);
}

proof fn lemma_named_concat(a: Seq<Seq<char>>, b: Seq<Seq<char>>)
    ensures
        named(a + b) == named(a) + named(b),
    decreases b.len(),
{
    if b.len() == 0 {
        assert(a + b == a);
        assert(named(a) + named(b) == named(a));
    } else {
        let init = b.drop_last();
        lemma_named_concat(a, init);
        assert((a + b).drop_last() == a + init);
        assert((a + b).last() == b.last());
        assert(named(a) + named(init).push(b.last()) == (named(a) + named(init)).push(b.last()));
    }
}

/// The components of a path under a directory are those of the directory, then the names of the
/// path.
proof fn lemma_components_of_joined(base: Seq<char>, rel: Seq<char>)
    requires
        base.len() > 0,
        !rooted(rel),
    ensures
        components(joined(base, rel)) == components(base) + named(text::split(rel, '/')),
{
    reveal_strlit("/");
    assert("/"@ == seq!['/']);
    let whole = joined(base, rel);
    let stem = if base.last() == '/' {
        base.drop_last()
    } else {
        base
    };
    let e = Seq::<char>::empty();
    if base.last() == '/' {
        assert(base == stem + seq!['/'] + e);
        text::lemma_split_at(stem, e, '/');
        assert(text::split(e, '/') == seq![e]);
        lemma_named_concat(text::split(stem, '/'), seq![e]);
        lemma_named_skips_empty(Seq::empty());
        assert(seq![e] + Seq::<Seq<char>>::empty() == seq![e]);
        assert(named(text::split(base, '/')) == named(text::split(stem, '/')));
    }
    assert(whole == stem + seq!['/'] + rel);
    text::lemma_split_at(stem, rel, '/');
    text::split_then_join(stem, '/');
    lemma_named_concat(text::split(stem, '/'), text::split(rel, '/'));
    assert(whole[0] == base[0]);
    assert(text::split(whole, '/')[0] == text::split(stem, '/')[0]);
    assert(text::split(base, '/')[0] == text::split(stem, '/')[0]);
    let start = if rooted(base) {
        seq!["/"@]
    } else if text::split(base, '/')[0] == "."@ {
        seq!["."@]
    } else {
        Seq::empty()
    };
    assert(start + (named(text::split(stem, '/')) + named(text::split(rel, '/'))) == start + named(
        text::split(stem, '/'),
    ) + named(text::split(rel, '/')));
}

/// Joining twice is joining once, from either end.
proof fn lemma_joined_associative(a: Seq<char>, b: Seq<char>, c: Seq<char>)
    requires
        !rooted(c),
    ensures
        joined(a, joined(b, c)) == joined(joined(a, b), c),
{
    reveal_strlit("/");
    assert("/"@ == seq!['/']);
    if rooted(b) {
    } else if b.len() == 0 {
        assert(joined(b, c) == c);
    } else {
        assert(joined(b, c)[0] == b[0]);
        assert(joined(a, b).last() == b.last());
    }
    assert(joined(a, joined(b, c)) =~= joined(joined(a, b), c));
}

proof fn lemma_collapse_behind(parts: Seq<Seq<char>>, more: Seq<Seq<char>>)
    requires
        forall|i: int| 0 <= i < more.len() ==> (#[trigger] more[i]) != "."@ && more[i] != ".."@,
    ensures
        collapsed(parts + more) == collapsed(parts) + more,
    decreases more.len(),
{
    if more.len() == 0 {
        assert(parts + more == parts);
        assert(collapsed(parts) + more == collapsed(parts));
    } else {
        let init = more.drop_last();
        assert forall|i: int| 0 <= i < init.len() implies (#[trigger] init[i]) != "."@ && init[i]
            != ".."@ by {
            assert(init[i] == more[i]);
        }
        lemma_collapse_behind(parts, init);
        assert((parts + more).drop_last() == parts + init);
        assert((parts + more).last() == more[more.len() - 1]);
        assert((collapsed(parts) + init).push(more.last()) == collapsed(parts) + more);
    }
}

/// The pieces of a path that name something are pieces of it.
proof fn lemma_named_are_pieces(pieces: Seq<Seq<char>>, k: int)
    requires
        0 <= k < named(pieces).len(),
    ensures
        exists|i: int| 0 <= i < pieces.len() && #[trigger] pieces[i] == named(pieces)[k],
    decreases pieces.len(),
{
    let init = pieces.drop_last();
    if k < named(init).len() {
        lemma_named_are_pieces(init, k);
        let i = choose|i: int| 0 <= i < init.len() && #[trigger] init[i] == named(init)[k];
        assert(pieces[i] == named(pieces)[k]);
    } else {
        assert(pieces[pieces.len() - 1] == named(pieces)[k]);
    }
}

/// A relative path without a `.` or `..` component leads below the directory it is joined to: the
/// directory's components come first and the names of the path follow.
pub proof fn undotted_path_leads_below(cwd: Seq<char>, dir: Seq<char>, rel: Seq<char>)
    requires
        !rooted(rel),
        forall|i: int|
            0 <= i < text::split(rel, '/').len() ==> (#[trigger] text::split(rel, '/')[i]) != "."@
                && text::split(rel, '/')[i] != ".."@,
    ensures
        resolved(cwd, joined(dir, rel)) == resolved(cwd, dir) + named(text::split(rel, '/')),
{
    let base = joined(cwd, dir);
    let pieces = text::split(rel, '/');
    lemma_joined_associative(cwd, dir, rel);
    text::split_then_join(rel, '/');
    if base.len() > 0 {
        lemma_components_of_joined(base, rel);
    } else {
        reveal_strlit(".");
        assert(joined(base, rel) =~= rel);
        let e = Seq::<char>::empty();
        assert(base == e);
        assert(text::split(base, '/') == seq![e]);
        lemma_named_skips_empty(Seq::empty());
        assert(seq![e] + Seq::<Seq<char>>::empty() == seq![e]);
        assert(components(base) =~= Seq::empty());
        assert(pieces[0] != "."@);
        assert(components(rel) =~= named(pieces));
        assert(Seq::<Seq<char>>::empty() + named(pieces) == named(pieces));
    }
    assert forall|k: int| 0 <= k < named(pieces).len() implies (#[trigger] named(pieces)[k]) != "."@
        && named(pieces)[k] != ".."@ by {
        lemma_named_are_pieces(pieces, k);
        let i = choose|i: int| 0 <= i < pieces.len() && #[trigger] pieces[i] == named(pieces)[k];
        assert(pieces[i] != "."@ && pieces[i] != ".."@);
    }
    lemma_collapse_behind(components(base), named(pieces));
}

/// A relative path that is not empty and starts with no dot names something.
pub proof fn lemma_first_piece_is_named(rel: Seq<char>)
    requires
        rel.len() > 0,
        !rooted(rel),
        text::split(rel, '/')[0] != "."@,
    ensures
        named(text::split(rel, '/')).len() > 0,
{
    let pieces = text::split(rel, '/');
    text::split_then_join(rel, '/');
    reveal_strlit("/");
    assert("/"@ == seq!['/']);
    let first = pieces[0];
    if first.len() == 0 {
        assert(first == Seq::<char>::empty());
        if pieces.len() > 1 {
            lemma_join_behind_empty(pieces.drop_first());
            assert(pieces == seq![Seq::<char>::empty()] + pieces.drop_first());
            assert(rel[0] == '/');
        }
        assert(false);
    }
    lemma_named_concat(seq![first], pieces.drop_first());
    assert(pieces == seq![first] + pieces.drop_first());
    assert(seq![first].drop_last() == Seq::<Seq<char>>::empty());
    assert(named(seq![first]).len() == 1) by {
        assert(named(Seq::<Seq<char>>::empty()).len() == 0);
        assert(seq![first].last() == first);
    }
}

/// A bare name: no separator in it, and neither empty nor a dot or two.
pub open spec fn plain_name(name: Seq<char>) -> bool {
    name.len() > 0 && !name.contains('/') && name != "."@ && name != ".."@
}

/// Whether all of them are bare names.
pub open spec fn plain_names(names: Seq<Seq<char>>) -> bool {
    forall|i: int| 0 <= i < names.len() ==> plain_name(#[trigger] names[i])
}

/// Bare names with slashes between them are a relative path, and splitting it gives them back.
pub proof fn lemma_plain_names(names: Seq<Seq<char>>)
    requires
        names.len() > 0,
        plain_names(names),
    ensures
        !rooted(text::join(names, "/"@)),
        text::join(names, "/"@).len() > 0,
        text::split(text::join(names, "/"@), '/') == names,
        named(names) == names,
        path_text(names) == text::join(names, "/"@),
{
    reveal_strlit("/");
    assert("/"@ == seq!['/']);
    text::join_then_split(names, '/');
    lemma_join_starts_with_first(names);
    assert(plain_name(names[0]));
    if names[0][0] == '/' {
        assert(names[0].contains('/'));
    }
    lemma_all_named(names);
    assert(names[0] != "/"@);
}

/// What a single dot in front adds is dropped again.
proof fn lemma_collapse_drops_dot(parts: Seq<Seq<char>>)
    ensures
        collapsed(seq!["."@] + parts) == collapsed(parts),
    decreases parts.len(),
{
    let whole = seq!["."@] + parts;
    if parts.len() == 0 {
        assert(whole.last() == "."@);
        assert(whole.drop_last() == Seq::<Seq<char>>::empty());
        assert(collapsed(whole.drop_last()) == Seq::<Seq<char>>::empty());
    } else {
        lemma_collapse_drops_dot(parts.drop_last());
        assert(whole.drop_last() == seq!["."@] + parts.drop_last());
        assert(whole.last() == parts.last());
    }
}

/// Where a relative path behind a directory leads: the components of the two, in order, with the
/// dots taken out.
proof fn lemma_resolved_joined(cwd: Seq<char>, dir: Seq<char>, rel: Seq<char>)
    requires
        !rooted(rel),
    ensures
        resolved(cwd, joined(dir, rel)) == collapsed(
            components(joined(cwd, dir)) + named(text::split(rel, '/')),
        ),
{
    let base = joined(cwd, dir);
    let pieces = text::split(rel, '/');
    lemma_joined_associative(cwd, dir, rel);
    if base.len() > 0 {
        lemma_components_of_joined(base, rel);
    } else {
        let e = Seq::<char>::empty();
        assert(joined(base, rel) =~= rel);
        assert(base == e);
        assert(text::split(base, '/') == seq![e]);
        reveal_strlit(".");
        lemma_named_skips_empty(Seq::empty());
        assert(seq![e] + Seq::<Seq<char>>::empty() == seq![e]);
        assert(components(base) =~= Seq::empty());
        assert(Seq::<Seq<char>>::empty() + named(pieces) == named(pieces));
        if pieces[0] == "."@ {
            lemma_collapse_drops_dot(named(pieces));
        }
    }
}

/// A path of bare names, however many, leads that many steps below the directory it is joined to.
pub proof fn names_lead_below(cwd: Seq<char>, dir: Seq<char>, names: Seq<Seq<char>>)
    requires
        names.len() > 0,
        plain_names(names),
    ensures
        resolved(cwd, joined(dir, text::join(names, "/"@))) == resolved(cwd, dir) + names,
{
    lemma_plain_names(names);
    lemma_resolved_joined(cwd, dir, text::join(names, "/"@));
    assert forall|i: int| 0 <= i < names.len() implies (#[trigger] names[i]) != "."@ && names[i]
        != ".."@ by {
        assert(plain_name(names[i]));
    }
    lemma_collapse_behind(components(joined(cwd, dir)), names);
}

/// A bare name leads one step below the directory it is joined to.
pub proof fn name_leads_one_step_below(cwd: Seq<char>, dir: Seq<char>, name: Seq<char>)
    requires
        plain_name(name),
    ensures
        resolved(cwd, joined(dir, name)) == resolved(cwd, dir).push(name),
{
    names_lead_below(cwd, dir, seq![name]);
    assert(text::join(seq![name], "/"@) == name);
    assert(resolved(cwd, dir) + seq![name] == resolved(cwd, dir).push(name));
}

/// The components of a single dot and of two.
proof fn lemma_dots()
    ensures
        !rooted("."@),
        !rooted(".."@),
        named(text::split("."@, '/')) == Seq::<Seq<char>>::empty(),
        named(text::split(".."@, '/')) == seq![".."@],
{
    reveal_strlit(".");
    reveal_strlit("..");
    text::join_then_split(seq!["."@], '/');
    assert(text::join(seq!["."@], seq!['/']) == "."@);
    text::join_then_split(seq![".."@], '/');
    assert(text::join(seq![".."@], seq!['/']) == ".."@);
    assert(seq!["."@].drop_last() == Seq::<Seq<char>>::empty());
    assert(seq!["."@].last() == "."@);
    assert(named(Seq::<Seq<char>>::empty()) == Seq::<Seq<char>>::empty());
    assert("."@ != ".."@) by {
        assert("."@.len() != ".."@.len());
    }
    assert forall|i: int| 0 <= i < 1 implies (#[trigger] seq![".."@][i]).len() > 0 && seq![".."@][i]
        != "."@ by {}
    lemma_all_named(seq![".."@]);
}

/// A dot leads nowhere: the directory joined with it is the directory.
pub proof fn dot_stays(cwd: Seq<char>, dir: Seq<char>)
    ensures
        resolved(cwd, joined(dir, "."@)) == resolved(cwd, dir),
{
    lemma_dots();
    lemma_resolved_joined(cwd, dir, "."@);
    assert(components(joined(cwd, dir)) + Seq::<Seq<char>>::empty() == components(joined(cwd, dir)));
}

/// Two dots lead back to where the last step came from: down into a name and up again is the
/// directory itself. Above the root there is nothing.
pub proof fn up_undoes_down(cwd: Seq<char>, dir: Seq<char>, name: Seq<char>)
    requires
        plain_name(name),
    ensures
        resolved(cwd, joined(joined(dir, name), ".."@)) == resolved(cwd, dir),
        resolved(cwd, "/.."@) == resolved(cwd, "/"@),
{
    lemma_dots();
    let below = joined(dir, name);
    let parts = components(joined(cwd, below));
    lemma_resolved_joined(cwd, below, ".."@);
    name_leads_one_step_below(cwd, dir, name);
    let whole = parts + seq![".."@];
    reveal_strlit("/");
    reveal_strlit(".");
    reveal_strlit("..");
    reveal_strlit("/..");
    assert(whole.drop_last() == parts);
    assert(whole.last() == ".."@);
    assert(collapsed(parts).last() == name);
    if name == "/"@ {
        assert(name.contains(name[0]));
    }
    assert(collapsed(parts).drop_last() == resolved(cwd, dir));
    assert(joined("/"@, ".."@) == "/.."@);
    lemma_resolved_joined(cwd, "/"@, ".."@);
    let root = components("/"@);
    let above = root + seq![".."@];
    assert(above.drop_last() == root);
    assert(above.last() == ".."@);
    resolved_path_is_plain(cwd, "/"@);
    let r = resolved(cwd, "/"@);
    assert(r == collapsed(root));
    assert(r.len() > 0);
    lemma_root();
}

/// The root is its own only component.
proof fn lemma_root()
    ensures
        components("/"@) == seq!["/"@],
        collapsed(seq!["/"@]) == seq!["/"@],
{
    reveal_strlit("/");
    reveal_strlit(".");
    reveal_strlit("..");
    assert("/"@ == seq!['/']);
    let parts = seq!["/"@];
    assert forall|i: int| 0 <= i < parts.len() implies plain_at(parts, i) by {}
    path_text_reads_back(parts);
    lemma_collapse_keeps_plain(parts);
    assert(parts.drop_first() == Seq::<Seq<char>>::empty());
    assert("/"@ + Seq::<char>::empty() == "/"@);
}

/// A path from the root leads to the same place from every directory.
pub proof fn rooted_path_needs_no_directory(cwd: Seq<char>, elsewhere: Seq<char>, path: Seq<char>)
    requires
        rooted(path),
    ensures
        joined(cwd, path) == path,
        resolved(cwd, path) == resolved(elsewhere, path),
        resolved(cwd, path).len() > 0,
        resolved(cwd, path)[0] == "/"@,
{
    resolved_path_is_plain(cwd, path);
}

/// Slashes in a row count as one, and so does a slash with a single dot between.
pub proof fn empty_steps_do_not_count(before: Seq<char>, after: Seq<char>)
    requires
        before.len() > 0,
    ensures
        components(before + "//"@ + after) == components(before + "/"@ + after),
        components(before + "/./"@ + after) == components(before + "/"@ + after),
{
    reveal_strlit("/");
    reveal_strlit("//");
    reveal_strlit("/./");
    reveal_strlit(".");
    let e = Seq::<char>::empty();
    let a = text::split(before, '/');
    let b = text::split(after, '/');
    let one = before + "/"@ + after;
    let two = before + "//"@ + after;
    let dot = before + "/./"@ + after;
    assert("/"@ == seq!['/']);
    text::lemma_split_at(before, after, '/');
    text::lemma_split_at(e, after, '/');
    assert(two == before + seq!['/'] + (e + seq!['/'] + after));
    text::lemma_split_at(before, e + seq!['/'] + after, '/');
    assert(text::split(e, '/') == seq![e]);
    text::lemma_split_at("."@, after, '/');
    assert(dot == before + seq!['/'] + ("."@ + seq!['/'] + after));
    text::lemma_split_at(before, "."@ + seq!['/'] + after, '/');
    text::join_then_split(seq!["."@], '/');
    assert(text::join(seq!["."@], seq!['/']) == "."@);
    lemma_dots();
    lemma_named_concat(a, b);
    lemma_named_concat(seq![e], b);
    lemma_named_skips_empty(Seq::empty());
    assert(seq![e] + Seq::<Seq<char>>::empty() == seq![e]);
    lemma_named_concat(a, seq![e] + b);
    lemma_named_concat(seq!["."@], b);
    lemma_named_concat(a, seq!["."@] + b);
    assert(Seq::<Seq<char>>::empty() + named(b) == named(b));
    text::split_then_join(before, '/');
    assert((a + b)[0] == a[0]);
    assert((a + (seq![e] + b))[0] == a[0]);
    assert((a + (seq!["."@] + b))[0] == a[0]);
    assert(one[0] == before[0] && two[0] == before[0] && dot[0] == before[0]);
}

/// The directory of a path is what the last name was joined to, and a path without a name to take
/// away has none. The directory of a manifest is never the empty path.
pub proof fn directory_is_what_the_name_was_joined_to(dir: Seq<char>, name: Seq<char>)
    requires
        dir.len() > 0,
        plain_name(name),
    ensures
        parent_of(joined(dir, name)) == Some(path_text(components(dir))),
        parent_of(name) == Some(Seq::<char>::empty()),
        directory_of(name) == "."@,
        directory_of(joined(dir, name)) == path_text(components(dir)),
        parent_of("/"@) is None,
        parent_of(Seq::empty()) is None,
{
    lemma_plain_names(seq![name]);
    assert(text::join(seq![name], "/"@) == name);
    lemma_components_of_joined(dir, name);
    let parts = components(joined(dir, name));
    assert(parts == components(dir) + seq![name]);
    assert(parts.last() == name);
    assert(parts.drop_last() == components(dir));
    reveal_strlit("/");
    if name == "/"@ {
        assert(name.contains(name[0]));
    }
    assert(components(name) =~= seq![name]);
    assert(seq![name].drop_last() == Seq::<Seq<char>>::empty());
    assert(path_text(Seq::<Seq<char>>::empty()) == Seq::<char>::empty());
    lemma_root();
    let e = Seq::<char>::empty();
    assert(text::split(e, '/') == seq![e]);
    lemma_named_skips_empty(Seq::empty());
    assert(seq![e] + Seq::<Seq<char>>::empty() == seq![e]);
    reveal_strlit(".");
    assert(components(e) =~= Seq::<Seq<char>>::empty());
    lemma_components_text_is_not_empty(dir);
}

/// A path that is not empty is written back as one that is not empty.
proof fn lemma_components_text_is_not_empty(path: Seq<char>)
    requires
        path.len() > 0,
    ensures
        path_text(components(path)).len() > 0,
{
    reveal_strlit("/");
    reveal_strlit(".");
    let parts = components(path);
    if !rooted(path) {
        if text::split(path, '/')[0] != "."@ {
            lemma_first_piece_is_named(path);
        }
        assert(parts.len() > 0);
        lemma_components_written(path, 0);
        assert(parts[0].len() > 0);
        lemma_join_starts_with_first(parts);
    }
}

/// One step at a time: behind a directory an empty step or a dot stays there, two dots lead to where
/// the last step came from, if there is one and it is not the root, and a name leads below.
pub proof fn each_step_is_taken_in_turn(cwd: Seq<char>, dir: Seq<char>, step: Seq<char>)
    requires
        !step.contains('/'),
    ensures
        ({
            let here = resolved(cwd, dir);
            resolved(cwd, joined(dir, step)) == (if step.len() == 0 || step == "."@ {
                here
            } else if step == ".."@ {
                if here.len() > 0 && here.last() != "/"@ {
                    here.drop_last()
                } else {
                    here
                }
            } else {
                here.push(step)
            })
        }),
{
    let here = resolved(cwd, dir);
    let parts = components(joined(cwd, dir));
    if rooted(step) {
        assert(step.contains(step[0]));
    }
    lemma_resolved_joined(cwd, dir, step);
    if step.len() == 0 {
        let e = Seq::<char>::empty();
        assert(step == e);
        assert(text::split(e, '/') == seq![e]);
        lemma_named_skips_empty(Seq::empty());
        assert(seq![e] + Seq::<Seq<char>>::empty() == seq![e]);
        assert(parts + Seq::<Seq<char>>::empty() == parts);
    } else if step == "."@ {
        dot_stays(cwd, dir);
    } else if step == ".."@ {
        lemma_dots();
        let whole = parts + seq![".."@];
        assert(whole.drop_last() == parts);
        assert(whole.last() == ".."@);
        assert("."@ != ".."@) by {
            reveal_strlit(".");
            reveal_strlit("..");
            assert("."@.len() != ".."@.len());
        }
    } else {
        name_leads_one_step_below(cwd, dir, step);
    }
}

/// A path is written with its components in order and one slash between each two; one from the root
/// begins with a slash.
pub proof fn path_is_written_in_order(names: Seq<Seq<char>>)
    requires
        names.len() > 0,
        plain_names(names),
    ensures
        path_text(names) == text::join(names, "/"@),
        path_text(seq!["/"@] + names) == "/"@ + text::join(names, "/"@),
        path_text(seq!["/"@]) == "/"@,
        path_text(Seq::empty()) == Seq::<char>::empty(),
{
    lemma_plain_names(names);
    assert((seq!["/"@] + names).drop_first() == names);
    assert(seq!["/"@].drop_first() == Seq::<Seq<char>>::empty());
    assert("/"@ + Seq::<char>::empty() == "/"@);
}

/// Joining keeps both paths as they are written, with at most one slash more between them; a path
/// from the root is taken alone.
pub proof fn joined_path_holds_both(base: Seq<char>, rel: Seq<char>)
    ensures
        rel.len() > 0 && rel[0] == '/' ==> joined(base, rel) == rel,
        !(rel.len() > 0 && rel[0] == '/') ==> {
            &&& base.is_prefix_of(joined(base, rel))
            &&& joined(base, rel).skip(joined(base, rel).len() - rel.len()) == rel
            &&& base.len() > 0 ==> joined(base, rel)[joined(base, rel).len() - rel.len() - 1] == '/'
            &&& joined(base, rel).len() <= base.len() + 1 + rel.len()
            &&& base.len() == 0 || base.last() == '/' ==> joined(base, rel).len() == base.len()
                + rel.len()
        },
{
    reveal_strlit("/");
    let whole = joined(base, rel);
    if !rooted(rel) {
        assert(base == whole.subrange(0, base.len() as int));
        assert(whole.skip(whole.len() - rel.len()) == rel);
    }
}

/// The empty path has no components.
pub proof fn lemma_empty_path()
    ensures
        components(Seq::empty()) == Seq::<Seq<char>>::empty(),
{
    let e = Seq::<char>::empty();
    assert(text::split(e, '/') == seq![e]);
    lemma_named_skips_empty(Seq::empty());
    assert(seq![e] + Seq::<Seq<char>>::empty() == seq![e]);
    reveal_strlit(".");
    assert(components(e) =~= Seq::<Seq<char>>::empty());
}

/// A dot at the start of a relative path is kept, and only there.
pub proof fn leading_dot_is_kept(names: Seq<Seq<char>>)
    requires
        names.len() > 0,
        plain_names(names),
    ensures
        components("./"@ + text::join(names, "/"@)) == seq!["."@] + names,
        components("."@) == seq!["."@],
        components("/./"@ + text::join(names, "/"@)) == seq!["/"@] + names,
{
    let rel = text::join(names, "/"@);
    reveal_strlit("/");
    reveal_strlit(".");
    reveal_strlit("./");
    reveal_strlit("/./");
    assert("/"@ == seq!['/']);
    lemma_plain_names(names);
    lemma_dots();
    let dotted = "./"@ + rel;
    assert(dotted == "."@ + seq!['/'] + rel);
    text::lemma_split_at("."@, rel, '/');
    text::join_then_split(seq!["."@], '/');
    assert(text::join(seq!["."@], seq!['/']) == "."@);
    lemma_named_concat(seq!["."@], names);
    assert(Seq::<Seq<char>>::empty() + names == names);
    assert((seq!["."@] + names)[0] == "."@);
    assert(!rooted(dotted));
    assert(components(dotted) =~= seq!["."@] + names);
    assert(components("."@) =~= seq!["."@]);
    let e = Seq::<char>::empty();
    let root = "/./"@ + rel;
    assert(root == e + seq!['/'] + dotted);
    text::lemma_split_at(e, dotted, '/');
    assert(text::split(e, '/') == seq![e]);
    lemma_named_skips_empty(seq!["."@] + names);
    assert(rooted(root));
}

/// A slash at the end of a path does not count, nor a dot behind it; and what the directory of a path
/// is depends on its components alone: the last is taken away, be it a name or two dots.
pub proof fn directory_goes_by_components(path: Seq<char>, step: Seq<char>, other: Seq<char>)
    requires
        path.len() > 0,
        step.len() > 0,
        !step.contains('/'),
        step != "."@,
    ensures
        components(path + "/"@) == components(path),
        components(path + "/."@) == components(path),
        components(joined(path, step)) == components(path).push(step),
        parent_of(joined(path, step)) == Some(path_text(components(path))),
        components(path) == components(other) ==> parent_of(path) == parent_of(other)
            && directory_of(path) == directory_of(other),
{
    let e = Seq::<char>::empty();
    reveal_strlit("/");
    reveal_strlit(".");
    reveal_strlit("/.");
    assert("/"@ == seq!['/']);
    let pieces = text::split(path, '/');
    text::split_then_join(path, '/');
    text::lemma_split_at(path, e, '/');
    assert(path + seq!['/'] + e == path + "/"@);
    text::lemma_split_at(path, "."@, '/');
    assert(path + seq!['/'] + "."@ == path + "/."@);
    assert(text::split(e, '/') == seq![e]);
    lemma_named_skips_empty(Seq::empty());
    assert(seq![e] + Seq::<Seq<char>>::empty() == seq![e]);
    lemma_dots();
    lemma_named_concat(pieces, seq![e]);
    lemma_named_concat(pieces, text::split("."@, '/'));
    assert(named(pieces) + Seq::<Seq<char>>::empty() == named(pieces));
    assert((pieces + seq![e])[0] == pieces[0]);
    assert((pieces + text::split("."@, '/'))[0] == pieces[0]);
    assert((path + "/"@)[0] == path[0]);
    assert((path + "/."@)[0] == path[0]);
    if rooted(step) {
        assert(step.contains(step[0]));
    }
    lemma_components_of_joined(path, step);
    text::join_then_split(seq![step], '/');
    assert(text::join(seq![step], seq!['/']) == step);
    assert forall|i: int| 0 <= i < 1 implies (#[trigger] seq![step][i]).len() > 0 && seq![step][i]
        != "."@ by {}
    lemma_all_named(seq![step]);
    let parts = components(joined(path, step));
    assert(parts =~= components(path).push(step));
    assert(parts.drop_last() =~= components(path));
    if step == "/"@ {
        assert(step.contains(step[0]));
    }
}

} // verus!
