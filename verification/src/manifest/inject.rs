use vstd::prelude::*;

use crate::manifest::error::{ManifestError, ManifestFault};
use crate::paths;
use crate::text;

verus! {

/// What stands at the destination of an inject, found without following a link.
#[derive(Clone, Copy, Debug, PartialEq, Eq, Structural)]
pub enum Destination {
    Missing,
    /// It could not be inspected.
    Unreadable,
    Entry { is_dir: bool, is_symlink: bool },
}

/// How an inject goes on.
#[derive(Clone, Copy, Debug, PartialEq, Eq, Structural)]
pub enum InjectStep {
    /// Source and destination are one file.
    Done,
    /// Report that the destination cannot be inspected.
    Uninspectable,
    /// Remove what is there, then copy.
    Replace,
    Copy,
}

/// How an inject goes on; `None` where the destination is a directory.
pub open spec fn step(destination: Destination, same_file: bool) -> Option<InjectStep> {
    match destination {
        Destination::Missing => Some(InjectStep::Copy),
        Destination::Unreadable => Some(InjectStep::Uninspectable),
        Destination::Entry { is_dir, is_symlink } => if is_symlink {
            Some(InjectStep::Replace)
        } else if same_file {
            Some(InjectStep::Done)
        } else if is_dir {
            None
        } else {
            Some(InjectStep::Replace)
        },
    }
}

/// Decides how one inject is applied. `same_file` says that source and destination, links
/// followed, are one file. The old entry is replaced and never written through: a link that the
/// agent made could lead anywhere.
pub fn apply_inject(dst: &str, destination: Destination, same_file: bool) -> (r: Result<
    InjectStep,
    ManifestError,
>)
    ensures
        match r {
            Ok(next) => step(destination, same_file) == Some(next),
            Err(e) => step(destination, same_file) is None && e@ == ManifestFault::InjectDestIsDir(
                dst@,
            ),
        },
{
    match destination {
        Destination::Missing => Ok(InjectStep::Copy),
        Destination::Unreadable => Ok(InjectStep::Uninspectable),
        Destination::Entry { is_dir, is_symlink } => {
            if !is_symlink && same_file {
                return Ok(InjectStep::Done);
            }
            if is_dir && !is_symlink {
                return Err(ManifestError::InjectDestIsDir { path: dst.to_owned() });
            }
            Ok(InjectStep::Replace)
        },
    }
}

/// The directory that must exist before an inject is applied.
pub fn inject_parent(dst: &str) -> (r: Option<String>)
    ensures
        text::text_opt(r) == paths::parent_of(dst@),
{
    paths::parent(dst)
}

/// A link at the destination is always removed before anything is copied, whatever it leads to.
pub proof fn link_is_never_written_through(is_dir: bool, same_file: bool)
    ensures
        step(Destination::Entry { is_dir, is_symlink: true }, same_file) == Some(
            InjectStep::Replace,
        ),
{
}

/// A copy goes only to a place where nothing is, and a directory is never removed.
pub proof fn copy_goes_to_a_free_place(destination: Destination, same_file: bool)
    ensures
        step(destination, same_file) == Some(InjectStep::Copy) ==> destination is Missing,
        step(destination, same_file) == Some(InjectStep::Replace) ==> (destination
            matches Destination::Entry { is_dir, is_symlink } && (is_symlink || !is_dir)),
{
}

/// What stands at a place.
pub enum Node {
    File(Seq<u8>),
    Dir,
    /// A link, with the place where it leads.
    Link(Seq<Seq<char>>),
}

/// What stands where, by the components of the place; the directories on the way are no links.
pub type Files = Map<Seq<Seq<char>>, Node>;

/// What an inspection of a place finds, without following a link.
pub open spec fn found(files: Files, place: Seq<Seq<char>>) -> Destination {
    if !files.contains_key(place) {
        Destination::Missing
    } else {
        Destination::Entry { is_dir: files[place] is Dir, is_symlink: files[place] is Link }
    }
}

/// Whether two places, links followed, are one file.
pub open spec fn one_file(files: Files, src: Seq<Seq<char>>, dst: Seq<Seq<char>>) -> bool {
    src == dst || (files.contains_key(dst) && files[dst] == Node::Link(src))
}

/// Whether `place` lies above `dst`.
pub open spec fn above(place: Seq<Seq<char>>, dst: Seq<Seq<char>>) -> bool {
    place.len() < dst.len() && place.is_prefix_of(dst)
}

/// The files once every directory above `dst` has been created.
pub open spec fn with_parents(files: Files, dst: Seq<Seq<char>>) -> Files {
    Map::new(
        |p: Seq<Seq<char>>| files.contains_key(p) || above(p, dst),
        |p: Seq<Seq<char>>|
            if files.contains_key(p) {
                files[p]
            } else {
                Node::Dir
            },
    )
}

/// Whether the directories above `dst` are there or can be created.
pub open spec fn creatable(files: Files, dst: Seq<Seq<char>>) -> bool {
    forall|p: Seq<Seq<char>>| #[trigger]
        files.contains_key(p) && above(p, dst) ==> files[p] is Dir
}

/// The files once a step has been carried out: both a copy and a replacement leave the source's
/// content at the destination, and nothing else touches a file.
pub open spec fn carried_out(
    files: Files,
    src: Seq<Seq<char>>,
    dst: Seq<Seq<char>>,
    next: Option<InjectStep>,
) -> Files {
    match next {
        Some(InjectStep::Copy) => files.insert(dst, files[src]),
        Some(InjectStep::Replace) => files.remove(dst).insert(dst, files[src]),
        _ => files,
    }
}

/// How an inject from `src` to `dst` goes on, once the directories above `dst` are there.
pub open spec fn inject_step(files: Files, src: Seq<Seq<char>>, dst: Seq<Seq<char>>) -> Option<
    InjectStep,
> {
    let ready = with_parents(files, dst);
    step(found(ready, dst), one_file(ready, src, dst))
}

/// The files after an inject from `src` to `dst`.
pub open spec fn injected(files: Files, src: Seq<Seq<char>>, dst: Seq<Seq<char>>) -> Files {
    carried_out(with_parents(files, dst), src, dst, inject_step(files, src, dst))
}

/// An inject of a file leaves the source's content at the destination, as a file of its own, with
/// every directory above it, whatever stood there before; the source and every other place stay as
/// they were. A directory at the destination is refused and stays, and a file that is injected onto
/// itself stays.
pub proof fn injected_file_stands_at_the_destination(
    files: Files,
    src: Seq<Seq<char>>,
    dst: Seq<Seq<char>>,
)
    requires
        files.contains_key(src),
        files[src] is File,
        creatable(files, dst),
    ensures
        ({
            let after = injected(files, src, dst);
            let refused = files.contains_key(dst) && files[dst] is Dir;
            &&& inject_step(files, src, dst) is None <==> refused
            &&& inject_step(files, src, dst) == Some(InjectStep::Done) <==> src == dst
            &&& inject_step(files, src, dst) != Some(InjectStep::Uninspectable)
            &&& refused ==> after.contains_key(dst) && after[dst] is Dir
            &&& !refused ==> after.contains_key(dst) && after[dst] == files[src]
            &&& after.contains_key(src) && after[src] == files[src]
            &&& forall|p: Seq<Seq<char>>| #[trigger]
                above(p, dst) ==> after.contains_key(p) && after[p] is Dir
            &&& forall|p: Seq<Seq<char>>|
                p != dst && !above(p, dst) ==> (#[trigger] after.contains_key(p)
                    == files.contains_key(p)) && (files.contains_key(p) ==> after[p] == files[p])
        }),
{
    let ready = with_parents(files, dst);
    assert(!above(dst, dst));
    assert(ready.contains_key(dst) == files.contains_key(dst));
    assert(ready.contains_key(src) && ready[src] == files[src]);
    assert(files.contains_key(dst) ==> ready[dst] == files[dst]);
    assert(!above(src, dst));
}

/// A second inject does no more: where the first succeeded it succeeds too, and it leaves
/// everything as it is.
pub proof fn injecting_twice_is_injecting_once(
    files: Files,
    src: Seq<Seq<char>>,
    dst: Seq<Seq<char>>,
)
    requires
        files.contains_key(src),
        files[src] is File,
        creatable(files, dst),
    ensures
        injected(injected(files, src, dst), src, dst) == injected(files, src, dst),
        inject_step(injected(files, src, dst), src, dst) is None <==> inject_step(files, src, dst) is None,
{
    let after = injected(files, src, dst);
    injected_file_stands_at_the_destination(files, src, dst);
    assert forall|p: Seq<Seq<char>>| #[trigger] after.contains_key(p) && above(p, dst) implies after[p] is Dir by {
        assert(above(p, dst));
    }
    assert(with_parents(after, dst) =~= after);
    injected_file_stands_at_the_destination(after, src, dst);
}

/// A destination that cannot be inspected is reported and neither removed nor written; nothing else
/// is reported so.
pub proof fn unreadable_destination_is_reported(destination: Destination, same_file: bool)
    ensures
        step(destination, same_file) == Some(InjectStep::Uninspectable) <==> destination is Unreadable,
        destination is Missing ==> step(destination, same_file) == Some(InjectStep::Copy),
{
}

/// An entry that is no link stays where it is the source itself; otherwise a file is replaced, and a
/// directory is refused.
pub proof fn entry_is_kept_replaced_or_refused(is_dir: bool, same_file: bool)
    ensures
        ({
            let next = step(Destination::Entry { is_dir, is_symlink: false }, same_file);
            &&& same_file ==> next == Some(InjectStep::Done)
            &&& !same_file && is_dir ==> next is None
            &&& !same_file && !is_dir ==> next == Some(InjectStep::Replace)
        }),
{
}

} // verus!
