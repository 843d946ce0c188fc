//! The archive builder: a list of files and directory trees becomes one
//! compressed, ZIP-compatible container with a byte size known before
//! sending.
//!
//! The filesystem walk happens outside this module and hands in plain
//! `PathNode` values; this module plans the entry names — each root's files
//! under the root's basename, separators normalized to `/` — and writes the
//! container through the zip crate into an in-memory buffer.
use vstd::prelude::*;

use crate::wire::copy_range;

verus! {

/// The path separator used inside the archive.
pub const SLASH: u8 = 47;

/// The separator that is normalized away.
pub const BACKSLASH: u8 = 92;

/// One input to the archive builder: a file with its contents, or a
/// directory with its children. Names are single path components.
pub enum PathNode {
    File { name: Vec<u8>, data: Vec<u8> },
    Dir { name: Vec<u8>, children: Vec<PathNode> },
}

/// Error of the archive builder. Writing happens in memory, so a failure of
/// the zip layer (an entry name it refuses, a duplicate name, a failed
/// finish) is fatal rather than skipped.
#[derive(Debug)]
pub enum ArchiveError {
    WriteFailed,
}

// ---------------------------------------------------------------------------
// Trusted boundary: the zip crate
// ---------------------------------------------------------------------------
/// Event tag: a file entry was started and filled.
pub const EV_FILE: u64 = 0;

/// Event tag: a directory entry was added.
pub const EV_DIR: u64 = 1;

/// An archive being written through the zip crate into an in-memory buffer.
/// The writer inside is opaque to verification; its recorded contents are
/// the tagged entry events named by `archive_events` below.
#[verifier::external_body]
pub struct ArchiveWriter {
    inner: zip::ZipWriter<std::io::Cursor<Vec<u8>>>,
}

/// The entries recorded so far, in call order: `(EV_FILE, name, contents)`
/// for a file entry, `(EV_DIR, name, empty)` for a directory entry. The
/// order carries the interleaving of files and directories, which the
/// container bytes depend on.
pub uninterp spec fn archive_events(w: ArchiveWriter) -> Seq<(u64, Seq<u8>, Seq<u8>)>;

/// The writer's state is the one its successful event history built from a
/// fresh writer. Established by `zip_new`, preserved by every successful
/// call; after a failed call nothing is promised, and every wrapper requires
/// it, so a failed writer cannot be used further in verified code.
pub uninterp spec fn writer_ok(w: ArchiveWriter) -> bool;

/// Whether the zip crate accepts one more entry after the given successful
/// history: the name must be valid UTF-8 and (as stored) not a duplicate,
/// and the entry must stay within the container's limits. A function of the
/// history and the entry alone.
pub uninterp spec fn entry_ok(
    events: Seq<(u64, Seq<u8>, Seq<u8>)>,
    tag: u64,
    name: Seq<u8>,
    data: Seq<u8>,
) -> bool;

/// Whether finishing the container succeeds after the given successful
/// history.
pub uninterp spec fn finish_ok(events: Seq<(u64, Seq<u8>, Seq<u8>)>) -> bool;

/// The finished container bytes for a given event history. With this crate
/// version, fixed default options and no time source, the output is a
/// function of the ordered events alone.
pub uninterp spec fn zip_bytes_of(events: Seq<(u64, Seq<u8>, Seq<u8>)>) -> Seq<u8>;

/// Relies on zip::ZipWriter::new over an empty in-memory cursor: a fresh
/// archive holds no entries.
#[verifier::external_body]
fn zip_new() -> (r: ArchiveWriter)
    ensures
        archive_events(r) == Seq::<(u64, Seq<u8>, Seq<u8>)>::empty(),
        writer_ok(r),
{
    ArchiveWriter { inner: zip::ZipWriter::new(std::io::Cursor::new(Vec::new())) }
}

/// Relies on zip::ZipWriter::start_file with default options and its Write
/// impl (write_all): on success one file entry under exactly the given name
/// (valid UTF-8, handed over byte for byte; duplicates are refused with an
/// error) holding exactly the given bytes is recorded. Success is a function
/// of the history and the entry, named `entry_ok`.
#[verifier::external_body]
fn zip_add_file_entry(w: &mut ArchiveWriter, name: &[u8], data: &[u8]) -> (r: Result<(), ()>)
    requires
        writer_ok(*old(w)),
    ensures
        r is Ok <==> entry_ok(archive_events(*old(w)), EV_FILE, name@, data@),
        r is Ok ==> writer_ok(*final(w)) && archive_events(*final(w)) == archive_events(
            *old(w),
        ).push((EV_FILE, name@, data@)),
{
    let text = match core::str::from_utf8(name) {
        Ok(t) => t,
        Err(_) => {
            return Err(());
        },
    };
    if w.inner.start_file(text, zip::write::SimpleFileOptions::default()).is_err() {
        return Err(());
    }
    std::io::Write::write_all(&mut w.inner, data).map_err(|_| ())
}

/// Relies on zip::ZipWriter::add_directory with default options: on success
/// a directory entry under the given name is recorded. The crate stores the
/// name with a trailing slash appended; `archive_events` records the name as
/// handed in.
#[verifier::external_body]
fn zip_add_directory(w: &mut ArchiveWriter, name: &[u8]) -> (r: Result<(), ()>)
    requires
        writer_ok(*old(w)),
    ensures
        r is Ok <==> entry_ok(archive_events(*old(w)), EV_DIR, name@, Seq::<u8>::empty()),
        r is Ok ==> writer_ok(*final(w)) && archive_events(*final(w)) == archive_events(
            *old(w),
        ).push((EV_DIR, name@, Seq::<u8>::empty())),
{
    let text = match core::str::from_utf8(name) {
        Ok(t) => t,
        Err(_) => {
            return Err(());
        },
    };
    w.inner.add_directory(text, zip::write::SimpleFileOptions::default()).map_err(|_| ())
}

/// Relies on zip::ZipWriter::finish and Cursor::into_inner: the finished
/// container bytes, determined by the recorded events in their order.
#[verifier::external_body]
fn zip_finish(w: ArchiveWriter) -> (r: Result<Vec<u8>, ()>)
    requires
        writer_ok(w),
    ensures
        r is Ok <==> finish_ok(archive_events(w)),
        r matches Ok(b) ==> b@ == zip_bytes_of(archive_events(w)),
{
    match w.inner.finish() {
        Ok(cursor) => Ok(cursor.into_inner()),
        Err(_) => Err(()),
    }
}

} // verus!

verus! {

// ---------------------------------------------------------------------------
// Entry planning
// ---------------------------------------------------------------------------
/// Normalize path separators to `/`.
pub open spec fn norm(s: Seq<u8>) -> Seq<u8> {
    s.map_values(
        |b: u8|
            if b == BACKSLASH {
                SLASH
            } else {
                b
            },
    )
}

/// The archive name of a component `name` under `prefix`.
pub open spec fn entry_name(prefix: Seq<u8>, name: Seq<u8>) -> Seq<u8> {
    prefix + seq![SLASH] + norm(name)
}

/// The file entries a node contributes under `prefix`, depth first, in order.
pub open spec fn planned_files(prefix: Seq<u8>, node: PathNode) -> Seq<(Seq<u8>, Seq<u8>)>
    decreases node,
{
    match node {
        PathNode::File { name, data } => seq![(entry_name(prefix, name@), data@)],
        PathNode::Dir { name, children } => planned_files_in(
            entry_name(prefix, name@),
            children,
            0,
        ),
    }
}

/// The file entries of `children[i..]` under `prefix`.
pub open spec fn planned_files_in(prefix: Seq<u8>, children: Vec<PathNode>, i: int) -> Seq<
    (Seq<u8>, Seq<u8>),
>
    decreases children, children@.len() - i,
{
    if i < 0 || i >= children@.len() {
        Seq::empty()
    } else {
        planned_files(prefix, children@[i]) + planned_files_in(prefix, children, i + 1)
    }
}

/// The directory entries a node contributes under `prefix`.
pub open spec fn planned_dirs(prefix: Seq<u8>, node: PathNode) -> Seq<Seq<u8>>
    decreases node,
{
    match node {
        PathNode::File { .. } => Seq::empty(),
        PathNode::Dir { name, children } => seq![entry_name(prefix, name@)] + planned_dirs_in(
            entry_name(prefix, name@),
            children,
            0,
        ),
    }
}

/// The directory entries of `children[i..]` under `prefix`.
pub open spec fn planned_dirs_in(prefix: Seq<u8>, children: Vec<PathNode>, i: int) -> Seq<Seq<u8>>
    decreases children, children@.len() - i,
{
    if i < 0 || i >= children@.len() {
        Seq::empty()
    } else {
        planned_dirs(prefix, children@[i]) + planned_dirs_in(prefix, children, i + 1)
    }
}

/// The file entries of a root path: a file under its basename alone, a
/// directory's descendants under the directory's basename.
pub open spec fn planned_root_files(node: PathNode) -> Seq<(Seq<u8>, Seq<u8>)> {
    match node {
        PathNode::File { name, data } => seq![(norm(name@), data@)],
        PathNode::Dir { name, children } => planned_files_in(norm(name@), children, 0),
    }
}

/// The directory entries of a root path.
pub open spec fn planned_root_dirs(node: PathNode) -> Seq<Seq<u8>> {
    match node {
        PathNode::File { .. } => Seq::empty(),
        PathNode::Dir { name, children } => seq![norm(name@)] + planned_dirs_in(
            norm(name@),
            children,
            0,
        ),
    }
}

/// The file entries of the whole path list `roots[i..]`.
pub open spec fn planned_files_all(roots: Vec<PathNode>, i: int) -> Seq<(Seq<u8>, Seq<u8>)>
    decreases roots@.len() - i,
{
    if i < 0 || i >= roots@.len() {
        Seq::empty()
    } else {
        planned_root_files(roots@[i]) + planned_files_all(roots, i + 1)
    }
}

/// The directory entries of the whole path list `roots[i..]`.
pub open spec fn planned_dirs_all(roots: Vec<PathNode>, i: int) -> Seq<Seq<u8>>
    decreases roots@.len() - i,
{
    if i < 0 || i >= roots@.len() {
        Seq::empty()
    } else {
        planned_root_dirs(roots@[i]) + planned_dirs_all(roots, i + 1)
    }
}

} // verus!

verus! {

// ---------------------------------------------------------------------------
// Planned event histories
// ---------------------------------------------------------------------------
/// The file entries among a history of events, in order.
pub open spec fn files_of_events(events: Seq<(u64, Seq<u8>, Seq<u8>)>) -> Seq<(Seq<u8>, Seq<u8>)>
    decreases events.len(),
{
    if events.len() == 0 {
        Seq::empty()
    } else {
        (if events[0].0 == EV_FILE {
            seq![(events[0].1, events[0].2)]
        } else {
            Seq::empty()
        }) + files_of_events(events.skip(1))
    }
}

/// The directory entries among a history of events, in order.
pub open spec fn dirs_of_events(events: Seq<(u64, Seq<u8>, Seq<u8>)>) -> Seq<Seq<u8>>
    decreases events.len(),
{
    if events.len() == 0 {
        Seq::empty()
    } else {
        (if events[0].0 == EV_DIR {
            seq![events[0].1]
        } else {
            Seq::empty()
        }) + dirs_of_events(events.skip(1))
    }
}

pub proof fn lemma_events_split(a: Seq<(u64, Seq<u8>, Seq<u8>)>, b: Seq<(u64, Seq<u8>, Seq<u8>)>)
    ensures
        files_of_events(a + b) == files_of_events(a) + files_of_events(b),
        dirs_of_events(a + b) == dirs_of_events(a) + dirs_of_events(b),
    decreases a.len(),
{
    if a.len() == 0 {
        assert(a + b =~= b);
        assert(files_of_events(a) + files_of_events(b) =~= files_of_events(b));
        assert(dirs_of_events(a) + dirs_of_events(b) =~= dirs_of_events(b));
    } else {
        assert((a + b).skip(1) =~= a.skip(1) + b);
        lemma_events_split(a.skip(1), b);
        assert(files_of_events(a + b) =~= files_of_events(a) + files_of_events(b));
        assert(dirs_of_events(a + b) =~= dirs_of_events(a) + dirs_of_events(b));
    }
}

/// What one event folds to.
pub proof fn lemma_events_single(e: (u64, Seq<u8>, Seq<u8>))
    ensures
        files_of_events(seq![e]) == if e.0 == EV_FILE {
            seq![(e.1, e.2)]
        } else {
            Seq::<(Seq<u8>, Seq<u8>)>::empty()
        },
        dirs_of_events(seq![e]) == if e.0 == EV_DIR {
            seq![e.1]
        } else {
            Seq::<Seq<u8>>::empty()
        },
{
    assert(seq![e].skip(1) =~= Seq::<(u64, Seq<u8>, Seq<u8>)>::empty());
    assert(files_of_events(seq![e].skip(1)) =~= Seq::<(Seq<u8>, Seq<u8>)>::empty());
    assert(dirs_of_events(seq![e].skip(1)) =~= Seq::<Seq<u8>>::empty());
    if e.0 == EV_FILE {
        assert(files_of_events(seq![e]) =~= seq![(e.1, e.2)]);
        assert(dirs_of_events(seq![e]) =~= Seq::<Seq<u8>>::empty());
    } else if e.0 == EV_DIR {
        assert(files_of_events(seq![e]) =~= Seq::<(Seq<u8>, Seq<u8>)>::empty());
        assert(dirs_of_events(seq![e]) =~= seq![e.1]);
    } else {
        assert(files_of_events(seq![e]) =~= Seq::<(Seq<u8>, Seq<u8>)>::empty());
        assert(dirs_of_events(seq![e]) =~= Seq::<Seq<u8>>::empty());
    }
}

/// The zip crate accepts the whole event sequence `more`, starting from the
/// successful history `history`.
pub open spec fn seq_ok_from(
    history: Seq<(u64, Seq<u8>, Seq<u8>)>,
    more: Seq<(u64, Seq<u8>, Seq<u8>)>,
) -> bool
    decreases more.len(),
{
    more.len() == 0 || (entry_ok(history, more[0].0, more[0].1, more[0].2) && seq_ok_from(
        history.push(more[0]),
        more.skip(1),
    ))
}

pub proof fn lemma_seq_ok_split(
    h: Seq<(u64, Seq<u8>, Seq<u8>)>,
    a: Seq<(u64, Seq<u8>, Seq<u8>)>,
    b: Seq<(u64, Seq<u8>, Seq<u8>)>,
)
    ensures
        seq_ok_from(h, a + b) <==> (seq_ok_from(h, a) && seq_ok_from(h + a, b)),
    decreases a.len(),
{
    if a.len() == 0 {
        assert(a + b =~= b);
        assert(h + a =~= h);
    } else {
        assert((a + b).len() > 0);
        assert((a + b)[0] == a[0]);
        assert((a + b).skip(1) =~= a.skip(1) + b);
        lemma_seq_ok_split(h.push(a[0]), a.skip(1), b);
        assert(h.push(a[0]) + a.skip(1) =~= h + a);
    }
}

/// The events a node contributes under `prefix`: its directory entry first,
/// then its descendants, depth first, in order.
pub open spec fn planned_events(prefix: Seq<u8>, node: PathNode) -> Seq<(u64, Seq<u8>, Seq<u8>)>
    decreases node,
{
    match node {
        PathNode::File { name, data } => seq![(EV_FILE, entry_name(prefix, name@), data@)],
        PathNode::Dir { name, children } => seq![
            (EV_DIR, entry_name(prefix, name@), Seq::<u8>::empty()),
        ] + planned_events_in(entry_name(prefix, name@), children, 0),
    }
}

/// The events of `children[i..]` under `prefix`.
pub open spec fn planned_events_in(prefix: Seq<u8>, children: Vec<PathNode>, i: int) -> Seq<
    (u64, Seq<u8>, Seq<u8>),
>
    decreases children, children@.len() - i,
{
    if i < 0 || i >= children@.len() {
        Seq::empty()
    } else {
        planned_events(prefix, children@[i]) + planned_events_in(prefix, children, i + 1)
    }
}

/// The events of one root path.
pub open spec fn planned_events_root(node: PathNode) -> Seq<(u64, Seq<u8>, Seq<u8>)> {
    match node {
        PathNode::File { name, data } => seq![(EV_FILE, norm(name@), data@)],
        PathNode::Dir { name, children } => seq![(EV_DIR, norm(name@), Seq::<u8>::empty())]
            + planned_events_in(norm(name@), children, 0),
    }
}

/// The events of the whole path list `roots[i..]`.
pub open spec fn planned_events_all(roots: Vec<PathNode>, i: int) -> Seq<(u64, Seq<u8>, Seq<u8>)>
    decreases roots@.len() - i,
{
    if i < 0 || i >= roots@.len() {
        Seq::empty()
    } else {
        planned_events_root(roots@[i]) + planned_events_all(roots, i + 1)
    }
}

/// The planned events carry exactly the planned files and directories: the
/// event history of a node folds to its planned file and directory entries.
pub proof fn lemma_planned_events_content(prefix: Seq<u8>, node: PathNode)
    ensures
        files_of_events(planned_events(prefix, node)) == planned_files(prefix, node),
        dirs_of_events(planned_events(prefix, node)) == planned_dirs(prefix, node),
    decreases node,
{
    match node {
        PathNode::File { name, data } => {
            lemma_events_single((EV_FILE, entry_name(prefix, name@), data@));
            assert(files_of_events(planned_events(prefix, node)) =~= planned_files(prefix, node));
            assert(dirs_of_events(planned_events(prefix, node)) =~= planned_dirs(prefix, node));
        },
        PathNode::Dir { name, children } => {
            let dname = entry_name(prefix, name@);
            let d = (EV_DIR, dname, Seq::<u8>::empty());
            let head = seq![d];
            let rest = planned_events_in(dname, children, 0);
            lemma_planned_events_in_content(dname, children, 0);
            lemma_events_split(head, rest);
            lemma_events_single(d);
            assert(files_of_events(planned_events(prefix, node)) =~= planned_files(prefix, node));
            assert(dirs_of_events(planned_events(prefix, node)) =~= planned_dirs(prefix, node));
        },
    }
}

/// The planned events of `children[i..]` fold to their planned files and
/// directories.
pub proof fn lemma_planned_events_in_content(prefix: Seq<u8>, children: Vec<PathNode>, i: int)
    ensures
        files_of_events(planned_events_in(prefix, children, i)) == planned_files_in(
            prefix,
            children,
            i,
        ),
        dirs_of_events(planned_events_in(prefix, children, i)) == planned_dirs_in(
            prefix,
            children,
            i,
        ),
    decreases children, children@.len() - i,
{
    if 0 <= i < children@.len() {
        lemma_planned_events_content(prefix, children@[i]);
        lemma_planned_events_in_content(prefix, children, i + 1);
        lemma_events_split(
            planned_events(prefix, children@[i]),
            planned_events_in(prefix, children, i + 1),
        );
    } else {
        assert(files_of_events(planned_events_in(prefix, children, i)) =~= planned_files_in(
            prefix,
            children,
            i,
        ));
        assert(dirs_of_events(planned_events_in(prefix, children, i)) =~= planned_dirs_in(
            prefix,
            children,
            i,
        ));
    }
}

/// The planned events of the whole path list fold to exactly the planned
/// files and directories of the whole list: what the archive records is the
/// union of the input paths.
pub proof fn lemma_planned_events_all_content(roots: Vec<PathNode>, i: int)
    ensures
        files_of_events(planned_events_all(roots, i)) == planned_files_all(roots, i),
        dirs_of_events(planned_events_all(roots, i)) == planned_dirs_all(roots, i),
    decreases roots@.len() - i,
{
    if 0 <= i < roots@.len() {
        let node = roots@[i];
        match node {
            PathNode::File { name, data } => {
                lemma_events_single((EV_FILE, norm(name@), data@));
                assert(files_of_events(planned_events_root(node)) =~= planned_root_files(node));
                assert(dirs_of_events(planned_events_root(node)) =~= planned_root_dirs(node));
            },
            PathNode::Dir { name, children } => {
                let dname = norm(name@);
                let d = (EV_DIR, dname, Seq::<u8>::empty());
                let head = seq![d];
                let rest = planned_events_in(dname, children, 0);
                lemma_planned_events_in_content(dname, children, 0);
                lemma_events_split(head, rest);
                lemma_events_single(d);
                assert(files_of_events(planned_events_root(node)) =~= planned_root_files(node));
                assert(dirs_of_events(planned_events_root(node)) =~= planned_root_dirs(node));
            },
        }
        lemma_planned_events_all_content(roots, i + 1);
        lemma_events_split(planned_events_root(node), planned_events_all(roots, i + 1));
    } else {
        assert(files_of_events(planned_events_all(roots, i)) =~= planned_files_all(roots, i));
        assert(dirs_of_events(planned_events_all(roots, i)) =~= planned_dirs_all(roots, i));
    }
}

} // verus!

verus! {

/// Normalize path separators of `name` to `/`.
pub fn norm_name(name: &[u8]) -> (r: Vec<u8>)
    ensures
        r@ == norm(name@),
{
    let mut out: Vec<u8> = Vec::new();
    let mut j: usize = 0;
    while j < name.len()
        invariant
            j <= name.len(),
            out@.len() == j,
            forall|k: int| 0 <= k < j ==> out@[k] == norm(name@)[k],
        decreases name.len() - j,
    {
        let b = name[j];
        if b == BACKSLASH {
            out.push(SLASH);
        } else {
            out.push(b);
        }
        j = j + 1;
    }
    assert(out@ =~= norm(name@));
    out
}

/// Build the archive name of component `name` under `prefix`.
pub fn make_entry_name(prefix: &[u8], name: &[u8]) -> (r: Vec<u8>)
    ensures
        r@ == entry_name(prefix@, name@),
{
    let mut out = copy_range(prefix, 0, prefix.len());
    assert(out@ =~= prefix@);
    out.push(SLASH);
    let normalized = norm_name(name);
    crate::messages::append_bytes(&mut out, normalized.as_slice());
    assert(out@ =~= entry_name(prefix@, name@));
    out
}

/// Add one node and all its descendants to the archive, under `prefix`. On
/// failure, the zip crate does not accept this node's event sequence after
/// the history written so far.
pub(crate) fn add_node(w: &mut ArchiveWriter, prefix: &[u8], node: &PathNode) -> (r: Result<
    (),
    ArchiveError,
>)
    requires
        writer_ok(*old(w)),
    ensures
        r is Ok ==> writer_ok(*final(w)) && archive_events(*final(w)) == archive_events(*old(w))
            + planned_events(prefix@, *node),
        r is Err ==> !seq_ok_from(archive_events(*old(w)), planned_events(prefix@, *node)),
    decreases *node,
{
    let ghost h = archive_events(*old(w));
    match node {
        PathNode::File { name, data } => {
            let ename = make_entry_name(prefix, name.as_slice());
            let ghost e = (EV_FILE, ename@, data@);
            if zip_add_file_entry(w, ename.as_slice(), data.as_slice()).is_err() {
                proof {
                    assert(planned_events(prefix@, *node)[0] == e);
                }
                return Err(ArchiveError::WriteFailed);
            }
            proof {
                assert(archive_events(*w) =~= h + planned_events(prefix@, *node));
            }
            Ok(())
        },
        PathNode::Dir { name, children } => {
            let dname = make_entry_name(prefix, name.as_slice());
            let ghost d = (EV_DIR, dname@, Seq::<u8>::empty());
            let ghost rest = planned_events_in(dname@, *children, 0);
            proof {
                assert(planned_events(prefix@, *node) =~= seq![d] + rest);
                assert(planned_events(prefix@, *node)[0] == d);
                assert(planned_events(prefix@, *node).skip(1) =~= rest);
            }
            if zip_add_directory(w, dname.as_slice()).is_err() {
                return Err(ArchiveError::WriteFailed);
            }
            proof {
                assert(archive_events(*w) == h.push(d));
            }
            match add_children(w, dname.as_slice(), children, 0) {
                Ok(()) => {},
                Err(e2) => {
                    proof {
                        assert(!seq_ok_from(h.push(d), rest));
                    }
                    return Err(e2);
                },
            }
            proof {
                assert(h.push(d) =~= h + seq![d]);
                assert((h + seq![d]) + rest =~= h + (seq![d] + rest));
                assert(archive_events(*w) =~= h + planned_events(prefix@, *node));
            }
            Ok(())
        },
    }
}

/// Add `children[i..]` and their descendants to the archive, under `prefix`.
pub(crate) fn add_children(
    w: &mut ArchiveWriter,
    prefix: &[u8],
    children: &Vec<PathNode>,
    i: usize,
) -> (r: Result<(), ArchiveError>)
    requires
        writer_ok(*old(w)),
        i <= children@.len(),
    ensures
        r is Ok ==> writer_ok(*final(w)) && archive_events(*final(w)) == archive_events(*old(w))
            + planned_events_in(prefix@, *children, i as int),
        r is Err ==> !seq_ok_from(
            archive_events(*old(w)),
            planned_events_in(prefix@, *children, i as int),
        ),
    decreases *children, children@.len() - i,
{
    let ghost h = archive_events(*old(w));
    let ghost plan = planned_events_in(prefix@, *children, i as int);
    if i == children.len() {
        proof {
            assert(archive_events(*w) =~= h + plan);
        }
        return Ok(());
    }
    let ghost head = planned_events(prefix@, children@[i as int]);
    let ghost tail = planned_events_in(prefix@, *children, i as int + 1);
    proof {
        assert(plan =~= head + tail);
    }
    match add_node(w, prefix, &children[i]) {
        Ok(()) => {},
        Err(e) => {
            proof {
                lemma_seq_ok_split(h, head, tail);
            }
            return Err(e);
        },
    }
    match add_children(w, prefix, children, i + 1) {
        Ok(()) => {},
        Err(e) => {
            proof {
                lemma_seq_ok_split(h, head, tail);
            }
            return Err(e);
        },
    }
    proof {
        assert((h + head) + tail =~= h + (head + tail));
        assert(archive_events(*w) =~= h + plan);
    }
    Ok(())
}

/// Build the compressed container for the given path list and return its
/// bytes together with their count — the size a `TransferRequest` reports.
/// The result is `Ok` unless the zip crate refuses the planned entries (a
/// name that is not valid UTF-8, a duplicate name, an entry beyond the
/// container's limits) or refuses to finish.
pub fn build_archive(roots: &Vec<PathNode>) -> (r: Result<(Vec<u8>, u64), ArchiveError>)
    ensures
        r matches Ok(p) ==> {
            &&& p.0@ == zip_bytes_of(planned_events_all(*roots, 0))
            &&& p.1 == p.0@.len()
        },
        r is Err ==> !(seq_ok_from(
            Seq::<(u64, Seq<u8>, Seq<u8>)>::empty(),
            planned_events_all(*roots, 0),
        ) && finish_ok(planned_events_all(*roots, 0))),
{
    let ghost whole = planned_events_all(*roots, 0);
    let mut w = zip_new();
    let mut i: usize = 0;
    proof {
        assert(archive_events(w) + planned_events_all(*roots, 0) =~= whole);
    }
    while i < roots.len()
        invariant
            i <= roots.len(),
            writer_ok(w),
            whole == planned_events_all(*roots, 0),
            archive_events(w) + planned_events_all(*roots, i as int) == whole,
        decreases roots.len() - i,
    {
        let ghost h = archive_events(w);
        let ghost head = planned_events_root(roots@[i as int]);
        let ghost tail = planned_events_all(*roots, i as int + 1);
        proof {
            assert(planned_events_all(*roots, i as int) =~= head + tail);
        }
        match &roots[i] {
            PathNode::File { name, data } => {
                let ename = norm_name(name.as_slice());
                let ghost e = (EV_FILE, ename@, data@);
                if zip_add_file_entry(&mut w, ename.as_slice(), data.as_slice()).is_err() {
                    proof {
                        assert(head[0] == e);
                        assert(!seq_ok_from(h, head));
                        lemma_seq_ok_split(h, head, tail);
                        lemma_build_failure(h, planned_events_all(*roots, i as int), whole);
                    }
                    return Err(ArchiveError::WriteFailed);
                }
                proof {
                    assert(head =~= seq![e]);
                    assert(archive_events(w) =~= h + head);
                }
            },
            PathNode::Dir { name, children } => {
                let dname = norm_name(name.as_slice());
                let ghost d = (EV_DIR, dname@, Seq::<u8>::empty());
                let ghost rest = planned_events_in(dname@, *children, 0);
                proof {
                    assert(head =~= seq![d] + rest);
                    assert(head[0] == d);
                    assert(head.skip(1) =~= rest);
                }
                if zip_add_directory(&mut w, dname.as_slice()).is_err() {
                    proof {
                        assert(!seq_ok_from(h, head));
                        lemma_seq_ok_split(h, head, tail);
                        lemma_build_failure(h, planned_events_all(*roots, i as int), whole);
                    }
                    return Err(ArchiveError::WriteFailed);
                }
                proof {
                    assert(archive_events(w) == h.push(d));
                }
                match add_children(&mut w, dname.as_slice(), children, 0) {
                    Ok(()) => {},
                    Err(_) => {
                        proof {
                            assert(!seq_ok_from(h.push(d), rest));
                            assert(!seq_ok_from(h, head));
                            lemma_seq_ok_split(h, head, tail);
                            lemma_build_failure(h, planned_events_all(*roots, i as int), whole);
                        }
                        return Err(ArchiveError::WriteFailed);
                    },
                }
                proof {
                    assert(h.push(d) =~= h + seq![d]);
                    assert((h + seq![d]) + rest =~= h + (seq![d] + rest));
                    assert(archive_events(w) =~= h + head);
                }
            },
        }
        proof {
            assert((h + head) + tail =~= h + (head + tail));
        }
        i = i + 1;
    }
    proof {
        assert(planned_events_all(*roots, roots@.len() as int) =~= Seq::<(
            u64,
            Seq<u8>,
            Seq<u8>,
        )>::empty());
        assert(archive_events(w) =~= whole);
    }
    match zip_finish(w) {
        Ok(bytes) => {
            let size = bytes.len() as u64;
            Ok((bytes, size))
        },
        Err(()) => Err(ArchiveError::WriteFailed),
    }
}

/// A refused step inside the plan refuses the whole plan: when the events
/// written so far are a prefix of the plan and the rest is not accepted, the
/// plan as a whole is not accepted from an empty history.
pub proof fn lemma_build_failure(
    done: Seq<(u64, Seq<u8>, Seq<u8>)>,
    rest: Seq<(u64, Seq<u8>, Seq<u8>)>,
    whole: Seq<(u64, Seq<u8>, Seq<u8>)>,
)
    requires
        done + rest == whole,
        !seq_ok_from(done, rest),
    ensures
        !seq_ok_from(Seq::<(u64, Seq<u8>, Seq<u8>)>::empty(), whole),
{
    let empty = Seq::<(u64, Seq<u8>, Seq<u8>)>::empty();
    lemma_seq_ok_split(empty, done, rest);
    assert(empty + done =~= done);
}

} // verus!

verus! {

/// `p` is a prefix of `s`.
pub open spec fn has_prefix(s: Seq<u8>, p: Seq<u8>) -> bool {
    p.len() <= s.len() && s.take(p.len() as int) == p
}

pub proof fn lemma_has_prefix_trans(s: Seq<u8>, a: Seq<u8>, b: Seq<u8>)
    requires
        has_prefix(s, a),
        has_prefix(a, b),
    ensures
        has_prefix(s, b),
{
    assert(s.take(b.len() as int) =~= a.take(b.len() as int));
}

/// Every file a node plans under `prefix` is named under `prefix`.
pub proof fn lemma_planned_files_under(prefix: Seq<u8>, node: PathNode)
    ensures
        forall|j: int|
            0 <= j < planned_files(prefix, node).len() ==> has_prefix(
                #[trigger] planned_files(prefix, node)[j].0,
                prefix + seq![SLASH],
            ),
    decreases node,
{
    match node {
        PathNode::File { name, data } => {
            assert(entry_name(prefix, name@).take((prefix + seq![SLASH]).len() as int) =~= prefix
                + seq![SLASH]);
        },
        PathNode::Dir { name, children } => {
            let dname = entry_name(prefix, name@);
            lemma_planned_files_in_under(dname, children, 0);
            assert((dname + seq![SLASH]).take((prefix + seq![SLASH]).len() as int) =~= prefix
                + seq![SLASH]);
            assert forall|j: int| 0 <= j < planned_files(prefix, node).len() implies has_prefix(
                #[trigger] planned_files(prefix, node)[j].0,
                prefix + seq![SLASH],
            ) by {
                assert(planned_files(prefix, node)[j] == planned_files_in(dname, children, 0)[j]);
                lemma_has_prefix_trans(
                    planned_files(prefix, node)[j].0,
                    dname + seq![SLASH],
                    prefix + seq![SLASH],
                );
            }
        },
    }
}

/// Every file the children `children[i..]` plan under `prefix` is named
/// under `prefix`.
pub proof fn lemma_planned_files_in_under(prefix: Seq<u8>, children: Vec<PathNode>, i: int)
    ensures
        forall|j: int|
            0 <= j < planned_files_in(prefix, children, i).len() ==> has_prefix(
                #[trigger] planned_files_in(prefix, children, i)[j].0,
                prefix + seq![SLASH],
            ),
    decreases children, children@.len() - i,
{
    if 0 <= i < children@.len() {
        lemma_planned_files_under(prefix, children@[i]);
        lemma_planned_files_in_under(prefix, children, i + 1);
        let head = planned_files(prefix, children@[i]);
        let tail = planned_files_in(prefix, children, i + 1);
        assert forall|j: int|
            0 <= j < planned_files_in(prefix, children, i).len() implies has_prefix(
            #[trigger] planned_files_in(prefix, children, i)[j].0,
            prefix + seq![SLASH],
        ) by {
            if j < head.len() {
                assert(planned_files_in(prefix, children, i)[j] == head[j]);
            } else {
                assert(planned_files_in(prefix, children, i)[j] == tail[j - head.len()]);
            }
        }
    }
}

/// Directory structure is preserved under each root's basename: a directory
/// root plans every descendant file under the root's normalized name, and a
/// file root plans exactly one entry, named by its normalized basename.
pub proof fn lemma_root_structure(node: PathNode)
    ensures
        match node {
            PathNode::Dir { name, .. } => forall|j: int|
                0 <= j < planned_root_files(node).len() ==> has_prefix(
                    #[trigger] planned_root_files(node)[j].0,
                    norm(name@) + seq![SLASH],
                ),
            PathNode::File { name, data } => planned_root_files(node) =~= seq![
                (norm(name@), data@),
            ],
        },
{
    match node {
        PathNode::Dir { name, children } => {
            lemma_planned_files_in_under(norm(name@), children, 0);
        },
        PathNode::File { .. } => {},
    }
}

} // verus!
