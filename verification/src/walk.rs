//! The directory walker.  A probed directory tree is walked depth
//! first, collecting every regular file together with its path
//! relative to the walked root.  Entries that could not be probed are
//! recorded as missing and silently skipped: a partial result is
//! preferred over a failed walk.

use vstd::prelude::*;
use crate::digest::fits_digest_input;
use crate::info::{FileRecord, FileRecordView};
use crate::paths::{join_path, spec_join};

verus! {

/// What probing one path reports: nothing there (or unreadable), a
/// regular file with its record, or a directory with its entries.
pub enum PathProbe {
    Missing,
    File(FileRecord),
    Dir(Vec<DirEntry>),
}

/// One named entry of a probed directory.
pub struct DirEntry {
    pub name: String,
    pub probe: PathProbe,
}

/// A regular file discovered by the walk, with its path relative to
/// the walked root.
#[derive(Debug)]
pub struct FoundFile {
    pub path: String,
    pub record: FileRecord,
}

#[verifier::ext_equal]
pub ghost struct FoundFileView {
    pub path: Seq<char>,
    pub record: FileRecordView,
}

impl View for FoundFile {
    type V = FoundFileView;

    open spec fn view(&self) -> FoundFileView {
        FoundFileView { path: self.path@, record: self.record@ }
    }
}

pub open spec fn found_views(s: Seq<FoundFile>) -> Seq<FoundFileView> {
    s.map_values(|f: FoundFile| f@)
}

/// Every file record under the probe is small enough to digest.
pub open spec fn probe_wf(node: PathProbe) -> bool
    decreases node,
{
    match node {
        PathProbe::Missing => true,
        PathProbe::File(record) => fits_digest_input(record@.content.len()),
        PathProbe::Dir(entries) => entries_wf(entries@),
    }
}

pub open spec fn entries_wf(entries: Seq<DirEntry>) -> bool
    decreases entries,
{
    entries.len() == 0 || (probe_wf(entries[0].probe) && entries_wf(entries.drop_first()))
}

/// The files the walk finds under a node reached by `prefix`, in
/// depth-first entry order.
pub open spec fn spec_walk_node(prefix: Seq<char>, node: PathProbe) -> Seq<FoundFileView>
    decreases node,
{
    match node {
        PathProbe::Missing => Seq::empty(),
        PathProbe::File(record) => seq![FoundFileView { path: prefix, record: record@ }],
        PathProbe::Dir(entries) => spec_walk_entries(prefix, entries@),
    }
}

pub open spec fn spec_walk_entries(prefix: Seq<char>, entries: Seq<DirEntry>) -> Seq<
    FoundFileView,
>
    decreases entries,
{
    if entries.len() == 0 {
        Seq::empty()
    } else {
        spec_walk_node(spec_join(prefix, entries[0].name@), entries[0].probe) + spec_walk_entries(
            prefix,
            entries.drop_first(),
        )
    }
}

pub proof fn lemma_walk_entries_push(prefix: Seq<char>, entries: Seq<DirEntry>, entry: DirEntry)
    ensures
        spec_walk_entries(prefix, entries.push(entry)) == spec_walk_entries(prefix, entries)
            + spec_walk_node(spec_join(prefix, entry.name@), entry.probe),
    decreases entries.len(),
{
    let appended = entries.push(entry);
    if entries.len() == 0 {
        assert(appended[0] == entry);
        assert(appended.drop_first() =~= Seq::<DirEntry>::empty());
        assert(spec_walk_entries(prefix, appended.drop_first())
            == Seq::<FoundFileView>::empty());
        assert(spec_walk_entries(prefix, entries.push(entry)) =~= spec_walk_entries(prefix, entries)
            + spec_walk_node(spec_join(prefix, entry.name@), entry.probe));
    } else {
        assert(appended[0] == entries[0]);
        assert(appended.drop_first() =~= entries.drop_first().push(entry));
        lemma_walk_entries_push(prefix, entries.drop_first(), entry);
        assert(spec_walk_entries(prefix, entries.push(entry)) =~= spec_walk_entries(prefix, entries)
            + spec_walk_node(spec_join(prefix, entry.name@), entry.probe));
    }
}

/// Every file found under a well-formed probe fits the digest bound.
pub proof fn lemma_walk_node_wf(prefix: Seq<char>, node: PathProbe)
    requires
        probe_wf(node),
    ensures
        forall|i: int|
            0 <= i < spec_walk_node(prefix, node).len() ==> fits_digest_input(
                spec_walk_node(prefix, node)[i].record.content.len(),
            ),
    decreases node,
{
    match node {
        PathProbe::Missing => {
        },
        PathProbe::File(record) => {
            assert(spec_walk_node(prefix, node)[0].record == record@);
        },
        PathProbe::Dir(entries) => {
            lemma_walk_entries_wf(prefix, entries@);
            assert(spec_walk_node(prefix, node) == spec_walk_entries(prefix, entries@));
        },
    }
}

pub proof fn lemma_walk_entries_wf(prefix: Seq<char>, entries: Seq<DirEntry>)
    requires
        entries_wf(entries),
    ensures
        forall|i: int|
            0 <= i < spec_walk_entries(prefix, entries).len() ==> fits_digest_input(
                spec_walk_entries(prefix, entries)[i].record.content.len(),
            ),
    decreases entries,
{
    if entries.len() > 0 {
        let first = spec_walk_node(spec_join(prefix, entries[0].name@), entries[0].probe);
        let rest = spec_walk_entries(prefix, entries.drop_first());
        lemma_walk_node_wf(spec_join(prefix, entries[0].name@), entries[0].probe);
        lemma_walk_entries_wf(prefix, entries.drop_first());
        assert forall|i: int| 0 <= i < spec_walk_entries(prefix, entries).len() implies
            fits_digest_input(spec_walk_entries(prefix, entries)[i].record.content.len()) by {
            assert(spec_walk_entries(prefix, entries) == first + rest);
            if i < first.len() {
                assert((first + rest)[i] == first[i]);
            } else {
                assert((first + rest)[i] == rest[i - first.len()]);
            }
        }
    }
}

pub(crate) fn copy_bytes(src: &Vec<u8>) -> (r: Vec<u8>)
    ensures
        r@ == src@,
{
    let mut out: Vec<u8> = Vec::new();
    let mut i: usize = 0;
    while i < src.len()
        invariant
            i <= src@.len(),
            out@ == src@.subrange(0, i as int),
        decreases src@.len() - i,
    {
        out.push(src[i]);
        proof {
            assert(out@ =~= src@.subrange(0, i as int + 1));
        }
        i += 1;
    }
    proof {
        assert(out@ =~= src@);
    }
    out
}

/// Depth-first collection of every regular file under a probed node.
fn walk_into(prefix: &String, node: &PathProbe, out: &mut Vec<FoundFile>)
    ensures
        found_views(final(out)@) == found_views(old(out)@) + spec_walk_node(prefix@, *node),
    decreases *node,
{
    match node {
        PathProbe::Missing => {
            proof {
                assert(found_views(out@) =~= found_views(old(out)@) + spec_walk_node(
                    prefix@,
                    *node,
                ));
            }
        },
        PathProbe::File(record) => {
            let found = FoundFile {
                path: prefix.clone(),
                record: FileRecord { seconds: record.seconds, content: copy_bytes(&record.content) },
            };
            out.push(found);
            proof {
                assert(found_views(out@) =~= found_views(old(out)@) + spec_walk_node(
                    prefix@,
                    *node,
                ));
            }
        },
        PathProbe::Dir(entries) => {
            let mut i: usize = 0;
            while i < entries.len()
                invariant
                    i <= entries@.len(),
                    node is Dir && node->Dir_0 == *entries,
                    found_views(out@) == found_views(old(out)@) + spec_walk_entries(
                        prefix@,
                        entries@.subrange(0, i as int),
                    ),
                decreases entries@.len() - i,
            {
                let entry = &entries[i];
                let child_prefix = join_path(prefix.as_str(), entry.name.as_str());
                proof {
                    assert(decreases_to!(*node => entries@[i as int].probe));
                }
                walk_into(&child_prefix, &entry.probe, out);
                proof {
                    assert(entries@.subrange(0, i as int + 1) =~= entries@.subrange(
                        0,
                        i as int,
                    ).push(entries@[i as int]));
                    lemma_walk_entries_push(
                        prefix@,
                        entries@.subrange(0, i as int),
                        entries@[i as int],
                    );
                    assert(found_views(out@) =~= found_views(old(out)@) + spec_walk_entries(
                        prefix@,
                        entries@.subrange(0, i as int + 1),
                    ));
                }
                i += 1;
            }
            proof {
                assert(entries@.subrange(0, entries@.len() as int) =~= entries@);
            }
        },
    }
}

/// Recursively enumerate every regular file under a probed directory,
/// each with its root-relative path.  A missing root cannot be walked,
/// nor can a regular file.
pub fn walk_dir(probe: &PathProbe) -> (r: Result<Vec<FoundFile>, crate::info::FileInfoError>)
    ensures
        r is Err <==> !(probe is Dir),
        probe is Missing ==> r == Err::<Vec<FoundFile>, _>(crate::info::FileInfoError::NotFound),
        probe is File ==> r == Err::<Vec<FoundFile>, _>(crate::info::FileInfoError::NotDir),
        probe is Dir ==> r is Ok && found_views(r->Ok_0@) == spec_walk_node(Seq::empty(), *probe),
{
    match probe {
        PathProbe::Missing => Err(crate::info::FileInfoError::NotFound),
        PathProbe::File(_) => Err(crate::info::FileInfoError::NotDir),
        PathProbe::Dir(_) => {
            let mut out: Vec<FoundFile> = Vec::new();
            let empty_prefix = String::new();
            walk_into(&empty_prefix, probe, &mut out);
            proof {
                assert(found_views(Seq::<FoundFile>::empty()) =~= Seq::<FoundFileView>::empty());
            }
            Ok(out)
        },
    }
}

} // verus!
