//! The fingerprint value type.  A `FileInfo` records what a path in
//! one store looked like at probe time: its identity path, its
//! modification time in whole seconds, the hex digest of its content,
//! and whether it existed at all.

use vstd::prelude::*;
use crate::digest::{content_digest, fits_digest_input, spec_digest};
use crate::paths::{join_path, spec_join, spec_strip_prefix};
use crate::walk::{
    found_views, lemma_walk_node_wf, probe_wf, spec_walk_node, walk_dir, FoundFileView, PathProbe,
};
use vstd::string::StrSliceExecFns;

verus! {

/// The mathematical fingerprint: what `FileInfo` denotes.
#[verifier::ext_equal]
pub ghost struct FingerprintView {
    pub path: Seq<char>,
    pub seconds: u64,
    pub digest: Seq<char>,
    pub present: bool,
}

impl FingerprintView {
    /// A fingerprint of an absent path carries the sentinel timestamp
    /// zero and the empty digest.
    pub open spec fn wf(self) -> bool {
        !self.present ==> self.seconds == 0 && self.digest.len() == 0
    }
}

/// The fingerprint reported for a path that does not exist.
pub open spec fn absent_fingerprint(path: Seq<char>) -> FingerprintView {
    FingerprintView { path, seconds: 0, digest: Seq::empty(), present: false }
}

/// The fingerprint reported for a regular file with the given
/// modification time and content.
pub open spec fn record_fingerprint(path: Seq<char>, record: FileRecordView) -> FingerprintView {
    FingerprintView {
        path,
        seconds: record.seconds,
        digest: spec_digest(record.content),
        present: true,
    }
}

/// What a store holds for one regular file: its modification time in
/// whole seconds since the epoch and its full byte content.
#[derive(Debug)]
pub struct FileRecord {
    pub seconds: u64,
    pub content: Vec<u8>,
}

#[verifier::ext_equal]
pub ghost struct FileRecordView {
    pub seconds: u64,
    pub content: Seq<u8>,
}

impl View for FileRecord {
    type V = FileRecordView;

    open spec fn view(&self) -> FileRecordView {
        FileRecordView { seconds: self.seconds, content: self.content@ }
    }
}

/// The fingerprints of a sequence of `FileInfo` values.
pub open spec fn infos_view(s: Seq<FileInfo>) -> Seq<FingerprintView> {
    s.map_values(|f: FileInfo| f@)
}

/// The fingerprints a directory probe yields: each discovered file,
/// its identity the walked root joined with its root-relative path.
pub open spec fn dir_fingerprints(root: Seq<char>, files: Seq<FoundFileView>) -> Seq<
    FingerprintView,
> {
    files.map_values(|f: FoundFileView| record_fingerprint(spec_join(root, f.path), f.record))
}

/// Things that can go wrong when building a fingerprint.
#[derive(Clone, Copy, Debug, PartialEq, Eq, Structural)]
pub enum FileInfoError {
    NotFile,
    NotDir,
    NotFound,
}

/// Failure of `FileInfo::strip_prefix`: the fingerprint's path does
/// not lie under the given prefix.
#[derive(Clone, Copy, Debug, PartialEq, Eq, Structural)]
pub enum StripPrefixError {
    NotAPrefix,
}

/// The pertinent information of a file in one store.
#[derive(Debug)]
pub struct FileInfo {
    path: String,
    seconds: u64,
    digest: String,
    present: bool,
}

impl View for FileInfo {
    type V = FingerprintView;

    closed spec fn view(&self) -> FingerprintView {
        FingerprintView {
            path: self.path@,
            seconds: self.seconds,
            digest: self.digest@,
            present: self.present,
        }
    }
}

impl PartialEq for FileInfo {
    fn eq(&self, other: &FileInfo) -> (r: bool) {
        self.path == other.path && self.seconds == other.seconds && self.digest == other.digest
            && self.present == other.present
    }
}

impl vstd::std_specs::cmp::PartialEqSpecImpl for FileInfo {
    open spec fn obeys_eq_spec() -> bool {
        true
    }

    open spec fn eq_spec(&self, other: &FileInfo) -> bool {
        self@ == other@
    }
}

impl Eq for FileInfo {}

impl FileInfo {
    /// The fingerprint of a path that does not exist.
    pub fn absent(path: String) -> (r: FileInfo)
        ensures
            r@ == absent_fingerprint(path@),
    {
        FileInfo { path, seconds: 0, digest: String::new(), present: false }
    }

    /// The fingerprint of a regular file, its digest computed fresh
    /// from the full content.
    pub fn from_record(path: String, record: &FileRecord) -> (r: FileInfo)
        requires
            fits_digest_input(record@.content.len()),
        ensures
            r@ == record_fingerprint(path@, record@),
    {
        let digest = content_digest(record.content.as_slice());
        FileInfo { path, seconds: record.seconds, digest, present: true }
    }

    /// Rebuild a fingerprint from already-serialized parts, as
    /// received over the wire.  Parts that break the absent-path
    /// invariant are rejected.
    pub fn from_parts(path: String, seconds: u64, digest: String, present: bool) -> (r: Option<
        FileInfo,
    >)
        ensures
            r is Some <==> (FingerprintView { path: path@, seconds, digest: digest@, present }).wf(),
            r is Some ==> r->Some_0@ == (FingerprintView {
                path: path@,
                seconds,
                digest: digest@,
                present,
            }),
    {
        if present || (seconds == 0 && digest.as_str().is_empty()) {
            Some(FileInfo { path, seconds, digest, present })
        } else {
            None
        }
    }

    /// Fingerprint a single path from what probing it reported.  A
    /// missing path yields the absent fingerprint, not an error; an
    /// existing path that is not a regular file is a caller mistake.
    pub fn from_file_path(path: String, probe: &PathProbe) -> (r: Result<FileInfo, FileInfoError>)
        requires
            probe_wf(*probe),
        ensures
            r is Err <==> probe is Dir,
            r is Err ==> r->Err_0 == FileInfoError::NotFile,
            probe is Missing ==> r is Ok && r->Ok_0@ == absent_fingerprint(path@),
            probe is File ==> r is Ok && r->Ok_0@ == record_fingerprint(path@, probe->File_0@),
    {
        match probe {
            PathProbe::Missing => Ok(FileInfo::absent(path)),
            PathProbe::File(record) => Ok(FileInfo::from_record(path, record)),
            PathProbe::Dir(_) => Err(FileInfoError::NotFile),
        }
    }

    /// Fingerprint every regular file under a directory path, in walk
    /// order.  Each fingerprint's identity is the full discovered
    /// path: the walked root joined with the file's root-relative
    /// path; rebasing to a mapping-relative identity is the caller's
    /// business, via `strip_prefix`.  A missing root means "nothing to
    /// sync yet" and yields an empty collection, not an error.
    pub fn from_dir_path(path: &String, probe: &PathProbe) -> (r: Result<
        Vec<FileInfo>,
        FileInfoError,
    >)
        requires
            probe_wf(*probe),
        ensures
            r is Err <==> probe is File,
            r is Err ==> r->Err_0 == FileInfoError::NotDir,
            probe is Missing ==> r is Ok && r->Ok_0@.len() == 0,
            probe is Dir ==> r is Ok && infos_view(r->Ok_0@) == dir_fingerprints(
                path@,
                spec_walk_node(Seq::empty(), *probe),
            ),
    {
        match probe {
            PathProbe::Missing => Ok(Vec::new()),
            PathProbe::File(_) => Err(FileInfoError::NotDir),
            PathProbe::Dir(_) => {
                let found = match walk_dir(probe) {
                    Ok(found) => found,
                    Err(_) => {
                        proof {
                            assert(false);
                        }
                        Vec::new()
                    },
                };
                proof {
                    lemma_walk_node_wf(Seq::empty(), *probe);
                }
                let ghost walked = spec_walk_node(Seq::<char>::empty(), *probe);
                let mut infos: Vec<FileInfo> = Vec::new();
                let mut i: usize = 0;
                while i < found.len()
                    invariant
                        i <= found@.len(),
                        found_views(found@) == walked,
                        forall|j: int|
                            0 <= j < walked.len() ==> fits_digest_input(
                                walked[j].record.content.len(),
                            ),
                        infos@.len() == i,
                        forall|j: int|
                            0 <= j < i ==> infos@[j]@ == record_fingerprint(
                                spec_join(path@, walked[j].path),
                                walked[j].record,
                            ),
                    decreases found@.len() - i,
                {
                    proof {
                        assert(found_views(found@)[i as int] == found@[i as int]@);
                    }
                    let full_path = join_path(path.as_str(), found[i].path.as_str());
                    let info = FileInfo::from_record(full_path, &found[i].record);
                    infos.push(info);
                    i += 1;
                }
                proof {
                    assert forall|j: int| 0 <= j < walked.len() implies infos_view(infos@)[j]
                        == dir_fingerprints(path@, walked)[j] by {
                        assert(infos_view(infos@)[j] == infos@[j]@);
                        assert(dir_fingerprints(path@, walked)[j] == record_fingerprint(
                            spec_join(path@, walked[j].path),
                            walked[j].record,
                        ));
                    }
                    assert(infos_view(infos@) =~= dir_fingerprints(path@, walked));
                }
                Ok(infos)
            },
        }
    }

    // Getters

    pub fn get_path(&self) -> (r: &str)
        ensures
            r@ == self@.path,
    {
        self.path.as_str()
    }

    pub fn get_seconds(&self) -> (r: u64)
        ensures
            r == self@.seconds,
    {
        self.seconds
    }

    pub fn get_digest(&self) -> (r: &str)
        ensures
            r@ == self@.digest,
    {
        self.digest.as_str()
    }

    /// Whether the probed path existed.
    pub fn present(&self) -> (r: bool)
        ensures
            r == self@.present,
    {
        self.present
    }

    /// Digest equality, the comparison reconciliation is keyed on.
    pub fn digest_eq(&self, other: &FileInfo) -> (r: bool)
        ensures
            r == (self@.digest == other@.digest),
    {
        self.digest == other.digest
    }

    /// Whether this fingerprint carries the given identity path.
    pub fn path_is(&self, path: &String) -> (r: bool)
        ensures
            r == (self@.path == path@),
    {
        self.path == *path
    }

    /// Remove a root prefix (and the '/' after it) from the path,
    /// turning a store-rooted path into the mapping-relative identity.
    /// Everything but the path is left untouched.
    pub fn strip_prefix(&mut self, prefix: &str) -> (r: Result<(), StripPrefixError>)
        ensures
            r is Ok <==> spec_strip_prefix(old(self)@.path, prefix@) is Some,
            r is Ok ==> final(self)@ == (FingerprintView {
                path: spec_strip_prefix(old(self)@.path, prefix@)->Some_0,
                ..old(self)@
            }),
            r is Err ==> final(self)@ == old(self)@,
    {
        let plen = prefix.unicode_len();
        if plen == 0 {
            return Ok(());
        }
        let n = self.path.as_str().unicode_len();
        if n < plen {
            return Err(StripPrefixError::NotAPrefix);
        }
        let mut i: usize = 0;
        while i < plen
            invariant
                i <= plen,
                plen == prefix@.len(),
                n == self@.path.len(),
                plen <= n,
                forall|j: int| 0 <= j < i ==> self@.path[j] == prefix@[j],
            decreases plen - i,
        {
            if self.path.as_str().get_char(i) != prefix.get_char(i) {
                proof {
                    assert(self@.path[i as int] != prefix@[i as int]);
                    assert(self@.path != prefix@);
                    if self@.path.len() > plen && self@.path.subrange(0, plen as int) == prefix@ {
                        assert(self@.path.subrange(0, plen as int)[i as int] == self@.path[
                            i as int
                        ]);
                    }
                }
                return Err(StripPrefixError::NotAPrefix);
            }
            i += 1;
        }
        if n == plen {
            proof {
                assert(self@.path =~= prefix@);
            }
            self.path = String::new();
            return Ok(());
        }
        if self.path.as_str().get_char(plen) != '/' {
            return Err(StripPrefixError::NotAPrefix);
        }
        proof {
            assert(self@.path.subrange(0, plen as int) =~= prefix@);
        }
        let rest = self.path.as_str().substring_char(plen + 1, n);
        let rest_owned = rest.to_owned();
        proof {
            assert(rest_owned@ =~= old(self)@.path.skip(plen as int + 1));
        }
        self.path = rest_owned;
        Ok(())
    }
}

} // verus!
