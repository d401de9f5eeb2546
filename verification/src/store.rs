//! An in-memory model of one file store, keyed by identity path.
//! The transfer primitives move whole-file content between two such
//! stores; their contracts pin down the round-trip behaviour that the
//! synchroniser relies on.

use vstd::prelude::*;
use crate::digest::fits_digest_input;
use crate::info::{
    absent_fingerprint, infos_view, record_fingerprint, FileInfo, FileInfoError, FileRecord,
    FileRecordView, FingerprintView,
};
use crate::paths::spec_strip_prefix;
use crate::reconcile::{decide, spec_decide, SyncAction};
use crate::walk::copy_bytes;

verus! {

/// One stored file: its identity path and its record.
#[verifier::ext_equal]
pub ghost struct StoredFileView {
    pub path: Seq<char>,
    pub record: FileRecordView,
}

/// Whether the store holds a file at this path.
pub open spec fn store_has(s: Seq<StoredFileView>, path: Seq<char>) -> bool {
    exists|i: int| 0 <= i < s.len() && s[i].path == path
}

/// The record stored first at this path; an empty sentinel when the
/// path is absent (callers branch on `store_has` first).
pub open spec fn store_lookup(s: Seq<StoredFileView>, path: Seq<char>) -> FileRecordView
    decreases s.len(),
{
    if s.len() == 0 {
        FileRecordView { seconds: 0, content: Seq::empty() }
    } else if s[0].path == path {
        s[0].record
    } else {
        store_lookup(s.drop_first(), path)
    }
}

/// The fingerprint the store reports for a path: digest and seconds
/// of the stored record when present, the absent fingerprint when not.
pub open spec fn store_info(s: Seq<StoredFileView>, path: Seq<char>) -> FingerprintView {
    if store_has(s, path) {
        record_fingerprint(path, store_lookup(s, path))
    } else {
        absent_fingerprint(path)
    }
}

/// What a directory-fingerprint request for `root` reports: every
/// stored file under `root`, its path rebased to be root-relative.
pub open spec fn dir_listing(s: Seq<StoredFileView>, root: Seq<char>) -> Seq<FingerprintView>
    decreases s.len(),
{
    if s.len() == 0 {
        Seq::empty()
    } else {
        let butlast = dir_listing(s.drop_last(), root);
        match spec_strip_prefix(s.last().path, root) {
            Some(rel) => butlast.push(record_fingerprint(rel, s.last().record)),
            None => butlast,
        }
    }
}

pub proof fn lemma_store_lookup_at(s: Seq<StoredFileView>, path: Seq<char>, i: int)
    requires
        0 <= i < s.len(),
        s[i].path == path,
        forall|j: int| 0 <= j < i ==> s[j].path != path,
    ensures
        store_has(s, path),
        store_lookup(s, path) == s[i].record,
    decreases i,
{
    if i > 0 {
        assert forall|j: int| 0 <= j < i - 1 implies s.drop_first()[j].path != path by {
            assert(s.drop_first()[j] == s[j + 1]);
        }
        assert(s.drop_first()[i - 1] == s[i]);
        lemma_store_lookup_at(s.drop_first(), path, i - 1);
    }
}

pub proof fn lemma_store_update(s: Seq<StoredFileView>, i: int, v: StoredFileView, q: Seq<char>)
    requires
        0 <= i < s.len(),
        v.path == s[i].path,
        forall|j: int| 0 <= j < s.len() && j != i ==> s[j].path != s[i].path,
    ensures
        store_has(s.update(i, v), q) == store_has(s, q),
        q == v.path ==> store_lookup(s.update(i, v), q) == v.record,
        q != v.path && store_has(s, q) ==> store_lookup(s.update(i, v), q) == store_lookup(s, q),
    decreases s.len(),
{
    let su = s.update(i, v);
    assert forall|n: int| 0 <= n < s.len() implies su[n].path == s[n].path by {}
    assert(store_has(su, q) == store_has(s, q));
    if i == 0 {
        if q != v.path {
            assert(su.drop_first() =~= s.drop_first());
        }
    } else {
        assert(su[0] == s[0]);
        if s[0].path != q {
            assert(su.drop_first() =~= s.drop_first().update(i - 1, v));
            assert forall|j: int|
                0 <= j < s.drop_first().len() && j != i - 1 implies #[trigger] s.drop_first()[j].path
                != s.drop_first()[i - 1].path by {
                assert(s.drop_first()[j] == s[j + 1]);
                assert(s.drop_first()[i - 1] == s[i]);
            }
            assert(s.drop_first()[i - 1] == s[i]);
            lemma_store_update(s.drop_first(), i - 1, v, q);
            if q != v.path && store_has(s, q) {
                let w = choose|w: int| 0 <= w < s.len() && s[w].path == q;
                assert(w != 0);
                assert(s.drop_first()[w - 1] == s[w]);
                assert(store_has(s.drop_first(), q));
            }
        } else {
            if q == v.path {
                assert(s[0].path == s[i].path);
                assert(false);
            }
        }
    }
}

pub proof fn lemma_store_push(s: Seq<StoredFileView>, v: StoredFileView, q: Seq<char>)
    requires
        !store_has(s, v.path),
    ensures
        store_has(s.push(v), q) == (store_has(s, q) || q == v.path),
        q == v.path ==> store_lookup(s.push(v), q) == v.record,
        q != v.path && store_has(s, q) ==> store_lookup(s.push(v), q) == store_lookup(s, q),
    decreases s.len(),
{
    let sp = s.push(v);
    assert(sp[sp.len() - 1] == v);
    assert forall|n: int| 0 <= n < s.len() implies sp[n] == s[n] by {}
    if store_has(s, q) {
        assert(store_has(sp, q));
    }
    if q == v.path {
        assert(store_has(sp, q));
    }
    if store_has(sp, q) && q != v.path {
        let w = choose|w: int| 0 <= w < sp.len() && sp[w].path == q;
        assert(w < s.len());
        assert(store_has(s, q));
    }
    if s.len() == 0 {
        if q == v.path {
            assert(sp[0] == v);
        }
    } else {
        assert(sp[0] == s[0]);
        if s[0].path != q {
            assert(sp.drop_first() =~= s.drop_first().push(v));
            assert forall|j: int| 0 <= j < s.drop_first().len() implies s.drop_first()[j].path
                != v.path by {
                assert(s.drop_first()[j] == s[j + 1]);
            }
            lemma_store_push(s.drop_first(), v, q);
            if q != v.path && store_has(s, q) {
                let w = choose|w: int| 0 <= w < s.len() && s[w].path == q;
                assert(w != 0);
                assert(s.drop_first()[w - 1] == s[w]);
                assert(store_has(s.drop_first(), q));
            }
        }
    }
}

struct StoredFile {
    path: String,
    record: FileRecord,
}

/// One file store: a flat set of files keyed by identity path.
pub struct Store {
    files: Vec<StoredFile>,
}

impl View for Store {
    type V = Seq<StoredFileView>;

    closed spec fn view(&self) -> Seq<StoredFileView> {
        self.files@.map_values(
            |f: StoredFile| StoredFileView { path: f.path@, record: f.record@ },
        )
    }
}

impl Store {
    /// No two stored files share a path, and every stored content is
    /// small enough to digest.
    pub open spec fn wf(self) -> bool {
        &&& forall|i: int, j: int| 0 <= i < j < self@.len() ==> self@[i].path != self@[j].path
        &&& forall|i: int|
            0 <= i < self@.len() ==> fits_digest_input(#[trigger] self@[i].record.content.len())
    }

    /// An empty store.
    pub fn new() -> (s: Store)
        ensures
            s@ == Seq::<StoredFileView>::empty(),
            s.wf(),
    {
        let s = Store { files: Vec::new() };
        proof {
            assert(s@ =~= Seq::<StoredFileView>::empty());
        }
        s
    }

    fn find_index(&self, path: &String) -> (r: Option<usize>)
        ensures
            match r {
                Some(i) => i < self@.len() && self@[i as int].path == path@ && forall|j: int|
                    0 <= j < i ==> self@[j].path != path@,
                None => !store_has(self@, path@),
            },
    {
        let mut i: usize = 0;
        while i < self.files.len()
            invariant
                i <= self.files@.len(),
                self@.len() == self.files@.len(),
                forall|j: int| 0 <= j < i ==> self@[j].path != path@,
            decreases self.files@.len() - i,
        {
            proof {
                assert(self@[i as int].path == self.files@[i as int].path@);
            }
            if self.files[i].path == *path {
                return Some(i);
            }
            i += 1;
        }
        None
    }

    /// Store content at a path, overwriting whatever was there; the
    /// stored modification time is the time of this write.  Nothing
    /// else in the store changes.
    pub fn put(&mut self, path: &String, content: &Vec<u8>, now: u64)
        requires
            old(self).wf(),
            fits_digest_input(content@.len()),
        ensures
            final(self).wf(),
            store_has(final(self)@, path@),
            store_lookup(final(self)@, path@) == (FileRecordView { seconds: now, content: content@ }),
            forall|q: Seq<char>|
                q != path@ ==> #[trigger] store_has(final(self)@, q) == store_has(old(self)@, q),
            forall|q: Seq<char>|
                q != path@ && store_has(old(self)@, q) ==> #[trigger] store_lookup(final(self)@, q)
                    == store_lookup(old(self)@, q),
    {
        let record = FileRecord { seconds: now, content: copy_bytes(content) };
        let stored = StoredFile { path: path.clone(), record };
        match self.find_index(path) {
            Some(i) => {
                let ghost before = self@;
                let ghost v = StoredFileView {
                    path: path@,
                    record: FileRecordView { seconds: now, content: content@ },
                };
                self.files[i] = stored;
                proof {
                    assert(self@ =~= before.update(i as int, v));
                    assert forall|j: int|
                        0 <= j < before.len() && j != i implies before[j].path != before[
                        i as int
                    ].path by {}
                    lemma_store_update(before, i as int, v, path@);
                    assert forall|q: Seq<char>| q != path@ implies #[trigger] store_has(self@, q)
                        == store_has(before, q) by {
                        lemma_store_update(before, i as int, v, q);
                    }
                    assert forall|q: Seq<char>|
                        q != path@ && store_has(before, q) implies #[trigger] store_lookup(
                        self@,
                        q,
                    ) == store_lookup(before, q) by {
                        lemma_store_update(before, i as int, v, q);
                    }
                }
            },
            None => {
                let ghost before = self@;
                let ghost v = StoredFileView {
                    path: path@,
                    record: FileRecordView { seconds: now, content: content@ },
                };
                self.files.push(stored);
                proof {
                    assert(self@ =~= before.push(v));
                    lemma_store_push(before, v, path@);
                    assert forall|q: Seq<char>| q != path@ implies #[trigger] store_has(self@, q)
                        == store_has(before, q) by {
                        lemma_store_push(before, v, q);
                    }
                    assert forall|q: Seq<char>|
                        q != path@ && store_has(before, q) implies #[trigger] store_lookup(
                        self@,
                        q,
                    ) == store_lookup(before, q) by {
                        lemma_store_push(before, v, q);
                    }
                    assert forall|i2: int, j2: int| 0 <= i2 < j2 < self@.len() implies self@[
                        i2
                    ].path != self@[j2].path by {
                        if j2 == self@.len() - 1 {
                            assert(self@[i2] == before[i2]);
                            assert(!store_has(before, v.path));
                        } else {
                            assert(self@[i2] == before[i2] && self@[j2] == before[j2]);
                        }
                    }
                }
            },
        }
    }

    /// The fingerprint this store reports for a path, computed fresh
    /// from the stored record.
    pub fn fingerprint(&self, path: &String) -> (info: FileInfo)
        requires
            self.wf(),
        ensures
            info@ == store_info(self@, path@),
    {
        match self.find_index(path) {
            Some(i) => {
                proof {
                    lemma_store_lookup_at(self@, path@, i as int);
                    assert(self@[i as int].record == self.files@[i as int].record@);
                }
                FileInfo::from_record(path.clone(), &self.files[i].record)
            },
            None => FileInfo::absent(path.clone()),
        }
    }

    /// The stored content at a path, if any.
    pub fn content(&self, path: &String) -> (r: Option<Vec<u8>>)
        ensures
            r is Some <==> store_has(self@, path@),
            r is Some ==> r->Some_0@ == store_lookup(self@, path@).content,
    {
        match self.find_index(path) {
            Some(i) => {
                proof {
                    lemma_store_lookup_at(self@, path@, i as int);
                    assert(self@[i as int].record == self.files@[i as int].record@);
                }
                Some(copy_bytes(&self.files[i].record.content))
            },
            None => None,
        }
    }

    /// The fingerprints of every stored file that lies under `root`,
    /// in store order, each with its path rebased to be root-relative.
    /// Files outside `root` are left out.
    pub fn dir_info(&self, root: &String) -> (infos: Vec<FileInfo>)
        requires
            self.wf(),
        ensures
            infos_view(infos@) == dir_listing(self@, root@),
    {
        let mut infos: Vec<FileInfo> = Vec::new();
        let mut i: usize = 0;
        while i < self.files.len()
            invariant
                self.wf(),
                i <= self.files@.len(),
                self@.len() == self.files@.len(),
                infos_view(infos@) == dir_listing(self@.subrange(0, i as int), root@),
            decreases self.files@.len() - i,
        {
            proof {
                assert(self@[i as int].path == self.files@[i as int].path@);
                assert(self@[i as int].record == self.files@[i as int].record@);
            }
            let ghost before = infos@;
            let mut info = FileInfo::from_record(
                self.files[i].path.clone(),
                &self.files[i].record,
            );
            match info.strip_prefix(root.as_str()) {
                Ok(()) => {
                    infos.push(info);
                },
                Err(_) => {
                },
            }
            proof {
                assert(self@.subrange(0, i as int + 1).drop_last() =~= self@.subrange(0, i as int));
                assert(self@.subrange(0, i as int + 1).last() == self@[i as int]);
                assert forall|j: int| 0 <= j < infos@.len() implies infos_view(infos@)[j]
                    == dir_listing(self@.subrange(0, i as int + 1), root@)[j] by {
                    assert(infos_view(infos@)[j] == infos@[j]@);
                    if j < before.len() {
                        assert(infos@[j] == before[j]);
                        assert(infos_view(before)[j] == before[j]@);
                    }
                }
                assert(infos_view(infos@) =~= dir_listing(self@.subrange(0, i as int + 1), root@));
            }
            i += 1;
        }
        proof {
            assert(self@.subrange(0, self@.len() as int) =~= self@);
        }
        infos
    }

    /// The stored modification time at a path, if any.
    pub fn seconds(&self, path: &String) -> (r: Option<u64>)
        ensures
            r is Some <==> store_has(self@, path@),
            r is Some ==> r->Some_0 == store_lookup(self@, path@).seconds,
    {
        match self.find_index(path) {
            Some(i) => {
                proof {
                    lemma_store_lookup_at(self@, path@, i as int);
                    assert(self@[i as int].record == self.files@[i as int].record@);
                }
                Some(self.files[i].record.seconds)
            },
            None => None,
        }
    }
}

/// Send the local store's content at a path to the remote store,
/// which records it as written now.  Only that one remote path
/// changes; a path the local store lacks cannot be pushed.
pub fn push_file(local: &Store, remote: &mut Store, path: &String, now: u64) -> (r: Result<
    (),
    FileInfoError,
>)
    requires
        local.wf(),
        old(remote).wf(),
    ensures
        final(remote).wf(),
        r is Ok <==> store_has(local@, path@),
        r is Err ==> final(remote)@ == old(remote)@ && r->Err_0 == FileInfoError::NotFound,
        r is Ok ==> store_has(final(remote)@, path@) && store_lookup(final(remote)@, path@)
            == (FileRecordView { seconds: now, content: store_lookup(local@, path@).content }),
        r is Ok ==> forall|q: Seq<char>|
            q != path@ ==> #[trigger] store_has(final(remote)@, q) == store_has(old(remote)@, q),
        r is Ok ==> forall|q: Seq<char>|
            q != path@ && store_has(old(remote)@, q) ==> #[trigger] store_lookup(final(remote)@, q)
                == store_lookup(old(remote)@, q),
{
    match local.content(path) {
        Some(bytes) => {
            proof {
                lemma_store_lookup_member_fits(local@, path@);
            }
            remote.put(path, &bytes, now);
            Ok(())
        },
        None => Err(FileInfoError::NotFound),
    }
}

/// The record a lookup returns in a digest-bounded store fits the
/// digest bound itself.
proof fn lemma_store_lookup_member_fits(s: Seq<StoredFileView>, path: Seq<char>)
    requires
        store_has(s, path),
        forall|i: int|
            0 <= i < s.len() ==> fits_digest_input(#[trigger] s[i].record.content.len()),
    ensures
        fits_digest_input(store_lookup(s, path).content.len()),
    decreases s.len(),
{
    if s.len() > 0 && s[0].path != path {
        let w = choose|w: int| 0 <= w < s.len() && s[w].path == path;
        assert(w != 0);
        assert(s.drop_first()[w - 1] == s[w]);
        assert forall|i: int|
            0 <= i < s.drop_first().len() implies fits_digest_input(
            #[trigger] s.drop_first()[i].record.content.len(),
        ) by {
            assert(s.drop_first()[i] == s[i + 1]);
        }
        lemma_store_lookup_member_fits(s.drop_first(), path);
    }
}

/// Write the remote store's content at a path into the local store.
/// The local copy is a new write: its modification time is the pull
/// time, not the remote's timestamp.  Only that one local path
/// changes; a path the remote store lacks cannot be pulled.
pub fn pull_file(local: &mut Store, remote: &Store, path: &String, now: u64) -> (r: Result<
    (),
    FileInfoError,
>)
    requires
        old(local).wf(),
        remote.wf(),
    ensures
        final(local).wf(),
        r is Ok <==> store_has(remote@, path@),
        r is Err ==> final(local)@ == old(local)@ && r->Err_0 == FileInfoError::NotFound,
        r is Ok ==> store_has(final(local)@, path@) && store_lookup(final(local)@, path@)
            == (FileRecordView { seconds: now, content: store_lookup(remote@, path@).content }),
        r is Ok ==> forall|q: Seq<char>|
            q != path@ ==> #[trigger] store_has(final(local)@, q) == store_has(old(local)@, q),
        r is Ok ==> forall|q: Seq<char>|
            q != path@ && store_has(old(local)@, q) ==> #[trigger] store_lookup(final(local)@, q)
                == store_lookup(old(local)@, q),
{
    match remote.content(path) {
        Some(bytes) => {
            proof {
                lemma_store_lookup_member_fits(remote@, path@);
            }
            local.put(path, &bytes, now);
            Ok(())
        },
        None => Err(FileInfoError::NotFound),
    }
}

/// One reconciliation step for one identity, run against the two
/// stores: fingerprint both sides, decide, and carry the transfer
/// out.  The decision and the effect on the stores are exactly those
/// of the decision table.
pub fn sync_path(local: &mut Store, remote: &mut Store, path: &String, now: u64) -> (action:
    SyncAction)
    requires
        old(local).wf(),
        old(remote).wf(),
    ensures
        final(local).wf(),
        final(remote).wf(),
        action == spec_decide(
            store_info(old(local)@, path@),
            store_info(old(remote)@, path@),
        ),
        action is NoOp ==> final(local)@ == old(local)@ && final(remote)@ == old(remote)@,
        action is Push ==> final(local)@ == old(local)@ && store_lookup(final(remote)@, path@)
            == (FileRecordView {
            seconds: now,
            content: store_lookup(old(local)@, path@).content,
        }) && store_has(final(remote)@, path@),
        action is Pull ==> final(remote)@ == old(remote)@ && store_lookup(final(local)@, path@)
            == (FileRecordView {
            seconds: now,
            content: store_lookup(old(remote)@, path@).content,
        }) && store_has(final(local)@, path@),
        action is Push ==> forall|q: Seq<char>|
            q != path@ ==> #[trigger] store_has(final(remote)@, q) == store_has(old(remote)@, q),
        action is Pull ==> forall|q: Seq<char>|
            q != path@ ==> #[trigger] store_has(final(local)@, q) == store_has(old(local)@, q),
{
    let local_info = local.fingerprint(path);
    let remote_info = remote.fingerprint(path);
    let action = decide(&local_info, &remote_info);
    match action {
        SyncAction::NoOp => {
        },
        SyncAction::Push => {
            proof {
                assert(store_info(local@, path@).present);
                assert(store_has(local@, path@));
            }
            let pushed = push_file(local, remote, path, now);
            proof {
                assert(pushed is Ok);
            }
        },
        SyncAction::Pull => {
            proof {
                assert(store_info(remote@, path@).present);
                assert(store_has(remote@, path@));
            }
            let pulled = pull_file(local, remote, path, now);
            proof {
                assert(pulled is Ok);
            }
        },
    }
    action
}

/// Push round trip: after a push, re-fetching the remote fingerprint
/// reports the digest of the pushed local content.
pub proof fn lemma_push_round_trip(
    local: Seq<StoredFileView>,
    remote_after: Seq<StoredFileView>,
    path: Seq<char>,
)
    requires
        store_has(local, path),
        store_has(remote_after, path),
        store_lookup(remote_after, path).content == store_lookup(local, path).content,
    ensures
        store_info(remote_after, path).present,
        store_info(remote_after, path).digest == store_info(local, path).digest,
{
}

/// Pull round trip: after a pull at time `now`, the local fingerprint
/// reports the pre-pull remote digest, and the local modification
/// time is `now`, not the remote's timestamp.
pub proof fn lemma_pull_round_trip(
    local_after: Seq<StoredFileView>,
    remote: Seq<StoredFileView>,
    path: Seq<char>,
    now: u64,
)
    requires
        store_has(remote, path),
        store_has(local_after, path),
        store_lookup(local_after, path) == (FileRecordView {
            seconds: now,
            content: store_lookup(remote, path).content,
        }),
    ensures
        store_info(local_after, path).digest == store_info(remote, path).digest,
        store_info(local_after, path).seconds == now,
{
}

/// Once both stores hold the same content at an identity, the next
/// decision for it is `NoOp`: a completed transfer is not repeated.
pub proof fn lemma_sync_then_no_op(
    local: Seq<StoredFileView>,
    remote: Seq<StoredFileView>,
    path: Seq<char>,
)
    requires
        store_has(local, path),
        store_has(remote, path),
        store_lookup(local, path).content == store_lookup(remote, path).content,
    ensures
        spec_decide(store_info(local, path), store_info(remote, path)) == SyncAction::NoOp,
{
}

} // verus!
