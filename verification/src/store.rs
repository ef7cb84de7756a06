//! The in-memory storage index.
//!
//! `Database` holds the file records, tags, tag associations and watched
//! directories, and maintains the model's invariants: identifiers are
//! unique and positive, a path belongs to at most one `Active` record,
//! tag names are unique, tag use counts never go below zero, and there
//! is at most one association per `(file, tag)` pair.

use vstd::prelude::*;
use crate::models::{
    AppError, File, FileStatus, FileTag, SystemStats, Tag, TagType, WatchedDirectory,
    filters_opt_eq,
};
use crate::time::now_parts;

verus! {

/// The storage index.
#[derive(Debug)]
pub struct Database {
    pub files: Vec<File>,
    pub tags: Vec<Tag>,
    pub file_tags: Vec<FileTag>,
    pub watched_dirs: Vec<WatchedDirectory>,
    pub next_file_id: i64,
    pub next_tag_id: i64,
    pub next_dir_id: i64,
}

/// The number of `Active` records in `files`.
pub open spec fn count_active(files: Seq<File>) -> int
    decreases files.len(),
{
    if files.len() == 0 {
        0
    } else {
        count_active(files.drop_last()) + if files.last().status is Active {
            1int
        } else {
            0int
        }
    }
}

/// The number of enabled directories in `dirs`.
pub open spec fn count_enabled(dirs: Seq<WatchedDirectory>) -> int
    decreases dirs.len(),
{
    if dirs.len() == 0 {
        0
    } else {
        count_enabled(dirs.drop_last()) + if dirs.last().enabled {
            1int
        } else {
            0int
        }
    }
}

/// A tag's use count after one disassociation: decremented, floored at
/// zero.
pub open spec fn spec_use_count_after_remove(uc: i64) -> i64 {
    if uc > 0 {
        (uc - 1) as i64
    } else {
        uc
    }
}

/// A tag's use count after one association: incremented, saturating at
/// the largest count.
pub open spec fn spec_use_count_after_add(uc: i64) -> i64 {
    if uc < i64::MAX {
        (uc + 1) as i64
    } else {
        uc
    }
}

/// Disassociating never drives a use count below zero: from zero it
/// stays at zero, and from any non-negative count it stays non-negative.
pub proof fn lemma_use_count_never_negative(uc: i64)
    requires
        uc >= 0,
    ensures
        spec_use_count_after_remove(uc) >= 0,
        uc == 0 ==> spec_use_count_after_remove(uc) == 0,
{
}

impl Database {
    /// The invariants of the index.
    pub open spec fn wf(self) -> bool {
        &&& 1 <= self.next_file_id <= i64::MAX
        &&& 1 <= self.next_tag_id <= i64::MAX
        &&& 1 <= self.next_dir_id <= i64::MAX
        &&& self.files@.len() < self.next_file_id
        &&& self.tags@.len() < self.next_tag_id
        &&& self.watched_dirs@.len() < self.next_dir_id
        &&& forall|i: int|
            0 <= i < self.files@.len() ==> ((#[trigger] self.files@[i]).id matches Some(id) && 1
                <= id < self.next_file_id)
        &&& forall|i: int, j: int|
            0 <= i < j < self.files@.len() ==> self.files@[i].id != self.files@[j].id
        &&& forall|i: int, j: int|
            0 <= i < j < self.files@.len() ==> !(self.files@[i].status is Active
                && self.files@[j].status is Active && self.files@[i].path@
                == self.files@[j].path@)
        &&& forall|i: int|
            0 <= i < self.tags@.len() ==> ((#[trigger] self.tags@[i]).id matches Some(id) && 1
                <= id < self.next_tag_id)
        &&& forall|i: int, j: int|
            0 <= i < j < self.tags@.len() ==> self.tags@[i].id != self.tags@[j].id
        &&& forall|i: int, j: int|
            0 <= i < j < self.tags@.len() ==> self.tags@[i].name@ != self.tags@[j].name@
        &&& forall|i: int| 0 <= i < self.tags@.len() ==> (#[trigger] self.tags@[i]).use_count >= 0
        &&& forall|i: int, j: int|
            0 <= i < j < self.file_tags@.len() ==> !(self.file_tags@[i].file_id
                == self.file_tags@[j].file_id && self.file_tags@[i].tag_id
                == self.file_tags@[j].tag_id)
        &&& forall|i: int|
            0 <= i < self.watched_dirs@.len() ==> ((#[trigger] self.watched_dirs@[i]).id matches
                Some(id) && 1 <= id < self.next_dir_id)
        &&& forall|i: int, j: int|
            0 <= i < j < self.watched_dirs@.len() ==> self.watched_dirs@[i].id
                != self.watched_dirs@[j].id
    }

    /// Some record (of any status) has this path.
    pub open spec fn has_path(self, p: Seq<char>) -> bool {
        exists|i: int| 0 <= i < self.files@.len() && (#[trigger] self.files@[i]).path@ == p
    }

    /// Some `Active` record has this path.
    pub open spec fn has_active_path(self, p: Seq<char>) -> bool {
        exists|i: int|
            0 <= i < self.files@.len() && (#[trigger] self.files@[i]).status is Active
                && self.files@[i].path@ == p
    }

    /// `i` is the first index whose record has path `p`.
    pub open spec fn first_path_at(self, i: int, p: Seq<char>) -> bool {
        &&& 0 <= i < self.files@.len()
        &&& self.files@[i].path@ == p
        &&& forall|j: int| 0 <= j < i ==> self.files@[j].path@ != p
    }

    /// Some record has this identifier.
    pub open spec fn has_file_id(self, id: i64) -> bool {
        exists|i: int| 0 <= i < self.files@.len() && (#[trigger] self.files@[i]).id == Some(id)
    }

    /// The record at `i` has identifier `id`.
    pub open spec fn file_id_at(self, i: int, id: i64) -> bool {
        0 <= i < self.files@.len() && self.files@[i].id == Some(id)
    }

    /// Some tag has this name.
    pub open spec fn has_tag_name(self, n: Seq<char>) -> bool {
        exists|i: int| 0 <= i < self.tags@.len() && (#[trigger] self.tags@[i]).name@ == n
    }

    /// The tag at `i` has identifier `id`.
    pub open spec fn tag_id_at(self, i: int, id: i64) -> bool {
        0 <= i < self.tags@.len() && self.tags@[i].id == Some(id)
    }

    /// Some tag has this identifier.
    pub open spec fn has_tag_id(self, id: i64) -> bool {
        exists|i: int| 0 <= i < self.tags@.len() && (#[trigger] self.tags@[i]).id == Some(id)
    }

    /// The association at `i` links `fid` and `tid`.
    pub open spec fn pair_at(self, i: int, fid: i64, tid: i64) -> bool {
        0 <= i < self.file_tags@.len() && self.file_tags@[i].file_id == fid
            && self.file_tags@[i].tag_id == tid
    }

    /// Some association links `fid` and `tid`.
    pub open spec fn has_pair(self, fid: i64, tid: i64) -> bool {
        exists|i: int| #[trigger] self.pair_at(i, fid, tid)
    }

    /// The directory at `i` has identifier `id`.
    pub open spec fn dir_id_at(self, i: int, id: i64) -> bool {
        0 <= i < self.watched_dirs@.len() && self.watched_dirs@[i].id == Some(id)
    }

    /// Some `Active` record other than the one at `i` has the same path
    /// as the record at `i`.
    pub open spec fn active_path_elsewhere(self, i: int) -> bool {
        exists|j: int|
            0 <= j < self.files@.len() && j != i && (#[trigger] self.files@[j]).status is Active
                && self.files@[j].path@ == self.files@[i].path@
    }

    /// Everything but the file records is unchanged.
    pub open spec fn same_but_files(self, other: Database) -> bool {
        &&& self.tags@ == other.tags@
        &&& self.file_tags@ == other.file_tags@
        &&& self.watched_dirs@ == other.watched_dirs@
        &&& self.next_tag_id == other.next_tag_id
        &&& self.next_dir_id == other.next_dir_id
    }

    /// Everything but the tags is unchanged.
    pub open spec fn same_but_tags(self, other: Database) -> bool {
        &&& self.files@ == other.files@
        &&& self.file_tags@ == other.file_tags@
        &&& self.watched_dirs@ == other.watched_dirs@
        &&& self.next_file_id == other.next_file_id
        &&& self.next_dir_id == other.next_dir_id
    }

    /// Everything but tags and associations is unchanged.
    pub open spec fn same_but_tagging(self, other: Database) -> bool {
        &&& self.files@ == other.files@
        &&& self.watched_dirs@ == other.watched_dirs@
        &&& self.next_file_id == other.next_file_id
        &&& self.next_dir_id == other.next_dir_id
    }

    /// Everything but the watched directories is unchanged.
    pub open spec fn same_but_dirs(self, other: Database) -> bool {
        &&& self.files@ == other.files@
        &&& self.tags@ == other.tags@
        &&& self.file_tags@ == other.file_tags@
        &&& self.next_file_id == other.next_file_id
        &&& self.next_tag_id == other.next_tag_id
    }

    /// An empty index.
    pub fn new() -> (r: Database)
        ensures
            r.wf(),
            r.files@.len() == 0,
            r.tags@.len() == 0,
            r.file_tags@.len() == 0,
            r.watched_dirs@.len() == 0,
            r.next_file_id == 1,
            r.next_tag_id == 1,
            r.next_dir_id == 1,
    {
        Database {
            files: Vec::new(),
            tags: Vec::new(),
            file_tags: Vec::new(),
            watched_dirs: Vec::new(),
            next_file_id: 1,
            next_tag_id: 1,
            next_dir_id: 1,
        }
    }

    /// The index of the first record with this path, if any.
    fn find_path_index(&self, path: &str) -> (r: Option<usize>)
        ensures
            r matches Some(i) ==> self.first_path_at(i as int, path@),
            r is None ==> !self.has_path(path@),
    {
        let mut i: usize = 0;
        while i < self.files.len()
            invariant
                0 <= i <= self.files@.len(),
                forall|j: int| 0 <= j < i ==> self.files@[j].path@ != path@,
            decreases self.files@.len() - i,
        {
            if crate::text::str_eq(self.files[i].path.as_str(), path) {
                return Some(i);
            }
            i += 1;
        }
        None
    }

    /// The index of the first `Active` record with this path, if any.
    fn find_active_path_index(&self, path: &str) -> (r: Option<usize>)
        ensures
            r matches Some(i) ==> 0 <= i < self.files@.len() && self.files@[
                i as int
            ].status is Active && self.files@[i as int].path@ == path@,
            r is None ==> !self.has_active_path(path@),
    {
        let mut i: usize = 0;
        while i < self.files.len()
            invariant
                0 <= i <= self.files@.len(),
                forall|j: int|
                    0 <= j < i ==> !((#[trigger] self.files@[j]).status is Active
                        && self.files@[j].path@ == path@),
            decreases self.files@.len() - i,
        {
            let is_active = match self.files[i].status {
                FileStatus::Active => true,
                _ => false,
            };
            if is_active && crate::text::str_eq(self.files[i].path.as_str(), path) {
                return Some(i);
            }
            i += 1;
        }
        None
    }

    /// The index of the record with this identifier, if any.
    fn find_file_id_index(&self, id: i64) -> (r: Option<usize>)
        ensures
            r matches Some(i) ==> self.file_id_at(i as int, id),
            r is None ==> !self.has_file_id(id),
    {
        let mut i: usize = 0;
        while i < self.files.len()
            invariant
                0 <= i <= self.files@.len(),
                forall|j: int| 0 <= j < i ==> (#[trigger] self.files@[j]).id != Some(id),
            decreases self.files@.len() - i,
        {
            let found = match self.files[i].id {
                Some(x) => x == id,
                None => false,
            };
            if found {
                return Some(i);
            }
            i += 1;
        }
        None
    }

    /// Insert a file record and assign it a fresh identifier.
    ///
    /// Fails exactly when the record is `Active` and an `Active` record
    /// with the same path already exists, or the identifiers are
    /// exhausted; the index is unchanged on failure.
    pub fn create_file(&mut self, file: &File) -> (r: Result<i64, AppError>)
        requires
            old(self).wf(),
        ensures
            final(self).wf(),
            match r {
                Ok(id) => {
                    &&& !(file.status is Active && old(self).has_active_path(
                        file.path@,
                    ))
                    &&& old(self).next_file_id < i64::MAX
                    &&& id == old(self).next_file_id
                    &&& final(self).files@ == old(self).files@.push(
                        File { id: Some(id), ..*file },
                    )
                    &&& final(self).next_file_id == id + 1
                    &&& final(self).same_but_files(*old(self))
                },
                Err(_) => {
                    &&& (file.status is Active && old(self).has_active_path(file.path@))
                        || old(self).next_file_id == i64::MAX
                    &&& *final(self) == *old(self)
                },
            },
    {
        if self.next_file_id == i64::MAX {
            return Err(AppError::Unknown("file identifiers exhausted".to_owned()));
        }
        let conflict = match file.status {
            FileStatus::Active => match self.find_active_path_index(file.path.as_str()) {
                Some(_) => true,
                None => false,
            },
            _ => false,
        };
        if conflict {
            return Err(
                AppError::Database("an active record with this path already exists".to_owned()),
            );
        }
        let id = self.next_file_id;
        let mut stored = file.clone();
        stored.id = Some(id);
        assert(stored == (File { id: Some(id), ..*file }));
        self.files.push(stored);
        self.next_file_id = id + 1;
        Ok(id)
    }

    /// Look up the first record (of any status) with this path.
    pub fn get_file_by_path(&self, path: &str) -> (r: Option<File>)
        ensures
            match r {
                Some(f) => exists|i: int| self.first_path_at(i, path@) && f == self.files@[i],
                None => !self.has_path(path@),
            },
    {
        match self.find_path_index(path) {
            Some(i) => Some(self.files[i].clone()),
            None => None,
        }
    }

    /// Look up the record with this identifier.
    pub fn get_file_by_id(&self, id: i64) -> (r: Option<File>)
        ensures
            match r {
                Some(f) => exists|i: int| self.file_id_at(i, id) && f == self.files@[i],
                None => !self.has_file_id(id),
            },
    {
        match self.find_file_id_index(id) {
            Some(i) => Some(self.files[i].clone()),
            None => None,
        }
    }

    /// Set the status of the record with this identifier.
    ///
    /// Setting a record back to `Active` fails when another `Active`
    /// record holds the same path; a missing identifier changes nothing.
    pub fn update_file_status(&mut self, id: i64, status: FileStatus) -> (r: Result<
        (),
        AppError,
    >)
        requires
            old(self).wf(),
        ensures
            final(self).wf(),
            !old(self).has_file_id(id) ==> r is Ok && *final(self) == *old(self),
            forall|i: int|
                old(self).file_id_at(i, id) ==> {
                    let conflict = status is Active && old(self).active_path_elsewhere(i);
                    if conflict {
                        r is Err && *final(self) == *old(self)
                    } else {
                        &&& r is Ok
                        &&& final(self).files@ == old(self).files@.update(
                            i,
                            File { status, ..old(self).files@[i] },
                        )
                        &&& final(self).next_file_id == old(self).next_file_id
                        &&& final(self).same_but_files(*old(self))
                    }
                },
    {
        let idx = match self.find_file_id_index(id) {
            Some(i) => i,
            None => {
                return Ok(());
            },
        };
        let is_active = match status {
            FileStatus::Active => true,
            _ => false,
        };
        if is_active {
            let ghost i = idx as int;
            match self.find_active_path_index(self.files[idx].path.as_str()) {
                Some(j) if j != idx => {
                    return Err(
                        AppError::Database(
                            "an active record with this path already exists".to_owned(),
                        ),
                    );
                },
                _ => {},
            }
        }
        let mut rec = self.files[idx].clone();
        rec.status = status;
        assert(rec == (File { status, ..self.files@[idx as int] }));
        self.files.set(idx, rec);
        Ok(())
    }

    /// Remove the record with this identifier; a missing identifier
    /// changes nothing.
    pub fn delete_file(&mut self, id: i64) -> (r: Result<(), AppError>)
        requires
            old(self).wf(),
        ensures
            final(self).wf(),
            r is Ok,
            !old(self).has_file_id(id) ==> *final(self) == *old(self),
            forall|i: int|
                old(self).file_id_at(i, id) ==> {
                    &&& final(self).files@ == old(self).files@.remove(i)
                    &&& final(self).next_file_id == old(self).next_file_id
                    &&& final(self).same_but_files(*old(self))
                },
    {
        match self.find_file_id_index(id) {
            Some(i) => {
                self.files.remove(i);
                Ok(())
            },
            None => Ok(()),
        }
    }

    /// The number of `Active` records.
    pub fn get_file_count(&self) -> (r: i64)
        requires
            self.wf(),
        ensures
            r == count_active(self.files@),
    {
        let mut c: i64 = 0;
        let mut i: usize = 0;
        while i < self.files.len()
            invariant
                0 <= i <= self.files@.len(),
                self.files@.len() < i64::MAX,
                0 <= c <= i,
                c == count_active(self.files@.subrange(0, i as int)),
            decreases self.files@.len() - i,
        {
            let is_active = match self.files[i].status {
                FileStatus::Active => true,
                _ => false,
            };
            proof {
                assert(self.files@.subrange(0, i + 1).drop_last() =~= self.files@.subrange(
                    0,
                    i as int,
                ));
            }
            if is_active {
                c += 1;
            }
            i += 1;
        }
        proof {
            assert(self.files@.subrange(0, self.files@.len() as int) =~= self.files@);
        }
        c
    }
    /// The index of the tag with this name, if any.
    fn find_tag_name_index(&self, name: &str) -> (r: Option<usize>)
        ensures
            r matches Some(i) ==> 0 <= i < self.tags@.len() && self.tags@[i as int].name@ == name@,
            r is None ==> !self.has_tag_name(name@),
    {
        let mut i: usize = 0;
        while i < self.tags.len()
            invariant
                0 <= i <= self.tags@.len(),
                forall|j: int| 0 <= j < i ==> (#[trigger] self.tags@[j]).name@ != name@,
            decreases self.tags@.len() - i,
        {
            if crate::text::str_eq(self.tags[i].name.as_str(), name) {
                return Some(i);
            }
            i += 1;
        }
        None
    }

    /// The index of the tag with this identifier, if any.
    fn find_tag_id_index(&self, id: i64) -> (r: Option<usize>)
        ensures
            r matches Some(i) ==> self.tag_id_at(i as int, id),
            r is None ==> !self.has_tag_id(id),
    {
        let mut i: usize = 0;
        while i < self.tags.len()
            invariant
                0 <= i <= self.tags@.len(),
                forall|j: int| 0 <= j < i ==> (#[trigger] self.tags@[j]).id != Some(id),
            decreases self.tags@.len() - i,
        {
            let found = match self.tags[i].id {
                Some(x) => x == id,
                None => false,
            };
            if found {
                return Some(i);
            }
            i += 1;
        }
        None
    }

    /// The index of the association linking `fid` and `tid`, if any.
    fn find_pair_index(&self, fid: i64, tid: i64) -> (r: Option<usize>)
        ensures
            r matches Some(i) ==> self.pair_at(i as int, fid, tid),
            r is None ==> !self.has_pair(fid, tid),
    {
        let mut i: usize = 0;
        while i < self.file_tags.len()
            invariant
                0 <= i <= self.file_tags@.len(),
                forall|j: int| 0 <= j < i ==> !self.pair_at(j, fid, tid),
            decreases self.file_tags@.len() - i,
        {
            if self.file_tags[i].file_id == fid && self.file_tags[i].tag_id == tid {
                return Some(i);
            }
            i += 1;
        }
        assert(forall|j: int| #[trigger] self.pair_at(j, fid, tid) ==> false);
        None
    }

    /// Insert a tag and assign it a fresh identifier.
    ///
    /// Fails exactly when a tag with the same name exists, the given use
    /// count is negative, or the identifiers are exhausted; the index is
    /// unchanged on failure.
    pub fn create_tag(&mut self, tag: &Tag) -> (r: Result<i64, AppError>)
        requires
            old(self).wf(),
        ensures
            final(self).wf(),
            match r {
                Ok(id) => {
                    &&& !old(self).has_tag_name(tag.name@)
                    &&& tag.use_count >= 0
                    &&& old(self).next_tag_id < i64::MAX
                    &&& id == old(self).next_tag_id
                    &&& final(self).tags@ == old(self).tags@.push(Tag { id: Some(id), ..*tag })
                    &&& final(self).next_tag_id == id + 1
                    &&& final(self).same_but_tags(*old(self))
                },
                Err(_) => {
                    &&& old(self).has_tag_name(tag.name@) || tag.use_count < 0 || old(
                        self,
                    ).next_tag_id == i64::MAX
                    &&& *final(self) == *old(self)
                },
            },
    {
        if self.next_tag_id == i64::MAX {
            return Err(AppError::Unknown("tag identifiers exhausted".to_owned()));
        }
        if tag.use_count < 0 {
            return Err(AppError::Database("a use count must not be negative".to_owned()));
        }
        match self.find_tag_name_index(tag.name.as_str()) {
            Some(_) => Err(AppError::Database("a tag with this name already exists".to_owned())),
            None => {
                let id = self.next_tag_id;
                let mut stored = tag.clone();
                stored.id = Some(id);
                assert(stored == (Tag { id: Some(id), ..*tag }));
                self.tags.push(stored);
                self.next_tag_id = id + 1;
                Ok(id)
            },
        }
    }

    /// Look up the tag with this name.
    pub fn get_tag_by_name(&self, name: &str) -> (r: Option<Tag>)
        ensures
            match r {
                Some(t) => exists|i: int|
                    0 <= i < self.tags@.len() && t == self.tags@[i] && t.name@ == name@,
                None => !self.has_tag_name(name@),
            },
    {
        match self.find_tag_name_index(name) {
            Some(i) => Some(self.tags[i].clone()),
            None => None,
        }
    }

    /// All tags, in insertion order.
    pub fn get_all_tags(&self) -> (r: Vec<Tag>)
        ensures
            r@ == self.tags@,
    {
        let mut out: Vec<Tag> = Vec::new();
        let mut i: usize = 0;
        while i < self.tags.len()
            invariant
                0 <= i <= self.tags@.len(),
                out@.len() == i,
                forall|k: int| 0 <= k < i ==> out@[k] == self.tags@[k],
            decreases self.tags@.len() - i,
        {
            out.push(self.tags[i].clone());
            i += 1;
        }
        assert(out@ =~= self.tags@);
        out
    }

    /// The tag at `j` is associated with the file `fid`.
    pub open spec fn tag_linked(self, fid: i64, j: int) -> bool {
        &&& 0 <= j < self.tags@.len()
        &&& self.tags@[j].id matches Some(tid) && self.has_pair(fid, tid)
    }

    /// `t` is one of the tags that an association of `fid` leads to.
    pub open spec fn is_linked_tag(self, fid: i64, t: Tag) -> bool {
        exists|j: int| #[trigger] self.tag_linked(fid, j) && t == self.tags@[j]
    }

    /// The tags associated with a file: every tag some association of
    /// `file_id` leads to, and nothing else.
    pub fn get_tags_by_file(&self, file_id: i64) -> (r: Vec<Tag>)
        ensures
            forall|k: int|
                0 <= k < r@.len() ==> self.is_linked_tag(file_id, #[trigger] r@[k]),
            forall|j: int| #[trigger] self.tag_linked(file_id, j) ==> r@.contains(self.tags@[j]),
    {
        let mut out: Vec<Tag> = Vec::new();
        let mut j: usize = 0;
        while j < self.tags.len()
            invariant
                0 <= j <= self.tags@.len(),
                forall|k: int|
                    0 <= k < out@.len() ==> self.is_linked_tag(file_id, #[trigger] out@[k]),
                forall|t: int|
                    #[trigger] self.tag_linked(file_id, t) && t < j ==> out@.contains(
                        self.tags@[t],
                    ),
            decreases self.tags@.len() - j,
        {
            let linked = match self.tags[j].id {
                Some(tid) => match self.find_pair_index(file_id, tid) {
                    Some(_) => true,
                    None => false,
                },
                None => false,
            };
            if linked {
                let ghost old_out = out@;
                out.push(self.tags[j].clone());
                proof {
                    assert(self.tag_linked(file_id, j as int));
                    assert(out@[out@.len() - 1] == self.tags@[j as int]);
                    assert(self.is_linked_tag(file_id, out@[out@.len() - 1]));
                    assert(forall|k: int| 0 <= k < old_out.len() ==> out@[k] == old_out[k]);
                    assert forall|t: int|
                        #[trigger] self.tag_linked(file_id, t) && t < j + 1 implies out@.contains(
                        self.tags@[t],
                    ) by {
                        if t < j as int {
                            let k = choose|k: int|
                                0 <= k < old_out.len() && old_out[k] == self.tags@[t];
                            assert(out@[k] == self.tags@[t]);
                        } else {
                            assert(out@[out@.len() - 1] == self.tags@[t]);
                        }
                    };
                }
            } else {
                proof {
                    assert(!self.tag_linked(file_id, j as int));
                }
            }
            j += 1;
        }
        out
    }

    /// Any two associations of the same pair are the same association.
    pub proof fn lemma_pair_index_unique(self, fid: i64, tid: i64, a: int, b: int)
        requires
            self.wf(),
            self.pair_at(a, fid, tid),
            self.pair_at(b, fid, tid),
        ensures
            a == b,
    {
    }

    /// Associate a tag with a file, replacing any existing association
    /// of the pair, and increment the tag's use count, saturating at the
    /// largest count.
    #[verifier::rlimit(40)]
    pub fn add_tag_to_file(&mut self, file_id: i64, tag_id: i64, is_auto: bool) -> (r: Result<
        (),
        AppError,
    >)
        requires
            old(self).wf(),
        ensures
            final(self).wf(),
            r is Ok,
            final(self).has_pair(file_id, tag_id),
            !old(self).has_pair(file_id, tag_id) ==> {
                &&& final(self).file_tags@.drop_last() == old(self).file_tags@
                &&& final(self).file_tags@.last().file_id == file_id
                &&& final(self).file_tags@.last().tag_id == tag_id
                &&& final(self).file_tags@.last().is_auto == is_auto
            },
            forall|i: int|
                old(self).pair_at(i, file_id, tag_id) ==> {
                    &&& final(self).file_tags@.len() == old(self).file_tags@.len()
                    &&& final(self).file_tags@[i].file_id == file_id
                    &&& final(self).file_tags@[i].tag_id == tag_id
                    &&& final(self).file_tags@[i].is_auto == is_auto
                    &&& forall|k: int|
                        0 <= k < old(self).file_tags@.len() && k != i
                            ==> final(self).file_tags@[k] == old(self).file_tags@[k]
                },
            !old(self).has_tag_id(tag_id) ==> final(self).tags@ == old(self).tags@,
            forall|j: int|
                old(self).tag_id_at(j, tag_id) ==> final(self).tags@ == old(self).tags@.update(
                    j,
                    Tag {
                        use_count: spec_use_count_after_add(old(self).tags@[j].use_count),
                        ..old(self).tags@[j]
                    },
                ),
            final(self).same_but_tagging(*old(self)),
            final(self).next_tag_id == old(self).next_tag_id,
            final(self).tags@.len() == old(self).tags@.len(),
            forall|j: int|
                0 <= j < old(self).tags@.len() ==> (#[trigger] final(self).tags@[j]).id == old(
                    self,
                ).tags@[j].id && final(self).tags@[j].name@ == old(self).tags@[j].name@,
            forall|f2: i64, t2: i64|
                #[trigger] old(self).has_pair(f2, t2) ==> final(self).has_pair(f2, t2),
            forall|f2: i64, t2: i64|
                #[trigger] final(self).has_pair(f2, t2) ==> old(self).has_pair(f2, t2) || (f2
                    == file_id && t2 == tag_id),
            exists|pi: int|
                #[trigger] final(self).pair_at(pi, file_id, tag_id)
                    && final(self).file_tags@[pi].is_auto == is_auto,
    {
        let now = now_parts();
        let pair_idx = self.find_pair_index(file_id, tag_id);
        match pair_idx {
            Some(i) => {
                proof {
                    assert forall|k: int|
                        old(self).pair_at(k, file_id, tag_id) implies k == i as int by {
                        old(self).lemma_pair_index_unique(file_id, tag_id, k, i as int);
                    };
                }
                let updated = FileTag { file_id, tag_id, is_auto, created_at: now.ts };
                self.file_tags.set(i, updated);
            },
            None => {
                proof {
                    assert forall|k: int|
                        0 <= k < self.file_tags@.len() implies !(self.file_tags@[k].file_id
                        == file_id && self.file_tags@[k].tag_id == tag_id) by {
                        assert(!self.pair_at(k, file_id, tag_id));
                    };
                }
                self.file_tags.push(
                    FileTag { file_id, tag_id, is_auto, created_at: now.ts },
                );
            },
        }
        let ghost pi: int = if pair_idx is Some {
            pair_idx->0 as int
        } else {
            self.file_tags@.len() - 1
        };
        proof {
            assert(self.pair_at(pi, file_id, tag_id));
        }
        match self.find_tag_id_index(tag_id) {
            Some(j) => {
                let mut t = self.tags[j].clone();
                if t.use_count < i64::MAX {
                    t.use_count = t.use_count + 1;
                }
                assert(t == (Tag {
                    use_count: spec_use_count_after_add(self.tags@[j as int].use_count),
                    ..self.tags@[j as int]
                }));
                self.tags.set(j, t);
            },
            None => {},
        }
        proof {
            assert(self.pair_at(pi, file_id, tag_id));
            assert(self.file_tags@[pi].is_auto == is_auto);
            assert forall|f2: i64, t2: i64|
                #[trigger] old(self).has_pair(f2, t2) implies self.has_pair(f2, t2) by {
                let i = choose|i: int| old(self).pair_at(i, f2, t2);
                if pair_idx matches Some(i0) && i == i0 as int {
                    assert(self.pair_at(pi, f2, t2));
                } else {
                    assert(self.pair_at(i, f2, t2));
                }
            };
            assert forall|f2: i64, t2: i64|
                #[trigger] self.has_pair(f2, t2) && !(f2 == file_id && t2 == tag_id)
                    implies old(self).has_pair(f2, t2) by {
                let i2 = choose|i2: int| self.pair_at(i2, f2, t2);
                assert(i2 != pi);
                if pair_idx is Some {
                    assert(old(self).pair_at(i2, f2, t2));
                } else {
                    assert(i2 < old(self).file_tags@.len());
                    assert(old(self).pair_at(i2, f2, t2));
                }
            };
        }
        Ok(())
    }

    /// Remove the association between a file and a tag, and decrement
    /// the tag's use count, floored at zero. The count is decremented
    /// even when no association existed, as one disassociation request.
    #[verifier::rlimit(40)]
    pub fn remove_tag_from_file(&mut self, file_id: i64, tag_id: i64) -> (r: Result<
        (),
        AppError,
    >)
        requires
            old(self).wf(),
        ensures
            final(self).wf(),
            r is Ok,
            !old(self).has_pair(file_id, tag_id) ==> final(self).file_tags@ == old(
                self,
            ).file_tags@,
            forall|i: int|
                old(self).pair_at(i, file_id, tag_id) ==> final(self).file_tags@ == old(
                    self,
                ).file_tags@.remove(i),
            !old(self).has_tag_id(tag_id) ==> final(self).tags@ == old(self).tags@,
            forall|j: int|
                old(self).tag_id_at(j, tag_id) ==> final(self).tags@ == old(self).tags@.update(
                    j,
                    Tag {
                        use_count: spec_use_count_after_remove(old(self).tags@[j].use_count),
                        ..old(self).tags@[j]
                    },
                ),
            final(self).same_but_tagging(*old(self)),
    {
        match self.find_tag_id_index(tag_id) {
            Some(j) => {
                let mut t = self.tags[j].clone();
                if t.use_count > 0 {
                    t.use_count = t.use_count - 1;
                }
                assert(t == (Tag {
                    use_count: spec_use_count_after_remove(self.tags@[j as int].use_count),
                    ..self.tags@[j as int]
                }));
                self.tags.set(j, t);
            },
            None => {},
        }
        proof {
            assert(self.file_tags@ == old(self).file_tags@);
        }
        match self.find_pair_index(file_id, tag_id) {
            Some(i) => {
                proof {
                    assert(old(self).pair_at(i as int, file_id, tag_id));
                    assert forall|k: int|
                        old(self).pair_at(k, file_id, tag_id) implies k == i as int by {
                        old(self).lemma_pair_index_unique(file_id, tag_id, k, i as int);
                    };
                }
                self.file_tags.remove(i);
            },
            None => {
                proof {
                    assert forall|k: int| !old(self).pair_at(k, file_id, tag_id) by {
                        assert(!self.pair_at(k, file_id, tag_id));
                    };
                    assert(!old(self).has_pair(file_id, tag_id));
                }
            },
        }
        Ok(())
    }

    /// Some tag carries `name` and is associated with the file `fid`.
    pub open spec fn name_pair_linked(self, fid: i64, name: Seq<char>) -> bool {
        exists|j: int|
            {
                &&& 0 <= j < self.tags@.len()
                &&& (#[trigger] self.tags@[j]).name@ == name
                &&& self.tags@[j].id matches Some(tid) && self.has_pair(fid, tid)
            }
    }

    /// Associate the tag with this name with a file, provisioning the
    /// tag as a `System` tag when it does not exist yet: an existing
    /// tag is reused, a provisioned one carries the name as display
    /// name, the default colour and one use; no other tag is created
    /// and no other association added.
    ///
    /// Fails exactly when the tag had to be created and the tag
    /// identifiers are exhausted.
    pub fn add_tag_to_file_by_name(&mut self, file_id: i64, tag_name: &str, is_auto: bool) -> (r:
        Result<(), AppError>)
        requires
            old(self).wf(),
        ensures
            final(self).wf(),
            final(self).files@ == old(self).files@,
            final(self).watched_dirs@ == old(self).watched_dirs@,
            final(self).next_file_id == old(self).next_file_id,
            final(self).next_dir_id == old(self).next_dir_id,
            final(self).next_tag_id >= old(self).next_tag_id,
            r is Err <==> !old(self).has_tag_name(tag_name@) && old(self).next_tag_id
                == i64::MAX,
            r is Err ==> *final(self) == *old(self),
            r is Ok ==> final(self).name_pair_linked(file_id, tag_name@),
            forall|f2: i64, t2: i64|
                #[trigger] old(self).has_pair(f2, t2) ==> final(self).has_pair(f2, t2),
            final(self).tags@.len() >= old(self).tags@.len(),
            forall|j: int|
                0 <= j < old(self).tags@.len() ==> (#[trigger] final(self).tags@[j]).name@ == old(
                    self,
                ).tags@[j].name@ && final(self).tags@[j].id == old(self).tags@[j].id,
            forall|n2: Seq<char>|
                #[trigger] final(self).has_tag_name(n2) ==> old(self).has_tag_name(n2) || n2
                    == tag_name@,
            r is Ok ==> final(self).tags@.len() == old(self).tags@.len() + (
            if old(self).has_tag_name(tag_name@) {
                0int
            } else {
                1int
            }),
            forall|f2: i64, t2: i64|
                #[trigger] final(self).has_pair(f2, t2) && !old(self).has_pair(f2, t2) ==> f2
                    == file_id && (exists|j: int|
                    0 <= j < final(self).tags@.len() && (#[trigger] final(self).tags@[j]).name@
                        == tag_name@ && final(self).tags@[j].id == Some(t2)),
            r is Ok ==> forall|j: int|
                0 <= j < final(self).tags@.len() && (#[trigger] final(self).tags@[j]).name@
                    == tag_name@ ==> {
                    &&& final(self).tags@[j].id matches Some(tid) && (exists|pi: int|
                        #[trigger] final(self).pair_at(pi, file_id, tid)
                            && final(self).file_tags@[pi].is_auto == is_auto)
                    &&& !old(self).has_tag_name(tag_name@) ==> {
                        &&& final(self).tags@[j].tag_type is System
                        &&& final(self).tags@[j].display_name@ == tag_name@
                        &&& final(self).tags@[j].color@ == "#007ACC"@
                        &&& final(self).tags@[j].use_count == 1
                    }
                },
    {
        let ghost mut wj: int = 0;
        let tag_id: i64 = match self.get_tag_by_name(tag_name) {
            Some(t) => {
                proof {
                    wj = choose|i: int|
                        0 <= i < self.tags@.len() && t == self.tags@[i] && t.name@ == tag_name@;
                    assert(self.tags@[wj].name@ == tag_name@);
                    assert(self.tags@[wj].id == t.id);
                    assert(old(self).has_tag_name(tag_name@));
                }
                match t.id {
                    Some(tid) => tid,
                    None => {
                        proof {
                            assert(false);
                        }
                        0
                    },
                }
            },
            None => {
                let now = now_parts();
                let fresh = Tag {
                    id: None,
                    name: tag_name.to_owned(),
                    display_name: tag_name.to_owned(),
                    tag_type: TagType::System,
                    color: "#007ACC".to_owned(),
                    icon: None,
                    use_count: 0,
                    created_at: now.ts,
                };
                match self.create_tag(&fresh) {
                    Ok(tid) => {
                        proof {
                            wj = self.tags@.len() - 1;
                        }
                        tid
                    },
                    Err(e) => {
                        return Err(e);
                    },
                }
            },
        };
        let ghost mid = *self;
        proof {
            assert(mid.tags@[wj].name@ == tag_name@ && mid.tags@[wj].id == Some(tag_id));
            assert(exists|j: int|
                0 <= j < mid.tags@.len() && (#[trigger] mid.tags@[j]).name@ == tag_name@
                    && mid.tags@[j].id == Some(tag_id));
        }
        let res = self.add_tag_to_file(file_id, tag_id, is_auto);
        proof {
            assert(self.tags@[wj].name@ == tag_name@ && self.tags@[wj].id == Some(tag_id));
            assert(self.has_pair(file_id, tag_id));
            assert(self.name_pair_linked(file_id, tag_name@));
            assert forall|f2: i64, t2: i64|
                #[trigger] old(self).has_pair(f2, t2) implies self.has_pair(f2, t2) by {
                let i = choose|i: int| old(self).pair_at(i, f2, t2);
                assert(mid.pair_at(i, f2, t2));
                assert(mid.has_pair(f2, t2));
            };
            assert forall|n2: Seq<char>|
                #[trigger] self.has_tag_name(n2) && n2 != tag_name@ implies old(
                self,
            ).has_tag_name(n2) by {
                let j2 = choose|j2: int|
                    0 <= j2 < self.tags@.len() && (#[trigger] self.tags@[j2]).name@ == n2;
                assert(j2 != wj);
                assert(j2 < old(self).tags@.len());
                assert(old(self).tags@[j2].name@ == n2);
            };
            assert forall|f2: i64, t2: i64|
                #[trigger] self.has_pair(f2, t2) && !old(self).has_pair(f2, t2) implies f2
                == file_id && (exists|j2: int|
                0 <= j2 < self.tags@.len() && (#[trigger] self.tags@[j2]).name@ == tag_name@
                    && self.tags@[j2].id == Some(t2)) by {
                if !(f2 == file_id && t2 == tag_id) {
                    let i2 = choose|i2: int| mid.pair_at(i2, f2, t2);
                    assert(old(self).pair_at(i2, f2, t2));
                    assert(false);
                }
                assert(self.tags@[wj].name@ == tag_name@ && self.tags@[wj].id == Some(t2));
            };
            assert forall|j2: int|
                0 <= j2 < self.tags@.len() && (#[trigger] self.tags@[j2]).name@
                    == tag_name@ implies j2 == wj by {
                if j2 != wj {
                    assert(self.tags@[j2].name@ != self.tags@[wj].name@);
                }
            };
            assert(mid.tag_id_at(wj, tag_id));
            assert(self.tags@ == mid.tags@.update(
                wj,
                Tag {
                    use_count: spec_use_count_after_add(mid.tags@[wj].use_count),
                    ..mid.tags@[wj]
                },
            ));
            if !old(self).has_tag_name(tag_name@) {
                assert(mid.tags@[wj].tag_type is System);
                assert(mid.tags@[wj].display_name@ == tag_name@);
                assert(mid.tags@[wj].color@ == "#007ACC"@);
                assert(mid.tags@[wj].use_count == 0);
                assert(self.tags@[wj].use_count == 1);
                assert(self.tags@[wj].tag_type is System);
                assert(self.tags@[wj].display_name@ == tag_name@);
                assert(self.tags@[wj].color@ == "#007ACC"@);
            }
        }
        res
    }

    /// Associate every named tag that already exists with every listed
    /// file; names without a tag are skipped. Tags are neither created
    /// nor renamed.
    pub fn batch_add_tags(&mut self, file_ids: &[i64], tag_names: &[String]) -> (r: Result<
        (),
        AppError,
    >)
        requires
            old(self).wf(),
        ensures
            final(self).wf(),
            r is Ok,
            final(self).files@ == old(self).files@,
            final(self).watched_dirs@ == old(self).watched_dirs@,
            final(self).next_file_id == old(self).next_file_id,
            final(self).next_dir_id == old(self).next_dir_id,
            final(self).next_tag_id == old(self).next_tag_id,
            final(self).tags@.len() == old(self).tags@.len(),
            forall|j: int|
                0 <= j < old(self).tags@.len() ==> (#[trigger] final(self).tags@[j]).id == old(
                    self,
                ).tags@[j].id && final(self).tags@[j].name@ == old(self).tags@[j].name@,
            forall|a: int, b: int|
                0 <= a < file_ids@.len() && 0 <= b < tag_names@.len() && old(self).has_tag_name(
                    #[trigger] tag_names@[b]@,
                ) ==> final(self).name_pair_linked(#[trigger] file_ids@[a], tag_names@[b]@),
    {
        let mut a: usize = 0;
        while a < file_ids.len()
            invariant
                old(self).wf(),
                self.wf(),
                0 <= a <= file_ids@.len(),
                self.files@ == old(self).files@,
                self.watched_dirs@ == old(self).watched_dirs@,
                self.next_file_id == old(self).next_file_id,
                self.next_dir_id == old(self).next_dir_id,
                self.next_tag_id == old(self).next_tag_id,
                self.tags@.len() == old(self).tags@.len(),
                forall|j: int|
                    0 <= j < old(self).tags@.len() ==> (#[trigger] self.tags@[j]).id == old(
                        self,
                    ).tags@[j].id && self.tags@[j].name@ == old(self).tags@[j].name@,
                forall|a2: int, b2: int|
                    0 <= a2 < a && 0 <= b2 < tag_names@.len() && old(self).has_tag_name(
                        #[trigger] tag_names@[b2]@,
                    ) ==> self.name_pair_linked(#[trigger] file_ids@[a2], tag_names@[b2]@),
            decreases file_ids@.len() - a,
        {
            let fid = file_ids[a];
            let mut b: usize = 0;
            while b < tag_names.len()
                invariant
                    old(self).wf(),
                    self.wf(),
                    0 <= a < file_ids@.len(),
                    0 <= b <= tag_names@.len(),
                    fid == file_ids@[a as int],
                    self.files@ == old(self).files@,
                    self.watched_dirs@ == old(self).watched_dirs@,
                    self.next_file_id == old(self).next_file_id,
                    self.next_dir_id == old(self).next_dir_id,
                    self.next_tag_id == old(self).next_tag_id,
                    self.tags@.len() == old(self).tags@.len(),
                    forall|j: int|
                        0 <= j < old(self).tags@.len() ==> (#[trigger] self.tags@[j]).id == old(
                            self,
                        ).tags@[j].id && self.tags@[j].name@ == old(self).tags@[j].name@,
                    forall|a2: int, b2: int|
                        0 <= a2 < a && 0 <= b2 < tag_names@.len() && old(self).has_tag_name(
                            #[trigger] tag_names@[b2]@,
                        ) ==> self.name_pair_linked(#[trigger] file_ids@[a2], tag_names@[b2]@),
                    forall|b2: int|
                        0 <= b2 < b && old(self).has_tag_name(#[trigger] tag_names@[b2]@)
                            ==> self.name_pair_linked(fid, tag_names@[b2]@),
                decreases tag_names@.len() - b,
            {
                let ghost pre = *self;
                match self.get_tag_by_name(tag_names[b].as_str()) {
                    Some(t) => {
                        match t.id {
                            Some(tid) => {
                                let _ = self.add_tag_to_file(fid, tid, false);
                                proof {
                                    let j = choose|j: int|
                                        0 <= j < pre.tags@.len() && pre.tags@[j] == t;
                                    assert(self.tags@[j].name@ == tag_names@[b as int]@
                                        && self.tags@[j].id == Some(tid));
                                    assert(self.has_pair(fid, tid));
                                    assert(self.name_pair_linked(fid, tag_names@[b as int]@));
                                    assert forall|f2: i64, n2: Seq<char>|
                                        #[trigger] pre.name_pair_linked(f2, n2) implies self
                                        .name_pair_linked(f2, n2) by {
                                        let j2 = choose|j2: int|
                                            {
                                                &&& 0 <= j2 < pre.tags@.len()
                                                &&& (#[trigger] pre.tags@[j2]).name@ == n2
                                                &&& pre.tags@[j2].id matches Some(t2)
                                                    && pre.has_pair(f2, t2)
                                            };
                                        assert(self.tags@[j2].name@ == n2);
                                        assert(self.tags@[j2].id == pre.tags@[j2].id);
                                    };
                                }
                            },
                            None => {
                                proof {
                                    assert(false);
                                }
                            },
                        }
                    },
                    None => {
                        proof {
                            assert forall|j: int|
                                0 <= j < old(self).tags@.len() implies (#[trigger] old(
                                self,
                            ).tags@[j]).name@ != tag_names@[b as int]@ by {
                                assert(self.tags@[j].name@ == old(self).tags@[j].name@);
                            };
                        }
                    },
                }
                b += 1;
            }
            a += 1;
        }
        Ok(())
    }

    /// Remove the tag with this identifier. Associations and use counts
    /// of other tags are left as they are.
    pub fn delete_tag(&mut self, tag_id: i64) -> (r: Result<(), AppError>)
        requires
            old(self).wf(),
        ensures
            final(self).wf(),
            r is Ok,
            !old(self).has_tag_id(tag_id) ==> *final(self) == *old(self),
            forall|j: int|
                old(self).tag_id_at(j, tag_id) ==> {
                    &&& final(self).tags@ == old(self).tags@.remove(j)
                    &&& final(self).next_tag_id == old(self).next_tag_id
                    &&& final(self).same_but_tags(*old(self))
                },
    {
        match self.find_tag_id_index(tag_id) {
            Some(j) => {
                self.tags.remove(j);
                Ok(())
            },
            None => Ok(()),
        }
    }

    /// Change the display name and colour of the tag with this
    /// identifier; a missing identifier changes nothing.
    pub fn update_tag(&mut self, tag_id: i64, display_name: &str, color: &str) -> (r: Result<
        (),
        AppError,
    >)
        requires
            old(self).wf(),
        ensures
            final(self).wf(),
            r is Ok,
            !old(self).has_tag_id(tag_id) ==> *final(self) == *old(self),
            forall|j: int|
                old(self).tag_id_at(j, tag_id) ==> {
                    &&& final(self).tags@.len() == old(self).tags@.len()
                    &&& final(self).tags@[j].display_name@ == display_name@
                    &&& final(self).tags@[j].color@ == color@
                    &&& final(self).tags@[j].id == old(self).tags@[j].id
                    &&& final(self).tags@[j].name@ == old(self).tags@[j].name@
                    &&& final(self).tags@[j].use_count == old(self).tags@[j].use_count
                    &&& forall|k: int|
                        0 <= k < old(self).tags@.len() && k != j ==> final(self).tags@[k] == old(
                            self,
                        ).tags@[k]
                    &&& final(self).next_tag_id == old(self).next_tag_id
                    &&& final(self).same_but_tags(*old(self))
                },
    {
        match self.find_tag_id_index(tag_id) {
            Some(j) => {
                let mut t = self.tags[j].clone();
                t.display_name = display_name.to_owned();
                t.color = color.to_owned();
                self.tags.set(j, t);
                Ok(())
            },
            None => Ok(()),
        }
    }

    /// Register a watched directory and assign it a fresh identifier.
    pub fn create_watched_directory(&mut self, dir: &WatchedDirectory) -> (r: Result<
        i64,
        AppError,
    >)
        requires
            old(self).wf(),
        ensures
            final(self).wf(),
            match r {
                Ok(id) => {
                    &&& old(self).next_dir_id < i64::MAX
                    &&& id == old(self).next_dir_id
                    &&& final(self).watched_dirs@.len() == old(self).watched_dirs@.len() + 1
                    &&& final(self).watched_dirs@.subrange(
                        0,
                        old(self).watched_dirs@.len() as int,
                    ) == old(self).watched_dirs@
                    &&& final(self).watched_dirs@.last().id == Some(id)
                    &&& final(self).watched_dirs@.last().path == dir.path
                    &&& final(self).watched_dirs@.last().recursive == dir.recursive
                    &&& final(self).watched_dirs@.last().enabled == dir.enabled
                    &&& filters_opt_eq(final(self).watched_dirs@.last().filters, dir.filters)
                    &&& final(self).next_dir_id == id + 1
                    &&& final(self).same_but_dirs(*old(self))
                },
                Err(_) => {
                    &&& old(self).next_dir_id == i64::MAX
                    &&& *final(self) == *old(self)
                },
            },
    {
        if self.next_dir_id == i64::MAX {
            return Err(AppError::Unknown("directory identifiers exhausted".to_owned()));
        }
        let id = self.next_dir_id;
        let mut stored = dir.clone();
        stored.id = Some(id);
        self.watched_dirs.push(stored);
        self.next_dir_id = id + 1;
        proof {
            assert(self.watched_dirs@.subrange(0, old(self).watched_dirs@.len() as int)
                =~= old(self).watched_dirs@);
        }
        Ok(id)
    }

    /// All watched directories, in insertion order.
    pub fn get_watched_directories(&self) -> (r: Vec<WatchedDirectory>)
        ensures
            r@.len() == self.watched_dirs@.len(),
            forall|i: int|
                0 <= i < r@.len() ==> {
                    &&& (#[trigger] r@[i]).id == self.watched_dirs@[i].id
                    &&& r@[i].path == self.watched_dirs@[i].path
                    &&& r@[i].recursive == self.watched_dirs@[i].recursive
                    &&& filters_opt_eq(r@[i].filters, self.watched_dirs@[i].filters)
                    &&& r@[i].enabled == self.watched_dirs@[i].enabled
                    &&& r@[i].created_at == self.watched_dirs@[i].created_at
                    &&& r@[i].last_scanned_at == self.watched_dirs@[i].last_scanned_at
                },
    {
        let mut out: Vec<WatchedDirectory> = Vec::new();
        let mut i: usize = 0;
        while i < self.watched_dirs.len()
            invariant
                0 <= i <= self.watched_dirs@.len(),
                out@.len() == i,
                forall|k: int|
                    0 <= k < i ==> {
                        &&& (#[trigger] out@[k]).id == self.watched_dirs@[k].id
                        &&& out@[k].path == self.watched_dirs@[k].path
                        &&& out@[k].recursive == self.watched_dirs@[k].recursive
                        &&& filters_opt_eq(out@[k].filters, self.watched_dirs@[k].filters)
                        &&& out@[k].enabled == self.watched_dirs@[k].enabled
                        &&& out@[k].created_at == self.watched_dirs@[k].created_at
                        &&& out@[k].last_scanned_at == self.watched_dirs@[k].last_scanned_at
                    },
            decreases self.watched_dirs@.len() - i,
        {
            out.push(self.watched_dirs[i].clone());
            i += 1;
        }
        out
    }

    /// Remove the watched directory with this identifier; a missing
    /// identifier changes nothing.
    pub fn delete_watched_directory(&mut self, id: i64) -> (r: Result<(), AppError>)
        requires
            old(self).wf(),
        ensures
            final(self).wf(),
            r is Ok,
            !(exists|i: int| old(self).dir_id_at(i, id)) ==> *final(self) == *old(self),
            forall|i: int|
                old(self).dir_id_at(i, id) ==> final(self).watched_dirs@ == old(
                    self,
                ).watched_dirs@.remove(i) && final(self).next_dir_id == old(self).next_dir_id
                    && final(self).same_but_dirs(*old(self)),
    {
        let mut i: usize = 0;
        while i < self.watched_dirs.len()
            invariant
                *self == *old(self),
                old(self).wf(),
                0 <= i <= self.watched_dirs@.len(),
                forall|k: int| 0 <= k < i ==> (#[trigger] self.watched_dirs@[k]).id != Some(id),
            decreases self.watched_dirs@.len() - i,
        {
            let found = match self.watched_dirs[i].id {
                Some(x) => x == id,
                None => false,
            };
            if found {
                proof {
                    assert(old(self).dir_id_at(i as int, id));
                    assert forall|k: int| old(self).dir_id_at(k, id) implies k == i as int by {
                        if k < i as int {
                            assert(old(self).watched_dirs@[k].id != Some(id));
                        }
                    };
                }
                self.watched_dirs.remove(i);
                return Ok(());
            }
            i += 1;
        }
        Ok(())
    }

    /// Record the moment a directory was last scanned.
    pub fn update_directory_scan_time(&mut self, id: i64) -> (r: Result<(), AppError>)
        requires
            old(self).wf(),
        ensures
            final(self).wf(),
            r is Ok,
            !(exists|i: int| old(self).dir_id_at(i, id)) ==> *final(self) == *old(self),
            forall|i: int|
                old(self).dir_id_at(i, id) ==> {
                    &&& final(self).watched_dirs@.len() == old(self).watched_dirs@.len()
                    &&& final(self).watched_dirs@[i].last_scanned_at matches Some(ts) && ts >= 0
                    &&& final(self).watched_dirs@[i].id == old(self).watched_dirs@[i].id
                    &&& final(self).watched_dirs@[i].path == old(self).watched_dirs@[i].path
                    &&& final(self).watched_dirs@[i].recursive == old(
                        self,
                    ).watched_dirs@[i].recursive
                    &&& filters_opt_eq(
                        final(self).watched_dirs@[i].filters,
                        old(self).watched_dirs@[i].filters,
                    )
                    &&& final(self).watched_dirs@[i].enabled == old(self).watched_dirs@[i].enabled
                    &&& final(self).watched_dirs@[i].created_at == old(
                        self,
                    ).watched_dirs@[i].created_at
                    &&& forall|k: int|
                        0 <= k < old(self).watched_dirs@.len() && k != i
                            ==> final(self).watched_dirs@[k] == old(self).watched_dirs@[k]
                    &&& final(self).next_dir_id == old(self).next_dir_id
                    &&& final(self).same_but_dirs(*old(self))
                },
    {
        let now = now_parts();
        let mut i: usize = 0;
        while i < self.watched_dirs.len()
            invariant
                *self == *old(self),
                old(self).wf(),
                0 <= i <= self.watched_dirs@.len(),
                forall|k: int| 0 <= k < i ==> (#[trigger] self.watched_dirs@[k]).id != Some(id),
                now.ts >= 0,
            decreases self.watched_dirs@.len() - i,
        {
            let found = match self.watched_dirs[i].id {
                Some(x) => x == id,
                None => false,
            };
            if found {
                proof {
                    assert(old(self).dir_id_at(i as int, id));
                    assert forall|k: int| old(self).dir_id_at(k, id) implies k == i as int by {
                        if k < i as int {
                            assert(old(self).watched_dirs@[k].id != Some(id));
                        }
                    };
                }
                let mut d = self.watched_dirs[i].clone();
                d.last_scanned_at = Some(now.ts);
                self.watched_dirs.set(i, d);
                return Ok(());
            }
            i += 1;
        }
        Ok(())
    }

    /// Enable or disable the watched directory with this identifier.
    pub fn set_directory_enabled(&mut self, id: i64, enabled: bool) -> (r: Result<(), AppError>)
        requires
            old(self).wf(),
        ensures
            final(self).wf(),
            r is Ok,
            !(exists|i: int| old(self).dir_id_at(i, id)) ==> *final(self) == *old(self),
            forall|i: int|
                old(self).dir_id_at(i, id) ==> {
                    &&& final(self).watched_dirs@.len() == old(self).watched_dirs@.len()
                    &&& final(self).watched_dirs@[i].enabled == enabled
                    &&& final(self).watched_dirs@[i].id == old(self).watched_dirs@[i].id
                    &&& final(self).watched_dirs@[i].path == old(self).watched_dirs@[i].path
                    &&& final(self).watched_dirs@[i].recursive == old(
                        self,
                    ).watched_dirs@[i].recursive
                    &&& filters_opt_eq(
                        final(self).watched_dirs@[i].filters,
                        old(self).watched_dirs@[i].filters,
                    )
                    &&& final(self).watched_dirs@[i].created_at == old(
                        self,
                    ).watched_dirs@[i].created_at
                    &&& final(self).watched_dirs@[i].last_scanned_at == old(
                        self,
                    ).watched_dirs@[i].last_scanned_at
                    &&& forall|k: int|
                        0 <= k < old(self).watched_dirs@.len() && k != i
                            ==> final(self).watched_dirs@[k] == old(self).watched_dirs@[k]
                    &&& final(self).next_dir_id == old(self).next_dir_id
                    &&& final(self).same_but_dirs(*old(self))
                },
    {
        let mut i: usize = 0;
        while i < self.watched_dirs.len()
            invariant
                *self == *old(self),
                old(self).wf(),
                0 <= i <= self.watched_dirs@.len(),
                forall|k: int| 0 <= k < i ==> (#[trigger] self.watched_dirs@[k]).id != Some(id),
            decreases self.watched_dirs@.len() - i,
        {
            let found = match self.watched_dirs[i].id {
                Some(x) => x == id,
                None => false,
            };
            if found {
                proof {
                    assert(old(self).dir_id_at(i as int, id));
                    assert forall|k: int| old(self).dir_id_at(k, id) implies k == i as int by {
                        if k < i as int {
                            assert(old(self).watched_dirs@[k].id != Some(id));
                        }
                    };
                }
                let mut d = self.watched_dirs[i].clone();
                d.enabled = enabled;
                self.watched_dirs.set(i, d);
                return Ok(());
            }
            i += 1;
        }
        Ok(())
    }

    /// The number of enabled watched directories.
    fn enabled_dir_count(&self) -> (r: i64)
        requires
            self.wf(),
        ensures
            r == count_enabled(self.watched_dirs@),
    {
        let mut c: i64 = 0;
        let mut i: usize = 0;
        while i < self.watched_dirs.len()
            invariant
                0 <= i <= self.watched_dirs@.len(),
                self.watched_dirs@.len() < i64::MAX,
                0 <= c <= i,
                c == count_enabled(self.watched_dirs@.subrange(0, i as int)),
            decreases self.watched_dirs@.len() - i,
        {
            proof {
                assert(self.watched_dirs@.subrange(0, i + 1).drop_last()
                    =~= self.watched_dirs@.subrange(0, i as int));
            }
            if self.watched_dirs[i].enabled {
                c += 1;
            }
            i += 1;
        }
        proof {
            assert(self.watched_dirs@.subrange(0, self.watched_dirs@.len() as int)
                =~= self.watched_dirs@);
        }
        c
    }

    /// Counters describing the index: all records, `Active` records,
    /// tags, and enabled watched directories.
    pub fn get_stats(&self) -> (r: Result<SystemStats, AppError>)
        requires
            self.wf(),
        ensures
            r matches Ok(s) && s == (SystemStats {
                total_files: self.files@.len() as i64,
                indexed_files: count_active(self.files@) as i64,
                total_tags: self.tags@.len() as i64,
                watched_directories: count_enabled(self.watched_dirs@) as i64,
            }),
    {
        proof {
            lemma_count_active_bounds(self.files@);
            lemma_count_enabled_bounds(self.watched_dirs@);
        }
        Ok(
            SystemStats {
                total_files: self.files.len() as i64,
                indexed_files: self.get_file_count(),
                total_tags: self.tags.len() as i64,
                watched_directories: self.enabled_dir_count(),
            },
        )
    }
}

/// The count of `Active` records lies between zero and the length.
pub proof fn lemma_count_active_bounds(files: Seq<File>)
    ensures
        0 <= count_active(files) <= files.len(),
    decreases files.len(),
{
    if files.len() > 0 {
        lemma_count_active_bounds(files.drop_last());
    }
}

/// The count of enabled directories lies between zero and the length.
pub proof fn lemma_count_enabled_bounds(dirs: Seq<WatchedDirectory>)
    ensures
        0 <= count_enabled(dirs) <= dirs.len(),
    decreases dirs.len(),
{
    if dirs.len() > 0 {
        lemma_count_enabled_bounds(dirs.drop_last());
    }
}

} // verus!
