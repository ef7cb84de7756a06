//! Applying change events to the index.
//!
//! A create or modify signal indexes the path when it is unknown and
//! tags the fresh record with its file type's auto tag; a known path is
//! left as it is. A delete signal marks the first record with that path
//! `Deleted`. A move is applied as delete-old plus create-new, which
//! loses tag associations across a rename; scan-lifecycle and error
//! events change nothing. Each event is one storage step, so an aborted
//! consumer never leaves a half-applied event behind.

use vstd::prelude::*;
use crate::event::FileEvent;
use crate::models::{AppError, File, FileStatus, FileType};
use crate::paths::{extension_of, file_name_of, spec_extension, spec_file_name};
use crate::store::Database;
use crate::time::now_parts;

verus! {

/// The path a create or modify event upserts, if the event is one.
pub open spec fn spec_upsert_path(e: FileEvent) -> Option<Seq<char>> {
    match e {
        FileEvent::Created { path } => Some(path@),
        FileEvent::Modified { path } => Some(path@),
        _ => None,
    }
}

impl Database {
    /// The record appended for a newly indexed path carries the fields
    /// derived from the path, the observed size, and a uniform
    /// timestamp.
    pub open spec fn fresh_record_for(self, pre: Database, p: Seq<char>, size: u64) -> bool {
        &&& self.files@.len() == pre.files@.len() + 1
        &&& self.files@.drop_last() == pre.files@
        &&& ({
            let rec = self.files@.last();
            &&& rec.id == Some(pre.next_file_id)
            &&& rec.path@ == p
            &&& rec.name@ == spec_file_name(p)
            &&& rec.extension@ == spec_extension(spec_file_name(p))
            &&& rec.size == size
            &&& rec.file_type == crate::models::spec_type_of_ext(
                spec_extension(spec_file_name(p)),
            )
            &&& rec.status is Active
        })
    }

    /// What applying a create or modify signal guarantees.
    pub open spec fn upsert_post(
        self,
        pre: Database,
        p: Seq<char>,
        file_size: Option<u64>,
        ok: bool,
    ) -> bool {
        &&& (file_size is None ==> ok && self == pre)
        &&& (file_size is Some && pre.has_path(p) ==> ok && self == pre)
        &&& (file_size is Some && !pre.has_path(p)) ==> {
            &&& ok <==> pre.next_file_id < i64::MAX
            &&& !ok ==> self == pre
            &&& ok ==> {
                &&& self.fresh_record_for(pre, p, file_size->0)
                &&& self.has_active_path(p)
                &&& self.watched_dirs@ == pre.watched_dirs@
                &&& ({
                    let tag = crate::models::spec_type_of_ext(
                        spec_extension(spec_file_name(p)),
                    ).spec_display_name();
                    (pre.has_tag_name(tag) || pre.next_tag_id < i64::MAX)
                        ==> self.name_pair_linked(pre.next_file_id, tag)
                })
            }
        }
    }

    /// Index an unknown path reported by a create or modify signal and
    /// give the fresh record its file type's auto tag.
    fn apply_upsert(&mut self, path: &String, file_size: Option<u64>) -> (r: Result<
        (),
        AppError,
    >)
        requires
            old(self).wf(),
        ensures
            final(self).wf(),
            final(self).upsert_post(*old(self), path@, file_size, r is Ok),
    {
        let sz = match file_size {
            Some(sz) => sz,
            None => {
                return Ok(());
            },
        };
        match self.get_file_by_path(path.as_str()) {
            Some(_) => {
                return Ok(());
            },
            None => {},
        }
        let now = now_parts();
        let name = file_name_of(path.as_str());
        let ext = extension_of(name.as_str());
        let file_type = FileType::from_extension(ext.as_str());
        let record = File {
            id: None,
            path: path.clone(),
            name,
            extension: ext,
            size: sz,
            file_type,
            created_at: now.ts,
            modified_at: now.ts,
            accessed_at: now.ts,
            status: FileStatus::Active,
            indexed_at: now.ts,
            metadata: None,
        };
        proof {
            assert(!self.has_active_path(path@)) by {
                if self.has_active_path(path@) {
                    let w = choose|w: int|
                        0 <= w < self.files@.len() && (#[trigger] self.files@[w]).status
                            is Active && self.files@[w].path@ == path@;
                    assert(self.has_path(path@));
                }
            }
        }
        let file_id = match self.create_file(&record) {
            Ok(id) => id,
            Err(e) => {
                return Err(e);
            },
        };
        proof {
            assert(self.files@.drop_last() =~= old(self).files@);
            assert(self.files@.last().path@ == path@);
            assert(self.files@.last().status is Active);
            assert(self.has_active_path(path@));
        }
        let _ = self.add_tag_to_file_by_name(file_id, file_type.display_name(), true);
        Ok(())
    }

    /// What applying a delete signal guarantees.
    pub open spec fn delete_post(self, pre: Database, p: Seq<char>) -> bool {
        &&& (!pre.has_path(p) ==> self == pre)
        &&& forall|i: int|
            pre.first_path_at(i, p) ==> {
                &&& self.files@ == pre.files@.update(
                    i,
                    File { status: FileStatus::Deleted, ..pre.files@[i] },
                )
                &&& self.next_file_id == pre.next_file_id
                &&& self.same_but_files(pre)
            }
    }

    /// Mark the first record with this path `Deleted`.
    fn apply_deleted(&mut self, path: &String) -> (r: Result<(), AppError>)
        requires
            old(self).wf(),
        ensures
            final(self).wf(),
            r is Ok,
            final(self).delete_post(*old(self), path@),
    {
        let existing = self.get_file_by_path(path.as_str());
        match existing {
            Some(f) => {
                match f.id {
                    Some(id) => {
                        proof {
                            let i = choose|i: int|
                                self.first_path_at(i, path@) && f == self.files@[i];
                            assert(self.file_id_at(i, id));
                            assert forall|k: int| self.file_id_at(k, id) implies k == i by {
                                if k != i {
                                    assert(self.files@[k].id == self.files@[i].id);
                                }
                            };
                            assert forall|i2: int|
                                old(self).first_path_at(i2, path@) implies i2 == i by {
                                if i2 < i {
                                    assert(old(self).files@[i2].path@ != path@);
                                } else if i2 > i {
                                    assert(old(self).files@[i].path@ != path@);
                                }
                            };
                        }
                        let _ = self.update_file_status(id, FileStatus::Deleted);
                        Ok(())
                    },
                    None => {
                        proof {
                            assert(false);
                        }
                        Ok(())
                    },
                }
            },
            None => Ok(()),
        }
    }

    /// What applying a move signal guarantees.
    pub open spec fn move_post(self, pre: Database, from: Seq<char>, to: Seq<char>) -> bool {
        &&& (!pre.has_path(from) ==> self == pre)
        &&& forall|i: int|
            pre.first_path_at(i, from) ==> {
                let removed = pre.files@.remove(i);
                let moved = pre.files@[i];
                let conflict = moved.status is Active && exists|j: int|
                    0 <= j < pre.files@.len() && j != i && (#[trigger] pre.files@[j]).status
                        is Active && pre.files@[j].path@ == to;
                if conflict || pre.next_file_id == i64::MAX {
                    self.files@ == removed && self.same_but_files(pre)
                } else {
                    &&& self.files@.len() == removed.len() + 1
                    &&& self.files@.drop_last() == removed
                    &&& ({
                        let rec = self.files@.last();
                        &&& rec.id == Some(pre.next_file_id)
                        &&& rec.path@ == to
                        &&& rec.name@ == spec_file_name(to)
                        &&& rec.extension@ == spec_extension(spec_file_name(to))
                        &&& rec.size == moved.size
                        &&& rec.file_type == moved.file_type
                        &&& rec.status == moved.status
                        &&& rec.created_at == moved.created_at
                        &&& rec.modified_at == moved.modified_at
                    })
                    &&& self.same_but_files(pre)
                }
            }
    }

    /// Apply a move as delete-old plus create-new; the new record keeps
    /// the moved record's metadata under the new path and name.
    #[verifier::rlimit(60)]
    fn apply_moved(&mut self, from: &String, to: &String) -> (r: Result<(), AppError>)
        requires
            old(self).wf(),
        ensures
            final(self).wf(),
            r is Ok,
            final(self).move_post(*old(self), from@, to@),
    {
        let existing = self.get_file_by_path(from.as_str());
        let f = match existing {
            Some(f) => f,
            None => {
                return Ok(());
            },
        };
        let ghost i = choose|i: int| self.first_path_at(i, from@) && f == self.files@[i];
        let id = match f.id {
            Some(id) => id,
            None => {
                proof {
                    assert(false);
                }
                0
            },
        };
        proof {
            assert(self.file_id_at(i, id));
            assert forall|k: int| self.file_id_at(k, id) implies k == i by {
                if k != i {
                    assert(self.files@[k].id == self.files@[i].id);
                }
            };
            assert forall|i2: int| old(self).first_path_at(i2, from@) implies i2 == i by {
                if i2 < i {
                    assert(old(self).files@[i2].path@ != from@);
                } else if i2 > i {
                    assert(old(self).files@[i].path@ != from@);
                }
            };
        }
        let new_name = file_name_of(to.as_str());
        let new_ext = extension_of(new_name.as_str());
        let mut moved = f;
        moved.id = None;
        moved.path = to.clone();
        moved.name = new_name;
        moved.extension = new_ext;
        let _ = self.delete_file(id);
        let ghost mid = *self;
        let created = self.create_file(&moved);
        proof {
            if created is Ok {
                assert(self.files@.drop_last() =~= mid.files@);
            }
            assert(mid.files@ == old(self).files@.remove(i));
            old(self).files@.remove_ensures(i);
            if mid.has_active_path(to@) {
                let k = choose|k: int|
                    0 <= k < mid.files@.len() && (#[trigger] mid.files@[k]).status is Active
                        && mid.files@[k].path@ == to@;
                if k < i {
                    assert(old(self).files@[k].status is Active && old(self).files@[k].path@
                        == to@ && k != i);
                } else {
                    assert(old(self).files@[k + 1].status is Active && old(self).files@[k
                        + 1].path@ == to@ && k + 1 != i);
                }
            }
            if exists|j: int|
                0 <= j < old(self).files@.len() && j != i && (#[trigger] old(
                    self,
                ).files@[j]).status is Active && old(self).files@[j].path@ == to@ {
                let j = choose|j: int|
                    0 <= j < old(self).files@.len() && j != i && (#[trigger] old(
                        self,
                    ).files@[j]).status is Active && old(self).files@[j].path@ == to@;
                if j < i {
                    assert(mid.files@[j].status is Active && mid.files@[j].path@ == to@);
                } else {
                    assert(mid.files@[j - 1].status is Active && mid.files@[j - 1].path@
                        == to@);
                }
                assert(mid.has_active_path(to@));
            }
        }
        Ok(())
    }

    /// Apply one change event to the index.
    ///
    /// `file_size` carries the size of the event's path when it
    /// currently exists as a regular file, and `None` otherwise; create
    /// and modify signals are ignored without it.
    ///
    /// Fails exactly when a create or modify signal must index an
    /// unknown path and the record identifiers are exhausted.
    pub fn apply_event(&mut self, event: &FileEvent, file_size: Option<u64>) -> (r: Result<
        (),
        AppError,
    >)
        requires
            old(self).wf(),
        ensures
            final(self).wf(),
            (event is ScanStart || event is ScanEnd || event is Error)
                ==> r is Ok && *final(self) == *old(self),
            spec_upsert_path(*event) matches Some(p) ==> final(self).upsert_post(
                *old(self),
                p,
                file_size,
                r is Ok,
            ),
            event matches FileEvent::Deleted { path } ==> r is Ok && final(self).delete_post(
                *old(self),
                path@,
            ),
            event matches FileEvent::Moved { from, to } ==> r is Ok && final(self).move_post(
                *old(self),
                from@,
                to@,
            ),
    {
        match event {
            FileEvent::Created { path } => self.apply_upsert(path, file_size),
            FileEvent::Modified { path } => self.apply_upsert(path, file_size),
            FileEvent::Deleted { path } => self.apply_deleted(path),
            FileEvent::Moved { from, to } => self.apply_moved(from, to),
            FileEvent::ScanStart { .. } => Ok(()),
            FileEvent::ScanEnd { .. } => Ok(()),
            FileEvent::Error { .. } => Ok(()),
        }
    }
}

} // verus!
