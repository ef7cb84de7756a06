//! The directory scanner.
//!
//! A scan walks an in-memory snapshot of a directory tree depth-first.
//! A directory is skipped entirely when an exclude pattern occurs in its
//! path, case-insensitively, or its name starts with a dot; a depth
//! limit, when set, stops recursion below it. A file whose extension
//! passes the configured allow-list is looked up by path: an unknown
//! path is added to the index as a fresh `Active` record, a known one is
//! merely counted as updated. Unreadable directories and entries below
//! the root are reported in the result and never abort the scan; only a
//! root that itself cannot be listed is a hard error.

use vstd::prelude::*;
use crate::models::{File, FileStatus, FileType};
use crate::paths::{extension_of, file_name_of, spec_extension, spec_file_name};
use crate::rules::ext_list_contains_ci;
use crate::store::Database;
use crate::text::{contains_ci, contains_ignore_case, eq_ignore_case};
use crate::time::now_parts;

verus! {

/// What a scan visits and how deep it goes.
#[derive(Debug)]
pub struct ScanConfig {
    /// Descend into subdirectories.
    pub recursive: bool,
    /// When set, only files with one of these extensions are indexed,
    /// compared case-insensitively.
    pub extensions: Option<Vec<String>>,
    /// When set, a directory whose path contains one of these strings,
    /// case-insensitively, is skipped with its whole subtree.
    pub exclude_patterns: Option<Vec<String>>,
    /// When set, directories deeper than this are not entered.
    pub max_depth: Option<usize>,
}

impl Default for ScanConfig {
    /// The default scan: recursive, no filters, no depth limit.
    fn default() -> (r: ScanConfig)
        ensures
            r.recursive,
            r.extensions is None,
            r.exclude_patterns is None,
            r.max_depth is None,
    {
        ScanConfig { recursive: true, extensions: None, exclude_patterns: None, max_depth: None }
    }
}

/// The metadata of one file in a directory snapshot.
#[derive(Debug)]
pub struct FileMeta {
    pub path: String,
    pub size: u64,
    pub created_ts: i64,
    pub modified_ts: i64,
    pub accessed_ts: i64,
}

/// One entry of a directory snapshot.
#[derive(Debug)]
pub enum FsNode {
    /// A regular file.
    File(FileMeta),
    /// A subdirectory.
    Dir(FsDir),
    /// An entry whose metadata could not be read.
    Unreadable { path: String, message: String },
}

/// A directory snapshot: its path, its entries, and the error that kept
/// it from being listed, if listing failed.
#[derive(Debug)]
pub struct FsDir {
    pub path: String,
    pub entries: Vec<FsNode>,
    pub read_error: Option<String>,
}

/// The report of one scan.
#[derive(Debug)]
pub struct ScanResult {
    pub scan_path: String,
    pub scanned_files: usize,
    pub added_files: usize,
    pub updated_files: usize,
    pub skipped_files: usize,
    pub errors: Vec<(String, String)>,
}

impl ScanResult {
    /// An empty report for a scan rooted at `path`.
    pub fn new(path: String) -> (r: ScanResult)
        ensures
            r.scan_path == path,
            r.scanned_files == 0,
            r.added_files == 0,
            r.updated_files == 0,
            r.skipped_files == 0,
            r.errors@.len() == 0,
    {
        ScanResult {
            scan_path: path,
            scanned_files: 0,
            added_files: 0,
            updated_files: 0,
            skipped_files: 0,
            errors: Vec::new(),
        }
    }

    /// Record a non-fatal error.
    pub fn add_error(&mut self, path: String, error: String)
        ensures
            final(self).errors@ == old(self).errors@.push((path, error)),
            final(self).scan_path == old(self).scan_path,
            final(self).scanned_files == old(self).scanned_files,
            final(self).added_files == old(self).added_files,
            final(self).updated_files == old(self).updated_files,
            final(self).skipped_files == old(self).skipped_files,
    {
        self.errors.push((path, error));
    }

    /// Whether any error was recorded.
    pub fn has_errors(&self) -> (r: bool)
        ensures
            r == (self.errors@.len() > 0),
    {
        self.errors.len() > 0
    }

    /// How many records the scan added or updated.
    pub fn total_changes(&self) -> (r: usize)
        requires
            self.added_files + self.updated_files <= usize::MAX,
        ensures
            r == self.added_files + self.updated_files,
    {
        self.added_files + self.updated_files
    }
}

/// A counter increment that stays put at the machine limit.
pub open spec fn sat_inc(c: int) -> int {
    if c < usize::MAX {
        c + 1
    } else {
        c
    }
}

/// The ghost state a scan threads along: the set of indexed paths, the
/// next record identifier, the counters, and the recorded errors.
pub ghost struct ScanState {
    pub paths: Set<Seq<char>>,
    pub next_id: int,
    pub scanned: int,
    pub added: int,
    pub updated: int,
    pub errors: Seq<(Seq<char>, Seq<char>)>,
}

/// The set of paths the index holds a record for.
pub open spec fn db_paths(db: Database) -> Set<Seq<char>> {
    Set::new(|p: Seq<char>| db.has_path(p))
}

/// The scan state an index and a report describe.
pub open spec fn state_of(db: Database, res: ScanResult) -> ScanState {
    ScanState {
        paths: db_paths(db),
        next_id: db.next_file_id as int,
        scanned: res.scanned_files as int,
        added: res.added_files as int,
        updated: res.updated_files as int,
        errors: res.errors.deep_view(),
    }
}

/// An index and a report describe the scan state `st`.
pub open spec fn state_matches(db: Database, res: ScanResult, st: ScanState) -> bool {
    &&& db_paths(db) == st.paths
    &&& db.next_file_id == st.next_id
    &&& res.scanned_files == st.scanned
    &&& res.added_files == st.added
    &&& res.updated_files == st.updated
    &&& res.errors.deep_view() == st.errors
}

/// Whether a directory is skipped: an exclude pattern occurs in its
/// path, case-insensitively, or its name starts with a dot.
pub open spec fn spec_should_exclude(config: ScanConfig, path: Seq<char>) -> bool {
    ||| (config.exclude_patterns matches Some(ps) && exists|i: int|
        0 <= i < ps@.len() && contains_ignore_case(path, (#[trigger] ps@[i])@))
    ||| (spec_file_name(path).len() > 0 && spec_file_name(path)[0] == '.')
}

/// Whether a file extension passes the configured allow-list.
pub open spec fn spec_ext_passes(config: ScanConfig, ext: Seq<char>) -> bool {
    match config.extensions {
        Some(list) => exists|i: int|
            0 <= i < list@.len() && eq_ignore_case((#[trigger] list@[i])@, ext),
        None => true,
    }
}

/// The state after processing one file: skipped by the extension
/// filter, counted as updated when its path is already indexed, and
/// otherwise added, with the path recorded while record identifiers
/// remain.
pub open spec fn spec_process_file(config: ScanConfig, m: FileMeta, st: ScanState) -> ScanState {
    let ext = spec_extension(spec_file_name(m.path@));
    if !spec_ext_passes(config, ext) {
        st
    } else if st.paths.contains(m.path@) {
        ScanState { updated: sat_inc(st.updated), scanned: sat_inc(st.scanned), ..st }
    } else if st.next_id < i64::MAX {
        ScanState {
            paths: st.paths.insert(m.path@),
            next_id: st.next_id + 1,
            added: sat_inc(st.added),
            scanned: sat_inc(st.scanned),
            ..st
        }
    } else {
        ScanState { added: sat_inc(st.added), scanned: sat_inc(st.scanned), ..st }
    }
}

/// The state after processing one directory entry.
pub open spec fn spec_scan_node(
    config: ScanConfig,
    node: FsNode,
    depth: int,
    st: ScanState,
) -> ScanState
    decreases node, 0int, 0int,
{
    match node {
        FsNode::File(m) => spec_process_file(config, m, st),
        FsNode::Dir(d) => if config.recursive {
            spec_scan_dir(config, d, sat_inc(depth), st)
        } else {
            st
        },
        FsNode::Unreadable { path, message } => ScanState {
            errors: st.errors.push((path@, message@)),
            ..st
        },
    }
}

/// The state after processing the first `n` entries of a directory.
pub open spec fn spec_scan_entries(
    config: ScanConfig,
    dir: FsDir,
    depth: int,
    n: int,
    st: ScanState,
) -> ScanState
    decreases dir, 1int, n,
{
    if n <= 0 || n > dir.entries@.len() {
        st
    } else {
        spec_scan_node(
            config,
            dir.entries@[n - 1],
            depth,
            spec_scan_entries(config, dir, depth, n - 1, st),
        )
    }
}

/// The state after scanning a directory: unchanged when the depth limit
/// or an exclusion stops it, one recorded error when it cannot be
/// listed, and otherwise the fold over its entries.
pub open spec fn spec_scan_dir(
    config: ScanConfig,
    dir: FsDir,
    depth: int,
    st: ScanState,
) -> ScanState
    decreases dir, 2int, 0int,
{
    if config.max_depth matches Some(md) && depth > md {
        st
    } else if spec_should_exclude(config, dir.path@) {
        st
    } else {
        match dir.read_error {
            Some(e) => ScanState { errors: st.errors.push((dir.path@, e@)), ..st },
            None => spec_scan_entries(config, dir, depth, dir.entries@.len() as int, st),
        }
    }
}

/// The record written for a visited file carries the file's path, its
/// size and timestamps as observed, the name and extension derived from
/// the path, the type derived from the extension, and `Active` status.
pub open spec fn record_of_meta(rec: File, m: FileMeta) -> bool {
    &&& rec.path == m.path
    &&& rec.name@ == spec_file_name(m.path@)
    &&& rec.extension@ == spec_extension(spec_file_name(m.path@))
    &&& rec.file_type == crate::models::spec_type_of_ext(
        spec_extension(spec_file_name(m.path@)),
    )
    &&& rec.size == m.size
    &&& rec.created_at == m.created_ts
    &&& rec.modified_at == m.modified_ts
    &&& rec.accessed_at == m.accessed_ts
    &&& rec.status is Active
}

/// The entry holds the file metadata `m`, directly or in a subtree.
pub open spec fn node_has_meta(node: FsNode, m: FileMeta) -> bool
    decreases node, 0int, 0int,
{
    match node {
        FsNode::File(m2) => m2 == m,
        FsNode::Dir(d) => dir_has_meta(d, m),
        FsNode::Unreadable { .. } => false,
    }
}

/// One of the first `n` entries holds the file metadata `m`.
pub open spec fn entries_have_meta(dir: FsDir, n: int, m: FileMeta) -> bool
    decreases dir, 1int, n,
{
    if n <= 0 || n > dir.entries@.len() {
        false
    } else {
        entries_have_meta(dir, n - 1, m) || node_has_meta(dir.entries@[n - 1], m)
    }
}

/// The directory snapshot holds the file metadata `m` somewhere.
pub open spec fn dir_has_meta(dir: FsDir, m: FileMeta) -> bool
    decreases dir, 2int, 0int,
{
    entries_have_meta(dir, dir.entries@.len() as int, m)
}

/// Holding a metadata among the first `n1` entries, the first `n2 >= n1`
/// hold it too.
proof fn lemma_entries_meta_monotone(dir: FsDir, n1: int, n2: int, m: FileMeta)
    requires
        n1 <= n2 <= dir.entries@.len(),
        entries_have_meta(dir, n1, m),
    ensures
        entries_have_meta(dir, n2, m),
    decreases n2 - n1,
{
    if n1 < n2 {
        lemma_entries_meta_monotone(dir, n1, n2 - 1, m);
    }
}

/// A metadata held by one entry is held by the whole directory.
proof fn lemma_entry_meta_lifts(dir: FsDir, i: int, m: FileMeta)
    requires
        0 <= i < dir.entries@.len(),
        node_has_meta(dir.entries@[i], m),
    ensures
        dir_has_meta(dir, m),
{
    assert(entries_have_meta(dir, i + 1, m));
    lemma_entries_meta_monotone(dir, i + 1, dir.entries@.len() as int, m);
}

/// The record was written for a file found in this directory snapshot:
/// some metadata held by the snapshot describes it exactly.
pub open spec fn record_from_tree(rec: File, dir: FsDir) -> bool {
    exists|m: FileMeta| #[trigger] dir_has_meta(dir, m) && record_of_meta(rec, m)
}

/// The directory scanner: an index and a configuration.
#[derive(Debug)]
pub struct DirectoryScanner {
    pub db: Database,
    pub config: ScanConfig,
}

impl DirectoryScanner {
    /// A scanner over `db` with the default configuration.
    pub fn new(db: Database) -> (r: DirectoryScanner)
        ensures
            r.db == db,
            r.config.recursive,
            r.config.extensions is None,
            r.config.exclude_patterns is None,
            r.config.max_depth is None,
    {
        DirectoryScanner { db, config: ScanConfig::default() }
    }

    /// The same scanner with another configuration.
    pub fn with_config(self, config: ScanConfig) -> (r: DirectoryScanner)
        ensures
            r.db == self.db,
            r.config == config,
    {
        DirectoryScanner { db: self.db, config }
    }

    /// Whether a directory path is skipped by this configuration.
    pub fn should_exclude(&self, path: &str) -> (r: bool)
        ensures
            r == spec_should_exclude(self.config, path@),
    {
        let excluded_by_pattern = match &self.config.exclude_patterns {
            Some(ps) => {
                let mut i: usize = 0;
                let mut found = false;
                while i < ps.len()
                    invariant
                        0 <= i <= ps@.len(),
                        found == exists|k: int|
                            0 <= k < i && contains_ignore_case(path@, (#[trigger] ps@[k])@),
                    decreases ps@.len() - i,
                {
                    if contains_ci(path, ps[i].as_str()) {
                        found = true;
                    }
                    i += 1;
                }
                found
            },
            None => false,
        };
        if excluded_by_pattern {
            return true;
        }
        let name = file_name_of(path);
        if name.unicode_len() > 0 {
            let c = name.as_str().get_char(0);
            c == '.'
        } else {
            false
        }
    }

    /// Process one file: filter by extension, then add or count it.
    fn process_file(&mut self, meta: &FileMeta, result: &mut ScanResult)
        requires
            old(self).db.wf(),
        ensures
            final(self).db.wf(),
            final(self).config == old(self).config,
            final(self).db.same_but_files(old(self).db),
            final(self).db.files@.len() >= old(self).db.files@.len(),
            forall|k: int|
                0 <= k < old(self).db.files@.len() ==> final(self).db.files@[k] == old(
                    self,
                ).db.files@[k],
            final(result).scan_path == old(result).scan_path,
            final(result).skipped_files == old(result).skipped_files,
            forall|k: int|
                old(self).db.files@.len() <= k < final(self).db.files@.len()
                    ==> record_of_meta(#[trigger] final(self).db.files@[k], *meta),
            state_matches(
                final(self).db,
                *final(result),
                spec_process_file(old(self).config, *meta, state_of(old(self).db, *old(result))),
            ),
    {
        let name = file_name_of(meta.path.as_str());
        let ext = extension_of(name.as_str());
        let passes = match &self.config.extensions {
            Some(list) => ext_list_contains_ci(list, ext.as_str()),
            None => true,
        };
        if !passes {
            proof {
                assert(db_paths(self.db) =~= db_paths(old(self).db));
            }
            return ;
        }
        let existing = self.db.get_file_by_path(meta.path.as_str());
        match existing {
            Some(_) => {
                result.updated_files = sat_inc_usize(result.updated_files);
                result.scanned_files = sat_inc_usize(result.scanned_files);
                proof {
                    assert(db_paths(self.db).contains(meta.path@));
                    assert(db_paths(self.db) =~= db_paths(old(self).db));
                }
            },
            None => {
                let now = now_parts();
                let record = File {
                    id: None,
                    path: meta.path.clone(),
                    name,
                    extension: ext.clone(),
                    size: meta.size,
                    file_type: FileType::from_extension(ext.as_str()),
                    created_at: meta.created_ts,
                    modified_at: meta.modified_ts,
                    accessed_at: meta.accessed_ts,
                    status: FileStatus::Active,
                    indexed_at: now.ts,
                    metadata: None,
                };
                result.added_files = sat_inc_usize(result.added_files);
                proof {
                    assert(!db_paths(self.db).contains(meta.path@));
                    assert(!self.db.has_active_path(meta.path@));
                }
                let created = self.db.create_file(&record);
                proof {
                    match created {
                        Ok(_) => {
                            assert forall|p: Seq<char>|
                                db_paths(self.db).contains(p) implies db_paths(
                                old(self).db,
                            ).insert(meta.path@).contains(p) by {
                                let i = choose|i: int|
                                    0 <= i < self.db.files@.len() && (#[trigger] self
                                        .db
                                        .files@[i]).path@ == p;
                                if i < old(self).db.files@.len() {
                                    assert(old(self).db.has_path(p));
                                }
                            };
                            assert forall|p: Seq<char>|
                                db_paths(old(self).db).insert(meta.path@).contains(
                                    p,
                                ) implies db_paths(self.db).contains(p) by {
                                if p == meta.path@ {
                                    assert(self.db.files@.last().path@ == p);
                                } else {
                                    let i = choose|i: int|
                                        0 <= i < old(self).db.files@.len() && (#[trigger] old(
                                            self,
                                        ).db.files@[i]).path@ == p;
                                    assert(self.db.files@[i].path@ == p);
                                }
                            };
                            assert(db_paths(self.db) =~= db_paths(old(self).db).insert(
                                meta.path@,
                            ));
                        },
                        Err(_) => {
                            assert(old(self).db.next_file_id == i64::MAX);
                            assert(db_paths(self.db) =~= db_paths(old(self).db));
                        },
                    }
                }
                result.scanned_files = sat_inc_usize(result.scanned_files);
            },
        }
    }

    /// Walk one directory of the snapshot.
    fn scan_recursive(&mut self, dir: &FsDir, depth: usize, result: &mut ScanResult)
        requires
            old(self).db.wf(),
        ensures
            final(self).db.wf(),
            final(self).config == old(self).config,
            final(self).db.same_but_files(old(self).db),
            final(self).db.files@.len() >= old(self).db.files@.len(),
            forall|k: int|
                0 <= k < old(self).db.files@.len() ==> final(self).db.files@[k] == old(
                    self,
                ).db.files@[k],
            final(result).scan_path == old(result).scan_path,
            final(result).skipped_files == old(result).skipped_files,
            forall|k: int|
                old(self).db.files@.len() <= k < final(self).db.files@.len()
                    ==> record_from_tree(#[trigger] final(self).db.files@[k], *dir),
            state_matches(
                final(self).db,
                *final(result),
                spec_scan_dir(
                    old(self).config,
                    *dir,
                    depth as int,
                    state_of(old(self).db, *old(result)),
                ),
            ),
        decreases *dir,
    {
        let too_deep = match self.config.max_depth {
            Some(md) => depth > md,
            None => false,
        };
        if too_deep {
            return ;
        }
        if self.should_exclude(dir.path.as_str()) {
            return ;
        }
        match &dir.read_error {
            Some(e) => {
                result.add_error(dir.path.clone(), e.clone());
                proof {
                    assert(result.errors.deep_view() =~= old(result).errors.deep_view().push(
                        (dir.path@, e@),
                    ));
                }
                return ;
            },
            None => {},
        }
        let next_depth = sat_inc_usize(depth);
        let ghost st0 = state_of(self.db, *result);
        let mut i: usize = 0;
        while i < dir.entries.len()
            invariant
                old(self).db.wf(),
                self.db.wf(),
                0 <= i <= dir.entries@.len(),
                self.config == old(self).config,
                self.db.same_but_files(old(self).db),
                self.db.files@.len() >= old(self).db.files@.len(),
                forall|k: int|
                    0 <= k < old(self).db.files@.len() ==> self.db.files@[k] == old(
                        self,
                    ).db.files@[k],
                forall|k: int|
                    old(self).db.files@.len() <= k < self.db.files@.len()
                        ==> record_from_tree(#[trigger] self.db.files@[k], *dir),
                result.scan_path == old(result).scan_path,
                result.skipped_files == old(result).skipped_files,
                next_depth == sat_inc(depth as int),
                st0 == state_of(old(self).db, *old(result)),
                state_matches(
                    self.db,
                    *result,
                    spec_scan_entries(old(self).config, *dir, depth as int, i as int, st0),
                ),
            decreases dir.entries@.len() - i,
        {
            let ghost st_pre = spec_scan_entries(
                old(self).config,
                *dir,
                depth as int,
                i as int,
                st0,
            );
            proof {
                assert(st_pre == state_of(self.db, *result));
            }
            let ghost prev_files = self.db.files@;
            match &dir.entries[i] {
                FsNode::File(m) => {
                    self.process_file(m, result);
                    proof {
                        assert forall|k: int|
                            prev_files.len() <= k < self.db.files@.len() implies record_from_tree(
                            #[trigger] self.db.files@[k],
                            *dir,
                        ) by {
                            assert(record_of_meta(self.db.files@[k], *m));
                            assert(node_has_meta(dir.entries@[i as int], *m));
                            lemma_entry_meta_lifts(*dir, i as int, *m);
                        };
                    }
                },
                FsNode::Dir(d) => {
                    if self.config.recursive {
                        self.scan_recursive(d, next_depth, result);
                        proof {
                            assert forall|k: int|
                                prev_files.len() <= k
                                    < self.db.files@.len() implies record_from_tree(
                                #[trigger] self.db.files@[k],
                                *dir,
                            ) by {
                                assert(record_from_tree(self.db.files@[k], *d));
                                let m = choose|m: FileMeta|
                                    #[trigger] dir_has_meta(*d, m) && record_of_meta(
                                        self.db.files@[k],
                                        m,
                                    );
                                assert(node_has_meta(dir.entries@[i as int], m));
                                lemma_entry_meta_lifts(*dir, i as int, m);
                            };
                        }
                    }
                },
                FsNode::Unreadable { path, message } => {
                    result.add_error(path.clone(), message.clone());
                    proof {
                        assert(result.errors.deep_view() =~= st_pre.errors.push(
                            (path@, message@),
                        ));
                    }
                },
            }
            proof {
                let st_next = spec_scan_entries(
                    old(self).config,
                    *dir,
                    depth as int,
                    i + 1,
                    st0,
                );
                assert(st_next == spec_scan_node(
                    old(self).config,
                    dir.entries@[i as int],
                    depth as int,
                    st_pre,
                ));
                assert(state_matches(self.db, *result, st_next));
            }
            i += 1;
        }
        proof {
            assert(spec_scan_dir(
                old(self).config,
                *dir,
                depth as int,
                st0,
            ) == spec_scan_entries(
                old(self).config,
                *dir,
                depth as int,
                dir.entries@.len() as int,
                st0,
            ));
        }
    }

    /// Scan a directory snapshot, producing a complete report. Failures
    /// below the root are recorded in the report, never raised; only a
    /// root that itself cannot be listed propagates as a hard error.
    pub fn scan(&mut self, tree: &FsDir) -> (r: Result<ScanResult, crate::models::AppError>)
        requires
            old(self).db.wf(),
        ensures
            final(self).db.wf(),
            final(self).config == old(self).config,
            final(self).db.same_but_files(old(self).db),
            final(self).db.files@.len() >= old(self).db.files@.len(),
            forall|k: int|
                0 <= k < old(self).db.files@.len() ==> final(self).db.files@[k] == old(
                    self,
                ).db.files@[k],
            forall|k: int|
                old(self).db.files@.len() <= k < final(self).db.files@.len()
                    ==> record_from_tree(#[trigger] final(self).db.files@[k], *tree),
            ({
                let root_unreadable = !spec_should_exclude(old(self).config, tree.path@)
                    && tree.read_error is Some;
                if root_unreadable {
                    r is Err && final(self).db == old(self).db
                } else {
                    r matches Ok(res) && {
                        let st = spec_scan_dir(
                            old(self).config,
                            *tree,
                            0,
                            ScanState {
                                paths: db_paths(old(self).db),
                                next_id: old(self).db.next_file_id as int,
                                scanned: 0,
                                added: 0,
                                updated: 0,
                                errors: Seq::empty(),
                            },
                        );
                        &&& res.scan_path == tree.path
                        &&& res.skipped_files == 0
                        &&& state_matches(final(self).db, res, st)
                    }
                }
            }),
    {
        if !self.should_exclude(tree.path.as_str()) {
            match &tree.read_error {
                Some(e) => {
                    return Err(crate::models::AppError::Database(e.clone()));
                },
                None => {},
            }
        }
        let mut result = ScanResult::new(tree.path.clone());
        proof {
            assert(result.errors.deep_view() =~= Seq::<(Seq<char>, Seq<char>)>::empty());
        }
        self.scan_recursive(tree, 0, &mut result);
        Ok(result)
    }
}

/// The paths of the files one entry contributes to a scan, after the
/// filters.
pub open spec fn files_of_node(config: ScanConfig, node: FsNode, depth: int) -> Set<Seq<char>>
    decreases node, 0int, 0int,
{
    match node {
        FsNode::File(m) => {
            if spec_ext_passes(config, spec_extension(spec_file_name(m.path@))) {
                Set::empty().insert(m.path@)
            } else {
                Set::empty()
            }
        },
        FsNode::Dir(d) => if config.recursive {
            files_of_dir(config, d, sat_inc(depth))
        } else {
            Set::empty()
        },
        FsNode::Unreadable { .. } => Set::empty(),
    }
}

/// The paths of the files the first `n` entries contribute to a scan.
pub open spec fn files_of_entries(config: ScanConfig, dir: FsDir, depth: int, n: int) -> Set<
    Seq<char>,
>
    decreases dir, 1int, n,
{
    if n <= 0 || n > dir.entries@.len() {
        Set::empty()
    } else {
        files_of_entries(config, dir, depth, n - 1).union(
            files_of_node(config, dir.entries@[n - 1], depth),
        )
    }
}

/// The paths of the files a scan of `dir` visits, after the filters.
pub open spec fn files_of_dir(config: ScanConfig, dir: FsDir, depth: int) -> Set<Seq<char>>
    decreases dir, 2int, 0int,
{
    if config.max_depth matches Some(md) && depth > md {
        Set::empty()
    } else if spec_should_exclude(config, dir.path@) {
        Set::empty()
    } else {
        match dir.read_error {
            Some(_) => Set::empty(),
            None => files_of_entries(config, dir, depth, dir.entries@.len() as int),
        }
    }
}

/// A scan only grows the path set, only grows the identifier counter
/// while keeping it within bounds, and, as long as identifiers never
/// ran out, records the path of every file it visits.
proof fn lemma_scan_node_props(config: ScanConfig, node: FsNode, depth: int, st: ScanState)
    requires
        st.next_id <= i64::MAX,
    ensures
        ({
            let st1 = spec_scan_node(config, node, depth, st);
            &&& st.paths.subset_of(st1.paths)
            &&& st.next_id <= st1.next_id <= i64::MAX
            &&& st1.next_id < i64::MAX ==> files_of_node(config, node, depth).subset_of(
                st1.paths,
            )
        }),
    decreases node, 0int, 0int,
{
    match node {
        FsNode::File(m) => {},
        FsNode::Dir(d) => {
            if config.recursive {
                lemma_scan_dir_props(config, d, sat_inc(depth), st);
            }
        },
        FsNode::Unreadable { .. } => {},
    }
}

/// As `lemma_scan_node_props`, over the first `n` entries of a
/// directory.
proof fn lemma_scan_entries_props(
    config: ScanConfig,
    dir: FsDir,
    depth: int,
    n: int,
    st: ScanState,
)
    requires
        st.next_id <= i64::MAX,
    ensures
        ({
            let st1 = spec_scan_entries(config, dir, depth, n, st);
            &&& st.paths.subset_of(st1.paths)
            &&& st.next_id <= st1.next_id <= i64::MAX
            &&& st1.next_id < i64::MAX ==> files_of_entries(config, dir, depth, n).subset_of(
                st1.paths,
            )
        }),
    decreases dir, 1int, n,
{
    if n <= 0 || n > dir.entries@.len() {
    } else {
        lemma_scan_entries_props(config, dir, depth, n - 1, st);
        let st1 = spec_scan_entries(config, dir, depth, n - 1, st);
        lemma_scan_node_props(config, dir.entries@[n - 1], depth, st1);
    }
}

/// As `lemma_scan_node_props`, over a whole directory.
proof fn lemma_scan_dir_props(config: ScanConfig, dir: FsDir, depth: int, st: ScanState)
    requires
        st.next_id <= i64::MAX,
    ensures
        ({
            let st1 = spec_scan_dir(config, dir, depth, st);
            &&& st.paths.subset_of(st1.paths)
            &&& st.next_id <= st1.next_id <= i64::MAX
            &&& st1.next_id < i64::MAX ==> files_of_dir(config, dir, depth).subset_of(st1.paths)
        }),
    decreases dir, 2int, 0int,
{
    if config.max_depth matches Some(md) && depth > md {
    } else if spec_should_exclude(config, dir.path@) {
    } else {
        match dir.read_error {
            Some(_) => {},
            None => {
                lemma_scan_entries_props(config, dir, depth, dir.entries@.len() as int, st);
            },
        }
    }
}

/// When every file an entry would visit is already indexed, scanning it
/// adds nothing: the path set, the identifier counter and the addition
/// counter stay put.
proof fn lemma_scan_node_stable(config: ScanConfig, node: FsNode, depth: int, st: ScanState)
    requires
        files_of_node(config, node, depth).subset_of(st.paths),
    ensures
        ({
            let st1 = spec_scan_node(config, node, depth, st);
            &&& st1.paths == st.paths
            &&& st1.next_id == st.next_id
            &&& st1.added == st.added
        }),
    decreases node, 0int, 0int,
{
    match node {
        FsNode::File(m) => {
            if spec_ext_passes(config, spec_extension(spec_file_name(m.path@))) {
                assert(files_of_node(config, node, depth).contains(m.path@));
                assert(st.paths.contains(m.path@));
            }
        },
        FsNode::Dir(d) => {
            if config.recursive {
                lemma_scan_dir_stable(config, d, sat_inc(depth), st);
            }
        },
        FsNode::Unreadable { .. } => {},
    }
}

/// As `lemma_scan_node_stable`, over the first `n` entries.
proof fn lemma_scan_entries_stable(
    config: ScanConfig,
    dir: FsDir,
    depth: int,
    n: int,
    st: ScanState,
)
    requires
        files_of_entries(config, dir, depth, n).subset_of(st.paths),
    ensures
        ({
            let st1 = spec_scan_entries(config, dir, depth, n, st);
            &&& st1.paths == st.paths
            &&& st1.next_id == st.next_id
            &&& st1.added == st.added
        }),
    decreases dir, 1int, n,
{
    if n <= 0 || n > dir.entries@.len() {
    } else {
        assert(files_of_entries(config, dir, depth, n - 1).subset_of(st.paths));
        lemma_scan_entries_stable(config, dir, depth, n - 1, st);
        let st1 = spec_scan_entries(config, dir, depth, n - 1, st);
        assert(files_of_node(config, dir.entries@[n - 1], depth).subset_of(st1.paths));
        lemma_scan_node_stable(config, dir.entries@[n - 1], depth, st1);
    }
}

/// As `lemma_scan_node_stable`, over a whole directory.
proof fn lemma_scan_dir_stable(config: ScanConfig, dir: FsDir, depth: int, st: ScanState)
    requires
        files_of_dir(config, dir, depth).subset_of(st.paths),
    ensures
        ({
            let st1 = spec_scan_dir(config, dir, depth, st);
            &&& st1.paths == st.paths
            &&& st1.next_id == st.next_id
            &&& st1.added == st.added
        }),
    decreases dir, 2int, 0int,
{
    if config.max_depth matches Some(md) && depth > md {
    } else if spec_should_exclude(config, dir.path@) {
    } else {
        match dir.read_error {
            Some(_) => {},
            None => {
                lemma_scan_entries_stable(config, dir, depth, dir.entries@.len() as int, st);
            },
        }
    }
}

/// Scanning the same unchanged tree twice is idempotent with respect to
/// additions: as long as record identifiers never ran out during the
/// first scan, a second scan starting from the index the first one
/// produced reports zero added files.
pub proof fn lemma_rescan_adds_nothing(config: ScanConfig, dir: FsDir, st0: ScanState)
    requires
        st0.next_id <= i64::MAX,
        spec_scan_dir(config, dir, 0, st0).next_id < i64::MAX,
    ensures
        ({
            let st1 = spec_scan_dir(config, dir, 0, st0);
            let st2 = spec_scan_dir(
                config,
                dir,
                0,
                ScanState {
                    paths: st1.paths,
                    next_id: st1.next_id,
                    scanned: 0,
                    added: 0,
                    updated: 0,
                    errors: Seq::empty(),
                },
            );
            st2.added == 0
        }),
{
    lemma_scan_dir_props(config, dir, 0, st0);
    let st1 = spec_scan_dir(config, dir, 0, st0);
    let fresh = ScanState {
        paths: st1.paths,
        next_id: st1.next_id,
        scanned: 0,
        added: 0,
        updated: 0,
        errors: Seq::empty(),
    };
    lemma_scan_dir_stable(config, dir, 0, fresh);
}

/// A directory whose name starts with a dot contributes nothing to a
/// scan, regardless of its contents: the scan state passes it by
/// unchanged.
pub proof fn lemma_hidden_directory_yields_nothing(
    config: ScanConfig,
    dir: FsDir,
    depth: int,
    st: ScanState,
)
    requires
        spec_file_name(dir.path@).len() > 0,
        spec_file_name(dir.path@)[0] == '.',
    ensures
        spec_scan_dir(config, dir, depth, st) == st,
{
}

/// A saturating counter increment.
fn sat_inc_usize(c: usize) -> (r: usize)
    ensures
        r == sat_inc(c as int),
{
    if c < usize::MAX {
        c + 1
    } else {
        c
    }
}

} // verus!
