//! The normalized change-event vocabulary.
//!
//! Raw OS notifications are translated into `FileEvent` values: creates,
//! modifications and removals are kept, one event per reported path, and
//! every other raw kind is dropped. Scan-lifecycle markers and error
//! reports share the same vocabulary.

use vstd::prelude::*;

verus! {

/// A normalized filesystem change event.
#[derive(Debug, PartialEq, Eq)]
pub enum FileEvent {
    Created { path: String },
    Modified { path: String },
    Deleted { path: String },
    Moved { from: String, to: String },
    ScanStart { path: String },
    ScanEnd { path: String, count: usize },
    Error { path: String, error: String },
}

impl Clone for FileEvent {
    fn clone(&self) -> (r: Self)
        ensures
            r == *self,
    {
        match self {
            FileEvent::Created { path } => FileEvent::Created { path: path.clone() },
            FileEvent::Modified { path } => FileEvent::Modified { path: path.clone() },
            FileEvent::Deleted { path } => FileEvent::Deleted { path: path.clone() },
            FileEvent::Moved { from, to } => FileEvent::Moved {
                from: from.clone(),
                to: to.clone(),
            },
            FileEvent::ScanStart { path } => FileEvent::ScanStart { path: path.clone() },
            FileEvent::ScanEnd { path, count } => FileEvent::ScanEnd {
                path: path.clone(),
                count: *count,
            },
            FileEvent::Error { path, error } => FileEvent::Error {
                path: path.clone(),
                error: error.clone(),
            },
        }
    }
}

impl FileEvent {
    /// The path most relevant to the event; for a move, its origin.
    pub open spec fn spec_primary_path(self) -> Seq<char> {
        match self {
            FileEvent::Created { path } => path@,
            FileEvent::Modified { path } => path@,
            FileEvent::Deleted { path } => path@,
            FileEvent::Moved { from, .. } => from@,
            FileEvent::ScanStart { path } => path@,
            FileEvent::ScanEnd { path, .. } => path@,
            FileEvent::Error { path, .. } => path@,
        }
    }

    /// The path most relevant to the event; for a move, its origin.
    pub fn primary_path(&self) -> (r: Option<&String>)
        ensures
            r matches Some(p) && p@ == self.spec_primary_path(),
    {
        match self {
            FileEvent::Created { path } => Some(path),
            FileEvent::Modified { path } => Some(path),
            FileEvent::Deleted { path } => Some(path),
            FileEvent::Moved { from, .. } => Some(from),
            FileEvent::ScanStart { path } => Some(path),
            FileEvent::ScanEnd { path, .. } => Some(path),
            FileEvent::Error { path, .. } => Some(path),
        }
    }

    /// Whether the event marks the start or the end of a scan.
    pub fn is_scan_event(&self) -> (r: bool)
        ensures
            r == (self is ScanStart || self is ScanEnd),
    {
        match self {
            FileEvent::ScanStart { .. } => true,
            FileEvent::ScanEnd { .. } => true,
            _ => false,
        }
    }

    /// Whether the event reports an error.
    pub fn is_error(&self) -> (r: bool)
        ensures
            r == (self is Error),
    {
        match self {
            FileEvent::Error { .. } => true,
            _ => false,
        }
    }

    /// The key deduplication collapses on: the primary path for change
    /// events, and nothing for scan-lifecycle and error events, which
    /// are always forwarded individually.
    pub open spec fn spec_dedup_key(self) -> Option<Seq<char>> {
        if self is ScanStart || self is ScanEnd || self is Error {
            None
        } else {
            Some(self.spec_primary_path())
        }
    }

    /// The key deduplication collapses on.
    pub fn dedup_key(&self) -> (r: Option<&String>)
        ensures
            match r {
                Some(p) => self.spec_dedup_key() == Some(p@),
                None => self.spec_dedup_key() is None,
            },
    {
        match self {
            FileEvent::Created { path } => Some(path),
            FileEvent::Modified { path } => Some(path),
            FileEvent::Deleted { path } => Some(path),
            FileEvent::Moved { from, .. } => Some(from),
            FileEvent::ScanStart { .. } => None,
            FileEvent::ScanEnd { .. } => None,
            FileEvent::Error { .. } => None,
        }
    }
}

/// The kind of a raw OS notification, reduced to what the translation
/// distinguishes.
#[derive(Debug, Clone, Copy, PartialEq, Eq, Structural)]
pub enum RawEventKind {
    Create,
    Modify,
    Remove,
    Other,
}

/// The event a raw notification of kind `kind` yields for one path.
pub open spec fn spec_converted_event(kind: RawEventKind, path: String) -> FileEvent {
    match kind {
        RawEventKind::Create => FileEvent::Created { path },
        RawEventKind::Modify => FileEvent::Modified { path },
        RawEventKind::Remove => FileEvent::Deleted { path },
        RawEventKind::Other => FileEvent::Created { path },
    }
}

/// Translate one raw OS notification into normalized events: one event
/// per reported path for creates, modifications and removals; every
/// other kind is dropped.
pub fn convert_raw_event(kind: RawEventKind, paths: Vec<String>) -> (r: Vec<FileEvent>)
    ensures
        kind is Other ==> r@.len() == 0,
        !(kind is Other) ==> {
            &&& r@.len() == paths@.len()
            &&& forall|i: int|
                0 <= i < r@.len() ==> r@[i] == spec_converted_event(kind, #[trigger] paths@[i])
        },
{
    let mut out: Vec<FileEvent> = Vec::new();
    let is_other = match kind {
        RawEventKind::Other => true,
        _ => false,
    };
    if is_other {
        return out;
    }
    let mut i: usize = 0;
    while i < paths.len()
        invariant
            !(kind is Other),
            0 <= i <= paths@.len(),
            out@.len() == i,
            forall|k: int|
                0 <= k < i ==> out@[k] == spec_converted_event(kind, #[trigger] paths@[k]),
        decreases paths@.len() - i,
    {
        let p = paths[i].clone();
        let ev = match kind {
            RawEventKind::Create => FileEvent::Created { path: p },
            RawEventKind::Modify => FileEvent::Modified { path: p },
            RawEventKind::Remove => FileEvent::Deleted { path: p },
            RawEventKind::Other => FileEvent::Created { path: p },
        };
        out.push(ev);
        i += 1;
    }
    out
}

} // verus!
