//! The registration state of the filesystem watcher.
//!
//! The watcher keeps the set of currently watched paths: registering a
//! path twice is an error that leaves the set unchanged, unregistering
//! removes a path, and clearing empties the set, as unwatching
//! everything does. The OS subscription calls themselves happen
//! outside; this carries the decisions they are driven by.

use vstd::prelude::*;
use crate::models::AppError;

verus! {

/// All paths of a registry are distinct.
pub open spec fn watch_paths_distinct(s: Seq<String>) -> bool {
    forall|i: int, j: int| 0 <= i < j < s.len() ==> s[i]@ != s[j]@
}

/// The set of paths registered for watching, each at most once.
#[derive(Debug)]
pub struct WatchRegistry {
    pub paths: Vec<String>,
}

impl WatchRegistry {
    /// No path is registered twice.
    pub open spec fn wf(self) -> bool {
        watch_paths_distinct(self.paths@)
    }

    /// The path is registered.
    pub open spec fn spec_contains(self, p: Seq<char>) -> bool {
        exists|i: int| 0 <= i < self.paths@.len() && (#[trigger] self.paths@[i])@ == p
    }

    /// An empty registry.
    pub fn new() -> (r: WatchRegistry)
        ensures
            r.wf(),
            r.paths@.len() == 0,
    {
        WatchRegistry { paths: Vec::new() }
    }

    /// Whether the path is registered.
    pub fn contains(&self, path: &str) -> (r: bool)
        ensures
            r == self.spec_contains(path@),
    {
        let mut i: usize = 0;
        while i < self.paths.len()
            invariant
                0 <= i <= self.paths@.len(),
                forall|k: int| 0 <= k < i ==> (#[trigger] self.paths@[k])@ != path@,
            decreases self.paths@.len() - i,
        {
            if crate::text::str_eq(self.paths[i].as_str(), path) {
                return true;
            }
            i += 1;
        }
        false
    }

    /// Register a path. Registering a path that is already watched is
    /// an error and changes nothing; the watcher never registers
    /// partially.
    pub fn register(&mut self, path: &str) -> (r: Result<(), AppError>)
        requires
            old(self).wf(),
        ensures
            final(self).wf(),
            if old(self).spec_contains(path@) {
                r is Err && final(self).paths@ == old(self).paths@
            } else {
                &&& r is Ok
                &&& final(self).paths@.len() == old(self).paths@.len() + 1
                &&& final(self).paths@.drop_last() == old(self).paths@
                &&& final(self).paths@.last()@ == path@
            },
    {
        if self.contains(path) {
            return Err(AppError::AlreadyWatched(path.to_owned()));
        }
        self.paths.push(path.to_owned());
        proof {
            assert(self.paths@.drop_last() =~= old(self).paths@);
        }
        Ok(())
    }

    /// Unregister a path, reporting whether it was registered.
    pub fn unregister(&mut self, path: &str) -> (r: bool)
        requires
            old(self).wf(),
        ensures
            final(self).wf(),
            !old(self).spec_contains(path@) ==> !r && final(self).paths@ == old(self).paths@,
            forall|i: int|
                (0 <= i < old(self).paths@.len() && (#[trigger] old(self).paths@[i])@ == path@)
                    ==> r && final(self).paths@ == old(self).paths@.remove(i),
    {
        let mut i: usize = 0;
        while i < self.paths.len()
            invariant
                *self == *old(self),
                old(self).wf(),
                0 <= i <= self.paths@.len(),
                forall|k: int| 0 <= k < i ==> (#[trigger] self.paths@[k])@ != path@,
            decreases self.paths@.len() - i,
        {
            if crate::text::str_eq(self.paths[i].as_str(), path) {
                proof {
                    assert forall|k: int|
                        0 <= k < old(self).paths@.len() && (#[trigger] old(self).paths@[k])@
                            == path@ implies k == i as int by {
                        if k < i as int {
                            assert(old(self).paths@[k]@ != path@);
                        } else if k > i as int {
                            assert(old(self).paths@[i as int]@ != old(self).paths@[k]@);
                        }
                    };
                }
                self.paths.remove(i);
                return true;
            }
            i += 1;
        }
        false
    }

    /// Unregister everything.
    pub fn clear(&mut self)
        ensures
            final(self).wf(),
            final(self).paths@.len() == 0,
    {
        self.paths = Vec::new();
    }

    /// The number of registered paths.
    pub fn len(&self) -> (r: usize)
        ensures
            r == self.paths@.len(),
    {
        self.paths.len()
    }

    /// The registered paths, in registration order.
    pub fn paths(&self) -> (r: &Vec<String>)
        ensures
            r@ == self.paths@,
    {
        &self.paths
    }
}

} // verus!
