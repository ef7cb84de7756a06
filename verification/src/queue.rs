//! The bounded event queue and the debouncing handler.
//!
//! The queue decouples producers from consumers: sends are rejected once
//! the queue is full or closed, batches drain in arrival order, and the
//! deduplicating drain collapses events sharing a primary path down to
//! the most recently enqueued one. Scan-lifecycle and error events are
//! never collapsed. The debouncing handler keeps, per path, only the
//! latest pending event; delivery of what is pending is driven from
//! outside, after the configured delay.

use vstd::prelude::*;
use crate::event::FileEvent;

verus! {

/// Configuration of an event queue: its capacity, the debounce delay in
/// milliseconds, and the batch size of a drain.
#[derive(Debug, Clone, Copy, PartialEq, Eq, Structural)]
pub struct QueueConfig {
    pub max_capacity: usize,
    pub debounce_delay_ms: u64,
    pub batch_size: usize,
}

impl Default for QueueConfig {
    /// The default configuration: ten thousand slots, half a second of
    /// debounce, batches of one hundred.
    fn default() -> (r: QueueConfig)
        ensures
            r.max_capacity == 10000,
            r.debounce_delay_ms == 500,
            r.batch_size == 100,
    {
        QueueConfig { max_capacity: 10000, debounce_delay_ms: 500, batch_size: 100 }
    }
}

/// The event at `i` is followed by a later event with the same
/// deduplication key.
pub open spec fn superseded(s: Seq<FileEvent>, i: int) -> bool {
    &&& s[i].spec_dedup_key() is Some
    &&& exists|j: int|
        i < j < s.len() && (#[trigger] s[j].spec_dedup_key()) == s[i].spec_dedup_key()
}

/// The deduplication of the first `n` events of `s`: events without a
/// key survive, and a keyed event survives exactly when no later event
/// of `s` carries the same key.
pub open spec fn spec_dedup_prefix(s: Seq<FileEvent>, n: int) -> Seq<FileEvent>
    decreases n,
{
    if n <= 0 {
        Seq::empty()
    } else if superseded(s, n - 1) {
        spec_dedup_prefix(s, n - 1)
    } else {
        spec_dedup_prefix(s, n - 1).push(s[n - 1])
    }
}

/// The deduplication of a batch: order preserved, each keyed event kept
/// only at its last occurrence.
pub open spec fn spec_dedup(s: Seq<FileEvent>) -> Seq<FileEvent> {
    spec_dedup_prefix(s, s.len() as int)
}

/// The number of events in `s` whose deduplication key is `p`.
pub open spec fn count_key(s: Seq<FileEvent>, p: Seq<char>) -> int
    decreases s.len(),
{
    if s.len() == 0 {
        0
    } else {
        count_key(s.drop_last(), p) + if s.last().spec_dedup_key() == Some(p) {
            1int
        } else {
            0int
        }
    }
}

/// The index of the last event in `s` with deduplication key `p`, or
/// `-1`.
pub open spec fn last_key_index(s: Seq<FileEvent>, p: Seq<char>) -> int
    decreases s.len(),
{
    if s.len() == 0 {
        -1
    } else if s.last().spec_dedup_key() == Some(p) {
        s.len() - 1
    } else {
        last_key_index(s.drop_last(), p)
    }
}

/// `last_key_index` finds the last occurrence of the key.
pub proof fn lemma_last_key_index(s: Seq<FileEvent>, p: Seq<char>)
    ensures
        -1 <= last_key_index(s, p) < s.len(),
        last_key_index(s, p) >= 0 ==> s[last_key_index(s, p)].spec_dedup_key() == Some(p),
        forall|j: int| last_key_index(s, p) < j < s.len() ==> s[j].spec_dedup_key() != Some(p),
    decreases s.len(),
{
    if s.len() > 0 && s.last().spec_dedup_key() != Some(p) {
        lemma_last_key_index(s.drop_last(), p);
        assert(forall|j: int| 0 <= j < s.len() - 1 ==> s[j] == s.drop_last()[j]);
    }
}

/// In the deduplication of the first `n` events, the key `p` occurs
/// exactly once when its last occurrence in `s` lies before `n`, and
/// not at all otherwise; when it occurs, the survivor is the event at
/// the last occurrence.
proof fn lemma_dedup_prefix_key(s: Seq<FileEvent>, p: Seq<char>, n: int)
    requires
        0 <= n <= s.len(),
    ensures
        count_key(spec_dedup_prefix(s, n), p) == if 0 <= last_key_index(s, p) < n {
            1int
        } else {
            0int
        },
        0 <= last_key_index(s, p) < n ==> spec_dedup_prefix(s, n).contains(
            s[last_key_index(s, p)],
        ),
    decreases n,
{
    lemma_last_key_index(s, p);
    if n > 0 {
        lemma_dedup_prefix_key(s, p, n - 1);
        let pre = spec_dedup_prefix(s, n - 1);
        let l = last_key_index(s, p);
        if superseded(s, n - 1) {
            if l == n - 1 {
                let j = choose|j: int|
                    n - 1 < j < s.len() && (#[trigger] s[j].spec_dedup_key()) == s[n
                        - 1].spec_dedup_key();
                assert(s[j].spec_dedup_key() == Some(p));
                assert(false);
            }
        } else {
            let post = pre.push(s[n - 1]);
            assert(post.drop_last() =~= pre);
            if s[n - 1].spec_dedup_key() == Some(p) {
                if l > n - 1 {
                    assert(superseded(s, n - 1));
                }
                assert(l == n - 1);
                assert(count_key(post, p) == count_key(pre, p) + 1);
                assert(post[post.len() - 1] == s[l]);
                assert(post.contains(s[l]));
            } else {
                assert(count_key(post, p) == count_key(pre, p));
                if 0 <= l < n - 1 {
                    let k = choose|k: int| 0 <= k < pre.len() && pre[k] == s[l];
                    assert(post[k] == s[l]);
                    assert(post.contains(s[l]));
                }
            }
        }
    }
}

/// Deduplicated drain keeps exactly one event per key, the most
/// recently enqueued one: if any event in the batch carries key `p`,
/// then exactly one event with key `p` survives deduplication, and it
/// is the event at the last occurrence of `p`.
pub proof fn lemma_dedup_last_event_survives(s: Seq<FileEvent>, p: Seq<char>)
    requires
        exists|i: int| 0 <= i < s.len() && (#[trigger] s[i].spec_dedup_key()) == Some(p),
    ensures
        0 <= last_key_index(s, p) < s.len(),
        s[last_key_index(s, p)].spec_dedup_key() == Some(p),
        count_key(spec_dedup(s), p) == 1,
        spec_dedup(s).contains(s[last_key_index(s, p)]),
{
    lemma_last_key_index(s, p);
    let i = choose|i: int| 0 <= i < s.len() && (#[trigger] s[i].spec_dedup_key()) == Some(p);
    if last_key_index(s, p) < i {
        assert(false);
    }
    lemma_dedup_prefix_key(s, p, s.len() as int);
}

/// Is some event after `i` keyed like the event at `i`?
fn has_later_same_key(batch: &Vec<FileEvent>, i: usize) -> (r: bool)
    requires
        i < batch@.len(),
    ensures
        r == superseded(batch@, i as int),
{
    let key = match batch[i].dedup_key() {
        Some(k) => k,
        None => {
            return false;
        },
    };
    let n = batch.len();
    let mut j = i + 1;
    while j < n
        invariant
            n == batch@.len(),
            i < j <= batch@.len(),
            batch@[i as int].spec_dedup_key() == Some(key@),
            forall|m: int|
                i < m < j ==> (#[trigger] batch@[m].spec_dedup_key()) != batch@[
                    i as int
                ].spec_dedup_key(),
        decreases batch@.len() - j,
    {
        let same = match batch[j].dedup_key() {
            Some(k2) => crate::text::str_eq(k2.as_str(), key.as_str()),
            None => false,
        };
        if same {
            return true;
        }
        j += 1;
    }
    false
}

/// Collapse a batch: each keyed event survives only at its last
/// occurrence; unkeyed events always survive.
fn dedup_events(batch: &Vec<FileEvent>) -> (r: Vec<FileEvent>)
    ensures
        r@ == spec_dedup(batch@),
{
    let mut out: Vec<FileEvent> = Vec::new();
    let mut i: usize = 0;
    while i < batch.len()
        invariant
            0 <= i <= batch@.len(),
            out@ == spec_dedup_prefix(batch@, i as int),
        decreases batch@.len() - i,
    {
        if !has_later_same_key(batch, i) {
            out.push(batch[i].clone());
        }
        i += 1;
    }
    out
}

/// A bounded queue of change events.
///
/// Sends are rejected once the queue is at capacity or closed; receives
/// drain in arrival order. Closing stops acceptance of new events while
/// what is queued may still be drained.
#[derive(Debug)]
pub struct EventQueue {
    pub buf: Vec<FileEvent>,
    pub config: QueueConfig,
    pub closed: bool,
}

/// The number of events one batch drain takes from a queue of length
/// `len`: none from an empty queue, otherwise at least one and at most
/// the batch size.
pub open spec fn spec_batch_take(len: int, batch_size: int) -> int {
    if len == 0 {
        0
    } else if batch_size < 1 {
        1
    } else if batch_size < len {
        batch_size
    } else {
        len
    }
}

impl EventQueue {
    /// The queue never exceeds its configured capacity.
    pub open spec fn wf(self) -> bool {
        &&& self.config.max_capacity >= 1
        &&& self.buf@.len() <= self.config.max_capacity
    }

    /// An empty queue with this configuration.
    pub fn new(config: QueueConfig) -> (r: EventQueue)
        requires
            config.max_capacity >= 1,
        ensures
            r.wf(),
            r.config == config,
            r.buf@.len() == 0,
            !r.closed,
    {
        EventQueue { buf: Vec::new(), config, closed: false }
    }

    /// Enqueue an event without waiting: the event is handed back when
    /// the queue is full or closed.
    pub fn try_send(&mut self, event: FileEvent) -> (r: Result<(), FileEvent>)
        requires
            old(self).wf(),
        ensures
            final(self).wf(),
            final(self).config == old(self).config,
            final(self).closed == old(self).closed,
            if old(self).closed || old(self).buf@.len() == old(self).config.max_capacity {
                r matches Err(e) && e == event && final(self).buf@ == old(self).buf@
            } else {
                r is Ok && final(self).buf@ == old(self).buf@.push(event)
            },
    {
        if self.closed || self.buf.len() == self.config.max_capacity {
            return Err(event);
        }
        self.buf.push(event);
        Ok(())
    }

    /// Dequeue the oldest event, if any. This never waits: an empty
    /// queue yields `None`.
    pub fn recv(&mut self) -> (r: Option<FileEvent>)
        requires
            old(self).wf(),
        ensures
            final(self).wf(),
            final(self).config == old(self).config,
            final(self).closed == old(self).closed,
            if old(self).buf@.len() == 0 {
                r is None && final(self).buf@ == old(self).buf@
            } else {
                r == Some(old(self).buf@[0]) && final(self).buf@ == old(self).buf@.subrange(
                    1,
                    old(self).buf@.len() as int,
                )
            },
    {
        if self.buf.len() == 0 {
            return None;
        }
        let ev = self.buf.remove(0);
        proof {
            assert(old(self).buf@.remove(0) =~= old(self).buf@.subrange(
                1,
                old(self).buf@.len() as int,
            ));
        }
        Some(ev)
    }

    /// Drain a batch in arrival order: nothing from an empty queue,
    /// otherwise at least one event and at most the configured batch
    /// size, as they are, without deduplication.
    pub fn recv_batch(&mut self) -> (r: Vec<FileEvent>)
        requires
            old(self).wf(),
        ensures
            final(self).wf(),
            final(self).config == old(self).config,
            final(self).closed == old(self).closed,
            ({
                let take = spec_batch_take(
                    old(self).buf@.len() as int,
                    old(self).config.batch_size as int,
                );
                &&& r@ == old(self).buf@.subrange(0, take)
                &&& final(self).buf@ == old(self).buf@.subrange(
                    take,
                    old(self).buf@.len() as int,
                )
            }),
    {
        let ghost take = spec_batch_take(
            old(self).buf@.len() as int,
            old(self).config.batch_size as int,
        );
        let mut out: Vec<FileEvent> = Vec::new();
        if self.buf.len() == 0 {
            proof {
                assert(old(self).buf@.subrange(0, 0) =~= Seq::<FileEvent>::empty());
                assert(self.buf@ =~= old(self).buf@.subrange(0, old(self).buf@.len() as int));
            }
            return out;
        }
        let n = if self.config.batch_size < 1 {
            1
        } else if self.config.batch_size < self.buf.len() {
            self.config.batch_size
        } else {
            self.buf.len()
        };
        let mut k: usize = 0;
        while k < n
            invariant
                old(self).wf(),
                n == take,
                0 < take <= old(self).buf@.len(),
                0 <= k <= n,
                out@ == old(self).buf@.subrange(0, k as int),
                self.buf@ == old(self).buf@.subrange(k as int, old(self).buf@.len() as int),
                self.config == old(self).config,
                self.closed == old(self).closed,
            decreases n - k,
        {
            let ev = self.buf.remove(0);
            out.push(ev);
            proof {
                assert(out@ =~= old(self).buf@.subrange(0, k + 1));
                assert(self.buf@ =~= old(self).buf@.subrange(
                    k + 1,
                    old(self).buf@.len() as int,
                ));
            }
            k += 1;
        }
        out
    }

    /// Drain a batch, then collapse events sharing a primary path down
    /// to the most recently enqueued one. Scan-lifecycle and error
    /// events are never collapsed.
    pub fn recv_deduplicated(&mut self) -> (r: Vec<FileEvent>)
        requires
            old(self).wf(),
        ensures
            final(self).wf(),
            final(self).config == old(self).config,
            final(self).closed == old(self).closed,
            ({
                let take = spec_batch_take(
                    old(self).buf@.len() as int,
                    old(self).config.batch_size as int,
                );
                &&& r@ == spec_dedup(old(self).buf@.subrange(0, take))
                &&& final(self).buf@ == old(self).buf@.subrange(
                    take,
                    old(self).buf@.len() as int,
                )
            }),
    {
        let batch = self.recv_batch();
        dedup_events(&batch)
    }

    /// The number of queued events.
    pub fn len(&self) -> (r: usize)
        ensures
            r == self.buf@.len(),
    {
        self.buf.len()
    }

    /// Whether the queue is empty.
    pub fn is_empty(&self) -> (r: bool)
        ensures
            r == (self.buf@.len() == 0),
    {
        self.buf.len() == 0
    }

    /// Stop accepting events. What is queued may still be drained.
    pub fn close(&mut self)
        requires
            old(self).wf(),
        ensures
            final(self).wf(),
            final(self).closed,
            final(self).buf@ == old(self).buf@,
            final(self).config == old(self).config,
    {
        self.closed = true;
    }
}

/// A consumer of change events.
pub trait EventHandler {
    /// Handle one event.
    fn handle(&mut self, event: FileEvent) -> Result<(), String>;

    /// Handle a batch of events in order, stopping at the first
    /// failure.
    fn handle_batch(&mut self, events: Vec<FileEvent>) -> Result<(), String>;
}

/// The entry at `i` of a pending map carries key `k`.
pub open spec fn pending_key_at(s: Seq<(String, FileEvent)>, i: int, k: Seq<char>) -> bool {
    0 <= i < s.len() && s[i].0@ == k
}

/// Some entry of a pending map carries key `k`.
pub open spec fn has_pending_key(s: Seq<(String, FileEvent)>, k: Seq<char>) -> bool {
    exists|i: int| #[trigger] pending_key_at(s, i, k)
}

/// All keys of a pending map are distinct.
pub open spec fn pending_keys_distinct(s: Seq<(String, FileEvent)>) -> bool {
    forall|i: int, j: int| 0 <= i < j < s.len() ==> s[i].0@ != s[j].0@
}

/// `post` is `pre` with the entry for the event's primary path replaced
/// by (or extended with) the event: the latest event wins within a
/// debounce window.
pub open spec fn pending_updated(
    pre: Seq<(String, FileEvent)>,
    post: Seq<(String, FileEvent)>,
    event: FileEvent,
) -> bool {
    let k = event.spec_primary_path();
    &&& forall|i: int|
        pending_key_at(pre, i, k) ==> {
            &&& post.len() == pre.len()
            &&& post[i].0@ == k
            &&& post[i].1 == event
            &&& forall|j: int| 0 <= j < pre.len() && j != i ==> post[j] == pre[j]
        }
    &&& !has_pending_key(pre, k) ==> {
        &&& post.len() == pre.len() + 1
        &&& post.drop_last() == pre
        &&& post.last().0@ == k
        &&& post.last().1 == event
    }
}

/// Debounce is last-write-wins: recording two events for the same path
/// in a row leaves exactly the second one pending for that path.
pub proof fn lemma_debounce_last_write_wins(
    p0: Seq<(String, FileEvent)>,
    p1: Seq<(String, FileEvent)>,
    p2: Seq<(String, FileEvent)>,
    e1: FileEvent,
    e2: FileEvent,
)
    requires
        pending_keys_distinct(p0),
        pending_updated(p0, p1, e1),
        pending_updated(p1, p2, e2),
        e1.spec_primary_path() == e2.spec_primary_path(),
    ensures
        has_pending_key(p2, e2.spec_primary_path()),
        forall|i: int|
            pending_key_at(p2, i, e2.spec_primary_path()) ==> p2[i].1 == e2,
{
    let k = e1.spec_primary_path();
    if has_pending_key(p0, k) {
        let i = choose|i: int| #[trigger] pending_key_at(p0, i, k);
        assert(pending_key_at(p1, i, k));
        assert(pending_key_at(p2, i, k));
        assert(has_pending_key(p2, k));
        assert forall|m: int| pending_key_at(p2, m, k) implies p2[m].1 == e2 by {
            if m != i {
                assert(p1[m] == p0[m]);
                assert(p0[m].0@ != p0[i].0@ || m == i);
                assert(p2[m] == p1[m]);
                assert(pending_key_at(p0, m, k));
                assert(false);
            }
        }
    } else {
        let l = p0.len() as int;
        assert(pending_key_at(p1, l, k));
        assert(pending_key_at(p2, l, k));
        assert(has_pending_key(p2, k));
        assert forall|m: int| pending_key_at(p2, m, k) implies p2[m].1 == e2 by {
            if m != l {
                assert(p2[m] == p1[m]);
                if m < l {
                    assert(p1[m] == p0[m]);
                    assert(pending_key_at(p0, m, k));
                    assert(false);
                }
            }
        }
    }
}

/// A handler that debounces: it keeps only the latest pending event per
/// path and hands events on to an inner handler when they fall due.
#[derive(Debug)]
pub struct DebouncedHandler<H> {
    pub inner: H,
    pub delay_ms: u64,
    pub pending: Vec<(String, FileEvent)>,
}

impl<H: EventHandler> DebouncedHandler<H> {
    /// The pending map holds at most one entry per path.
    pub open spec fn wf(self) -> bool {
        pending_keys_distinct(self.pending@)
    }

    /// A debouncing wrapper around `handler` with this delay.
    pub fn new(handler: H, delay_ms: u64) -> (r: DebouncedHandler<H>)
        ensures
            r.wf(),
            r.delay_ms == delay_ms,
            r.pending@.len() == 0,
    {
        DebouncedHandler { inner: handler, delay_ms, pending: Vec::new() }
    }

    /// Remember an event under its primary path, replacing whatever was
    /// pending for that path: the latest event wins within the window.
    pub fn record(&mut self, event: FileEvent)
        ensures
            final(self).delay_ms == old(self).delay_ms,
            final(self).inner == old(self).inner,
            old(self).wf() ==> final(self).wf() && pending_updated(
                old(self).pending@,
                final(self).pending@,
                event,
            ),
    {
        let key: String = match event.primary_path() {
            Some(p) => p.clone(),
            None => String::new(),
        };
        let mut i: usize = 0;
        while i < self.pending.len()
            invariant
                *self == *old(self),
                key@ == event.spec_primary_path(),
                0 <= i <= self.pending@.len(),
                forall|m: int| 0 <= m < i ==> (#[trigger] self.pending@[m].0)@ != key@,
            decreases self.pending@.len() - i,
        {
            if crate::text::str_eq(self.pending[i].0.as_str(), key.as_str()) {
                proof {
                    assert(pending_key_at(old(self).pending@, i as int, key@));
                    if old(self).wf() {
                        assert forall|m: int|
                            pending_key_at(old(self).pending@, m, key@) implies m
                            == i as int by {
                            if m < i as int {
                                assert(old(self).pending@[m].0@ != key@);
                            } else if m > i as int {
                                assert(old(self).pending@[i as int].0@ != old(
                                    self,
                                ).pending@[m].0@);
                            }
                        };
                    }
                }
                self.pending.set(i, (key, event));
                return ;
            }
            i += 1;
        }
        proof {
            assert forall|m: int| !pending_key_at(old(self).pending@, m, key@) by {
                if 0 <= m < old(self).pending@.len() {
                    assert(old(self).pending@[m].0@ != key@);
                }
            };
        }
        self.pending.push((key, event));
        proof {
            assert(self.pending@.drop_last() =~= old(self).pending@);
        }
    }

    /// Take the event pending for a path, if any, once its delay has
    /// elapsed.
    pub fn take_due(&mut self, path: &str) -> (r: Option<FileEvent>)
        requires
            old(self).wf(),
        ensures
            final(self).wf(),
            final(self).delay_ms == old(self).delay_ms,
            final(self).inner == old(self).inner,
            !has_pending_key(old(self).pending@, path@) ==> r is None && final(self).pending@
                == old(self).pending@,
            forall|i: int|
                pending_key_at(old(self).pending@, i, path@) ==> {
                    &&& r == Some(old(self).pending@[i].1)
                    &&& final(self).pending@ == old(self).pending@.remove(i)
                },
    {
        let mut i: usize = 0;
        while i < self.pending.len()
            invariant
                *self == *old(self),
                old(self).wf(),
                0 <= i <= self.pending@.len(),
                forall|m: int| 0 <= m < i ==> (#[trigger] self.pending@[m].0)@ != path@,
            decreases self.pending@.len() - i,
        {
            if crate::text::str_eq(self.pending[i].0.as_str(), path) {
                proof {
                    assert(pending_key_at(old(self).pending@, i as int, path@));
                    assert forall|m: int|
                        pending_key_at(old(self).pending@, m, path@) implies m == i as int by {
                        if m < i as int {
                            assert(old(self).pending@[m].0@ != path@);
                        } else if m > i as int {
                            assert(old(self).pending@[i as int].0@ != old(
                                self,
                            ).pending@[m].0@);
                        }
                    };
                }
                let entry = self.pending.remove(i);
                return Some(entry.1);
            }
            i += 1;
        }
        proof {
            assert forall|m: int| !pending_key_at(old(self).pending@, m, path@) by {
                if 0 <= m < old(self).pending@.len() {
                    assert(old(self).pending@[m].0@ != path@);
                }
            };
        }
        None
    }

    /// Deliver the event pending for a path to the inner handler, if
    /// one is pending.
    pub fn flush(&mut self, path: &str) -> (r: Result<(), String>)
        requires
            old(self).wf(),
        ensures
            final(self).wf(),
            !has_pending_key(old(self).pending@, path@) ==> r is Ok && final(self).pending@
                == old(self).pending@,
            forall|i: int|
                pending_key_at(old(self).pending@, i, path@) ==> final(self).pending@ == old(
                    self,
                ).pending@.remove(i),
    {
        match self.take_due(path) {
            Some(event) => self.inner.handle(event),
            None => Ok(()),
        }
    }
}

/// `post` is `pre` after recording each event of `events` in order:
/// the fold of `pending_updated` over the batch.
pub open spec fn spec_record_all(
    pre: Seq<(String, FileEvent)>,
    post: Seq<(String, FileEvent)>,
    events: Seq<FileEvent>,
) -> bool
    decreases events.len(),
{
    if events.len() == 0 {
        post == pre
    } else {
        exists|mid: Seq<(String, FileEvent)>|
            #[trigger] pending_updated(pre, mid, events[0]) && spec_record_all(
                mid,
                post,
                events.drop_first(),
            )
    }
}

/// Recording one more event extends the fold by one step.
pub proof fn lemma_record_all_snoc(
    pre: Seq<(String, FileEvent)>,
    mid2: Seq<(String, FileEvent)>,
    post: Seq<(String, FileEvent)>,
    events: Seq<FileEvent>,
    e: FileEvent,
)
    requires
        spec_record_all(pre, mid2, events),
        pending_updated(mid2, post, e),
    ensures
        spec_record_all(pre, post, events.push(e)),
    decreases events.len(),
{
    if events.len() == 0 {
        assert(events.push(e)[0] == e);
        assert(events.push(e).drop_first() =~= Seq::<FileEvent>::empty());
        assert(pending_updated(pre, post, e));
        assert(spec_record_all(post, post, events.push(e).drop_first()));
    } else {
        let mid1 = choose|mid1: Seq<(String, FileEvent)>|
            #[trigger] pending_updated(pre, mid1, events[0]) && spec_record_all(
                mid1,
                mid2,
                events.drop_first(),
            );
        lemma_record_all_snoc(mid1, mid2, post, events.drop_first(), e);
        assert(events.push(e)[0] == events[0]);
        assert(events.push(e).drop_first() =~= events.drop_first().push(e));
        assert(pending_updated(pre, mid1, events.push(e)[0]) && spec_record_all(
            mid1,
            post,
            events.push(e).drop_first(),
        ));
    }
}

impl<H: EventHandler> EventHandler for DebouncedHandler<H> {
    /// Remember the event for its primary path, replacing whatever was
    /// pending there; it is delivered when `flush` runs after the
    /// delay.
    fn handle(&mut self, event: FileEvent) -> (r: Result<(), String>)
        ensures
            r is Ok,
            final(self).delay_ms == old(self).delay_ms,
            final(self).inner == old(self).inner,
            old(self).wf() ==> final(self).wf() && pending_updated(
                old(self).pending@,
                final(self).pending@,
                event,
            ),
    {
        let has_primary = match event.primary_path() {
            Some(_) => true,
            None => false,
        };
        if has_primary {
            self.record(event);
            Ok(())
        } else {
            self.inner.handle(event)
        }
    }

    /// Remember each event of the batch in order: afterwards the
    /// pending map is the fold of recording over the batch.
    fn handle_batch(&mut self, events: Vec<FileEvent>) -> (r: Result<(), String>)
        ensures
            r is Ok,
            final(self).delay_ms == old(self).delay_ms,
            final(self).inner == old(self).inner,
            old(self).wf() ==> final(self).wf() && spec_record_all(
                old(self).pending@,
                final(self).pending@,
                events@,
            ),
    {
        proof {
            assert(events@.subrange(0, 0) =~= Seq::<FileEvent>::empty());
        }
        let mut i: usize = 0;
        while i < events.len()
            invariant
                0 <= i <= events@.len(),
                self.delay_ms == old(self).delay_ms,
                self.inner == old(self).inner,
                old(self).wf() ==> self.wf() && spec_record_all(
                    old(self).pending@,
                    self.pending@,
                    events@.subrange(0, i as int),
                ),
            decreases events@.len() - i,
        {
            let ev = events[i].clone();
            let ghost prev_pending = self.pending@;
            match self.handle(ev) {
                Ok(_) => {},
                Err(e) => {
                    return Err(e);
                },
            }
            proof {
                if old(self).wf() {
                    lemma_record_all_snoc(
                        old(self).pending@,
                        prev_pending,
                        self.pending@,
                        events@.subrange(0, i as int),
                        events@[i as int],
                    );
                    assert(events@.subrange(0, i + 1) =~= events@.subrange(0, i as int).push(
                        events@[i as int],
                    ));
                }
            }
            i += 1;
        }
        proof {
            assert(events@.subrange(0, events@.len() as int) =~= events@);
        }
        Ok(())
    }
}

} // verus!
