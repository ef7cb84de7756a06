//! The auto-tag engine and its binding to the index.
//!
//! `AutoTagger` evaluates an ordered list of rules against a file's
//! metadata and yields the names of every matching rule; the rules are
//! independent, so a file may match none, one or many. `TagGenerator`
//! persists the generated names as automatic tag associations.

use vstd::prelude::*;
use crate::models::{AppError, File};
use crate::rules::{TagRule, default_rules, is_default_rules, spec_rule_matches};
use crate::store::Database;
use crate::time::{DateContext, DateParts, date_parts};

verus! {

/// The names of the rules in `rules` that match the file, in rule
/// order.
pub open spec fn spec_generate(
    rules: Seq<TagRule>,
    file: File,
    fd: Option<DateParts>,
    ctx: DateContext,
) -> Seq<Seq<char>>
    decreases rules.len(),
{
    if rules.len() == 0 {
        Seq::empty()
    } else {
        let rest = spec_generate(rules.drop_last(), file, fd, ctx);
        if spec_rule_matches(rules.last(), file, fd, ctx) {
            rest.push(rules.last().name@)
        } else {
            rest
        }
    }
}

/// The rules `rules` with every rule named `name` removed.
pub open spec fn spec_remove_rule(rules: Seq<TagRule>, name: Seq<char>) -> Seq<TagRule>
    decreases rules.len(),
{
    if rules.len() == 0 {
        Seq::empty()
    } else {
        let rest = spec_remove_rule(rules.drop_last(), name);
        if rules.last().name@ == name {
            rest
        } else {
            rest.push(rules.last())
        }
    }
}

/// The rule interpreter: an ordered list of declarative rules.
#[derive(Debug)]
pub struct AutoTagger {
    pub rules: Vec<TagRule>,
}

impl AutoTagger {
    /// A tagger with the default rules.
    pub fn new() -> (r: AutoTagger)
        ensures
            is_default_rules(r.rules@),
    {
        AutoTagger { rules: default_rules() }
    }

    /// A tagger with the given rules.
    pub fn with_rules(rules: Vec<TagRule>) -> (r: AutoTagger)
        ensures
            r.rules == rules,
    {
        AutoTagger { rules }
    }

    /// The names of all rules that match the file, under an already
    /// captured clock context.
    pub fn generate_tags_at(&self, file: &File, fd: &Option<DateParts>, ctx: &DateContext) -> (r:
        Vec<String>)
        requires
            ctx.wf(),
            fd matches Some(d) ==> d.wf(),
        ensures
            r.deep_view() == spec_generate(self.rules@, *file, *fd, *ctx),
    {
        let mut out: Vec<String> = Vec::new();
        let mut i: usize = 0;
        while i < self.rules.len()
            invariant
                ctx.wf(),
                fd matches Some(d) ==> d.wf(),
                0 <= i <= self.rules@.len(),
                out.deep_view() == spec_generate(
                    self.rules@.subrange(0, i as int),
                    *file,
                    *fd,
                    *ctx,
                ),
            decreases self.rules@.len() - i,
        {
            proof {
                assert(self.rules@.subrange(0, i + 1).drop_last() =~= self.rules@.subrange(
                    0,
                    i as int,
                ));
            }
            if self.rules[i].matches_at(file, fd, ctx) {
                out.push(self.rules[i].name.clone());
                proof {
                    assert(out.deep_view() =~= spec_generate(
                        self.rules@.subrange(0, i + 1),
                        *file,
                        *fd,
                        *ctx,
                    ));
                }
            }
            i += 1;
        }
        proof {
            assert(self.rules@.subrange(0, self.rules@.len() as int) =~= self.rules@);
        }
        out
    }

    /// The names of all rules that match the file, under the current
    /// clock: what `generate_tags_at` yields for some well-formed clock
    /// context and the calendar form of the file's modification time.
    pub fn generate_tags(&self, file: &File) -> (r: Vec<String>)
        ensures
            exists|fd: Option<DateParts>, ctx: DateContext|
                {
                    &&& ctx.wf()
                    &&& (fd matches Some(d) ==> d.wf() && d.ts == file.modified_at)
                    &&& (-8_000_000_000_000 <= file.modified_at <= 8_000_000_000_000
                        ==> fd is Some)
                    &&& r.deep_view() == spec_generate(self.rules@, *file, fd, ctx)
                },
    {
        let ctx = DateContext::capture();
        let fd = date_parts(file.modified_at);
        let r = self.generate_tags_at(file, &fd, &ctx);
        proof {
            assert({
                &&& ctx.wf()
                &&& (fd matches Some(d) ==> d.wf() && d.ts == file.modified_at)
                &&& (-8_000_000_000_000 <= file.modified_at <= 8_000_000_000_000
                    ==> fd is Some)
                &&& r.deep_view() == spec_generate(self.rules@, *file, fd, ctx)
            });
        }
        r
    }

    /// The current rules.
    pub fn rules(&self) -> (r: &Vec<TagRule>)
        ensures
            r@ == self.rules@,
    {
        &self.rules
    }

    /// Append a rule.
    pub fn add_rule(&mut self, rule: TagRule)
        ensures
            final(self).rules@ == old(self).rules@.push(rule),
    {
        self.rules.push(rule);
    }

    /// Remove every rule with this name.
    pub fn remove_rule(&mut self, name: &str)
        ensures
            final(self).rules@ == spec_remove_rule(old(self).rules@, name@),
    {
        let ghost orig = self.rules@;
        let ghost mut p: int = 0;
        let mut i: usize = 0;
        loop
            invariant
                orig == old(self).rules@,
                0 <= i <= self.rules@.len(),
                0 <= p <= orig.len(),
                i as int == spec_remove_rule(orig.subrange(0, p), name@).len(),
                self.rules@ =~= spec_remove_rule(orig.subrange(0, p), name@) + orig.subrange(
                    p,
                    orig.len() as int,
                ),
            decreases orig.len() - p,
        {
            if i >= self.rules.len() {
                proof {
                    assert(p == orig.len());
                    assert(orig.subrange(0, p) =~= orig);
                    assert(self.rules@ =~= spec_remove_rule(orig, name@));
                }
                return ;
            }
            proof {
                assert(p < orig.len());
                assert(self.rules@[i as int] == orig[p]);
                assert(orig.subrange(0, p + 1).drop_last() =~= orig.subrange(0, p));
                assert(orig.subrange(0, p + 1).last() == orig[p]);
            }
            if crate::text::str_eq(self.rules[i].name.as_str(), name) {
                self.rules.remove(i);
                proof {
                    assert(self.rules@ =~= spec_remove_rule(orig.subrange(0, p + 1), name@)
                        + orig.subrange(p + 1, orig.len() as int));
                    p = p + 1;
                }
            } else {
                proof {
                    assert(spec_remove_rule(orig.subrange(0, p + 1), name@)
                        =~= spec_remove_rule(orig.subrange(0, p), name@).push(orig[p]));
                    assert(self.rules@ =~= spec_remove_rule(orig.subrange(0, p + 1), name@)
                        + orig.subrange(p + 1, orig.len() as int));
                    p = p + 1;
                }
                i += 1;
            }
        }
    }

    /// Replace the rules with the default set.
    pub fn reset_to_default(&mut self)
        ensures
            is_default_rules(final(self).rules@),
    {
        self.rules = default_rules();
    }
}

/// The sum of the counts, saturating at the machine limit.
pub open spec fn spec_sat_sum(counts: Seq<int>) -> int
    decreases counts.len(),
{
    if counts.len() == 0 {
        0
    } else {
        let rest = spec_sat_sum(counts.drop_last());
        if rest + counts.last() > usize::MAX {
            usize::MAX as int
        } else {
            rest + counts.last()
        }
    }
}

/// The clock context a tagging run was evaluated under: well-formed,
/// with the calendar form tied to the file's modification time and
/// present for every representable instant.
pub open spec fn tagging_context_ok(file: File, fd: Option<DateParts>, ctx: DateContext) -> bool {
    &&& ctx.wf()
    &&& (fd matches Some(d) ==> d.wf() && d.ts == file.modified_at)
    &&& (-8_000_000_000_000 <= file.modified_at <= 8_000_000_000_000 ==> fd is Some)
}

/// Every name generated for the file under this context is linked to
/// it in the index.
pub open spec fn all_tags_linked(
    db: Database,
    rules: Seq<TagRule>,
    file: File,
    fd: Option<DateParts>,
    ctx: DateContext,
) -> bool {
    forall|k: int|
        0 <= k < spec_generate(rules, file, fd, ctx).len() ==> db.name_pair_linked(
            file.id->0,
            #[trigger] spec_generate(rules, file, fd, ctx)[k],
        )
}

/// Every name generated for the file under this context that the index
/// holds a tag for is linked to it.
pub open spec fn named_tags_linked(
    db: Database,
    rules: Seq<TagRule>,
    file: File,
    fd: Option<DateParts>,
    ctx: DateContext,
) -> bool {
    forall|k: int|
        0 <= k < spec_generate(rules, file, fd, ctx).len() && db.has_tag_name(
            #[trigger] spec_generate(rules, file, fd, ctx)[k],
        ) ==> db.name_pair_linked(file.id->0, spec_generate(rules, file, fd, ctx)[k])
}

/// The file's generated tags are all persisted: under some well-formed
/// clock context, `count` is the number of generated names and every
/// generated name is linked to the file. A file without an identifier
/// generates no work.
pub open spec fn file_tagged_in(db: Database, rules: Seq<TagRule>, file: File, count: int) -> bool {
    if file.id is None {
        count == 0
    } else {
        exists|fd: Option<DateParts>, ctx: DateContext|
            #![trigger all_tags_linked(db, rules, file, fd, ctx)]
            {
                &&& tagging_context_ok(file, fd, ctx)
                &&& count == spec_generate(rules, file, fd, ctx).len()
                &&& all_tags_linked(db, rules, file, fd, ctx)
            }
    }
}

/// The file's generated tags are persisted as far as tags exist for
/// them, under some well-formed clock context.
pub open spec fn file_tagged_where_named(db: Database, rules: Seq<TagRule>, file: File) -> bool {
    file.id is Some ==> exists|fd: Option<DateParts>, ctx: DateContext|
        #![trigger named_tags_linked(db, rules, file, fd, ctx)]
        {
            &&& tagging_context_ok(file, fd, ctx)
            &&& named_tags_linked(db, rules, file, fd, ctx)
        }
}

/// Persisted tagging survives any change that keeps the existing
/// name-to-file links.
pub proof fn lemma_file_tagged_in_monotone(
    db1: Database,
    db2: Database,
    rules: Seq<TagRule>,
    file: File,
    count: int,
)
    requires
        file_tagged_in(db1, rules, file, count),
        forall|f2: i64, n2: Seq<char>|
            #[trigger] db1.name_pair_linked(f2, n2) ==> db2.name_pair_linked(f2, n2),
    ensures
        file_tagged_in(db2, rules, file, count),
{
    if file.id is Some {
        let (fd, ctx) = choose|fd: Option<DateParts>, ctx: DateContext|
            #![trigger all_tags_linked(db1, rules, file, fd, ctx)]
            {
                &&& tagging_context_ok(file, fd, ctx)
                &&& count == spec_generate(rules, file, fd, ctx).len()
                &&& all_tags_linked(db1, rules, file, fd, ctx)
            };
        assert forall|k: int|
            0 <= k < spec_generate(rules, file, fd, ctx).len() implies db2.name_pair_linked(
            file.id->0,
            #[trigger] spec_generate(rules, file, fd, ctx)[k],
        ) by {
            assert(db1.name_pair_linked(file.id->0, spec_generate(rules, file, fd, ctx)[k]));
        };
        assert(all_tags_linked(db2, rules, file, fd, ctx));
    }
}

/// Full tagging is tagging as far as tags exist.
pub proof fn lemma_file_tagged_in_weakens(
    db: Database,
    rules: Seq<TagRule>,
    file: File,
    count: int,
)
    requires
        file_tagged_in(db, rules, file, count),
    ensures
        file_tagged_where_named(db, rules, file),
{
    if file.id is Some {
        let (fd, ctx) = choose|fd: Option<DateParts>, ctx: DateContext|
            #![trigger all_tags_linked(db, rules, file, fd, ctx)]
            {
                &&& tagging_context_ok(file, fd, ctx)
                &&& count == spec_generate(rules, file, fd, ctx).len()
                &&& all_tags_linked(db, rules, file, fd, ctx)
            };
        assert(named_tags_linked(db, rules, file, fd, ctx));
    }
}

/// Tagging as far as tags exist survives any change that keeps the
/// existing links and adds no tag names.
pub proof fn lemma_where_named_monotone(
    db1: Database,
    db2: Database,
    rules: Seq<TagRule>,
    file: File,
)
    requires
        file_tagged_where_named(db1, rules, file),
        forall|f2: i64, n2: Seq<char>|
            #[trigger] db1.name_pair_linked(f2, n2) ==> db2.name_pair_linked(f2, n2),
        forall|n2: Seq<char>| #[trigger] db2.has_tag_name(n2) ==> db1.has_tag_name(n2),
    ensures
        file_tagged_where_named(db2, rules, file),
{
    if file.id is Some {
        let (fd, ctx) = choose|fd: Option<DateParts>, ctx: DateContext|
            #![trigger named_tags_linked(db1, rules, file, fd, ctx)]
            {
                &&& tagging_context_ok(file, fd, ctx)
                &&& named_tags_linked(db1, rules, file, fd, ctx)
            };
        assert forall|k: int|
            0 <= k < spec_generate(rules, file, fd, ctx).len() && db2.has_tag_name(
                #[trigger] spec_generate(rules, file, fd, ctx)[k],
            ) implies db2.name_pair_linked(file.id->0, spec_generate(rules, file, fd, ctx)[k]) by {
            assert(db1.has_tag_name(spec_generate(rules, file, fd, ctx)[k]));
            assert(db1.name_pair_linked(file.id->0, spec_generate(rules, file, fd, ctx)[k]));
        };
        assert(named_tags_linked(db2, rules, file, fd, ctx));
    }
}

impl Default for AutoTagger {
    /// A tagger with the default rules.
    fn default() -> (r: AutoTagger)
        ensures
            is_default_rules(r.rules@),
    {
        AutoTagger::new()
    }
}

/// The tag generator: a rule interpreter bound to the index.
#[derive(Debug)]
pub struct TagGenerator {
    pub tagger: AutoTagger,
    pub db: Database,
}

impl TagGenerator {
    /// A generator over `db` with the default rules.
    pub fn new(db: Database) -> (r: TagGenerator)
        ensures
            r.db == db,
            is_default_rules(r.tagger.rules@),
    {
        TagGenerator { tagger: AutoTagger::new(), db }
    }

    /// Generate tags for one file and persist each as an automatic
    /// association. A file without an identifier yields no work. A
    /// failed association does not stop the remaining names: they are
    /// still persisted, and the first failure is reported afterwards.
    ///
    /// An association fails exactly when its tag had to be provisioned
    /// and the tag identifiers are exhausted; on a reported failure the
    /// tag identifiers are at their limit, and every generated name the
    /// index holds a tag for is nevertheless linked.
    pub fn process_file(&mut self, file: &File) -> (r: Result<usize, AppError>)
        requires
            old(self).db.wf(),
        ensures
            final(self).db.wf(),
            final(self).tagger == old(self).tagger,
            final(self).db.files@ == old(self).db.files@,
            final(self).db.watched_dirs@ == old(self).db.watched_dirs@,
            final(self).db.next_tag_id >= old(self).db.next_tag_id,
            forall|f2: i64, n2: Seq<char>|
                #[trigger] old(self).db.name_pair_linked(f2, n2)
                    ==> final(self).db.name_pair_linked(f2, n2),
            old(self).db.next_tag_id == i64::MAX ==> (forall|n2: Seq<char>|
                #[trigger] final(self).db.has_tag_name(n2) ==> old(self).db.has_tag_name(n2)),
            file.id is None ==> (r matches Ok(n) && n == 0 && final(self).db == old(self).db),
            r matches Ok(n) ==> file_tagged_in(
                final(self).db,
                old(self).tagger.rules@,
                *file,
                n as int,
            ),
            r is Err ==> final(self).db.next_tag_id == i64::MAX && file_tagged_where_named(
                final(self).db,
                old(self).tagger.rules@,
                *file,
            ),
    {
        let tags = self.tagger.generate_tags(file);
        let fid = match file.id {
            Some(fid) => fid,
            None => {
                return Ok(0);
            },
        };
        let ghost all = tags.deep_view();
        let mut added: usize = 0;
        let mut failure: Option<AppError> = None;
        let mut i: usize = 0;
        while i < tags.len()
            invariant
                self.db.wf(),
                old(self).db.wf(),
                all == tags.deep_view(),
                self.tagger == old(self).tagger,
                self.db.files@ == old(self).db.files@,
                self.db.watched_dirs@ == old(self).db.watched_dirs@,
                self.db.next_tag_id >= old(self).db.next_tag_id,
                forall|f2: i64, n2: Seq<char>|
                    #[trigger] old(self).db.name_pair_linked(f2, n2) ==> self.db.name_pair_linked(
                        f2,
                        n2,
                    ),
                forall|n2: Seq<char>|
                    #[trigger] self.db.has_tag_name(n2) ==> old(self).db.has_tag_name(n2)
                        || (exists|k: int| 0 <= k < i && (#[trigger] all[k]) == n2),
                old(self).db.next_tag_id == i64::MAX ==> (forall|n2: Seq<char>|
                    #[trigger] self.db.has_tag_name(n2) ==> old(self).db.has_tag_name(n2)),
                0 <= i <= tags@.len(),
                file.id == Some(fid),
                failure is None ==> added == i && (forall|k: int|
                    0 <= k < i ==> self.db.name_pair_linked(fid, #[trigger] all[k])),
                failure is Some ==> self.db.next_tag_id == i64::MAX && (forall|k: int|
                    0 <= k < i ==> self.db.name_pair_linked(fid, #[trigger] all[k])
                        || !self.db.has_tag_name(all[k])),
            decreases tags@.len() - i,
        {
            let ghost prev = self.db;
            let outcome = self.db.add_tag_to_file_by_name(fid, tags[i].as_str(), true);
            proof {
                assert(tags@[i as int]@ == all[i as int]);
                assert forall|f2: i64, n2: Seq<char>|
                    #[trigger] prev.name_pair_linked(f2, n2) implies self.db.name_pair_linked(
                    f2,
                    n2,
                ) by {
                    let j = choose|j: int|
                        {
                            &&& 0 <= j < prev.tags@.len()
                            &&& (#[trigger] prev.tags@[j]).name@ == n2
                            &&& prev.tags@[j].id matches Some(t2) && prev.has_pair(f2, t2)
                        };
                    assert(self.db.tags@[j].name@ == n2);
                    assert(self.db.tags@[j].id == prev.tags@[j].id);
                    let t2 = prev.tags@[j].id->0;
                    assert(prev.has_pair(f2, t2));
                    assert(self.db.has_pair(f2, t2));
                    assert(self.db.name_pair_linked(f2, n2));
                };
            }
            match outcome {
                Ok(_) => {
                    proof {
                        assert(self.db.name_pair_linked(fid, all[i as int]));
                    }
                    if failure.is_none() {
                        added += 1;
                    }
                },
                Err(_) => {},
            }
            proof {
                if outcome is Err {
                    assert(self.db == prev);
                    assert(!self.db.has_tag_name(all[i as int]));
                }
                if old(self).db.next_tag_id == i64::MAX {
                    assert(prev.next_tag_id == i64::MAX);
                    assert forall|n2: Seq<char>|
                        #[trigger] self.db.has_tag_name(n2) implies prev.has_tag_name(n2) by {
                        if !prev.has_tag_name(n2) {
                            assert(n2 == tags@[i as int]@);
                            assert(outcome is Err);
                        }
                    };
                }
                assert forall|k: int|
                    0 <= k < i + 1 && !(self.db.name_pair_linked(
                        fid,
                        #[trigger] all[k],
                    )) implies !self.db.has_tag_name(all[k]) && self.db.next_tag_id
                    == i64::MAX by {
                    if k < i as int {
                        if failure is Some {
                            assert(!prev.has_tag_name(all[k]));
                            if self.db.has_tag_name(all[k]) {
                                assert(all[i as int] == all[k]);
                                assert(outcome is Ok);
                                assert(self.db.name_pair_linked(fid, all[k]));
                            }
                        } else {
                            assert(prev.name_pair_linked(fid, all[k]));
                            assert(self.db.name_pair_linked(fid, all[k]));
                        }
                    }
                };
            }
            let failed_now = match &outcome {
                Ok(_) => false,
                Err(_) => true,
            };
            if failed_now {
                match outcome {
                    Ok(_) => {},
                    Err(e) => {
                        if failure.is_none() {
                            failure = Some(e);
                        }
                    },
                }
            }
            i += 1;
        }
        let ghost rules = old(self).tagger.rules@;
        proof {
            let (fd, ctx) = choose|fd: Option<DateParts>, ctx: DateContext|
                {
                    &&& ctx.wf()
                    &&& (fd matches Some(d) ==> d.wf() && d.ts == file.modified_at)
                    &&& (-8_000_000_000_000 <= file.modified_at <= 8_000_000_000_000
                        ==> fd is Some)
                    &&& all == spec_generate(self.tagger.rules@, *file, fd, ctx)
                };
            assert(all == spec_generate(rules, *file, fd, ctx));
            assert(tagging_context_ok(*file, fd, ctx));
            if failure is None {
                assert(added == spec_generate(rules, *file, fd, ctx).len());
                assert forall|k: int|
                    0 <= k < spec_generate(rules, *file, fd, ctx).len() implies self
                    .db
                    .name_pair_linked(
                    file.id->0,
                    #[trigger] spec_generate(rules, *file, fd, ctx)[k],
                ) by {
                    assert(spec_generate(rules, *file, fd, ctx)[k] == all[k]);
                };
                assert(all_tags_linked(self.db, rules, *file, fd, ctx));
                assert(file_tagged_in(self.db, rules, *file, added as int));
            } else {
                assert forall|k: int|
                    0 <= k < spec_generate(rules, *file, fd, ctx).len() && self.db.has_tag_name(
                        #[trigger] spec_generate(rules, *file, fd, ctx)[k],
                    ) implies self.db.name_pair_linked(
                    file.id->0,
                    spec_generate(rules, *file, fd, ctx)[k],
                ) by {
                    assert(spec_generate(rules, *file, fd, ctx)[k] == all[k]);
                };
                assert(named_tags_linked(self.db, rules, *file, fd, ctx));
                assert(file_tagged_where_named(self.db, rules, *file));
            }
        }
        match failure {
            Some(e) => Err(e),
            None => Ok(added),
        }
    }

    /// Process a batch of files, summing the added associations with
    /// saturation at the machine limit. A failed file does not stop the
    /// remaining ones: each file is processed, and the first failure is
    /// reported afterwards.
    pub fn process_files(&mut self, files: &[File]) -> (r: Result<usize, AppError>)
        requires
            old(self).db.wf(),
        ensures
            final(self).db.wf(),
            final(self).tagger == old(self).tagger,
            final(self).db.files@ == old(self).db.files@,
            final(self).db.watched_dirs@ == old(self).db.watched_dirs@,
            final(self).db.next_tag_id >= old(self).db.next_tag_id,
            forall|f2: i64, n2: Seq<char>|
                #[trigger] old(self).db.name_pair_linked(f2, n2)
                    ==> final(self).db.name_pair_linked(f2, n2),
            r matches Ok(n) ==> exists|counts: Seq<int>|
                #![trigger spec_sat_sum(counts)]
                {
                    &&& counts.len() == files@.len()
                    &&& n == spec_sat_sum(counts)
                    &&& forall|k: int|
                        0 <= k < files@.len() ==> file_tagged_in(
                            final(self).db,
                            old(self).tagger.rules@,
                            #[trigger] files@[k],
                            counts[k],
                        )
                },
            r is Err ==> final(self).db.next_tag_id == i64::MAX && (forall|k: int|
                0 <= k < files@.len() ==> file_tagged_where_named(
                    final(self).db,
                    old(self).tagger.rules@,
                    #[trigger] files@[k],
                )),
    {
        let ghost rules = old(self).tagger.rules@;
        let mut total: usize = 0;
        let mut failure: Option<AppError> = None;
        let ghost mut counts: Seq<int> = Seq::empty();
        let mut i: usize = 0;
        while i < files.len()
            invariant
                self.db.wf(),
                old(self).db.wf(),
                rules == old(self).tagger.rules@,
                self.tagger == old(self).tagger,
                self.db.files@ == old(self).db.files@,
                self.db.watched_dirs@ == old(self).db.watched_dirs@,
                self.db.next_tag_id >= old(self).db.next_tag_id,
                forall|f2: i64, n2: Seq<char>|
                    #[trigger] old(self).db.name_pair_linked(f2, n2) ==> self.db.name_pair_linked(
                        f2,
                        n2,
                    ),
                0 <= i <= files@.len(),
                counts.len() == i,
                failure is None ==> total == spec_sat_sum(counts) && (forall|k: int|
                    0 <= k < i ==> file_tagged_in(
                        self.db,
                        rules,
                        #[trigger] files@[k],
                        counts[k],
                    )),
                failure is Some ==> self.db.next_tag_id == i64::MAX && (forall|k: int|
                    0 <= k < i ==> file_tagged_where_named(self.db, rules, #[trigger] files@[k])),
            decreases files@.len() - i,
        {
            let ghost prev = self.db;
            let ghost prev_failed = failure is Some;
            let outcome = self.process_file(&files[i]);
            proof {
                if prev_failed {
                    assert forall|k: int|
                        0 <= k < i implies file_tagged_where_named(
                        self.db,
                        rules,
                        #[trigger] files@[k],
                    ) by {
                        lemma_where_named_monotone(prev, self.db, rules, files@[k]);
                    };
                }
            }
            match outcome {
                Ok(n) => {
                    proof {
                        if !prev_failed {
                            assert forall|k: int|
                                0 <= k < i implies file_tagged_in(
                                self.db,
                                rules,
                                #[trigger] files@[k],
                                counts[k],
                            ) by {
                                lemma_file_tagged_in_monotone(
                                    prev,
                                    self.db,
                                    rules,
                                    files@[k],
                                    counts[k],
                                );
                            };
                        } else {
                            lemma_file_tagged_in_weakens(self.db, rules, files@[i as int], n as int);
                        }
                        let ghost prev_counts = counts;
                        counts = counts.push(n as int);
                        assert(counts.drop_last() =~= prev_counts);
                    }
                    if total <= usize::MAX - n {
                        total = total + n;
                    } else {
                        total = usize::MAX;
                    }
                },
                Err(e) => {
                    proof {
                        if !prev_failed {
                            assert forall|k: int|
                                0 <= k < i implies file_tagged_where_named(
                                self.db,
                                rules,
                                #[trigger] files@[k],
                            ) by {
                                lemma_file_tagged_in_monotone(
                                    prev,
                                    self.db,
                                    rules,
                                    files@[k],
                                    counts[k],
                                );
                                lemma_file_tagged_in_weakens(
                                    self.db,
                                    rules,
                                    files@[k],
                                    counts[k],
                                );
                            };
                        }
                        counts = counts.push(0);
                    }
                    if failure.is_none() {
                        failure = Some(e);
                    }
                },
            }
            i += 1;
        }
        proof {
            if failure is None {
                assert(counts.len() == files@.len());
                assert(total == spec_sat_sum(counts));
            }
        }
        match failure {
            Some(e) => Err(e),
            None => Ok(total),
        }
    }

    /// The rule interpreter.
    pub fn tagger(&self) -> (r: &AutoTagger)
        ensures
            r == &self.tagger,
    {
        &self.tagger
    }

    /// The rule interpreter, for changing rules.
    pub fn tagger_mut(&mut self) -> &mut AutoTagger {
        &mut self.tagger
    }
}

} // verus!
