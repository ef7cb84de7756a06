//! Declarative auto-tag rules and their matching semantics.
//!
//! A rule names a tag and carries one condition: file-type membership, an
//! inclusive size range, a calendar date pattern, or a case-insensitive
//! substring or extension test. Date patterns are calendar-based: they
//! compare year, month and day fields, and week boundaries are taken from
//! the most recent Monday at or before the current moment.

use vstd::prelude::*;
use crate::models::{File, FileType};
use crate::text::{contains_ci, contains_ignore_case, eq_ci, eq_ignore_case};
use crate::time::{DateContext, DateParts, date_parts};

verus! {

/// A tag rule: the tag name to emit and the condition under which it
/// applies.
#[derive(Debug)]
pub struct TagRule {
    pub name: String,
    pub condition: TagCondition,
}

/// The condition of a tag rule.
#[derive(Debug)]
pub enum TagCondition {
    /// The file's type is one of these.
    FileType(Vec<FileType>),
    /// The file's size lies in this inclusive range; a missing bound is
    /// open-ended.
    FileSize { min: Option<u64>, max: Option<u64> },
    /// The file's modification time matches this calendar pattern.
    DatePattern(DatePattern),
    /// The file's path contains this string, case-insensitively.
    PathContains(String),
    /// The file's extension equals one of these, case-insensitively.
    Extension(Vec<String>),
    /// The file's name contains this string, case-insensitively.
    NameContains(String),
}

/// A calendar pattern against the modification time.
#[derive(Debug, Clone, Copy, PartialEq, Eq, Structural)]
pub enum DatePattern {
    Today,
    Yesterday,
    ThisWeek,
    LastWeek,
    ThisMonth,
    LastMonth,
    ThisYear,
    LastYear,
}

/// The instant of the most recent Monday at or before `now`, at the same
/// time of day.
pub open spec fn spec_week_start(now: DateParts) -> int {
    now.ts - now.weekday_from_monday * 86400
}

/// The calendar month directly before the one of `now`, as a
/// `(year, month)` pair.
pub open spec fn spec_prev_month(now: DateParts) -> (int, int) {
    if now.month == 1 {
        (now.year - 1, 12int)
    } else {
        (now.year as int, now.month - 1)
    }
}

/// Whether a modification instant matches a calendar pattern.
///
/// `ts` is the modification timestamp, `fd` its calendar form where
/// representable, and `ctx` the clock context. Patterns that compare
/// calendar fields do not match when the instant has no calendar form.
pub open spec fn spec_date_matches(
    p: DatePattern,
    ts: i64,
    fd: Option<DateParts>,
    ctx: DateContext,
) -> bool {
    match p {
        DatePattern::Today => fd matches Some(d) && d.same_day(ctx.now),
        DatePattern::Yesterday => fd matches Some(d) && ctx.yesterday matches Some(y)
            && d.same_day(y),
        DatePattern::ThisWeek => ts >= spec_week_start(ctx.now),
        DatePattern::LastWeek => spec_week_start(ctx.now) - 604800 <= ts < spec_week_start(
            ctx.now,
        ),
        DatePattern::ThisMonth => fd matches Some(d) && d.year == ctx.now.year && d.month
            == ctx.now.month,
        DatePattern::LastMonth => fd matches Some(d) && spec_prev_month(ctx.now) == (
            d.year as int,
            d.month as int,
        ),
        DatePattern::ThisYear => fd matches Some(d) && d.year == ctx.now.year,
        DatePattern::LastYear => fd matches Some(d) && d.year == ctx.now.year - 1,
    }
}

/// Whether a condition holds of a file, given the calendar form of its
/// modification time and the clock context.
pub open spec fn spec_cond_matches(
    cond: TagCondition,
    file: File,
    fd: Option<DateParts>,
    ctx: DateContext,
) -> bool {
    match cond {
        TagCondition::FileType(types) => types@.contains(file.file_type),
        TagCondition::FileSize { min, max } => {
            &&& (min matches Some(m) ==> file.size >= m)
            &&& (max matches Some(m) ==> file.size <= m)
        },
        TagCondition::DatePattern(p) => spec_date_matches(p, file.modified_at, fd, ctx),
        TagCondition::PathContains(s) => contains_ignore_case(file.path@, s@),
        TagCondition::Extension(exts) => exists|i: int|
            0 <= i < exts@.len() && #[trigger] eq_ignore_case(exts@[i]@, file.extension@),
        TagCondition::NameContains(s) => contains_ignore_case(file.name@, s@),
    }
}

/// Whether a rule applies to a file.
pub open spec fn spec_rule_matches(
    rule: TagRule,
    file: File,
    fd: Option<DateParts>,
    ctx: DateContext,
) -> bool {
    spec_cond_matches(rule.condition, file, fd, ctx)
}

/// Rules without a date condition are insensitive to the clock: they
/// match under one context exactly when they match under any other.
pub proof fn lemma_nondate_rule_ignores_clock(
    rule: TagRule,
    file: File,
    fd1: Option<DateParts>,
    ctx1: DateContext,
    fd2: Option<DateParts>,
    ctx2: DateContext,
)
    requires
        !(rule.condition is DatePattern),
    ensures
        spec_rule_matches(rule, file, fd1, ctx1) == spec_rule_matches(rule, file, fd2, ctx2),
{
}

/// A size rule with only a maximum bound accepts exactly the sizes at or
/// below the bound: the bound itself is accepted.
pub proof fn lemma_size_rule_max_inclusive(
    file: File,
    bound: u64,
    fd: Option<DateParts>,
    ctx: DateContext,
)
    ensures
        spec_cond_matches(
            TagCondition::FileSize { min: None, max: Some(bound) },
            file,
            fd,
            ctx,
        ) <==> file.size <= bound,
{
}

/// Whether a modification instant matches a calendar pattern.
fn date_pattern_matches(
    p: &DatePattern,
    ts: i64,
    fd: &Option<DateParts>,
    ctx: &DateContext,
) -> (r: bool)
    requires
        ctx.wf(),
        fd matches Some(d) ==> d.wf(),
    ensures
        r == spec_date_matches(*p, ts, *fd, *ctx),
{
    match p {
        DatePattern::Today => match fd {
            Some(d) => d.year == ctx.now.year && d.month == ctx.now.month && d.day == ctx.now.day,
            None => false,
        },
        DatePattern::Yesterday => match (fd, &ctx.yesterday) {
            (Some(d), Some(y)) => d.year == y.year && d.month == y.month && d.day == y.day,
            _ => false,
        },
        DatePattern::ThisWeek => {
            let ws = ctx.now.ts - (ctx.now.weekday_from_monday as i64) * 86400;
            ts >= ws
        },
        DatePattern::LastWeek => {
            let ws = ctx.now.ts - (ctx.now.weekday_from_monday as i64) * 86400;
            let lw = ws - 604800;
            lw <= ts && ts < ws
        },
        DatePattern::ThisMonth => match fd {
            Some(d) => d.year == ctx.now.year && d.month == ctx.now.month,
            None => false,
        },
        DatePattern::LastMonth => match fd {
            Some(d) => {
                if ctx.now.month == 1 {
                    d.year == ctx.now.year - 1 && d.month == 12
                } else {
                    d.year == ctx.now.year && d.month == ctx.now.month - 1
                }
            },
            None => false,
        },
        DatePattern::ThisYear => match fd {
            Some(d) => d.year == ctx.now.year,
            None => false,
        },
        DatePattern::LastYear => match fd {
            Some(d) => d.year == ctx.now.year - 1,
            None => false,
        },
    }
}

/// Whether `t` occurs in `types`.
fn type_list_contains(types: &Vec<FileType>, t: FileType) -> (r: bool)
    ensures
        r == types@.contains(t),
{
    let mut i: usize = 0;
    while i < types.len()
        invariant
            0 <= i <= types@.len(),
            forall|k: int| 0 <= k < i ==> types@[k] != t,
        decreases types@.len() - i,
    {
        if types[i] == t {
            assert(types@.contains(t));
            return true;
        }
        i += 1;
    }
    assert(!types@.contains(t));
    false
}

/// Whether some entry of `exts` equals `ext` up to case.
pub(crate) fn ext_list_contains_ci(exts: &Vec<String>, ext: &str) -> (r: bool)
    ensures
        r == exists|i: int| 0 <= i < exts@.len() && #[trigger] eq_ignore_case(exts@[i]@, ext@),
{
    let mut i: usize = 0;
    while i < exts.len()
        invariant
            0 <= i <= exts@.len(),
            forall|k: int| 0 <= k < i ==> !eq_ignore_case(exts@[k]@, ext@),
        decreases exts@.len() - i,
    {
        if eq_ci(exts[i].as_str(), ext) {
            return true;
        }
        i += 1;
    }
    false
}

impl TagRule {
    /// Whether this rule applies to `file`, evaluated against an already
    /// captured clock context and the calendar form of the file's
    /// modification time.
    pub fn matches_at(&self, file: &File, fd: &Option<DateParts>, ctx: &DateContext) -> (r: bool)
        requires
            ctx.wf(),
            fd matches Some(d) ==> d.wf(),
        ensures
            r == spec_rule_matches(*self, *file, *fd, *ctx),
    {
        match &self.condition {
            TagCondition::FileType(types) => type_list_contains(types, file.file_type),
            TagCondition::FileSize { min, max } => {
                let min_ok = match min {
                    Some(m) => file.size >= *m,
                    None => true,
                };
                let max_ok = match max {
                    Some(m) => file.size <= *m,
                    None => true,
                };
                min_ok && max_ok
            },
            TagCondition::DatePattern(p) => date_pattern_matches(p, file.modified_at, fd, ctx),
            TagCondition::PathContains(s) => contains_ci(file.path.as_str(), s.as_str()),
            TagCondition::Extension(exts) => ext_list_contains_ci(exts, file.extension.as_str()),
            TagCondition::NameContains(s) => contains_ci(file.name.as_str(), s.as_str()),
        }
    }

    /// Whether this rule applies to `file`, evaluated against the current
    /// clock. The result is what `matches_at` yields for some well-formed
    /// clock context and the calendar form of the modification time.
    pub fn matches(&self, file: &File) -> (r: bool)
        ensures
            exists|fd: Option<DateParts>, ctx: DateContext|
                {
                    &&& ctx.wf()
                    &&& (fd matches Some(d) ==> d.wf() && d.ts == file.modified_at)
                    &&& (-8_000_000_000_000 <= file.modified_at <= 8_000_000_000_000
                        ==> fd is Some)
                    &&& r == spec_rule_matches(*self, *file, fd, ctx)
                },
    {
        let ctx = DateContext::capture();
        let fd = date_parts(file.modified_at);
        let r = self.matches_at(file, &fd, &ctx);
        proof {
            assert({
                &&& ctx.wf()
                &&& (fd matches Some(d) ==> d.wf() && d.ts == file.modified_at)
                &&& (-8_000_000_000_000 <= file.modified_at <= 8_000_000_000_000
                    ==> fd is Some)
                &&& r == spec_rule_matches(*self, *file, fd, ctx)
            });
        }
        r
    }
}

/// `r` emits `name` when the file's type is exactly `t`.
pub open spec fn is_type_rule(r: TagRule, name: Seq<char>, t: FileType) -> bool {
    &&& r.name@ == name
    &&& r.condition matches TagCondition::FileType(ts) && ts@ =~= seq![t]
}

/// `r` emits `name` when the file's size lies in the given inclusive
/// range.
pub open spec fn is_size_rule(
    r: TagRule,
    name: Seq<char>,
    min: Option<u64>,
    max: Option<u64>,
) -> bool {
    &&& r.name@ == name
    &&& r.condition matches TagCondition::FileSize { min: m0, max: m1 } && m0 == min && m1 == max
}

/// `r` emits `name` when the modification time matches `p`.
pub open spec fn is_date_rule(r: TagRule, name: Seq<char>, p: DatePattern) -> bool {
    &&& r.name@ == name
    &&& r.condition matches TagCondition::DatePattern(q) && q == p
}

/// `r` emits `name` when the path contains `s`, case-insensitively.
pub open spec fn is_path_rule(r: TagRule, name: Seq<char>, s: Seq<char>) -> bool {
    &&& r.name@ == name
    &&& r.condition matches TagCondition::PathContains(t) && t@ == s
}

/// The default rule set: one rule per file type, a small-file and a
/// large-file threshold, three date rules, and six common path-segment
/// rules.
pub open spec fn is_default_rules(rs: Seq<TagRule>) -> bool {
    &&& rs.len() == 16
    &&& is_type_rule(rs[0], "图片"@, FileType::Image)
    &&& is_type_rule(rs[1], "音频"@, FileType::Audio)
    &&& is_type_rule(rs[2], "视频"@, FileType::Video)
    &&& is_type_rule(rs[3], "文本"@, FileType::Text)
    &&& is_type_rule(rs[4], "二进制"@, FileType::Binary)
    &&& is_size_rule(rs[5], "小文件"@, None, Some(10240u64))
    &&& is_size_rule(rs[6], "大文件"@, Some(104857600u64), None)
    &&& is_date_rule(rs[7], "今日文件"@, DatePattern::Today)
    &&& is_date_rule(rs[8], "本周文件"@, DatePattern::ThisWeek)
    &&& is_date_rule(rs[9], "本月文件"@, DatePattern::ThisMonth)
    &&& is_path_rule(rs[10], "下载"@, "downloads"@)
    &&& is_path_rule(rs[11], "文档"@, "documents"@)
    &&& is_path_rule(rs[12], "桌面"@, "desktop"@)
    &&& is_path_rule(rs[13], "图片"@, "pictures"@)
    &&& is_path_rule(rs[14], "音乐"@, "music"@)
    &&& is_path_rule(rs[15], "视频"@, "videos"@)
}

/// The default tag rules.
pub fn default_rules() -> (r: Vec<TagRule>)
    ensures
        is_default_rules(r@),
{
    let mut rules: Vec<TagRule> = Vec::new();
    rules.push(TagRule {
        name: "图片".to_owned(),
        condition: TagCondition::FileType(vec![FileType::Image]),
    });
    rules.push(TagRule {
        name: "音频".to_owned(),
        condition: TagCondition::FileType(vec![FileType::Audio]),
    });
    rules.push(TagRule {
        name: "视频".to_owned(),
        condition: TagCondition::FileType(vec![FileType::Video]),
    });
    rules.push(TagRule {
        name: "文本".to_owned(),
        condition: TagCondition::FileType(vec![FileType::Text]),
    });
    rules.push(TagRule {
        name: "二进制".to_owned(),
        condition: TagCondition::FileType(vec![FileType::Binary]),
    });
    rules.push(TagRule {
        name: "小文件".to_owned(),
        condition: TagCondition::FileSize { min: None, max: Some(10240) },
    });
    rules.push(TagRule {
        name: "大文件".to_owned(),
        condition: TagCondition::FileSize { min: Some(104857600), max: None },
    });
    rules.push(TagRule {
        name: "今日文件".to_owned(),
        condition: TagCondition::DatePattern(DatePattern::Today),
    });
    rules.push(TagRule {
        name: "本周文件".to_owned(),
        condition: TagCondition::DatePattern(DatePattern::ThisWeek),
    });
    rules.push(TagRule {
        name: "本月文件".to_owned(),
        condition: TagCondition::DatePattern(DatePattern::ThisMonth),
    });
    rules.push(TagRule {
        name: "下载".to_owned(),
        condition: TagCondition::PathContains("downloads".to_owned()),
    });
    rules.push(TagRule {
        name: "文档".to_owned(),
        condition: TagCondition::PathContains("documents".to_owned()),
    });
    rules.push(TagRule {
        name: "桌面".to_owned(),
        condition: TagCondition::PathContains("desktop".to_owned()),
    });
    rules.push(TagRule {
        name: "图片".to_owned(),
        condition: TagCondition::PathContains("pictures".to_owned()),
    });
    rules.push(TagRule {
        name: "音乐".to_owned(),
        condition: TagCondition::PathContains("music".to_owned()),
    });
    rules.push(TagRule {
        name: "视频".to_owned(),
        condition: TagCondition::PathContains("videos".to_owned()),
    });
    rules
}

} // verus!
