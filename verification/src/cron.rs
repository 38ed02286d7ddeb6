//! Crontab expressions of wake-up tasks (five fields: minute, hour, day of
//! month, month, day of week), times of day written `HH:MM`, and time windows.
use vstd::prelude::*;
use crate::text::{int_text, parse_i32_spec, split_char, split_once, trim, words};

verus! {

broadcast use vstd::string::group_string_axioms;

/// Capacity of the value table of a field: every field value lies in `0..60`.
pub const FIELD_CAPACITY: usize = 60;

// ---------------------------------------------------------------------------
// Specification
// ---------------------------------------------------------------------------

/// Day-of-week 7 means Sunday, stored as 0.
pub open spec fn normalize_value(v: int, weekday: bool) -> int {
    if weekday && v == 7 {
        0
    } else {
        v
    }
}

/// The `j`-th value of a stepped range starting at `a`.
pub open spec fn nth_step(a: int, step: int, j: int) -> int {
    a + j * step
}

/// The values `a, a+step, a+2*step, ...` up to `b`, normalized.
pub open spec fn range_set(a: int, b: int, step: int, weekday: bool) -> Set<int> {
    Set::new(
        |x: int|
            exists|j: int|
                j >= 0 && #[trigger] nth_step(a, step, j) <= b && x == normalize_value(
                    nth_step(a, step, j),
                    weekday,
                ),
    )
}

/// Message for a number that does not parse.
pub open spec fn number_error(label: Seq<char>, what: Seq<char>, raw: Seq<char>) -> Seq<char> {
    "crontab "@ + label + "字段"@ + what + "无效："@ + trim(raw)
}

/// `raw.trim().parse::<i32>()`, with the message of the original on failure.
pub open spec fn parse_number(raw: Seq<char>, label: Seq<char>, what: Seq<char>) -> Result<
    int,
    Seq<char>,
> {
    match parse_i32_spec(trim(raw)) {
        Some(v) => Ok(v as int),
        None => Err(number_error(label, what, raw)),
    }
}

/// The complaint about a value outside `min..=max`, if any (7 is always a valid weekday).
pub open spec fn value_error(v: int, min: int, max: int, weekday: bool, label: Seq<char>) -> Option<
    Seq<char>,
> {
    if weekday && v == 7 {
        None
    } else if v < min || v > max {
        Some(
            "crontab "@ + label + "字段取值超出范围（"@ + int_text(min) + "-"@ + int_text(max)
                + "）："@ + int_text(v),
        )
    } else {
        None
    }
}

pub open spec fn step_error(label: Seq<char>) -> Seq<char> {
    "crontab "@ + label + "字段步长必须大于 0"@
}

pub open spec fn bad_range_error(label: Seq<char>, start: int, end: int) -> Seq<char> {
    "crontab "@ + label + "字段范围无效："@ + int_text(start) + "-"@ + int_text(end)
}

pub open spec fn empty_field_error(label: Seq<char>) -> Seq<char> {
    "crontab "@ + label + "字段不能为空"@
}

pub open spec fn empty_segment_error(label: Seq<char>) -> Seq<char> {
    "crontab "@ + label + "字段包含空片段"@
}

pub open spec fn no_value_error(label: Seq<char>) -> Seq<char> {
    "crontab "@ + label + "字段没有可用取值"@
}

pub open spec fn shape_error() -> Seq<char> {
    "crontab 表达式必须是 5 段（分 时 日 月 周）"@
}

/// The part of a segment before its step, and the step.
pub open spec fn segment_step(seg: Seq<char>, label: Seq<char>) -> (Seq<char>, Result<int, Seq<char>>) {
    match split_once(seg, '/') {
        Some((left, right)) => (trim(left), parse_number(right, label, "步长"@)),
        None => (seg, Ok(1)),
    }
}

/// The values of an `a-b` range part with its step.
pub open spec fn range_part_values(
    start_raw: Seq<char>,
    end_raw: Seq<char>,
    step: int,
    min: int,
    max: int,
    weekday: bool,
    label: Seq<char>,
) -> Result<Set<int>, Seq<char>> {
    match parse_number(start_raw, label, "范围起点"@) {
        Err(e) => Err(e),
        Ok(start) => match parse_number(end_raw, label, "范围终点"@) {
            Err(e) => Err(e),
            Ok(end) => match value_error(start, min, max, weekday, label) {
                Some(e) => Err(e),
                None => match value_error(end, min, max, weekday, label) {
                    Some(e) => Err(e),
                    None => if end < start {
                        Err(bad_range_error(label, start, end))
                    } else {
                        Ok(range_set(start, end, step, weekday))
                    },
                },
            },
        },
    }
}

/// The values of a single-number part with its step.
pub open spec fn single_part_values(
    part: Seq<char>,
    step: int,
    min: int,
    max: int,
    weekday: bool,
    label: Seq<char>,
) -> Result<Set<int>, Seq<char>> {
    match parse_number(part, label, "取值"@) {
        Err(e) => Err(e),
        Ok(v) => match value_error(v, min, max, weekday, label) {
            Some(e) => Err(e),
            None => if step == 1 {
                Ok(set![normalize_value(v, weekday)])
            } else {
                Ok(range_set(v, max, step, weekday))
            },
        },
    }
}

/// The values that one comma-separated segment (already trimmed) selects.
#[verifier::opaque]
pub open spec fn segment_values(
    seg: Seq<char>,
    min: int,
    max: int,
    weekday: bool,
    label: Seq<char>,
) -> Result<Set<int>, Seq<char>> {
    let (part, step_r) = segment_step(seg, label);
    match step_r {
        Err(e) => Err(e),
        Ok(step) => if step <= 0 {
            Err(step_error(label))
        } else if part == seq!['*'] {
            Ok(range_set(min, max, step, weekday))
        } else {
            match split_once(part, '-') {
                Some((s, e)) => range_part_values(s, e, step, min, max, weekday, label),
                None => single_part_values(part, step, min, max, weekday, label),
            }
        },
    }
}

/// The union of the values of the segments, or the complaint about the first bad one.
pub open spec fn fold_segments(
    pieces: Seq<Seq<char>>,
    min: int,
    max: int,
    weekday: bool,
    label: Seq<char>,
) -> Result<Set<int>, Seq<char>>
    decreases pieces.len(),
{
    if pieces.len() == 0 {
        Ok(Set::<int>::empty())
    } else {
        match fold_segments(pieces.drop_last(), min, max, weekday, label) {
            Err(e) => Err(e),
            Ok(acc) => {
                let seg = trim(pieces.last());
                if seg.len() == 0 {
                    Err(empty_segment_error(label))
                } else {
                    match segment_values(seg, min, max, weekday, label) {
                        Err(e) => Err(e),
                        Ok(vs) => Ok(acc.union(vs)),
                    }
                }
            },
        }
    }
}

/// A field: its set of values and whether it was written `*`.
pub open spec fn field_spec(field: Seq<char>, min: int, max: int, weekday: bool, label: Seq<char>) -> Result<
    (Set<int>, bool),
    Seq<char>,
> {
    let t = trim(field);
    if t.len() == 0 {
        Err(empty_field_error(label))
    } else if t == seq!['*'] {
        Ok((range_set(min, max, 1, weekday), true))
    } else {
        match fold_segments(split_char(t, ','), min, max, weekday, label) {
            Err(e) => Err(e),
            Ok(vs) => if vs == Set::<int>::empty() {
                Err(no_value_error(label))
            } else {
                Ok((vs, false))
            },
        }
    }
}

/// The five fields of an expression, or the complaint of the original.
pub open spec fn crontab_spec(expr: Seq<char>) -> Result<Seq<(Set<int>, bool)>, Seq<char>> {
    let parts = words(trim(expr));
    if parts.len() != 5 {
        Err(shape_error())
    } else {
        match field_spec(parts[0], 0, 59, false, "分钟"@) {
            Err(e) => Err(e),
            Ok(minute) => match field_spec(parts[1], 0, 23, false, "小时"@) {
                Err(e) => Err(e),
                Ok(hour) => match field_spec(parts[2], 1, 31, false, "日期"@) {
                    Err(e) => Err(e),
                    Ok(dom) => match field_spec(parts[3], 1, 12, false, "月份"@) {
                        Err(e) => Err(e),
                        Ok(month) => match field_spec(parts[4], 0, 7, true, "星期"@) {
                            Err(e) => Err(e),
                            Ok(dow) => Ok(seq![minute, hour, dom, month, dow]),
                        },
                    },
                },
            },
        }
    }
}

/// Minutes since midnight of an `HH:MM` value (`None` when it is not one).
pub open spec fn time_minutes(value: Seq<char>) -> Option<int> {
    let parts = split_char(trim(value), ':');
    if parts.len() != 2 {
        None
    } else {
        match (parse_i32_spec(parts[0]), parse_i32_spec(parts[1])) {
            (Some(h), Some(m)) => if 0 <= h <= 23 && 0 <= m <= 59 {
                Some(h * 60 + m)
            } else {
                None
            },
            _ => None,
        }
    }
}

// ---------------------------------------------------------------------------
// Value tables
// ---------------------------------------------------------------------------

/// The set of values marked in a table.
pub open spec fn table_set(t: Seq<bool>) -> Set<int> {
    Set::new(|x: int| 0 <= x < t.len() && t[x])
}

/// One field of a parsed expression.
#[derive(Debug)]
pub struct CronField {
    pub values: Vec<bool>,
    pub wildcard: bool,
}

impl CronField {
    /// The values of the field and whether it was `*`.
    pub open spec fn view(&self) -> (Set<int>, bool) {
        (table_set(self.values@), self.wildcard)
    }

    pub open spec fn well_formed(&self) -> bool {
        self.values@.len() == FIELD_CAPACITY
    }

    /// Whether `value` is one of the field's values.
    pub fn contains(&self, value: i32) -> (r: bool)
        requires
            self.well_formed(),
        ensures
            r == self.view().0.contains(value as int),
    {
        if 0 <= value && value < 60 {
            self.values[value as usize]
        } else {
            false
        }
    }
}

/// A parsed crontab expression.
#[derive(Debug)]
pub struct ParsedCrontab {
    pub minute: CronField,
    pub hour: CronField,
    pub day_of_month: CronField,
    pub month: CronField,
    pub day_of_week: CronField,
}

impl ParsedCrontab {
    pub open spec fn view(&self) -> Seq<(Set<int>, bool)> {
        seq![
            self.minute.view(),
            self.hour.view(),
            self.day_of_month.view(),
            self.month.view(),
            self.day_of_week.view(),
        ]
    }

    pub open spec fn well_formed(&self) -> bool {
        &&& self.minute.well_formed()
        &&& self.hour.well_formed()
        &&& self.day_of_month.well_formed()
        &&& self.month.well_formed()
        &&& self.day_of_week.well_formed()
    }
}

fn empty_table() -> (t: Vec<bool>)
    ensures
        t@.len() == FIELD_CAPACITY,
        table_set(t@) == Set::<int>::empty(),
{
    let mut t: Vec<bool> = Vec::new();
    let mut i: usize = 0;
    while i < FIELD_CAPACITY
        invariant
            i <= FIELD_CAPACITY,
            t@.len() == i,
            forall|k: int| 0 <= k < i ==> !t@[k],
        decreases FIELD_CAPACITY - i,
    {
        t.push(false);
        i += 1;
    }
    assert(table_set(t@) =~= Set::<int>::empty());
    t
}

fn table_is_empty(t: &Vec<bool>) -> (r: bool)
    ensures
        r == (table_set(t@) == Set::<int>::empty()),
{
    let mut i: usize = 0;
    while i < t.len()
        invariant
            i <= t.len(),
            forall|k: int| 0 <= k < i ==> !t@[k],
        decreases t.len() - i,
    {
        if t[i] {
            assert(table_set(t@).contains(i as int));
            return false;
        }
        i += 1;
    }
    assert(table_set(t@) =~= Set::<int>::empty());
    true
}

/// `normalize_cron_value`.
pub fn normalize_cron_value(value: i32, normalize_weekday: bool) -> (r: i32)
    ensures
        r as int == normalize_value(value as int, normalize_weekday),
{
    if normalize_weekday && value == 7 {
        0
    } else {
        value
    }
}

/// Marks `start, start+step, ...` up to `end` (normalized) in the table.
pub fn insert_cron_range(out: &mut Vec<bool>, start: i32, end: i32, step: i32, normalize_weekday: bool)
    requires
        old(out)@.len() == FIELD_CAPACITY,
        0 <= start,
        end <= 59,
        step >= 1,
    ensures
        final(out)@.len() == FIELD_CAPACITY,
        table_set(final(out)@) == table_set(old(out)@).union(
            range_set(start as int, end as int, step as int, normalize_weekday),
        ),
{
    let ghost target = range_set(start as int, end as int, step as int, normalize_weekday);
    let mut value: i64 = start as i64;
    let ghost mut j: int = 0;
    while value <= end as i64
        invariant
            out@.len() == FIELD_CAPACITY,
            0 <= start,
            end <= 59,
            step >= 1,
            j >= 0,
            value == nth_step(start as int, step as int, j),
            value <= end + step || value == start,
            table_set(out@) == table_set(old(out)@).union(
                Set::new(
                    |x: int|
                        exists|k: int|
                            0 <= k < j && #[trigger] nth_step(start as int, step as int, k) <= end
                                && x == normalize_value(
                                nth_step(start as int, step as int, k),
                                normalize_weekday,
                            ),
                ),
            ),
        decreases (end as int) + (step as int) - (value as int),
    {
        let v = normalize_cron_value(value as i32, normalize_weekday);
        let ghost before = table_set(out@);
        out.set(v as usize, true);
        proof {
            assert(table_set(out@) =~= before.insert(v as int));
            let ghost old_part = Set::new(
                |x: int|
                    exists|k: int|
                        0 <= k < j && #[trigger] nth_step(start as int, step as int, k) <= end
                            && x == normalize_value(
                            nth_step(start as int, step as int, k),
                            normalize_weekday,
                        ),
            );
            let ghost new_part = Set::new(
                |x: int|
                    exists|k: int|
                        0 <= k < j + 1 && #[trigger] nth_step(start as int, step as int, k) <= end
                            && x == normalize_value(
                            nth_step(start as int, step as int, k),
                            normalize_weekday,
                        ),
            );
            assert forall|x: int| new_part.contains(x) <==> old_part.insert(v as int).contains(x) by {
                if new_part.contains(x) {
                    let k = choose|k: int|
                        0 <= k < j + 1 && #[trigger] nth_step(start as int, step as int, k) <= end
                            && x == normalize_value(
                            nth_step(start as int, step as int, k),
                            normalize_weekday,
                        );
                    if k < j {
                        assert(old_part.contains(x));
                    }
                }
                if x == v as int {
                    assert(nth_step(start as int, step as int, j) <= end);
                    assert(new_part.contains(x));
                }
                if old_part.contains(x) {
                    let k = choose|k: int|
                        0 <= k < j && #[trigger] nth_step(start as int, step as int, k) <= end
                            && x == normalize_value(
                            nth_step(start as int, step as int, k),
                            normalize_weekday,
                        );
                    assert(0 <= k < j + 1);
                }
            }
            assert(new_part =~= old_part.insert(v as int));
            assert(nth_step(start as int, step as int, j + 1) == nth_step(start as int, step as int, j) + step) by (nonlinear_arith);
        }
        value = value + step as i64;
        proof {
            j = j + 1;
        }
    }
    proof {
        let ghost part = Set::new(
            |x: int|
                exists|k: int|
                    0 <= k < j && #[trigger] nth_step(start as int, step as int, k) <= end
                        && x == normalize_value(
                        nth_step(start as int, step as int, k),
                        normalize_weekday,
                    ),
        );
        assert forall|x: int| part.contains(x) <==> target.contains(x) by {
            if target.contains(x) {
                let k = choose|k: int|
                    k >= 0 && #[trigger] nth_step(start as int, step as int, k) <= end && x
                        == normalize_value(nth_step(start as int, step as int, k), normalize_weekday);
                if k >= j {
                    lemma_nth_step_monotone(start as int, step as int, j, k);
                }
                assert(k < j);
            }
        }
        assert(part =~= target);
    }
}

/// `a` followed by `b`.
fn cat(a: String, b: &str) -> (r: String)
    ensures
        r@ == a@ + b@,
{
    crate::text::concat(a.as_str(), b)
}

/// Message for a number that does not parse.
fn number_error_text(label: &str, what: &str, raw: &[char]) -> (m: String)
    ensures
        m@ == number_error(label@, what@, raw@),
{
    let t = crate::text::trim_chars(raw);
    let ts = crate::text::string_of(&t);
    let m = cat(cat(cat(cat(cat("crontab ".to_string(), label), "字段"), what), "无效："), ts.as_str());
    m
}

/// `parse_cron_number`: a trimmed `i32`, or the complaint of the original.
pub fn parse_cron_number(raw: &[char], field_label: &str, value_label: &str) -> (r: Result<i32, String>)
    ensures
        match r {
            Ok(v) => parse_number(raw@, field_label@, value_label@) == Ok::<int, Seq<char>>(v as int),
            Err(e) => parse_number(raw@, field_label@, value_label@) == Err::<int, Seq<char>>(e@),
        },
{
    let t = crate::text::trim_chars(raw);
    match crate::text::parse_i32_chars(&t) {
        Some(v) => Ok(v),
        None => Err(number_error_text(field_label, value_label, raw)),
    }
}

/// `validate_cron_value`: 7 is a valid weekday; other values lie in `min..=max`.
pub fn validate_cron_value(value: i32, min: i32, max: i32, normalize_weekday: bool, field_label: &str) -> (r: Result<(), String>)
    ensures
        match value_error(value as int, min as int, max as int, normalize_weekday, field_label@) {
            None => r is Ok,
            Some(e) => r matches Err(m) && m@ == e,
        },
{
    if normalize_weekday && value == 7 {
        return Ok(());
    }
    if value < min || value > max {
        let m = cat(
            cat(
                cat(
                    cat(
                        cat(cat(cat("crontab ".to_string(), field_label), "字段取值超出范围（"), crate::text::i64_text(min as i64).as_str()),
                        "-",
                    ),
                    crate::text::i64_text(max as i64).as_str(),
                ),
                "）：",
            ),
            crate::text::i64_text(value as i64).as_str(),
        );
        return Err(m);
    }
    Ok(())
}

/// `parse_cron_segment`: marks the values of one trimmed segment.
/// On a complaint the table is left as it was.
pub fn parse_cron_segment(
    segment: &[char],
    min: i32,
    max: i32,
    normalize_weekday: bool,
    field_label: &str,
    out: &mut Vec<bool>,
) -> (r: Result<(), String>)
    requires
        0 <= min <= max <= 59,
        old(out)@.len() == FIELD_CAPACITY,
    ensures
        final(out)@.len() == FIELD_CAPACITY,
        match segment_values(segment@, min as int, max as int, normalize_weekday, field_label@) {
            Ok(vs) => r is Ok && table_set(final(out)@) == table_set(old(out)@).union(vs),
            Err(e) => r matches Err(m) && m@ == e && final(out)@ == old(out)@,
        },
{
    reveal(segment_values);
    let slash = crate::text::find_char(segment, '/');
    let (range_part, step): (Vec<char>, i32) = match slash {
        Some(i) => {
            let left = crate::text::slice_range(segment, 0, i);
            let right = crate::text::slice_range(segment, i + 1, segment.len());
            let step = match parse_cron_number(&right, field_label, "步长") {
                Ok(v) => v,
                Err(e) => return Err(e),
            };
            if step <= 0 {
                let m = cat(cat("crontab ".to_string(), field_label), "字段步长必须大于 0");
                return Err(m);
            }
            (crate::text::trim_chars(&left), step)
        },
        None => (crate::text::slice_range(segment, 0, segment.len()), 1),
    };
    proof {
        assert(segment@.subrange(0, segment@.len() as int) =~= segment@);
    }
    let star = vec!['*'];
    if crate::text::chars_eq(&range_part, &star) {
        proof { assert(star@ =~= seq!['*']); }
        insert_cron_range(out, min, max, step, normalize_weekday);
        return Ok(());
    }
    proof { assert(star@ =~= seq!['*']); }
    match crate::text::find_char(&range_part, '-') {
        Some(i) => {
            let start_raw = crate::text::slice_range(&range_part, 0, i);
            let end_raw = crate::text::slice_range(&range_part, i + 1, range_part.len());
            let start = match parse_cron_number(&start_raw, field_label, "范围起点") {
                Ok(v) => v,
                Err(e) => return Err(e),
            };
            let end = match parse_cron_number(&end_raw, field_label, "范围终点") {
                Ok(v) => v,
                Err(e) => return Err(e),
            };
            match validate_cron_value(start, min, max, normalize_weekday, field_label) {
                Ok(()) => {},
                Err(e) => return Err(e),
            }
            match validate_cron_value(end, min, max, normalize_weekday, field_label) {
                Ok(()) => {},
                Err(e) => return Err(e),
            }
            if end < start {
                let m = cat(
                    cat(
                        cat(cat(cat("crontab ".to_string(), field_label), "字段范围无效："), crate::text::i64_text(start as i64).as_str()),
                        "-",
                    ),
                    crate::text::i64_text(end as i64).as_str(),
                );
                return Err(m);
            }
            insert_cron_range(out, start, end, step, normalize_weekday);
            Ok(())
        },
        None => {
            let single = match parse_cron_number(&range_part, field_label, "取值") {
                Ok(v) => v,
                Err(e) => return Err(e),
            };
            match validate_cron_value(single, min, max, normalize_weekday, field_label) {
                Ok(()) => {},
                Err(e) => return Err(e),
            }
            if step == 1 {
                let v = normalize_cron_value(single, normalize_weekday);
                let ghost before = table_set(out@);
                out.set(v as usize, true);
                assert(table_set(out@) =~= before.union(set![v as int]));
            } else {
                insert_cron_range(out, single, max, step, normalize_weekday);
            }
            Ok(())
        },
    }
}

/// `parse_cron_field`: the values of one field of an expression.
pub fn parse_cron_field(field: &str, min: i32, max: i32, normalize_weekday: bool, field_label: &str) -> (r: Result<CronField, String>)
    requires
        0 <= min <= max <= 59,
    ensures
        match field_spec(field@, min as int, max as int, normalize_weekday, field_label@) {
            Ok(v) => r matches Ok(f) && f.view() == v && f.well_formed(),
            Err(e) => r matches Err(m) && m@ == e,
        },
{
    let trimmed = crate::text::trimmed(field);
    if trimmed.len() == 0 {
        let m = cat(cat("crontab ".to_string(), field_label), "字段不能为空");
        return Err(m);
    }
    let star = vec!['*'];
    proof { assert(star@ =~= seq!['*']); }
    if crate::text::chars_eq(&trimmed, &star) {
        let mut values = empty_table();
        insert_cron_range(&mut values, min, max, 1, normalize_weekday);
        proof {
            assert(table_set(values@) =~= range_set(min as int, max as int, 1, normalize_weekday));
        }
        return Ok(CronField { values, wildcard: true });
    }
    let pieces = crate::text::split_on_char(&trimmed, ',');
    let ghost spieces = pieces@.map_values(|p: Vec<char>| p@);
    let mut values = empty_table();
    let mut k: usize = 0;
    while k < pieces.len()
        invariant
            0 <= min <= max <= 59,
            k <= pieces.len(),
            spieces == pieces@.map_values(|p: Vec<char>| p@),
            spieces == split_char(trim(field@), ','),
            trim(field@).len() != 0,
            trim(field@) != seq!['*'],
            values@.len() == FIELD_CAPACITY,
            fold_segments(spieces.take(k as int), min as int, max as int, normalize_weekday, field_label@)
                == Ok::<Set<int>, Seq<char>>(table_set(values@)),
        decreases pieces.len() - k,
    {
        let ghost prefix = spieces.take(k as int);
        assert(spieces.take(k + 1).drop_last() =~= prefix);
        assert(spieces.take(k + 1).last() == pieces@[k as int]@);
        let segment = crate::text::trim_chars(&pieces[k]);
        if segment.len() == 0 {
            let m = cat(cat("crontab ".to_string(), field_label), "字段包含空片段");
            assert(fold_segments(spieces.take(k + 1), min as int, max as int, normalize_weekday, field_label@)
                == Err::<Set<int>, Seq<char>>(m@));
            proof { lemma_fold_error_sticks(spieces, (k + 1) as int, min as int, max as int, normalize_weekday, field_label@); }
            return Err(m);
        }
        match parse_cron_segment(&segment, min, max, normalize_weekday, field_label, &mut values) {
            Ok(()) => {},
            Err(e) => {
                assert(fold_segments(spieces.take(k + 1), min as int, max as int, normalize_weekday, field_label@)
                    == Err::<Set<int>, Seq<char>>(e@));
                proof { lemma_fold_error_sticks(spieces, (k + 1) as int, min as int, max as int, normalize_weekday, field_label@); }
                return Err(e);
            },
        }
        k += 1;
    }
    proof { assert(spieces.take(pieces.len() as int) =~= spieces); }
    if table_is_empty(&values) {
        let m = cat(cat("crontab ".to_string(), field_label), "字段没有可用取值");
        return Err(m);
    }
    Ok(CronField { values, wildcard: false })
}

/// Once the segments up to `k` have a complaint, the whole list has the same one.
proof fn lemma_fold_error_sticks(pieces: Seq<Seq<char>>, k: int, min: int, max: int, weekday: bool, label: Seq<char>)
    requires
        0 <= k <= pieces.len(),
        fold_segments(pieces.take(k), min, max, weekday, label) is Err,
    ensures
        fold_segments(pieces, min, max, weekday, label) == fold_segments(pieces.take(k), min, max, weekday, label),
    decreases pieces.len() - k,
{
    if k < pieces.len() {
        assert(pieces.take(k + 1).drop_last() =~= pieces.take(k));
        lemma_fold_error_sticks(pieces, k + 1, min, max, weekday, label);
    } else {
        assert(pieces.take(k) =~= pieces);
    }
}

/// `parse_crontab_expression`: the five fields, or the complaint of the original.
pub fn parse_crontab_expression(expr: &str) -> (r: Result<ParsedCrontab, String>)
    ensures
        match crontab_spec(expr@) {
            Ok(fields) => r matches Ok(p) && p.view() == fields && p.well_formed(),
            Err(e) => r matches Err(m) && m@ == e,
        },
{
    let trimmed = crate::text::trimmed(expr);
    let parts = crate::text::split_words(&trimmed);
    let ghost sparts = parts@.map_values(|p: Vec<char>| p@);
    if parts.len() != 5 {
        return Err("crontab 表达式必须是 5 段（分 时 日 月 周）".to_string());
    }
    let p0 = crate::text::string_of(&parts[0]);
    let p1 = crate::text::string_of(&parts[1]);
    let p2 = crate::text::string_of(&parts[2]);
    let p3 = crate::text::string_of(&parts[3]);
    let p4 = crate::text::string_of(&parts[4]);
    assert(sparts[0] == p0@ && sparts[1] == p1@ && sparts[2] == p2@ && sparts[3] == p3@ && sparts[4] == p4@);
    let minute = parse_cron_field(p0.as_str(), 0, 59, false, "分钟")?;
    let hour = parse_cron_field(p1.as_str(), 0, 23, false, "小时")?;
    let day_of_month = parse_cron_field(p2.as_str(), 1, 31, false, "日期")?;
    let month = parse_cron_field(p3.as_str(), 1, 12, false, "月份")?;
    let day_of_week = parse_cron_field(p4.as_str(), 0, 7, true, "星期")?;
    Ok(ParsedCrontab { minute, hour, day_of_month, month, day_of_week })
}

/// `validate_crontab_expression`: accepted exactly when the expression parses,
/// rejected with the complaint of the parser otherwise.
pub fn validate_crontab_expression(expr: &str) -> (r: Result<(), String>)
    ensures
        match crontab_spec(expr@) {
            Ok(_) => r is Ok,
            Err(e) => r matches Err(m) && m@ == e,
        },
{
    match parse_crontab_expression(expr) {
        Ok(_) => Ok(()),
        Err(e) => Err(e),
    }
}

/// The day condition of cron: when both day fields are restricted, either may match.
pub open spec fn day_matches(dom: (Set<int>, bool), dow: (Set<int>, bool), day_of_month: int, day_of_week: int) -> bool {
    let dom_match = dom.0.contains(day_of_month);
    let dow_match = dow.0.contains(day_of_week);
    if dom.1 && dow.1 {
        true
    } else if dom.1 {
        dow_match
    } else if dow.1 {
        dom_match
    } else {
        dom_match || dow_match
    }
}

/// Whether a parsed expression selects the given minute of the calendar.
pub open spec fn matches_spec(fields: Seq<(Set<int>, bool)>, minute: int, hour: int, day_of_month: int, month: int, day_of_week: int) -> bool {
    &&& fields[0].0.contains(minute)
    &&& fields[1].0.contains(hour)
    &&& fields[3].0.contains(month)
    &&& day_matches(fields[2], fields[4], day_of_month, day_of_week)
}

/// `crontab_matches_time`, on the calendar fields of the candidate minute
/// (day of week counted from Sunday = 0).
pub fn crontab_matches_time(expr: &ParsedCrontab, minute: i32, hour: i32, day_of_month: i32, month: i32, day_of_week: i32) -> (r: bool)
    requires
        expr.well_formed(),
    ensures
        r == matches_spec(expr.view(), minute as int, hour as int, day_of_month as int, month as int, day_of_week as int),
{
    if !expr.minute.contains(minute) || !expr.hour.contains(hour) || !expr.month.contains(month) {
        return false;
    }
    let day_of_month_match = expr.day_of_month.contains(day_of_month);
    let day_of_week_match = expr.day_of_week.contains(day_of_week);
    if expr.day_of_month.wildcard && expr.day_of_week.wildcard {
        true
    } else if expr.day_of_month.wildcard {
        day_of_week_match
    } else if expr.day_of_week.wildcard {
        day_of_month_match
    } else {
        day_of_month_match || day_of_week_match
    }
}

/// How a minute matches an expression: its minute, hour and month must each
/// be among their field's values; when one day field is `*` and the other is
/// restricted, the restricted one alone decides; when both are restricted,
/// either may match; when both are `*`, every day matches.
pub proof fn law_crontab_match_fields(
    expr: ParsedCrontab,
    minute: int,
    hour: int,
    day_of_month: int,
    month: int,
    day_of_week: int,
    r: bool,
)
    requires
        r == matches_spec(expr.view(), minute, hour, day_of_month, month, day_of_week),
    ensures
        r ==> expr.minute.view().0.contains(minute) && expr.hour.view().0.contains(hour)
            && expr.month.view().0.contains(month),
        r && expr.day_of_week.wildcard && !expr.day_of_month.wildcard ==> expr.day_of_month.view().0.contains(
            day_of_month,
        ),
        r && expr.day_of_month.wildcard && !expr.day_of_week.wildcard ==> expr.day_of_week.view().0.contains(
            day_of_week,
        ),
        r && !expr.day_of_month.wildcard && !expr.day_of_week.wildcard ==> expr.day_of_month.view().0.contains(
            day_of_month,
        ) || expr.day_of_week.view().0.contains(day_of_week),
        expr.minute.view().0.contains(minute) && expr.hour.view().0.contains(hour) && expr.month.view().0.contains(
            month,
        ) ==> {
            &&& expr.day_of_month.wildcard && expr.day_of_week.wildcard ==> r
            &&& expr.day_of_week.wildcard && expr.day_of_month.view().0.contains(day_of_month) ==> r
            &&& expr.day_of_month.wildcard && expr.day_of_week.view().0.contains(day_of_week) ==> r
            &&& expr.day_of_month.view().0.contains(day_of_month) && expr.day_of_week.view().0.contains(day_of_week) ==> r
            &&& !expr.day_of_month.wildcard && !expr.day_of_week.wildcard && (expr.day_of_month.view().0.contains(
                day_of_month,
            ) || expr.day_of_week.view().0.contains(day_of_week)) ==> r
        },
{
}

/// `parse_time_to_minutes`: minutes since midnight of an `HH:MM` value.
pub fn parse_time_to_minutes(value: &str) -> (r: Option<i32>)
    ensures
        match time_minutes(value@) {
            Some(m) => r == Some(m as i32),
            None => r is None,
        },
{
    let trimmed = crate::text::trimmed(value);
    let parts = crate::text::split_on_char(&trimmed, ':');
    let ghost sparts = parts@.map_values(|p: Vec<char>| p@);
    if parts.len() != 2 {
        return None;
    }
    assert(sparts[0] == parts@[0]@ && sparts[1] == parts@[1]@);
    let h = crate::text::parse_i32_chars(&parts[0])?;
    let m = crate::text::parse_i32_chars(&parts[1])?;
    if h < 0 || h > 23 || m < 0 || m > 59 {
        return None;
    }
    Some(h * 60 + m)
}

/// Whether `current` minutes since midnight lie in the window `start..end`
/// (a window whose start is after its end runs over midnight).
pub open spec fn in_window_spec(start: Option<Seq<char>>, end: Option<Seq<char>>, current: int) -> bool {
    match (start, end) {
        (Some(s), Some(e)) => match (time_minutes(s), time_minutes(e)) {
            (Some(sm), Some(em)) => if sm <= em {
                current >= sm && current < em
            } else {
                current >= sm || current < em
            },
            _ => true,
        },
        _ => true,
    }
}

/// `is_in_time_window`, on the current minutes since midnight. A window that
/// is missing or unreadable lets everything through.
pub fn is_in_time_window(start: Option<&String>, end: Option<&String>, current_minutes: i32) -> (r: bool)
    ensures
        r == in_window_spec(
            match start { Some(s) => Some(s@), None => None },
            match end { Some(e) => Some(e@), None => None },
            current_minutes as int,
        ),
{
    let start = match start {
        Some(s) => s,
        None => return true,
    };
    let end = match end {
        Some(e) => e,
        None => return true,
    };
    let start_minutes = match parse_time_to_minutes(start.as_str()) {
        Some(v) => v,
        None => return true,
    };
    let end_minutes = match parse_time_to_minutes(end.as_str()) {
        Some(v) => v,
        None => return true,
    };
    if start_minutes <= end_minutes {
        current_minutes >= start_minutes && current_minutes < end_minutes
    } else {
        current_minutes >= start_minutes || current_minutes < end_minutes
    }
}

proof fn lemma_nth_step_monotone(a: int, step: int, j: int, k: int)
    requires
        step >= 1,
        0 <= j <= k,
    ensures
        nth_step(a, step, j) <= nth_step(a, step, k),
{
    assert(j * step <= k * step) by (nonlinear_arith)
        requires
            step >= 1,
            0 <= j <= k,
    ;
}

} // verus!
