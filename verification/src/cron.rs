//! Six-field cron expressions (`sec min hour day month weekday`) with the
//! `?`, `L`, `W` and `#` extensions, and their matching against a time.
use std::collections::HashSet;
use vstd::prelude::*;
use crate::calendar::{
    last_day_of_month, last_weekday_of_month, last_weekday_spec, month_length, nearest_weekday,
    nearest_weekday_spec, nth_weekday, nth_weekday_spec,
};
use crate::text::{
    ends_with_char, is_single, has_suffix, parse_u32, parse_u32_spec, slice_chars, split_char,
    split_on, split_once_char, split_once_on, split_words, words, chars_of, decimal_value,
    digit_char, unsigned_digits, all_digits, digit_value,
};

verus! {

broadcast use vstd::std_specs::hash::group_hash_axioms;

// ───────────────────────── model ─────────────────────────

/// What a parsed cron field denotes.
pub enum FieldSpec {
    /// `*` or `?`: every value.
    Any,
    /// An explicit set of values.
    Values(Set<u32>),
    /// `L` in the day field: the last day of the month.
    LastDay,
    /// `<w>L` in the weekday field: the last such weekday of the month.
    LastWeekday(u32),
    /// `<d>W` in the day field: the working day nearest to day `d`.
    NearestWeekday(u32),
    /// `<w>#<n>` in the weekday field: the `n`-th such weekday of the month.
    NthWeekday(u32, u32),
}

impl FieldSpec {
    /// The bounds that the parser guarantees for the special forms.
    pub open spec fn wf(self) -> bool {
        match self {
            FieldSpec::LastWeekday(w) => w <= 7,
            FieldSpec::NearestWeekday(d) => 1 <= d <= 31,
            FieldSpec::NthWeekday(w, n) => w <= 7 && 1 <= n <= 5,
            _ => true,
        }
    }
}

/// Whether a field matches `value` in the month `month` of `year`, whose
/// last day is `last_day`.
pub open spec fn field_matches(f: FieldSpec, value: u32, year: i32, month: u32, last_day: u32) -> bool {
    match f {
        FieldSpec::Any => true,
        FieldSpec::Values(s) => s.contains(value),
        FieldSpec::LastDay => value == last_day,
        FieldSpec::LastWeekday(w) => last_weekday_spec(year as int, month as int, w as int)
            == Some(value),
        FieldSpec::NearestWeekday(d) => nearest_weekday_spec(year as int, month as int, d as int)
            == Some(value),
        FieldSpec::NthWeekday(w, n) => nth_weekday_spec(year as int, month as int, w as int, n as int)
            == Some(value),
    }
}

/// A parsed cron expression.
pub struct CronSpec {
    pub seconds: FieldSpec,
    pub minutes: FieldSpec,
    pub hours: FieldSpec,
    pub days: FieldSpec,
    pub months: Set<u32>,
    pub weekdays: FieldSpec,
}

impl CronSpec {
    pub open spec fn wf(self) -> bool {
        &&& self.seconds.wf()
        &&& self.minutes.wf()
        &&& self.hours.wf()
        &&& self.days.wf()
        &&& self.weekdays.wf()
    }
}

/// Whether the weekday field matches the day of the week `wd` (`1` =
/// Monday .. `7` = Sunday): in a list of values both `0` and `7` stand for
/// Sunday.
pub open spec fn weekday_field_matches(f: FieldSpec, wd: u32, year: i32, month: u32, last_day: u32) -> bool {
    match f {
        FieldSpec::Values(s) => s.contains(wd) || (wd == 7 && s.contains(0)),
        _ => field_matches(f, wd, year, month, last_day),
    }
}

/// Whether the expression fires at the given time. `weekday` counts from
/// Sunday = 0; the weekday field sees Sunday as `0` or `7`.
pub open spec fn cron_matches(
    c: CronSpec,
    sec: u32,
    min: u32,
    hour: u32,
    day: u32,
    month: u32,
    weekday: u32,
    year: i32,
) -> bool {
    let last = month_length(year as int, month as int) as u32;
    let wd: u32 = if weekday == 0 { 7 } else { weekday };
    &&& field_matches(c.seconds, sec, year, month, last)
    &&& field_matches(c.minutes, min, year, month, last)
    &&& field_matches(c.hours, hour, year, month, last)
    &&& c.months.contains(month)
    &&& field_matches(c.days, day, year, month, last)
    &&& weekday_field_matches(c.weekdays, wd, year, month, last)
}

// ───────────────────────── grammar ─────────────────────────

/// The values `a..=b`.
pub open spec fn span(a: u32, b: u32) -> Set<u32> {
    Set::new(|x: u32| a <= x <= b)
}

/// The values that the loop `v = start; while v <= max { take v; v += step }`
/// takes, with `u32` addition wrapping as in a release build:
/// `start, start + step, ..` up to `max`; or, when the first addition
/// already passes `u32::MAX`, `start` and then every `2^32 - step` below it,
/// down to the last value that is not negative.
pub open spec fn stepped(start: u32, step: u32, max: u32) -> Set<u32> {
    if start + step > u32::MAX {
        Set::new(
            |x: u32| x <= start <= max && (start - x) % (0x1_0000_0000 - step) == 0,
        )
    } else {
        Set::new(|x: u32| start <= x <= max && (x - start) % (step as int) == 0)
    }
}

/// The last of `start, start + step, ..` that does not pass `max`.
pub open spec fn last_stepped(start: u32, step: u32, max: u32) -> int {
    start + ((max - start) / (step as int)) * step
}

/// Whether that loop ends with the values `stepped` gives: it takes no value
/// (`start > max`), or it never wraps, or it wraps on each step down from
/// `start` and leaves `max` behind at the wrap that ends the descent. On
/// other inputs the wrapped loop goes round again (or, in a debug build,
/// panics).
pub open spec fn step_loop_ends(start: u32, step: u32, max: u32) -> bool {
    ||| start > max
    ||| (start + step <= u32::MAX && last_stepped(start, step, max) + step <= u32::MAX)
    ||| (start + step > u32::MAX && (start as int) % (0x1_0000_0000 - step) + step > max)
}

/// Whether a part of a standard field, if it is a step, is one whose loop
/// ends.
pub open spec fn range_part_ends(part: Seq<char>, min: u32, max: u32) -> bool {
    match split_once_on(part, '/') {
        Some((base, step_text)) => match parse_u32_spec(step_text) {
            Some(step) => step == 0 || match (if base == seq!['*'] || base.len() == 0 {
                Some(min)
            } else {
                parse_u32_spec(base)
            }) {
                Some(start) => step_loop_ends(start, step, max),
                None => true,
            },
            None => true,
        },
        None => true,
    }
}

/// Whether every part of a standard field is one whose loop ends.
pub open spec fn field_parts_end(field: Seq<char>, min: u32, max: u32) -> bool {
    forall|i: int|
        0 <= i < split_on(field, ',').len() ==> range_part_ends(
            #[trigger] split_on(field, ',')[i],
            min,
            max,
        )
}

/// With `max` below `2^31` every step loop ends.
pub proof fn lemma_small_max_ends(start: u32, step: u32, max: u32)
    requires
        step > 0,
        max < 0x8000_0000,
    ensures
        step_loop_ends(start, step, max),
{
    if start <= max {
        if start + step <= u32::MAX {
            let q = (max - start) / (step as int);
            vstd::arithmetic::div_mod::lemma_fundamental_div_mod(max - start, step as int);
            assert(q * step <= max - start) by (nonlinear_arith)
                requires
                    q == (max - start) / (step as int),
                    max - start == (step as int) * ((max - start) / (step as int)) + (max - start)
                        % (step as int),
                    0 <= (max - start) % (step as int),
            ;
            if step > max {
                assert(q == 0) by (nonlinear_arith)
                    requires
                        q == (max - start) / (step as int),
                        0 <= max - start < step,
                ;
            }
        } else {
            let d: int = 0x1_0000_0000 - step;
            assert((start as int) % d >= 0) by (nonlinear_arith)
                requires
                    d > 0,
            ;
        }
    }
}

/// Every step in a field whose range ends below `2^31` (all the fields of a
/// cron expression) is one whose loop ends.
pub proof fn law_small_ranges_always_end(field: Seq<char>, min: u32, max: u32)
    requires
        max < 0x8000_0000,
    ensures
        field_parts_end(field, min, max),
{
    assert forall|i: int| 0 <= i < split_on(field, ',').len() implies range_part_ends(
        #[trigger] split_on(field, ',')[i],
        min,
        max,
    ) by {
        lemma_small_max_part_ends(split_on(field, ',')[i], min, max);
    }
}

/// With `max` below `2^31` a part's loop ends.
pub proof fn lemma_small_max_part_ends(part: Seq<char>, min: u32, max: u32)
    requires
        max < 0x8000_0000,
    ensures
        range_part_ends(part, min, max),
{
    match split_once_on(part, '/') {
        Some((base, step_text)) => match parse_u32_spec(step_text) {
            Some(step) => if step > 0 {
                let start = if base == seq!['*'] || base.len() == 0 {
                    Some(min)
                } else {
                    parse_u32_spec(base)
                };
                match start {
                    Some(st) => lemma_small_max_ends(st, step, max),
                    None => {},
                }
            },
            None => {},
        },
        None => {},
    }
}

/// One comma-separated part of a seconds/minutes/hours/days/months field:
/// `<base>/<step>` (base `*` or empty meaning `min`), `*`, `<a>-<b>` or a
/// single number.
pub open spec fn range_part_spec(part: Seq<char>, min: u32, max: u32) -> Option<Set<u32>> {
    match split_once_on(part, '/') {
        Some((base, step_text)) => match parse_u32_spec(step_text) {
            None => None,
            Some(step) => if step == 0 {
                None
            } else {
                let start = if base == seq!['*'] || base.len() == 0 {
                    Some(min)
                } else {
                    parse_u32_spec(base)
                };
                match start {
                    Some(s) => Some(stepped(s, step, max)),
                    None => None,
                }
            },
        },
        None => if part == seq!['*'] {
            Some(span(min, max))
        } else {
            match split_once_on(part, '-') {
                Some((a, b)) => match (parse_u32_spec(a), parse_u32_spec(b)) {
                    (Some(x), Some(y)) => Some(span(x, y)),
                    _ => None,
                },
                None => match parse_u32_spec(part) {
                    Some(v) => Some(set![v]),
                    None => None,
                },
            }
        },
    }
}

/// The union of what `part` gives for each of `parts`, or `None` as soon as
/// one part is malformed.
pub open spec fn union_all(
    parts: Seq<Seq<char>>,
    part: spec_fn(Seq<char>) -> Option<Set<u32>>,
) -> Option<Set<u32>>
    decreases parts.len(),
{
    if parts.len() == 0 {
        Some(Set::empty())
    } else {
        match (union_all(parts.drop_last(), part), part(parts.last())) {
            (Some(a), Some(b)) => Some(a.union(b)),
            _ => None,
        }
    }
}

/// The part parser of a standard field.
pub open spec fn range_part_fn(min: u32, max: u32) -> spec_fn(Seq<char>) -> Option<Set<u32>> {
    |p: Seq<char>| range_part_spec(p, min, max)
}

/// The union of the parts of a list, or `None` if a part is malformed.
pub open spec fn list_spec(parts: Seq<Seq<char>>, min: u32, max: u32) -> Option<Set<u32>> {
    union_all(parts, range_part_fn(min, max))
}

/// A seconds/minutes/hours field with values in `min..=max`.
pub open spec fn std_field_spec(field: Seq<char>, min: u32, max: u32) -> Option<FieldSpec> {
    if field == seq!['*'] || field == seq!['?'] {
        Some(FieldSpec::Any)
    } else {
        match list_spec(split_on(field, ','), min, max) {
            Some(s) => Some(FieldSpec::Values(s)),
            None => None,
        }
    }
}

/// The day-of-month field: `?`, `L`, `<d>W` or a standard field over `1..=31`.
pub open spec fn day_field_spec(field: Seq<char>) -> Option<FieldSpec> {
    if field == seq!['?'] {
        Some(FieldSpec::Any)
    } else if field == seq!['L'] {
        Some(FieldSpec::LastDay)
    } else if has_suffix(field, seq!['W']) {
        match parse_u32_spec(field.drop_last()) {
            Some(d) => if 1 <= d <= 31 { Some(FieldSpec::NearestWeekday(d)) } else { None },
            None => None,
        }
    } else {
        std_field_spec(field, 1, 31)
    }
}

/// Whether `c` upper-cases to the ASCII capital `u` (`char::to_uppercase`):
/// the capital itself, its lower-case letter, or the two non-ASCII letters
/// whose upper case is an ASCII capital (`ı` → `I`, `ſ` → `S`).
pub open spec fn upper_is(c: char, u: char) -> bool {
    ||| c == u
    ||| c as int == u as int + 32
    ||| (u == 'I' && c == '\u{131}')
    ||| (u == 'S' && c == '\u{17f}')
}

/// Whether `s.to_uppercase() == name` for a name of ASCII capitals that holds
/// none of the pairs `FF`, `FI`, `FL`, `SS`, `ST` (which ligatures and `ß`
/// upper-case to).
pub open spec fn upper_eq(s: Seq<char>, name: Seq<char>) -> bool {
    s.len() == name.len() && forall|i: int| 0 <= i < s.len() ==> upper_is(s[i], name[i])
}

/// `JAN`..`DEC` become `1`..`12` (ignoring case); other text is kept.
pub open spec fn normalize_month_spec(s: Seq<char>) -> Seq<char> {
    if upper_eq(s, seq!['J', 'A', 'N']) { seq!['1'] }
    else if upper_eq(s, seq!['F', 'E', 'B']) { seq!['2'] }
    else if upper_eq(s, seq!['M', 'A', 'R']) { seq!['3'] }
    else if upper_eq(s, seq!['A', 'P', 'R']) { seq!['4'] }
    else if upper_eq(s, seq!['M', 'A', 'Y']) { seq!['5'] }
    else if upper_eq(s, seq!['J', 'U', 'N']) { seq!['6'] }
    else if upper_eq(s, seq!['J', 'U', 'L']) { seq!['7'] }
    else if upper_eq(s, seq!['A', 'U', 'G']) { seq!['8'] }
    else if upper_eq(s, seq!['S', 'E', 'P']) { seq!['9'] }
    else if upper_eq(s, seq!['O', 'C', 'T']) { seq!['1', '0'] }
    else if upper_eq(s, seq!['N', 'O', 'V']) { seq!['1', '1'] }
    else if upper_eq(s, seq!['D', 'E', 'C']) { seq!['1', '2'] }
    else { s }
}

/// `SUN`..`SAT` become `0`..`6` (ignoring case); other text is kept.
pub open spec fn normalize_weekday_spec(s: Seq<char>) -> Seq<char> {
    if upper_eq(s, seq!['S', 'U', 'N']) { seq!['0'] }
    else if upper_eq(s, seq!['M', 'O', 'N']) { seq!['1'] }
    else if upper_eq(s, seq!['T', 'U', 'E']) { seq!['2'] }
    else if upper_eq(s, seq!['W', 'E', 'D']) { seq!['3'] }
    else if upper_eq(s, seq!['T', 'H', 'U']) { seq!['4'] }
    else if upper_eq(s, seq!['F', 'R', 'I']) { seq!['5'] }
    else if upper_eq(s, seq!['S', 'A', 'T']) { seq!['6'] }
    else { s }
}

/// The English day names in week order, from Sunday.
pub open spec fn day_names() -> Seq<Seq<char>> {
    seq![
        seq!['S', 'U', 'N'],
        seq!['M', 'O', 'N'],
        seq!['T', 'U', 'E'],
        seq!['W', 'E', 'D'],
        seq!['T', 'H', 'U'],
        seq!['F', 'R', 'I'],
        seq!['S', 'A', 'T'],
    ]
}

/// The English month names in calendar order, from January.
pub open spec fn month_names() -> Seq<Seq<char>> {
    seq![
        seq!['J', 'A', 'N'],
        seq!['F', 'E', 'B'],
        seq!['M', 'A', 'R'],
        seq!['A', 'P', 'R'],
        seq!['M', 'A', 'Y'],
        seq!['J', 'U', 'N'],
        seq!['J', 'U', 'L'],
        seq!['A', 'U', 'G'],
        seq!['S', 'E', 'P'],
        seq!['O', 'C', 'T'],
        seq!['N', 'O', 'V'],
        seq!['D', 'E', 'C'],
    ]
}

/// A one- or two-digit decimal text reads as its value.
proof fn lemma_short_decimal(t: Seq<char>)
    requires
        1 <= t.len() <= 2,
        forall|k: int| 0 <= k < t.len() ==> '0' <= #[trigger] t[k] <= '9',
        t[0] != '+',
    ensures
        parse_u32_spec(t) == Some(
            (if t.len() == 1 {
                t[0] as int - 48
            } else {
                (t[0] as int - 48) * 10 + (t[1] as int - 48)
            }) as u32,
        ),
{
    assert(unsigned_digits(t) == t);
    assert('0' as int == 48);
    assert(all_digits(t));
    if t.len() == 1 {
        assert(t.drop_last() =~= Seq::<char>::empty());
        assert(decimal_value(Seq::<char>::empty()) == 0);
        assert(decimal_value(t) == decimal_value(t.drop_last()) * 10 + digit_value(t.last()));
        assert(decimal_value(t) == digit_value(t[0]));
    } else {
        assert(t.drop_last() =~= seq![t[0]]);
        let h = seq![t[0]];
        assert(h.drop_last() =~= Seq::<char>::empty());
        assert(decimal_value(Seq::<char>::empty()) == 0);
        assert(h.last() == t[0]);
        assert(decimal_value(h) == decimal_value(h.drop_last()) * 10 + digit_value(h.last()));
        assert(decimal_value(h) == digit_value(t[0]));
        assert(decimal_value(t) == decimal_value(t.drop_last()) * 10 + digit_value(t.last()));
        assert(decimal_value(t) == digit_value(t[0]) * 10 + digit_value(t[1]));
    }
}

/// A weekday name, in any case, denotes its place in the week counted from
/// Sunday = 0.
pub proof fn law_weekday_names(s: Seq<char>, i: int)
    requires
        0 <= i < 7,
        upper_eq(s, day_names()[i]),
    ensures
        weekday_value_spec(s) == Some(i as u32),
{
    let names = day_names();
    assert forall|j: int| 0 <= j < 7 && j != i implies !upper_eq(s, #[trigger] names[j]) by {
        let a = names[i];
        let b = names[j];
        let k: int = if a[0] != b[0] { 0 } else if a[1] != b[1] { 1 } else { 2 };
        assert(a[k] != b[k]);
        assert(upper_is(s[k], a[k]));
    }
    lemma_short_decimal(normalize_weekday_spec(s));
}

/// A weekday field that is a day name, in any case, is that one day, and it
/// matches exactly the times whose day of the week (counted from Sunday =
/// 0) is that day.
pub proof fn law_weekday_name_field(s: Seq<char>, i: int, weekday: u32, year: i32, month: u32, last_day: u32)
    requires
        0 <= i < 7,
        upper_eq(s, day_names()[i]),
        weekday < 7,
    ensures
        weekday_field_spec(s) == Some(FieldSpec::Values(set![i as u32])),
        weekday_field_matches(
            FieldSpec::Values(set![i as u32]),
            if weekday == 0 { 7 } else { weekday },
            year,
            month,
            last_day,
        ) <==> weekday == i,
{
    let name = day_names()[i];
    assert(forall|k: int| 0 <= k < 3 ==> 'A' <= #[trigger] name[k] <= 'Z');
    assert forall|k: int| 0 <= k < s.len() implies (#[trigger] s[k]) as int >= 65 && s[k] != 'L'
        by {
        assert(upper_is(s[k], name[k]));
    }
    assert(s.len() == 3);
    crate::text::lemma_first_index_of_is(s, ',', 3);
    crate::text::lemma_first_index_of_is(s, '-', 3);
    crate::text::lemma_first_index_of_is(s, '/', 3);
    crate::text::lemma_first_index_of_is(s, '#', 3);
    assert(s != seq!['?']);
    assert(s != seq!['*']);
    assert(!has_suffix(s, seq!['L'])) by {
        assert(s.skip(2)[0] == s[2]);
    }
    assert(split_on(s, ',') =~= seq![s]);
    law_weekday_names(s, i);
    assert(weekday_part_spec(s) == Some(set![i as u32]));
    let parts = seq![s];
    assert(parts.drop_last() =~= Seq::<Seq<char>>::empty());
    assert(parts.last() == s);
    assert(union_all(parts.drop_last(), weekday_part_fn()) == Some(Set::<u32>::empty()));
    assert(Set::<u32>::empty().union(set![i as u32]) =~= set![i as u32]);
    assert(weekday_list_spec(parts) == Some(set![i as u32]));
}

/// A month name, in any case, denotes its place in the year counted from
/// January = 1.
pub proof fn law_month_names(s: Seq<char>, i: int)
    requires
        0 <= i < 12,
        upper_eq(s, month_names()[i]),
    ensures
        parse_u32_spec(normalize_month_spec(s)) == Some((i + 1) as u32),
{
    let names = month_names();
    assert forall|j: int| 0 <= j < 12 && j != i implies !upper_eq(s, #[trigger] names[j]) by {
        let a = names[i];
        let b = names[j];
        let k: int = if a[0] != b[0] { 0 } else if a[1] != b[1] { 1 } else { 2 };
        assert(a[k] != b[k]);
        assert(upper_is(s[k], a[k]));
    }
    lemma_short_decimal(normalize_month_spec(s));
}

/// The part parser of the month field (names allowed).
pub open spec fn month_part_fn() -> spec_fn(Seq<char>) -> Option<Set<u32>> {
    |p: Seq<char>| range_part_spec(normalize_month_spec(p), 1, 12)
}

/// The union of the month-list parts, or `None`.
pub open spec fn month_list_spec(parts: Seq<Seq<char>>) -> Option<Set<u32>> {
    union_all(parts, month_part_fn())
}

/// The month field: `*`/`?` for every month, else a list over `1..=12`.
pub open spec fn month_field_spec(field: Seq<char>) -> Option<Set<u32>> {
    if field == seq!['*'] || field == seq!['?'] {
        Some(span(1, 12))
    } else {
        month_list_spec(split_on(field, ','))
    }
}

/// A weekday value: a number or a day name.
pub open spec fn weekday_value_spec(s: Seq<char>) -> Option<u32> {
    parse_u32_spec(normalize_weekday_spec(s))
}

/// One part of a plain weekday list: `<a>-<b>`, `<base>/<step>` (base `*`
/// meaning 0, values up to 7) or a single value.
pub open spec fn weekday_part_spec(part: Seq<char>) -> Option<Set<u32>> {
    match split_once_on(part, '-') {
        Some((a, b)) => match (weekday_value_spec(a), weekday_value_spec(b)) {
            (Some(x), Some(y)) => Some(span(x, y)),
            _ => None,
        },
        None => match split_once_on(part, '/') {
            Some((base, step_text)) => match parse_u32_spec(step_text) {
                None => None,
                Some(step) => if step == 0 {
                    None
                } else {
                    let start = if base == seq!['*'] { Some(0u32) } else { weekday_value_spec(base) };
                    match start {
                        Some(s) => Some(stepped(s, step, 7)),
                        None => None,
                    }
                },
            },
            None => match weekday_value_spec(part) {
                Some(v) => Some(set![v]),
                None => None,
            },
        },
    }
}

/// The part parser of a plain weekday field.
pub open spec fn weekday_part_fn() -> spec_fn(Seq<char>) -> Option<Set<u32>> {
    |p: Seq<char>| weekday_part_spec(p)
}

/// The union of plain weekday parts, or `None`.
pub open spec fn weekday_list_spec(parts: Seq<Seq<char>>) -> Option<Set<u32>> {
    union_all(parts, weekday_part_fn())
}

/// A plain weekday field: `*` or a list.
pub open spec fn std_weekday_field_spec(field: Seq<char>) -> Option<FieldSpec> {
    if field == seq!['*'] {
        Some(FieldSpec::Any)
    } else {
        match weekday_list_spec(split_on(field, ',')) {
            Some(s) => Some(FieldSpec::Values(s)),
            None => None,
        }
    }
}

/// The weekday field: `?`, `<w>#<n>` (n in 1..=5), `<w>L`, or a plain field.
pub open spec fn weekday_field_spec(field: Seq<char>) -> Option<FieldSpec> {
    if field == seq!['?'] {
        Some(FieldSpec::Any)
    } else {
        match split_once_on(field, '#') {
            Some((w_text, n_text)) => match (weekday_value_spec(w_text), parse_u32_spec(n_text)) {
                (Some(w), Some(n)) => if w > 7 || n < 1 || n > 5 {
                    None
                } else {
                    Some(FieldSpec::NthWeekday(w, n))
                },
                _ => None,
            },
            None => if has_suffix(field, seq!['L']) {
                match weekday_value_spec(field.drop_last()) {
                    Some(w) => if w > 7 { None } else { Some(FieldSpec::LastWeekday(w)) },
                    None => None,
                }
            } else {
                std_weekday_field_spec(field)
            },
        }
    }
}

/// A whole expression: exactly six whitespace-separated fields.
pub open spec fn cron_spec(expr: Seq<char>) -> Option<CronSpec> {
    let f = words(expr);
    if f.len() != 6 {
        None
    } else {
        match (
            std_field_spec(f[0], 0, 59),
            std_field_spec(f[1], 0, 59),
            std_field_spec(f[2], 0, 23),
            day_field_spec(f[3]),
            month_field_spec(f[4]),
            weekday_field_spec(f[5]),
        ) {
            (Some(s), Some(mi), Some(h), Some(d), Some(mo), Some(w)) => Some(
                CronSpec { seconds: s, minutes: mi, hours: h, days: d, months: mo, weekdays: w },
            ),
            _ => None,
        }
    }
}

// ───────────────────────── lemmas ─────────────────────────

/// Reading one more part extends the union by that part.
pub proof fn lemma_union_all_step(
    parts: Seq<Seq<char>>,
    part: spec_fn(Seq<char>) -> Option<Set<u32>>,
    i: int,
)
    requires
        0 <= i < parts.len(),
    ensures
        union_all(parts.take(i + 1), part) == match (union_all(parts.take(i), part), part(parts[i])) {
            (Some(a), Some(b)) => Some(a.union(b)),
            _ => None,
        },
{
    assert(parts.take(i + 1).drop_last() =~= parts.take(i));
}

/// Once a prefix of the parts is malformed, so is the whole list.
pub proof fn lemma_union_all_none(
    parts: Seq<Seq<char>>,
    part: spec_fn(Seq<char>) -> Option<Set<u32>>,
    i: int,
)
    requires
        0 <= i <= parts.len(),
        union_all(parts.take(i), part) is None,
    ensures
        union_all(parts, part) is None,
    decreases parts.len() - i,
{
    if i < parts.len() {
        lemma_union_all_step(parts, part, i);
        lemma_union_all_none(parts, part, i + 1);
    } else {
        assert(parts.take(i) =~= parts);
    }
}

// ───────────────────────── executable fields ─────────────────────────

/// A parsed cron field.
pub enum FieldSet {
    Any,
    Values(HashSet<u32>),
    LastDay,
    LastWeekday(u32),
    NearestWeekday(u32),
    NthWeekday { weekday: u32, n: u32 },
}

impl View for FieldSet {
    type V = FieldSpec;

    open spec fn view(&self) -> FieldSpec {
        match self {
            FieldSet::Any => FieldSpec::Any,
            FieldSet::Values(s) => FieldSpec::Values(s@),
            FieldSet::LastDay => FieldSpec::LastDay,
            FieldSet::LastWeekday(w) => FieldSpec::LastWeekday(*w),
            FieldSet::NearestWeekday(d) => FieldSpec::NearestWeekday(*d),
            FieldSet::NthWeekday { weekday, n } => FieldSpec::NthWeekday(*weekday, *n),
        }
    }
}

/// The parsed view of an optional field.
pub open spec fn opt_field_view(f: Option<FieldSet>) -> Option<FieldSpec> {
    match f {
        Some(x) => Some(x@),
        None => None,
    }
}

/// The parsed view of an optional value set.
pub open spec fn opt_set_view(s: Option<HashSet<u32>>) -> Option<Set<u32>> {
    match s {
        Some(x) => Some(x@),
        None => None,
    }
}

/// The month that a field is matched in.
pub struct MatchContext {
    pub year: i32,
    pub month: u32,
    pub last_day_of_month: u32,
}

impl FieldSet {
    /// Whether the field matches `value` in the context's month.
    pub fn matches(&self, value: u32, ctx: &MatchContext) -> (r: bool)
        requires
            self@.wf(),
        ensures
            r == field_matches(self@, value, ctx.year, ctx.month, ctx.last_day_of_month),
    {
        match self {
            FieldSet::Any => true,
            FieldSet::Values(set) => set.contains(&value),
            FieldSet::LastDay => value == ctx.last_day_of_month,
            FieldSet::LastWeekday(w) => match last_weekday_of_month(ctx.year, ctx.month, *w) {
                Some(d) => d == value,
                None => false,
            },
            FieldSet::NearestWeekday(day) => match nearest_weekday(ctx.year, ctx.month, *day) {
                Some(d) => d == value,
                None => false,
            },
            FieldSet::NthWeekday { weekday, n } => match nth_weekday(
                ctx.year,
                ctx.month,
                *weekday,
                *n,
            ) {
                Some(d) => d == value,
                None => false,
            },
        }
    }
}

/// Adds `a..=b` to `set`.
fn insert_span(set: &mut HashSet<u32>, a: u32, b: u32)
    ensures
        final(set)@ == old(set)@.union(span(a, b)),
{
    let ghost start = set@;
    if a > b {
        assert(span(a, b) =~= Set::empty());
        assert(set@ =~= start.union(span(a, b)));
        return;
    }
    let mut v: u64 = a as u64;
    assert(set@ =~= start.union(Set::new(|x: u32| a <= x && (x as u64) < v)));
    while v <= b as u64
        invariant
            a <= v <= b as u64 + 1,
            set@ == start.union(Set::new(|x: u32| a <= x && (x as u64) < v)),
        decreases b as u64 + 1 - v,
    {
        set.insert(v as u32);
        assert(set@ =~= start.union(Set::new(|x: u32| a <= x && (x as u64) < v + 1)));
        v = v + 1;
    }
    assert(set@ =~= start.union(span(a, b)));
}

/// The stepped values below `v` (and not above `max`).
spec fn stepped_below(start: u32, step: u32, max: u32, v: int) -> Set<u32> {
    Set::new(|x: u32| start <= x && x < v && x <= max && (x - start) % (step as int) == 0)
}

/// A multiple of `step` in `[k*step, (k+1)*step)` is `k*step`.
proof fn lemma_step_gap(step: int, k: int, d: int)
    requires
        step > 0,
        k >= 0,
        k * step <= d < (k + 1) * step,
        d % step == 0,
    ensures
        d == k * step,
{
    vstd::arithmetic::div_mod::lemma_fundamental_div_mod(d, step);
    let q = d / step;
    assert(d == step * q);
    if q < k {
        assert(step * q <= step * (k - 1)) by (nonlinear_arith)
            requires
                q <= k - 1,
                step > 0,
        ;
        assert(step * (k - 1) == k * step - step) by (nonlinear_arith);
    } else if q > k {
        assert(step * q >= step * (k + 1)) by (nonlinear_arith)
            requires
                q >= k + 1,
                step > 0,
        ;
        assert(step * (k + 1) == (k + 1) * step) by (nonlinear_arith);
    } else {
        assert(step * q == k * step) by (nonlinear_arith)
            requires
                q == k,
        ;
    }
}

/// The values `start, start - d, ..` above `v`.
spec fn stepped_down_above(start: u32, d: int, v: int) -> Set<u32> {
    Set::new(|x: u32| v < x <= start && (start - x) % d == 0)
}

/// Adds what the wrapping loop takes when its first step passes
/// `u32::MAX`: `start`, then every `2^32 - step` below it.
fn insert_wrapped_down(set: &mut HashSet<u32>, start: u32, step: u32, max: u32)
    requires
        step > 0,
        start <= max,
        start + step > u32::MAX,
    ensures
        final(set)@ == old(set)@.union(stepped(start, step, max)),
{
    let ghost orig = set@;
    let d: u32 = u32::MAX - step + 1;
    let ghost di: int = d as int;
    assert(di == 0x1_0000_0000 - step);
    let mut v: u32 = start;
    let ghost mut k: int = 0;
    assert(stepped_down_above(start, di, v as int) =~= Set::empty());
    assert(set@ =~= orig.union(stepped_down_above(start, di, v as int)));
    loop
        invariant_except_break
            set@ == orig.union(stepped_down_above(start, di, v as int)),
        invariant
            di == d,
            d > 0,
            di == 0x1_0000_0000 - step,
            start <= max,
            start + step > u32::MAX,
            k >= 0,
            v == start - k * di,
        ensures
            set@ == orig.union(stepped(start, step, max)),
        decreases v,
    {
        set.insert(v);
        proof {
            assert((k * di) % di == 0) by (nonlinear_arith)
                requires
                    di > 0,
                    k >= 0,
            ;
            assert(k * di + di == (k + 1) * di) by (nonlinear_arith);
        }
        if v < d {
            proof {
                assert forall|x: u32| #[trigger] stepped(start, step, max).contains(x) implies x
                    >= v by {
                    if x < v {
                        lemma_step_gap(di, k, start - x);
                    }
                }
                assert(set@ =~= orig.union(stepped(start, step, max)));
            }
            break;
        }
        proof {
            assert forall|x: u32| #[trigger]
                stepped_down_above(start, di, v - di).contains(x) implies x == v
                || stepped_down_above(start, di, v as int).contains(x) by {
                if v - di < x < v {
                    lemma_step_gap(di, k, start - x);
                }
            }
            assert(set@ =~= orig.union(stepped_down_above(start, di, v - di)));
            k = k + 1;
        }
        v = v - d;
    }
}

/// Adds `start, start + step, ..` up to `max` to `set`.
fn insert_stepped(set: &mut HashSet<u32>, start: u32, step: u32, max: u32)
    requires
        step > 0,
    ensures
        final(set)@ == old(set)@.union(stepped(start, step, max)),
{
    let ghost orig = set@;
    if start > max {
        assert(stepped(start, step, max) =~= Set::empty());
        assert(set@ =~= orig.union(stepped(start, step, max)));
        return;
    }
    if step > u32::MAX - start {
        insert_wrapped_down(set, start, step, max);
        return;
    }
    let mut v: u64 = start as u64;
    let ghost mut k: int = 0;
    assert(orig.union(stepped_below(start, step, max, v as int)) =~= orig);
    while v <= max as u64
        invariant
            step > 0,
            k >= 0,
            v == start + k * step,
            v <= max + step,
            set@ == orig.union(stepped_below(start, step, max, v as int)),
        decreases max + step - v,
    {
        set.insert(v as u32);
        proof {
            let next = v + step;
            assert((k * step) % (step as int) == 0) by (nonlinear_arith)
                requires
                    step > 0,
                    k >= 0,
            ;
            assert(k * step + step == (k + 1) * step) by (nonlinear_arith);
            assert forall|x: u32| #[trigger]
                stepped_below(start, step, max, next as int).contains(x) implies (x as int)
                < v || x == v by {
                if x as int >= v {
                    lemma_step_gap(step as int, k, x - start);
                }
            }
            assert(set@ =~= orig.union(stepped_below(start, step, max, next as int)));
            k = k + 1;
        }
        v = v + step as u64;
    }
    assert(set@ =~= orig.union(stepped(start, step, max)));
}

/// One comma-separated part of a standard field, added to `set`. On a
/// malformed part nothing is added.
fn parse_range_part_chars(part: &[char], min: u32, max: u32, set: &mut HashSet<u32>) -> (r: Option<
    (),
>)
    ensures
        match range_part_spec(part@, min, max) {
            Some(s) => r is Some && final(set)@ == old(set)@.union(s),
            None => r is None && final(set)@ == old(set)@,
        },
{
    match split_once_char(part, '/') {
        Some((base, step_text)) => {
            let step = match parse_u32(step_text.as_slice()) {
                Some(s) => s,
                None => return None,
            };
            if step == 0 {
                return None;
            }
            let start = if is_single(base.as_slice(), '*') || base.len() == 0 {
                min
            } else {
                match parse_u32(base.as_slice()) {
                    Some(s) => s,
                    None => return None,
                }
            };
            insert_stepped(set, start, step, max);
            Some(())
        },
        None => {
            if is_single(part, '*') {
                insert_span(set, min, max);
                Some(())
            } else {
                match split_once_char(part, '-') {
                    Some((a, b)) => {
                        let a = match parse_u32(a.as_slice()) {
                            Some(x) => x,
                            None => return None,
                        };
                        let b = match parse_u32(b.as_slice()) {
                            Some(x) => x,
                            None => return None,
                        };
                        insert_span(set, a, b);
                        Some(())
                    },
                    None => {
                        let v = match parse_u32(part) {
                            Some(x) => x,
                            None => return None,
                        };
                        set.insert(v);
                        assert(set@ =~= old(set)@.union(set![v]));
                        Some(())
                    },
                }
            }
        },
    }
}

/// A seconds/minutes/hours (or plain day) field over `min..=max`.
fn parse_std_field_chars(field: &[char], min: u32, max: u32) -> (r: Option<FieldSet>)
    ensures
        opt_field_view(r) == std_field_spec(field@, min, max),
{
    if is_single(field, '*') || is_single(field, '?') {
        return Some(FieldSet::Any);
    }
    let parts = split_char(field, ',');
    let ghost ps = split_on(field@, ',');
    let ghost f = range_part_fn(min, max);
    let mut set: HashSet<u32> = HashSet::new();
    let mut i: usize = 0;
    assert(ps.take(0) =~= Seq::<Seq<char>>::empty());
    while i < parts.len()
        invariant
            i <= parts@.len(),
            parts@.len() == ps.len(),
            forall|k: int| 0 <= k < parts@.len() ==> #[trigger] parts@[k]@ == ps[k],
            f == range_part_fn(min, max),
            ps == split_on(field@, ','),
            field@ != seq!['*'],
            field@ != seq!['?'],
            union_all(ps.take(i as int), f) == Some(set@),
        decreases parts.len() - i,
    {
        proof {
            lemma_union_all_step(ps, f, i as int);
        }
        assert(parts@[i as int]@ == ps[i as int]);
        assert(f(ps[i as int]) == range_part_spec(ps[i as int], min, max));
        match parse_range_part_chars(parts[i].as_slice(), min, max, &mut set) {
            Some(()) => {},
            None => {
                proof {
                    lemma_union_all_none(ps, f, i + 1);
                }
                return None;
            },
        }
        i = i + 1;
    }
    assert(ps.take(i as int) =~= ps);
    Some(FieldSet::Values(set))
}

/// The day-of-month field.
fn parse_day_field_chars(field: &[char]) -> (r: Option<FieldSet>)
    ensures
        opt_field_view(r) == day_field_spec(field@),
{
    if is_single(field, '?') {
        return Some(FieldSet::Any);
    }
    if is_single(field, 'L') {
        return Some(FieldSet::LastDay);
    }
    if ends_with_char(field, 'W') {
        let day_text = slice_chars(field, 0, field.len() - 1);
        assert(day_text@ =~= field@.drop_last());
        let day = match parse_u32(day_text.as_slice()) {
            Some(d) => d,
            None => return None,
        };
        if day < 1 || day > 31 {
            return None;
        }
        return Some(FieldSet::NearestWeekday(day));
    }
    parse_std_field_chars(field, 1, 31)
}

/// Whether `c` upper-cases to the ASCII capital `u`.
fn upper_char_is(c: char, u: char) -> (r: bool)
    ensures
        r == upper_is(c, u),
{
    c == u || (c as u32) == (u as u32) + 32 || (u == 'I' && c == '\u{131}') || (u == 'S' && c
        == '\u{17f}')
}

/// Whether `s` upper-cases to the three capitals `a b c`.
fn upper_is_name(s: &[char], a: char, b: char, c: char) -> (r: bool)
    ensures
        r == upper_eq(s@, seq![a, b, c]),
{
    let r = s.len() == 3 && upper_char_is(s[0], a) && upper_char_is(s[1], b) && upper_char_is(
        s[2],
        c,
    );
    proof {
        if s.len() == 3 {
            let n = seq![a, b, c];
            if r {
                assert forall|i: int| 0 <= i < s@.len() implies upper_is(s@[i], n[i]) by {
                    if i == 0 {
                    } else if i == 1 {
                    } else {
                    }
                }
            } else {
                assert(!upper_is(s@[0], n[0]) || !upper_is(s@[1], n[1]) || !upper_is(s@[2], n[2]));
            }
        }
    }
    r
}

/// `JAN`..`DEC` to `1`..`12`, ignoring case; other text unchanged.
fn normalize_month_name_chars(s: &[char]) -> (r: Vec<char>)
    ensures
        r@ == normalize_month_spec(s@),
{
    let r = if upper_is_name(s, 'J', 'A', 'N') { vec!['1'] }
    else if upper_is_name(s, 'F', 'E', 'B') { vec!['2'] }
    else if upper_is_name(s, 'M', 'A', 'R') { vec!['3'] }
    else if upper_is_name(s, 'A', 'P', 'R') { vec!['4'] }
    else if upper_is_name(s, 'M', 'A', 'Y') { vec!['5'] }
    else if upper_is_name(s, 'J', 'U', 'N') { vec!['6'] }
    else if upper_is_name(s, 'J', 'U', 'L') { vec!['7'] }
    else if upper_is_name(s, 'A', 'U', 'G') { vec!['8'] }
    else if upper_is_name(s, 'S', 'E', 'P') { vec!['9'] }
    else if upper_is_name(s, 'O', 'C', 'T') { vec!['1', '0'] }
    else if upper_is_name(s, 'N', 'O', 'V') { vec!['1', '1'] }
    else if upper_is_name(s, 'D', 'E', 'C') { vec!['1', '2'] }
    else { slice_chars(s, 0, s.len()) };
    assert(r@ =~= normalize_month_spec(s@));
    r
}

/// `SUN`..`SAT` to `0`..`6`, ignoring case; other text unchanged.
fn normalize_weekday_name_chars(s: &[char]) -> (r: Vec<char>)
    ensures
        r@ == normalize_weekday_spec(s@),
{
    let r = if upper_is_name(s, 'S', 'U', 'N') { vec!['0'] }
    else if upper_is_name(s, 'M', 'O', 'N') { vec!['1'] }
    else if upper_is_name(s, 'T', 'U', 'E') { vec!['2'] }
    else if upper_is_name(s, 'W', 'E', 'D') { vec!['3'] }
    else if upper_is_name(s, 'T', 'H', 'U') { vec!['4'] }
    else if upper_is_name(s, 'F', 'R', 'I') { vec!['5'] }
    else if upper_is_name(s, 'S', 'A', 'T') { vec!['6'] }
    else { slice_chars(s, 0, s.len()) };
    assert(r@ =~= normalize_weekday_spec(s@));
    r
}

/// The month field as a set of month numbers.
fn parse_month_field_chars(field: &[char]) -> (r: Option<HashSet<u32>>)
    ensures
        opt_set_view(r) == month_field_spec(field@),
{
    if is_single(field, '*') || is_single(field, '?') {
        let mut all: HashSet<u32> = HashSet::new();
        insert_span(&mut all, 1, 12);
        assert(all@ =~= span(1, 12));
        return Some(all);
    }
    let parts = split_char(field, ',');
    let ghost ps = split_on(field@, ',');
    let ghost f = month_part_fn();
    let mut set: HashSet<u32> = HashSet::new();
    let mut i: usize = 0;
    assert(ps.take(0) =~= Seq::<Seq<char>>::empty());
    while i < parts.len()
        invariant
            i <= parts@.len(),
            parts@.len() == ps.len(),
            forall|k: int| 0 <= k < parts@.len() ==> #[trigger] parts@[k]@ == ps[k],
            f == month_part_fn(),
            ps == split_on(field@, ','),
            field@ != seq!['*'],
            field@ != seq!['?'],
            union_all(ps.take(i as int), f) == Some(set@),
        decreases parts.len() - i,
    {
        proof {
            lemma_union_all_step(ps, f, i as int);
        }
        assert(parts@[i as int]@ == ps[i as int]);
        assert(f(ps[i as int]) == range_part_spec(normalize_month_spec(ps[i as int]), 1, 12));
        let part = normalize_month_name_chars(parts[i].as_slice());
        match parse_range_part_chars(part.as_slice(), 1, 12, &mut set) {
            Some(()) => {},
            None => {
                proof {
                    lemma_union_all_none(ps, f, i + 1);
                }
                return None;
            },
        }
        i = i + 1;
    }
    assert(ps.take(i as int) =~= ps);
    Some(set)
}

/// A weekday number or name.
fn parse_weekday_value(s: &[char]) -> (r: Option<u32>)
    ensures
        r == weekday_value_spec(s@),
{
    let n = normalize_weekday_name_chars(s);
    parse_u32(n.as_slice())
}

/// One part of a plain weekday list, added to `set`.
fn parse_weekday_part(part: &[char], set: &mut HashSet<u32>) -> (r: Option<()>)
    ensures
        match weekday_part_spec(part@) {
            Some(s) => r is Some && final(set)@ == old(set)@.union(s),
            None => r is None && final(set)@ == old(set)@,
        },
{
    match split_once_char(part, '-') {
        Some((a, b)) => {
            let a = match parse_weekday_value(a.as_slice()) {
                Some(x) => x,
                None => return None,
            };
            let b = match parse_weekday_value(b.as_slice()) {
                Some(x) => x,
                None => return None,
            };
            insert_span(set, a, b);
            Some(())
        },
        None => match split_once_char(part, '/') {
            Some((base, step_text)) => {
                let step = match parse_u32(step_text.as_slice()) {
                    Some(s) => s,
                    None => return None,
                };
                if step == 0 {
                    return None;
                }
                let start = if is_single(base.as_slice(), '*') {
                    0
                } else {
                    match parse_weekday_value(base.as_slice()) {
                        Some(s) => s,
                        None => return None,
                    }
                };
                insert_stepped(set, start, step, 7);
                Some(())
            },
            None => {
                let v = match parse_weekday_value(part) {
                    Some(x) => x,
                    None => return None,
                };
                set.insert(v);
                assert(set@ =~= old(set)@.union(set![v]));
                Some(())
            },
        },
    }
}

/// A plain weekday field: `*` or a list of values, ranges and steps.
fn parse_std_weekday_field_chars(field: &[char]) -> (r: Option<FieldSet>)
    ensures
        opt_field_view(r) == std_weekday_field_spec(field@),
{
    if is_single(field, '*') {
        return Some(FieldSet::Any);
    }
    let parts = split_char(field, ',');
    let ghost ps = split_on(field@, ',');
    let ghost f = weekday_part_fn();
    let mut set: HashSet<u32> = HashSet::new();
    let mut i: usize = 0;
    assert(ps.take(0) =~= Seq::<Seq<char>>::empty());
    while i < parts.len()
        invariant
            i <= parts@.len(),
            parts@.len() == ps.len(),
            forall|k: int| 0 <= k < parts@.len() ==> #[trigger] parts@[k]@ == ps[k],
            f == weekday_part_fn(),
            ps == split_on(field@, ','),
            field@ != seq!['*'],
            union_all(ps.take(i as int), f) == Some(set@),
        decreases parts.len() - i,
    {
        proof {
            lemma_union_all_step(ps, f, i as int);
        }
        assert(parts@[i as int]@ == ps[i as int]);
        assert(f(ps[i as int]) == weekday_part_spec(ps[i as int]));
        match parse_weekday_part(parts[i].as_slice(), &mut set) {
            Some(()) => {},
            None => {
                proof {
                    lemma_union_all_none(ps, f, i + 1);
                }
                return None;
            },
        }
        i = i + 1;
    }
    assert(ps.take(i as int) =~= ps);
    Some(FieldSet::Values(set))
}

/// The weekday field.
fn parse_weekday_field_chars(field: &[char]) -> (r: Option<FieldSet>)
    ensures
        opt_field_view(r) == weekday_field_spec(field@),
{
    if is_single(field, '?') {
        return Some(FieldSet::Any);
    }
    match split_once_char(field, '#') {
        Some((w_text, n_text)) => {
            let weekday = match parse_weekday_value(w_text.as_slice()) {
                Some(w) => w,
                None => return None,
            };
            let n = match parse_u32(n_text.as_slice()) {
                Some(n) => n,
                None => return None,
            };
            if weekday > 7 || n < 1 || n > 5 {
                return None;
            }
            Some(FieldSet::NthWeekday { weekday, n })
        },
        None => {
            if ends_with_char(field, 'L') {
                let w_text = slice_chars(field, 0, field.len() - 1);
                assert(w_text@ =~= field@.drop_last());
                let weekday = match parse_weekday_value(w_text.as_slice()) {
                    Some(w) => w,
                    None => return None,
                };
                if weekday > 7 {
                    return None;
                }
                return Some(FieldSet::LastWeekday(weekday));
            }
            parse_std_weekday_field_chars(field)
        },
    }
}

/// Parsing yields only well-formed fields.
pub proof fn lemma_parsed_fields_wf(field: Seq<char>, min: u32, max: u32)
    ensures
        std_field_spec(field, min, max) matches Some(f) ==> f.wf(),
        day_field_spec(field) matches Some(f) ==> f.wf(),
        weekday_field_spec(field) matches Some(f) ==> f.wf(),
{
}

// ───────────────────────── field parsers on text ─────────────────────────

/// One comma-separated part of a standard field, added to `set`; `None`
/// (adding nothing) when it is malformed. A step whose loop would not end
/// (only possible with `max` of `2^31` or more) is left out.
pub fn parse_range_part(part: &str, min: u32, max: u32, set: &mut HashSet<u32>) -> (r: Option<()>)
    requires
        range_part_ends(part@, min, max),
    ensures
        match range_part_spec(part@, min, max) {
            Some(s) => r is Some && final(set)@ == old(set)@.union(s),
            None => r is None && final(set)@ == old(set)@,
        },
{
    parse_range_part_chars(chars_of(part).as_slice(), min, max, set)
}

/// A seconds/minutes/hours (or plain day) field over `min..=max`. Steps
/// whose loop would not end (only possible with `max` of `2^31` or more)
/// are left out.
pub fn parse_std_field(field: &str, min: u32, max: u32) -> (r: Option<FieldSet>)
    requires
        field_parts_end(field@, min, max),
    ensures
        opt_field_view(r) == std_field_spec(field@, min, max),
{
    parse_std_field_chars(chars_of(field).as_slice(), min, max)
}

/// The day-of-month field.
pub fn parse_day_field(field: &str) -> (r: Option<FieldSet>)
    ensures
        opt_field_view(r) == day_field_spec(field@),
{
    parse_day_field_chars(chars_of(field).as_slice())
}

/// `JAN`..`DEC` to `1`..`12`, ignoring case; other text unchanged.
pub fn normalize_month_name(s: &str) -> (r: String)
    ensures
        r@ == normalize_month_spec(s@),
{
    crate::text::string_of(normalize_month_name_chars(chars_of(s).as_slice()).as_slice())
}

/// `SUN`..`SAT` to `0`..`6`, ignoring case; other text unchanged.
pub fn normalize_weekday_name(s: &str) -> (r: String)
    ensures
        r@ == normalize_weekday_spec(s@),
{
    crate::text::string_of(normalize_weekday_name_chars(chars_of(s).as_slice()).as_slice())
}

/// The month field as a set of month numbers.
pub fn parse_month_field(field: &str) -> (r: Option<HashSet<u32>>)
    ensures
        opt_set_view(r) == month_field_spec(field@),
{
    parse_month_field_chars(chars_of(field).as_slice())
}

/// A plain weekday field: `*` or a list of values, ranges and steps.
pub fn parse_std_weekday_field(field: &str) -> (r: Option<FieldSet>)
    ensures
        opt_field_view(r) == std_weekday_field_spec(field@),
{
    parse_std_weekday_field_chars(chars_of(field).as_slice())
}

/// The weekday field.
pub fn parse_weekday_field(field: &str) -> (r: Option<FieldSet>)
    ensures
        opt_field_view(r) == weekday_field_spec(field@),
{
    parse_weekday_field_chars(chars_of(field).as_slice())
}

// ───────────────────────── expressions ─────────────────────────

/// A parsed six-field cron expression.
pub struct CronExpr {
    seconds: FieldSet,
    minutes: FieldSet,
    hours: FieldSet,
    days: FieldSet,
    months: HashSet<u32>,
    weekdays: FieldSet,
}

impl View for CronExpr {
    type V = CronSpec;

    closed spec fn view(&self) -> CronSpec {
        CronSpec {
            seconds: self.seconds@,
            minutes: self.minutes@,
            hours: self.hours@,
            days: self.days@,
            months: self.months@,
            weekdays: self.weekdays@,
        }
    }
}

/// The parsed view of an optional expression.
pub open spec fn opt_cron_view(c: Option<CronExpr>) -> Option<CronSpec> {
    match c {
        Some(x) => Some(x@),
        None => None,
    }
}

impl CronExpr {
    /// Parsing yields only fields whose special forms are within bounds.
    #[verifier::type_invariant]
    spec fn inv(&self) -> bool {
        self@.wf()
    }

    /// Parses `sec min hour day month weekday`; `None` unless there are
    /// exactly six whitespace-separated fields and each is well formed.
    pub fn parse(expr: &str) -> (r: Option<CronExpr>)
        ensures
            opt_cron_view(r) == cron_spec(expr@),
    {
        let cs = chars_of(expr);
        let fields = split_words(cs.as_slice());
        if fields.len() != 6 {
            return None;
        }
        proof {
            lemma_parsed_fields_wf(fields@[0]@, 0, 59);
            lemma_parsed_fields_wf(fields@[1]@, 0, 59);
            lemma_parsed_fields_wf(fields@[2]@, 0, 23);
            lemma_parsed_fields_wf(fields@[3]@, 1, 31);
            lemma_parsed_fields_wf(fields@[5]@, 0, 7);
        }
        let seconds = parse_std_field_chars(fields[0].as_slice(), 0, 59);
        let minutes = parse_std_field_chars(fields[1].as_slice(), 0, 59);
        let hours = parse_std_field_chars(fields[2].as_slice(), 0, 23);
        let days = parse_day_field_chars(fields[3].as_slice());
        let months = parse_month_field_chars(fields[4].as_slice());
        let weekdays = parse_weekday_field_chars(fields[5].as_slice());
        match (seconds, minutes, hours, days, months, weekdays) {
            (Some(seconds), Some(minutes), Some(hours), Some(days), Some(months), Some(weekdays)) => {
                Some(CronExpr { seconds, minutes, hours, days, months, weekdays })
            },
            _ => None,
        }
    }

    /// Whether the expression fires at the given time (`weekday` counts from
    /// Sunday = 0).
    pub fn matches(
        &self,
        sec: u32,
        min: u32,
        hour: u32,
        day: u32,
        month: u32,
        weekday: u32,
        year: i32,
    ) -> (r: bool)
        ensures
            r == cron_matches(self@, sec, min, hour, day, month, weekday, year),
    {
        proof {
            use_type_invariant(self);
        }
        let last_day = last_day_of_month(year, month);
        let ctx = MatchContext { year, month, last_day_of_month: last_day };
        let day_ok = self.days.matches(day, &ctx);
        let wd = if weekday == 0 {
            7
        } else {
            weekday
        };
        let sunday_as_zero = wd == 7 && match &self.weekdays {
            FieldSet::Values(set) => set.contains(&0),
            _ => false,
        };
        let wd_ok = self.weekdays.matches(wd, &ctx) || sunday_as_zero;
        self.seconds.matches(sec, &ctx) && self.minutes.matches(min, &ctx) && self.hours.matches(
            hour,
            &ctx,
        ) && self.months.contains(&month) && day_ok && wd_ok
    }
}

} // verus!
