use std::collections::HashSet;
use luo9_bot::calendar::{
    days_in_month, is_leap_year, last_day_of_month, last_weekday_of_month, nearest_weekday,
    nth_weekday,
};
use luo9_bot::cron::{
    normalize_month_name, normalize_weekday_name, parse_day_field, parse_month_field,
    parse_range_part, parse_std_field, parse_std_weekday_field, parse_weekday_field, CronExpr,
    FieldSet, MatchContext,
};

#[test]
fn leap_years() {
    assert!(is_leap_year(2000));
    assert!(!is_leap_year(1900));
    assert!(is_leap_year(2024));
    assert!(!is_leap_year(2023));
}

#[test]
fn month_lengths() {
    assert_eq!(days_in_month(2024, 2), 29);
    assert_eq!(days_in_month(2023, 2), 28);
    assert_eq!(days_in_month(2023, 4), 30);
    assert_eq!(days_in_month(2023, 12), 31);
    assert_eq!(days_in_month(2023, 13), 30);
    assert_eq!(last_day_of_month(2024, 2), 29);
}

#[test]
fn last_weekdays() {
    // January 2024 ends on a Wednesday; its last Friday is the 26th.
    assert_eq!(last_weekday_of_month(2024, 1, 5), Some(26));
    assert_eq!(last_weekday_of_month(2024, 1, 3), Some(31));
    // 7 and 0 both mean Sunday.
    assert_eq!(last_weekday_of_month(2024, 1, 7), Some(28));
    assert_eq!(last_weekday_of_month(2024, 13, 1), None);
}

#[test]
fn nearest_weekdays() {
    // 2024-06-15 is a Saturday, 2024-06-16 a Sunday.
    assert_eq!(nearest_weekday(2024, 6, 15), Some(14));
    assert_eq!(nearest_weekday(2024, 6, 16), Some(17));
    // June 1st 2024 is a Saturday: the nearest working day is Monday the 3rd.
    assert_eq!(nearest_weekday(2024, 6, 1), Some(3));
    // March 31st 2024 is a Sunday at the month's end: Friday the 29th.
    assert_eq!(nearest_weekday(2024, 3, 31), Some(29));
    // A day past the month's end is taken as its last day.
    assert_eq!(nearest_weekday(2024, 2, 31), Some(29));
    assert_eq!(nearest_weekday(2024, 6, 12), Some(12));
}

#[test]
fn nth_weekdays() {
    // 2024-01-01 is a Monday.
    assert_eq!(nth_weekday(2024, 1, 1, 1), Some(1));
    assert_eq!(nth_weekday(2024, 1, 2, 1), Some(2));
    assert_eq!(nth_weekday(2024, 1, 1, 5), Some(29));
    assert_eq!(nth_weekday(2024, 2, 1, 5), None);
}

#[test]
fn standard_fields() {
    match parse_std_field("1-3,5", 0, 59) {
        Some(FieldSet::Values(s)) => {
            let expected: HashSet<u32> = [1, 2, 3, 5].into_iter().collect();
            assert_eq!(s, expected);
        }
        _ => panic!("a list of values"),
    }
    assert!(matches!(parse_std_field("*", 0, 59), Some(FieldSet::Any)));
    assert!(matches!(parse_std_field("?", 0, 59), Some(FieldSet::Any)));
    assert!(parse_std_field("1,x", 0, 59).is_none());
    assert!(parse_std_field("", 0, 59).is_none());
}

#[test]
fn range_parts() {
    let mut set = HashSet::new();
    assert_eq!(parse_range_part("*/15", 0, 59, &mut set), Some(()));
    let expected: HashSet<u32> = [0, 15, 30, 45].into_iter().collect();
    assert_eq!(set, expected);
    let mut set = HashSet::new();
    assert_eq!(parse_range_part("10/20", 0, 59, &mut set), Some(()));
    let expected: HashSet<u32> = [10, 30, 50].into_iter().collect();
    assert_eq!(set, expected);
    let mut set = HashSet::new();
    assert_eq!(parse_range_part("/30", 0, 59, &mut set), Some(()));
    let expected: HashSet<u32> = [0, 30].into_iter().collect();
    assert_eq!(set, expected);
    let mut set = HashSet::new();
    assert_eq!(parse_range_part("5/0", 0, 59, &mut set), None);
    assert!(set.is_empty());
    assert_eq!(parse_range_part("7-5", 0, 59, &mut set), Some(()));
    assert!(set.is_empty());
}

#[test]
fn day_fields() {
    assert!(matches!(parse_day_field("?"), Some(FieldSet::Any)));
    assert!(matches!(parse_day_field("L"), Some(FieldSet::LastDay)));
    assert!(matches!(parse_day_field("15W"), Some(FieldSet::NearestWeekday(15))));
    assert!(parse_day_field("32W").is_none());
    assert!(parse_day_field("0W").is_none());
    assert!(matches!(parse_day_field("*"), Some(FieldSet::Any)));
}

#[test]
fn month_fields() {
    let all: HashSet<u32> = (1..=12).collect();
    assert_eq!(parse_month_field("*"), Some(all));
    let jan_mar: HashSet<u32> = [1, 3].into_iter().collect();
    assert_eq!(parse_month_field("JAN,mar"), Some(jan_mar));
    assert_eq!(parse_month_field("JAN-MAR"), None);
    assert_eq!(normalize_month_name("jan"), "1");
    assert_eq!(normalize_month_name("Dec"), "12");
    assert_eq!(normalize_month_name("foo"), "foo");
    assert_eq!(normalize_weekday_name("sun"), "0");
    assert_eq!(normalize_weekday_name("Sat"), "6");
    assert_eq!(normalize_weekday_name("x"), "x");
}

#[test]
fn weekday_fields() {
    assert!(matches!(parse_weekday_field("?"), Some(FieldSet::Any)));
    assert!(matches!(parse_weekday_field("2#3"), Some(FieldSet::NthWeekday { weekday: 2, n: 3 })));
    assert!(parse_weekday_field("2#6").is_none());
    assert!(matches!(parse_weekday_field("5L"), Some(FieldSet::LastWeekday(5))));
    assert!(matches!(parse_weekday_field("FRIL"), Some(FieldSet::LastWeekday(5))));
    assert!(parse_weekday_field("8L").is_none());
    match parse_std_weekday_field("MON-WED,*/3") {
        Some(FieldSet::Values(s)) => {
            let expected: HashSet<u32> = [1, 2, 3, 0, 6].into_iter().collect();
            assert_eq!(s, expected);
        }
        _ => panic!("a list of weekdays"),
    }
}

#[test]
fn field_matching() {
    let ctx = MatchContext { year: 2024, month: 2, last_day_of_month: 29 };
    assert!(FieldSet::LastDay.matches(29, &ctx));
    assert!(!FieldSet::LastDay.matches(28, &ctx));
    assert!(FieldSet::Any.matches(3, &ctx));
    // The last Thursday of February 2024 is the 29th.
    assert!(FieldSet::LastWeekday(4).matches(29, &ctx));
    assert!(FieldSet::NthWeekday { weekday: 4, n: 1 }.matches(1, &ctx));
    assert!(FieldSet::NearestWeekday(10).matches(9, &ctx));
}

#[test]
fn expressions() {
    assert!(CronExpr::parse("0 0 *").is_none());
    assert!(CronExpr::parse("*/0 * * * * *").is_none());
    let noon = CronExpr::parse("0 0 12 * * ?").unwrap();
    assert!(noon.matches(0, 0, 12, 15, 6, 6, 2024));
    assert!(!noon.matches(1, 0, 12, 15, 6, 6, 2024));
    let workdays = CronExpr::parse("0 0 9 ? * MON-FRI").unwrap();
    // 2024-01-01 was a Monday, 2024-01-06 a Saturday.
    assert!(workdays.matches(0, 0, 9, 1, 1, 1, 2024));
    assert!(!workdays.matches(0, 0, 9, 6, 1, 6, 2024));
    let month_end = CronExpr::parse("0 30 23 L * ?").unwrap();
    assert!(month_end.matches(0, 30, 23, 29, 2, 4, 2024));
    assert!(!month_end.matches(0, 30, 23, 28, 2, 3, 2024));
    // Sunday is 0 or 7 in the weekday field.
    let sunday = CronExpr::parse("0 0 0 ? * SUN").unwrap();
    assert!(sunday.matches(0, 0, 0, 7, 1, 0, 2024));
    let seventh = CronExpr::parse("0 0 0 ? * 7").unwrap();
    assert!(seventh.matches(0, 0, 0, 7, 1, 0, 2024));
}

#[test]
fn sunday_is_zero_or_seven_in_weekday_lists() {
    let c = CronExpr::parse("0 0 8 ? * SUN").unwrap();
    assert!(c.matches(0, 0, 8, 9, 6, 0, 2024));
    assert!(!c.matches(0, 0, 8, 10, 6, 1, 2024));
    let c = CronExpr::parse("0 0 8 ? * 0").unwrap();
    assert!(c.matches(0, 0, 8, 9, 6, 0, 2024));
    let c = CronExpr::parse("0 0 8 ? * 7").unwrap();
    assert!(c.matches(0, 0, 8, 9, 6, 0, 2024));
    let c = CronExpr::parse("0 0 8 ? * MON-FRI").unwrap();
    assert!(!c.matches(0, 0, 8, 9, 6, 0, 2024));
    assert!(c.matches(0, 0, 8, 10, 6, 1, 2024));
}

#[test]
fn weekday_helpers_beyond_seven() {
    // June 2024 ends on Sunday the 30th.
    assert_eq!(last_weekday_of_month(2024, 6, 0), Some(30));
    assert_eq!(last_weekday_of_month(2024, 6, 8), Some(24));
    assert_eq!(last_weekday_of_month(2024, 6, 20), None);
    assert_eq!(last_weekday_of_month(2024, 6, 21), Some(30));
    assert_eq!(last_weekday_of_month(2024, 13, 20), None);
    // June 2024 starts on Saturday.
    assert_eq!(nth_weekday(2024, 6, 0, 1), Some(2));
    assert_eq!(nth_weekday(2024, 6, 6, 6), None);
    assert_eq!(nth_weekday(2024, 6, 13, 1), Some(1));
}

#[test]
fn steps_past_the_largest_value_wrap_round() {
    let mut set = HashSet::new();
    assert_eq!(parse_range_part("59/4294967295", 0, 59, &mut set), Some(()));
    assert_eq!(set, (0..=59).collect::<HashSet<u32>>());
    let mut set = HashSet::new();
    assert_eq!(parse_range_part("59/4294967290", 0, 59, &mut set), Some(()));
    assert_eq!(set, (0..=9).map(|k| 59 - 6 * k).collect::<HashSet<u32>>());
    let mut set = HashSet::new();
    assert_eq!(parse_range_part("5/4294967295", 0, 3, &mut set), Some(()));
    assert!(set.is_empty());
    match parse_std_weekday_field("7/4294967295") {
        Some(FieldSet::Values(s)) => assert_eq!(s, (0..=7).collect::<HashSet<u32>>()),
        _ => panic!("a list of weekdays"),
    }
    let c = CronExpr::parse("30/4294967292 * * * * *").unwrap();
    assert!(c.matches(2, 0, 0, 1, 1, 1, 2024));
    assert!(!c.matches(3, 0, 0, 1, 1, 1, 2024));
}
