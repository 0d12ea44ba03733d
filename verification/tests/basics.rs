//! Texts, numbers, orderings, dates and commands.

use finupdate::command::host_command;
use finupdate::date::{
    days_in_month, earlier, first_of_month, next_month, parse_compact, previous_month, CalendarDate,
    Timestamp, MAX_YEAR,
};
use finupdate::number::{hex_text, i64_text, two_digits, u64_text};
use finupdate::order::{positions_by_key, positions_by_text};
use finupdate::text::{
    byte_len, byte_prefix, contains_str, find_char, find_str, first_chars, join_from, lines,
    replace_char, rfind_char, split_char, starts_with, str_eq, str_le, strip_prefix, trim,
    trim_matches,
};
use finupdate::text_map::TextMap;

fn day(y: i32, m: u32, d: u32) -> CalendarDate {
    CalendarDate::from_ymd_opt(y, m, d).unwrap()
}

#[test]
fn text_searches() {
    assert!(str_eq("añb", "añb"));
    assert!(!str_eq("añb", "anb"));
    assert_eq!(find_char("a/b/c", '/'), Some(1));
    assert_eq!(rfind_char("a/b/c", '/'), Some(3));
    assert_eq!(rfind_char("ñ/b", '/'), Some(1));
    assert_eq!(find_char("abc", '/'), None);
    assert_eq!(find_str("ostree:docker://ghcr", "docker://"), Some(7));
    assert_eq!(find_str("abc", ""), Some(0));
    assert_eq!(find_str("ab", "abc"), None);
    assert!(contains_str("level=ERROR msg", "=ERROR"));
    assert!(starts_with("sha256:abc", "sha256:"));
    assert!(!starts_with("sha", "sha256:"));
    assert_eq!(strip_prefix("IMAGE_ID=x", "IMAGE_ID="), Some("x"));
    assert_eq!(strip_prefix("IMAGE", "IMAGE_ID="), None);
}

#[test]
fn text_pieces() {
    assert_eq!(split_char("a/b//c", '/'), vec!["a", "b", "", "c"]);
    assert_eq!(split_char("", '/'), vec![""]);
    assert_eq!(join_from(&split_char("a/b//c", '/'), 0, "/"), "a/b//c");
    assert_eq!(join_from(&vec!["a", "b", "c"], 1, "-"), "b-c");
    assert_eq!(split_char(&join_from(&vec!["dx", "", "x"], 0, "-"), '-'), vec!["dx", "", "x"]);
    assert_eq!(join_from(&vec!["a"], 1, "-"), "");
    assert_eq!(lines("a\r\nb\n\nc"), vec!["a", "b", "", "c"]);
    assert_eq!(lines("a\n"), vec!["a"]);
    assert!(lines("").is_empty());
    assert_eq!(trim_matches("\"\"x\"y\"", '"'), "x\"y");
    assert_eq!(trim_matches("\"\"", '"'), "");
    assert_eq!(trim(" \t\nenabled\u{3000}\n"), "enabled");
    assert_eq!(replace_char("sha256:a:b", ':', "_"), "sha256_a_b");
    assert_eq!(first_chars("0123456789", 8), "01234567");
    assert_eq!(first_chars("ñandú", 8), "ñandú");
}

#[test]
fn text_bytes() {
    assert_eq!(byte_len("ñ"), 2);
    assert_eq!(byte_prefix("2026-05-27T04:00:00Z", 10), Some("2026-05-27"));
    assert_eq!(byte_prefix("short", 10), None);
    assert_eq!(byte_prefix("añb", 2), None);
    assert_eq!(byte_prefix("añb", 3), Some("añ"));
}

#[test]
fn text_order() {
    assert!(str_le("abc", "abd"));
    assert!(str_le("ab", "abc"));
    assert!(!str_le("b", "abc"));
    assert!(str_le("z", "ñ"));
    assert_eq!(positions_by_text(&vec!["lts", "beta", "lts", "43"]), vec![3, 1, 0, 2]);
    assert_eq!(positions_by_key(&vec![5, -1, 5, 3]), vec![1, 3, 0, 2]);
    assert!(positions_by_key(&vec![]).is_empty());
}

#[test]
fn numbers_as_text() {
    assert_eq!(u64_text(0), "0");
    assert_eq!(u64_text(18446744073709551615), "18446744073709551615");
    assert_eq!(i64_text(-1), "-1");
    assert_eq!(i64_text(i64::MIN), "-9223372036854775808");
    assert_eq!(two_digits(7), "07");
    assert_eq!(two_digits(42), "42");
    assert_eq!(hex_text(0xdeadbe01), "deadbe01");
    assert_eq!(hex_text(0x2a), "0000002a");
}

#[test]
fn calendar_days() {
    assert!(CalendarDate::from_ymd_opt(2026, 2, 29).is_none());
    assert!(CalendarDate::from_ymd_opt(2024, 2, 29).is_some());
    assert!(CalendarDate::from_ymd_opt(1900, 2, 29).is_none());
    assert!(CalendarDate::from_ymd_opt(2000, 2, 29).is_some());
    assert!(CalendarDate::from_ymd_opt(2026, 13, 1).is_none());
    assert!(CalendarDate::from_ymd_opt(2026, 0, 1).is_none());
    assert!(CalendarDate::from_ymd_opt(MAX_YEAR, 12, 31).is_some());
    assert!(CalendarDate::from_ymd_opt(MAX_YEAR + 1, 1, 1).is_none());
    assert!(CalendarDate::from_ymd_opt(-262143, 1, 1).is_some());
    assert!(CalendarDate::from_ymd_opt(-262144, 12, 31).is_none());
}

#[test]
fn days_of_months() {
    assert_eq!(days_in_month(day(2026, 2, 1)), 28);
    assert_eq!(days_in_month(day(2024, 2, 17)), 29);
    assert_eq!(days_in_month(day(2026, 12, 5)), 31);
    assert_eq!(days_in_month(day(2026, 4, 30)), 30);
    assert_eq!(days_in_month(day(MAX_YEAR, 12, 1)), 0);
    assert_eq!(first_of_month(day(2026, 5, 27)), day(2026, 5, 1));
}

#[test]
fn months_back_and_forth() {
    assert_eq!(previous_month(day(2026, 1, 1)), day(2025, 12, 1));
    assert_eq!(previous_month(day(2026, 5, 1)), day(2026, 4, 1));
    assert_eq!(next_month(day(2025, 12, 1)), day(2026, 1, 1));
    assert_eq!(next_month(previous_month(day(2026, 3, 1))), day(2026, 3, 1));
    assert_eq!(next_month(day(MAX_YEAR, 12, 1)), day(MAX_YEAR, 12, 1));
}

#[test]
fn earlier_days() {
    assert_eq!(earlier(day(2026, 3, 1), 1), day(2026, 2, 28));
    assert_eq!(earlier(day(2026, 5, 27), 90), day(2026, 2, 26));
    assert_eq!(earlier(day(2026, 5, 27), 0), day(2026, 5, 27));
}

#[test]
fn dates_compare_by_key() {
    assert!(day(2025, 12, 31).key() < day(2026, 1, 1).key());
    assert!(day(2026, 1, 31).key() < day(2026, 2, 1).key());
    assert_eq!(day(2026, 5, 27).key(), 20260527);
}

#[test]
fn dates_as_text() {
    assert_eq!(day(2026, 5, 7).compact(), "20260507");
    assert_eq!(day(2026, 5, 7).month_day(), "05-07");
    assert_eq!(day(2026, 5, 7).long(), "May 7, 2026");
    assert_eq!(day(2026, 9, 27).short(), "Sep 27");
    assert_eq!(day(2026, 9, 27).month_title(), "September 2026");
    assert_eq!(day(12345, 1, 2).compact(), "+123450102");
    assert_eq!(day(-1, 1, 2).compact(), "-00010102");
    assert_eq!(day(7, 1, 2).compact(), "00070102");
    let t = Timestamp { date: day(2026, 1, 7), hour: 4, minute: 30, second: 59, nanosecond: 1 };
    assert_eq!(t.build_time(), "Jan 7, 2026 · 04:30 UTC");
    assert_eq!(t.long_date(), "January 7, 2026");
}

#[test]
fn all_month_names() {
    let names = [
        "January", "February", "March", "April", "May", "June", "July", "August", "September",
        "October", "November", "December",
    ];
    for (i, name) in names.iter().enumerate() {
        let date = day(2026, i as u32 + 1, 1);
        assert_eq!(date.month_title(), format!("{} 2026", name));
        assert_eq!(date.short(), format!("{} 1", &name[0..3]));
    }
}

#[test]
fn compact_dates_read_back() {
    for date in [day(2026, 5, 27), day(0, 1, 1), day(9999, 12, 31), day(2024, 2, 29)] {
        assert_eq!(parse_compact(&date.compact()), Some(date));
    }
    assert_eq!(parse_compact("20260230"), None);
    assert_eq!(parse_compact("20261301"), None);
}

#[test]
fn text_maps() {
    let mut map = TextMap::new();
    assert_eq!(map.len(), 0);
    map.insert("a".to_string(), "1".to_string());
    map.insert("b".to_string(), "2".to_string());
    map.insert("a".to_string(), "3".to_string());
    assert_eq!(map.len(), 2);
    assert_eq!(map.get("a"), Some("3"));
    assert_eq!(map.get("b"), Some("2"));
    assert_eq!(map.get("c"), None);
    assert_eq!(map.entry(1), ("b", "2"));
}

#[test]
fn commands_reach_the_host() {
    let direct = host_command(false, "systemctl", &vec!["is-enabled", "uupd.timer"]);
    assert_eq!(direct.program, "systemctl");
    assert_eq!(direct.args, vec!["is-enabled", "uupd.timer"]);
    let inside = host_command(true, "systemctl", &vec!["is-enabled", "uupd.timer"]);
    assert_eq!(inside.program, "flatpak-spawn");
    assert_eq!(inside.args, vec!["--host", "systemctl", "is-enabled", "uupd.timer"]);
}
