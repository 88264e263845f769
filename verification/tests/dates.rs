use markdown_index::date::{format_date, DATE_FORMAT};
use markdown_index::index::render_entry;

#[test]
fn date_format_names_six_components() {
    assert_eq!(DATE_FORMAT, "[year]-[month]-[day]-[hour]:[minute]:[second]");
}

#[test]
fn epoch_is_formatted() {
    assert_eq!(format_date(0), Some("1970-01-01-00:00:00".to_string()));
}

#[test]
fn later_moments_are_formatted_in_utc() {
    assert_eq!(format_date(1), Some("1970-01-01-00:00:01".to_string()));
    assert_eq!(format_date(86_399), Some("1970-01-01-23:59:59".to_string()));
    assert_eq!(format_date(86_400), Some("1970-01-02-00:00:00".to_string()));
    assert_eq!(format_date(1_000_000_000), Some("2001-09-09-01:46:40".to_string()));
    assert_eq!(format_date(1_234_567_890), Some("2009-02-13-23:31:30".to_string()));
    assert_eq!(format_date(1_546_300_800), Some("2019-01-01-00:00:00".to_string()));
    assert_eq!(format_date(1_700_000_000), Some("2023-11-14-22:13:20".to_string()));
}

#[test]
fn leap_days_are_formatted() {
    assert_eq!(format_date(951_827_696), Some("2000-02-29-12:34:56".to_string()));
    assert_eq!(format_date(1_709_210_096), Some("2024-02-29-12:34:56".to_string()));
}

#[test]
fn moment_before_the_epoch_is_formatted() {
    assert_eq!(format_date(-1), Some("1969-12-31-23:59:59".to_string()));
}

#[test]
fn years_before_the_first_are_formatted_with_a_sign() {
    assert_eq!(format_date(-62_167_219_200), Some("0000-01-01-00:00:00".to_string()));
    assert_eq!(format_date(-62_167_219_201), Some("-0001-12-31-23:59:59".to_string()));
    assert_eq!(format_date(-377_705_116_800), Some("-9999-01-01-00:00:00".to_string()));
}

#[test]
fn moment_before_year_minus_9999_has_no_date() {
    assert_eq!(format_date(-377_705_116_801), None);
}

#[test]
fn last_second_of_year_9999_is_formatted() {
    assert_eq!(format_date(253_402_300_799), Some("9999-12-31-23:59:59".to_string()));
}

#[test]
fn moment_beyond_year_9999_has_no_date() {
    assert_eq!(format_date(253_402_300_800), None);
    assert_eq!(format_date(i64::MAX), None);
    assert_eq!(format_date(i64::MIN), None);
}

#[test]
fn entry_line_links_path_and_quotes_date() {
    assert_eq!(
        render_entry("sub/c.md", "2023-11-14-22:13:20"),
        "- [sub/c.md](sub/c.md)  <sub>Last update: \"2023-11-14-22:13:20\"</sub>  \n"
    );
}

#[test]
fn entry_line_of_empty_path_and_date() {
    assert_eq!(render_entry("", ""), "- []()  <sub>Last update: \"\"</sub>  \n");
}

#[test]
fn entry_line_escapes_date_as_debug_does() {
    assert_eq!(
        render_entry("a.md", "a\"b\\c\n"),
        "- [a.md](a.md)  <sub>Last update: \"a\\\"b\\\\c\\n\"</sub>  \n"
    );
}

#[test]
fn entry_line_keeps_path_as_it_is() {
    assert_eq!(
        render_entry("a b/[c].md", "x"),
        "- [a b/[c].md](a b/[c].md)  <sub>Last update: \"x\"</sub>  \n"
    );
}
