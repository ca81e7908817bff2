use std::collections::HashMap;

use web_migration::clock::Daily;
use web_migration::clock::Today;
use web_migration::config::Paths;
use web_migration::numfmt::i64_to_string;
use web_migration::numfmt::u64_to_string;
use web_migration::storage::Department;
use web_migration::strutil::join;
use web_migration::strutil::join_by;
use web_migration::strutil::join_with;
use web_migration::strutil::rest;
use web_migration::strutil::split_line;
use web_migration::target::Target;

fn strings(parts: &[&str]) -> Vec<String> {
    parts.iter().map(|p| p.to_string()).collect()
}

#[test]
fn join_concatenates_segments() {
    let s = strings(&["a", "b", "c"]);
    assert_eq!(join(&s, String::from("x:")), "x:abc");
    assert_eq!(join(&[], String::from("x:")), "x:");
}

#[test]
fn join_by_keeps_trailing_separator() {
    let s = strings(&["a", "b"]);
    assert_eq!(join_by(&s, String::new(), "/"), "a/b/");
    assert_eq!(join_by(&[], String::from("z"), "/"), "z");
}

#[test]
fn join_with_puts_nothing_at_the_end() {
    assert_eq!(join_with(&strings(&["a", "b", "c"]), "/"), "a/b/c");
    assert_eq!(join_with(&strings(&["solo"]), "/"), "solo");
    assert_eq!(join_with(&[] as &[String], "/"), "");
}

#[test]
fn rest_drops_the_first_element() {
    let s = strings(&["a", "b", "c"]);
    assert_eq!(rest(&s), &s[1..]);
    assert_eq!(rest(&[] as &[String]), &[] as &[String]);
}

#[test]
fn target_url_formula() {
    let t = Target::build(&strings(&["dept", "page"]));
    assert_eq!(t.to_path(), "dept/");
    assert_eq!(t.to_url(), "dept/page");
}

#[test]
fn target_store_formula() {
    let t = Target::build(&strings(&["dept", "a", "b"]));
    assert_eq!(t.to_url(), "dept/a/b");
    assert_eq!(t.to_store(), "a-b.txt");
}

#[test]
fn target_without_extension() {
    let t = Target::build(&strings(&["alone"]));
    assert_eq!(t.to_url(), "alone/");
    assert_eq!(t.to_store(), ".txt");
}

#[test]
fn empty_target() {
    let t = Target::build(&[]);
    assert_eq!(t.to_url(), "/");
    assert_eq!(t.to_store(), ".txt");
}

#[test]
fn split_line_drops_spaces_and_splits() {
    let seps = vec![';', ','];
    let toks = split_line("Departments; archive, deep", &seps);
    assert_eq!(toks, strings(&["Departments", "archive", "deep"]));
}

#[test]
fn split_line_empty_line_gives_one_empty_segment() {
    let seps = vec!['/'];
    assert_eq!(split_line("", &seps), strings(&[""]));
    assert_eq!(split_line("a//b", &seps), strings(&["a", "", "b"]));
}

#[test]
fn u64_decimal_digits() {
    assert_eq!(u64_to_string(0), "0");
    assert_eq!(u64_to_string(7), "7");
    assert_eq!(u64_to_string(1234567890), "1234567890");
    assert_eq!(u64_to_string(u64::MAX), "18446744073709551615");
}

#[test]
fn i64_decimal_digits() {
    assert_eq!(i64_to_string(0), "0");
    assert_eq!(i64_to_string(1700000000), "1700000000");
    assert_eq!(i64_to_string(-42), "-42");
    assert_eq!(i64_to_string(i64::MIN), "-9223372036854775808");
}

#[test]
fn daily_get_renders_both_kinds() {
    assert_eq!(Daily::Date(String::from("2024-01-02")).get(), "2024-01-02");
    assert_eq!(Daily::Time(1700000000).get(), "1700000000");
}

#[test]
fn department_builds_run_stamped_paths() {
    let today = Today::from_parts(String::from("2024-01-02"), 99);
    let t = Target::build(&strings(&["dept", "page"]));
    let d = Department::build(t, today, Paths::Departments(String::from("archive/")));
    assert_eq!(d.location(), "archive/dept/page/");
    assert_eq!(d.storage_location_today(), "archive/dept/page/2024-01-02/");
    assert_eq!(d.storage_location_now(), "archive/dept/page/2024-01-02/99/");
    assert_eq!(d.file_location(), "archive/dept/page/2024-01-02/99/page.txt");
}

#[test]
fn store_outcome_path_or_fallback() {
    let today = Today::from_parts(String::from("2024-01-02"), 99);
    let t = Target::build(&strings(&["dept", "page"]));
    let d = Department::build(t, today, Paths::Departments(String::from("archive/")));
    assert_eq!(d.store_outcome(true), "archive/dept/page/2024-01-02/99/page.txt");
    assert_eq!(d.store_outcome(false), "No data for dept/page");
}

#[test]
fn create_plan_lists_only_missing_levels() {
    let today = Today::from_parts(String::from("2024-01-02"), 99);
    let t = Target::build(&strings(&["dept", "page"]));
    let d = Department::build(t, today, Paths::Departments(String::from("archive/")));
    let all = d.create_plan(false, false, false);
    assert_eq!(
        all,
        strings(&[
            "archive/dept/page/",
            "archive/dept/page/2024-01-02/",
            "archive/dept/page/2024-01-02/99/"
        ])
    );
    let none = d.create_plan(true, true, true);
    assert!(none.is_empty());
    let middle = d.create_plan(true, false, true);
    assert_eq!(middle, strings(&["archive/dept/page/2024-01-02/"]));
}

#[test]
fn create_plan_never_repeats_known_paths() {
    // A stub that counts create calls per unique path: each level is
    // created at most once when the caller feeds back what it has made.
    let today = Today::from_parts(String::from("2024-01-02"), 99);
    let mut counts: HashMap<String, usize> = HashMap::new();
    for _round in 0..2 {
        let t = Target::build(&strings(&["dept", "page"]));
        let d = Department::build(t, today.duplicate(), Paths::Departments(String::from("ar/")));
        let root = d.location();
        let date = d.storage_location_today();
        let time = d.storage_location_now();
        let plan = d.create_plan(
            counts.contains_key(&root),
            counts.contains_key(&date),
            counts.contains_key(&time),
        );
        for p in plan {
            *counts.entry(p).or_insert(0) += 1;
        }
    }
    for (_, n) in counts.iter() {
        assert!(*n <= 1);
    }
    // The second pass over the same target found every level in place and
    // issued no create at all.
    assert_eq!(*counts.get("ar/dept/page/").unwrap(), 1);
    assert_eq!(*counts.get("ar/dept/page/2024-01-02/").unwrap(), 1);
    assert_eq!(*counts.get("ar/dept/page/2024-01-02/99/").unwrap(), 1);
}
