use web_migration::config::ConfigPath;
use web_migration::config::Paths;
use web_migration::report::Report;
use web_migration::storage::Department;
use web_migration::target::Target;
use web_migration::target::Targets;
use web_migration::clock::Today;

fn strings(parts: &[&str]) -> Vec<String> {
    parts.iter().map(|p| p.to_string()).collect()
}

#[test]
fn paths_from_maps_roles() {
    let p = Paths::from(&strings(&["Departments", "archive/"]), "/base/");
    assert_eq!(p.get_path(), "/base/archive/");
    let p = Paths::from(&strings(&["Targets", "targets.txt"]), "/base/");
    assert_eq!(p.get_path(), "/base/targets.txt");
    let p = Paths::from(&strings(&["BaseUrl", "https://example.org/"]), "/base/");
    assert_eq!(p.get_path(), "https://example.org/");
    let p = Paths::from(&strings(&["Reports", "out/"]), "/base/");
    assert_eq!(p.get_path(), "/base/out/");
}

#[test]
fn paths_from_unknown_role_is_bad() {
    let p = Paths::from(&strings(&["Nonsense", "x"]), "/base/");
    assert_eq!(p.get_path(), "bad path");
    let p = Paths::from(&[] as &[String], "/base/");
    assert_eq!(p.get_path(), "bad path");
}

#[test]
fn make_path_appends() {
    let p = Paths::Departments(String::from("root/"));
    assert_eq!(p.make_path(String::from("dept/page/")), "root/dept/page/");
}

#[test]
fn config_build_takes_earliest_of_each_role() {
    let paths = vec![
        Paths::Departments(String::from("d1/")),
        Paths::BaseUrl(String::from("https://one/")),
        Paths::Departments(String::from("d2/")),
        Paths::Reports(String::from("r1/")),
    ];
    let cfg = ConfigPath::build(paths);
    assert_eq!(cfg.departments.get_path(), "d1/");
    assert_eq!(cfg.base_url.get_path(), "https://one/");
    assert_eq!(cfg.reports.get_path(), "r1/");
    assert_eq!(cfg.targets.get_path(), "bad path");
}

#[test]
fn prep_paths_resolves_lines() {
    let lines = strings(&["Departments;archive", "BaseUrl;https://example.org/"]);
    let cfg = ConfigPath::build(ConfigPath::prep_paths("/base/", &lines));
    assert_eq!(cfg.departments.get_path(), "/base/archive");
    assert_eq!(cfg.base_url.get_path(), "https://example.org/");
}

#[test]
fn prep_targets_builds_queue() {
    let lines = strings(&["dept/page", "other/deep/path"]);
    let ts = Targets::prep_targets(&lines);
    assert_eq!(ts.len(), 2);
    assert_eq!(ts[0].to_url(), "dept/page");
    assert_eq!(ts[1].to_url(), "other/deep/path");
    let mut q = Targets::build(Some(ts));
    let last = q.pop().unwrap();
    assert_eq!(last.to_url(), "other/deep/path");
    let first = q.pop().unwrap();
    assert_eq!(first.to_url(), "dept/page");
    assert!(q.pop().is_none());
}

#[test]
fn targets_build_none_is_empty() {
    let mut q = Targets::build(None);
    assert!(q.pop().is_none());
}

#[test]
fn report_renders_entries_in_order() {
    let today = Today::from_parts(String::from("2024-01-02"), 99);
    let info = Department::build(
        Target::build(&strings(&["reports"])),
        today,
        Paths::Reports(String::from("out/")),
    );
    let mut report = Report::new(info);
    assert_eq!(report.render(), "");
    report.add(String::from("one"));
    report.add(String::from("two"));
    assert_eq!(report.render(), "one,\ntwo,\n");
    assert_eq!(report.info.file_location(), "out/reports/2024-01-02/99/.txt");
}
