use web_migration::clock::Today;
use web_migration::config::ConfigPath;
use web_migration::orchestrator::Action;
use web_migration::orchestrator::Event;
use web_migration::orchestrator::Manager;
use web_migration::orchestrator::status_is_success;
use web_migration::target::Targets;

fn strings(parts: &[&str]) -> Vec<String> {
    parts.iter().map(|p| p.to_string()).collect()
}

fn machine(config: &[&str], targets: &[&str]) -> Manager {
    let cfg = ConfigPath::build(ConfigPath::prep_paths("", &strings(config)));
    let ts = Targets::build(Some(Targets::prep_targets(&strings(targets))));
    let today = Today::from_parts(String::from("2024-01-02"), 99);
    Manager::build(cfg, ts, today)
}

const SCENARIO_CONFIG: [&str; 3] = [
    "Departments;archive/",
    "BaseUrl;https://example.org/",
    "Reports;out/",
];

const SCENARIO_BODY: &[u8] = b"<div id=\"content\"><a href=\"/sites/default/files/doc.pdf\">x</a></div><div class=\"layout-csun--footer\">";

#[test]
fn one_target_is_fetched_scanned_and_stored() {
    let mut m = machine(&SCENARIO_CONFIG, &["dept/page"]);

    let a = m.run(Event::Start);
    match a {
        Action::Fetch { url, delay } => {
            assert_eq!(url, "https://example.org/dept/page");
            assert!(!delay);
        },
        _ => panic!("expected a fetch"),
    }

    let a = m.run(Event::PageFetched(Some(SCENARIO_BODY.to_vec())));
    match a {
        Action::CheckDirs { root, date, time } => {
            assert_eq!(root, "archive/dept/page/");
            assert_eq!(date, "archive/dept/page/2024-01-02/");
            assert_eq!(time, "archive/dept/page/2024-01-02/99/");
        },
        _ => panic!("expected a directory check"),
    }

    let a = m.run(Event::DirsChecked { root_exists: false, date_exists: false, time_exists: false });
    match a {
        Action::StorePage { creates, asset_dir, assets, page_path, page } => {
            assert_eq!(
                creates,
                strings(&[
                    "archive/dept/page/",
                    "archive/dept/page/2024-01-02/",
                    "archive/dept/page/2024-01-02/99/"
                ])
            );
            assert_eq!(asset_dir, "archive/dept/page/2024-01-02/99/files/");
            assert_eq!(assets, vec![b"https://example.org/sites/default/files/doc.pdf".to_vec()]);
            assert_eq!(page_path, "archive/dept/page/2024-01-02/99/page.txt");
            assert_eq!(page, SCENARIO_BODY.to_vec());
        },
        _ => panic!("expected the storage work"),
    }

    let a = m.run(Event::PageStored { created_ok: true, wrote_page: true });
    match a {
        Action::CheckDirs { root, date, time } => {
            assert_eq!(root, "out/reports/");
            assert_eq!(date, "out/reports/2024-01-02/");
            assert_eq!(time, "out/reports/2024-01-02/99/");
        },
        _ => panic!("expected the report directory check"),
    }

    let a = m.run(Event::DirsChecked { root_exists: false, date_exists: false, time_exists: false });
    match a {
        Action::WriteReport { creates, path, data } => {
            assert_eq!(creates.len(), 3);
            assert_eq!(path, "out/reports/2024-01-02/99/.txt");
            assert_eq!(data, "archive/dept/page/2024-01-02/99/page.txt,\n");
        },
        _ => panic!("expected the report write"),
    }

    let a = m.run(Event::ReportStored { created_ok: true, wrote_report: true });
    match a {
        Action::Finished { result } => {
            assert_eq!(result, "out/reports/2024-01-02/99/.txt");
        },
        _ => panic!("expected the run to finish"),
    }
}

#[test]
fn failed_fetch_is_skipped_without_report_entry() {
    let mut m = machine(&SCENARIO_CONFIG, &["dept/page"]);

    let a = m.run(Event::Start);
    assert!(matches!(a, Action::Fetch { .. }));

    // A 404 is no success, so the caller reports no body back.
    assert!(!status_is_success(404));
    let a = m.run(Event::PageFetched(None));
    assert!(matches!(a, Action::CheckDirs { .. }));

    let a = m.run(Event::DirsChecked { root_exists: true, date_exists: true, time_exists: true });
    match a {
        Action::WriteReport { creates, path, data } => {
            assert!(creates.is_empty());
            assert_eq!(path, "out/reports/2024-01-02/99/.txt");
            assert_eq!(data, "");
        },
        _ => panic!("expected the report write"),
    }

    let a = m.run(Event::ReportStored { created_ok: true, wrote_report: true });
    match a {
        Action::Finished { result } => {
            assert_eq!(result, "out/reports/2024-01-02/99/.txt");
        },
        _ => panic!("expected the run to finish"),
    }
}

#[test]
fn two_targets_share_one_run_clock() {
    let mut m = machine(&SCENARIO_CONFIG, &["dept/one", "dept/two"]);
    let mut page_paths: Vec<String> = Vec::new();

    let mut a = m.run(Event::Start);
    loop {
        a = match a {
            Action::Fetch { .. } => m.run(Event::PageFetched(Some(SCENARIO_BODY.to_vec()))),
            Action::CheckDirs { .. } => m.run(
                Event::DirsChecked { root_exists: false, date_exists: false, time_exists: false },
            ),
            Action::StorePage { page_path, .. } => {
                page_paths.push(page_path);
                m.run(Event::PageStored { created_ok: true, wrote_page: true })
            },
            Action::WriteReport { .. } => m.run(
                Event::ReportStored { created_ok: true, wrote_report: true },
            ),
            Action::Finished { .. } => break,
            Action::Failed { message } => panic!("run failed: {message}"),
        };
    }

    assert_eq!(page_paths.len(), 2);
    for p in &page_paths {
        assert!(p.contains("/2024-01-02/99/"));
    }
    // The queue is drained from the back, so the later line comes first.
    assert_eq!(page_paths[0], "archive/dept/two/2024-01-02/99/two.txt");
    assert_eq!(page_paths[1], "archive/dept/one/2024-01-02/99/one.txt");
}

#[test]
fn failed_page_store_keeps_fallback_entry() {
    let mut m = machine(&SCENARIO_CONFIG, &["dept/page"]);
    m.run(Event::Start);
    m.run(Event::PageFetched(Some(SCENARIO_BODY.to_vec())));
    m.run(Event::DirsChecked { root_exists: true, date_exists: true, time_exists: true });
    let a = m.run(Event::PageStored { created_ok: true, wrote_page: false });
    assert!(matches!(a, Action::CheckDirs { .. }));
    let a = m.run(Event::DirsChecked { root_exists: true, date_exists: true, time_exists: true });
    match a {
        Action::WriteReport { data, .. } => {
            assert_eq!(data, "No data for dept/page,\n");
        },
        _ => panic!("expected the report write"),
    }
}

#[test]
fn failed_directory_creation_adds_no_entry() {
    let mut m = machine(&SCENARIO_CONFIG, &["dept/page"]);
    m.run(Event::Start);
    m.run(Event::PageFetched(Some(SCENARIO_BODY.to_vec())));
    m.run(Event::DirsChecked { root_exists: false, date_exists: false, time_exists: false });
    let a = m.run(Event::PageStored { created_ok: false, wrote_page: false });
    assert!(matches!(a, Action::CheckDirs { .. }));
    let a = m.run(Event::DirsChecked { root_exists: true, date_exists: true, time_exists: true });
    match a {
        Action::WriteReport { data, .. } => {
            assert_eq!(data, "");
        },
        _ => panic!("expected the report write"),
    }
}

#[test]
fn failed_report_location_fails_the_run() {
    let mut m = machine(&SCENARIO_CONFIG, &[]);
    let a = m.run(Event::Start);
    assert!(matches!(a, Action::CheckDirs { .. }));
    let a = m.run(Event::DirsChecked { root_exists: false, date_exists: false, time_exists: false });
    assert!(matches!(a, Action::WriteReport { .. }));
    let a = m.run(Event::ReportStored { created_ok: false, wrote_report: false });
    assert!(matches!(a, Action::Failed { .. }));
}

#[test]
fn failed_report_write_finishes_with_fallback() {
    let mut m = machine(&SCENARIO_CONFIG, &[]);
    m.run(Event::Start);
    m.run(Event::DirsChecked { root_exists: true, date_exists: true, time_exists: true });
    let a = m.run(Event::ReportStored { created_ok: true, wrote_report: false });
    match a {
        Action::Finished { result } => {
            assert_eq!(result, "No data for reports/");
        },
        _ => panic!("expected the run to finish"),
    }
}

#[test]
fn every_third_fetch_is_delayed() {
    let targets = ["a/1", "a/2", "a/3", "a/4", "a/5", "a/6", "a/7"];
    let mut m = machine(&SCENARIO_CONFIG, &targets);
    let mut delays: Vec<bool> = Vec::new();
    let mut a = m.run(Event::Start);
    loop {
        a = match a {
            Action::Fetch { delay, .. } => {
                delays.push(delay);
                m.run(Event::PageFetched(None))
            },
            Action::CheckDirs { .. } => m.run(
                Event::DirsChecked { root_exists: true, date_exists: true, time_exists: true },
            ),
            Action::WriteReport { .. } => m.run(
                Event::ReportStored { created_ok: true, wrote_report: true },
            ),
            Action::Finished { .. } => break,
            _ => panic!("unexpected action"),
        };
    }
    assert_eq!(delays, vec![false, false, true, false, false, true, false]);
}

#[test]
fn status_codes_classify_as_spec_says() {
    assert!(status_is_success(200));
    assert!(status_is_success(204));
    assert!(status_is_success(299));
    assert!(!status_is_success(199));
    assert!(!status_is_success(300));
    assert!(!status_is_success(404));
    assert!(!status_is_success(500));
}
