use zap_scanner::models::{ScanConfig, ScanResult};
use zap_scanner::queue::{status_from_fields, tag_with_job_id, QueueStore, StatusMap};

fn urls(list: &[&str]) -> Vec<String> {
    list.iter().map(|s| s.to_string()).collect()
}

fn sample_config(name: &str, targets: &[&str], duration: i32) -> ScanConfig {
    ScanConfig::new(
        name.to_string(),
        urls(targets),
        "active".to_string(),
        duration,
    )
}

#[test]
fn config_new_sets_defaults() {
    let c = sample_config("site", &["http://a.example", "http://b.example"], 30);
    assert_eq!(c.name, "site");
    assert_eq!(c.scan_type, "active");
    assert_eq!(c.spider_type, "spider");
    assert!(c.parse_robots);
    assert!(c.parse_sitemap);
    assert_eq!(c.duration, 30);
    assert_eq!(c.id.len(), 36);
}

#[test]
fn dispatch_payload_matches_config() {
    let c = sample_config("site", &["http://a.example", "http://b.example"], 30);
    let mut store = QueueStore::new();
    let p = store.dispatch(&c);
    assert_eq!(p.config_name, "site");
    assert_eq!(p.targets, urls(&["http://a.example", "http://b.example"]));
    assert_eq!(p.options.max_duration, 30 * 60);
    assert_eq!(p.options.scan_type, "active");
    assert_eq!(p.job_id.len(), 36);
    assert_eq!(store.pending_len(), 1);
}

#[test]
fn dispatch_twice_yields_distinct_retrievable_jobs() {
    let c = sample_config("site", &["http://a.example"], 5);
    let mut store = QueueStore::new();
    let p1 = store.dispatch(&c);
    let p2 = store.dispatch(&c);
    assert_ne!(p1.job_id, p2.job_id);
    let d1 = store.get_job_details(&p1.job_id).expect("first job retrievable");
    let d2 = store.get_job_details(&p2.job_id).expect("second job retrievable");
    assert_eq!(d1.job_id, p1.job_id);
    assert_eq!(d1.config_name, "site");
    assert_eq!(d2.job_id, p2.job_id);
    assert_eq!(d2.targets, urls(&["http://a.example"]));
    assert_eq!(store.pending_len(), 2);
}

#[test]
fn status_of_never_dispatched_job_is_absent() {
    let store = QueueStore::new();
    assert!(store.get_job_status(&"no-such-job".to_string()).is_none());
}

#[test]
fn dispatch_creates_no_status() {
    let c = sample_config("site", &["http://a.example"], 5);
    let mut store = QueueStore::new();
    let p = store.dispatch(&c);
    assert!(store.get_job_status(&p.job_id).is_none());
    assert!(store.get_active_jobs().is_empty());
}

#[test]
fn worker_status_lifecycle_drives_active_listing() {
    let mut store = QueueStore::new();
    let job = "job-1".to_string();

    store.set_status_field(&job, "progress".to_string(), "40".to_string());
    store.set_status_field(&job, "phase".to_string(), "spider".to_string());
    store.mark_inflight(&job);

    let status = store.get_job_status(&job).expect("status present");
    assert_eq!(status.get(&"progress".to_string()), Some(&"40".to_string()));
    assert_eq!(status.get(&"phase".to_string()), Some(&"spider".to_string()));

    let active = store.get_active_jobs();
    assert_eq!(active.len(), 1);
    assert_eq!(active[0].get(&"job_id".to_string()), Some(&job));
    assert_eq!(active[0].get(&"progress".to_string()), Some(&"40".to_string()));
    assert_eq!(active[0].get(&"phase".to_string()), Some(&"spider".to_string()));

    store.clear_inflight(&job);
    store.clear_status(&job);
    assert!(store.get_job_status(&job).is_none());
    assert!(store.get_active_jobs().is_empty());
}

#[test]
fn inflight_without_status_is_skipped() {
    let mut store = QueueStore::new();
    store.mark_inflight(&"ghost".to_string());
    assert!(store.get_active_jobs().is_empty());
}

#[test]
fn marking_inflight_twice_lists_once() {
    let mut store = QueueStore::new();
    let job = "job-2".to_string();
    store.set_status_field(&job, "progress".to_string(), "10".to_string());
    store.mark_inflight(&job);
    store.mark_inflight(&job);
    assert_eq!(store.get_active_jobs().len(), 1);
}

#[test]
fn clearing_unknown_inflight_changes_nothing() {
    let mut store = QueueStore::new();
    let job = "job-3".to_string();
    store.set_status_field(&job, "progress".to_string(), "10".to_string());
    store.mark_inflight(&job);
    store.clear_inflight(&"someone-else".to_string());
    assert_eq!(store.get_active_jobs().len(), 1);
}

#[test]
fn bulk_dispatch_is_lenient_about_bad_url_data() {
    let a = sample_config("a", &["http://a.example"], 1);
    let mut b = sample_config("b", &["http://b.example"], 2);
    b.urls = "this is not a JSON array".to_string();
    let c = sample_config("c", &["http://c1.example", "http://c2.example"], 3);

    let mut store = QueueStore::new();
    let launched = store.dispatch_all(&vec![a, b, c]);

    assert_eq!(launched.len(), 3);
    assert_eq!(launched[0].config_name, "a");
    assert_eq!(launched[0].targets, urls(&["http://a.example"]));
    assert_eq!(launched[1].config_name, "b");
    assert!(launched[1].targets.is_empty());
    assert_eq!(launched[2].config_name, "c");
    assert_eq!(launched[2].targets, urls(&["http://c1.example", "http://c2.example"]));
    assert_eq!(store.pending_len(), 3);

    for p in &launched {
        assert!(store.get_job_details(&p.job_id).is_some());
    }
}

#[test]
fn bulk_dispatch_of_nothing_is_empty() {
    let mut store = QueueStore::new();
    let launched = store.dispatch_all(&Vec::new());
    assert!(launched.is_empty());
    assert_eq!(store.pending_len(), 0);
}

#[test]
fn result_record_keeps_submitted_fields_verbatim() {
    let r = ScanResult::record(
        "abc".to_string(),
        "site".to_string(),
        "http://a.example".to_string(),
        10,
        2,
        3,
        4,
        1,
        "reports/abc.html".to_string(),
    );
    assert_eq!(r.job_id, "abc");
    assert_eq!(r.config_name, "site");
    assert_eq!(r.url, "http://a.example");
    assert_eq!(r.total_vulnerabilities, 10);
    assert_eq!(r.high_sev, 2);
    assert_eq!(r.medium_sev, 3);
    assert_eq!(r.low_sev, 4);
    assert_eq!(r.info_sev, 1);
    assert_eq!(r.report_path, "reports/abc.html");
    assert_eq!(r.id.len(), 36);

    let mut listing: Vec<ScanResult> = Vec::new();
    listing.push(r);
    let found = listing.iter().find(|x| x.job_id == "abc").expect("listed");
    assert_eq!(found.total_vulnerabilities, 10);
    assert_eq!(found.high_sev, 2);
    assert_eq!(found.medium_sev, 3);
    assert_eq!(found.low_sev, 4);
    assert_eq!(found.info_sev, 1);
}

#[test]
fn status_map_later_write_wins() {
    let mut m = StatusMap::new();
    assert!(m.is_empty());
    m.set("progress".to_string(), "10".to_string());
    m.set("progress".to_string(), "90".to_string());
    assert!(!m.is_empty());
    assert_eq!(m.get(&"progress".to_string()), Some(&"90".to_string()));
    assert_eq!(m.get(&"missing".to_string()), None);
}

#[test]
fn status_from_fields_reports_empty_as_absent() {
    assert!(status_from_fields(Vec::new()).is_none());
    let m = status_from_fields(vec![
        ("progress".to_string(), "10".to_string()),
        ("phase".to_string(), "attack".to_string()),
    ])
    .expect("non-empty fields are a status");
    assert_eq!(m.get(&"progress".to_string()), Some(&"10".to_string()));
    assert_eq!(m.get(&"phase".to_string()), Some(&"attack".to_string()));
}

#[test]
fn tagging_injects_the_job_id_and_keeps_fields() {
    let mut m = StatusMap::new();
    m.set("progress".to_string(), "10".to_string());
    let t = tag_with_job_id(&m, &"job-9".to_string());
    assert_eq!(t.get(&"job_id".to_string()), Some(&"job-9".to_string()));
    assert_eq!(t.get(&"progress".to_string()), Some(&"10".to_string()));
    assert_eq!(m.get(&"job_id".to_string()), None);
}
