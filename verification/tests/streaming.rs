use zap_scanner::models::ScanConfig;
use zap_scanner::queue::{QueueStore, StatusMap};
use zap_scanner::stream::{run_stream, stream_step, StreamAction};

fn snapshot(pairs: &[(&str, &str)]) -> StatusMap {
    let mut m = StatusMap::new();
    for (k, v) in pairs {
        m.set(k.to_string(), v.to_string());
    }
    m
}

#[test]
fn step_emits_a_present_snapshot() {
    let m = snapshot(&[("progress", "50")]);
    match stream_step(Some(m)) {
        StreamAction::Emit(e) => {
            assert_eq!(e.get(&"progress".to_string()), Some(&"50".to_string()));
        }
        StreamAction::Close => panic!("a present snapshot must be emitted"),
    }
}

#[test]
fn step_closes_on_absence() {
    assert!(matches!(stream_step(None), StreamAction::Close));
}

#[test]
fn stream_for_absent_job_emits_nothing() {
    let events = run_stream(&vec![None, Some(snapshot(&[("progress", "99")]))]);
    assert!(events.is_empty());
    let no_polls: Vec<Option<StatusMap>> = Vec::new();
    assert!(run_stream(&no_polls).is_empty());
}

#[test]
fn stream_for_active_job_emits_until_absence() {
    let polls = vec![
        Some(snapshot(&[("progress", "10"), ("phase", "spider")])),
        Some(snapshot(&[("progress", "80")])),
        None,
        Some(snapshot(&[("progress", "100")])),
    ];
    let events = run_stream(&polls);
    assert_eq!(events.len(), 2);
    assert_eq!(events[0].get(&"progress".to_string()), Some(&"10".to_string()));
    assert_eq!(events[0].get(&"phase".to_string()), Some(&"spider".to_string()));
    assert_eq!(events[1].get(&"progress".to_string()), Some(&"80".to_string()));
    assert_eq!(events[1].get(&"phase".to_string()), None);
}

#[test]
fn streaming_follows_a_job_through_its_lifecycle() {
    let mut store = QueueStore::new();
    let config = ScanConfig::new(
        "site".to_string(),
        vec!["http://a.example".to_string()],
        "active".to_string(),
        5,
    );
    let payload = store.dispatch(&config);
    let job = payload.job_id.clone();

    // A connection opened before the worker reports anything sees absence.
    let early_polls = vec![store.get_job_status(&job)];
    assert!(run_stream(&early_polls).is_empty());

    // The worker claims the job, reports progress twice, then finishes.
    store.mark_inflight(&job);
    store.set_status_field(&job, "progress".to_string(), "25".to_string());
    let poll1 = store.get_job_status(&job);
    store.set_status_field(&job, "progress".to_string(), "75".to_string());
    let poll2 = store.get_job_status(&job);
    store.clear_inflight(&job);
    store.clear_status(&job);
    let poll3 = store.get_job_status(&job);

    let events = run_stream(&vec![poll1, poll2, poll3]);
    assert_eq!(events.len(), 2);
    assert_eq!(events[0].get(&"progress".to_string()), Some(&"25".to_string()));
    assert_eq!(events[1].get(&"progress".to_string()), Some(&"75".to_string()));
    assert!(store.get_active_jobs().is_empty());
}

#[test]
fn consecutive_polls_may_repeat_a_snapshot() {
    let polls = vec![
        Some(snapshot(&[("progress", "10")])),
        Some(snapshot(&[("progress", "10")])),
        None,
    ];
    let events = run_stream(&polls);
    assert_eq!(events.len(), 2);
    assert_eq!(events[0].get(&"progress".to_string()), Some(&"10".to_string()));
    assert_eq!(events[1].get(&"progress".to_string()), Some(&"10".to_string()));
}
