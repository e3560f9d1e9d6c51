use cc_switch::usage_push::{
    batch_max_id, build_push_body, build_push_entry, claim_worker, is_client_error, is_success,
    needs_cost_recompute, plan_iteration, pricing_model_id, push_url_for, restart_if_needed,
    should_push, worker_may_exit, worker_server_url, IterationPlan, PushLogEntry, PushProgress,
    PushSettings, PushState, RestartAction, SendOutcome, StartFailure, UsageLogRow,
};

fn settings(enabled: bool, url: Option<&str>, secs: u64) -> PushSettings {
    PushSettings {
        usage_push_enabled: enabled,
        usage_push_server_url: url.map(|u| u.to_string()),
        usage_push_interval_secs: secs,
    }
}

fn row(id: i64, cost: &str, input: i64, output: i64) -> UsageLogRow {
    UsageLogRow {
        id,
        request_id: format!("req-{}", id),
        app_type: "app-a".to_string(),
        provider_id: "p1".to_string(),
        model: "model-a".to_string(),
        request_model: Some("model-a-20250514".to_string()),
        pricing_model: None,
        input_tokens: input,
        output_tokens: output,
        cache_read_tokens: 3,
        cache_creation_tokens: 4,
        input_cost_usd: "0".to_string(),
        output_cost_usd: "0".to_string(),
        cache_read_cost_usd: "0".to_string(),
        cache_creation_cost_usd: "0".to_string(),
        total_cost_usd: cost.to_string(),
        latency_ms: 3200,
        first_token_ms: Some(800),
        duration_ms: None,
        status_code: 200,
        error_message: None,
        is_streaming: true,
        data_source: "proxy".to_string(),
        created_at: 1_700_000_000,
    }
}

#[test]
fn worker_needs_switch_and_url() {
    assert_eq!(worker_server_url(&settings(true, Some("http://h:3344"), 30)), Some("http://h:3344".to_string()));
    assert_eq!(worker_server_url(&settings(false, Some("http://h:3344"), 30)), None);
    assert_eq!(worker_server_url(&settings(true, Some(""), 30)), None);
    assert_eq!(worker_server_url(&settings(true, None, 30)), None);
    assert!(should_push(&settings(true, Some("x"), 1)));
    assert!(!should_push(&settings(true, Some(""), 1)));
}

#[test]
fn restart_actions() {
    let on = settings(true, Some("http://h"), 30);
    let off = settings(false, Some("http://h"), 30);
    let mut st = PushState::new();
    assert_eq!(restart_if_needed(&mut st, &on), RestartAction::StartWorker);
    assert_eq!(st, PushState { enabled: true, worker_running: true });
    assert_eq!(restart_if_needed(&mut st, &on), RestartAction::Unchanged);
    assert_eq!(restart_if_needed(&mut st, &off), RestartAction::AwaitWorkerExit);
    assert_eq!(st, PushState { enabled: false, worker_running: true });
    assert!(!worker_may_exit(&mut st, &off));
    assert_eq!(st, PushState::new());
    assert_eq!(restart_if_needed(&mut st, &off), RestartAction::Unchanged);
}

#[test]
fn off_and_on_before_the_worker_wakes_keeps_one_worker() {
    let on = settings(true, Some("http://h"), 30);
    let off = settings(false, Some("http://h"), 30);
    let mut st = PushState::new();
    assert_eq!(claim_worker(&mut st, &on), Some("http://h".to_string()));
    assert_eq!(restart_if_needed(&mut st, &off), RestartAction::AwaitWorkerExit);
    assert_eq!(restart_if_needed(&mut st, &on), RestartAction::Unchanged);
    assert!(st.worker_running && st.enabled);
    assert_eq!(claim_worker(&mut st, &on), None);
    assert!(worker_may_exit(&mut st, &on));
    assert!(st.worker_running);
}

#[test]
fn claim_worker_needs_configuration() {
    let mut st = PushState::new();
    assert_eq!(claim_worker(&mut st, &settings(true, Some(""), 30)), None);
    assert_eq!(st, PushState::new());
    assert_eq!(claim_worker(&mut st, &settings(false, Some("http://h"), 30)), None);
    let mut st2 = PushState::new();
    st2.worker_stopped();
    assert_eq!(st2, PushState::new());
}

#[test]
fn plans_of_a_round() {
    assert!(matches!(plan_iteration(&settings(false, Some("http://h"), 30)), IterationPlan::Stop));
    assert!(matches!(plan_iteration(&settings(true, None, 30)), IterationPlan::SleepThenStop { secs: 30 }));
    assert!(matches!(plan_iteration(&settings(true, Some(""), 1)), IterationPlan::SleepThenStop { secs: 5 }));
    match plan_iteration(&settings(true, Some("http://111.231.44.136:3344//"), 2)) {
        IterationPlan::SleepThenPush { secs, push_url } => {
            assert_eq!(secs, 5);
            assert_eq!(push_url, "http://111.231.44.136:3344/api/v1/push");
        }
        _ => panic!("expected a push"),
    }
}

#[test]
fn push_urls() {
    assert_eq!(push_url_for("http://h:1"), "http://h:1/api/v1/push");
    assert_eq!(push_url_for("http://h:1/"), "http://h:1/api/v1/push");
    assert_eq!(push_url_for("/"), "/api/v1/push");
}

#[test]
fn cost_recompute_rule() {
    assert!(needs_cost_recompute("0", 10, 0));
    assert!(needs_cost_recompute("0", 0, 5));
    assert!(!needs_cost_recompute("0", 0, 0));
    assert!(!needs_cost_recompute("0.0", 10, 5));
    assert!(!needs_cost_recompute("0.015", 10, 5));
}

#[test]
fn pricing_model_prefers_requested() {
    assert_eq!(pricing_model_id("m", Some("r")), "r");
    assert_eq!(pricing_model_id("m", None), "m");
}

fn same_except_cost(e: &PushLogEntry, r: &UsageLogRow) {
    assert_eq!(e.request_id, r.request_id);
    assert_eq!(e.model, r.model);
    assert_eq!(e.request_model, r.request_model);
    assert_eq!(e.input_tokens, r.input_tokens);
    assert_eq!(e.first_token_ms, r.first_token_ms);
    assert_eq!(e.is_streaming, r.is_streaming);
    assert_eq!(e.created_at, r.created_at);
}

#[test]
fn entry_takes_fresh_cost_when_needed() {
    let r = row(7, "0", 100, 50);
    let e = build_push_entry(&r, Some("0.0042".to_string()));
    assert_eq!(e.total_cost_usd, "0.0042");
    same_except_cost(&e, &r);
    let e = build_push_entry(&r, None);
    assert_eq!(e.total_cost_usd, "0");
}

#[test]
fn entry_keeps_stored_cost() {
    let r = row(8, "0.5", 100, 50);
    let e = build_push_entry(&r, Some("9".to_string()));
    assert_eq!(e.total_cost_usd, "0.5");
    same_except_cost(&e, &r);
}

#[test]
fn body_carries_device() {
    let b = build_push_body(vec![], "h".to_string(), "[PC:h]".to_string());
    assert_eq!(b.device_id, "h");
    assert_eq!(b.device_name, "[PC:h]");
    assert!(b.logs.is_empty());
    assert!(b.timestamp > 1_600_000_000_000);
}

#[test]
fn status_classes() {
    assert!(is_success(200) && is_success(299) && !is_success(300) && !is_success(199));
    assert!(is_client_error(400) && is_client_error(499) && !is_client_error(500));
}

#[test]
fn progress_after_accepted_batch() {
    let mut p = PushProgress::new();
    assert_eq!(p.last_id, 0);
    p.record_outcome(&[3, 9, 5], SendOutcome::Responded(200));
    assert_eq!(p.last_id, 9);
}

#[test]
fn progress_after_client_error_skips_batch() {
    let mut p = PushProgress { last_id: 9 };
    p.record_outcome(&[10, 12], SendOutcome::Responded(400));
    assert_eq!(p.last_id, 12);
}

#[test]
fn progress_after_failure_retries() {
    let mut p = PushProgress { last_id: 9 };
    p.record_outcome(&[10, 12], SendOutcome::Responded(503));
    assert_eq!(p.last_id, 9);
    p.record_outcome(&[10, 12], SendOutcome::Failed);
    assert_eq!(p.last_id, 9);
    p.record_outcome(&[], SendOutcome::Responded(200));
    assert_eq!(p.last_id, 9);
}

#[test]
fn batch_maximum() {
    assert_eq!(batch_max_id(&[]), None);
    assert_eq!(batch_max_id(&[4]), Some(4));
    assert_eq!(batch_max_id(&[4, -1, 12, 7]), Some(12));
}

#[test]
fn round_query_and_batch() {
    let p = PushProgress { last_id: 41 };
    let q = p.batch_query();
    assert_eq!((q.since_id, q.limit), (41, 200));
    assert_eq!(PushProgress::new().batch_query().since_id, 0);
    assert!(p.take_batch(None).is_none());
    assert!(p.take_batch(Some(vec![])).is_none());
    let b = p.take_batch(Some(vec![row(42, "0.1", 1, 1), row(43, "0.1", 1, 1)])).unwrap();
    assert_eq!(b.iter().map(|r| r.id).collect::<Vec<_>>(), vec![42, 43]);
    assert_eq!(p.last_id, 41);
}

#[test]
fn failed_starts_allow_a_new_worker() {
    let on = settings(true, Some("http://h"), 30);
    let mut st = PushState::new();
    assert_eq!(restart_if_needed(&mut st, &on), RestartAction::StartWorker);
    st.start_failed(StartFailure::DatabaseUnavailable);
    assert_eq!(st, PushState::new());
    assert_eq!(restart_if_needed(&mut st, &on), RestartAction::StartWorker);
    assert!(st.confirm_start(&on));
    assert_eq!(st, PushState { enabled: true, worker_running: true });
    assert!(!st.confirm_start(&settings(true, None, 30)));
    assert_eq!(st, PushState::new());
}
