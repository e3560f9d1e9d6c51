use cc_switch::lan_broadcast::{
    parse_logs_query, parse_trends_query, zero_cost_logs_query, BroadcastState, DateRangeQuery,
    LanBroadcast, TrendsQuery, BROADCAST_PORT, HTTP_PORT, midnight_wall_time,
};

#[test]
fn start_then_stop() {
    let mut s = BroadcastState::new();
    assert!(!s.is_running());
    assert_eq!(s.start(), Ok("LAN broadcast started".to_string()));
    assert!(s.is_running());
    assert_eq!(s.stop(), Ok("LAN broadcast stopped".to_string()));
    assert!(!s.is_running());
}

#[test]
fn second_start_refused() {
    let mut s = BroadcastState::new();
    s.start().unwrap();
    assert_eq!(s.start(), Err("LAN broadcast is already running".to_string()));
    assert!(s.is_running());
}

#[test]
fn stop_when_stopped_refused() {
    let mut s = BroadcastState::new();
    assert_eq!(s.stop(), Err("LAN broadcast is not running".to_string()));
    assert!(!s.is_running());
}

#[test]
fn info_reports_address_and_port() {
    let mut s = BroadcastState::new();
    s.record_local_ip("192.168.1.5".to_string());
    s.start().unwrap();
    let i = s.info();
    assert!(i.running);
    assert_eq!(i.local_ip, "192.168.1.5");
    assert_eq!(i.port, 3345);
    assert_eq!(HTTP_PORT, 3345);
    assert_eq!(BROADCAST_PORT, 3445);
}

#[test]
fn targets_with_subnet() {
    assert_eq!(
        LanBroadcast::broadcast_targets("192.168.6.12"),
        vec!["255.255.255.255:3445".to_string(), "192.168.6.255:3445".to_string()]
    );
}

#[test]
fn targets_without_subnet() {
    assert_eq!(LanBroadcast::broadcast_targets("127.0.0.1"), vec!["255.255.255.255:3445".to_string()]);
    assert_eq!(LanBroadcast::broadcast_targets(""), vec!["255.255.255.255:3445".to_string()]);
}

#[test]
fn http_listens_everywhere() {
    assert_eq!(LanBroadcast::http_bind_addr(), "0.0.0.0:3345");
}

#[test]
fn announcement_fields() {
    let a = LanBroadcast::announce("box".to_string());
    assert_eq!((a.v, a.name.as_str(), a.port), (1, "box", 3345));
}

#[test]
fn announce_host_names() {
    assert_eq!(LanBroadcast::hostname_from_scutil(Some(" Studio \n")), "Studio");
    assert_eq!(LanBroadcast::hostname_from_scutil(Some("\n")), "");
    assert_eq!(LanBroadcast::hostname_from_scutil(None), "CC-Switch");
    assert_eq!(LanBroadcast::hostname_from_env(Some("h"), Some("c")), "h");
    assert_eq!(LanBroadcast::hostname_from_env(None, Some("c")), "c");
    assert_eq!(LanBroadcast::hostname_from_env(None, None), "CC-Switch");
}

#[test]
fn explicit_range_is_kept() {
    let q = DateRangeQuery { start_date: Some(100), end_date: None };
    assert_eq!(q.resolve(), Some((Some(100), None)));
    let q = DateRangeQuery { start_date: None, end_date: Some(5) };
    assert_eq!(q.resolve_with(None), Some((None, Some(5))));
}

#[test]
fn empty_range_means_today() {
    let q = DateRangeQuery { start_date: None, end_date: None };
    let today = DateRangeQuery { start_date: Some(10), end_date: Some(20) };
    assert_eq!(q.resolve_with(Some(today)), Some((Some(10), Some(20))));
    assert_eq!(q.resolve_with(None), None);
    if let Some((Some(midnight), Some(now))) = q.resolve() {
        assert!(midnight <= now);
        assert!(now - midnight < 2 * 86_400);
    }
}

#[test]
fn day_bounds_become_a_range() {
    assert_eq!(
        DateRangeQuery::from_day_bounds(Some((1, 2))),
        Some(DateRangeQuery { start_date: Some(1), end_date: Some(2) })
    );
    assert_eq!(DateRangeQuery::from_day_bounds(None), None);
}

#[test]
fn logs_query_defaults_and_values() {
    let q = parse_logs_query(None, None, None);
    assert_eq!(q.limit, 6);
    assert_eq!(q.range, DateRangeQuery { start_date: None, end_date: None });
    let q = parse_logs_query(Some("1700000000"), Some("x"), Some("20"));
    assert_eq!(q.limit, 20);
    assert_eq!(q.page_size(), 20);
    assert_eq!(q.range, DateRangeQuery { start_date: Some(1700000000), end_date: None });
    assert_eq!(parse_logs_query(None, None, Some("-1")).limit, 6);
}

#[test]
fn trends_query_defaults_and_values() {
    assert_eq!(parse_trends_query(None, None, None).days, 8);
    assert_eq!(parse_trends_query(None, None, Some("30")).days, 30);
    assert_eq!(parse_trends_query(None, None, Some("3.5")).days, 8);
    assert_eq!(parse_trends_query(Some("-5"), None, None).range.start_date, Some(-5));
}

#[test]
fn zero_cost_query_text() {
    let base = "SELECT request_id, app_type, model, request_model, input_tokens, output_tokens,
                    cache_read_tokens, cache_creation_tokens
             FROM proxy_request_logs
             WHERE total_cost_usd IN ('0', '0.0')
               AND (input_tokens > 0 OR output_tokens > 0)";
    let (sql, params) = zero_cost_logs_query(Some(1), Some(2));
    assert_eq!(sql, format!("{} AND created_at >= ? AND created_at <= ? ORDER BY rowid", base));
    assert_eq!(params, vec![1, 2]);
    let (sql, params) = zero_cost_logs_query(None, Some(2));
    assert_eq!(sql, format!("{} AND created_at <= ? ORDER BY rowid", base));
    assert_eq!(params, vec![2]);
    let (sql, params) = zero_cost_logs_query(None, None);
    assert_eq!(sql, format!("{} ORDER BY rowid", base));
    assert!(params.is_empty());
}

#[test]
fn trends_cover_the_last_days() {
    let today = DateRangeQuery { start_date: Some(1_000_000), end_date: Some(1_050_000) };
    let q = parse_trends_query(None, None, None);
    assert_eq!(q.resolve_with(Some(today)), Some((Some(1_000_000 - 7 * 86_400), Some(1_050_000))));
    let q = parse_trends_query(None, None, Some("1"));
    assert_eq!(q.resolve_with(Some(today)), Some((Some(1_000_000), Some(1_050_000))));
    let q = parse_trends_query(None, None, Some("0"));
    assert_eq!(q.resolve_with(Some(today)), Some((Some(1_000_000), Some(1_050_000))));
    let q = parse_trends_query(None, None, Some("9223372036854775807"));
    assert_eq!(q.resolve_with(Some(today)), Some((Some(i64::MIN), Some(1_050_000))));
    assert_eq!(q.resolve_with(None), None);
}

#[test]
fn trends_with_dates_keep_them() {
    let q = parse_trends_query(Some("5"), None, Some("30"));
    assert_eq!(q.resolve(), Some((Some(5), None)));
    let q = TrendsQuery { range: DateRangeQuery { start_date: None, end_date: None }, days: 3 };
    if let Some((Some(start), Some(now))) = q.resolve() {
        assert!(start <= now);
        assert!(now - start < 4 * 86_400);
    }
}

#[test]
fn today_runs_from_midnight_to_now() {
    if let Some(d) = DateRangeQuery::today() {
        let (m, n) = (d.start_date.unwrap(), d.end_date.unwrap());
        assert!(m <= n && n - m < 2 * 86_400);
    }
}

#[test]
fn a_day_starts_at_midnight() {
    assert_eq!(midnight_wall_time(2025, 6, 15), (2025, 6, 15, 0, 0, 0));
}

#[test]
fn status_follows_the_last_accepted_request() {
    let mut s = BroadcastState::new();
    s.stop().unwrap_err();
    s.start().unwrap();
    s.start().unwrap_err();
    assert!(s.is_running());
    s.stop().unwrap();
    s.stop().unwrap_err();
    assert!(!s.is_running());
}
