use statui::backend::{CheckResult, CheckStatus};
use statui::config::Endpoint;
use statui::state::App;
use statui::table::{latest_samples, SPARKLINE_LENGTH};
use std::collections::{HashMap, VecDeque};

fn app_with(names: &[&str]) -> App {
    let endpoints: Vec<Endpoint> = names
        .iter()
        .map(|name| Endpoint {
            name: name.to_string(),
            url: format!("http://{}", name),
            interval: None,
            timeout: None,
            method: None,
            headers: HashMap::new(),
        })
        .collect();
    App::new(&endpoints)
}

fn ok(name: &str, latency_ms: u64) -> CheckResult {
    CheckResult {
        name: name.to_string(),
        status: CheckStatus::Success { code: 200, text: "OK".to_string() },
        latency_ms,
        observed_at: 0,
    }
}

#[test]
fn latest_samples_of_a_short_history_are_all_of_it() {
    let h: VecDeque<u64> = [1, 2, 3].into_iter().collect();
    assert_eq!(latest_samples(&h, 10), vec![1, 2, 3]);
    assert_eq!(latest_samples(&h, 3), vec![1, 2, 3]);
    assert_eq!(latest_samples(&VecDeque::new(), 10), Vec::<u64>::new());
}

#[test]
fn latest_samples_of_a_long_history_are_its_end() {
    let h: VecDeque<u64> = (0..25).collect();
    assert_eq!(latest_samples(&h, 10), (15..25).collect::<Vec<u64>>());
    assert_eq!(latest_samples(&h, 1), vec![24]);
    assert_eq!(latest_samples(&h, 0), Vec::<u64>::new());
}

#[test]
fn unchecked_endpoints_have_no_row() {
    let mut app = app_with(&["a", "b", "c"]);
    assert!(app.table_rows().is_empty());
    app.on_result(ok("c", 5));
    app.on_result(ok("a", 7));
    let rows = app.table_rows();
    assert_eq!(rows.len(), 2);
    assert_eq!(rows[0].position, 0);
    assert_eq!(rows[0].trend, vec![7]);
    assert_eq!(rows[1].position, 2);
    assert_eq!(rows[1].trend, vec![5]);
    assert!(!rows[0].selected);
    assert!(!rows[1].selected);
}

#[test]
fn failed_checks_have_a_row_too() {
    let mut app = app_with(&["a"]);
    app.on_result(CheckResult {
        name: "a".to_string(),
        status: CheckStatus::Error { message: "refused".to_string() },
        latency_ms: 3,
        observed_at: 0,
    });
    let rows = app.table_rows();
    assert_eq!(rows.len(), 1);
    assert_eq!(rows[0].trend, vec![3]);
}

#[test]
fn trend_shows_the_latest_ten_samples() {
    let mut app = app_with(&["a"]);
    for i in 0..37u64 {
        app.on_result(ok("a", i));
    }
    let rows = app.table_rows();
    assert_eq!(rows.len(), 1);
    assert_eq!(rows[0].trend.len(), SPARKLINE_LENGTH);
    assert_eq!(rows[0].trend, (27..37).collect::<Vec<u64>>());
}

#[test]
fn selected_row_is_marked_by_its_place_in_the_order() {
    let mut app = app_with(&["a", "b", "c"]);
    app.on_result(ok("b", 1));
    app.on_result(ok("c", 2));
    app.next_row();
    let rows = app.table_rows();
    assert_eq!(rows.len(), 2);
    assert!(rows.iter().all(|row| !row.selected));
    app.next_row();
    let rows = app.table_rows();
    assert_eq!(rows[0].position, 1);
    assert!(rows[0].selected);
    assert!(!rows[1].selected);
    app.next_row();
    let rows = app.table_rows();
    assert!(!rows[0].selected);
    assert_eq!(rows[1].position, 2);
    assert!(rows[1].selected);
}

#[test]
fn endpoints_that_share_a_name_share_their_samples() {
    let mut app = app_with(&["a", "b", "a"]);
    app.on_result(ok("a", 11));
    let rows = app.table_rows();
    assert_eq!(rows.len(), 2);
    assert_eq!(rows[0].position, 0);
    assert_eq!(rows[1].position, 2);
    assert_eq!(rows[0].trend, vec![11]);
    assert_eq!(rows[1].trend, vec![11]);
}
