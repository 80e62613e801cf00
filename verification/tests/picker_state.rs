use std::path::PathBuf;

use nixpick::app::{search_due, App, Focus, StatusKind};
use nixpick::package::Package;

fn pkg(attr: &str) -> Package {
    Package { attr_name: attr.to_string(), version: "1.0".to_string(), description: "d".to_string() }
}

fn app() -> App {
    App::new(PathBuf::from("/tmp/project"), "unstable".to_string())
}

#[test]
fn fresh_picker() {
    let a = app();
    assert_eq!(a.focus, Focus::Search);
    assert_eq!(a.status.kind, StatusKind::Info);
    assert_eq!(a.status.message, "Type to search nixpkgs · Space: toggle basket · g: generate");
    assert!(a.results.is_empty() && a.basket.is_empty());
    assert_eq!(a.search_generation, 0);
    assert!(a.pending_query.is_none());
    assert_eq!(a.target_dir, PathBuf::from("/tmp/project"));
}

#[test]
fn request_search_and_results() {
    let mut a = app();
    a.query = "ripgrep".to_string();
    a.request_search();
    assert_eq!(a.search_generation, 1);
    assert_eq!(a.pending_query.as_deref(), Some("ripgrep"));
    assert_eq!(a.status.kind, StatusKind::Searching);
    assert_eq!(a.status.message, "Searching 'ripgrep'…");
    a.result_cursor = 5;
    a.apply_results(vec![pkg("ripgrep"), pkg("ripgrep-all")], 123, 17, 1);
    assert_eq!(a.results.len(), 2);
    assert_eq!(a.result_cursor, 1);
    assert_eq!(a.total_hits, 17);
    assert_eq!(a.last_search_ms, 123);
    assert_eq!(a.status.kind, StatusKind::Info);
    assert_eq!(a.status.message, "2 of 17 results · 123ms · channel: unstable");
}

#[test]
fn stale_results_are_dropped() {
    let mut a = app();
    a.query = "fd".to_string();
    a.request_search();
    let old = a.search_generation;
    a.query = "fdx".to_string();
    a.request_search();
    a.apply_results(vec![pkg("fd")], 5, 1, old);
    assert!(a.results.is_empty());
    assert_eq!(a.status.kind, StatusKind::Searching);
}

#[test]
fn blank_query_clears_results() {
    let mut a = app();
    a.apply_results(vec![pkg("fd")], 5, 1, 0);
    a.query = "   ".to_string();
    a.request_search();
    assert!(a.results.is_empty());
    assert_eq!(a.total_hits, 0);
    assert_eq!(a.status.kind, StatusKind::Info);
}

#[test]
fn generation_wraps() {
    let mut a = app();
    a.search_generation = u64::MAX;
    a.request_search();
    assert_eq!(a.search_generation, 0);
}

#[test]
fn cursor_wraps_around() {
    let mut a = app();
    a.apply_results(vec![pkg("a"), pkg("b"), pkg("c")], 1, 3, 0);
    a.focus = Focus::Results;
    a.move_cursor(-1);
    assert_eq!(a.result_cursor, 2);
    a.move_cursor(1);
    assert_eq!(a.result_cursor, 0);
    a.move_cursor(7);
    assert_eq!(a.result_cursor, 1);
    a.move_cursor(-8);
    assert_eq!(a.result_cursor, 2);
    a.focus = Focus::Basket;
    a.move_cursor(1);
    assert_eq!(a.basket_cursor, 0);
}

#[test]
fn focus_cycles_past_empty_lists() {
    let mut a = app();
    a.cycle_focus();
    assert_eq!(a.focus, Focus::Search);
    a.apply_results(vec![pkg("a")], 1, 1, 0);
    a.cycle_focus();
    assert_eq!(a.focus, Focus::Results);
    a.cycle_focus();
    assert_eq!(a.focus, Focus::Search);
    a.basket.push(pkg("z"));
    a.cycle_focus();
    a.cycle_focus();
    assert_eq!(a.focus, Focus::Basket);
    a.cycle_focus();
    assert_eq!(a.focus, Focus::Search);
}

#[test]
fn toggling_adds_then_removes() {
    let mut a = app();
    a.apply_results(vec![pkg("a"), pkg("b")], 1, 2, 0);
    a.focus = Focus::Results;
    a.result_cursor = 1;
    a.toggle_selected();
    assert!(a.is_in_basket("b"));
    assert_eq!(a.status.kind, StatusKind::Success);
    assert_eq!(a.status.message, "Added b");
    a.toggle_selected();
    assert!(!a.is_in_basket("b"));
    assert!(a.basket.is_empty());
    assert_eq!(a.status.message, "Removed b");
}

#[test]
fn removing_from_basket_keeps_cursor_inside() {
    let mut a = app();
    a.basket = vec![pkg("x"), pkg("y"), pkg("z")];
    a.focus = Focus::Basket;
    a.basket_cursor = 2;
    a.toggle_selected();
    assert_eq!(a.basket.len(), 2);
    assert_eq!(a.basket_cursor, 1);
    assert_eq!(a.status.message, "Removed z");
    a.basket_cursor = 0;
    a.toggle_selected();
    assert_eq!(a.basket[0].attr_name, "y");
    a.toggle_selected();
    assert!(a.basket.is_empty());
    assert_eq!(a.basket_cursor, 0);
    a.toggle_selected();
    assert!(a.basket.is_empty());
}

#[test]
fn search_focus_toggles_nothing() {
    let mut a = app();
    a.apply_results(vec![pkg("a")], 1, 1, 0);
    a.toggle_selected();
    assert!(a.basket.is_empty());
}

#[test]
fn status_setters() {
    let mut a = app();
    a.set_error("boom".to_string());
    assert_eq!(a.status.kind, StatusKind::Error);
    assert_eq!(a.status.message, "boom");
    a.set_ok("fine".to_string());
    assert_eq!(a.status.kind, StatusKind::Success);
    a.set_searching();
    assert_eq!(a.status.message, "Searching ''…");
}

#[test]
fn search_requests_and_failures() {
    let mut a = app();
    assert!(a.take_search_request().is_none());
    a.query = "  ".to_string();
    a.request_search();
    assert!(a.take_search_request().is_none());
    assert!(a.pending_query.is_none());
    a.query = "jq".to_string();
    a.request_search();
    let (q, g) = a.take_search_request().expect("pending");
    assert_eq!(q, "jq");
    assert_eq!(g, a.search_generation);
    assert!(a.pending_query.is_none());
    a.apply_search_error(g + 1, "late".to_string());
    assert_eq!(a.status.kind, StatusKind::Searching);
    a.apply_search_error(g, "request failed".to_string());
    assert_eq!(a.status.kind, StatusKind::Error);
    assert_eq!(a.status.message, "request failed");
}

#[test]
fn debounce_rule() {
    assert!(!search_due(false, 10_000));
    assert!(!search_due(true, 279));
    assert!(search_due(true, 280));
}

#[test]
fn basket_never_holds_a_name_twice() {
    let mut a = app();
    let mut other = pkg("a");
    other.version = "2.0".to_string();
    a.apply_results(vec![pkg("a"), other], 1, 2, 0);
    a.focus = Focus::Results;
    a.toggle_selected();
    a.result_cursor = 1;
    a.toggle_selected();
    assert!(a.basket.is_empty());
    assert_eq!(a.status.message, "Removed a");
    a.toggle_selected();
    assert_eq!(a.basket.len(), 1);
    assert_eq!(a.basket[0].version, "2.0");
}

#[test]
fn cursor_past_isize_max_wraps_like_a_signed_cast() {
    let mut a = app();
    a.apply_results(vec![pkg("a"), pkg("b"), pkg("c")], 1, 3, 0);
    a.focus = Focus::Results;
    a.result_cursor = usize::MAX;
    a.move_cursor(1);
    assert_eq!(a.result_cursor, 0);
    a.result_cursor = usize::MAX - 1;
    a.move_cursor(0);
    assert_eq!(a.result_cursor, 1);
    a.basket = vec![pkg("x"), pkg("y")];
    a.focus = Focus::Basket;
    a.basket_cursor = usize::MAX;
    a.move_cursor(-1);
    assert_eq!(a.basket_cursor, 0);
    assert_eq!(a.result_cursor, 1);
}
