use std::path::PathBuf;

use nixpick::app::{App, Focus, StatusKind};
use nixpick::package::Package;
use nixpick::screen::RowStyle;

fn pkg(attr: &str, version: &str, desc: &str) -> Package {
    Package { attr_name: attr.to_string(), version: version.to_string(), description: desc.to_string() }
}

fn app() -> App {
    App::new(PathBuf::from("."), "24.11".to_string())
}

#[test]
fn titles() {
    let mut a = app();
    assert_eq!(a.search_title(), " search  ·  channel: 24.11 ");
    assert_eq!(a.results_title(), " results ");
    assert_eq!(a.basket_title(), " basket (0) ");
    a.apply_results(vec![pkg("a", "1", ""), pkg("b", "2", "")], 1, 40, 0);
    assert_eq!(a.results_title(), " results (2/40) ");
    a.total_hits = 1;
    assert_eq!(a.results_title(), " results (1/1) ");
}

#[test]
fn search_line_shows_cursor_when_focused() {
    let mut a = app();
    a.query = "rip".to_string();
    assert_eq!(a.search_line(), "rip▌");
    a.focus = Focus::Basket;
    assert_eq!(a.search_line(), "rip");
}

#[test]
fn empty_results_text() {
    let mut a = app();
    assert_eq!(a.empty_results_text(), "Type a query and press Enter (or wait for debounce)");
    a.query = "zz".to_string();
    assert_eq!(a.empty_results_text(), "No results");
}

#[test]
fn result_rows() {
    let mut a = app();
    let long = "x".repeat(70);
    a.apply_results(vec![pkg("a", "1.0", ""), pkg("b", "2.0", &long)], 1, 2, 0);
    a.basket.push(pkg("b", "", ""));
    a.focus = Focus::Results;
    let r0 = a.result_row(0);
    assert_eq!(r0.marks, "›  ");
    assert_eq!(r0.name, "a");
    assert_eq!(r0.version, " 1.0");
    assert_eq!(r0.detail, "");
    assert_eq!(r0.style, RowStyle::Cursor);
    let r1 = a.result_row(1);
    assert_eq!(r1.marks, " ● ");
    assert_eq!(r1.style, RowStyle::Picked);
    assert_eq!(r1.detail, format!("  {}…", "x".repeat(59)));
    a.focus = Focus::Search;
    assert_eq!(a.result_row(0).style, RowStyle::Plain);
}

#[test]
fn basket_rows() {
    let mut a = app();
    a.basket = vec![pkg("a", "", ""), pkg("b", "", "")];
    a.focus = Focus::Basket;
    a.basket_cursor = 1;
    assert_eq!(a.basket_row(0).marks, "  ");
    let r = a.basket_row(1);
    assert!(r.highlighted);
    assert_eq!(r.marks, "› ");
    assert_eq!(r.name, "b");
}

#[test]
fn status_lines() {
    let mut a = app();
    a.status.kind = StatusKind::Info;
    a.status.message = "hi".to_string();
    assert_eq!(a.status_line(), "hi");
    a.set_ok("done".to_string());
    assert_eq!(a.status_line(), "✓ done");
    a.set_error("bad".to_string());
    assert_eq!(a.status_line(), "✗ bad");
    a.set_searching();
    assert_eq!(a.status_line(), "… Searching ''…");
}

#[test]
fn empty_basket_text() {
    assert_eq!(app().empty_basket_text(), "Empty\n\nSpace on a result\nto add packages");
}
