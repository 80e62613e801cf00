use std::path::PathBuf;

use nixpick::app::{App, Focus, StatusKind};
use nixpick::keys::{Key, KeyOutcome};
use nixpick::package::Package;

fn pkg(attr: &str) -> Package {
    Package { attr_name: attr.to_string(), version: String::new(), description: String::new() }
}

fn app() -> App {
    App::new(PathBuf::from("."), "unstable".to_string())
}

#[test]
fn typing_edits_and_searches() {
    let mut a = app();
    assert_eq!(a.handle_key(Key::Char('r'), false), KeyOutcome::QueryEdited);
    assert_eq!(a.handle_key(Key::Char('g'), false), KeyOutcome::QueryEdited);
    assert_eq!(a.query, "rg");
    assert_eq!(a.pending_query.as_deref(), Some("rg"));
    assert_eq!(a.handle_key(Key::Backspace, false), KeyOutcome::QueryEdited);
    assert_eq!(a.query, "r");
    assert_eq!(a.handle_key(Key::Enter, false), KeyOutcome::SearchNow);
    assert_eq!(a.search_generation, 4);
}

#[test]
fn escape_quits() {
    let mut a = app();
    a.query = "x".to_string();
    assert_eq!(a.handle_key(Key::Esc, false), KeyOutcome::Nothing);
    assert!(a.should_quit);
    assert_eq!(a.query, "x");
    assert_eq!(a.search_generation, 0);
    let mut b = app();
    b.apply_results(vec![pkg("a")], 1, 1, 0);
    b.focus = Focus::Results;
    b.handle_key(Key::Esc, false);
    assert!(b.should_quit);
    assert_eq!(b.focus, Focus::Results);
}

#[test]
fn escape_closes_help_first() {
    let mut a = app();
    a.show_help = true;
    a.handle_key(Key::Esc, false);
    assert!(!a.show_help);
    assert!(!a.should_quit);
    a.handle_key(Key::Esc, false);
    assert!(a.should_quit);
}

#[test]
fn ctrl_c_quits_anywhere() {
    let mut a = app();
    a.handle_key(Key::Char('c'), true);
    assert!(a.should_quit);
}

#[test]
fn list_keys() {
    let mut a = app();
    a.apply_results(vec![pkg("a"), pkg("b")], 1, 2, 0);
    assert_eq!(a.handle_key(Key::Down, false), KeyOutcome::Nothing);
    assert_eq!(a.focus, Focus::Results);
    a.handle_key(Key::Char('j'), false);
    assert_eq!(a.result_cursor, 1);
    a.handle_key(Key::Char('k'), false);
    a.handle_key(Key::Up, false);
    assert_eq!(a.result_cursor, 1);
    a.handle_key(Key::Char(' '), false);
    assert!(a.is_in_basket("b"));
    assert_eq!(a.handle_key(Key::Char('g'), false), KeyOutcome::Generate { force: false });
    assert_eq!(a.handle_key(Key::Char('G'), false), KeyOutcome::Generate { force: true });
    a.handle_key(Key::Tab, false);
    assert_eq!(a.focus, Focus::Basket);
    a.handle_key(Key::Delete, false);
    assert!(a.basket.is_empty());
    a.handle_key(Key::Char('/'), false);
    assert_eq!(a.focus, Focus::Search);
    a.handle_key(Key::Char('q'), false);
    assert_eq!(a.query, "q");
    assert!(!a.should_quit);
}

#[test]
fn help_screen() {
    let mut a = app();
    a.apply_results(vec![pkg("a")], 1, 1, 0);
    a.focus = Focus::Results;
    a.handle_key(Key::Char('?'), false);
    assert!(a.show_help);
    a.handle_key(Key::Char('j'), false);
    assert_eq!(a.result_cursor, 0);
    a.handle_key(Key::Char('q'), false);
    assert!(!a.show_help);
    assert!(!a.should_quit);
    a.handle_key(Key::Char('q'), false);
    assert!(a.should_quit);
}

#[test]
fn channel_cycles_through_three() {
    let mut a = app();
    a.focus = Focus::Results;
    assert_eq!(a.handle_key(Key::Char('c'), false), KeyOutcome::ChannelChanged);
    assert_eq!(a.channel, "25.11");
    assert_eq!(a.status.kind, StatusKind::Success);
    assert_eq!(a.status.message, "Channel → 25.11");
    a.handle_key(Key::Char('c'), false);
    assert_eq!(a.channel, "24.11");
    a.handle_key(Key::Char('c'), false);
    assert_eq!(a.channel, "unstable");
    a.channel = "19.09".to_string();
    a.cycle_channel();
    assert_eq!(a.channel, "unstable");
}

#[test]
fn channel_change_searches_again() {
    let mut a = app();
    a.query = "fd".to_string();
    a.cycle_channel();
    assert_eq!(a.search_generation, 1);
    assert_eq!(a.status.kind, StatusKind::Searching);
    assert_eq!(a.pending_query.as_deref(), Some("fd"));
}

#[test]
fn ctrl_j_moves_to_results() {
    let mut a = app();
    a.handle_key(Key::Char('j'), true);
    assert_eq!(a.focus, Focus::Search);
    a.apply_results(vec![pkg("a")], 1, 1, 0);
    a.handle_key(Key::Char('j'), true);
    assert_eq!(a.focus, Focus::Results);
    assert_eq!(a.query, "");
}
