use nixpick::basket::{append_entry, basket_contains, basket_line, parse_basket, remove_attr, render_basket};
use nixpick::package::Package;

fn pkg(attr: &str, version: &str) -> Package {
    Package { attr_name: attr.to_string(), version: version.to_string(), description: String::new() }
}

fn names(ps: &[Package]) -> Vec<(String, String)> {
    ps.iter().map(|p| (p.attr_name.clone(), p.version.clone())).collect()
}

#[test]
fn parses_lines_with_and_without_versions() {
    let text = "ripgrep\t14.1.0\nfd\n\n   \npython3Packages.requests\t2.31 \r\n";
    let ps = parse_basket(text);
    assert_eq!(
        names(&ps),
        vec![
            ("ripgrep".to_string(), "14.1.0".to_string()),
            ("fd".to_string(), String::new()),
            ("python3Packages.requests".to_string(), "2.31".to_string()),
        ]
    );
    assert!(ps.iter().all(|p| p.description.is_empty()));
}

#[test]
fn parses_last_line_without_break_and_extra_tabs() {
    let ps = parse_basket("  bat \t 0.24 \t x\njq");
    assert_eq!(
        names(&ps),
        vec![("bat".to_string(), "0.24 \t x".to_string()), ("jq".to_string(), String::new())]
    );
    assert!(parse_basket("").is_empty());
}

#[test]
fn lines_of_entries() {
    assert_eq!(basket_line(&pkg("fd", "")), "fd\n");
    assert_eq!(basket_line(&pkg("fd", "10.2")), "fd\t10.2\n");
}

#[test]
fn render_then_parse_round_trip() {
    let ps = vec![pkg("ripgrep", "14.1.0"), pkg("fd", ""), pkg("nodejs_22", "22.9.0")];
    let text = render_basket(&ps);
    assert_eq!(text, "ripgrep\t14.1.0\nfd\nnodejs_22\t22.9.0\n");
    assert_eq!(names(&parse_basket(&text)), names(&ps));
}

#[test]
fn append_adds_missing_line_break() {
    assert_eq!(append_entry(String::new(), &pkg("fd", "")), "fd\n");
    assert_eq!(append_entry("jq".to_string(), &pkg("fd", "1")), "jq\nfd\t1\n");
    assert_eq!(append_entry("jq\n".to_string(), &pkg("fd", "1")), "jq\nfd\t1\n");
    let text = append_entry("jq".to_string(), &pkg("fd", "1"));
    assert_eq!(
        names(&parse_basket(&text)),
        vec![("jq".to_string(), String::new()), ("fd".to_string(), "1".to_string())]
    );
}

#[test]
fn remove_keeps_other_entries_in_order() {
    let mut ps = vec![pkg("a", "1"), pkg("b", ""), pkg("a", "2"), pkg("c", "")];
    assert!(remove_attr(&mut ps, "a"));
    assert_eq!(names(&ps), vec![("b".to_string(), String::new()), ("c".to_string(), String::new())]);
    assert!(!remove_attr(&mut ps, "zzz"));
    assert_eq!(ps.len(), 2);
}

#[test]
fn contains_reads_the_file_text() {
    let text = "ripgrep\t14\nfd\n";
    assert!(basket_contains(text, "fd"));
    assert!(basket_contains(text, "ripgrep"));
    assert!(!basket_contains(text, "rip"));
    assert!(!basket_contains("", "fd"));
}
