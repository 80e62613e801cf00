use nixpick::basket::{append_entry, parse_basket};
use nixpick::cli::{add_step, check_add_query, generate_packages, generate_report, list_report, no_results_line, remove_report, results_report, search_text, AddStep};
use nixpick::package::Package;

fn pkg(attr: &str, version: &str, desc: &str) -> Package {
    Package { attr_name: attr.to_string(), version: version.to_string(), description: desc.to_string() }
}

#[test]
fn search_words() {
    let words = vec!["python".to_string(), "requests".to_string()];
    assert_eq!(search_text(&words), Ok("python requests".to_string()));
    assert_eq!(search_text(&vec![]), Err("search query is empty".to_string()));
    assert_eq!(search_text(&vec![" ".to_string()]), Err("search query is empty".to_string()));
    assert_eq!(no_results_line("zz"), "No results for 'zz'.");
}

#[test]
fn result_listing() {
    let ps = vec![pkg("ripgrep", "14.1.0", "fast grep"), pkg("rg", "", "")];
    let lines = results_report(&ps, 87, 112, "unstable");
    assert_eq!(lines[0], "Found 2 of 112 results in 87ms (channel: unstable)\n");
    assert_eq!(lines[1], format!("{:>3}. {:<32} {:<12} {}", 1, "ripgrep", "14.1.0", "fast grep"));
    assert_eq!(lines[2], format!("{:>3}. {:<32} {:<12} {}", 2, "rg", "-", ""));
}

#[test]
fn adding_best_matches() {
    let basket = vec![pkg("fd", "", "")];
    match add_step(&basket, "fd", Some(pkg("fd", "10", "")), 3) {
        AddStep::Skip { message } => assert_eq!(message, "Already in basket: fd (skipped)"),
        _ => panic!("expected a skip"),
    }
    match add_step(&basket, "node", Some(pkg("nodejs_22", "22.9.0", "")), 57) {
        AddStep::Append { package, message } => {
            assert_eq!(package.attr_name, "nodejs_22");
            assert_eq!(message, "Added nodejs_22 (22.9.0) — top of 57 matches for 'node'");
        }
        _ => panic!("expected an append"),
    }
    match add_step(&basket, "jq", Some(pkg("jq", "", "")), 1) {
        AddStep::Append { message, .. } => assert_eq!(message, "Added jq (?) — only match"),
        _ => panic!("expected an append"),
    }
    match add_step(&basket, "zzz", None, 0) {
        AddStep::NoMatch { message } => assert_eq!(message, "No match for 'zzz' — skipped"),
        _ => panic!("expected no match"),
    }
}

#[test]
fn listing_the_basket() {
    assert_eq!(list_report(&vec![]), vec!["Basket is empty. Use `nixpick add <query>` to stage packages.".to_string()]);
    let lines = list_report(&vec![pkg("fd", "10", ""), pkg("jq", "", "")]);
    assert_eq!(lines[0], "Basket (2):");
    assert_eq!(lines[1], format!("  • {:<32} {}", "fd", "10"));
    assert_eq!(lines[2], format!("  • {:<32} {}", "jq", ""));
}

#[test]
fn removing_reports() {
    assert_eq!(remove_report("fd", true, 2), "Removed fd from basket (2 remain).");
    assert_eq!(remove_report("fd", false, 2), "fd not in basket.");
}

#[test]
fn packages_to_generate() {
    let named = generate_packages(vec!["ripgrep".to_string(), "fd".to_string()], vec![pkg("x", "", "")]).unwrap();
    assert_eq!(named.len(), 2);
    assert_eq!(named[0].attr_name, "ripgrep");
    assert_eq!(named[1].attr_name, "fd");
    assert!(named[0].version.is_empty());
    let staged = generate_packages(vec![], vec![pkg("x", "1", "")]).unwrap();
    assert_eq!(staged[0].attr_name, "x");
    assert_eq!(
        generate_packages(vec![], vec![]).err(),
        Some("basket is empty — use `nixpick add <query>` first, or pass attrs: `nixpick generate ripgrep fd`".to_string())
    );
}

#[test]
fn generate_lines() {
    assert_eq!(generate_report(3, "/p/flake.nix", true, "x"), "Wrote 3 packages to /p/flake.nix · direnv allow ✓");
    assert_eq!(generate_report(1, "f", false, "direnv not found"), "Wrote 1 packages to f · direnv not found");
}

#[test]
fn blank_add_queries_are_refused() {
    assert_eq!(check_add_query("fd"), Ok(()));
    assert_eq!(check_add_query(" \t"), Err("empty query in add list".to_string()));
    assert_eq!(check_add_query(""), Err("empty query in add list".to_string()));
}

#[test]
fn repeated_adds_stage_each_name_once() {
    let mut text = String::new();
    for (query, found) in [("rg", "ripgrep"), ("fd", "fd"), ("ripgrep", "ripgrep")] {
        match add_step(&parse_basket(&text), query, Some(pkg(found, "1", "")), 2) {
            AddStep::Append { package, .. } => text = append_entry(text, &package),
            AddStep::Skip { message } => assert_eq!(message, "Already in basket: ripgrep (skipped)"),
            AddStep::NoMatch { .. } => panic!("unexpected"),
        }
    }
    assert_eq!(text, "ripgrep\t1\nfd\t1\n");
}
