//! The command-line workflow: the commands, and what each prints and
//! decides, given what was searched and what the basket file holds.

use std::path::PathBuf;
use vstd::prelude::*;
use crate::package::{Package, PackageView, has_attr, contains_attr};
use crate::text::{
    blank, dec, decimal, is_blank, join, joined, texts, pad_right, pad_left, pad_end, pad_start,
};

verus! {

/// The command line: the target directory, the channel, and the command
/// (none launches the interactive picker).
pub struct Cli {
    pub target: Option<PathBuf>,
    pub channel: Option<String>,
    pub command: Option<Command>,
}

/// A command of the command line.
pub enum Command {
    /// Search nixpkgs and print at most `limit` matching packages.
    Search { query: Vec<String>, limit: usize },
    /// Stage the best match of each query in the basket.
    Add { queries: Vec<String> },
    /// Print the staged packages.
    List,
    /// Unstage the packages named `attr`.
    Remove { attr: String },
    /// Write a flake from the named packages, or from the basket when none
    /// is named; `force` overwrites existing files.
    Generate { attrs: Vec<String>, force: bool },
}

/// The query that the words of a search command make: the words joined by
/// spaces; a blank one is refused.
pub fn search_text(words: &Vec<String>) -> (r: Result<String, String>)
    ensures
        match r {
            Ok(q) => q@ == joined(texts(words@), " "@) && !blank(q@),
            Err(e) => blank(joined(texts(words@), " "@)) && e@ == "search query is empty"@,
        },
{
    let q = join(words, " ");
    if is_blank(q.as_str()) {
        Err(String::from_str("search query is empty"))
    } else {
        Ok(q)
    }
}

/// What a search that found nothing prints.
pub fn no_results_line(query: &str) -> (r: String)
    ensures
        r@ == "No results for '"@ + query@ + "'."@,
{
    let mut r = String::from_str("No results for '");
    r.append(query);
    r.append("'.");
    r
}

/// The line printed for the `n`-th (from 1) found package.
pub open spec fn result_line(n: nat, p: PackageView) -> Seq<char> {
    pad_start(dec(n), 3) + ". "@ + pad_end(p.attr_name, 32) + " "@ + pad_end(
        if p.version.len() == 0 {
            "-"@
        } else {
            p.version
        },
        12,
    ) + " "@ + p.description
}

/// The header printed over found packages.
pub open spec fn results_header(n: nat, total: nat, ms: nat, channel: Seq<char>) -> Seq<char> {
    "Found "@ + dec(n) + " of "@ + dec(total) + " results in "@ + dec(ms) + "ms (channel: "@
        + channel + ")\n"@
}

/// The lines a search prints for the packages it found: a header, then one
/// numbered line per package.
pub fn results_report(packages: &Vec<Package>, elapsed_ms: u64, total: u64, channel: &str) -> (r:
    Vec<String>)
    requires
        packages@.len() < u64::MAX,
    ensures
        r@.len() == packages@.len() + 1,
        r@[0]@ == results_header(packages@.len(), total as nat, elapsed_ms as nat, channel@),
        forall|i: int|
            0 <= i < packages@.len() ==> (#[trigger] r@[i + 1])@ == result_line(
                (i + 1) as nat,
                packages@[i]@,
            ),
{
    let mut head = String::from_str("Found ");
    let n = decimal(packages.len() as u64);
    head.append(n.as_str());
    head.append(" of ");
    let t = decimal(total);
    head.append(t.as_str());
    head.append(" results in ");
    let ms = decimal(elapsed_ms);
    head.append(ms.as_str());
    head.append("ms (channel: ");
    head.append(channel);
    head.append(")\n");
    let mut r: Vec<String> = Vec::new();
    r.push(head);
    let mut i: usize = 0;
    while i < packages.len()
        invariant
            i <= packages@.len(),
            packages@.len() < u64::MAX,
            r@.len() == i + 1,
            r@[0]@ == results_header(packages@.len(), total as nat, elapsed_ms as nat, channel@),
            forall|j: int|
                0 <= j < i ==> (#[trigger] r@[j + 1])@ == result_line(
                    (j + 1) as nat,
                    packages@[j]@,
                ),
        decreases packages@.len() - i,
    {
        let p = &packages[i];
        let num = decimal((i + 1) as u64);
        let mut line = pad_left(num.as_str(), 3);
        line.append(". ");
        let name = pad_right(p.attr_name.as_str(), 32);
        line.append(name.as_str());
        line.append(" ");
        let version = if p.version.unicode_len() == 0 {
            pad_right("-", 12)
        } else {
            pad_right(p.version.as_str(), 12)
        };
        line.append(version.as_str());
        line.append(" ");
        line.append(p.description.as_str());
        r.push(line);
        i = i + 1;
    }
    r
}

/// Refuses a blank query of an add command before anything is searched.
pub fn check_add_query(query: &str) -> (r: Result<(), String>)
    ensures
        r is Err <==> blank(query@),
        r matches Err(e) ==> e@ == "empty query in add list"@,
{
    if is_blank(query) {
        Err(String::from_str("empty query in add list"))
    } else {
        Ok(())
    }
}

/// What staging the best match of a query comes to: it was staged already,
/// it is to be appended, or nothing matched; each with the line to print.
pub enum AddStep {
    Skip { message: String },
    Append { package: Package, message: String },
    NoMatch { message: String },
}

/// The line printed once `p`, the best of `total` matches for `query`, is
/// staged.
pub open spec fn added_line(p: PackageView, total: u64, query: Seq<char>) -> Seq<char> {
    "Added "@ + p.attr_name + " ("@ + (if p.version.len() == 0 {
        "?"@
    } else {
        p.version
    }) + ") — "@ + if total == 1 {
        "only match"@
    } else {
        "top of "@ + dec(total as nat) + " matches for '"@ + query + "'"@
    }
}

/// Decides what to do with the best match `found` (of `total` matches) for
/// `query`, given the staged packages `basket`.
pub fn add_step(basket: &Vec<Package>, query: &str, found: Option<Package>, total: u64) -> (r:
    AddStep)
    ensures
        match found {
            None => r matches AddStep::NoMatch { message } && message@ == "No match for '"@
                + query@ + "' — skipped"@,
            Some(p) => if has_attr(basket@, p.attr_name@) {
                r matches AddStep::Skip { message } && message@ == "Already in basket: "@
                    + p.attr_name@ + " (skipped)"@
            } else {
                r matches AddStep::Append { package, message } && package == p && message@
                    == added_line(p@, total, query@)
            },
        },
{
    match found {
        None => {
            let mut m = String::from_str("No match for '");
            m.append(query);
            m.append("' — skipped");
            AddStep::NoMatch { message: m }
        },
        Some(p) => {
            if contains_attr(basket, p.attr_name.as_str()) {
                let mut m = String::from_str("Already in basket: ");
                m.append(p.attr_name.as_str());
                m.append(" (skipped)");
                AddStep::Skip { message: m }
            } else {
                let mut m = String::from_str("Added ");
                m.append(p.attr_name.as_str());
                m.append(" (");
                if p.version.unicode_len() == 0 {
                    m.append("?");
                } else {
                    m.append(p.version.as_str());
                }
                m.append(") — ");
                if total == 1 {
                    m.append("only match");
                } else {
                    m.append("top of ");
                    let t = decimal(total);
                    m.append(t.as_str());
                    m.append(" matches for '");
                    m.append(query);
                    m.append("'");
                }
                AddStep::Append { package: p, message: m }
            }
        },
    }
}

/// The line listing a staged package.
pub open spec fn staged_line(p: PackageView) -> Seq<char> {
    "  • "@ + pad_end(p.attr_name, 32) + " "@ + p.version
}

/// The lines that listing the basket prints.
pub fn list_report(pkgs: &Vec<Package>) -> (r: Vec<String>)
    ensures
        pkgs@.len() == 0 ==> r@.len() == 1 && r@[0]@
            == "Basket is empty. Use `nixpick add <query>` to stage packages."@,
        pkgs@.len() > 0 ==> {
            &&& r@.len() == pkgs@.len() + 1
            &&& r@[0]@ == "Basket ("@ + dec(pkgs@.len()) + "):"@
            &&& forall|i: int|
                0 <= i < pkgs@.len() ==> (#[trigger] r@[i + 1])@ == staged_line(pkgs@[i]@)
        },
{
    let mut r: Vec<String> = Vec::new();
    if pkgs.len() == 0 {
        r.push(String::from_str("Basket is empty. Use `nixpick add <query>` to stage packages."));
        return r;
    }
    let mut head = String::from_str("Basket (");
    let n = decimal(pkgs.len() as u64);
    head.append(n.as_str());
    head.append("):");
    r.push(head);
    let mut i: usize = 0;
    while i < pkgs.len()
        invariant
            i <= pkgs@.len(),
            r@.len() == i + 1,
            r@[0]@ == "Basket ("@ + dec(pkgs@.len()) + "):"@,
            forall|j: int| 0 <= j < i ==> (#[trigger] r@[j + 1])@ == staged_line(pkgs@[j]@),
        decreases pkgs@.len() - i,
    {
        let mut line = String::from_str("  • ");
        let name = pad_right(pkgs[i].attr_name.as_str(), 32);
        line.append(name.as_str());
        line.append(" ");
        line.append(pkgs[i].version.as_str());
        r.push(line);
        i = i + 1;
    }
    r
}

/// The line that unstaging `attr` prints, when some were removed and
/// `remaining` packages stay, or when none had that name.
pub fn remove_report(attr: &str, removed: bool, remaining: usize) -> (r: String)
    ensures
        removed ==> r@ == "Removed "@ + attr@ + " from basket ("@ + dec(remaining as nat)
            + " remain)."@,
        !removed ==> r@ == attr@ + " not in basket."@,
{
    if removed {
        let mut r = String::from_str("Removed ");
        r.append(attr);
        r.append(" from basket (");
        let n = decimal(remaining as u64);
        r.append(n.as_str());
        r.append(" remain).");
        r
    } else {
        let mut r = String::from_str(attr);
        r.append(" not in basket.");
        r
    }
}

/// The packages a flake is written from: the named attributes, or, when none
/// is named, the staged packages, which must not be none.
pub fn generate_packages(attrs: Vec<String>, staged: Vec<Package>) -> (r: Result<
    Vec<Package>,
    String,
>)
    ensures
        attrs@.len() > 0 ==> (r matches Ok(ps) && ps@.len() == attrs@.len() && forall|i: int|
            0 <= i < attrs@.len() ==> (#[trigger] ps@[i]).attr_name == attrs@[i]
                && ps@[i].version@.len() == 0 && ps@[i].description@.len() == 0),
        attrs@.len() == 0 && staged@.len() > 0 ==> r == Ok::<Vec<Package>, String>(staged),
        attrs@.len() == 0 && staged@.len() == 0 ==> (r matches Err(e) && e@
            == "basket is empty — use `nixpick add <query>` first, or pass attrs: `nixpick generate ripgrep fd`"@),
{
    if attrs.len() == 0 {
        if staged.len() == 0 {
            return Err(
                String::from_str(
                    "basket is empty — use `nixpick add <query>` first, or pass attrs: `nixpick generate ripgrep fd`",
                ),
            );
        }
        return Ok(staged);
    }
    let ghost names = attrs@;
    let mut rest = attrs;
    let mut rev: Vec<Package> = Vec::new();
    while rest.len() > 0
        invariant
            names.len() == rest@.len() + rev@.len(),
            rest@ == names.take(rest@.len() as int),
            forall|i: int|
                0 <= i < rev@.len() ==> (#[trigger] rev@[i]).attr_name == names[names.len() - 1 - i]
                    && rev@[i].version@.len() == 0 && rev@[i].description@.len() == 0,
        decreases rest.len(),
    {
        let a = rest.pop().unwrap();
        assert(names.take(rest@.len() as int) =~= names.take((rest@.len() + 1) as int).drop_last());
        rev.push(Package { attr_name: a, version: String::new(), description: String::new() });
    }
    let mut out: Vec<Package> = Vec::new();
    while rev.len() > 0
        invariant
            names.len() == out@.len() + rev@.len(),
            forall|i: int|
                0 <= i < rev@.len() ==> (#[trigger] rev@[i]).attr_name == names[names.len() - 1 - i]
                    && rev@[i].version@.len() == 0 && rev@[i].description@.len() == 0,
            forall|i: int|
                0 <= i < out@.len() ==> (#[trigger] out@[i]).attr_name == names[i]
                    && out@[i].version@.len() == 0 && out@[i].description@.len() == 0,
        decreases rev.len(),
    {
        let p = rev.pop().unwrap();
        out.push(p);
    }
    Ok(out)
}

/// The line reporting a written flake: how many packages, where, and whether
/// `direnv allow` ran (else what came of it).
pub open spec fn generated_line(
    count: nat,
    flake_path: Seq<char>,
    direnv_allowed: bool,
    direnv_message: Seq<char>,
) -> Seq<char> {
    "Wrote "@ + dec(count) + " packages to "@ + flake_path + " · "@ + if direnv_allowed {
        "direnv allow ✓"@
    } else {
        direnv_message
    }
}

/// The line reporting a written flake.
pub fn generate_report(
    count: usize,
    flake_path: &str,
    direnv_allowed: bool,
    direnv_message: &str,
) -> (r: String)
    ensures
        r@ == generated_line(count as nat, flake_path@, direnv_allowed, direnv_message@),
{
    let mut r = String::from_str("Wrote ");
    let n = decimal(count as u64);
    r.append(n.as_str());
    r.append(" packages to ");
    r.append(flake_path);
    r.append(" · ");
    if direnv_allowed {
        r.append("direnv allow ✓");
    } else {
        r.append(direnv_message);
    }
    r
}

} // verus!

verus! {

/// No two entries of the list have the same attribute name.
pub open spec fn distinct_names(s: Seq<PackageView>) -> bool {
    forall|i: int, j: int|
        0 <= i < s.len() && 0 <= j < s.len() && i != j ==> (#[trigger] s[i]).attr_name != (
        #[trigger] s[j]).attr_name
}

/// Repeated adds build up a set: when a basket file holds each name once,
/// appending a package that `add_step` appends (one whose name the file
/// does not hold) leaves the file holding each name once.
pub proof fn lemma_add_stages_each_name_once(text: Seq<char>, p: PackageView)
    requires
        crate::basket::storable(p),
        distinct_names(crate::basket::basket_entries(text)),
        forall|i: int|
            0 <= i < crate::basket::basket_entries(text).len() ==> (
            #[trigger] crate::basket::basket_entries(text)[i]).attr_name != p.attr_name,
    ensures
        distinct_names(crate::basket::basket_entries(crate::basket::with_entry(text, p))),
{
    let before = crate::basket::basket_entries(text);
    crate::basket::lemma_with_entry(text, p);
    let after = crate::basket::basket_entries(crate::basket::with_entry(text, p));
    assert(after == before.push(crate::basket::stored(p)));
    assert forall|i: int, j: int|
        0 <= i < after.len() && 0 <= j < after.len() && i != j implies (#[trigger] after[i]).attr_name
        != (#[trigger] after[j]).attr_name by {
        if i < before.len() {
            assert(after[i] == before[i]);
        }
        if j < before.len() {
            assert(after[j] == before[j]);
        }
    }
}

} // verus!
