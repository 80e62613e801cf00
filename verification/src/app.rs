//! State of the interactive picker: the query, the results of the last
//! search, the basket of picked packages, which pane has focus, and the line
//! of status text.

use std::path::PathBuf;
use vstd::prelude::*;
use crate::package::{Package, has_attr, contains_attr, first_attr_at, position_of_attr};
use crate::text::{blank, dec, decimal, is_blank};

verus! {

/// `std::path::PathBuf`, carried through the picker state as an opaque
/// value: nothing of its contents is read or claimed.
#[verifier::external_type_specification]
#[verifier::external_body]
pub struct ExPathBuf(PathBuf);

/// The pane that keys act on.
#[derive(Debug, Clone, Copy, PartialEq, Eq, Structural)]
pub enum Focus {
    Search,
    Results,
    Basket,
}

/// What the status line reports.
#[derive(Debug, Clone, Copy, PartialEq, Eq, Structural)]
pub enum StatusKind {
    Info,
    Success,
    Error,
    Searching,
}

/// The status line: its kind and its text.
#[derive(Debug, Clone)]
pub struct Status {
    pub kind: StatusKind,
    pub message: String,
}

/// The picker's whole state.
pub struct App {
    pub query: String,
    pub results: Vec<Package>,
    pub result_cursor: usize,
    pub basket: Vec<Package>,
    pub basket_cursor: usize,
    pub focus: Focus,
    pub channel: String,
    pub total_hits: u64,
    pub last_search_ms: u64,
    pub status: Status,
    pub show_help: bool,
    pub target_dir: PathBuf,
    pub should_quit: bool,
    pub pending_query: Option<String>,
    pub search_generation: u64,
}

/// The status text while nothing else is to be said.
pub open spec fn idle_message() -> Seq<char> {
    "Type to search nixpkgs · Space: toggle basket · g: generate"@
}

/// The status text while a search for `q` runs.
pub open spec fn searching_message(q: Seq<char>) -> Seq<char> {
    "Searching '"@ + q + "'…"@
}

/// The status text once `n` of `total` results came back after `ms`
/// milliseconds on `channel`.
pub open spec fn results_message(n: nat, total: nat, ms: nat, channel: Seq<char>) -> Seq<char> {
    dec(n) + " of "@ + dec(total) + " results · "@ + dec(ms) + "ms · channel: "@ + channel
}

/// A cursor kept inside a list of `len` entries: past the end it moves to the
/// last entry, or to 0 when the list is empty.
pub open spec fn clamp_cursor(c: usize, len: nat) -> usize {
    if c >= len {
        if len == 0 {
            0
        } else {
            (len - 1) as usize
        }
    } else {
        c
    }
}

/// The next search generation; it wraps around after the largest.
pub open spec fn next_generation(g: u64) -> u64 {
    if g == u64::MAX {
        0
    } else {
        (g + 1) as u64
    }
}

/// `b` is `a` with only its status changed, to the given kind and text.
pub open spec fn status_set(a: App, b: App, kind: StatusKind, msg: Seq<char>) -> bool {
    &&& b.status.kind == kind
    &&& b.status.message@ == msg
    &&& b == (App { status: b.status, ..a })
}

/// `b` is `a` once a search for `a`'s query is requested: a new generation,
/// the query pending, and for a blank query the results emptied.
pub open spec fn search_requested(a: App, b: App) -> bool {
    &&& b.search_generation == next_generation(a.search_generation)
    &&& b.pending_query == Some(a.query)
    &&& if blank(a.query@) {
        &&& b.results@ == Seq::<Package>::empty()
        &&& b.total_hits == 0
        &&& b.status.kind == StatusKind::Info
        &&& b.status.message@ == idle_message()
    } else {
        &&& b.results == a.results
        &&& b.total_hits == a.total_hits
        &&& b.status.kind == StatusKind::Searching
        &&& b.status.message@ == searching_message(a.query@)
    }
    &&& b == (App {
        search_generation: b.search_generation,
        pending_query: b.pending_query,
        results: b.results,
        total_hits: b.total_hits,
        status: b.status,
        ..a
    })
}

/// The cursor after moving by `delta` through a ring of `len` entries; the
/// cursor is read as a signed number, so one past `isize::MAX` counts as
/// negative, as a wrapping `as isize` cast reads it.
pub open spec fn ring_step(cursor: usize, delta: isize, len: nat) -> usize {
    (((cursor as isize) + delta) % (len as int)) as usize
}

/// The signed cursor plus `delta` is computed without overflow, and the list
/// length fits a signed number (no list in memory is longer).
pub open spec fn step_in_range(cursor: usize, delta: isize, len: nat) -> bool {
    &&& len <= isize::MAX
    &&& isize::MIN <= (cursor as isize) + delta <= isize::MAX
}

proof fn lemma_negative_mod(s: int, len: int)
    requires
        len > 0,
        s < 0,
    ensures
        ({
            let m = (-s) % len;
            s % len == if m == 0 {
                0
            } else {
                len - m
            }
        }),
{
    let q = (-s) / len;
    let m = (-s) % len;
    vstd::arithmetic::div_mod::lemma_fundamental_div_mod(-s, len);
    assert(-s == len * q + m);
    assert(0 <= m < len) by {
        vstd::arithmetic::div_mod::lemma_mod_bound(-s, len);
    }
    if m == 0 {
        assert(s == (-q) * len + 0) by (nonlinear_arith)
            requires
                -s == len * q + m,
                m == 0,
        ;
        vstd::arithmetic::div_mod::lemma_fundamental_div_mod_converse(s, len, -q, 0);
    } else {
        assert(s == (-q - 1) * len + (len - m)) by (nonlinear_arith)
            requires
                -s == len * q + m,
        ;
        vstd::arithmetic::div_mod::lemma_fundamental_div_mod_converse(s, len, -q - 1, len - m);
    }
}

/// `cursor + delta` taken around a ring of `len` entries.
fn ring_move(cursor: usize, delta: isize, len: usize) -> (r: usize)
    requires
        len > 0,
        step_in_range(cursor, delta, len as nat),
    ensures
        r == ring_step(cursor, delta, len as nat),
        r < len,
{
    #[verifier::truncate]
    let signed: isize = cursor as isize;
    let sum: i128 = signed as i128 + delta as i128;
    let n: i128 = len as i128;
    if sum >= 0 {
        let r = (sum as u128 % n as u128) as usize;
        assert(r == sum % n);
        r
    } else {
        let m = ((-sum) as u128 % n as u128) as i128;
        proof {
            lemma_negative_mod(sum as int, n as int);
        }
        if m == 0 {
            0
        } else {
            (n - m) as usize
        }
    }
}

impl App {
    /// A fresh picker for `target_dir` on `channel`: empty query, results and
    /// basket, focus on the search input.
    pub fn new(target_dir: PathBuf, channel: String) -> (app: App)
        ensures
            app.query@ == Seq::<char>::empty(),
            app.results@ == Seq::<Package>::empty(),
            app.result_cursor == 0,
            app.basket@ == Seq::<Package>::empty(),
            app.basket_cursor == 0,
            app.focus == Focus::Search,
            app.channel == channel,
            app.total_hits == 0,
            app.last_search_ms == 0,
            app.status.kind == StatusKind::Info,
            app.status.message@ == idle_message(),
            !app.show_help,
            app.target_dir == target_dir,
            !app.should_quit,
            app.pending_query.is_none(),
            app.search_generation == 0,
    {
        App {
            query: String::new(),
            results: Vec::new(),
            result_cursor: 0,
            basket: Vec::new(),
            basket_cursor: 0,
            focus: Focus::Search,
            channel,
            total_hits: 0,
            last_search_ms: 0,
            status: Status { kind: StatusKind::Info, message: idle_text() },
            show_help: false,
            target_dir,
            should_quit: false,
            pending_query: None,
            search_generation: 0,
        }
    }

    /// Reports that a search for the current query runs.
    pub fn set_searching(&mut self)
        ensures
            status_set(*old(self), *final(self), StatusKind::Searching, searching_message(old(self).query@)),
    {
        let mut msg = String::from_str("Searching '");
        msg.append(self.query.as_str());
        msg.append("'…");
        self.status = Status { kind: StatusKind::Searching, message: msg };
    }

    /// Takes the results of a search; results of any search but the latest
    /// requested are dropped.
    pub fn apply_results(
        &mut self,
        packages: Vec<Package>,
        elapsed_ms: u64,
        total: u64,
        generation: u64,
    )
        ensures
            generation != old(self).search_generation ==> *final(self) == *old(self),
            generation == old(self).search_generation ==> {
                &&& final(self).results == packages
                &&& final(self).total_hits == total
                &&& final(self).last_search_ms == elapsed_ms
                &&& final(self).result_cursor == clamp_cursor(
                    old(self).result_cursor,
                    packages@.len(),
                )
                &&& final(self).status.kind == StatusKind::Info
                &&& final(self).status.message@ == results_message(
                    packages@.len(),
                    total as nat,
                    elapsed_ms as nat,
                    old(self).channel@,
                )
                &&& *final(self) == (App {
                    results: final(self).results,
                    total_hits: total,
                    last_search_ms: elapsed_ms,
                    result_cursor: final(self).result_cursor,
                    status: final(self).status,
                    ..*old(self)
                })
            },
    {
        if generation != self.search_generation {
            return;
        }
        self.results = packages;
        self.total_hits = total;
        self.last_search_ms = elapsed_ms;
        if self.result_cursor >= self.results.len() {
            self.result_cursor = if self.results.len() == 0 {
                0
            } else {
                self.results.len() - 1
            };
        }
        let mut msg = decimal(self.results.len() as u64);
        msg.append(" of ");
        let t = decimal(self.total_hits);
        msg.append(t.as_str());
        msg.append(" results · ");
        let ms = decimal(self.last_search_ms);
        msg.append(ms.as_str());
        msg.append("ms · channel: ");
        msg.append(self.channel.as_str());
        self.status = Status { kind: StatusKind::Info, message: msg };
    }

    /// Reports an error.
    pub fn set_error(&mut self, msg: String)
        ensures
            status_set(*old(self), *final(self), StatusKind::Error, msg@),
    {
        self.status = Status { kind: StatusKind::Error, message: msg };
    }

    /// Reports a success.
    pub fn set_ok(&mut self, msg: String)
        ensures
            status_set(*old(self), *final(self), StatusKind::Success, msg@),
    {
        self.status = Status { kind: StatusKind::Success, message: msg };
    }

    /// Asks for a search of the current query under a new generation; a
    /// blank query clears the results at once.
    pub fn request_search(&mut self)
        ensures
            search_requested(*old(self), *final(self)),
    {
        self.search_generation = if self.search_generation == u64::MAX {
            0
        } else {
            self.search_generation + 1
        };
        self.pending_query = Some(self.query.clone());
        if is_blank(self.query.as_str()) {
            self.results.clear();
            self.total_hits = 0;
            self.status = Status { kind: StatusKind::Info, message: idle_text() };
        } else {
            self.set_searching();
        }
    }

    /// Moves the cursor of the focused list by `delta`, around its ends.
    pub fn move_cursor(&mut self, delta: isize)
        requires
            old(self).focus == Focus::Results && old(self).results@.len() > 0 ==> step_in_range(
                old(self).result_cursor,
                delta,
                old(self).results@.len(),
            ),
            old(self).focus == Focus::Basket && old(self).basket@.len() > 0 ==> step_in_range(
                old(self).basket_cursor,
                delta,
                old(self).basket@.len(),
            ),
        ensures
            old(self).focus == Focus::Results && old(self).results@.len() > 0 ==> *final(self) == (
            App {
                result_cursor: ring_step(old(self).result_cursor, delta, old(self).results@.len()),
                ..*old(self)
            }),
            old(self).focus == Focus::Basket && old(self).basket@.len() > 0 ==> *final(self) == (
            App {
                basket_cursor: ring_step(old(self).basket_cursor, delta, old(self).basket@.len()),
                ..*old(self)
            }),
            !(old(self).focus == Focus::Results && old(self).results@.len() > 0) && !(old(
                self,
            ).focus == Focus::Basket && old(self).basket@.len() > 0) ==> *final(self) == *old(
                self,
            ),
    {
        match self.focus {
            Focus::Results => {
                if self.results.len() > 0 {
                    self.result_cursor = ring_move(self.result_cursor, delta, self.results.len());
                }
            },
            Focus::Basket => {
                if self.basket.len() > 0 {
                    self.basket_cursor = ring_move(self.basket_cursor, delta, self.basket.len());
                }
            },
            Focus::Search => {},
        }
    }

    /// Moves focus on: search to results, results to basket, basket to
    /// search, passing over an empty list.
    pub fn cycle_focus(&mut self)
        ensures
            *final(self) == (App { focus: final(self).focus, ..*old(self) }),
            final(self).focus == next_focus(
                old(self).focus,
                old(self).results@.len() > 0,
                old(self).basket@.len() > 0,
            ),
    {
        self.focus = match self.focus {
            Focus::Search => {
                if self.results.len() > 0 {
                    Focus::Results
                } else if self.basket.len() > 0 {
                    Focus::Basket
                } else {
                    Focus::Search
                }
            },
            Focus::Results => {
                if self.basket.len() > 0 {
                    Focus::Basket
                } else {
                    Focus::Search
                }
            },
            Focus::Basket => Focus::Search,
        };
    }

    /// Adds the package under the results cursor to the basket, or takes it
    /// out when one of that name is there; in the basket pane, takes out the
    /// package under the cursor.
    pub fn toggle_selected(&mut self)
        ensures
            old(self).focus == Focus::Results && old(self).result_cursor < old(self).results@.len()
                ==> toggled_result(*old(self), *final(self)),
            old(self).focus == Focus::Basket && old(self).basket_cursor < old(self).basket@.len()
                ==> removed_at(*old(self), *final(self), old(self).basket_cursor as int),
            !(old(self).focus == Focus::Results && old(self).result_cursor < old(
                self,
            ).results@.len()) && !(old(self).focus == Focus::Basket && old(self).basket_cursor < old(
                self,
            ).basket@.len()) ==> *final(self) == *old(self),
    {
        let ghost before = *self;
        match self.focus {
            Focus::Results => {
                if self.result_cursor < self.results.len() {
                    let pkg = self.results[self.result_cursor].duplicate();
                    match position_of_attr(&self.basket, &pkg.attr_name) {
                        Some(idx) => {
                            self.basket.remove(idx);
                            if self.basket_cursor >= self.basket.len() {
                                self.basket_cursor = if self.basket.len() == 0 {
                                    0
                                } else {
                                    self.basket.len() - 1
                                };
                            }
                            let mut msg = String::from_str("Removed ");
                            msg.append(pkg.attr_name.as_str());
                            self.set_ok(msg);
                            assert(removed_at(before, *self, idx as int));
                        },
                        None => {
                            let mut msg = String::from_str("Added ");
                            msg.append(pkg.attr_name.as_str());
                            self.basket.push(pkg);
                            self.set_ok(msg);
                        },
                    }
                }
            },
            Focus::Basket => {
                if self.basket_cursor < self.basket.len() {
                    let name = self.basket[self.basket_cursor].attr_name.clone();
                    self.basket.remove(self.basket_cursor);
                    if self.basket_cursor >= self.basket.len() {
                        self.basket_cursor = if self.basket.len() == 0 {
                            0
                        } else {
                            self.basket.len() - 1
                        };
                    }
                    let mut msg = String::from_str("Removed ");
                    msg.append(name.as_str());
                    self.set_ok(msg);
                }
            },
            Focus::Search => {},
        }
    }

    /// Takes the pending query to search for, with the generation its results
    /// will carry, and reports the search as running; nothing is searched
    /// when no query is pending or it is blank.
    pub fn take_search_request(&mut self) -> (r: Option<(String, u64)>)
        ensures
            match old(self).pending_query {
                None => r.is_none() && *final(self) == *old(self),
                Some(q) => if blank(q@) {
                    r.is_none() && *final(self) == (App { pending_query: None, ..*old(self) })
                } else {
                    &&& r == Some((q, old(self).search_generation))
                    &&& status_set(
                        App { pending_query: None, ..*old(self) },
                        *final(self),
                        StatusKind::Searching,
                        searching_message(old(self).query@),
                    )
                },
            },
    {
        let pending = self.pending_query.take();
        match pending {
            None => None,
            Some(q) => {
                if is_blank(q.as_str()) {
                    return None;
                }
                let generation = self.search_generation;
                self.set_searching();
                Some((q, generation))
            },
        }
    }

    /// Reports the failure of the search of generation `generation`, unless a
    /// later search was requested since.
    pub fn apply_search_error(&mut self, generation: u64, error: String)
        ensures
            generation == old(self).search_generation ==> status_set(
                *old(self),
                *final(self),
                StatusKind::Error,
                error@,
            ),
            generation != old(self).search_generation ==> *final(self) == *old(self),
    {
        if generation == self.search_generation {
            self.set_error(error);
        }
    }

    /// Whether a package named `attr` is in the basket.
    pub fn is_in_basket(&self, attr: &str) -> (b: bool)
        ensures
            b == has_attr(self.basket@, attr@),
    {
        contains_attr(&self.basket, attr)
    }
}

/// `b` is `a` once the basket entry at `i` is taken out: the basket cursor
/// kept inside the basket, and the status naming the package.
pub open spec fn removed_at(a: App, b: App, i: int) -> bool {
    &&& 0 <= i < a.basket@.len()
    &&& b.basket@ == a.basket@.remove(i)
    &&& b.basket_cursor == clamp_cursor(a.basket_cursor, (a.basket@.len() - 1) as nat)
    &&& b.status.kind == StatusKind::Success
    &&& b.status.message@ == "Removed "@ + a.basket@[i].attr_name@
    &&& b == (App { basket: b.basket, basket_cursor: b.basket_cursor, status: b.status, ..a })
}

/// `b` is `a` once the package under the results cursor is toggled: taken
/// out of the basket at its first entry of that name, or added at its end.
pub open spec fn toggled_result(a: App, b: App) -> bool {
    let pkg = a.results@[a.result_cursor as int];
    if has_attr(a.basket@, pkg.attr_name@) {
        exists|i: int| first_attr_at(a.basket@, pkg.attr_name@, i) && removed_at(a, b, i)
    } else {
        &&& b.basket@ == a.basket@.push(pkg)
        &&& b.status.kind == StatusKind::Success
        &&& b.status.message@ == "Added "@ + pkg.attr_name@
        &&& b == (App { basket: b.basket, status: b.status, ..a })
    }
}

/// The pane that takes focus after `f`.
pub open spec fn next_focus(f: Focus, has_results: bool, has_basket: bool) -> Focus {
    match f {
        Focus::Search => if has_results {
            Focus::Results
        } else if has_basket {
            Focus::Basket
        } else {
            Focus::Search
        },
        Focus::Results => if has_basket {
            Focus::Basket
        } else {
            Focus::Search
        },
        Focus::Basket => Focus::Search,
    }
}

/// How long the query has to stay unchanged before it is searched.
pub const DEBOUNCE_MS: u64 = 280;

/// Whether an edited query is due to be searched: it changed, and has stayed
/// unchanged for `quiet_ms` milliseconds, at least the debounce delay.
pub fn search_due(dirty: bool, quiet_ms: u64) -> (b: bool)
    ensures
        b == (dirty && quiet_ms >= DEBOUNCE_MS),
{
    dirty && quiet_ms >= DEBOUNCE_MS
}

fn idle_text() -> (s: String)
    ensures
        s@ == idle_message(),
{
    String::from_str("Type to search nixpkgs · Space: toggle basket · g: generate")
}

} // verus!

verus! {

/// No two packages of the list have the same attribute name.
pub open spec fn distinct_attrs(s: Seq<Package>) -> bool {
    forall|i: int, j: int|
        0 <= i < s.len() && 0 <= j < s.len() && i != j ==> (#[trigger] s[i]).attr_name@ != (
        #[trigger] s[j]).attr_name@
}

/// A new search request outdates every earlier one: results that carry the
/// generation from before the request are dropped.
pub proof fn lemma_request_outdates_results(a: App, b: App)
    requires
        search_requested(a, b),
    ensures
        b.search_generation != a.search_generation,
        a.search_generation < u64::MAX ==> b.search_generation == a.search_generation + 1,
        a.search_generation == u64::MAX ==> b.search_generation == 0,
        b.pending_query == Some(a.query),
        b.query == a.query,
        b.basket == a.basket,
        b.focus == a.focus,
{
}

/// A cursor kept by `clamp_cursor` points into its list, unless that is
/// empty.
pub proof fn lemma_clamp_in_range(c: usize, len: nat)
    ensures
        clamp_cursor(c, len) < len || (len == 0 && clamp_cursor(c, len) == 0),
        c < len ==> clamp_cursor(c, len) == c,
        c >= len && len > 0 ==> clamp_cursor(c, len) == len - 1,
{
}

/// A cursor moved around a non-empty list stays inside it.
pub proof fn lemma_ring_step_in_range(cursor: usize, delta: isize, len: nat)
    requires
        len > 0,
        step_in_range(cursor, delta, len),
    ensures
        ring_step(cursor, delta, len) < len,
{
    vstd::arithmetic::div_mod::lemma_mod_bound((cursor as isize) + delta, len as int);
}

/// Inside a list, one step down moves to the next entry and wraps from the
/// last to the first; one step up moves to the previous entry and wraps from
/// the first to the last.
pub proof fn lemma_ring_neighbours(cursor: usize, len: nat)
    requires
        cursor < len,
        len <= isize::MAX,
    ensures
        ring_step(cursor, 1isize, len) == if cursor + 1 == len {
            0
        } else {
            cursor + 1
        },
        ring_step(cursor, -1isize, len) == if cursor == 0 {
            len - 1
        } else {
            cursor - 1
        },
{
    assert((cursor as isize) as int == cursor as int);
    let up = cursor + 1;
    if up == len {
        vstd::arithmetic::div_mod::lemma_fundamental_div_mod_converse(up, len as int, 1, 0);
    } else {
        vstd::arithmetic::div_mod::lemma_fundamental_div_mod_converse(up, len as int, 0, up);
    }
    let down = cursor - 1;
    if cursor == 0 {
        vstd::arithmetic::div_mod::lemma_fundamental_div_mod_converse(down, len as int, -1, len - 1);
    } else {
        vstd::arithmetic::div_mod::lemma_fundamental_div_mod_converse(down, len as int, 0, down);
    }
}

/// Toggling the package under the results cursor: when the basket holds no
/// package of its name it is appended at the end and the status says
/// "Added" and its name; otherwise the first package of that name leaves the
/// basket, the others stay in order, and the status says "Removed" and its
/// name. Results, query and focus do not change.
pub proof fn lemma_toggle_result(a: App, b: App)
    requires
        a.focus == Focus::Results,
        a.result_cursor < a.results@.len(),
        toggled_result(a, b),
    ensures
        ({
            let pkg = a.results@[a.result_cursor as int];
            &&& b.results == a.results
            &&& b.query == a.query
            &&& b.focus == a.focus
            &&& b.status.kind == StatusKind::Success
            &&& !has_attr(a.basket@, pkg.attr_name@) ==> {
                &&& b.basket@ == a.basket@.push(pkg)
                &&& b.status.message@ == "Added "@ + pkg.attr_name@
                &&& has_attr(b.basket@, pkg.attr_name@)
            }
            &&& has_attr(a.basket@, pkg.attr_name@) ==> exists|i: int|
                0 <= i < a.basket@.len() && (#[trigger] a.basket@[i]).attr_name@ == pkg.attr_name@
                    && (forall|j: int|
                    0 <= j < i ==> (#[trigger] a.basket@[j]).attr_name@ != pkg.attr_name@)
                    && b.basket@ == a.basket@.remove(i) && b.status.message@ == "Removed "@
                    + pkg.attr_name@
        }),
{
    let pkg = a.results@[a.result_cursor as int];
    if !has_attr(a.basket@, pkg.attr_name@) {
        assert(b.basket@[a.basket@.len() as int] == pkg);
    }
}

/// Taking the entry at `i` out of a list without repeated names leaves one
/// without repeated names.
proof fn lemma_remove_keeps_distinct(s: Seq<Package>, i: int)
    requires
        distinct_attrs(s),
        0 <= i < s.len(),
    ensures
        distinct_attrs(s.remove(i)),
{
    let r = s.remove(i);
    assert forall|x: int, y: int|
        0 <= x < r.len() && 0 <= y < r.len() && x != y implies (#[trigger] r[x]).attr_name@ != (
        #[trigger] r[y]).attr_name@ by {
        let sx = if x < i {
            x
        } else {
            x + 1
        };
        let sy = if y < i {
            y
        } else {
            y + 1
        };
        assert(r[x] == s[sx]);
        assert(r[y] == s[sy]);
    }
}

/// Toggling a selection never puts a second package of one name in the
/// basket.
pub proof fn lemma_toggle_keeps_names_distinct(a: App, b: App)
    requires
        distinct_attrs(a.basket@),
        a.focus == Focus::Results && a.result_cursor < a.results@.len() ==> toggled_result(a, b),
        a.focus == Focus::Basket && a.basket_cursor < a.basket@.len() ==> removed_at(
            a,
            b,
            a.basket_cursor as int,
        ),
        !(a.focus == Focus::Results && a.result_cursor < a.results@.len()) && !(a.focus
            == Focus::Basket && a.basket_cursor < a.basket@.len()) ==> b == a,
    ensures
        distinct_attrs(b.basket@),
{
    if a.focus == Focus::Results && a.result_cursor < a.results@.len() {
        let pkg = a.results@[a.result_cursor as int];
        if has_attr(a.basket@, pkg.attr_name@) {
            let i = choose|i: int| first_attr_at(a.basket@, pkg.attr_name@, i) && removed_at(a, b, i);
            lemma_remove_keeps_distinct(a.basket@, i);
        } else {
            let s = b.basket@;
            assert forall|x: int, y: int|
                0 <= x < s.len() && 0 <= y < s.len() && x != y implies (#[trigger] s[x]).attr_name@
                != (#[trigger] s[y]).attr_name@ by {
                if x == a.basket@.len() as int {
                    assert(a.basket@[y] == s[y]);
                } else if y == a.basket@.len() as int {
                    assert(a.basket@[x] == s[x]);
                } else {
                    assert(a.basket@[x] == s[x]);
                    assert(a.basket@[y] == s[y]);
                }
            }
        }
    } else if a.focus == Focus::Basket && a.basket_cursor < a.basket@.len() {
        lemma_remove_keeps_distinct(a.basket@, a.basket_cursor as int);
    }
}

/// Toggling the package under the results cursor twice, when the basket did
/// not hold it, leaves the basket as it was.
pub proof fn lemma_toggle_twice_restores(a: App, b: App, c: App)
    requires
        a.focus == Focus::Results,
        a.result_cursor < a.results@.len(),
        !has_attr(a.basket@, a.results@[a.result_cursor as int].attr_name@),
        toggled_result(a, b),
        toggled_result(b, c),
    ensures
        c.basket@ == a.basket@,
        c.results == a.results,
        c.result_cursor == a.result_cursor,
{
    let pkg = a.results@[a.result_cursor as int];
    let n = a.basket@.len() as int;
    assert(b.basket@ == a.basket@.push(pkg));
    assert(b.results == a.results && b.result_cursor == a.result_cursor);
    assert(b.basket@[n] == pkg);
    assert(has_attr(b.basket@, pkg.attr_name@));
    let i = choose|i: int| first_attr_at(b.basket@, pkg.attr_name@, i) && removed_at(b, c, i);
    if i < n {
        assert(b.basket@[i] == a.basket@[i]);
    }
    assert(i == n);
    assert(c.basket@ =~= a.basket@);
}

} // verus!

verus! {

/// Tab follows search → results → basket → search, passing over an empty
/// list: from the search box it reaches results when there are some, else
/// the basket when it holds some, so focus never stays on the search box
/// while a list has entries; from the results it reaches the basket when it
/// holds some, else the search box; from the basket it goes back to search.
pub proof fn lemma_focus_cycle(a: App, b: App)
    requires
        b == (App { focus: b.focus, ..a }),
        b.focus == next_focus(a.focus, a.results@.len() > 0, a.basket@.len() > 0),
    ensures
        a.focus == Focus::Search && a.results@.len() > 0 ==> b.focus == Focus::Results,
        a.focus == Focus::Search && a.results@.len() == 0 && a.basket@.len() > 0 ==> b.focus
            == Focus::Basket,
        a.focus == Focus::Search && (a.results@.len() > 0 || a.basket@.len() > 0) ==> b.focus
            != Focus::Search,
        a.focus == Focus::Results && a.basket@.len() > 0 ==> b.focus == Focus::Basket,
        a.focus == Focus::Results && a.basket@.len() == 0 ==> b.focus == Focus::Search,
        a.focus == Focus::Basket ==> b.focus == Focus::Search,
        a.results@.len() == 0 && a.basket@.len() == 0 ==> b.focus == Focus::Search,
{
}

} // verus!
