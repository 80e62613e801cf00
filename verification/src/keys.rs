//! What each key does to the picker, and the decisions around running a
//! search: the debounce rule, starting a requested search, taking a failure.

use vstd::prelude::*;
use crate::app::{
    App, Focus, StatusKind, search_requested, ring_step, step_in_range, next_focus,
    toggled_result, removed_at,
};
use crate::text::{blank, is_blank};

verus! {

/// `String::push` of std: appends the character to the end of the string,
/// as its documentation says; nothing else of the string changes.
pub assume_specification[ String::push ](s: &mut String, ch: char)
    ensures
        final(s)@ == old(s)@.push(ch),
;

/// A key press, as far as the picker tells keys apart.
#[derive(Debug, Clone, Copy, PartialEq, Eq, Structural)]
pub enum Key {
    Char(char),
    Esc,
    Tab,
    Backspace,
    Enter,
    Up,
    Down,
    Delete,
    Other,
}

/// What the caller has to do after a key: nothing, restart the debounce
/// delay for an edited query, search at once, write the flake (`force`
/// overwrites existing files), or take over the new channel.
#[derive(Debug, Clone, Copy, PartialEq, Eq, Structural)]
pub enum KeyOutcome {
    Nothing,
    QueryEdited,
    SearchNow,
    Generate { force: bool },
    ChannelChanged,
}

/// The channel that follows `c`: unstable, 25.11, 24.11, then unstable again.
pub open spec fn next_channel(c: Seq<char>) -> Seq<char> {
    if c == "unstable"@ {
        "25.11"@
    } else if c == "25.11"@ {
        "24.11"@
    } else {
        "unstable"@
    }
}

/// `b` is `a` once the channel moved on: reported, and a non-blank query
/// searched again.
pub open spec fn channel_cycled(a: App, b: App) -> bool {
    let next = next_channel(a.channel@);
    &&& b.channel@ == next
    &&& if blank(a.query@) {
        &&& b.status.kind == StatusKind::Success
        &&& b.status.message@ == "Channel → "@ + next
        &&& b == (App { channel: b.channel, status: b.status, ..a })
    } else {
        search_requested(App { channel: b.channel, status: b.status, ..a }, b)
    }
}

/// The cursor of the focused list can move by `delta` without overflow.
pub open spec fn move_fits(a: App, delta: isize) -> bool {
    &&& a.focus == Focus::Results && a.results@.len() > 0 ==> step_in_range(
        a.result_cursor,
        delta,
        a.results@.len(),
    )
    &&& a.focus == Focus::Basket && a.basket@.len() > 0 ==> step_in_range(
        a.basket_cursor,
        delta,
        a.basket@.len(),
    )
}

/// `key` moves the cursor of a list pane of `a`.
pub open spec fn is_move_key(a: App, key: Key) -> bool {
    &&& !a.show_help
    &&& a.focus != Focus::Search
    &&& (key == Key::Char('j') || key == Key::Down || key == Key::Char('k') || key == Key::Up)
}

/// The step by which a move key moves the cursor.
pub open spec fn move_delta(key: Key) -> isize {
    if key == Key::Char('j') || key == Key::Down {
        1isize
    } else {
        -1isize
    }
}

/// `b` is `a` with the cursor of the focused list moved by `delta`.
pub open spec fn cursor_moved(a: App, b: App, delta: isize) -> bool {
    if a.focus == Focus::Results && a.results@.len() > 0 {
        b == (App { result_cursor: ring_step(a.result_cursor, delta, a.results@.len()), ..a })
    } else if a.focus == Focus::Basket && a.basket@.len() > 0 {
        b == (App { basket_cursor: ring_step(a.basket_cursor, delta, a.basket@.len()), ..a })
    } else {
        b == a
    }
}

/// `b` is `a` with the selected package toggled.
pub open spec fn selection_toggled(a: App, b: App) -> bool {
    if a.focus == Focus::Results && a.result_cursor < a.results@.len() {
        toggled_result(a, b)
    } else if a.focus == Focus::Basket && a.basket_cursor < a.basket@.len() {
        removed_at(a, b, a.basket_cursor as int)
    } else {
        b == a
    }
}

/// `b` is `a` once its query became `q` and was searched.
pub open spec fn query_edited(a: App, b: App, q: Seq<char>) -> bool {
    b.query@ == q && search_requested(App { query: b.query, ..a }, b)
}

/// The effect of `key` (with Ctrl held when `ctrl`) on `a`: the next state
/// `b` and what the caller has to do, `out`.
pub open spec fn key_step(a: App, key: Key, ctrl: bool, b: App, out: KeyOutcome) -> bool {
    let searching = a.focus == Focus::Search;
    if a.show_help {
        &&& out == KeyOutcome::Nothing
        &&& if key == Key::Char('?') || key == Key::Esc || key == Key::Char('q') {
            b == (App { show_help: false, ..a })
        } else {
            b == a
        }
    } else if key == Key::Char('c') && ctrl {
        out == KeyOutcome::Nothing && b == (App { should_quit: true, ..a })
    } else if key == Key::Char('q') && !searching {
        out == KeyOutcome::Nothing && b == (App { should_quit: true, ..a })
    } else if key == Key::Esc {
        out == KeyOutcome::Nothing && b == (App { should_quit: true, ..a })
    } else if key == Key::Char('?') && !searching {
        out == KeyOutcome::Nothing && b == (App { show_help: true, ..a })
    } else if key == Key::Tab {
        &&& out == KeyOutcome::Nothing
        &&& b == (App {
            focus: next_focus(a.focus, a.results@.len() > 0, a.basket@.len() > 0),
            ..a
        })
    } else if key == Key::Char('g') && !searching {
        out == (KeyOutcome::Generate { force: false }) && b == a
    } else if key == Key::Char('G') && !searching {
        out == (KeyOutcome::Generate { force: true }) && b == a
    } else if key == Key::Char('c') && !searching {
        out == KeyOutcome::ChannelChanged && channel_cycled(a, b)
    } else if key == Key::Char('/') && !searching {
        out == KeyOutcome::Nothing && b == (App { focus: Focus::Search, ..a })
    } else if searching {
        match key {
            Key::Char(c) => if !ctrl {
                out == KeyOutcome::QueryEdited && query_edited(a, b, a.query@.push(c))
            } else if c == 'j' && a.results@.len() > 0 {
                out == KeyOutcome::Nothing && b == (App { focus: Focus::Results, ..a })
            } else {
                out == KeyOutcome::Nothing && b == a
            },
            Key::Backspace => {
                let q = if a.query@.len() > 0 {
                    a.query@.drop_last()
                } else {
                    a.query@
                };
                out == KeyOutcome::QueryEdited && query_edited(a, b, q)
            },
            Key::Enter => out == KeyOutcome::SearchNow && search_requested(a, b),
            Key::Down => if a.results@.len() > 0 {
                out == KeyOutcome::Nothing && b == (App { focus: Focus::Results, ..a })
            } else {
                out == KeyOutcome::Nothing && b == a
            },
            _ => out == KeyOutcome::Nothing && b == a,
        }
    } else {
        match key {
            Key::Char('j') | Key::Down => out == KeyOutcome::Nothing && cursor_moved(a, b, 1isize),
            Key::Char('k') | Key::Up => out == KeyOutcome::Nothing && cursor_moved(a, b, -1isize),
            Key::Char(' ') | Key::Enter => out == KeyOutcome::Nothing && selection_toggled(a, b),
            Key::Char('g') => out == (KeyOutcome::Generate { force: false }) && b == a,
            Key::Char('G') => out == (KeyOutcome::Generate { force: true }) && b == a,
            Key::Backspace | Key::Delete => if a.focus == Focus::Basket {
                out == KeyOutcome::Nothing && selection_toggled(a, b)
            } else {
                out == KeyOutcome::Nothing && b == a
            },
            _ => out == KeyOutcome::Nothing && b == a,
        }
    }
}

fn is_char(key: Key, c: char) -> (b: bool)
    ensures
        b == (key == Key::Char(c)),
{
    match key {
        Key::Char(k) => k == c,
        _ => false,
    }
}

impl App {
    /// Moves to the next channel, reports it, and searches a non-blank query
    /// again.
    pub fn cycle_channel(&mut self)
        ensures
            channel_cycled(*old(self), *final(self)),
    {
        proof {
            reveal_strlit("unstable");
            reveal_strlit("25.11");
            reveal_strlit("24.11");
        }
        let next = if self.channel == String::from_str("unstable") {
            String::from_str("25.11")
        } else if self.channel == String::from_str("25.11") {
            String::from_str("24.11")
        } else {
            String::from_str("unstable")
        };
        self.channel = next.clone();
        let mut msg = String::from_str("Channel → ");
        msg.append(next.as_str());
        self.set_ok(msg);
        if !is_blank(self.query.as_str()) {
            self.request_search();
        }
    }

    /// Acts on a key press.
    pub fn handle_key(&mut self, key: Key, ctrl: bool) -> (out: KeyOutcome)
        requires
            is_move_key(*old(self), key) ==> move_fits(*old(self), move_delta(key)),
        ensures
            key_step(*old(self), key, ctrl, *final(self), out),
    {
        let searching = match self.focus {
            Focus::Search => true,
            _ => false,
        };
        if self.show_help {
            if is_char(key, '?') || key == Key::Esc || is_char(key, 'q') {
                self.show_help = false;
            }
            return KeyOutcome::Nothing;
        }
        if is_char(key, 'c') && ctrl {
            self.should_quit = true;
            return KeyOutcome::Nothing;
        }
        if is_char(key, 'q') && !searching {
            self.should_quit = true;
            return KeyOutcome::Nothing;
        }
        if key == Key::Esc {
            self.should_quit = true;
            return KeyOutcome::Nothing;
        }
        if is_char(key, '?') && !searching {
            self.show_help = true;
            return KeyOutcome::Nothing;
        }
        if key == Key::Tab {
            self.cycle_focus();
            return KeyOutcome::Nothing;
        }
        if is_char(key, 'g') && !searching {
            return KeyOutcome::Generate { force: false };
        }
        if is_char(key, 'G') && !searching {
            return KeyOutcome::Generate { force: true };
        }
        if is_char(key, 'c') && !searching {
            self.cycle_channel();
            return KeyOutcome::ChannelChanged;
        }
        if is_char(key, '/') && !searching {
            self.focus = Focus::Search;
            return KeyOutcome::Nothing;
        }
        if searching {
            match key {
                Key::Char(c) => {
                    if !ctrl {
                        self.query.push(c);
                        self.request_search();
                        KeyOutcome::QueryEdited
                    } else {
                        if c == 'j' && self.results.len() > 0 {
                            self.focus = Focus::Results;
                        }
                        KeyOutcome::Nothing
                    }
                },
                Key::Backspace => {
                    let n = self.query.unicode_len();
                    if n > 0 {
                        let shorter = String::from_str(self.query.as_str().substring_char(0, n - 1));
                        self.query = shorter;
                    }
                    self.request_search();
                    KeyOutcome::QueryEdited
                },
                Key::Enter => {
                    self.request_search();
                    KeyOutcome::SearchNow
                },
                Key::Down => {
                    if self.results.len() > 0 {
                        self.focus = Focus::Results;
                    }
                    KeyOutcome::Nothing
                },
                _ => KeyOutcome::Nothing,
            }
        } else {
            match key {
                Key::Char('j') | Key::Down => {
                    self.move_cursor(1);
                    KeyOutcome::Nothing
                },
                Key::Char('k') | Key::Up => {
                    self.move_cursor(-1);
                    KeyOutcome::Nothing
                },
                Key::Char(' ') | Key::Enter => {
                    self.toggle_selected();
                    KeyOutcome::Nothing
                },
                Key::Char('g') => KeyOutcome::Generate { force: false },
                Key::Char('G') => KeyOutcome::Generate { force: true },
                Key::Backspace | Key::Delete => {
                    if let Focus::Basket = self.focus {
                        self.toggle_selected();
                    }
                    KeyOutcome::Nothing
                },
                _ => KeyOutcome::Nothing,
            }
        }
    }
}

} // verus!

verus! {

/// In a list pane, with help closed, j and Down move the cursor down one
/// entry, k and Up move it up one, and Space and Enter toggle the selected
/// package, exactly as `move_cursor` and `toggle_selected` state.
pub proof fn lemma_list_keys(a: App, key: Key, ctrl: bool, b: App, out: KeyOutcome)
    requires
        !a.show_help,
        a.focus == Focus::Results || a.focus == Focus::Basket,
        key_step(a, key, ctrl, b, out),
    ensures
        (key == Key::Char('j') || key == Key::Down) ==> out == KeyOutcome::Nothing && cursor_moved(
            a,
            b,
            1isize,
        ),
        (key == Key::Char('k') || key == Key::Up) ==> out == KeyOutcome::Nothing && cursor_moved(
            a,
            b,
            -1isize,
        ),
        (key == Key::Char(' ') || key == Key::Enter) ==> out == KeyOutcome::Nothing
            && selection_toggled(a, b),
        (key == Key::Char('j') || key == Key::Down) && a.focus == Focus::Results && a.result_cursor
            < a.results@.len() && a.results@.len() <= isize::MAX ==> b == (App {
            result_cursor: if a.result_cursor + 1 == a.results@.len() {
                0
            } else {
                (a.result_cursor + 1) as usize
            },
            ..a
        }),
        (key == Key::Char('k') || key == Key::Up) && a.focus == Focus::Results && a.result_cursor
            < a.results@.len() && a.results@.len() <= isize::MAX ==> b == (App {
            result_cursor: if a.result_cursor == 0 {
                (a.results@.len() - 1) as usize
            } else {
                (a.result_cursor - 1) as usize
            },
            ..a
        }),
        (key == Key::Char('j') || key == Key::Down) && a.focus == Focus::Basket && a.basket_cursor
            < a.basket@.len() && a.basket@.len() <= isize::MAX ==> b == (App {
            basket_cursor: if a.basket_cursor + 1 == a.basket@.len() {
                0
            } else {
                (a.basket_cursor + 1) as usize
            },
            ..a
        }),
        (key == Key::Char('k') || key == Key::Up) && a.focus == Focus::Basket && a.basket_cursor
            < a.basket@.len() && a.basket@.len() <= isize::MAX ==> b == (App {
            basket_cursor: if a.basket_cursor == 0 {
                (a.basket@.len() - 1) as usize
            } else {
                (a.basket_cursor - 1) as usize
            },
            ..a
        }),
        (key == Key::Char('j') || key == Key::Down || key == Key::Char('k') || key == Key::Up) && ((
        a.focus == Focus::Results && a.results@.len() == 0) || (a.focus == Focus::Basket
            && a.basket@.len() == 0)) ==> b == a,
        (key == Key::Char(' ') || key == Key::Enter) && a.focus == Focus::Results && a.result_cursor
            < a.results@.len() ==> toggled_result(a, b),
        (key == Key::Char(' ') || key == Key::Enter) && a.focus == Focus::Basket && a.basket_cursor
            < a.basket@.len() ==> {
            &&& b.basket@ == a.basket@.remove(a.basket_cursor as int)
            &&& b.status.message@ == "Removed "@ + a.basket@[a.basket_cursor as int].attr_name@
            &&& b.results == a.results
            &&& b.query == a.query
        },
        (key == Key::Char(' ') || key == Key::Enter) && !(a.focus == Focus::Results
            && a.result_cursor < a.results@.len()) && !(a.focus == Focus::Basket && a.basket_cursor
            < a.basket@.len()) ==> b == a,
{
    if a.focus == Focus::Results && a.result_cursor < a.results@.len() && a.results@.len()
        <= isize::MAX {
        crate::app::lemma_ring_neighbours(a.result_cursor, a.results@.len());
    }
    if a.focus == Focus::Basket && a.basket_cursor < a.basket@.len() && a.basket@.len()
        <= isize::MAX {
        crate::app::lemma_ring_neighbours(a.basket_cursor, a.basket@.len());
    }
}

/// A character typed into the search box without Ctrl (q and ? included)
/// is appended to the query, and the new query is searched: a new search
/// generation with the query pending. Basket and focus stay.
pub proof fn lemma_typing_edits_query(a: App, ch: char, b: App, out: KeyOutcome)
    requires
        !a.show_help,
        a.focus == Focus::Search,
        key_step(a, Key::Char(ch), false, b, out),
    ensures
        out == KeyOutcome::QueryEdited,
        b.query@ == a.query@.push(ch),
        b.pending_query == Some(b.query),
        a.search_generation < u64::MAX ==> b.search_generation == a.search_generation + 1,
        a.search_generation == u64::MAX ==> b.search_generation == 0,
        b.basket == a.basket,
        b.focus == a.focus,
        !b.should_quit || a.should_quit,
{
}

/// Backspace in the search box takes the query's last character off (an
/// empty query stays empty) and searches the new query.
pub proof fn lemma_backspace_edits_query(a: App, ctrl: bool, b: App, out: KeyOutcome)
    requires
        !a.show_help,
        a.focus == Focus::Search,
        key_step(a, Key::Backspace, ctrl, b, out),
    ensures
        out == KeyOutcome::QueryEdited,
        a.query@.len() > 0 ==> b.query@ == a.query@.subrange(0, a.query@.len() - 1),
        a.query@.len() == 0 ==> b.query@.len() == 0,
        b.pending_query == Some(b.query),
        a.search_generation < u64::MAX ==> b.search_generation == a.search_generation + 1,
        a.search_generation == u64::MAX ==> b.search_generation == 0,
        b.basket == a.basket,
        b.focus == a.focus,
{
}

/// Enter in the search box searches the query at once, unchanged.
pub proof fn lemma_enter_searches(a: App, ctrl: bool, b: App, out: KeyOutcome)
    requires
        !a.show_help,
        a.focus == Focus::Search,
        key_step(a, Key::Enter, ctrl, b, out),
    ensures
        out == KeyOutcome::SearchNow,
        b.query == a.query,
        b.pending_query == Some(a.query),
        a.search_generation < u64::MAX ==> b.search_generation == a.search_generation + 1,
        a.search_generation == u64::MAX ==> b.search_generation == 0,
        b.basket == a.basket,
        b.focus == a.focus,
{
}

/// With help closed, Ctrl-C and Esc quit from anywhere, and q quits outside
/// the search box; nothing else changes.
pub proof fn lemma_quit_keys(a: App, key: Key, ctrl: bool, b: App, out: KeyOutcome)
    requires
        !a.show_help,
        (key == Key::Char('c') && ctrl) || key == Key::Esc || (key == Key::Char('q') && a.focus
            != Focus::Search),
        key_step(a, key, ctrl, b, out),
    ensures
        out == KeyOutcome::Nothing,
        b == (App { should_quit: true, ..a }),
{
}

/// Outside the search box, with help closed and Ctrl-C aside: ? opens the
/// help, g asks for the flake to be written and G for it to be written over
/// existing files, / goes back to the search box, and c moves to the next
/// channel and searches a non-blank query again.
pub proof fn lemma_command_keys(a: App, key: Key, ctrl: bool, b: App, out: KeyOutcome)
    requires
        !a.show_help,
        a.focus != Focus::Search,
        !ctrl,
        key_step(a, key, ctrl, b, out),
    ensures
        key == Key::Char('?') ==> out == KeyOutcome::Nothing && b == (App { show_help: true, ..a }),
        key == Key::Char('g') ==> out == (KeyOutcome::Generate { force: false }) && b == a,
        key == Key::Char('G') ==> out == (KeyOutcome::Generate { force: true }) && b == a,
        key == Key::Char('/') ==> out == KeyOutcome::Nothing && b == (App {
            focus: Focus::Search,
            ..a
        }),
        key == Key::Char('c') ==> {
            &&& out == KeyOutcome::ChannelChanged
            &&& b.channel@ == next_channel(a.channel@)
            &&& b.basket == a.basket
            &&& b.query == a.query
            &&& !blank(a.query@) ==> b.pending_query == Some(a.query)
            &&& blank(a.query@) ==> b.status.message@ == "Channel → "@ + next_channel(a.channel@)
        },
{
}

/// While help is shown, ?, Esc and q close it and every other key does
/// nothing; no key asks anything of the caller.
pub proof fn lemma_help_keys(a: App, key: Key, ctrl: bool, b: App, out: KeyOutcome)
    requires
        a.show_help,
        key_step(a, key, ctrl, b, out),
    ensures
        out == KeyOutcome::Nothing,
        (key == Key::Char('?') || key == Key::Esc || key == Key::Char('q')) ==> b == (App {
            show_help: false,
            ..a
        }),
        !(key == Key::Char('?') || key == Key::Esc || key == Key::Char('q')) ==> b == a,
{
}

/// With help closed, Esc quits and changes nothing else.
pub proof fn lemma_escape_quits(a: App, ctrl: bool, b: App, out: KeyOutcome)
    requires
        !a.show_help,
        key_step(a, Key::Esc, ctrl, b, out),
    ensures
        out == KeyOutcome::Nothing,
        b == (App { should_quit: true, ..a }),
{
}

/// Moving the channel on three times from any of the three known channels
/// comes back to it.
pub proof fn lemma_channel_cycle(c: Seq<char>)
    requires
        c == "unstable"@ || c == "25.11"@ || c == "24.11"@,
    ensures
        next_channel(next_channel(next_channel(c))) == c,
        next_channel("unstable"@) == "25.11"@,
        next_channel("25.11"@) == "24.11"@,
        next_channel("24.11"@) == "unstable"@,
{
    reveal_strlit("unstable");
    reveal_strlit("25.11");
    reveal_strlit("24.11");
    assert("unstable"@ != "25.11"@) by {
        assert("unstable"@.len() != "25.11"@.len());
    }
    assert("unstable"@ != "24.11"@) by {
        assert("unstable"@.len() != "24.11"@.len());
    }
    assert("25.11"@ != "24.11"@) by {
        assert("25.11"@[1] != "24.11"@[1]);
    }
}

} // verus!

verus! {

/// In the basket pane with help closed, Backspace and Delete take out the
/// entry under the cursor: the basket loses exactly that entry, the status
/// names it, and the cursor stays inside the basket; with the cursor past the
/// end nothing changes.
pub proof fn lemma_basket_delete_keys(a: App, key: Key, ctrl: bool, b: App, out: KeyOutcome)
    requires
        !a.show_help,
        a.focus == Focus::Basket,
        key == Key::Backspace || key == Key::Delete,
        key_step(a, key, ctrl, b, out),
    ensures
        out == KeyOutcome::Nothing,
        a.basket_cursor < a.basket@.len() ==> {
            &&& b.basket@ == a.basket@.remove(a.basket_cursor as int)
            &&& b.status.message@ == "Removed "@ + a.basket@[a.basket_cursor as int].attr_name@
            &&& (b.basket_cursor < b.basket@.len() || b.basket@.len() == 0)
            &&& b.results == a.results
            &&& b.query == a.query
            &&& b.focus == a.focus
        },
        a.basket_cursor >= a.basket@.len() ==> b == a,
{
}

} // verus!
