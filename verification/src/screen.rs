//! The text of each part of the picker's screen, and how each row is to be
//! highlighted; drawing it is left to the terminal front end.

use vstd::prelude::*;
use crate::app::{App, Focus, StatusKind};
use crate::package::has_attr;
use crate::text::{blank, dec, decimal, is_blank, truncate, truncated};

verus! {

/// How a row of the results list stands out.
#[derive(Debug, Clone, Copy, PartialEq, Eq, Structural)]
pub enum RowStyle {
    Cursor,
    Picked,
    Plain,
}

/// A row of the results list: the cursor and basket marks, the attribute
/// name, the version and the shortened description.
pub struct ResultRow {
    pub marks: String,
    pub name: String,
    pub version: String,
    pub detail: String,
    pub style: RowStyle,
}

/// A row of the basket list: the cursor mark and the attribute name.
pub struct BasketRow {
    pub marks: String,
    pub name: String,
    pub highlighted: bool,
}

/// The widest a description shows in the results list.
pub const DESCRIPTION_WIDTH: usize = 60;

/// The title of the search box.
pub open spec fn search_title_of(channel: Seq<char>) -> Seq<char> {
    " search  ·  channel: "@ + channel + " "@
}

/// The title of the results list: how many results show of how many match,
/// once some matched.
pub open spec fn results_title_of(shown: nat, total: u64) -> Seq<char> {
    if total > 0 {
        " results ("@ + dec(
            if shown <= total as usize {
                shown
            } else {
                (total as usize) as nat
            },
        ) + "/"@ + dec(total as nat) + ") "@
    } else {
        " results "@
    }
}

/// The status line: a mark for its kind, then its text.
pub open spec fn status_line_of(kind: StatusKind, message: Seq<char>) -> Seq<char> {
    match kind {
        StatusKind::Info => message,
        StatusKind::Success => "✓ "@ + message,
        StatusKind::Error => "✗ "@ + message,
        StatusKind::Searching => "… "@ + message,
    }
}

impl App {
    /// The title of the search box, naming the channel.
    pub fn search_title(&self) -> (r: String)
        ensures
            r@ == search_title_of(self.channel@),
    {
        let mut r = String::from_str(" search  ·  channel: ");
        r.append(self.channel.as_str());
        r.append(" ");
        r
    }

    /// The text in the search box: the query, with a cursor block while the
    /// box has focus.
    pub fn search_line(&self) -> (r: String)
        ensures
            r@ == if self.focus == Focus::Search {
                self.query@ + "▌"@
            } else {
                self.query@
            },
    {
        let mut r = self.query.clone();
        if let Focus::Search = self.focus {
            r.append("▌");
        }
        r
    }

    /// The title of the results list.
    pub fn results_title(&self) -> (r: String)
        ensures
            r@ == results_title_of(self.results@.len(), self.total_hits),
    {
        if self.total_hits > 0 {
            #[verifier::truncate]
            let total = self.total_hits as usize;
            let shown = if self.results.len() <= total {
                self.results.len()
            } else {
                total
            };
            let mut r = String::from_str(" results (");
            let s = decimal(shown as u64);
            r.append(s.as_str());
            r.append("/");
            let t = decimal(self.total_hits);
            r.append(t.as_str());
            r.append(") ");
            r
        } else {
            String::from_str(" results ")
        }
    }

    /// What the results pane says while it lists nothing.
    pub fn empty_results_text(&self) -> (r: String)
        ensures
            r@ == if blank(self.query@) {
                "Type a query and press Enter (or wait for debounce)"@
            } else {
                "No results"@
            },
    {
        if is_blank(self.query.as_str()) {
            String::from_str("Type a query and press Enter (or wait for debounce)")
        } else {
            String::from_str("No results")
        }
    }

    /// Row `i` of the results list.
    pub fn result_row(&self, i: usize) -> (r: ResultRow)
        requires
            i < self.results@.len(),
        ensures
            ({
                let pkg = self.results@[i as int];
                let at_cursor = self.focus == Focus::Results && i == self.result_cursor;
                let picked = has_attr(self.basket@, pkg.attr_name@);
                &&& r.marks@ == (if at_cursor {
                    "›"@
                } else {
                    " "@
                }) + (if picked {
                    "●"@
                } else {
                    " "@
                }) + " "@
                &&& r.name@ == pkg.attr_name@
                &&& r.version@ == " "@ + pkg.version@
                &&& r.detail@ == if pkg.description@.len() == 0 {
                    Seq::<char>::empty()
                } else {
                    "  "@ + truncated(pkg.description@, DESCRIPTION_WIDTH as nat)
                }
                &&& r.style == if at_cursor {
                    RowStyle::Cursor
                } else if picked {
                    RowStyle::Picked
                } else {
                    RowStyle::Plain
                }
            }),
    {
        let pkg = &self.results[i];
        let picked = self.is_in_basket(pkg.attr_name.as_str());
        let at_cursor = match self.focus {
            Focus::Results => i == self.result_cursor,
            _ => false,
        };
        let mut marks = if at_cursor {
            String::from_str("›")
        } else {
            String::from_str(" ")
        };
        if picked {
            marks.append("●");
        } else {
            marks.append(" ");
        }
        marks.append(" ");
        let mut version = String::from_str(" ");
        version.append(pkg.version.as_str());
        let detail = if pkg.description.unicode_len() == 0 {
            String::new()
        } else {
            let mut d = String::from_str("  ");
            let short = truncate(pkg.description.as_str(), DESCRIPTION_WIDTH);
            d.append(short.as_str());
            d
        };
        let style = if at_cursor {
            RowStyle::Cursor
        } else if picked {
            RowStyle::Picked
        } else {
            RowStyle::Plain
        };
        ResultRow { marks, name: pkg.attr_name.clone(), version, detail, style }
    }

    /// What the basket pane says while the basket is empty.
    pub fn empty_basket_text(&self) -> (r: String)
        ensures
            r@ == "Empty\n\nSpace on a result\nto add packages"@,
    {
        String::from_str("Empty\n\nSpace on a result\nto add packages")
    }

    /// The title of the basket list, with its size.
    pub fn basket_title(&self) -> (r: String)
        ensures
            r@ == " basket ("@ + dec(self.basket@.len()) + ") "@,
    {
        let mut r = String::from_str(" basket (");
        let n = decimal(self.basket.len() as u64);
        r.append(n.as_str());
        r.append(") ");
        r
    }

    /// Row `i` of the basket list.
    pub fn basket_row(&self, i: usize) -> (r: BasketRow)
        requires
            i < self.basket@.len(),
        ensures
            r.highlighted == (self.focus == Focus::Basket && i == self.basket_cursor),
            r.marks@ == if r.highlighted {
                "› "@
            } else {
                "  "@
            },
            r.name@ == self.basket@[i as int].attr_name@,
    {
        let highlighted = match self.focus {
            Focus::Basket => i == self.basket_cursor,
            _ => false,
        };
        let marks = if highlighted {
            String::from_str("› ")
        } else {
            String::from_str("  ")
        };
        BasketRow { marks, name: self.basket[i].attr_name.clone(), highlighted }
    }

    /// The status line.
    pub fn status_line(&self) -> (r: String)
        ensures
            r@ == status_line_of(self.status.kind, self.status.message@),
    {
        let mut r = match self.status.kind {
            StatusKind::Info => String::new(),
            StatusKind::Success => String::from_str("✓ "),
            StatusKind::Error => String::from_str("✗ "),
            StatusKind::Searching => String::from_str("… "),
        };
        r.append(self.status.message.as_str());
        r
    }
}

} // verus!
