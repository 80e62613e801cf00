//! The staging basket file: one package per line, its attribute name and,
//! after a tab, its version.

use vstd::prelude::*;
use crate::package::{Package, PackageView, package_views, has_attr, contains_attr};
use crate::text::{blank, trimmed, is_trimmed, trim, is_ws, lemma_trimmed_identity, trim_start, trim_end};

verus! {

/// The pieces of `s` between occurrences of `c`; `n` occurrences give `n + 1`
/// pieces.
pub open spec fn split_on(s: Seq<char>, c: char) -> Seq<Seq<char>>
    decreases s.len(),
{
    if s.len() == 0 {
        seq![Seq::empty()]
    } else {
        let rest = split_on(s.drop_last(), c);
        if s.last() == c {
            rest.push(Seq::empty())
        } else {
            rest.update(rest.len() - 1, rest.last().push(s.last()))
        }
    }
}

/// Position of the first `c` in `s`, or -1 when there is none.
pub open spec fn first_index(s: Seq<char>, c: char) -> int
    decreases s.len(),
{
    if s.len() == 0 {
        -1
    } else if s[0] == c {
        0
    } else {
        let r = first_index(s.drop_first(), c);
        if r < 0 {
            -1
        } else {
            r + 1
        }
    }
}

/// The package that one line of the basket file stands for: the trimmed text
/// before the first tab, and the trimmed text after it as the version.
pub open spec fn line_entry(line: Seq<char>) -> PackageView {
    let t = first_index(line, '\t');
    if t < 0 {
        PackageView { attr_name: trimmed(line), version: Seq::empty(), description: Seq::empty() }
    } else {
        PackageView {
            attr_name: trimmed(line.take(t)),
            version: trimmed(line.skip(t + 1)),
            description: Seq::empty(),
        }
    }
}

/// The packages that a list of lines stands for; blank lines stand for none.
pub open spec fn lines_entries(lines: Seq<Seq<char>>) -> Seq<PackageView>
    decreases lines.len(),
{
    if lines.len() == 0 {
        Seq::empty()
    } else {
        let e = lines_entries(lines.drop_last());
        if blank(lines.last()) {
            e
        } else {
            e.push(line_entry(lines.last()))
        }
    }
}

/// The packages that the text of a basket file stands for, in file order.
pub open spec fn basket_entries(text: Seq<char>) -> Seq<PackageView> {
    lines_entries(split_on(text, '\n'))
}

/// Position of the first tab in `s`, or `s`'s length when there is none.
fn find_tab(s: &str) -> (r: usize)
    ensures
        r <= s@.len(),
        r < s@.len() ==> first_index(s@, '\t') == r,
        r == s@.len() ==> first_index(s@, '\t') == -1,
{
    let n = s.unicode_len();
    let mut i: usize = 0;
    while i < n
        invariant
            n == s@.len(),
            i <= n,
            forall|j: int| 0 <= j < i ==> s@[j] != '\t',
        decreases n - i,
    {
        if s.get_char(i) == '\t' {
            proof {
                lemma_first_index_at(s@, '\t', i as int);
            }
            return i;
        }
        i = i + 1;
    }
    proof {
        lemma_first_index_none(s@, '\t');
    }
    n
}

proof fn lemma_first_index_at(s: Seq<char>, c: char, i: int)
    requires
        0 <= i < s.len(),
        s[i] == c,
        forall|j: int| 0 <= j < i ==> s[j] != c,
    ensures
        first_index(s, c) == i,
    decreases i,
{
    if i > 0 {
        lemma_first_index_at(s.drop_first(), c, i - 1);
    }
}

proof fn lemma_first_index_none(s: Seq<char>, c: char)
    requires
        forall|j: int| 0 <= j < s.len() ==> s[j] != c,
    ensures
        first_index(s, c) == -1,
    decreases s.len(),
{
    if s.len() > 0 {
        lemma_first_index_none(s.drop_first(), c);
    }
}

/// The package one line of the basket file stands for.
fn parse_line(line: &str) -> (p: Package)
    ensures
        p@ == line_entry(line@),
{
    let n = line.unicode_len();
    let t = find_tab(line);
    if t == n {
        Package {
            attr_name: String::from_str(trim(line)),
            version: String::new(),
            description: String::new(),
        }
    } else {
        let attr = trim(line.substring_char(0, t));
        let version = trim(line.substring_char(t + 1, n));
        assert(line@.subrange(0, t as int) =~= line@.take(t as int));
        assert(line@.subrange(t + 1, n as int) =~= line@.skip(t + 1));
        Package {
            attr_name: String::from_str(attr),
            version: String::from_str(version),
            description: String::new(),
        }
    }
}

/// The packages staged in a basket file with the given text, in file order:
/// one for each line that is not blank.
pub fn parse_basket(text: &str) -> (r: Vec<Package>)
    ensures
        package_views(r@) == basket_entries(text@),
{
    let n = text.unicode_len();
    let mut out: Vec<Package> = Vec::new();
    let mut start: usize = 0;
    let mut i: usize = 0;
    assert(text@.take(0) =~= Seq::<char>::empty());
    while i < n
        invariant
            n == text@.len(),
            start <= i <= n,
            split_on(text@.take(i as int), '\n').len() >= 1,
            split_on(text@.take(i as int), '\n').last() == text@.subrange(start as int, i as int),
            package_views(out@) == lines_entries(split_on(text@.take(i as int), '\n').drop_last()),
        decreases n - i,
    {
        let ghost before = split_on(text@.take(i as int), '\n');
        let c = text.get_char(i);
        assert(text@.take(i + 1).drop_last() =~= text@.take(i as int));
        assert(text@.take(i + 1).last() == c);
        if c == '\n' {
            let line = text.substring_char(start, i);
            let ghost after = split_on(text@.take(i + 1), '\n');
            assert(after == before.push(Seq::empty()));
            assert(after.drop_last() =~= before);
            if !crate::text::is_blank(line) {
                let p = parse_line(line);
                out.push(p);
                assert(package_views(out@) =~= lines_entries(before.drop_last()).push(
                    line_entry(before.last()),
                ));
            }
            start = i + 1;
            assert(text@.subrange(start as int, i + 1) =~= Seq::<char>::empty());
        } else {
            let ghost after = split_on(text@.take(i + 1), '\n');
            assert(after.drop_last() =~= before.drop_last());
            assert(text@.subrange(start as int, i + 1) =~= text@.subrange(
                start as int,
                i as int,
            ).push(c));
        }
        i = i + 1;
    }
    assert(text@.take(n as int) =~= text@);
    let ghost all = split_on(text@, '\n');
    let line = text.substring_char(start, n);
    if !crate::text::is_blank(line) {
        let p = parse_line(line);
        out.push(p);
        assert(package_views(out@) =~= lines_entries(all.drop_last()).push(line_entry(all.last())));
    } else {
        assert(package_views(out@) =~= lines_entries(all));
    }
    assert(all.drop_last().push(all.last()) =~= all);
    out
}

} // verus!

verus! {

/// No character of `s` is `c`.
pub open spec fn lacks(s: Seq<char>, c: char) -> bool {
    forall|i: int| 0 <= i < s.len() ==> s[i] != c
}

/// The line that stages a package: its attribute name, then a tab and its
/// version when it has one.
pub open spec fn entry_line(p: PackageView) -> Seq<char> {
    if p.version.len() == 0 {
        p.attr_name.push('\n')
    } else {
        p.attr_name + seq!['\t'] + p.version + seq!['\n']
    }
}

/// The text of a basket file that stages the given packages in order.
pub open spec fn rendered(ps: Seq<PackageView>) -> Seq<char>
    decreases ps.len(),
{
    if ps.len() == 0 {
        Seq::empty()
    } else {
        rendered(ps.drop_last()) + entry_line(ps.last())
    }
}

/// A basket file text with one more package staged at its end; a last line
/// without its line break gets one first.
pub open spec fn with_entry(content: Seq<char>, p: PackageView) -> Seq<char> {
    if content.len() > 0 && content.last() != '\n' {
        content.push('\n') + entry_line(p)
    } else {
        content + entry_line(p)
    }
}

/// A package that a basket file can hold and give back unchanged: a
/// non-empty attribute name without tab, both texts on one line and without
/// surrounding whitespace.
pub open spec fn storable(p: PackageView) -> bool {
    &&& p.attr_name.len() > 0
    &&& is_trimmed(p.attr_name)
    &&& is_trimmed(p.version)
    &&& lacks(p.attr_name, '\n')
    &&& lacks(p.attr_name, '\t')
    &&& lacks(p.version, '\n')
}

/// What a basket file keeps of a package: its name and version.
pub open spec fn stored(p: PackageView) -> PackageView {
    PackageView { attr_name: p.attr_name, version: p.version, description: Seq::empty() }
}

proof fn lemma_split_len(s: Seq<char>, c: char)
    ensures
        split_on(s, c).len() >= 1,
    decreases s.len(),
{
    if s.len() > 0 {
        lemma_split_len(s.drop_last(), c);
    }
}

proof fn lemma_split_break(x: Seq<char>, c: char)
    ensures
        split_on(x + seq![c], c) == split_on(x, c).push(Seq::empty()),
{
    assert((x + seq![c]).drop_last() =~= x);
}

proof fn lemma_split_extend(x: Seq<char>, y: Seq<char>, c: char)
    requires
        lacks(y, c),
    ensures
        split_on(x + y, c) == split_on(x, c).update(
            split_on(x, c).len() - 1,
            split_on(x, c).last() + y,
        ),
    decreases y.len(),
{
    lemma_split_len(x, c);
    let s = split_on(x, c);
    if y.len() == 0 {
        assert(x + y =~= x);
        assert(s.last() + y =~= s.last());
        assert(s.update(s.len() - 1, s.last()) =~= s);
    } else {
        let y1 = y.drop_last();
        lemma_split_extend(x, y1, c);
        assert((x + y).drop_last() =~= x + y1);
        assert((x + y).last() == y.last());
        let rest = split_on(x + y1, c);
        assert(rest.len() == s.len());
        assert(rest.last() == s.last() + y1);
        assert(y[y.len() - 1] != c);
        assert((s.last() + y1).push(y.last()) =~= s.last() + y);
        assert(split_on(x + y, c) =~= s.update(s.len() - 1, s.last() + y));
    }
}

/// A text that is empty or ends with a line break ends with an empty piece.
proof fn lemma_split_ends_empty(c: Seq<char>)
    requires
        c.len() == 0 || c.last() == '\n',
    ensures
        split_on(c, '\n').last() == Seq::<char>::empty(),
        split_on(c, '\n').len() >= 1,
{
    lemma_split_len(c, '\n');
}

proof fn lemma_first_index_after(a: Seq<char>, v: Seq<char>)
    requires
        lacks(a, '\t'),
    ensures
        first_index(a + seq!['\t'] + v, '\t') == a.len(),
    decreases a.len(),
{
    if a.len() > 0 {
        lemma_first_index_after(a.drop_first(), v);
        assert((a + seq!['\t'] + v).drop_first() =~= a.drop_first() + seq!['\t'] + v);
    }
}

proof fn lemma_first_index_absent(a: Seq<char>, c: char)
    requires
        lacks(a, c),
    ensures
        first_index(a, c) == -1,
    decreases a.len(),
{
    if a.len() > 0 {
        lemma_first_index_absent(a.drop_first(), c);
    }
}

/// The line of a storable package, read back, gives the package's name and
/// version.
proof fn lemma_line_entry(p: PackageView)
    requires
        storable(p),
    ensures
        entry_line(p) == entry_line(p).drop_last().push('\n'),
        lacks(entry_line(p).drop_last(), '\n'),
        !blank(entry_line(p).drop_last()),
        line_entry(entry_line(p).drop_last()) == stored(p),
{
    let a = p.attr_name;
    let v = p.version;
    lemma_trimmed_identity(a);
    lemma_trimmed_identity(v);
    assert(!is_ws(a[0]));
    if v.len() == 0 {
        let l = entry_line(p).drop_last();
        assert(l =~= a);
        lemma_first_index_absent(a, '\t');
        assert(v =~= Seq::<char>::empty());
        assert(line_entry(l) =~= stored(p));
    } else {
        let l = entry_line(p).drop_last();
        assert(l =~= a + seq!['\t'] + v);
        lemma_first_index_after(a, v);
        assert(l.take(a.len() as int) =~= a);
        assert(l.skip(a.len() as int + 1) =~= v);
        assert(l[0] == a[0]);
        assert forall|i: int| 0 <= i < l.len() implies l[i] != '\n' by {
            if i < a.len() {
                assert(l[i] == a[i]);
            } else if i > a.len() {
                assert(l[i] == v[i - a.len() - 1]);
            }
        }
        assert(line_entry(l) =~= stored(p));
    }
}

/// Staging a storable package appends exactly its stored form to what the
/// file stands for.
pub proof fn lemma_with_entry(content: Seq<char>, p: PackageView)
    requires
        storable(p),
    ensures
        basket_entries(with_entry(content, p)) == basket_entries(content).push(stored(p)),
{
    let c = if content.len() > 0 && content.last() != '\n' {
        content.push('\n')
    } else {
        content
    };
    if content.len() > 0 && content.last() != '\n' {
        lemma_split_break(content, '\n');
        assert(content + seq!['\n'] =~= content.push('\n'));
        assert(split_on(c, '\n').drop_last() =~= split_on(content, '\n'));
    }
    lemma_split_ends_empty(c);
    assert(lines_entries(split_on(c, '\n')) == lines_entries(split_on(content, '\n')));
    lemma_line_entry(p);
    let l = entry_line(p).drop_last();
    let s = split_on(c, '\n');
    lemma_split_extend(c, l, '\n');
    lemma_split_break(c + l, '\n');
    assert(c + l + seq!['\n'] =~= with_entry(content, p));
    let t = s.update(s.len() - 1, s.last() + l);
    assert(s.last() + l =~= l);
    assert(t.push(Seq::empty()).drop_last() =~= t);
    assert(t.drop_last() =~= s.drop_last());
    assert(lines_entries(t) == lines_entries(s.drop_last()).push(line_entry(l)));
}

proof fn lemma_rendered_ends(ps: Seq<PackageView>)
    ensures
        rendered(ps).len() == 0 || rendered(ps).last() == '\n',
    decreases ps.len(),
{
    if ps.len() > 0 {
        let e = entry_line(ps.last());
        assert(e.last() == '\n');
        assert((rendered(ps.drop_last()) + e).last() == e.last());
    }
}

/// Reading back a basket file written from storable packages gives each
/// package's name and version, in order.
pub proof fn lemma_basket_round_trip(ps: Seq<PackageView>)
    requires
        forall|i: int| 0 <= i < ps.len() ==> storable(#[trigger] ps[i]),
    ensures
        basket_entries(rendered(ps)) == ps.map_values(|p: PackageView| stored(p)),
    decreases ps.len(),
{
    if ps.len() == 0 {
        let e = Seq::<char>::empty();
        assert(split_on(e, '\n') == seq![e]);
        assert(seq![e].drop_last() =~= Seq::<Seq<char>>::empty());
        assert(blank(seq![e].last()));
        assert(lines_entries(Seq::<Seq<char>>::empty()) =~= Seq::<PackageView>::empty());
        assert(lines_entries(seq![e]) == lines_entries(seq![e].drop_last()));
        assert(basket_entries(e) =~= Seq::<PackageView>::empty());
        assert(ps.map_values(|p: PackageView| stored(p)) =~= Seq::<PackageView>::empty());
    } else {
        let prev = ps.drop_last();
        lemma_basket_round_trip(prev);
        lemma_rendered_ends(prev);
        assert(storable(ps[ps.len() - 1]));
        lemma_with_entry(rendered(prev), ps.last());
        assert(with_entry(rendered(prev), ps.last()) == rendered(ps));
        assert(ps.map_values(|p: PackageView| stored(p)) =~= prev.map_values(
            |p: PackageView| stored(p),
        ).push(stored(ps.last())));
    }
}

/// The line that stages `p` in a basket file.
pub fn basket_line(p: &Package) -> (r: String)
    ensures
        r@ == entry_line(p@),
{
    let mut r = String::from_str(p.attr_name.as_str());
    proof {
        reveal_strlit("\t");
        reveal_strlit("\n");
    }
    if p.version.unicode_len() == 0 {
        r.append("\n");
    } else {
        r.append("\t");
        r.append(p.version.as_str());
        r.append("\n");
    }
    r
}

/// The text of a basket file that stages `pkgs` in order.
pub fn render_basket(pkgs: &Vec<Package>) -> (r: String)
    ensures
        r@ == rendered(package_views(pkgs@)),
{
    let mut r = String::new();
    let mut i: usize = 0;
    while i < pkgs.len()
        invariant
            i <= pkgs.len(),
            r@ == rendered(package_views(pkgs@.take(i as int))),
        decreases pkgs.len() - i,
    {
        let line = basket_line(&pkgs[i]);
        r.append(line.as_str());
        assert(package_views(pkgs@.take(i + 1)).drop_last() =~= package_views(
            pkgs@.take(i as int),
        ));
        i = i + 1;
    }
    assert(pkgs@.take(pkgs.len() as int) =~= pkgs@);
    r
}

/// The text of a basket file once `p` is staged at its end.
pub fn append_entry(content: String, p: &Package) -> (r: String)
    ensures
        r@ == with_entry(content@, p@),
{
    let mut r = content;
    let n = r.unicode_len();
    proof {
        reveal_strlit("\n");
    }
    if n > 0 && r.as_str().get_char(n - 1) != '\n' {
        r.append("\n");
    }
    let line = basket_line(p);
    r.append(line.as_str());
    r
}

/// The packages that a list of packages keeps once those named `attr` leave.
pub open spec fn without_attr(s: Seq<Package>, attr: Seq<char>) -> Seq<Package> {
    s.filter(|p: Package| p.attr_name@ != attr)
}

/// Removes every package named `attr`, keeping the others in order; tells
/// whether one was removed.
pub fn remove_attr(pkgs: &mut Vec<Package>, attr: &str) -> (removed: bool)
    ensures
        final(pkgs)@ == without_attr(old(pkgs)@, attr@),
        removed == has_attr(old(pkgs)@, attr@),
        removed == (final(pkgs)@.len() < old(pkgs)@.len()),
{
    let target = String::from_str(attr);
    let ghost orig = pkgs@;
    let mut kept: Vec<Package> = Vec::new();
    let mut removed = false;
    let mut i: usize = 0;
    let n = pkgs.len();
    while i < n
        invariant
            n == orig.len(),
            pkgs@ == orig,
            i <= n,
            target@ == attr@,
            kept@ == without_attr(orig.take(i as int), attr@),
            removed == has_attr(orig.take(i as int), attr@),
            removed == (kept@.len() < i),
            kept@.len() <= i,
        decreases n - i,
    {
        let p = pkgs[i].duplicate();
        assert(orig.take(i + 1).drop_last() =~= orig.take(i as int));
        reveal_with_fuel(Seq::filter, 1);
        if p.attr_name == target {
            removed = true;
            assert(orig.take(i + 1)[i as int] == p);
        } else {
            kept.push(p);
            assert(has_attr(orig.take(i + 1), attr@) ==> has_attr(orig.take(i as int), attr@)) by {
                if has_attr(orig.take(i + 1), attr@) {
                    let k = choose|k: int|
                        0 <= k < i + 1 && (#[trigger] orig.take(i + 1)[k]).attr_name@ == attr@;
                    assert(orig.take(i as int)[k] == orig.take(i + 1)[k]);
                }
            }
        }
        assert(has_attr(orig.take(i as int), attr@) ==> has_attr(orig.take(i + 1), attr@)) by {
            if has_attr(orig.take(i as int), attr@) {
                let k = choose|k: int|
                    0 <= k < i && (#[trigger] orig.take(i as int)[k]).attr_name@ == attr@;
                assert(orig.take(i + 1)[k] == orig.take(i as int)[k]);
            }
        }
        i = i + 1;
    }
    assert(orig.take(n as int) =~= orig);
    *pkgs = kept;
    removed
}

} // verus!

verus! {

/// Whether the basket file with text `text` stages a package named `attr`.
pub fn basket_contains(text: &str, attr: &str) -> (b: bool)
    ensures
        b == exists|i: int|
            0 <= i < basket_entries(text@).len() && (#[trigger] basket_entries(text@)[i]).attr_name
                == attr@,
{
    let pkgs = parse_basket(text);
    let b = contains_attr(&pkgs, attr);
    proof {
        let es = basket_entries(text@);
        assert(package_views(pkgs@) == es);
        if b {
            let i = choose|i: int| 0 <= i < pkgs@.len() && (#[trigger] pkgs@[i]).attr_name@ == attr@;
            assert(es[i] == pkgs@[i]@);
        } else {
            assert forall|i: int| 0 <= i < es.len() implies (#[trigger] es[i]).attr_name != attr@ by {
                assert(es[i] == pkgs@[i]@);
            }
        }
    }
    b
}

} // verus!

verus! {

proof fn lemma_trim_start_shape(s: Seq<char>)
    ensures
        exists|k: int| 0 <= k <= s.len() && trim_start(s) == s.skip(k),
        trim_start(s).len() > 0 ==> !is_ws(trim_start(s)[0]),
    decreases s.len(),
{
    if s.len() > 0 && is_ws(s[0]) {
        lemma_trim_start_shape(s.drop_first());
        let k = choose|k: int|
            0 <= k <= s.drop_first().len() && trim_start(s.drop_first()) == s.drop_first().skip(k);
        assert(s.drop_first().skip(k) =~= s.skip(k + 1));
    } else {
        assert(s.skip(0) =~= s);
    }
}

proof fn lemma_trim_end_shape(s: Seq<char>)
    ensures
        exists|m: int| 0 <= m <= s.len() && trim_end(s) == s.take(m),
        trim_end(s).len() > 0 ==> !is_ws(trim_end(s).last()),
    decreases s.len(),
{
    if s.len() > 0 && is_ws(s.last()) {
        lemma_trim_end_shape(s.drop_last());
        let m = choose|m: int|
            0 <= m <= s.drop_last().len() && trim_end(s.drop_last()) == s.drop_last().take(m);
        assert(s.drop_last().take(m) =~= s.take(m));
    } else {
        assert(s.take(s.len() as int) =~= s);
    }
}

/// Trimming leaves no whitespace at either end, and keeps a stretch of the
/// text, so it adds no character the text lacks.
proof fn lemma_trimmed_shape(s: Seq<char>, c: char)
    ensures
        is_trimmed(trimmed(s)),
        lacks(s, c) ==> lacks(trimmed(s), c),
{
    lemma_trim_start_shape(s);
    let k = choose|k: int| 0 <= k <= s.len() && trim_start(s) == s.skip(k);
    let t = trim_start(s);
    lemma_trim_end_shape(t);
    let m = choose|m: int| 0 <= m <= t.len() && trim_end(t) == t.take(m);
    let r = trimmed(s);
    if r.len() > 0 {
        assert(r[0] == t[0]);
    }
    if lacks(s, c) {
        assert forall|i: int| 0 <= i < r.len() implies r[i] != c by {
            assert(r[i] == s[k + i]);
        }
    }
}

proof fn lemma_first_index_shape(s: Seq<char>, c: char)
    ensures
        first_index(s, c) == -1 ==> lacks(s, c),
        first_index(s, c) >= 0 ==> first_index(s, c) < s.len() && lacks(
            s.take(first_index(s, c)),
            c,
        ),
    decreases s.len(),
{
    if s.len() > 0 && s[0] != c {
        lemma_first_index_shape(s.drop_first(), c);
        let r = first_index(s.drop_first(), c);
        if r >= 0 {
            assert forall|i: int| 0 <= i < r + 1 implies #[trigger] s.take(r + 1)[i] != c by {
                if i > 0 {
                    assert(s.take(r + 1)[i] == s.drop_first().take(r)[i - 1]);
                }
            }
        } else {
            assert forall|i: int| 0 <= i < s.len() implies s[i] != c by {
                if i > 0 {
                    assert(s[i] == s.drop_first()[i - 1]);
                }
            }
        }
    }
}

proof fn lemma_split_pieces_lack(s: Seq<char>, c: char)
    ensures
        forall|i: int| 0 <= i < split_on(s, c).len() ==> lacks(#[trigger] split_on(s, c)[i], c),
    decreases s.len(),
{
    if s.len() > 0 {
        lemma_split_pieces_lack(s.drop_last(), c);
        lemma_split_len(s.drop_last(), c);
        let rest = split_on(s.drop_last(), c);
        if s.last() != c {
            let p = rest.last().push(s.last());
            assert(lacks(rest[rest.len() - 1], c));
            assert forall|j: int| 0 <= j < p.len() implies p[j] != c by {
                if j < rest.last().len() {
                    assert(p[j] == rest.last()[j]);
                }
            }
            assert forall|i: int| 0 <= i < split_on(s, c).len() implies lacks(
                #[trigger] split_on(s, c)[i],
                c,
            ) by {
                if i < rest.len() - 1 {
                    assert(split_on(s, c)[i] == rest[i]);
                }
            }
        } else {
            assert forall|i: int| 0 <= i < split_on(s, c).len() implies lacks(
                #[trigger] split_on(s, c)[i],
                c,
            ) by {
                if i < rest.len() {
                    assert(split_on(s, c)[i] == rest[i]);
                }
            }
        }
    }
}

/// The shape every package read from a basket file has: no whitespace
/// around its name or version, no tab in its name, no line break in either,
/// and no description.
pub open spec fn entry_shape(e: PackageView) -> bool {
    &&& is_trimmed(e.attr_name)
    &&& is_trimmed(e.version)
    &&& lacks(e.attr_name, '\t')
    &&& lacks(e.attr_name, '\n')
    &&& lacks(e.version, '\n')
    &&& e.description.len() == 0
}

proof fn lemma_lines_entries_shape(lines: Seq<Seq<char>>)
    requires
        forall|i: int| 0 <= i < lines.len() ==> lacks(#[trigger] lines[i], '\n'),
    ensures
        forall|i: int|
            0 <= i < lines_entries(lines).len() ==> entry_shape(#[trigger] lines_entries(lines)[i]),
    decreases lines.len(),
{
    if lines.len() > 0 {
        let prev = lines.drop_last();
        assert forall|i: int| 0 <= i < prev.len() implies lacks(#[trigger] prev[i], '\n') by {
            assert(prev[i] == lines[i]);
        }
        lemma_lines_entries_shape(prev);
        let l = lines.last();
        assert(lacks(lines[lines.len() - 1], '\n'));
        if !blank(l) {
            let e = line_entry(l);
            let t = first_index(l, '\t');
            lemma_first_index_shape(l, '\t');
            if t < 0 {
                lemma_trimmed_shape(l, '\t');
                lemma_trimmed_shape(l, '\n');
            } else {
                let before = l.take(t);
                let after = l.skip(t + 1);
                assert(lacks(before, '\n')) by {
                    assert forall|i: int| 0 <= i < before.len() implies before[i] != '\n' by {
                        assert(before[i] == l[i]);
                    }
                }
                assert(lacks(after, '\n')) by {
                    assert forall|i: int| 0 <= i < after.len() implies after[i] != '\n' by {
                        assert(after[i] == l[t + 1 + i]);
                    }
                }
                lemma_trimmed_shape(before, '\t');
                lemma_trimmed_shape(before, '\n');
                lemma_trimmed_shape(after, '\n');
            }
            assert(entry_shape(e));
            let es = lines_entries(lines);
            assert forall|i: int| 0 <= i < es.len() implies entry_shape(#[trigger] es[i]) by {
                if i < es.len() - 1 {
                    assert(es[i] == lines_entries(prev)[i]);
                }
            }
        }
    }
}

/// Every package read from a basket file has no whitespace around its name
/// or version, no tab in its name, no line break, and no description; so a
/// file written back from what was read, when no name is empty, reads back
/// the same packages.
pub proof fn lemma_read_entries_rewrite(text: Seq<char>)
    ensures
        forall|i: int|
            0 <= i < basket_entries(text).len() ==> entry_shape(#[trigger] basket_entries(text)[i]),
        (forall|i: int|
            0 <= i < basket_entries(text).len() ==> (#[trigger] basket_entries(text)[i]).attr_name.len()
                > 0) ==> basket_entries(rendered(basket_entries(text))) == basket_entries(text),
{
    lemma_split_pieces_lack(text, '\n');
    lemma_lines_entries_shape(split_on(text, '\n'));
    let es = basket_entries(text);
    if forall|i: int| 0 <= i < es.len() ==> (#[trigger] es[i]).attr_name.len() > 0 {
        assert forall|i: int| 0 <= i < es.len() implies storable(#[trigger] es[i]) by {
            assert(entry_shape(es[i]));
        }
        lemma_basket_round_trip(es);
        assert forall|i: int| 0 <= i < es.len() implies stored(es[i]) == es[i] by {
            assert(entry_shape(es[i]));
            assert(es[i].description =~= Seq::<char>::empty());
        }
        assert(es.map_values(|p: PackageView| stored(p)) =~= es);
    }
}

} // verus!

verus! {

proof fn lemma_filter_keeps_all(s: Seq<Package>, attr: Seq<char>)
    requires
        !has_attr(s, attr),
    ensures
        without_attr(s, attr) == s,
    decreases s.len(),
{
    reveal_with_fuel(Seq::filter, 1);
    if s.len() > 0 {
        let prev = s.drop_last();
        assert(!has_attr(prev, attr)) by {
            if has_attr(prev, attr) {
                let k = choose|k: int| 0 <= k < prev.len() && (#[trigger] prev[k]).attr_name@ == attr;
                assert(s[k] == prev[k]);
            }
        }
        lemma_filter_keeps_all(prev, attr);
        assert(s.last() == s[s.len() - 1]);
        assert(prev.push(s.last()) =~= s);
    } else {
        assert(without_attr(s, attr) =~= s);
    }
}

proof fn lemma_filter_within(s: Seq<Package>, attr: Seq<char>)
    ensures
        forall|p: Package| #[trigger] without_attr(s, attr).contains(p) ==> s.contains(p),
    decreases s.len(),
{
    reveal_with_fuel(Seq::filter, 1);
    if s.len() > 0 {
        let prev = s.drop_last();
        lemma_filter_within(prev, attr);
        assert forall|p: Package| #[trigger] without_attr(s, attr).contains(p) implies s.contains(
            p,
        ) by {
            let r = without_attr(s, attr);
            let w = without_attr(prev, attr);
            assert(r == if s.last().attr_name@ != attr {
                w.push(s.last())
            } else {
                w
            });
            let k = choose|k: int| 0 <= k < r.len() && r[k] == p;
            if k < w.len() {
                assert(w[k] == p);
                assert(w.contains(p));
                assert(prev.contains(p));
                let j = choose|j: int| 0 <= j < prev.len() && prev[j] == p;
                assert(s[j] == prev[j]);
            } else {
                assert(p == s.last());
                assert(s[s.len() - 1] == p);
            }
        }
    } else {
        assert(without_attr(s, attr) =~= s);
    }
}

/// Unstaging a name takes out every package of that name and nothing else:
/// no package of the name is left, every other package stays, none is
/// added, and a list without the name is left as it was.
pub proof fn lemma_remove_attr_effect(s: Seq<Package>, attr: Seq<char>)
    ensures
        forall|i: int|
            0 <= i < without_attr(s, attr).len() ==> (#[trigger] without_attr(s, attr)[i]).attr_name@
                != attr,
        forall|i: int|
            0 <= i < s.len() && (#[trigger] s[i]).attr_name@ != attr ==> without_attr(
                s,
                attr,
            ).contains(s[i]),
        forall|p: Package| #[trigger] without_attr(s, attr).contains(p) ==> s.contains(p),
        without_attr(s, attr).len() <= s.len(),
        !has_attr(s, attr) ==> without_attr(s, attr) == s,
{
    broadcast use vstd::seq_lib::group_filter_ensures;
    lemma_filter_within(s, attr);
    if !has_attr(s, attr) {
        lemma_filter_keeps_all(s, attr);
    }
}

} // verus!
