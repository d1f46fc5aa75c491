//! What bringing a file of settings up to the example leaves of what its user wrote:
//! every line, in its order.

use crate::config_file::{self, EntryView, GapsView, SectionView};
use crate::document;
use crate::model;
use crate::text;
use vstd::prelude::*;

verus! {

/// A text that can be written on a line of its own and be read back: it does not break
/// the line, nor does it end in a carriage return, which would be read as a part of the
/// break.
pub open spec fn is_line(l: Seq<char>) -> bool {
    !l.contains('\n') && (l.len() > 0 ==> l.last() != '\r')
}

/// Texts that can be written on lines of their own. TOML has a carriage return only in
/// front of a line break, so the lines of a valid file are such.
pub open spec fn are_lines(ls: Seq<Seq<char>>) -> bool {
    forall|i: int| 0 <= i < ls.len() ==> is_line(#[trigger] ls[i])
}

/// Some lines stand at these places among others, one after the other.
pub open spec fn stand_at(a: Seq<Seq<char>>, b: Seq<Seq<char>>, places: Seq<int>) -> bool {
    &&& places.len() == a.len()
    &&& forall|i: int|
        0 <= i < a.len() ==> 0 <= #[trigger] places[i] < b.len() && b[places[i]] == a[i]
    &&& forall|i: int, j: int|
        0 <= i < j < a.len() ==> #[trigger] places[i] < #[trigger] places[j]
}

/// Some lines stand among others, in their order.
pub open spec fn stand_among(a: Seq<Seq<char>>, b: Seq<Seq<char>>) -> bool {
    exists|places: Seq<int>| stand_at(a, b, places)
}

proof fn lemma_among_itself(a: Seq<Seq<char>>)
    ensures
        stand_among(a, a),
{
    assert(stand_at(a, a, Seq::new(a.len(), |i: int| i)));
}

proof fn lemma_among_both(a: Seq<Seq<char>>, b: Seq<Seq<char>>, c: Seq<Seq<char>>)
    requires
        stand_among(a, b),
        stand_among(b, c),
    ensures
        stand_among(a, c),
{
    let p = choose|p: Seq<int>| stand_at(a, b, p);
    let q = choose|q: Seq<int>| stand_at(b, c, q);
    let r = Seq::new(a.len(), |i: int| q[p[i]]);
    assert forall|i: int| 0 <= i < a.len() implies 0 <= #[trigger] r[i] < c.len() && c[r[i]] == a[i] by {
        assert(0 <= p[i] < b.len());
        assert(0 <= q[p[i]] < c.len());
    }
    assert forall|i: int, j: int| 0 <= i < j < a.len() implies #[trigger] r[i] < #[trigger] r[j] by {
        assert(p[i] < p[j]);
        assert(q[p[i]] < q[p[j]]);
    }
    assert(stand_at(a, c, r));
}

/// Lines with others put in at a place stand among what comes of it.
proof fn lemma_among_more(a: Seq<Seq<char>>, at: int, more: Seq<Seq<char>>)
    requires
        0 <= at <= a.len(),
    ensures
        stand_among(a, a.take(at) + more + a.skip(at)),
{
    let b = a.take(at) + more + a.skip(at);
    let places = Seq::new(
        a.len(),
        |i: int|
            if i < at {
                i
            } else {
                i + more.len()
            },
    );
    assert(stand_at(a, b, places));
}

proof fn lemma_find_later(s: Seq<char>, t: Seq<char>, c: char, k: int)
    requires
        0 <= k <= t.len(),
    ensures
        text::find_char(s + t, c, s.len() + k) == s.len() + text::find_char(t, c, k),
    decreases t.len() - k,
{
    if k < t.len() && t[k] != c {
        lemma_find_later(s, t, c, k + 1);
    }
}

proof fn lemma_find_sooner(s: Seq<char>, t: Seq<char>, c: char, from: int)
    requires
        0 <= from <= s.len(),
        text::find_char(s, c, from) < s.len(),
    ensures
        text::find_char(s + t, c, from) == text::find_char(s, c, from),
    decreases s.len() - from,
{
    if from < s.len() && s[from] != c {
        lemma_find_sooner(s, t, c, from + 1);
    }
}

proof fn lemma_lines_later(s: Seq<char>, t: Seq<char>, k: int)
    requires
        0 <= k <= t.len(),
    ensures
        text::lines_from(s + t, s.len() + k) == text::lines_from(t, k),
    decreases t.len() - k,
{
    lemma_find_later(s, t, '\n', k);
    text::lemma_find_char(t, '\n', k);
    let e = text::find_char(t, '\n', k);
    assert((s + t).subrange(s.len() + k, s.len() + e) =~= t.subrange(k, e));
    if k < t.len() && e < t.len() {
        lemma_lines_later(s, t, e + 1);
    }
}

/// The lines of two texts one after the other, where the first one ends its last line.
pub(crate) proof fn lemma_lines_of_both(s: Seq<char>, t: Seq<char>, from: int)
    requires
        0 <= from <= s.len(),
        s.len() > 0,
        s.last() == '\n',
    ensures
        text::lines_from(s + t, from) == text::lines_from(s, from) + text::lines(t),
    decreases s.len() - from,
{
    if from == s.len() {
        lemma_lines_later(s, t, 0);
        assert(text::lines_from(s, from) + text::lines(t) =~= text::lines(t));
    } else {
        text::lemma_find_char(s, '\n', from);
        let e = text::find_char(s, '\n', from);
        assert(s[s.len() - 1] == '\n');
        assert(e < s.len());
        lemma_find_sooner(s, t, '\n', from);
        assert((s + t).subrange(from, e) =~= s.subrange(from, e));
        lemma_lines_of_both(s, t, e + 1);
        let l = seq![text::without_return(s.subrange(from, e))];
        assert(l + (text::lines_from(s, e + 1) + text::lines(t)) =~= (l + text::lines_from(
            s,
            e + 1,
        )) + text::lines(t));
    }
}

/// Ending the last line of a text leaves its lines as they are.
pub(crate) proof fn lemma_lines_ended(s: Seq<char>, from: int)
    requires
        0 <= from < s.len(),
        s.last() != '\n',
        s.last() != '\r',
    ensures
        text::lines_from(s.push('\n'), from) == text::lines_from(s, from),
    decreases s.len() - from,
{
    let t = s.push('\n');
    let n = s.len() as int;
    text::lemma_find_char(s, '\n', from);
    text::lemma_find_char(t, '\n', from);
    let e = text::find_char(s, '\n', from);
    let d = text::find_char(t, '\n', from);
    if e < n {
        assert(t =~= s + seq!['\n']);
        lemma_find_sooner(s, seq!['\n'], '\n', from);
        assert(t.subrange(from, e) =~= s.subrange(from, e));
        assert(s[n - 1] != '\n');
        lemma_lines_ended(s, e + 1);
    } else {
        assert(t[n] == '\n');
        assert(d <= n);
        assert(forall|i: int| from <= i < n ==> t[i] == s[i]);
        assert(d == n);
        assert(t.subrange(from, n) =~= s.subrange(from, n));
        assert(s.subrange(from, n).last() == s.last());
        assert(text::lines_from(t, n + 1) =~= Seq::<Seq<char>>::empty());
        assert(text::lines_from(t, from) =~= seq![s.subrange(from, n)]);
    }
}

proof fn lemma_one_line(l: Seq<char>)
    requires
        is_line(l),
    ensures
        text::lines(l.push('\n')) == seq![l],
        l.len() > 0 ==> text::lines(l) == seq![l],
{
    text::lemma_find_char(l, '\n', 0);
    if l.len() > 0 {
        let e = text::find_char(l, '\n', 0);
        if e < l.len() {
            assert(l.contains(l[e]));
        }
        assert(l.subrange(0, l.len() as int) =~= l);
        assert(l.last() == l[l.len() - 1]);
        assert(l.contains(l[l.len() - 1]));
        lemma_lines_ended(l, 0);
    } else {
        let t = l.push('\n');
        assert(text::find_char(t, '\n', 0) == 0);
        assert(t.subrange(0, 0) =~= l);
        assert(text::lines_from(t, 1) =~= Seq::<Seq<char>>::empty());
        assert(text::lines(t) =~= seq![l]);
    }
}

/// Lines that are written one below the other are read back.
proof fn lemma_lines_read_back(ls: Seq<Seq<char>>)
    requires
        are_lines(ls),
        ls.len() > 0,
    ensures
        text::lines(model::joined(ls, "\n"@).push('\n')) == ls,
        ls.last().len() > 0 ==> text::lines(model::joined(ls, "\n"@)) == ls,
    decreases ls.len(),
{
    reveal_strlit("\n");
    let last = ls.last();
    assert(is_line(ls[ls.len() - 1]));
    lemma_one_line(last);
    if ls.len() == 1 {
        assert(ls =~= seq![last]);
    } else {
        let less = ls.drop_last();
        assert forall|i: int| 0 <= i < less.len() implies is_line(#[trigger] less[i]) by {
            assert(less[i] == ls[i]);
        }
        lemma_lines_read_back(less);
        let head = model::joined(less, "\n"@).push('\n');
        assert(model::joined(ls, "\n"@) =~= head + last);
        assert(model::joined(ls, "\n"@).push('\n') =~= head + last.push('\n'));
        lemma_lines_of_both(head, last, 0);
        lemma_lines_of_both(head, last.push('\n'), 0);
        assert(less + seq![last] =~= ls);
    }
}

/// No line of a text holds a break, and the last one is not empty where nothing ends it.
pub(crate) proof fn lemma_lines_hold_no_break(s: Seq<char>, from: int)
    requires
        0 <= from <= s.len(),
    ensures
        forall|i: int|
            0 <= i < text::lines_from(s, from).len() ==> !(#[trigger] text::lines_from(
                s,
                from,
            )[i]).contains('\n'),
        from < s.len() && s.last() != '\n' ==> text::lines_from(s, from).len() > 0
            && text::lines_from(s, from).last().len() > 0,
        from == s.len() ==> text::lines_from(s, from).len() == 0,
    decreases s.len() - from,
{
    text::lemma_find_char(s, '\n', from);
    let e = text::find_char(s, '\n', from);
    if from < s.len() {
        let piece = s.subrange(from, e);
        assert(!piece.contains('\n')) by {
            if piece.contains('\n') {
                let i = choose|i: int| 0 <= i < piece.len() && piece[i] == '\n';
                assert(s[from + i] == '\n');
            }
        }
        if e < s.len() {
            let l = text::without_return(piece);
            assert(!l.contains('\n')) by {
                if l.contains('\n') {
                    let i = choose|i: int| 0 <= i < l.len() && l[i] == '\n';
                    assert(piece[i] == '\n');
                }
            }
            lemma_lines_hold_no_break(s, e + 1);
            let rest = text::lines_from(s, e + 1);
            assert forall|i: int| 0 <= i < text::lines_from(s, from).len() implies !(
            #[trigger] text::lines_from(s, from)[i]).contains('\n') by {
                if i > 0 {
                    assert(text::lines_from(s, from)[i] == rest[i - 1]);
                }
            }
            if s.last() != '\n' {
                assert(e + 1 < s.len());
                assert(text::lines_from(s, from).last() == rest.last());
            }
        }
    }
}

/// A setting that can be added to a text: its lines are lines, and the last of them says
/// something.
pub open spec fn is_entry(e: EntryView) -> bool {
    are_lines(e.lines) && e.lines.len() > 0 && e.lines.last().len() > 0
}

proof fn lemma_added_are_lines(entries: Seq<EntryView>)
    requires
        forall|i: int| 0 <= i < entries.len() ==> is_entry(#[trigger] entries[i]),
    ensures
        are_lines(config_file::added_lines(entries)),
        entries.len() > 0 ==> config_file::added_lines(entries).len() > 0
            && config_file::added_lines(entries).last().len() > 0,
    decreases entries.len(),
{
    if entries.len() > 0 {
        let less = entries.drop_last();
        let e = entries.last();
        assert(is_entry(entries[entries.len() - 1]));
        assert forall|i: int| 0 <= i < less.len() implies is_entry(#[trigger] less[i]) by {
            assert(less[i] == entries[i]);
        }
        lemma_added_are_lines(less);
        let before = config_file::added_lines(less);
        let all = config_file::added_lines(entries);
        assert forall|i: int| 0 <= i < all.len() implies is_line(#[trigger] all[i]) by {
            if i < before.len() {
                assert(all[i] == before[i]);
            } else if i > before.len() {
                assert(all[i] == e.lines[i - before.len() - 1]);
            }
        }
        assert(all.last() == e.lines.last());
    }
}

/// The lines of a text with settings in it are the lines it was put together from, and
/// those it had stand among them.
pub(crate) proof fn lemma_inserted_lines(s: Seq<char>, section: Seq<char>, entries: Seq<EntryView>)
    requires
        are_lines(text::lines(s)),
        forall|i: int| 0 <= i < entries.len() ==> is_entry(#[trigger] entries[i]),
        config_file::text_inserted(s, section, entries) is Some,
    ensures
        are_lines(text::lines(config_file::text_inserted(s, section, entries)->0)),
        Some(text::lines(config_file::text_inserted(s, section, entries)->0))
            == config_file::inserted(text::lines(s), section, entries),
        stand_among(
            text::lines(s),
            text::lines(config_file::text_inserted(s, section, entries)->0),
        ),
{
    let ls = text::lines(s);
    let start = config_file::own_header_from(ls, section, 0);
    config_file::lemma_own_header(ls, section, 0);
    config_file::lemma_header_from(ls, start + 1);
    let end = config_file::header_from(ls, start + 1);
    config_file::lemma_filled_end(ls, start + 1, end);
    let at = config_file::filled_end(ls, start + 1, end);
    let more = config_file::added_lines(entries);
    let r = ls.take(at) + more + ls.skip(at);
    assert(config_file::inserted(ls, section, entries) == Some(r));
    lemma_added_are_lines(entries);
    assert forall|i: int| 0 <= i < r.len() implies is_line(#[trigger] r[i]) by {
        if i < at {
            assert(r[i] == ls[i]);
        } else if i < at + more.len() {
            assert(r[i] == more[i - at]);
        } else {
            assert(r[i] == ls[i - more.len()]);
        }
    }
    lemma_lines_hold_no_break(s, 0);
    lemma_lines_read_back(r);
    if !(s.len() > 0 && s.last() == '\n') {
        if at < ls.len() {
            assert(r.last() == ls.last());
        } else if more.len() > 0 {
            assert(r.last() == more.last());
        } else {
            assert(r =~= ls);
        }
        assert(entries.len() == 0 ==> more.len() == 0);
    }
    lemma_among_more(ls, at, more);
}

/// Settings by section that can be added to a text.
pub open spec fn are_entries(partial: Seq<(Seq<char>, Seq<EntryView>)>) -> bool {
    forall|p: int, i: int|
        0 <= p < partial.len() && 0 <= i < partial[p].1.len() ==> is_entry(
            #[trigger] partial[p].1[i],
        )
}

proof fn lemma_filled_in(s: Seq<char>, partial: Seq<(Seq<char>, Seq<EntryView>)>)
    requires
        are_lines(text::lines(s)),
        are_entries(partial),
    ensures
        are_lines(text::lines(config_file::filled_in(s, partial))),
        stand_among(text::lines(s), text::lines(config_file::filled_in(s, partial))),
    decreases partial.len(),
{
    if partial.len() == 0 {
        lemma_among_itself(text::lines(s));
    } else {
        let less = partial.drop_last();
        assert forall|p: int, i: int|
            0 <= p < less.len() && 0 <= i < less[p].1.len() implies is_entry(
            #[trigger] less[p].1[i],
        ) by {
            assert(less[p].1[i] == partial[p].1[i]);
        }
        lemma_filled_in(s, less);
        let before = config_file::filled_in(s, less);
        let (name, entries) = partial.last();
        assert forall|i: int| 0 <= i < entries.len() implies is_entry(#[trigger] entries[i]) by {
            assert(entries[i] == partial[partial.len() - 1].1[i]);
        }
        if config_file::text_inserted(before, name, entries) is Some {
            lemma_inserted_lines(before, name, entries);
            lemma_among_both(
                text::lines(s),
                text::lines(before),
                text::lines(config_file::filled_in(s, partial)),
            );
        }
    }
}

/// What is put at the end of a text leaves its lines at the beginning.
proof fn lemma_appended(s: Seq<char>, absent: Seq<SectionView>)
    requires
        are_lines(text::lines(s)),
    ensures
        config_file::appended(s, absent).len() > 0,
        config_file::appended(s, absent).last() == '\n',
        stand_among(text::lines(s), text::lines(config_file::appended(s, absent))),
    decreases absent.len(),
{
    let ls = text::lines(s);
    if absent.len() == 0 {
        if s.len() > 0 && s.last() != '\n' {
            lemma_lines_hold_no_break(s, 0);
            lemma_last_line_ends(s, 0);
            assert(is_line(ls[ls.len() - 1]));
            lemma_lines_ended(s, 0);
        }
        if s.len() == 0 {
            lemma_lines_hold_no_break(s, 0);
            lemma_among_more(ls, 0, text::lines(s.push('\n')));
            assert(ls.take(0) + text::lines(s.push('\n')) + ls.skip(0) =~= text::lines(s.push('\n')));
        } else {
            lemma_among_itself(ls);
        }
    } else {
        let less = absent.drop_last();
        lemma_appended(s, less);
        let head = config_file::appended(s, less);
        let body = text::trim_end(model::joined(absent.last().lines, "\n"@)).push('\n');
        let all = config_file::appended(s, absent);
        let tail = seq!['\n'] + body;
        assert(all =~= head + tail);
        assert(all.last() == body.last());
        lemma_lines_of_both(head, tail, 0);
        let hs = text::lines(head);
        lemma_among_more(hs, hs.len() as int, text::lines(tail));
        assert(hs.take(hs.len() as int) + text::lines(tail) + hs.skip(hs.len() as int) =~= hs
            + text::lines(tail));
        lemma_among_both(ls, hs, text::lines(all));
    }
}

/// A line that nothing ends ends as the text does.
pub(crate) proof fn lemma_last_line_ends(s: Seq<char>, from: int)
    requires
        0 <= from < s.len(),
        s.last() != '\n',
    ensures
        text::lines_from(s, from).len() > 0,
        text::lines_from(s, from).last().len() > 0,
        text::lines_from(s, from).last().last() == s.last(),
    decreases s.len() - from,
{
    text::lemma_find_char(s, '\n', from);
    let e = text::find_char(s, '\n', from);
    if e < s.len() {
        assert(s[s.len() - 1] != '\n');
        lemma_last_line_ends(s, e + 1);
        assert(text::lines_from(s, from).last() == text::lines_from(s, e + 1).last());
    } else {
        assert(s.subrange(from, s.len() as int).last() == s.last());
    }
}

/// Lines that hold no break.
pub open spec fn unbroken(ls: Seq<Seq<char>>) -> bool {
    forall|i: int| 0 <= i < ls.len() ==> !(#[trigger] ls[i]).contains('\n')
}

proof fn lemma_trimmed_is_a_line(l: Seq<char>)
    requires
        !l.contains('\n'),
    ensures
        is_line(text::trim_end(l)),
        text::trim_end(l).len() > 0 ==> is_line("# "@ + text::trim_end(l)),
    decreases l.len(),
{
    if l.len() > 0 && text::is_space(l.last()) {
        assert(!l.drop_last().contains('\n')) by {
            if l.drop_last().contains('\n') {
                let i = choose|i: int| 0 <= i < l.drop_last().len() && l.drop_last()[i] == '\n';
                assert(l[i] == '\n');
            }
        }
        lemma_trimmed_is_a_line(l.drop_last());
    } else if l.len() > 0 {
        reveal_strlit("# ");
        let y = "# "@ + l;
        assert(y.last() == l.last());
        assert(!y.contains('\n')) by {
            if y.contains('\n') {
                let i = choose|i: int| 0 <= i < y.len() && y[i] == '\n';
                assert(i >= 2);
                assert(l[i - 2] == '\n');
            }
        }
    }
}

proof fn lemma_entries_can_be_added(
    ls: Seq<Seq<char>>,
    i: int,
    above: Seq<Seq<char>>,
    k: int,
)
    requires
        unbroken(ls),
        are_lines(above),
        0 <= k < config_file::entries_from(ls, i, above).len(),
    ensures
        is_entry(config_file::entries_from(ls, i, above)[k]),
    decreases ls.len() - i,
{
    if 0 <= i < ls.len() {
        let l = ls[i];
        let t = text::trimmed(l);
        let none = Seq::<Seq<char>>::empty();
        lemma_trimmed_is_a_line(l);
        text::lemma_trims_commute(l);
        match config_file::key_in(l) {
            Some(key) => {
                config_file::lemma_key_line(l);
                assert(text::trim_end(l).len() > 0);
                reveal_strlit("# ");
                if k > 0 {
                    lemma_entries_can_be_added(ls, i + 1, none, k - 1);
                }
            },
            None => {
                if t.len() > 0 && t[0] == '#' {
                    lemma_entries_can_be_added(ls, i + 1, above.push(text::trim_end(l)), k);
                } else {
                    lemma_entries_can_be_added(ls, i + 1, none, k);
                }
            },
        }
    }
}

pub(crate) proof fn lemma_sections_hold_lines(ls: Seq<Seq<char>>, from: int, k: int)
    requires
        0 <= from,
        unbroken(ls),
        0 <= k < config_file::sections_from(ls, from).len(),
    ensures
        unbroken(config_file::sections_from(ls, from)[k].lines),
    decreases ls.len() - from,
{
    config_file::lemma_header_from(ls, from);
    let h = config_file::header_from(ls, from);
    if h < ls.len() {
        config_file::lemma_header_from(ls, h + 1);
        let next = config_file::header_from(ls, h + 1);
        config_file::lemma_comments_above(ls, h, 0);
        if next < ls.len() {
            config_file::lemma_header_is_no_comment(ls[h]);
            config_file::lemma_comments_above(ls, next, h + 1);
        }
        if k > 0 {
            lemma_sections_hold_lines(ls, h + 1, k - 1);
        }
    }
}

proof fn lemma_gaps_can_be_added(
    sections: Seq<SectionView>,
    have: Seq<(Seq<char>, document::ItemView)>,
    want: Seq<(Seq<char>, document::ItemView)>,
    ls: Seq<Seq<char>>,
)
    requires
        forall|k: int| 0 <= k < sections.len() ==> unbroken(#[trigger] sections[k].lines),
    ensures
        are_entries(config_file::gaps_in(sections, have, want, ls).partial),
    decreases sections.len(),
{
    if sections.len() > 0 {
        let less = sections.drop_last();
        let s = sections.last();
        assert forall|k: int| 0 <= k < less.len() implies unbroken(#[trigger] less[k].lines) by {
            assert(less[k] == sections[k]);
        }
        assert(unbroken(sections[sections.len() - 1].lines));
        lemma_gaps_can_be_added(less, have, want, ls);
        let g = config_file::gaps_in(less, have, want, ls);
        match (document::item_of(have, s.name), document::item_of(want, s.name)) {
            (Some(document::ItemView::Table(mine)), Some(document::ItemView::Table(theirs))) => {
                let es = config_file::entries_of(s);
                let body = config_file::body_of(ls, s.name);
                let m = config_file::missing(es, theirs, mine, body);
                config_file::lemma_missing(es, theirs, mine, body);
                assert forall|i: int| 0 <= i < m.len() implies is_entry(#[trigger] m[i]) by {
                    let j = choose|j: int| 0 <= j < es.len() && es[j] == m[i];
                    lemma_entries_can_be_added(
                        s.lines,
                        config_file::own_header_from(s.lines, s.name, 0) + 1,
                        Seq::empty(),
                        j,
                    );
                }
                let p = g.partial.push((s.name, m));
                assert forall|q: int, i: int| 0 <= q < p.len() && 0 <= i < p[q].1.len() implies is_entry(
                    #[trigger] p[q].1[i],
                ) by {
                    if q < g.partial.len() {
                        assert(p[q].1[i] == g.partial[q].1[i]);
                    } else {
                        assert(p[q].1[i] == m[i]);
                    }
                }
            },
            _ => {},
        }
    }
}

pub(crate) proof fn lemma_what_is_missing_can_be_added(s: Seq<char>, g: GapsView)
    requires
        config_file::gaps_of(s) == Some(g),
    ensures
        are_entries(g.partial),
{
    let example = text::lines(config_file::EXAMPLE_TOML@);
    let sections = config_file::sections_from(example, 0);
    lemma_lines_hold_no_break(config_file::EXAMPLE_TOML@, 0);
    assert(unbroken(example));
    assert forall|k: int| 0 <= k < sections.len() implies unbroken(#[trigger] sections[k].lines) by {
        lemma_sections_hold_lines(example, 0, k);
    }
    lemma_gaps_can_be_added(
        sections,
        document::document(s)->0,
        document::document(config_file::EXAMPLE_TOML@)->0,
        text::lines(s),
    );
}

/// Bringing a file up to the example keeps every line of the user's, in its order.
pub proof fn the_file_keeps_every_line(s: Seq<char>, g: GapsView)
    requires
        config_file::gaps_of(s) == Some(g),
        are_lines(text::lines(s)),
    ensures
        stand_among(text::lines(s), text::lines(config_file::topped(s, g))),
{
    lemma_what_is_missing_can_be_added(s, g);
    let t = config_file::filled_in(s, g.partial);
    lemma_filled_in(s, g.partial);
    if g.absent.len() > 0 {
        lemma_appended(t, g.absent);
        lemma_among_both(
            text::lines(s),
            text::lines(t),
            text::lines(config_file::topped(s, g)),
        );
    }
}

} // verus!
