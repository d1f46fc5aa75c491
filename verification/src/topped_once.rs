//! Bringing a file of settings up to the example settles it: what was added is found when
//! the file is looked at again, so that nothing is added a second time.

use crate::config_file::{self, EntryView, GapsView, SectionView};
use crate::document::{self, ItemView};
use crate::kept_lines;
use crate::text;
use vstd::prelude::*;

verus! {

/// A section begins on one of these lines.
pub open spec fn begins(ls: Seq<Seq<char>>, section: Seq<char>) -> bool {
    config_file::own_header_from(ls, section, 0) < ls.len()
}

proof fn lemma_found(ls: Seq<Seq<char>>, section: Seq<char>, i: int)
    requires
        0 <= i <= ls.len(),
    ensures
        i <= config_file::own_header_from(ls, section, i) <= ls.len(),
        config_file::own_header_from(ls, section, i) < ls.len() ==> text::trimmed(
            ls[config_file::own_header_from(ls, section, i)],
        ) == config_file::header_of(section),
        forall|j: int|
            i <= j < config_file::own_header_from(ls, section, i) ==> text::trimmed(
                #[trigger] ls[j],
            ) != config_file::header_of(section),
    decreases ls.len() - i,
{
    if i < ls.len() && text::trimmed(ls[i]) != config_file::header_of(section) {
        lemma_found(ls, section, i + 1);
    }
}

proof fn lemma_stands(ls: Seq<Seq<char>>, section: Seq<char>, i: int, p: int)
    requires
        0 <= i <= p < ls.len(),
        text::trimmed(ls[p]) == config_file::header_of(section),
        forall|j: int| i <= j < p ==> text::trimmed(#[trigger] ls[j]) != config_file::header_of(section),
    ensures
        config_file::own_header_from(ls, section, i) == p,
    decreases p - i,
{
    if i < p {
        assert(text::trimmed(ls[i]) != config_file::header_of(section));
        lemma_stands(ls, section, i + 1, p);
    }
}

proof fn lemma_stands_nowhere(ls: Seq<Seq<char>>, section: Seq<char>)
    requires
        forall|j: int|
            0 <= j < ls.len() ==> text::trimmed(#[trigger] ls[j]) != config_file::header_of(section),
    ensures
        !begins(ls, section),
{
    lemma_found(ls, section, 0);
}

/// A line that begins no section and is not to be taken for one: blank, or a comment.
spec fn is_aside(l: Seq<char>) -> bool {
    text::trimmed(l).len() == 0 || text::trimmed(l)[0] == '#'
}

proof fn lemma_aside(l: Seq<char>, section: Seq<char>)
    requires
        is_aside(l),
    ensures
        text::trimmed(l) != config_file::header_of(section),
        !config_file::is_header(l),
{
    reveal_strlit("[");
    assert(config_file::header_of(section)[0] == '[');
}

proof fn lemma_added_aside(entries: Seq<EntryView>)
    requires
        forall|i: int|
            0 <= i < entries.len() ==> config_file::is_commented_out(#[trigger] entries[i]),
    ensures
        forall|j: int|
            0 <= j < config_file::added_lines(entries).len() ==> is_aside(
                #[trigger] config_file::added_lines(entries)[j],
            ),
    decreases entries.len(),
{
    if entries.len() > 0 {
        let less = entries.drop_last();
        let e = entries.last();
        assert forall|i: int| 0 <= i < less.len() implies config_file::is_commented_out(
            #[trigger] less[i],
        ) by {
            assert(less[i] == entries[i]);
        }
        lemma_added_aside(less);
        assert(config_file::is_commented_out(entries[entries.len() - 1]));
        let before = config_file::added_lines(less);
        let all = config_file::added_lines(entries);
        assert forall|j: int| 0 <= j < all.len() implies is_aside(#[trigger] all[j]) by {
            if j < before.len() {
                assert(all[j] == before[j]);
            } else if j == before.len() {
                assert(all[j] =~= Seq::<char>::empty());
            } else {
                assert(all[j] == e.lines[j - before.len() - 1]);
                text::lemma_trim_end(text::trim_start(all[j]));
            }
        }
    }
}

/// Lines put in that begin no section leave every section where it begins, and what it
/// mentions in it.
proof fn lemma_put_in(
    ls: Seq<Seq<char>>,
    at: int,
    more: Seq<Seq<char>>,
    section: Seq<char>,
    key: Seq<char>,
)
    requires
        0 <= at <= ls.len(),
        forall|j: int| 0 <= j < more.len() ==> is_aside(#[trigger] more[j]),
    ensures
        begins(ls.take(at) + more + ls.skip(at), section) == begins(ls, section),
        config_file::mentions(config_file::body_of(ls, section), key) ==> config_file::mentions(
            config_file::body_of(ls.take(at) + more + ls.skip(at), section),
            key,
        ),
{
    let r = ls.take(at) + more + ls.skip(at);
    let n = more.len() as int;
    let h = config_file::header_of(section);
    lemma_found(ls, section, 0);
    let p = config_file::own_header_from(ls, section, 0);
    assert forall|j: int| 0 <= j < r.len() implies (#[trigger] r[j]) == if j < at {
        ls[j]
    } else if j < at + n {
        more[j - at]
    } else {
        ls[j - n]
    } by {}
    assert forall|j: int| at <= j < at + n implies text::trimmed(#[trigger] r[j]) != h
        && !config_file::is_header(r[j]) by {
        assert(is_aside(more[j - at]));
        lemma_aside(more[j - at], section);
    }
    if p >= ls.len() {
        assert forall|j: int| 0 <= j < r.len() implies text::trimmed(#[trigger] r[j]) != h by {}
        lemma_stands_nowhere(r, section);
    } else {
        let q = if p < at {
            p
        } else {
            p + n
        };
        assert forall|j: int| 0 <= j < q implies text::trimmed(#[trigger] r[j]) != h by {}
        lemma_stands(r, section, 0, q);
        let body = config_file::body_of(ls, section);
        if config_file::mentions(body, key) {
            let end = config_file::header_from(ls, p + 1);
            config_file::lemma_header_from(ls, p + 1);
            let w = choose|w: int|
                0 <= w < body.len() && config_file::key_in(#[trigger] body[w]) == Some(key);
            let j = p + 1 + w;
            assert(body[w] == ls[j]);
            let k = if j < at {
                j
            } else {
                j + n
            };
            assert(r[k] == ls[j]);
            assert forall|i: int| q + 1 <= i < k + 1 implies !config_file::is_header(#[trigger] r[i]) by {
                if i < at {
                    config_file::lemma_before_header(ls, p + 1, i);
                } else if i >= at + n {
                    config_file::lemma_before_header(ls, p + 1, i - n);
                }
            }
            config_file::lemma_no_header(r, q + 1, k + 1);
            let all = config_file::body_of(r, section);
            assert(all[k - q - 1] == r[k]);
        }
    }
}

/// Lines put at the end leave every section where it begins, and what it mentions in it.
proof fn lemma_put_behind(
    ls: Seq<Seq<char>>,
    more: Seq<Seq<char>>,
    section: Seq<char>,
    key: Seq<char>,
)
    requires
        config_file::mentions(config_file::body_of(ls, section), key),
    ensures
        config_file::mentions(config_file::body_of(ls + more, section), key),
{
    let r = ls + more;
    lemma_found(ls, section, 0);
    let p = config_file::own_header_from(ls, section, 0);
    let body = config_file::body_of(ls, section);
    let w = choose|w: int|
        0 <= w < body.len() && config_file::key_in(#[trigger] body[w]) == Some(key);
    assert(p < ls.len());
    assert forall|j: int| 0 <= j < p implies text::trimmed(#[trigger] r[j])
        != config_file::header_of(section) by {
        assert(r[j] == ls[j]);
    }
    lemma_stands(r, section, 0, p);
    config_file::lemma_header_from(ls, p + 1);
    let j = p + 1 + w;
    assert(body[w] == ls[j]);
    assert forall|i: int| p + 1 <= i < j + 1 implies !config_file::is_header(#[trigger] r[i]) by {
        assert(r[i] == ls[i]);
        config_file::lemma_before_header(ls, p + 1, i);
    }
    config_file::lemma_no_header(r, p + 1, j + 1);
    let all = config_file::body_of(r, section);
    assert(all[w] == r[j]);
}

/// Settings by section, all of them commented out.
pub open spec fn are_commented_out(partial: Seq<(Seq<char>, Seq<EntryView>)>) -> bool {
    forall|p: int, i: int|
        0 <= p < partial.len() && 0 <= i < partial[p].1.len() ==> config_file::is_commented_out(
            #[trigger] partial[p].1[i],
        )
}

/// What is missing from the sections of a file goes into each that begins on a line of
/// its own, and every section keeps what it mentioned.
proof fn lemma_filled_in(
    s: Seq<char>,
    partial: Seq<(Seq<char>, Seq<EntryView>)>,
    section: Seq<char>,
    key: Seq<char>,
)
    requires
        kept_lines::are_lines(text::lines(s)),
        kept_lines::are_entries(partial),
        are_commented_out(partial),
    ensures
        kept_lines::are_lines(text::lines(config_file::filled_in(s, partial))),
        begins(text::lines(config_file::filled_in(s, partial)), section) == begins(
            text::lines(s),
            section,
        ),
        config_file::mentions(config_file::body_of(text::lines(s), section), key)
            ==> config_file::mentions(
            config_file::body_of(text::lines(config_file::filled_in(s, partial)), section),
            key,
        ),
        forall|p: int, i: int|
            0 <= p < partial.len() && 0 <= i < partial[p].1.len() && partial[p].0 == section && (
            #[trigger] partial[p].1[i]).key == key && begins(text::lines(s), section)
                ==> config_file::mentions(
                config_file::body_of(text::lines(config_file::filled_in(s, partial)), section),
                key,
            ),
    decreases partial.len(),
{
    if partial.len() > 0 {
        let less = partial.drop_last();
        let (name, entries) = partial.last();
        assert forall|p: int, i: int|
            0 <= p < less.len() && 0 <= i < less[p].1.len() implies kept_lines::is_entry(
            #[trigger] less[p].1[i],
        ) && config_file::is_commented_out(less[p].1[i]) by {
            assert(less[p].1[i] == partial[p].1[i]);
        }
        assert forall|i: int| 0 <= i < entries.len() implies kept_lines::is_entry(
            #[trigger] entries[i],
        ) && config_file::is_commented_out(entries[i]) by {
            assert(entries[i] == partial[partial.len() - 1].1[i]);
        }
        lemma_filled_in(s, less, section, key);
        let before = config_file::filled_in(s, less);
        let after = config_file::filled_in(s, partial);
        let ls = text::lines(before);
        let r = text::lines(after);
        if config_file::inserted(ls, name, entries) is Some {
            kept_lines::lemma_inserted_lines(before, name, entries);
            assert(config_file::inserted(ls, name, entries) == Some(r));
            let start = config_file::own_header_from(ls, name, 0);
            let end = config_file::header_from(ls, start + 1);
            let at = config_file::filled_end(ls, start + 1, end);
            config_file::lemma_own_header(ls, name, 0);
            config_file::lemma_header_from(ls, start + 1);
            config_file::lemma_filled_end(ls, start + 1, end);
            lemma_added_aside(entries);
            lemma_put_in(ls, at, config_file::added_lines(entries), section, key);
        }
        assert forall|p: int, i: int|
            0 <= p < partial.len() && 0 <= i < partial[p].1.len() && partial[p].0 == section && (
            #[trigger] partial[p].1[i]).key == key && begins(
                text::lines(s),
                section,
            ) implies config_file::mentions(config_file::body_of(r, section), key) by {
            if p < less.len() {
                assert(less[p].1[i] == partial[p].1[i]);
            } else {
                assert(name == section);
                assert(begins(ls, section));
                assert(entries[i].key == key);
                config_file::what_is_added_is_mentioned(ls, name, entries, r, key);
            }
        }
    }
}

/// None of these lines is this one, but for the blanks around it.
spec fn lack(ls: Seq<Seq<char>>, h: Seq<char>) -> bool {
    forall|j: int| 0 <= j < ls.len() ==> text::trimmed(#[trigger] ls[j]) != h
}

proof fn lemma_both_lack(a: Seq<Seq<char>>, b: Seq<Seq<char>>, h: Seq<char>)
    ensures
        lack(a + b, h) <==> lack(a, h) && lack(b, h),
{
    if lack(a + b, h) {
        assert forall|j: int| 0 <= j < a.len() implies text::trimmed(#[trigger] a[j]) != h by {
            assert((a + b)[j] == a[j]);
        }
        assert forall|j: int| 0 <= j < b.len() implies text::trimmed(#[trigger] b[j]) != h by {
            assert((a + b)[a.len() + j] == b[j]);
        }
    }
}

/// The blanks at the end of a line are of no consequence.
proof fn lemma_blank_behind(l: Seq<char>)
    requires
        l.len() > 0,
        text::is_space(l.last()),
    ensures
        text::trimmed(l.drop_last()) == text::trimmed(l),
{
    text::lemma_trims_commute(l);
    text::lemma_trims_commute(l.drop_last());
}

proof fn lemma_one_line(l: Seq<char>)
    requires
        !l.contains('\n'),
    ensures
        text::lines(l.push('\n')).len() == 1,
        text::trimmed(text::lines(l.push('\n'))[0]) == text::trimmed(l),
{
    let t = l.push('\n');
    text::lemma_find_char(t, '\n', 0);
    let e = text::find_char(t, '\n', 0);
    assert(t[l.len() as int] == '\n');
    if e < l.len() {
        assert(l[e] == '\n');
    }
    assert(t.subrange(0, e) =~= l);
    assert(text::lines_from(t, e + 1) =~= Seq::<Seq<char>>::empty());
    assert(text::lines(t) =~= seq![text::without_return(l)]);
    if l.len() > 0 && l.last() == '\r' {
        lemma_blank_behind(l);
    }
}

/// Where the last line of a text begins.
spec fn last_line_at(s: Seq<char>) -> int
    decreases s.len(),
{
    if s.len() == 0 || s.last() == '\n' {
        s.len() as int
    } else {
        last_line_at(s.drop_last())
    }
}

proof fn lemma_last_line_at(s: Seq<char>)
    ensures
        0 <= last_line_at(s) <= s.len(),
        last_line_at(s) > 0 ==> s[last_line_at(s) - 1] == '\n',
        forall|j: int| last_line_at(s) <= j < s.len() ==> s[j] != '\n',
    decreases s.len(),
{
    if s.len() > 0 && s.last() != '\n' {
        lemma_last_line_at(s.drop_last());
        let e = last_line_at(s);
        assert forall|j: int| e <= j < s.len() implies s[j] != '\n' by {
            if j < s.len() - 1 {
                assert(s.drop_last()[j] == s[j]);
            }
        }
    }
}

/// The lines of a text are those above its last one, and that one.
proof fn lemma_lines_above(s: Seq<char>, h: Seq<char>)
    ensures
        lack(text::lines(s.push('\n')), h) <==> lack(text::lines(s.take(last_line_at(s))), h)
            && text::trimmed(s.skip(last_line_at(s))) != h,
{
    lemma_last_line_at(s);
    let e = last_line_at(s);
    let above = s.take(e);
    let last = s.skip(e);
    assert(!last.contains('\n')) by {
        if last.contains('\n') {
            let j = choose|j: int| 0 <= j < last.len() && last[j] == '\n';
            assert(s[e + j] == '\n');
        }
    }
    lemma_one_line(last);
    let one = text::lines(last.push('\n'));
    assert(lack(one, h) <==> text::trimmed(last) != h) by {
        if text::trimmed(last) == h {
            assert(text::trimmed(one[0]) == h);
        }
    }
    if e > 0 {
        assert(above.last() == s[e - 1]);
        assert(s.push('\n') =~= above + last.push('\n'));
        kept_lines::lemma_lines_of_both(above, last.push('\n'), 0);
        lemma_both_lack(text::lines(above), one, h);
    } else {
        assert(above =~= Seq::<char>::empty());
        assert(last =~= s);
        assert(text::lines(above) =~= Seq::<Seq<char>>::empty());
    }
}

proof fn lemma_joined_lacks(ls: Seq<Seq<char>>, h: Seq<char>)
    requires
        kept_lines::unbroken(ls),
        lack(ls, h),
        h.len() > 0,
    ensures
        lack(text::lines(crate::model::joined(ls, "\n"@).push('\n')), h),
    decreases ls.len(),
{
    reveal_strlit("\n");
    if ls.len() == 0 {
        let none = Seq::<char>::empty();
        lemma_one_line(none);
        assert(text::trimmed(none) =~= none);
    } else if ls.len() == 1 {
        lemma_one_line(ls[0]);
        assert(text::trimmed(ls[0]) != h);
    } else {
        let less = ls.drop_last();
        let last = ls.last();
        assert(last == ls[ls.len() - 1]);
        assert forall|i: int| 0 <= i < less.len() implies (#[trigger] less[i]) == ls[i] by {}
        lemma_joined_lacks(less, h);
        lemma_one_line(last);
        let head = crate::model::joined(less, "\n"@).push('\n');
        assert(crate::model::joined(ls, "\n"@).push('\n') =~= head + last.push('\n'));
        kept_lines::lemma_lines_of_both(head, last.push('\n'), 0);
        lemma_both_lack(text::lines(head), text::lines(last.push('\n')), h);
    }
}

/// A text that loses the blanks at its end gets no new line.
proof fn lemma_trimmed_lacks(s: Seq<char>, h: Seq<char>)
    requires
        lack(text::lines(s.push('\n')), h),
        h.len() > 0,
    ensures
        lack(text::lines(text::trim_end(s).push('\n')), h),
    decreases s.len(),
{
    if s.len() > 0 && text::is_space(s.last()) {
        let less = s.drop_last();
        lemma_lines_above(s, h);
        lemma_lines_above(less, h);
        let e = last_line_at(s);
        if s.last() == '\n' {
            assert(s.take(e) =~= less.push('\n'));
        } else {
            lemma_last_line_at(less);
            assert(e == last_line_at(less));
            assert(less.take(e) =~= s.take(e));
            assert(less.skip(e) =~= s.skip(e).drop_last());
            assert(s.skip(e).last() == s.last());
            lemma_blank_behind(s.skip(e));
        }
        lemma_trimmed_lacks(less, h);
    }
}

/// What is put at the end of a text stands behind the lines that it had.
proof fn lemma_appended(s: Seq<char>, absent: Seq<SectionView>, h: Seq<char>) -> (tail: Seq<
    Seq<char>,
>)
    requires
        kept_lines::are_lines(text::lines(s)),
        h.len() > 0,
    ensures
        config_file::appended(s, absent).len() > 0,
        config_file::appended(s, absent).last() == '\n',
        text::lines(config_file::appended(s, absent)) == text::lines(s) + tail,
        (forall|k: int|
            0 <= k < absent.len() ==> kept_lines::unbroken((#[trigger] absent[k]).lines) && lack(
                absent[k].lines,
                h,
            )) ==> lack(tail, h),
    decreases absent.len(),
{
    let ls = text::lines(s);
    let blank = Seq::<char>::empty();
    assert(text::trimmed(blank) =~= blank);
    lemma_one_line(blank);
    if absent.len() == 0 {
        let none = Seq::<Seq<char>>::empty();
        kept_lines::lemma_lines_hold_no_break(s, 0);
        if s.len() == 0 {
            assert(ls =~= none);
            assert(s =~= blank);
            let tail = text::lines(s.push('\n'));
            assert(ls + tail =~= tail);
            tail
        } else {
            if s.last() != '\n' {
                kept_lines::lemma_last_line_ends(s, 0);
                assert(kept_lines::is_line(ls[ls.len() - 1]));
                kept_lines::lemma_lines_ended(s, 0);
            }
            assert(ls + none =~= ls);
            none
        }
    } else {
        let less = absent.drop_last();
        let before = lemma_appended(s, less, h);
        let head = config_file::appended(s, less);
        let section = crate::model::joined(absent.last().lines, "\n"@);
        let body = text::trim_end(section).push('\n');
        let more = blank.push('\n') + body;
        let all = config_file::appended(s, absent);
        assert(all =~= head + more);
        assert(all.last() == body.last());
        kept_lines::lemma_lines_of_both(head, more, 0);
        kept_lines::lemma_lines_of_both(blank.push('\n'), body, 0);
        let tail = before + text::lines(more);
        assert(ls + before + text::lines(more) =~= ls + tail);
        if forall|k: int|
            0 <= k < absent.len() ==> kept_lines::unbroken((#[trigger] absent[k]).lines) && lack(
                absent[k].lines,
                h,
            ) {
            assert forall|k: int| 0 <= k < less.len() implies (#[trigger] less[k]) == absent[k] by {}
            assert(absent.last() == absent[absent.len() - 1]);
            lemma_joined_lacks(absent.last().lines, h);
            lemma_trimmed_lacks(section, h);
            lemma_both_lack(text::lines(blank.push('\n')), text::lines(body), h);
            lemma_both_lack(before, text::lines(more), h);
        }
        tail
    }
}

/// A text that begins and ends in no bracket.
spec fn is_bare(n: Seq<char>) -> bool {
    n.len() > 0 ==> n[0] != '[' && n[0] != ']' && n.last() != '[' && n.last() != ']'
}

proof fn lemma_unbracketed_start(s: Seq<char>)
    ensures
        config_file::unbracketed_start(s).len() > 0 ==> config_file::unbracketed_start(s)[0] != '['
            && config_file::unbracketed_start(s)[0] != ']',
    decreases s.len(),
{
    if s.len() > 0 && (s[0] == '[' || s[0] == ']') {
        lemma_unbracketed_start(s.drop_first());
    }
}

proof fn lemma_unbracketed_end(s: Seq<char>)
    ensures
        config_file::unbracketed_end(s).len() <= s.len(),
        config_file::unbracketed_end(s).len() > 0 ==> config_file::unbracketed_end(s)[0] == s[0]
            && config_file::unbracketed_end(s).last() != '['
            && config_file::unbracketed_end(s).last() != ']',
    decreases s.len(),
{
    if s.len() > 0 && (s.last() == '[' || s.last() == ']') {
        lemma_unbracketed_end(s.drop_last());
    }
}

proof fn lemma_names_are_bare(line: Seq<char>)
    ensures
        is_bare(config_file::name_in(line)),
{
    lemma_unbracketed_start(text::trimmed(line));
    lemma_unbracketed_end(config_file::unbracketed_start(text::trimmed(line)));
}

/// The line that begins a section is a header, and names it.
proof fn lemma_header_names(line: Seq<char>, n: Seq<char>)
    requires
        is_bare(n),
        text::trimmed(line) == config_file::header_of(n),
    ensures
        config_file::is_header(line),
        config_file::name_in(line) == n,
{
    reveal_strlit("[");
    reveal_strlit("]");
    let h = config_file::header_of(n);
    assert(h[0] == '[');
    assert(h.last() == ']');
    assert(n.len() > 0 ==> h[1] == n[0]);
    assert(h.drop_first() =~= n + "]"@);
    if n.len() == 0 {
        let rest = h.drop_first();
        assert(rest[0] == ']');
        assert(rest.drop_first() =~= n);
        assert(config_file::unbracketed_start(n) =~= n);
        assert(config_file::unbracketed_start(rest) == n);
        assert(config_file::unbracketed_start(h) == n);
        assert(config_file::unbracketed_end(n) =~= n);
    } else {
        let rest = n + "]"@;
        assert(rest[0] == n[0]);
        assert(h.drop_first() == rest);
        assert(config_file::unbracketed_start(rest) == rest);
        assert(config_file::unbracketed_start(h) == config_file::unbracketed_start(rest));
        assert(rest.last() == ']');
        assert(rest.drop_last() =~= n);
        assert(config_file::unbracketed_end(n) == n);
        assert(config_file::unbracketed_end(rest) == n);
    }
}

proof fn lemma_comments_only(ls: Seq<Seq<char>>, i: int, j: int)
    requires
        0 <= i <= ls.len(),
        config_file::comments_above(ls, i) <= j < i,
    ensures
        config_file::is_comment(ls[j]),
    decreases i,
{
    if 0 < i && config_file::is_comment(ls[i - 1]) && j < i - 1 {
        lemma_comments_only(ls, i - 1, j);
    }
}

/// A section of a text begins no other one.
proof fn lemma_sections_lack(ls: Seq<Seq<char>>, from: int, k: int, n: Seq<char>)
    requires
        0 <= from,
        0 <= k < config_file::sections_from(ls, from).len(),
        is_bare(n),
        n != config_file::sections_from(ls, from)[k].name,
    ensures
        lack(config_file::sections_from(ls, from)[k].lines, config_file::header_of(n)),
    decreases ls.len() - from,
{
    config_file::lemma_header_from(ls, from);
    let h = config_file::header_from(ls, from);
    if h < ls.len() {
        config_file::lemma_header_from(ls, h + 1);
        let next = config_file::header_from(ls, h + 1);
        let first = config_file::comments_above(ls, h);
        config_file::lemma_comments_above(ls, h, 0);
        if next < ls.len() {
            config_file::lemma_header_is_no_comment(ls[h]);
            config_file::lemma_comments_above(ls, next, h + 1);
        }
        let end = if next >= ls.len() {
            ls.len() as int
        } else {
            config_file::comments_above(ls, next)
        };
        if k > 0 {
            lemma_sections_lack(ls, h + 1, k - 1, n);
        } else {
            let own = ls.subrange(first, end);
            assert forall|j: int| 0 <= j < own.len() implies text::trimmed(#[trigger] own[j])
                != config_file::header_of(n) by {
                let l = ls[first + j];
                if text::trimmed(l) == config_file::header_of(n) {
                    lemma_header_names(l, n);
                    if first + j < h {
                        lemma_comments_only(ls, h, first + j);
                        config_file::lemma_header_is_no_comment(l);
                    } else if first + j > h {
                        config_file::lemma_before_header(ls, h + 1, first + j);
                    }
                }
            }
        }
    }
}

proof fn lemma_sections_are_bare(ls: Seq<Seq<char>>, from: int, k: int)
    requires
        0 <= from,
        0 <= k < config_file::sections_from(ls, from).len(),
    ensures
        is_bare(config_file::sections_from(ls, from)[k].name),
    decreases ls.len() - from,
{
    config_file::lemma_header_from(ls, from);
    let h = config_file::header_from(ls, from);
    if h < ls.len() {
        lemma_names_are_bare(ls[h]);
        if k > 0 {
            lemma_sections_are_bare(ls, h + 1, k - 1);
        }
    }
}

/// Nothing is added where none of the sections begins on a line of its own.
proof fn lemma_nothing_to_fill_in(s: Seq<char>, partial: Seq<(Seq<char>, Seq<EntryView>)>)
    requires
        forall|p: int|
            0 <= p < partial.len() ==> !begins(text::lines(s), (#[trigger] partial[p]).0),
    ensures
        config_file::filled_in(s, partial) == s,
    decreases partial.len(),
{
    if partial.len() > 0 {
        let less = partial.drop_last();
        assert forall|p: int| 0 <= p < less.len() implies (#[trigger] less[p]) == partial[p] by {}
        lemma_nothing_to_fill_in(s, less);
        assert(!begins(text::lines(s), partial[partial.len() - 1].0));
    }
}

proof fn lemma_gaps(
    sections: Seq<SectionView>,
    have: Seq<(Seq<char>, ItemView)>,
    want: Seq<(Seq<char>, ItemView)>,
    ls: Seq<Seq<char>>,
)
    ensures
        are_commented_out(config_file::gaps_in(sections, have, want, ls).partial),
        forall|k: int|
            0 <= k < sections.len() ==> match (
                document::item_of(have, (#[trigger] sections[k]).name),
                document::item_of(want, sections[k].name),
            ) {
                (Some(ItemView::Table(mine)), Some(ItemView::Table(theirs))) => {
                    let m = config_file::missing(
                        config_file::entries_of(sections[k]),
                        theirs,
                        mine,
                        config_file::body_of(ls, sections[k].name),
                    );
                    m.len() > 0 ==> config_file::gaps_in(sections, have, want, ls).partial.contains(
                        (sections[k].name, m),
                    )
                },
                _ => true,
            },
    decreases sections.len(),
{
    if sections.len() > 0 {
        let less = sections.drop_last();
        let s = sections.last();
        lemma_gaps(less, have, want, ls);
        let g = config_file::gaps_in(less, have, want, ls);
        let all = config_file::gaps_in(sections, have, want, ls);
        assert forall|x: (Seq<char>, Seq<EntryView>)| #[trigger]
            g.partial.contains(x) implies all.partial.contains(x) by {
            let q = choose|q: int| 0 <= q < g.partial.len() && g.partial[q] == x;
            assert(all.partial[q] == x);
        }
        match (document::item_of(have, s.name), document::item_of(want, s.name)) {
            (Some(ItemView::Table(mine)), Some(ItemView::Table(theirs))) => {
                let es = config_file::entries_of(s);
                let body = config_file::body_of(ls, s.name);
                let m = config_file::missing(es, theirs, mine, body);
                config_file::lemma_missing(es, theirs, mine, body);
                assert forall|i: int| 0 <= i < m.len() implies config_file::is_commented_out(
                    #[trigger] m[i],
                ) by {
                    let j = choose|j: int| 0 <= j < es.len() && es[j] == m[i];
                    config_file::what_is_added_is_commented_out(s, j);
                }
                if m.len() > 0 {
                    assert(all.partial == g.partial.push((s.name, m)));
                    assert(all.partial[g.partial.len() as int] == (s.name, m));
                    assert forall|q: int, i: int|
                        0 <= q < all.partial.len() && 0 <= i
                            < all.partial[q].1.len() implies config_file::is_commented_out(
                        #[trigger] all.partial[q].1[i],
                    ) by {
                        if q < g.partial.len() {
                            assert(all.partial[q].1[i] == g.partial[q].1[i]);
                        } else {
                            assert(all.partial[q].1[i] == m[i]);
                        }
                    }
                }
            },
            _ => {},
        }
        assert forall|k: int| 0 <= k < less.len() implies less[k] == #[trigger] sections[k] by {}
    }
}

/// What stands under a name in a file that was brought up to the example, by what stood
/// there before: what the user has set is still set, and what was not there is there as
/// the example has it.
pub open spec fn reads_on(
    before: Option<ItemView>,
    example: Option<ItemView>,
    after: Option<ItemView>,
) -> bool {
    match before {
        None => after is Some && after == example,
        Some(ItemView::Plain(_)) => after matches Some(ItemView::Plain(_)),
        Some(ItemView::Table(mine)) => match after {
            Some(ItemView::Table(now)) => forall|k: Seq<char>|
                document::value_of(mine, k) is Some ==> #[trigger] document::value_of(now, k) is Some,
            _ => false,
        },
    }
}

/// What is still missing from a file that was brought up to the example, by section.
proof fn lemma_still_missing(
    sections: Seq<SectionView>,
    have: Seq<(Seq<char>, ItemView)>,
    want: Seq<(Seq<char>, ItemView)>,
    again: Seq<(Seq<char>, ItemView)>,
    ls: Seq<Seq<char>>,
    lt: Seq<Seq<char>>,
    partial: Seq<(Seq<char>, Seq<EntryView>)>,
)
    requires
        forall|k: int|
            0 <= k < sections.len() ==> reads_on(
                document::item_of(have, (#[trigger] sections[k]).name),
                document::item_of(want, sections[k].name),
                document::item_of(again, sections[k].name),
            ),
        forall|k: int|
            0 <= k < sections.len() ==> match (
                document::item_of(have, (#[trigger] sections[k]).name),
                document::item_of(want, sections[k].name),
            ) {
                (Some(ItemView::Table(mine)), Some(ItemView::Table(theirs))) => {
                    let m = config_file::missing(
                        config_file::entries_of(sections[k]),
                        theirs,
                        mine,
                        config_file::body_of(ls, sections[k].name),
                    );
                    m.len() > 0 ==> partial.contains((sections[k].name, m))
                },
                _ => true,
            },
        forall|n: Seq<char>, key: Seq<char>|
            config_file::mentions(config_file::body_of(ls, n), key)
                ==> #[trigger] config_file::mentions(config_file::body_of(lt, n), key),
        forall|p: int, i: int|
            0 <= p < partial.len() && 0 <= i < partial[p].1.len() && begins(ls, partial[p].0)
                ==> config_file::mentions(
                config_file::body_of(lt, partial[p].0),
                (#[trigger] partial[p].1[i]).key,
            ),
    ensures
        ({
            let more = config_file::gaps_in(sections, again, want, lt);
            more.absent.len() == 0 && forall|p: int|
                0 <= p < more.partial.len() ==> !begins(ls, (#[trigger] more.partial[p]).0)
                    && exists|q: int|
                    0 <= q < partial.len() && (#[trigger] partial[q]).0 == more.partial[p].0
        }),
    decreases sections.len(),
{
    if sections.len() > 0 {
        let less = sections.drop_last();
        let s = sections.last();
        assert(s == sections[sections.len() - 1]);
        assert forall|k: int| 0 <= k < less.len() implies (#[trigger] less[k]) == sections[k] by {}
        lemma_still_missing(less, have, want, again, ls, lt, partial);
        let body = config_file::body_of(ls, s.name);
        let now_body = config_file::body_of(lt, s.name);
        let es = config_file::entries_of(s);
        match (document::item_of(again, s.name), document::item_of(want, s.name)) {
            (Some(ItemView::Table(now)), Some(ItemView::Table(theirs))) => {
                let m2 = config_file::missing(es, theirs, now, now_body);
                match document::item_of(have, s.name) {
                    Some(ItemView::Table(mine)) => {
                        let m = config_file::missing(es, theirs, mine, body);
                        config_file::lemma_missing(es, theirs, mine, body);
                        if begins(ls, s.name) || m.len() == 0 {
                            assert forall|i: int| 0 <= i < es.len() implies document::value_of(
                                theirs,
                                (#[trigger] es[i]).key,
                            ) is None || document::value_of(now, es[i].key) is Some
                                || config_file::mentions(now_body, es[i].key) by {
                                let key = es[i].key;
                                if document::value_of(theirs, key) is Some && document::value_of(
                                    now,
                                    key,
                                ) is None && !config_file::mentions(body, key) {
                                    assert(document::value_of(mine, key) is None);
                                    assert(m.contains(es[i]));
                                    let k = choose|k: int| 0 <= k < m.len() && m[k] == es[i];
                                    let p = choose|p: int|
                                        0 <= p < partial.len() && partial[p] == (s.name, m);
                                    assert(partial[p].1[k].key == key);
                                }
                            }
                            config_file::lemma_none_missing(es, theirs, now, now_body);
                        } else {
                            let p = choose|p: int| 0 <= p < partial.len() && partial[p] == (s.name, m);
                            assert(partial[p].0 == s.name);
                        }
                    },
                    _ => {
                        assert(now == theirs);
                        config_file::lemma_none_missing(es, theirs, now, now_body);
                    },
                }
            },
            _ => {},
        }
    }
}

/// A text of settings reads on in another one, as far as the sections of the example go.
pub open spec fn file_reads_on(s: Seq<char>, t: Seq<char>) -> bool {
    let example = config_file::EXAMPLE_TOML@;
    let sections = config_file::sections_from(text::lines(example), 0);
    match (document::document(s), document::document(example), document::document(t)) {
        (Some(have), Some(want), Some(again)) => forall|k: int|
            0 <= k < sections.len() ==> reads_on(
                document::item_of(have, (#[trigger] sections[k]).name),
                document::item_of(want, sections[k].name),
                document::item_of(again, sections[k].name),
            ),
        _ => false,
    }
}

/// What is missing from a file is missing from a section of the example that it has, and
/// what is absent is one that it does not have.
proof fn lemma_gaps_are_of_the_example(
    sections: Seq<SectionView>,
    have: Seq<(Seq<char>, ItemView)>,
    want: Seq<(Seq<char>, ItemView)>,
    ls: Seq<Seq<char>>,
)
    ensures
        forall|p: int|
            0 <= p < config_file::gaps_in(sections, have, want, ls).partial.len() ==> exists|k: int|
                0 <= k < sections.len() && (#[trigger] sections[k]).name == (
                #[trigger] config_file::gaps_in(sections, have, want, ls).partial[p]).0
                    && document::item_of(have, sections[k].name) is Some,
        forall|p: int|
            0 <= p < config_file::gaps_in(sections, have, want, ls).absent.len() ==> exists|k: int|
                0 <= k < sections.len() && (#[trigger] sections[k]) == (
                #[trigger] config_file::gaps_in(sections, have, want, ls).absent[p])
                    && document::item_of(have, sections[k].name) is None,
    decreases sections.len(),
{
    if sections.len() > 0 {
        let less = sections.drop_last();
        lemma_gaps_are_of_the_example(less, have, want, ls);
        let g = config_file::gaps_in(less, have, want, ls);
        let all = config_file::gaps_in(sections, have, want, ls);
        let last = sections.len() - 1;
        assert forall|p: int| 0 <= p < all.partial.len() implies exists|k: int|
            0 <= k < sections.len() && (#[trigger] sections[k]).name == (#[trigger] all.partial[p]).0
                && document::item_of(have, sections[k].name) is Some by {
            if p < g.partial.len() {
                assert(all.partial[p] == g.partial[p]);
                let k = choose|k: int|
                    0 <= k < less.len() && (#[trigger] less[k]).name == g.partial[p].0
                        && document::item_of(have, less[k].name) is Some;
                assert(sections[k] == less[k]);
            } else {
                assert(sections[last].name == all.partial[p].0);
            }
        }
        assert forall|p: int| 0 <= p < all.absent.len() implies exists|k: int|
            0 <= k < sections.len() && (#[trigger] sections[k]) == (#[trigger] all.absent[p])
                && document::item_of(have, sections[k].name) is None by {
            if p < g.absent.len() {
                assert(all.absent[p] == g.absent[p]);
                let k = choose|k: int|
                    0 <= k < less.len() && (#[trigger] less[k]) == g.absent[p]
                        && document::item_of(have, less[k].name) is None;
                assert(sections[k] == less[k]);
            } else {
                assert(sections[last] == all.absent[p]);
            }
        }
    }
}

/// A section that a file has but does not begin on a line of its own does not begin on
/// one in what comes of topping it up either.
proof fn lemma_does_not_begin(s: Seq<char>, g: GapsView, n: Seq<char>)
    requires
        config_file::gaps_of(s) == Some(g),
        kept_lines::are_lines(text::lines(s)),
        !begins(text::lines(s), n),
        exists|q: int| 0 <= q < g.partial.len() && (#[trigger] g.partial[q]).0 == n,
    ensures
        !begins(text::lines(config_file::topped(s, g)), n),
{
    let example = text::lines(config_file::EXAMPLE_TOML@);
    let sections = config_file::sections_from(example, 0);
    let have = document::document(s)->0;
    let want = document::document(config_file::EXAMPLE_TOML@)->0;
    let ls = text::lines(s);
    let h = config_file::header_of(n);
    reveal_strlit("[");
    assert(h.len() > 0);
    lemma_gaps(sections, have, want, ls);
    lemma_gaps_are_of_the_example(sections, have, want, ls);
    kept_lines::lemma_what_is_missing_can_be_added(s, g);
    lemma_filled_in(s, g.partial, n, Seq::empty());
    let f = config_file::filled_in(s, g.partial);
    let lf = text::lines(f);
    lemma_found(lf, n, 0);
    assert(lack(lf, h));
    let q = choose|q: int| 0 <= q < g.partial.len() && (#[trigger] g.partial[q]).0 == n;
    let i = choose|i: int|
        0 <= i < sections.len() && (#[trigger] sections[i]).name == g.partial[q].0
            && document::item_of(have, sections[i].name) is Some;
    lemma_sections_are_bare(example, 0, i);
    if g.absent.len() > 0 {
        kept_lines::lemma_lines_hold_no_break(config_file::EXAMPLE_TOML@, 0);
        assert forall|k: int| 0 <= k < g.absent.len() implies kept_lines::unbroken(
            (#[trigger] g.absent[k]).lines,
        ) && lack(g.absent[k].lines, h) by {
            let j = choose|j: int|
                0 <= j < sections.len() && (#[trigger] sections[j]) == g.absent[k]
                    && document::item_of(have, sections[j].name) is None;
            kept_lines::lemma_sections_hold_lines(example, 0, j);
            lemma_sections_lack(example, 0, j, n);
        }
        let tail = lemma_appended(f, g.absent, h);
        lemma_both_lack(lf, tail, h);
    }
    lemma_stands_nowhere(text::lines(config_file::topped(s, g)), n);
}

/// Where a file reads on in what came of bringing it up to the example, that is what the
/// same leaves as it is: no section is absent, and one lacks something only where it does
/// not begin on a line of its own, so that nothing is added to it. A file that begins all
/// its sections so is then complete.
pub proof fn what_reads_on_is_settled(s: Seq<char>, g: GapsView)
    requires
        config_file::gaps_of(s) == Some(g),
        kept_lines::are_lines(text::lines(s)),
        file_reads_on(s, config_file::topped(s, g)),
    ensures
        config_file::settled(config_file::topped(s, g)),
        config_file::gaps_of(config_file::topped(s, g)) matches Some(more) && {
            &&& more.absent.len() == 0
            &&& forall|p: int|
                0 <= p < more.partial.len() ==> !begins(
                    text::lines(s),
                    (#[trigger] more.partial[p]).0,
                )
            &&& (forall|p: int|
                0 <= p < g.partial.len() ==> begins(text::lines(s), (#[trigger] g.partial[p]).0))
                ==> more.partial.len() == 0
        },
{
    let sections = config_file::sections_from(text::lines(config_file::EXAMPLE_TOML@), 0);
    let have = document::document(s)->0;
    let want = document::document(config_file::EXAMPLE_TOML@)->0;
    let again = document::document(config_file::topped(s, g))->0;
    let ls = text::lines(s);
    let f = config_file::filled_in(s, g.partial);
    let t = config_file::topped(s, g);
    let lt = text::lines(t);
    lemma_gaps(sections, have, want, ls);
    kept_lines::lemma_what_is_missing_can_be_added(s, g);
    lemma_filled_in(s, g.partial, Seq::empty(), Seq::empty());
    let tail = if g.absent.len() == 0 {
        Seq::empty()
    } else {
        lemma_appended(f, g.absent, seq!['['])
    };
    assert(lt =~= text::lines(f) + tail);
    assert forall|n: Seq<char>, key: Seq<char>|
        config_file::mentions(config_file::body_of(ls, n), key) implies #[trigger] config_file::mentions(
        config_file::body_of(lt, n),
        key,
    ) by {
        lemma_filled_in(s, g.partial, n, key);
        lemma_put_behind(text::lines(f), tail, n, key);
    }
    assert forall|p: int, i: int|
        0 <= p < g.partial.len() && 0 <= i < g.partial[p].1.len() && begins(
            ls,
            g.partial[p].0,
        ) implies config_file::mentions(
        config_file::body_of(lt, g.partial[p].0),
        (#[trigger] g.partial[p].1[i]).key,
    ) by {
        let n = g.partial[p].0;
        let key = g.partial[p].1[i].key;
        lemma_filled_in(s, g.partial, n, key);
        lemma_put_behind(text::lines(f), tail, n, key);
    }
    lemma_still_missing(sections, have, want, again, ls, lt, g.partial);
    let more = config_file::gaps_in(sections, again, want, lt);
    assert(config_file::gaps_of(t) == Some(more));
    assert forall|p: int| 0 <= p < more.partial.len() implies !begins(
        lt,
        (#[trigger] more.partial[p]).0,
    ) by {
        let q = choose|q: int|
            0 <= q < g.partial.len() && (#[trigger] g.partial[q]).0 == more.partial[p].0;
        assert(g.partial[q].0 == more.partial[p].0);
        lemma_does_not_begin(s, g, more.partial[p].0);
    }
    lemma_nothing_to_fill_in(t, more.partial);
    if more.partial.len() > 0 {
        assert(!begins(ls, more.partial[0].0));
        let q = choose|q: int|
            0 <= q < g.partial.len() && (#[trigger] g.partial[q]).0 == more.partial[0].0;
        assert(!begins(ls, g.partial[q].0));
    }
}

} // verus!
