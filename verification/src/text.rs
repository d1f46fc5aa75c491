//! Characters, lines and decimal numbers: the small vocabulary the rest of the
//! crate states its texts in. A text is modelled as the sequence of its
//! characters.

use vstd::prelude::*;

verus! {

/// `String::push`: appends one character to the end of the string.
pub assume_specification[ String::push ](s: &mut String, c: char)
    ensures
        final(s)@ == old(s)@.push(c),
;

/// The characters of a text, one by one.
pub fn chars_of(s: &str) -> (v: Vec<char>)
    ensures
        v@ == s@,
{
    let mut v: Vec<char> = Vec::new();
    for c in it: s.chars()
        invariant
            v@.len() == it.index(),
            forall|i: int| 0 <= i < v@.len() ==> v@[i] == it.seq()[i],
            it.seq() == s@,
    {
        v.push(c);
    }
    v
}

/// The text made of the characters `lo..hi`.
pub fn text_of(v: &[char], lo: usize, hi: usize) -> (s: String)
    requires
        lo <= hi <= v@.len(),
    ensures
        s@ == v@.subrange(lo as int, hi as int),
{
    let mut s = String::new();
    let mut i: usize = lo;
    while i < hi
        invariant
            lo <= i <= hi <= v@.len(),
            s@ == v@.subrange(lo as int, i as int),
        decreases hi - i,
    {
        s.push(v[i]);
        i += 1;
        assert(v@.subrange(lo as int, i as int) == v@.subrange(lo as int, i - 1).push(v@[i - 1]));
    }
    s
}

/// Whether two texts are the same.
pub fn same_text(a: &str, b: &str) -> (r: bool)
    ensures
        r == (a@ == b@),
{
    a.to_owned() == b.to_owned()
}

/// Two texts one after the other.
pub fn join2(a: &str, b: &str) -> (s: String)
    ensures
        s@ == a@ + b@,
{
    let mut s = a.to_owned();
    s.append(b);
    s
}

/// Three texts one after the other.
pub fn join3(a: &str, b: &str, c: &str) -> (s: String)
    ensures
        s@ == a@ + b@ + c@,
{
    let mut s = a.to_owned();
    s.append(b);
    s.append(c);
    s
}

/// Characters that count as blank: those with the Unicode property `White_Space`.
pub open spec fn is_space(c: char) -> bool {
    ||| '\u{9}' <= c <= '\u{d}'
    ||| c == ' '
    ||| c == '\u{85}'
    ||| c == '\u{a0}'
    ||| c == '\u{1680}'
    ||| '\u{2000}' <= c <= '\u{200a}'
    ||| c == '\u{2028}'
    ||| c == '\u{2029}'
    ||| c == '\u{202f}'
    ||| c == '\u{205f}'
    ||| c == '\u{3000}'
}

pub fn is_blank(c: char) -> (r: bool)
    ensures
        r == is_space(c),
{
    ('\u{9}' <= c && c <= '\u{d}') || c == ' ' || c == '\u{85}' || c == '\u{a0}' || c == '\u{1680}'
        || ('\u{2000}' <= c && c <= '\u{200a}') || c == '\u{2028}' || c == '\u{2029}'
        || c == '\u{202f}' || c == '\u{205f}' || c == '\u{3000}'
}

/// A text without its leading blanks.
pub open spec fn trim_start(s: Seq<char>) -> Seq<char>
    decreases s.len(),
{
    if s.len() > 0 && is_space(s[0]) {
        trim_start(s.drop_first())
    } else {
        s
    }
}

/// A text without its trailing blanks.
pub open spec fn trim_end(s: Seq<char>) -> Seq<char>
    decreases s.len(),
{
    if s.len() > 0 && is_space(s.last()) {
        trim_end(s.drop_last())
    } else {
        s
    }
}

/// A text without blanks at either end.
pub open spec fn trimmed(s: Seq<char>) -> Seq<char> {
    trim_end(trim_start(s))
}

/// The bounds of what is left of `lo..hi` without its leading blanks.
pub fn skip_blanks(v: &[char], lo: usize, hi: usize) -> (r: usize)
    requires
        lo <= hi <= v@.len(),
    ensures
        lo <= r <= hi,
        v@.subrange(r as int, hi as int) == trim_start(v@.subrange(lo as int, hi as int)),
{
    let mut i: usize = lo;
    while i < hi && is_blank(v[i])
        invariant
            lo <= i <= hi <= v@.len(),
            trim_start(v@.subrange(i as int, hi as int)) == trim_start(
                v@.subrange(lo as int, hi as int),
            ),
        decreases hi - i,
    {
        assert(v@.subrange(i as int, hi as int).drop_first() == v@.subrange(i + 1, hi as int));
        i += 1;
    }
    i
}

pub fn drop_blanks(v: &[char], lo: usize, hi: usize) -> (r: usize)
    requires
        lo <= hi <= v@.len(),
    ensures
        lo <= r <= hi,
        v@.subrange(lo as int, r as int) == trim_end(v@.subrange(lo as int, hi as int)),
{
    let mut i: usize = hi;
    while i > lo && is_blank(v[i - 1])
        invariant
            lo <= i <= hi <= v@.len(),
            trim_end(v@.subrange(lo as int, i as int)) == trim_end(
                v@.subrange(lo as int, hi as int),
            ),
        decreases i,
    {
        assert(v@.subrange(lo as int, i as int).drop_last() == v@.subrange(lo as int, i - 1));
        i -= 1;
    }
    i
}

/// A text without blanks at either end.
pub fn trim(s: &str) -> (r: String)
    ensures
        r@ == trimmed(s@),
{
    let v = chars_of(s);
    let lo = skip_blanks(&v, 0, v.len());
    let hi = drop_blanks(&v, lo, v.len());
    assert(v@.subrange(0, v@.len() as int) == s@);
    text_of(&v, lo, hi)
}

/// What is left of a text without the blanks at its start ends as the text does, where it
/// does not end in a blank.
proof fn lemma_trim_start_last(s: Seq<char>)
    requires
        s.len() > 0,
        !is_space(s.last()),
    ensures
        trim_start(s).len() > 0,
        trim_start(s).last() == s.last(),
    decreases s.len(),
{
    if is_space(s[0]) {
        lemma_trim_start_last(s.drop_first());
    }
}

proof fn lemma_blank_end(s: Seq<char>)
    requires
        s.len() > 0,
        is_space(s.last()),
    ensures
        trim_end(trim_start(s)) == trim_end(trim_start(s.drop_last())),
    decreases s.len(),
{
    if is_space(s[0]) {
        if s.len() == 1 {
            assert(s.drop_first() =~= s.drop_last());
        } else {
            assert(s.drop_first().drop_last() =~= s.drop_last().drop_first());
            lemma_blank_end(s.drop_first());
        }
    }
}

/// It is the same which end of a text loses its blanks first.
pub proof fn lemma_trims_commute(s: Seq<char>)
    ensures
        trim_start(trim_end(s)) == trim_end(trim_start(s)),
    decreases s.len(),
{
    if s.len() > 0 {
        if is_space(s.last()) {
            lemma_trims_commute(s.drop_last());
            lemma_blank_end(s);
        } else {
            lemma_trim_start_last(s);
        }
    }
}

/// A text without its trailing blanks ends in none, and begins as the text does.
pub proof fn lemma_trim_end(t: Seq<char>)
    ensures
        trim_end(t).len() <= t.len(),
        trim_end(t).len() > 0 ==> trim_end(t)[0] == t[0] && !is_space(trim_end(t).last()),
        trim_end(trim_end(t)) == trim_end(t),
    decreases t.len(),
{
    if t.len() > 0 && is_space(t.last()) {
        lemma_trim_end(t.drop_last());
    }
}

/// The character of one decimal digit.
pub open spec fn digit(d: int) -> char {
    if d == 0 { '0' } else if d == 1 { '1' } else if d == 2 { '2' } else if d == 3 { '3' }
    else if d == 4 { '4' } else if d == 5 { '5' } else if d == 6 { '6' } else if d == 7 { '7' }
    else if d == 8 { '8' } else { '9' }
}

/// A number written in decimal, without leading zeros.
pub open spec fn decimal(n: nat) -> Seq<char>
    decreases n,
{
    if n < 10 {
        seq![digit(n as int)]
    } else {
        decimal(n / 10).push(digit((n % 10) as int))
    }
}

fn digit_char(d: u64) -> (c: char)
    requires
        d < 10,
    ensures
        c == digit(d as int),
{
    match d {
        0 => '0',
        1 => '1',
        2 => '2',
        3 => '3',
        4 => '4',
        5 => '5',
        6 => '6',
        7 => '7',
        8 => '8',
        _ => '9',
    }
}

/// Appends `n` in decimal.
pub fn push_decimal(out: &mut String, n: u64)
    ensures
        final(out)@ == old(out)@ + decimal(n as nat),
    decreases n,
{
    if n >= 10 {
        push_decimal(out, n / 10);
    }
    out.push(digit_char(n % 10));
    assert(out@ == old(out)@ + decimal(n as nat));
}

/// A number in decimal.
pub fn decimal_text(n: u64) -> (s: String)
    ensures
        s@ == decimal(n as nat),
{
    let mut s = String::new();
    push_decimal(&mut s, n);
    s
}

/// What `str::to_lowercase` makes of a text.
pub uninterp spec fn lowercase(s: Seq<char>) -> Seq<char>;

/// `str::to_lowercase`: the text with its letters in lower case, by the Unicode
/// tables of the standard library. The result depends on the text alone.
#[verifier::external_body]
fn to_lower(s: &str) -> (r: String)
    ensures
        r@ == lowercase(s@),
{
    s.to_lowercase()
}

/// `part` stands somewhere in `s`.
pub open spec fn has_part(s: Seq<char>, part: Seq<char>) -> bool {
    exists|i: int| part_at(s, part, i)
}

/// `part` stands in `s` at `i`.
pub open spec fn part_at(s: Seq<char>, part: Seq<char>, i: int) -> bool {
    0 <= i && i + part.len() <= s.len() && s.subrange(i, i + part.len()) == part
}

fn stands_at(s: &[char], part: &[char], i: usize) -> (r: bool)
    requires
        i + part@.len() <= s@.len(),
    ensures
        r == part_at(s@, part@, i as int),
{
    let n = s.len();
    let mut k: usize = 0;
    while k < part.len()
        invariant
            k <= part@.len(),
            i + part@.len() <= n == s@.len(),
            forall|j: int| 0 <= j < k ==> s@[i + j] == part@[j],
        decreases part@.len() - k,
    {
        if s[i + k] != part[k] {
            assert(s@.subrange(i as int, i + part@.len())[k as int] != part@[k as int]);
            return false;
        }
        k += 1;
    }
    assert(s@.subrange(i as int, i + part@.len()) =~= part@);
    true
}

fn has(s: &[char], part: &[char]) -> (r: bool)
    ensures
        r == has_part(s@, part@),
{
    if part.len() > s.len() {
        return false;
    }
    let last: usize = s.len() - part.len();
    let mut i: usize = 0;
    loop
        invariant
            i <= last,
            last + part@.len() == s@.len(),
            forall|j: int| 0 <= j < i ==> !part_at(s@, part@, j),
        decreases last - i,
    {
        if stands_at(s, part, i) {
            return true;
        }
        if i == last {
            return false;
        }
        i += 1;
    }
}

/// Whether `part` stands somewhere in `s`.
pub fn contains_text(s: &str, part: &str) -> (r: bool)
    ensures
        r == has_part(s@, part@),
{
    has(&chars_of(s), &chars_of(part))
}

/// `s` begins with `part`.
pub open spec fn begins(s: Seq<char>, part: Seq<char>) -> bool {
    part_at(s, part, 0)
}

pub fn starts_with(s: &str, part: &str) -> (r: bool)
    ensures
        r == begins(s@, part@),
{
    let v = chars_of(s);
    let p = chars_of(part);
    p.len() <= v.len() && stands_at(&v, &p, 0)
}

/// What a filter keeps: everything while it is empty, otherwise the texts that hold
/// it, letter case aside.
pub open spec fn passes(filter: Seq<char>, text: Seq<char>) -> bool {
    filter.len() == 0 || has_part(lowercase(text), lowercase(filter))
}

pub fn passes_filter(filter: &str, text: &str) -> (r: bool)
    ensures
        r == passes(filter@, text@),
{
    if filter.is_empty() {
        true
    } else {
        let t = to_lower(text);
        let f = to_lower(filter);
        contains_text(&t, &f)
    }
}

/// Where the word before place `k` begins: back over blanks, then over what is not
/// blank.
pub open spec fn word_before(s: Seq<char>, k: int) -> int {
    back_over(s, back_over(s, k, true), false)
}

/// Back from `k` over the characters that are blank, or over those that are not.
pub open spec fn back_over(s: Seq<char>, k: int, blank: bool) -> int
    decreases k,
{
    if 0 < k <= s.len() && is_space(s[k - 1]) == blank {
        back_over(s, k - 1, blank)
    } else {
        k
    }
}

/// Forward from `k` over the characters that are blank, or over those that are not.
pub open spec fn forward_over(s: Seq<char>, k: int, blank: bool) -> int
    decreases s.len() - k,
{
    if 0 <= k < s.len() && is_space(s[k]) == blank {
        forward_over(s, k + 1, blank)
    } else {
        k
    }
}

/// Where the word after place `k` ends.
pub open spec fn word_after(s: Seq<char>, k: int) -> int {
    forward_over(s, forward_over(s, k, true), false)
}

fn step_back(v: &[char], k: usize, blank: bool) -> (r: usize)
    requires
        k <= v@.len(),
    ensures
        r <= k,
        r == back_over(v@, k as int, blank),
{
    let mut i: usize = k;
    while i > 0 && is_blank(v[i - 1]) == blank
        invariant
            i <= k <= v@.len(),
            back_over(v@, i as int, blank) == back_over(v@, k as int, blank),
        decreases i,
    {
        i -= 1;
    }
    i
}

fn step_forward(v: &[char], k: usize, blank: bool) -> (r: usize)
    requires
        k <= v@.len(),
    ensures
        k <= r <= v@.len(),
        r == forward_over(v@, k as int, blank),
{
    let mut i: usize = k;
    while i < v.len() && is_blank(v[i]) == blank
        invariant
            k <= i <= v@.len(),
            forward_over(v@, i as int, blank) == forward_over(v@, k as int, blank),
        decreases v@.len() - i,
    {
        i += 1;
    }
    i
}

pub fn word_start(v: &[char], k: usize) -> (r: usize)
    requires
        k <= v@.len(),
    ensures
        r <= k,
        r == word_before(v@, k as int),
{
    let b = step_back(v, k, true);
    step_back(v, b, false)
}

pub fn word_end(v: &[char], k: usize) -> (r: usize)
    requires
        k <= v@.len(),
    ensures
        k <= r <= v@.len(),
        r == word_after(v@, k as int),
{
    let b = step_forward(v, k, true);
    step_forward(v, b, false)
}

/// The text without the characters `lo..hi`.
pub open spec fn cut(s: Seq<char>, lo: int, hi: int) -> Seq<char> {
    s.take(lo) + s.skip(hi)
}

/// The text without the characters `lo..hi`.
pub fn cut_text(v: &[char], lo: usize, hi: usize) -> (r: String)
    requires
        lo <= hi <= v@.len(),
    ensures
        r@ == cut(v@, lo as int, hi as int),
{
    let mut r = text_of(v, 0, lo);
    let tail = text_of(v, hi, v.len());
    r.append(&tail);
    assert(r@ =~= cut(v@, lo as int, hi as int));
    r
}

/// The text with `c` put in at `k`.
pub fn insert_text(v: &[char], k: usize, c: char) -> (r: String)
    requires
        k <= v@.len(),
    ensures
        r@ == v@.take(k as int).push(c) + v@.skip(k as int),
{
    let mut r = text_of(v, 0, k);
    r.push(c);
    let tail = text_of(v, k, v.len());
    r.append(&tail);
    assert(r@ =~= v@.take(k as int).push(c) + v@.skip(k as int));
    r
}

/// The first place of a character at or after `from`, or the length where there is
/// none.
pub open spec fn find_char(s: Seq<char>, c: char, from: int) -> int
    decreases s.len() - from,
{
    if from >= s.len() || from < 0 {
        s.len() as int
    } else if s[from] == c {
        from
    } else {
        find_char(s, c, from + 1)
    }
}

pub proof fn lemma_find_char(s: Seq<char>, c: char, from: int)
    requires
        0 <= from <= s.len(),
    ensures
        from <= find_char(s, c, from) <= s.len(),
        find_char(s, c, from) < s.len() ==> s[find_char(s, c, from)] == c,
        forall|i: int| from <= i < find_char(s, c, from) ==> s[i] != c,
    decreases s.len() - from,
{
    if from < s.len() && s[from] != c {
        lemma_find_char(s, c, from + 1);
    }
}

/// The first place of a character at or after `from`, or the length.
pub fn char_at_or_end(v: &[char], c: char, from: usize) -> (r: usize)
    requires
        from <= v@.len(),
    ensures
        r == find_char(v@, c, from as int),
        from <= r <= v@.len(),
{
    let mut i: usize = from;
    while i < v.len() && v[i] != c
        invariant
            from <= i <= v@.len(),
            find_char(v@, c, from as int) == find_char(v@, c, i as int),
        decreases v@.len() - i,
    {
        i += 1;
    }
    i
}

/// The pieces of a text between the places of a character, from `from` on.
pub open spec fn pieces_from(s: Seq<char>, c: char, from: int) -> Seq<Seq<char>>
    decreases s.len() - from,
    when 0 <= from <= s.len()
    via pieces_decrease
{
    let e = find_char(s, c, from);
    if e < s.len() {
        seq![s.subrange(from, e)] + pieces_from(s, c, e + 1)
    } else {
        seq![s.subrange(from, s.len() as int)]
    }
}

#[via_fn]
proof fn pieces_decrease(s: Seq<char>, c: char, from: int) {
    lemma_find_char(s, c, from);
}

/// The pieces of a text between the places of a character.
pub open spec fn pieces(s: Seq<char>, c: char) -> Seq<Seq<char>> {
    pieces_from(s, c, 0)
}

/// Splits a text at a character; there is always one piece more than there are places.
pub fn split_text(s: &str, c: char) -> (r: Vec<String>)
    ensures
        r.deep_view() == pieces(s@, c),
{
    let v = chars_of(s);
    let mut out: Vec<String> = Vec::new();
    let mut from: usize = 0;
    assert(out.deep_view() + pieces_from(v@, c, 0) =~= pieces(s@, c));
    loop
        invariant
            from <= v@.len(),
            v@ == s@,
            out.deep_view() + pieces_from(v@, c, from as int) == pieces(s@, c),
        decreases v@.len() - from,
    {
        let e: usize = char_at_or_end(v.as_slice(), c, from);
        let ghost before = out.deep_view();
        let piece = text_of(v.as_slice(), from, e);
        let ghost p = piece@;
        out.push(piece);
        assert(out.deep_view() =~= before.push(p));
        if e == v.len() {
            assert(out.deep_view() =~= pieces(s@, c));
            return out;
        }
        assert(out.deep_view() + pieces_from(v@, c, e + 1) =~= before + pieces_from(
            v@,
            c,
            from as int,
        ));
        from = e + 1;
    }
}

/// A line without the carriage return that ends it.
pub open spec fn without_return(s: Seq<char>) -> Seq<char> {
    if s.len() > 0 && s.last() == '\r' {
        s.drop_last()
    } else {
        s
    }
}

/// The lines of a text, from `from` on. The last one need not be ended.
pub open spec fn lines_from(s: Seq<char>, from: int) -> Seq<Seq<char>>
    decreases s.len() - from,
    when 0 <= from <= s.len()
    via lines_decrease
{
    let e = find_char(s, '\n', from);
    if from == s.len() {
        Seq::empty()
    } else if e < s.len() {
        seq![without_return(s.subrange(from, e))] + lines_from(s, e + 1)
    } else {
        seq![s.subrange(from, s.len() as int)]
    }
}

#[via_fn]
proof fn lines_decrease(s: Seq<char>, from: int) {
    lemma_find_char(s, '\n', from);
}

/// The lines of a text.
pub open spec fn lines(s: Seq<char>) -> Seq<Seq<char>> {
    lines_from(s, 0)
}

/// The lines of a text.
pub fn lines_of(s: &str) -> (r: Vec<String>)
    ensures
        r.deep_view() == lines(s@),
{
    let v = chars_of(s);
    let mut out: Vec<String> = Vec::new();
    let mut from: usize = 0;
    assert(out.deep_view() + lines_from(v@, 0) =~= lines(s@));
    while from < v.len()
        invariant
            from <= v@.len(),
            v@ == s@,
            out.deep_view() + lines_from(v@, from as int) == lines(s@),
        decreases v@.len() - from,
    {
        let e: usize = char_at_or_end(v.as_slice(), '\n', from);
        let ghost before = out.deep_view();
        let ghost piece = v@.subrange(from as int, e as int);
        if e == v.len() {
            out.push(text_of(v.as_slice(), from, e));
            assert(out.deep_view() =~= before.push(piece));
            assert(out.deep_view() =~= lines(s@));
            return out;
        }
        let cut: usize = if e > from && v[e - 1] == '\r' {
            e - 1
        } else {
            e
        };
        out.push(text_of(v.as_slice(), from, cut));
        assert(v@.subrange(from as int, cut as int) =~= without_return(piece));
        assert(out.deep_view() =~= before.push(without_return(piece)));
        assert(out.deep_view() + lines_from(v@, e + 1) =~= before + lines_from(v@, from as int));
        from = e + 1;
    }
    assert(out.deep_view() =~= lines(s@));
    out
}

/// A path and a name below it. A name that is a path from the root stands for itself.
pub open spec fn path_joined(dir: Seq<char>, name: Seq<char>) -> Seq<char> {
    if name.len() > 0 && name[0] == '/' {
        name
    } else if dir.len() == 0 || dir.last() == '/' {
        dir + name
    } else {
        dir + "/"@ + name
    }
}

/// A path and a name below it.
pub fn join_path(dir: &str, name: &str) -> (r: String)
    ensures
        r@ == path_joined(dir@, name@),
{
    let d = chars_of(dir);
    let n = chars_of(name);
    if n.len() > 0 && n[0] == '/' {
        name.to_owned()
    } else if d.len() == 0 || d[d.len() - 1] == '/' {
        join2(dir, name)
    } else {
        join3(dir, "/", name)
    }
}

} // verus!
