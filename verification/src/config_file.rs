//! The file of settings as text: the documented example, and what a file that is
//! older than the example lacks of it.

use crate::config::{self, Config};
use crate::copied::{Copied, copy_range};
use crate::document::{self, Item, ItemView, Scalar, ScalarView, find_item, find_value, read};
use crate::model::{self, join_all};
use crate::text::{
    self, char_at_or_end, chars_of, drop_blanks, join2, join3, lines_of, same_text, skip_blanks,
    split_text, text_of, trim,
};
use vstd::prelude::*;

verus! {

/// The documented settings, at their defaults. What is here is what a file of settings
/// starts as.
pub const EXAMPLE_TOML: &'static str = "# Settings of the player. Every setting is here at its default.

# How to sign in.
[auth]
# \"cookie\" is the only way that works.
kind = \"cookie\"
# The file with the cookies of a browser that is signed in.
# cookie_file = \"~/.config/ytm-cli/cookies.txt\"

# How playback starts.
[playback]
# 0 to 100. What was set last is remembered from one run to the next.
volume = 70
# Play in a random order from the start.
shuffle = false

# How things look.
[ui]
# Move by h, j, k and l.
vim_keys = true
# How often the screen is brought up to date, in milliseconds.
tick_ms = 250
# A colour of your own for what stands out.
# accent = \"#7aa2f7\"
# Show the cover of what is playing.
album_art = true
# A theme of your own, in a file.
# theme_file = \"~/.config/ytm-cli/theme.toml\"
# Read that file again when it changes.
auto_reload_theme = false
# \"auto\" follows the background of the terminal.
theme = \"auto\"
# home, playlists, fav, albums, artists, search or queue.
start_pane = \"playlists\"
# Scroll and click.
mouse = true

# How keys behave.
[behaviour]
# How far to go in a track, in seconds.
seek_step_secs = 5
# How much louder or quieter, of 100.
volume_step = 5
# Ask before quitting.
confirm_on_quit = false

# Where audio is kept.
[storage]
# download_dir = \"~/Music/ytm\"
# How much of what was played is kept.
cache_size_mb = 1024
# How many tracks to fetch ahead.
prefetch_count = 2

# Which key does what.
[keys]
# down = \"j\"
# up = \"k\"
# left = \"h\"
# right = \"l\"
# home = \"g\"
# end = \"G\"
# quit = \"q\"
# toggle_pause = \" \"
# next_track = \"n\"
# prev_track = \"p\"
# toggle_shuffle = \"s\"
# cycle_repeat = \"r\"
# open_search = \"S\"
# open_filter = \"/\"
# open_queue = \"u\"
# open_help = \"?\"
# move_entry_up = \"K\"
# move_entry_down = \"J\"
# clear_queue = \"C\"
# toggle_mark = \"v\"
# toggle_visual = \"V\"
# cycle_theme = \"t\"
# edit_config = \",\"
# add_to_queue = \"a\"
# play_next = \"e\"
# add_to_playlist = \"A\"
# remove_from_playlist = \"x\"
# create_playlist = \"N\"
# rename_playlist = \"R\"
# delete_playlist = \"D\"
# seek_forward = \"f\"
# seek_back = \"b\"
# volume_up = \"+\"
# volume_down = \"-\"
# toggle_mute = \"m\"
# refresh = \"L\"
# focus_current = \"c\"
# download = \"d\"
";

/// One section of the example, with the comments that document it.
#[derive(Debug, Clone, PartialEq, Eq)]
pub struct ExampleSection {
    pub name: String,
    pub lines: Vec<String>,
}

/// The model of an `ExampleSection`.
#[verifier::ext_equal]
pub struct SectionView {
    pub name: Seq<char>,
    pub lines: Seq<Seq<char>>,
}

impl DeepView for ExampleSection {
    type V = SectionView;

    open spec fn deep_view(&self) -> SectionView {
        SectionView { name: self.name@, lines: self.lines.deep_view() }
    }
}

/// One setting of the example.
#[derive(Debug, Clone, PartialEq, Eq)]
pub struct ExampleEntry {
    pub key: String,
    /// The comments that document it, and its definition, commented out.
    pub lines: Vec<String>,
}

/// The model of an `ExampleEntry`.
#[verifier::ext_equal]
pub struct EntryView {
    pub key: Seq<char>,
    pub lines: Seq<Seq<char>>,
}

impl DeepView for ExampleEntry {
    type V = EntryView;

    open spec fn deep_view(&self) -> EntryView {
        EntryView { key: self.key@, lines: self.lines.deep_view() }
    }
}

impl Copied for ExampleEntry {
    fn copy(&self) -> (r: Self) {
        ExampleEntry { key: self.key.clone(), lines: self.lines.copy() }
    }
}

/// A character that is a letter or a number, in any script.
pub uninterp spec fn alphanumeric(c: char) -> bool;

/// `char::is_alphanumeric`: whether a character is a letter or a number, by the tables
/// of Unicode. It depends on the character alone.
#[verifier::external_body]
fn is_alphanumeric(c: char) -> (r: bool)
    ensures
        r == alphanumeric(c),
{
    c.is_alphanumeric()
}

/// A line that begins a section.
pub open spec fn is_header(line: Seq<char>) -> bool {
    let t = text::trimmed(line);
    t.len() > 0 && t[0] == '[' && t.last() == ']' && !(t.len() > 1 && t[1] == '[')
}

/// Whether a line begins a section.
pub fn is_section_header(line: &str) -> (r: bool)
    ensures
        r == is_header(line@),
{
    let t = trim(line);
    let v = chars_of(t.as_str());
    v.len() > 0 && v[0] == '[' && v[v.len() - 1] == ']' && !(v.len() > 1 && v[1] == '[')
}

/// A line that is a comment.
pub open spec fn is_comment(line: Seq<char>) -> bool {
    let t = text::trim_start(line);
    t.len() > 0 && t[0] == '#'
}

fn comments(line: &str) -> (r: bool)
    ensures
        r == is_comment(line@),
{
    let v = chars_of(line);
    let lo: usize = skip_blanks(v.as_slice(), 0, v.len());
    assert(v@.subrange(0, v@.len() as int) =~= v@);
    lo < v.len() && v[lo] == '#'
}

/// Where the comments begin that stand directly above a line.
pub open spec fn comments_above(ls: Seq<Seq<char>>, i: int) -> int
    decreases i,
{
    if 0 < i <= ls.len() && is_comment(ls[i - 1]) {
        comments_above(ls, i - 1)
    } else {
        i
    }
}

/// The first line from `i` on that begins a section, or the end.
pub open spec fn header_from(ls: Seq<Seq<char>>, i: int) -> int
    decreases ls.len() - i,
{
    if i < 0 || i >= ls.len() || is_header(ls[i]) {
        i
    } else {
        header_from(ls, i + 1)
    }
}

/// A text without the square brackets that it begins with.
pub open spec fn unbracketed_start(s: Seq<char>) -> Seq<char>
    decreases s.len(),
{
    if s.len() > 0 && (s[0] == '[' || s[0] == ']') {
        unbracketed_start(s.drop_first())
    } else {
        s
    }
}

/// A text without the square brackets that it ends with.
pub open spec fn unbracketed_end(s: Seq<char>) -> Seq<char>
    decreases s.len(),
{
    if s.len() > 0 && (s.last() == '[' || s.last() == ']') {
        unbracketed_end(s.drop_last())
    } else {
        s
    }
}

/// The name of the section that a line begins.
pub open spec fn name_in(line: Seq<char>) -> Seq<char> {
    unbracketed_end(unbracketed_start(text::trimmed(line)))
}

/// The sections of a text whose headers stand at `from` or below. The comments directly
/// above a header travel with it; a blank line ends them.
pub open spec fn sections_from(ls: Seq<Seq<char>>, from: int) -> Seq<SectionView>
    decreases ls.len() - from,
    when from >= 0
    via sections_decrease
{
    let h = header_from(ls, from);
    if h >= ls.len() {
        Seq::empty()
    } else {
        let next = header_from(ls, h + 1);
        let end = if next >= ls.len() {
            ls.len() as int
        } else {
            comments_above(ls, next)
        };
        seq![
            SectionView {
                name: name_in(ls[h]),
                lines: ls.subrange(comments_above(ls, h), end),
            },
        ] + sections_from(ls, h + 1)
    }
}

#[via_fn]
proof fn sections_decrease(ls: Seq<Seq<char>>, from: int) {
    lemma_header_from(ls, from);
}

pub(crate) proof fn lemma_header_from(ls: Seq<Seq<char>>, i: int)
    requires
        0 <= i,
    ensures
        i <= header_from(ls, i),
        i <= ls.len() ==> header_from(ls, i) <= ls.len(),
        header_from(ls, i) < ls.len() ==> is_header(ls[header_from(ls, i)]),
    decreases ls.len() - i,
{
    if i < ls.len() && !is_header(ls[i]) {
        lemma_header_from(ls, i + 1);
    }
}

/// A line that begins a section is no comment.
pub(crate) proof fn lemma_header_is_no_comment(line: Seq<char>)
    ensures
        !(is_header(line) && is_comment(line)),
{
    let t = text::trim_start(line);
    text::lemma_trim_end(t);
}

pub(crate) proof fn lemma_comments_above(ls: Seq<Seq<char>>, i: int, lo: int)
    requires
        0 <= lo <= i <= ls.len(),
        lo > 0 ==> !is_comment(ls[lo - 1]),
    ensures
        lo <= comments_above(ls, i) <= i,
    decreases i,
{
    if i > lo && is_comment(ls[i - 1]) {
        lemma_comments_above(ls, i - 1, lo);
    }
}

fn next_header(ls: &Vec<String>, from: usize) -> (r: usize)
    requires
        from <= ls@.len(),
    ensures
        from <= r <= ls@.len(),
        r == header_from(ls.deep_view(), from as int),
{
    let mut i: usize = from;
    while i < ls.len()
        invariant
            from <= i <= ls@.len(),
            header_from(ls.deep_view(), from as int) == header_from(ls.deep_view(), i as int),
        decreases ls@.len() - i,
    {
        assert(ls.deep_view()[i as int] == ls@[i as int]@);
        if is_section_header(ls[i].as_str()) {
            return i;
        }
        i += 1;
    }
    i
}

fn first_comment(ls: &Vec<String>, at: usize) -> (r: usize)
    requires
        at <= ls@.len(),
    ensures
        r <= at,
        r == comments_above(ls.deep_view(), at as int),
{
    let mut i: usize = at;
    while i > 0
        invariant
            i <= at <= ls@.len(),
            comments_above(ls.deep_view(), at as int) == comments_above(ls.deep_view(), i as int),
        decreases i,
    {
        assert(ls.deep_view()[i - 1] == ls@[i - 1]@);
        if !comments(ls[i - 1].as_str()) {
            return i;
        }
        i -= 1;
    }
    i
}

fn header_name(line: &str) -> (r: String)
    ensures
        r@ == name_in(line@),
{
    let t = trim(line);
    let v = chars_of(t.as_str());
    let mut lo: usize = 0;
    let n: usize = v.len();
    assert(v@.subrange(0, n as int) =~= v@);
    while lo < n && (v[lo] == '[' || v[lo] == ']')
        invariant
            lo <= n == v@.len(),
            unbracketed_start(v@.subrange(lo as int, n as int)) == unbracketed_start(v@),
        decreases n - lo,
    {
        assert(v@.subrange(lo as int, n as int).drop_first() =~= v@.subrange(lo + 1, n as int));
        lo += 1;
    }
    let mut hi: usize = n;
    while hi > lo && (v[hi - 1] == '[' || v[hi - 1] == ']')
        invariant
            lo <= hi <= n == v@.len(),
            unbracketed_end(v@.subrange(lo as int, hi as int)) == unbracketed_end(
                v@.subrange(lo as int, n as int),
            ),
        decreases hi,
    {
        assert(v@.subrange(lo as int, hi as int).drop_last() =~= v@.subrange(lo as int, hi - 1));
        hi -= 1;
    }
    text_of(v.as_slice(), lo, hi)
}

/// The sections of a text.
pub fn sections_of(ls: &Vec<String>) -> (r: Vec<ExampleSection>)
    ensures
        r.deep_view() == sections_from(ls.deep_view(), 0),
{
    let ghost all = ls.deep_view();
    let mut out: Vec<ExampleSection> = Vec::new();
    let mut h: usize = next_header(ls, 0);
    assert(out.deep_view() =~= Seq::<SectionView>::empty());
    assert(out.deep_view() + sections_from(all, 0) =~= sections_from(all, 0));
    proof {
        lemma_header_from(all, 0);
        lemma_header_from(all, h as int);
    }
    while h < ls.len()
        invariant
            all == ls.deep_view(),
            h <= ls@.len() == all.len(),
            h < all.len() ==> is_header(all[h as int]) && header_from(all, h as int) == h,
            out.deep_view() + sections_from(all, h as int) == sections_from(all, 0),
        decreases ls@.len() - h,
    {
        let next: usize = next_header(ls, h + 1);
        let start: usize = first_comment(ls, h);
        let end: usize = if next >= ls.len() {
            ls.len()
        } else {
            first_comment(ls, next)
        };
        proof {
            lemma_header_from(all, h + 1);
            lemma_header_is_no_comment(all[h as int]);
            lemma_comments_above(all, next as int, h + 1);
        }
        let name = header_name(ls[h].as_str());
        let ghost before = out.deep_view();
        let section = ExampleSection { name, lines: copy_range(ls, start, end) };
        let ghost e = section.deep_view();
        out.push(section);
        assert(out.deep_view() =~= before.push(e));
        assert(all[h as int] == ls@[h as int]@);
        assert(sections_from(all, h as int) == seq![e] + sections_from(all, h + 1));
        proof {
            lemma_sections_skip(all, h + 1);
        }
        assert(before + sections_from(all, h as int) =~= out.deep_view() + sections_from(
            all,
            next as int,
        ));
        h = next;
        proof {
            lemma_header_from(all, h as int);
        }
    }
    assert(sections_from(all, h as int) =~= Seq::<SectionView>::empty()) by {
        lemma_header_from(all, h as int);
    }
    assert(out.deep_view() =~= sections_from(all, 0));
    out
}

/// Nothing begins before the next header.
proof fn lemma_sections_skip(ls: Seq<Seq<char>>, i: int)
    requires
        0 <= i <= ls.len(),
    ensures
        sections_from(ls, i) == sections_from(ls, header_from(ls, i)),
{
    lemma_header_from(ls, i);
    lemma_header_twice(ls, i);
}

proof fn lemma_header_twice(ls: Seq<Seq<char>>, i: int)
    requires
        0 <= i <= ls.len(),
    ensures
        header_from(ls, header_from(ls, i)) == header_from(ls, i),
    decreases ls.len() - i,
{
    if i < ls.len() && !is_header(ls[i]) {
        lemma_header_twice(ls, i + 1);
    }
}

/// The sections of the example.
pub fn example_sections() -> (r: Vec<ExampleSection>)
    ensures
        r.deep_view() == sections_from(text::lines(EXAMPLE_TOML@), 0),
{
    sections_of(&lines_of(EXAMPLE_TOML))
}

/// A text that a setting can be called by.
pub open spec fn is_key(k: Seq<char>) -> bool {
    k.len() > 0 && forall|i: int| 0 <= i < k.len() ==> alphanumeric(#[trigger] k[i]) || k[i] == '_'
}

/// A line without the mark that comments it out.
pub open spec fn uncommented(line: Seq<char>) -> Seq<char> {
    let t = text::trimmed(line);
    if t.len() > 0 && t[0] == '#' {
        text::trim_start(t.drop_first())
    } else {
        t
    }
}

/// The setting that a line defines, commented out or not. A line that gives nothing a
/// value defines none, whatever word it is.
pub open spec fn key_in(line: Seq<char>) -> Option<Seq<char>> {
    let k = text::trimmed(text::pieces(uncommented(line), '=')[0]);
    if uncommented(line).contains('=') && is_key(k) {
        Some(k)
    } else {
        None
    }
}

/// The setting that a line defines, commented out or not, which is what tells a
/// documented default from prose.
pub fn toml_key_of(line: &str) -> (r: Option<String>)
    ensures
        r.deep_view() == key_in(line@),
{
    let t = trim(line);
    let v = chars_of(t.as_str());
    let u = if v.len() > 0 && v[0] == '#' {
        let lo: usize = skip_blanks(v.as_slice(), 1, v.len());
        assert(v@.subrange(1, v@.len() as int) =~= v@.drop_first());
        text_of(v.as_slice(), lo, v.len())
    } else {
        t
    };
    assert(u@ == uncommented(line@));
    let w = chars_of(u.as_str());
    let at: usize = char_at_or_end(w.as_slice(), '=', 0);
    proof {
        text::lemma_find_char(w@, '=', 0);
    }
    if at == w.len() {
        return None;
    }
    assert(w@[at as int] == '=');
    let parts = split_text(u.as_str(), '=');
    assert(parts@.len() == parts.deep_view().len());
    assert(parts.deep_view()[0] == parts@[0]@);
    let key = trim(parts[0].as_str());
    let k = chars_of(key.as_str());
    if k.len() == 0 {
        return None;
    }
    let mut i: usize = 0;
    while i < k.len()
        invariant
            i <= k@.len(),
            k@ == key@,
            key@ == text::trimmed(text::pieces(uncommented(line@), '=')[0]),
            forall|j: int| 0 <= j < i ==> alphanumeric(#[trigger] k@[j]) || k@[j] == '_',
        decreases k@.len() - i,
    {
        if !(is_alphanumeric(k[i]) || k[i] == '_') {
            assert(!is_key(key@)) by {
                assert(!(alphanumeric(key@[i as int]) || key@[i as int] == '_'));
            }
            return None;
        }
        i += 1;
    }
    assert(is_key(key@));
    Some(key)
}

/// The line that begins a section.
pub open spec fn header_of(section: Seq<char>) -> Seq<char> {
    "["@ + section + "]"@
}

/// The first line from `i` on that begins the section, or the end.
pub open spec fn own_header_from(ls: Seq<Seq<char>>, section: Seq<char>, i: int) -> int
    decreases ls.len() - i,
{
    if i < 0 || i >= ls.len() || text::trimmed(ls[i]) == header_of(section) {
        i
    } else {
        own_header_from(ls, section, i + 1)
    }
}

/// The lines of a section, without the one that begins it.
pub open spec fn body_of(ls: Seq<Seq<char>>, section: Seq<char>) -> Seq<Seq<char>> {
    let start = own_header_from(ls, section, 0);
    if start >= ls.len() {
        Seq::empty()
    } else {
        ls.subrange(start + 1, header_from(ls, start + 1))
    }
}

fn own_header(ls: &Vec<String>, section: &str) -> (r: usize)
    ensures
        r <= ls@.len(),
        r == own_header_from(ls.deep_view(), section@, 0),
{
    let header = join3("[", section, "]");
    let mut i: usize = 0;
    while i < ls.len()
        invariant
            i <= ls@.len(),
            header@ == header_of(section@),
            own_header_from(ls.deep_view(), section@, 0) == own_header_from(
                ls.deep_view(),
                section@,
                i as int,
            ),
        decreases ls@.len() - i,
    {
        assert(ls.deep_view()[i as int] == ls@[i as int]@);
        let t = trim(ls[i].as_str());
        if same_text(t.as_str(), header.as_str()) {
            return i;
        }
        i += 1;
    }
    i
}

/// The lines of a section of a text, without the one that begins it.
pub fn section_body(text: &str, section: &str) -> (r: Vec<String>)
    ensures
        r.deep_view() == body_of(text::lines(text@), section@),
{
    let ls = lines_of(text);
    let start: usize = own_header(&ls, section);
    if start >= ls.len() {
        let none: Vec<String> = Vec::new();
        assert(none.deep_view() =~= Seq::<Seq<char>>::empty());
        return none;
    }
    let end: usize = next_header(&ls, start + 1);
    copy_range(&ls, start + 1, end)
}

/// The settings in the lines from `i` on, where these comments stand above them. A
/// definition is commented out, since it goes into a section that the user wrote.
pub open spec fn entries_from(ls: Seq<Seq<char>>, i: int, above: Seq<Seq<char>>) -> Seq<EntryView>
    decreases ls.len() - i,
{
    if i < 0 || i >= ls.len() {
        Seq::empty()
    } else {
        let t = text::trimmed(ls[i]);
        match key_in(ls[i]) {
            Some(key) => {
                let line = if t[0] == '#' {
                    text::trim_end(ls[i])
                } else {
                    "# "@ + text::trim_end(ls[i])
                };
                seq![EntryView { key, lines: above.push(line) }] + entries_from(
                    ls,
                    i + 1,
                    Seq::empty(),
                )
            },
            None => if t.len() > 0 && t[0] == '#' {
                entries_from(ls, i + 1, above.push(text::trim_end(ls[i])))
            } else {
                entries_from(ls, i + 1, Seq::empty())
            },
        }
    }
}

/// The settings of a section of the example.
pub open spec fn entries_of(s: SectionView) -> Seq<EntryView> {
    entries_from(s.lines, own_header_from(s.lines, s.name, 0) + 1, Seq::empty())
}

/// A line with a key is not blank.
pub(crate) proof fn lemma_key_line(line: Seq<char>)
    requires
        key_in(line) is Some,
    ensures
        text::trimmed(line).len() > 0,
{
    if text::trimmed(line).len() == 0 {
        let e = uncommented(line);
        assert(e.len() == 0);
        assert(text::pieces(e, '=')[0].len() == 0) by {
            text::lemma_find_char(e, '=', 0);
        }
        assert(text::trimmed(text::pieces(e, '=')[0]).len() == 0);
    }
}

fn without_trailing(s: &str) -> (r: String)
    ensures
        r@ == text::trim_end(s@),
{
    let v = chars_of(s);
    let hi: usize = drop_blanks(v.as_slice(), 0, v.len());
    assert(v@.subrange(0, v@.len() as int) =~= s@);
    text_of(v.as_slice(), 0, hi)
}

/// The settings of one section of the example, in the order in which it lists them.
pub fn example_entries(section: &ExampleSection) -> (r: Vec<ExampleEntry>)
    ensures
        r.deep_view() == entries_of(section.deep_view()),
{
    let ls = &section.lines;
    let ghost all = ls.deep_view();
    let at: usize = own_header(ls, section.name.as_str());
    let mut out: Vec<ExampleEntry> = Vec::new();
    let mut above: Vec<String> = Vec::new();
    if at >= ls.len() {
        assert(out.deep_view() =~= entries_of(section.deep_view()));
        return out;
    }
    let mut i: usize = at + 1;
    let ghost want = entries_of(section.deep_view());
    assert(above.deep_view() =~= Seq::<Seq<char>>::empty());
    assert(out.deep_view() + entries_from(all, i as int, above.deep_view()) =~= want);
    while i < ls.len()
        invariant
            ls == &section.lines,
            all == ls.deep_view(),
            i <= ls@.len() == all.len(),
            out.deep_view() + entries_from(all, i as int, above.deep_view()) == want,
        decreases ls@.len() - i,
    {
        let ghost before = out.deep_view();
        let ghost up = above.deep_view();
        assert(all[i as int] == ls@[i as int]@);
        let t = trim(ls[i].as_str());
        let tv = chars_of(t.as_str());
        let cut = without_trailing(ls[i].as_str());
        let comment = tv.len() > 0 && tv[0] == '#';
        match toml_key_of(ls[i].as_str()) {
            Some(key) => {
                proof {
                    lemma_key_line(all[i as int]);
                }
                let line = if comment {
                    cut
                } else {
                    join2("# ", cut.as_str())
                };
                let ghost l = line@;
                above.push(line);
                assert(above.deep_view() =~= up.push(l));
                let ghost e = EntryView { key: key@, lines: above.deep_view() };
                out.push(ExampleEntry { key, lines: above });
                assert(out.deep_view() =~= before.push(e));
                above = Vec::new();
                assert(above.deep_view() =~= Seq::<Seq<char>>::empty());
                assert(before + entries_from(all, i as int, up) =~= out.deep_view()
                    + entries_from(all, i + 1, above.deep_view()));
            },
            None => {
                if comment {
                    let ghost l = cut@;
                    above.push(cut);
                    assert(above.deep_view() =~= up.push(l));
                } else {
                    above = Vec::new();
                    assert(above.deep_view() =~= Seq::<Seq<char>>::empty());
                }
            },
        }
        i += 1;
    }
    assert(out.deep_view() =~= want);
    out
}

/// The end of a section without the blank lines that stand between it and the next.
pub open spec fn filled_end(ls: Seq<Seq<char>>, lo: int, end: int) -> int
    decreases end - lo,
{
    if 0 <= lo < end <= ls.len() && text::trimmed(ls[end - 1]).len() == 0 {
        filled_end(ls, lo, end - 1)
    } else {
        end
    }
}

/// The lines that settings add, each with a blank line above.
pub open spec fn added_lines(entries: Seq<EntryView>) -> Seq<Seq<char>>
    decreases entries.len(),
{
    if entries.len() == 0 {
        Seq::empty()
    } else {
        added_lines(entries.drop_last()) + seq![Seq::<char>::empty()] + entries.last().lines
    }
}

/// Lines with settings at the end of a section. `None` where there is no such section.
pub open spec fn inserted(ls: Seq<Seq<char>>, section: Seq<char>, entries: Seq<EntryView>) -> Option<
    Seq<Seq<char>>,
> {
    let start = own_header_from(ls, section, 0);
    if start >= ls.len() {
        None
    } else {
        let at = filled_end(ls, start + 1, header_from(ls, start + 1));
        Some(ls.take(at) + added_lines(entries) + ls.skip(at))
    }
}

/// A text with settings at the end of a section.
pub open spec fn text_inserted(s: Seq<char>, section: Seq<char>, entries: Seq<EntryView>) -> Option<
    Seq<char>,
> {
    match inserted(text::lines(s), section, entries) {
        Some(ls) => Some(
            if s.len() > 0 && s.last() == '\n' {
                model::joined(ls, "\n"@).push('\n')
            } else {
                model::joined(ls, "\n"@)
            },
        ),
        None => None,
    }
}

fn ends_line(s: &str) -> (r: bool)
    ensures
        r == (s@.len() > 0 && s@.last() == '\n'),
{
    let n: usize = s.unicode_len();
    n > 0 && s.get_char(n - 1) == '\n'
}

fn push_lines(out: &mut Vec<String>, ls: &Vec<String>, lo: usize, hi: usize)
    requires
        lo <= hi <= ls@.len(),
    ensures
        final(out).deep_view() == old(out).deep_view() + ls.deep_view().subrange(
            lo as int,
            hi as int,
        ),
{
    let ghost first = out.deep_view();
    let mut i: usize = lo;
    assert(first + ls.deep_view().subrange(lo as int, lo as int) =~= first);
    while i < hi
        invariant
            lo <= i <= hi <= ls@.len(),
            out.deep_view() == first + ls.deep_view().subrange(lo as int, i as int),
        decreases hi - i,
    {
        let ghost before = out.deep_view();
        let l = ls[i].clone();
        out.push(l);
        assert(out.deep_view() =~= before.push(ls.deep_view()[i as int]));
        i += 1;
        assert(out.deep_view() =~= first + ls.deep_view().subrange(lo as int, i as int));
    }
}

/// A text with settings at the end of the section they belong to: a second header of
/// the same name would be no valid file. Every line that was there stays, in its order.
pub fn insert_into_section(text: &str, section: &str, entries: &Vec<ExampleEntry>) -> (r: Option<
    String,
>)
    ensures
        r.deep_view() == text_inserted(text@, section@, entries.deep_view()),
{
    let ls = lines_of(text);
    let ghost all = ls.deep_view();
    let start: usize = own_header(&ls, section);
    if start >= ls.len() {
        return None;
    }
    let mut end: usize = next_header(&ls, start + 1);
    let ghost whole = end as int;
    while end > start + 1
        invariant
            all == ls.deep_view(),
            start + 1 <= end <= ls@.len(),
            filled_end(all, start + 1, end as int) == filled_end(all, start + 1, whole),
        ensures
            start + 1 <= end <= ls@.len(),
            end == filled_end(all, start + 1, whole),
        decreases end,
    {
        assert(all[end - 1] == ls@[end - 1]@);
        let t = trim(ls[end - 1].as_str());
        if t.as_str().unicode_len() != 0 {
            break ;
        }
        end -= 1;
    }
    let mut out: Vec<String> = Vec::new();
    assert(out.deep_view() =~= Seq::<Seq<char>>::empty());
    push_lines(&mut out, &ls, 0, end);
    assert(out.deep_view() =~= all.take(end as int));
    let mut i: usize = 0;
    assert(out.deep_view() =~= all.take(end as int) + added_lines(entries.deep_view().take(0)));
    while i < entries.len()
        invariant
            i <= entries@.len(),
            out.deep_view() == all.take(end as int) + added_lines(entries.deep_view().take(i as int)),
        decreases entries@.len() - i,
    {
        let ghost before = out.deep_view();
        let ghost upto = entries.deep_view().take(i + 1);
        assert(upto.drop_last() =~= entries.deep_view().take(i as int));
        assert(upto.last() == entries@[i as int].deep_view());
        let blank = String::new();
        assert(blank@ =~= Seq::<char>::empty());
        out.push(blank);
        assert(out.deep_view() =~= before.push(Seq::empty()));
        push_lines(&mut out, &entries[i].lines, 0, entries[i].lines.len());
        let ghost added = entries@[i as int].lines.deep_view();
        assert(added.subrange(0, added.len() as int) =~= added);
        assert(out.deep_view() =~= all.take(end as int) + added_lines(upto));
        i += 1;
    }
    assert(entries.deep_view().take(i as int) =~= entries.deep_view());
    push_lines(&mut out, &ls, end, ls.len());
    assert(all.subrange(end as int, all.len() as int) =~= all.skip(end as int));
    let mut text2 = join_all(&out, "\n");
    if ends_line(text) {
        text2.push('\n');
    }
    Some(text2)
}

/// What a file of settings does not mention.
#[derive(Debug, Clone, PartialEq, Eq)]
pub struct Gaps {
    /// The sections that it does not have.
    pub absent: Vec<ExampleSection>,
    /// The settings that are absent from a section that it has, by its name.
    pub partial: Vec<(String, Vec<ExampleEntry>)>,
}

/// The model of `Gaps`.
#[verifier::ext_equal]
pub struct GapsView {
    pub absent: Seq<SectionView>,
    pub partial: Seq<(Seq<char>, Seq<EntryView>)>,
}

impl DeepView for Gaps {
    type V = GapsView;

    open spec fn deep_view(&self) -> GapsView {
        GapsView { absent: self.absent.deep_view(), partial: self.partial.deep_view() }
    }
}

/// Whether a line among these defines a setting, commented out or not.
pub open spec fn mentions(ls: Seq<Seq<char>>, key: Seq<char>) -> bool {
    exists|i: int| 0 <= i < ls.len() && key_in(#[trigger] ls[i]) == Some(key)
}

/// The settings of the example that are missing: it has them at their default, the
/// table of the user's does not, and no line of theirs says it in a comment.
pub open spec fn missing(
    entries: Seq<EntryView>,
    theirs: Seq<(Seq<char>, ScalarView)>,
    mine: Seq<(Seq<char>, ScalarView)>,
    body: Seq<Seq<char>>,
) -> Seq<EntryView>
    decreases entries.len(),
{
    if entries.len() == 0 {
        Seq::empty()
    } else {
        let before = missing(entries.drop_last(), theirs, mine, body);
        let e = entries.last();
        if document::value_of(theirs, e.key) is Some && document::value_of(mine, e.key) is None && !mentions(
            body,
            e.key,
        ) {
            before.push(e)
        } else {
            before
        }
    }
}

/// What a file with these lines, and this in it, does not mention of these sections of
/// the example, whose values are `want`.
pub open spec fn gaps_in(
    sections: Seq<SectionView>,
    have: Seq<(Seq<char>, ItemView)>,
    want: Seq<(Seq<char>, ItemView)>,
    ls: Seq<Seq<char>>,
) -> GapsView
    decreases sections.len(),
{
    if sections.len() == 0 {
        GapsView { absent: Seq::empty(), partial: Seq::empty() }
    } else {
        let g = gaps_in(sections.drop_last(), have, want, ls);
        let s = sections.last();
        match (document::item_of(have, s.name), document::item_of(want, s.name)) {
            (None, _) => GapsView { absent: g.absent.push(s), ..g },
            (Some(ItemView::Table(mine)), Some(ItemView::Table(theirs))) => {
                let m = missing(entries_of(s), theirs, mine, body_of(ls, s.name));
                if m.len() > 0 {
                    GapsView { partial: g.partial.push((s.name, m)), ..g }
                } else {
                    g
                }
            },
            _ => g,
        }
    }
}

/// What a text does not mention of the example; `None` where it is no valid file.
pub open spec fn gaps_of(text: Seq<char>) -> Option<GapsView> {
    match (document::document(text), document::document(EXAMPLE_TOML@)) {
        (Some(have), Some(want)) => Some(
            gaps_in(sections_from(text::lines(EXAMPLE_TOML@), 0), have, want, text::lines(text)),
        ),
        _ => None,
    }
}

fn is_mentioned(ls: &Vec<String>, key: &str) -> (r: bool)
    ensures
        r == mentions(ls.deep_view(), key@),
{
    let ghost all = ls.deep_view();
    let mut i: usize = 0;
    while i < ls.len()
        invariant
            all == ls.deep_view(),
            i <= ls@.len() == all.len(),
            forall|k: int| 0 <= k < i ==> key_in(#[trigger] all[k]) != Some(key@),
        decreases ls@.len() - i,
    {
        assert(all[i as int] == ls@[i as int]@);
        if let Some(k) = toml_key_of(ls[i].as_str()) {
            if same_text(k.as_str(), key) {
                return true;
            }
        }
        i += 1;
    }
    false
}

fn missing_entries(
    entries: Vec<ExampleEntry>,
    theirs: &Vec<(String, Scalar)>,
    mine: &Vec<(String, Scalar)>,
    body: &Vec<String>,
) -> (r: Vec<ExampleEntry>)
    ensures
        r.deep_view() == missing(
            entries.deep_view(),
            theirs.deep_view(),
            mine.deep_view(),
            body.deep_view(),
        ),
{
    let ghost all = entries.deep_view();
    let mut out: Vec<ExampleEntry> = Vec::new();
    let mut i: usize = 0;
    assert(out.deep_view() =~= missing(
        all.take(0),
        theirs.deep_view(),
        mine.deep_view(),
        body.deep_view(),
    ));
    while i < entries.len()
        invariant
            all == entries.deep_view(),
            i <= entries@.len() == all.len(),
            out.deep_view() == missing(
                all.take(i as int),
                theirs.deep_view(),
                mine.deep_view(),
                body.deep_view(),
            ),
        decreases entries@.len() - i,
    {
        let ghost before = out.deep_view();
        let e = &entries[i];
        assert(all.take(i + 1).drop_last() =~= all.take(i as int));
        assert(all.take(i + 1).last() == e.deep_view());
        let key = e.key.as_str();
        if find_value(theirs, key).is_some() && find_value(mine, key).is_none() && !is_mentioned(
            body,
            key,
        ) {
            out.push(e.copy());
            assert(out.deep_view() =~= before.push(e.deep_view()));
        }
        i += 1;
    }
    assert(all.take(i as int) =~= all);
    out
}

/// What a text does not mention of the example.
pub fn gaps(text: &str) -> (r: Option<Gaps>)
    ensures
        r.deep_view() == gaps_of(text@),
{
    let have = match read(text) {
        Ok(d) => d,
        Err(_) => return None,
    };
    let want = match read(EXAMPLE_TOML) {
        Ok(d) => d,
        Err(_) => return None,
    };
    let sections = example_sections();
    let ghost all = sections.deep_view();
    let mut absent: Vec<ExampleSection> = Vec::new();
    let mut partial: Vec<(String, Vec<ExampleEntry>)> = Vec::new();
    let n: usize = sections.len();
    let mut i: usize = 0;
    assert(absent.deep_view() =~= Seq::<SectionView>::empty());
    assert(partial.deep_view() =~= Seq::<(Seq<char>, Seq<EntryView>)>::empty());
    let ghost hv = have.deep_view();
    let ghost wv = want.deep_view();
    while i < n
        invariant
            i <= n == all.len(),
            sections.deep_view() == all,
            hv == have.deep_view(),
            wv == want.deep_view(),
            absent.deep_view() == gaps_in(all.take(i as int), hv, wv, text::lines(text@)).absent,
            partial.deep_view() == gaps_in(all.take(i as int), hv, wv, text::lines(text@)).partial,
        decreases n - i,
    {
        let ghost a = absent.deep_view();
        let ghost p = partial.deep_view();
        assert(sections@.len() == sections.deep_view().len());
        let s = &sections[i];
        assert(all.take(i + 1).drop_last() =~= all.take(i as int));
        assert(all.take(i + 1).last() == s.deep_view());
        let mine = find_item(&have, s.name.as_str());
        let theirs = find_item(&want, s.name.as_str());
        match (mine, theirs) {
            (None, _) => {
                let section = ExampleSection { name: s.name.clone(), lines: s.lines.copy() };
                absent.push(section);
                assert(absent.deep_view() =~= a.push(s.deep_view()));
            },
            (Some(m), Some(t)) => {
                if let (Item::Table(mine), Item::Table(theirs)) = (&have[m].1, &want[t].1) {
                    let body = section_body(text, s.name.as_str());
                    let found = missing_entries(example_entries(s), theirs, mine, &body);
                    let ghost f = found.deep_view();
                    assert(found@.len() == f.len());
                    if found.len() > 0 {
                        partial.push((s.name.clone(), found));
                        assert(partial.deep_view() =~= p.push((s.deep_view().name, f)));
                    }
                }
            },
            _ => {},
        }
        i += 1;
    }
    assert(all.take(i as int) =~= all);
    Some(Gaps { absent, partial })
}

/// A text with what is missing from the sections that it has.
pub open spec fn filled_in(text: Seq<char>, partial: Seq<(Seq<char>, Seq<EntryView>)>) -> Seq<char>
    decreases partial.len(),
{
    if partial.len() == 0 {
        text
    } else {
        let before = filled_in(text, partial.drop_last());
        match text_inserted(before, partial.last().0, partial.last().1) {
            Some(t) => t,
            None => before,
        }
    }
}

/// A text with the sections that it does not have at its end.
pub open spec fn appended(text: Seq<char>, absent: Seq<SectionView>) -> Seq<char>
    decreases absent.len(),
{
    if absent.len() == 0 {
        if text.len() > 0 && text.last() == '\n' {
            text
        } else {
            text.push('\n')
        }
    } else {
        appended(text, absent.drop_last()).push('\n') + text::trim_end(
            model::joined(absent.last().lines, "\n"@),
        ).push('\n')
    }
}

/// A text with what it does not mention.
pub open spec fn topped(text: Seq<char>, g: GapsView) -> Seq<char> {
    let t = filled_in(text, g.partial);
    if g.absent.len() == 0 {
        t
    } else {
        appended(t, g.absent)
    }
}

/// A text with what it does not mention: settings as comments under the headers that
/// are there, and the sections that are not there at the end.
pub fn topped_up(text: &str, g: &Gaps) -> (r: String)
    ensures
        r@ == topped(text@, g.deep_view()),
{
    let mut out = text.to_owned();
    let ghost parts = g.partial.deep_view();
    let mut i: usize = 0;
    assert(parts.take(0) =~= Seq::<(Seq<char>, Seq<EntryView>)>::empty());
    while i < g.partial.len()
        invariant
            parts == g.partial.deep_view(),
            i <= g.partial@.len() == parts.len(),
            out@ == filled_in(text@, parts.take(i as int)),
        decreases g.partial@.len() - i,
    {
        assert(parts.take(i + 1).drop_last() =~= parts.take(i as int));
        assert(parts.take(i + 1).last() == (
            g.partial@[i as int].0@,
            g.partial@[i as int].1.deep_view(),
        ));
        if let Some(t) = insert_into_section(
            out.as_str(),
            g.partial[i].0.as_str(),
            &g.partial[i].1,
        ) {
            out = t;
        }
        i += 1;
    }
    assert(parts.take(i as int) =~= parts);
    let ghost filled = out@;
    assert(g.absent@.len() == g.absent.deep_view().len());
    if g.absent.len() == 0 {
        return out;
    }
    if !ends_line(out.as_str()) {
        out.push('\n');
    }
    let ghost absent = g.absent.deep_view();
    let mut j: usize = 0;
    assert(absent.take(0) =~= Seq::<SectionView>::empty());
    while j < g.absent.len()
        invariant
            absent == g.absent.deep_view(),
            j <= g.absent@.len() == absent.len(),
            out@ == appended(filled, absent.take(j as int)),
        decreases g.absent@.len() - j,
    {
        assert(absent.take(j + 1).drop_last() =~= absent.take(j as int));
        assert(absent.take(j + 1).last() == g.absent@[j as int].deep_view());
        out.push('\n');
        let text = join_all(&g.absent[j].lines, "\n");
        let mut section = without_trailing(text.as_str());
        section.push('\n');
        out.append(section.as_str());
        j += 1;
    }
    assert(absent.take(j as int) =~= absent);
    out
}

/// What becomes of a file that is brought up to the example.
#[derive(Debug, Clone, PartialEq, Eq)]
pub enum TopUp {
    /// It is no valid file, and stays as it is.
    Invalid,
    /// It lacks nothing.
    Complete,
    /// What would be written could not be read, or would not last, so nothing is.
    Refused,
    /// What to write, and what it says that was not said.
    Added { text: String, gaps: Gaps },
}

/// Settings that can be used: all of their kinds, and none at fault.
pub open spec fn loads(text: Seq<char>) -> bool {
    config::settings_read(text) is Ok
}

/// Nothing is added to a file: it mentions everything, or what it does not is in sections
/// that nothing can be added to.
pub open spec fn settled(text: Seq<char>) -> bool {
    match gaps_of(text) {
        Some(more) => topped(text, more) == text,
        None => false,
    }
}

fn is_settled(text: &str) -> (r: bool)
    ensures
        r == settled(text@),
{
    match gaps(text) {
        Some(more) => {
            let again = topped_up(text, &more);
            same_text(again.as_str(), text)
        },
        None => false,
    }
}

/// The text of a file once it was brought up to the documented example.
pub open spec fn brought_up(text: Seq<char>) -> Seq<char> {
    match gaps_of(text) {
        Some(g) => if loads(topped(text, g)) && settled(topped(text, g)) {
            topped(text, g)
        } else {
            text
        },
        None => text,
    }
}

/// What becomes of a file of settings that is brought up to the documented example. What
/// would be written is read first: it is written only where it loads, and where it is what
/// the same would leave as it is.
pub fn top_up(text: &str) -> (r: TopUp)
    ensures
        match gaps_of(text@) {
            None => r is Invalid,
            Some(g) => if g.absent.len() == 0 && g.partial.len() == 0 {
                r is Complete
            } else if !loads(topped(text@, g)) || !settled(topped(text@, g)) {
                r is Refused
            } else {
                r matches TopUp::Added { text: t, gaps } && t@ == topped(text@, g)
                    && gaps.deep_view() == g
            },
        },
        brought_up(text@) == match r {
            TopUp::Added { text: t, gaps: _ } => t@,
            _ => text@,
        },
{
    let g = match gaps(text) {
        Some(g) => g,
        None => return TopUp::Invalid,
    };
    assert(g.absent@.len() == g.absent.deep_view().len());
    assert(g.partial@.len() == g.partial.deep_view().len());
    if g.absent.len() == 0 && g.partial.len() == 0 {
        return TopUp::Complete;
    }
    let t = topped_up(text, &g);
    match Config::from_toml_str(t.as_str()) {
        Ok(_) => if is_settled(t.as_str()) {
            TopUp::Added { text: t, gaps: g }
        } else {
            TopUp::Refused
        },
        Err(_) => TopUp::Refused,
    }
}

/// Bringing a file up to the example a second time leaves it exactly as the first time
/// did, whatever file it was.
pub proof fn a_second_time_changes_nothing(text: Seq<char>)
    ensures
        brought_up(brought_up(text)) == brought_up(text),
{
}

/// The names of sections.
pub open spec fn names_of(sections: Seq<SectionView>) -> Seq<Seq<char>> {
    sections.map_values(|s: SectionView| s.name)
}

/// The keys of settings.
pub open spec fn keys_of(entries: Seq<EntryView>) -> Seq<Seq<char>> {
    entries.map_values(|e: EntryView| e.key)
}

/// What the user is told of the settings that were added, by section.
pub open spec fn partial_report(partial: Seq<(Seq<char>, Seq<EntryView>)>) -> Seq<Seq<char>> {
    partial.map_values(
        |p: (Seq<char>, Seq<EntryView>)|
            "added to ["@ + p.0 + "], commented out: "@ + model::joined(keys_of(p.1), ", "@),
    )
}

/// What the user is told of what was added.
pub open spec fn added_report(g: GapsView) -> Seq<Seq<char>> {
    if g.absent.len() == 0 {
        partial_report(g.partial)
    } else {
        seq![
            "added at their documented defaults: ["@ + model::joined(names_of(g.absent), "], ["@) + "]"@,
        ] + partial_report(g.partial)
    }
}

fn section_names(sections: &Vec<ExampleSection>) -> (r: Vec<String>)
    ensures
        r.deep_view() == names_of(sections.deep_view()),
{
    let mut out: Vec<String> = Vec::new();
    let mut i: usize = 0;
    while i < sections.len()
        invariant
            i <= sections@.len(),
            out@.len() == i,
            forall|k: int| 0 <= k < i ==> (#[trigger] out@[k])@ == sections@[k].name@,
        decreases sections@.len() - i,
    {
        out.push(sections[i].name.clone());
        i += 1;
    }
    assert(out.deep_view() =~= names_of(sections.deep_view()));
    out
}

fn entry_keys(entries: &Vec<ExampleEntry>) -> (r: Vec<String>)
    ensures
        r.deep_view() == keys_of(entries.deep_view()),
{
    let mut out: Vec<String> = Vec::new();
    let mut i: usize = 0;
    while i < entries.len()
        invariant
            i <= entries@.len(),
            out@.len() == i,
            forall|k: int| 0 <= k < i ==> (#[trigger] out@[k])@ == entries@[k].key@,
        decreases entries@.len() - i,
    {
        out.push(entries[i].key.clone());
        i += 1;
    }
    assert(out.deep_view() =~= keys_of(entries.deep_view()));
    out
}

/// What the user is told of what was added, one paragraph each.
pub fn report_added(g: &Gaps) -> (r: Vec<String>)
    ensures
        r.deep_view() == added_report(g.deep_view()),
{
    let mut out: Vec<String> = Vec::new();
    assert(g.absent@.len() == g.absent.deep_view().len());
    assert(out.deep_view() =~= Seq::<Seq<char>>::empty());
    if g.absent.len() > 0 {
        let names = section_names(&g.absent);
        let list = join_all(&names, "], [");
        out.push(join3("added at their documented defaults: [", list.as_str(), "]"));
    }
    let ghost first = out.deep_view();
    let ghost parts = g.partial.deep_view();
    assert(g.absent.deep_view().len() > 0 ==> first =~= seq![
        "added at their documented defaults: ["@ + model::joined(names_of(g.absent.deep_view()), "], ["@)
            + "]"@,
    ]);
    let mut i: usize = 0;
    assert(first + partial_report(parts).take(0) =~= first);
    while i < g.partial.len()
        invariant
            parts == g.partial.deep_view(),
            i <= g.partial@.len() == parts.len(),
            out.deep_view() == first + partial_report(parts).take(i as int),
        decreases g.partial@.len() - i,
    {
        let ghost before = out.deep_view();
        assert(parts[i as int] == (g.partial@[i as int].0@, g.partial@[i as int].1.deep_view()));
        let keys = entry_keys(&g.partial[i].1);
        let list = join_all(&keys, ", ");
        let mut line = join3("added to [", g.partial[i].0.as_str(), "], commented out: ");
        line.append(list.as_str());
        let ghost l = line@;
        out.push(line);
        assert(out.deep_view() =~= before.push(l));
        assert(l == partial_report(parts)[i as int]);
        i += 1;
        assert(out.deep_view() =~= first + partial_report(parts).take(i as int));
    }
    assert(partial_report(parts).take(i as int) =~= partial_report(parts));
    assert(out.deep_view() =~= added_report(g.deep_view()));
    out
}

/// A setting as it is added: nothing but comments, the last of which defines it.
pub open spec fn is_commented_out(e: EntryView) -> bool {
    &&& e.lines.len() > 0
    &&& forall|i: int| 0 <= i < e.lines.len() ==> is_comment(#[trigger] e.lines[i])
    &&& key_in(e.lines.last()) == Some(e.key)
}

proof fn lemma_definition(l: Seq<char>)
    requires
        key_in(l) is Some,
    ensures
        key_in(text::trim_end(l)) == key_in(l),
        text::trimmed(l)[0] != '#' ==> key_in("# "@ + text::trim_end(l)) == key_in(l) && is_comment(
            "# "@ + text::trim_end(l),
        ),
{
    lemma_key_line(l);
    text::lemma_trims_commute(l);
    text::lemma_trim_end(l);
    text::lemma_trim_end(text::trim_start(l));
    let x = text::trim_end(l);
    assert(text::trimmed(x) == text::trimmed(l));
    if text::trimmed(l)[0] != '#' {
        reveal_strlit("# ");
        let y = "# "@ + x;
        assert(x.len() > 0);
        assert(y[0] == '#');
        assert(y.last() == x.last());
        assert(text::trim_start(y) == y);
        assert(text::trim_end(y) == y);
        assert(y.drop_first().drop_first() =~= x);
        assert(y.drop_first()[0] == ' ');
        assert(text::trim_start(y.drop_first()) == text::trim_start(x));
        assert(uncommented(y) == text::trimmed(l));
    }
}

proof fn lemma_comment_line(l: Seq<char>)
    requires
        text::trimmed(l).len() > 0,
        text::trimmed(l)[0] == '#',
    ensures
        is_comment(text::trim_end(l)),
{
    text::lemma_trims_commute(l);
}

proof fn lemma_entries_commented_out(ls: Seq<Seq<char>>, i: int, above: Seq<Seq<char>>, k: int)
    requires
        forall|j: int| 0 <= j < above.len() ==> is_comment(#[trigger] above[j]),
        0 <= k < entries_from(ls, i, above).len(),
    ensures
        is_commented_out(entries_from(ls, i, above)[k]),
    decreases ls.len() - i,
{
    if 0 <= i < ls.len() {
        let t = text::trimmed(ls[i]);
        match key_in(ls[i]) {
            Some(key) => {
                lemma_definition(ls[i]);
                lemma_key_line(ls[i]);
                if t[0] == '#' {
                    lemma_comment_line(ls[i]);
                }
                if k > 0 {
                    lemma_entries_commented_out(ls, i + 1, Seq::empty(), k - 1);
                }
            },
            None => {
                if t.len() > 0 && t[0] == '#' {
                    lemma_comment_line(ls[i]);
                    lemma_entries_commented_out(ls, i + 1, above.push(text::trim_end(ls[i])), k);
                } else {
                    lemma_entries_commented_out(ls, i + 1, Seq::empty(), k);
                }
            },
        }
    }
}

/// Whatever is added to a section that the user wrote is a comment, so it changes
/// nothing of what the file does.
pub proof fn what_is_added_is_commented_out(s: SectionView, k: int)
    requires
        0 <= k < entries_of(s).len(),
    ensures
        is_commented_out(entries_of(s)[k]),
{
    lemma_entries_commented_out(
        s.lines,
        own_header_from(s.lines, s.name, 0) + 1,
        Seq::empty(),
        k,
    );
}

/// Taking out what was added gives back the lines of the user's, every one in its place.
pub proof fn the_lines_of_the_user_stay(
    ls: Seq<Seq<char>>,
    section: Seq<char>,
    entries: Seq<EntryView>,
    r: Seq<Seq<char>>,
)
    requires
        inserted(ls, section, entries) == Some(r),
    ensures
        r.len() == ls.len() + added_lines(entries).len(),
        exists|at: int|
            0 <= at <= ls.len() && #[trigger] r.take(at) + r.skip(at + added_lines(entries).len())
                == ls,
{
    let start = own_header_from(ls, section, 0);
    let at = filled_end(ls, start + 1, header_from(ls, start + 1));
    lemma_own_header(ls, section, 0);
    lemma_header_from(ls, start + 1);
    lemma_filled_end(ls, start + 1, header_from(ls, start + 1));
    assert(r.take(at) + r.skip(at + added_lines(entries).len()) =~= ls);
}

pub(crate) proof fn lemma_own_header(ls: Seq<Seq<char>>, section: Seq<char>, i: int)
    requires
        0 <= i,
    ensures
        i <= own_header_from(ls, section, i),
    decreases ls.len() - i,
{
    if i < ls.len() && text::trimmed(ls[i]) != header_of(section) {
        lemma_own_header(ls, section, i + 1);
    }
}

pub(crate) proof fn lemma_filled_end(ls: Seq<Seq<char>>, lo: int, end: int)
    requires
        0 <= lo <= end <= ls.len(),
    ensures
        lo <= filled_end(ls, lo, end) <= end,
        forall|j: int|
            filled_end(ls, lo, end) <= j < end ==> text::trimmed(#[trigger] ls[j]).len() == 0,
    decreases end - lo,
{
    if lo < end && text::trimmed(ls[end - 1]).len() == 0 {
        lemma_filled_end(ls, lo, end - 1);
    }
}

proof fn lemma_same_own_header(a: Seq<Seq<char>>, b: Seq<Seq<char>>, section: Seq<char>, i: int)
    requires
        0 <= i,
        own_header_from(a, section, i) < a.len(),
        own_header_from(a, section, i) < b.len(),
        forall|j: int| 0 <= j <= own_header_from(a, section, i) ==> a[j] == #[trigger] b[j],
    ensures
        own_header_from(b, section, i) == own_header_from(a, section, i),
    decreases a.len() - i,
{
    lemma_own_header(a, section, i);
    assert(a[i] == b[i]);
    if i < a.len() && text::trimmed(a[i]) != header_of(section) {
        lemma_same_own_header(a, b, section, i + 1);
    }
}

pub(crate) proof fn lemma_no_header(ls: Seq<Seq<char>>, i: int, m: int)
    requires
        0 <= i <= m <= ls.len(),
        forall|j: int| i <= j < m ==> !is_header(#[trigger] ls[j]),
    ensures
        m <= header_from(ls, i) <= ls.len(),
    decreases m - i,
{
    lemma_header_from(ls, i);
    if i < m {
        assert(!is_header(ls[i]));
        lemma_no_header(ls, i + 1, m);
    }
}

pub(crate) proof fn lemma_before_header(ls: Seq<Seq<char>>, i: int, j: int)
    requires
        0 <= i <= j < header_from(ls, i),
        j < ls.len(),
    ensures
        !is_header(ls[j]),
    decreases j - i,
{
    if i < j {
        lemma_before_header(ls, i + 1, j);
    }
}

pub(crate) proof fn lemma_added_lines(entries: Seq<EntryView>)
    requires
        forall|i: int| 0 <= i < entries.len() ==> is_commented_out(#[trigger] entries[i]),
    ensures
        forall|j: int|
            0 <= j < added_lines(entries).len() ==> !is_header(#[trigger] added_lines(entries)[j]),
        forall|i: int|
            0 <= i < entries.len() ==> mentions(
                added_lines(entries),
                (#[trigger] entries[i]).key,
            ),
    decreases entries.len(),
{
    if entries.len() > 0 {
        let e = entries.last();
        let before = added_lines(entries.drop_last());
        let all = added_lines(entries);
        assert forall|i: int| 0 <= i < entries.drop_last().len() implies is_commented_out(
            #[trigger] entries.drop_last()[i],
        ) by {
            assert(entries.drop_last()[i] == entries[i]);
        }
        lemma_added_lines(entries.drop_last());
        assert(is_commented_out(entries[entries.len() - 1]));
        assert forall|j: int| 0 <= j < all.len() implies !is_header(#[trigger] all[j]) by {
            if j < before.len() {
                assert(all[j] == before[j]);
            } else if j == before.len() {
                assert(all[j] =~= Seq::<char>::empty());
            } else {
                assert(all[j] == e.lines[j - before.len() - 1]);
                lemma_header_is_no_comment(all[j]);
            }
        }
        assert forall|i: int| 0 <= i < entries.len() implies mentions(
            all,
            (#[trigger] entries[i]).key,
        ) by {
            if i < entries.len() - 1 {
                assert(entries.drop_last()[i] == entries[i]);
                assert(mentions(before, entries.drop_last()[i].key));
                let w = choose|w: int|
                    0 <= w < before.len() && key_in(#[trigger] before[w]) == Some(entries[i].key);
                assert(all[w] == before[w]);
            } else {
                assert(all[all.len() - 1] == e.lines.last());
            }
        }
    }
}

/// What is added to a section stands in it: the section mentions what it mentioned
/// before, and every setting that was added.
pub proof fn what_is_added_is_mentioned(
    ls: Seq<Seq<char>>,
    section: Seq<char>,
    entries: Seq<EntryView>,
    r: Seq<Seq<char>>,
    key: Seq<char>,
)
    requires
        inserted(ls, section, entries) == Some(r),
        forall|i: int| 0 <= i < entries.len() ==> is_commented_out(#[trigger] entries[i]),
        mentions(body_of(ls, section), key) || exists|i: int|
            0 <= i < entries.len() && (#[trigger] entries[i]).key == key,
    ensures
        mentions(body_of(r, section), key),
{
    let start = own_header_from(ls, section, 0);
    let end = header_from(ls, start + 1);
    let at = filled_end(ls, start + 1, end);
    let new = added_lines(entries);
    lemma_own_header(ls, section, 0);
    lemma_header_from(ls, start + 1);
    lemma_filled_end(ls, start + 1, end);
    lemma_added_lines(entries);
    assert forall|j: int| 0 <= j <= start implies ls[j] == #[trigger] r[j] by {
        assert(r[j] == ls.take(at)[j]);
    }
    lemma_same_own_header(ls, r, section, 0);
    assert forall|j: int| start + 1 <= j < at + new.len() implies !is_header(#[trigger] r[j]) by {
        if j < at {
            assert(r[j] == ls[j]);
            lemma_before_header(ls, start + 1, j);
        } else {
            assert(r[j] == new[j - at]);
        }
    }
    lemma_no_header(r, start + 1, at + new.len());
    let body = body_of(r, section);
    if mentions(body_of(ls, section), key) {
        let old = body_of(ls, section);
        let w = choose|w: int| 0 <= w < old.len() && key_in(#[trigger] old[w]) == Some(key);
        assert(old[w] == ls[start + 1 + w]);
        lemma_key_line(ls[start + 1 + w]);
        assert(start + 1 + w < at);
        assert(body[w] == r[start + 1 + w]);
        assert(r[start + 1 + w] == ls[start + 1 + w]);
        assert(key_in(body[w]) == Some(key));
    } else {
        let i = choose|i: int| 0 <= i < entries.len() && (#[trigger] entries[i]).key == key;
        assert(mentions(new, entries[i].key));
        let w = choose|w: int| 0 <= w < new.len() && key_in(#[trigger] new[w]) == Some(key);
        assert(r[at + w] == new[w]);
        assert(body[at + w - start - 1] == r[at + w]);
        assert(key_in(body[at + w - start - 1]) == Some(key));
    }
}

pub(crate) proof fn lemma_missing(
    entries: Seq<EntryView>,
    theirs: Seq<(Seq<char>, ScalarView)>,
    mine: Seq<(Seq<char>, ScalarView)>,
    body: Seq<Seq<char>>,
)
    ensures
        forall|k: int|
            0 <= k < missing(entries, theirs, mine, body).len() ==> exists|i: int|
                0 <= i < entries.len() && entries[i] == #[trigger] missing(
                    entries,
                    theirs,
                    mine,
                    body,
                )[k],
        forall|i: int|
            0 <= i < entries.len() && document::value_of(theirs, (#[trigger] entries[i]).key) is Some
                && document::value_of(mine, entries[i].key) is None && !mentions(body, entries[i].key)
                ==> missing(entries, theirs, mine, body).contains(entries[i]),
    decreases entries.len(),
{
    if entries.len() > 0 {
        let less = entries.drop_last();
        let before = missing(less, theirs, mine, body);
        let all = missing(entries, theirs, mine, body);
        lemma_missing(less, theirs, mine, body);
        assert forall|k: int| 0 <= k < all.len() implies exists|i: int|
            0 <= i < entries.len() && entries[i] == #[trigger] all[k] by {
            if k < before.len() {
                assert(all[k] == before[k]);
                let i = choose|i: int| 0 <= i < less.len() && less[i] == before[k];
                assert(entries[i] == all[k]);
            } else {
                assert(entries[entries.len() - 1] == all[k]);
            }
        }
        assert forall|i: int|
            0 <= i < entries.len() && document::value_of(theirs, (#[trigger] entries[i]).key) is Some
                && document::value_of(mine, entries[i].key) is None && !mentions(
                body,
                entries[i].key,
            ) implies all.contains(entries[i]) by {
            if i < less.len() {
                assert(less[i] == entries[i]);
                assert(before.contains(less[i]));
                let k = choose|k: int| 0 <= k < before.len() && before[k] == less[i];
                assert(all[k] == entries[i]);
            } else {
                assert(all[all.len() - 1] == entries[i]);
            }
        }
    }
}

pub(crate) proof fn lemma_none_missing(
    entries: Seq<EntryView>,
    theirs: Seq<(Seq<char>, ScalarView)>,
    mine: Seq<(Seq<char>, ScalarView)>,
    body: Seq<Seq<char>>,
)
    requires
        forall|i: int|
            0 <= i < entries.len() ==> document::value_of(theirs, (#[trigger] entries[i]).key) is None
                || document::value_of(mine, entries[i].key) is Some || mentions(body, entries[i].key),
    ensures
        missing(entries, theirs, mine, body).len() == 0,
    decreases entries.len(),
{
    if entries.len() > 0 {
        let less = entries.drop_last();
        assert forall|i: int| 0 <= i < less.len() implies document::value_of(
            theirs,
            (#[trigger] less[i]).key,
        ) is None || document::value_of(mine, less[i].key) is Some || mentions(body, less[i].key) by {
            assert(less[i] == entries[i]);
        }
        lemma_none_missing(less, theirs, mine, body);
        assert(entries.last() == entries[entries.len() - 1]);
    }
}

/// Adding the settings that a section lacks happens once: where the same settings of the
/// example are looked for again in what came of it, none is missing. The file sets what it
/// set before.
pub proof fn what_was_added_is_not_added_again(
    s: SectionView,
    theirs: Seq<(Seq<char>, ScalarView)>,
    mine: Seq<(Seq<char>, ScalarView)>,
    again: Seq<(Seq<char>, ScalarView)>,
    ls: Seq<Seq<char>>,
    r: Seq<Seq<char>>,
)
    requires
        inserted(ls, s.name, missing(entries_of(s), theirs, mine, body_of(ls, s.name))) == Some(r),
        forall|k: Seq<char>|
            document::value_of(mine, k) is Some ==> #[trigger] document::value_of(again, k) is Some,
    ensures
        missing(entries_of(s), theirs, again, body_of(r, s.name)).len() == 0,
{
    let es = entries_of(s);
    let m = missing(es, theirs, mine, body_of(ls, s.name));
    lemma_missing(es, theirs, mine, body_of(ls, s.name));
    assert forall|k: int| 0 <= k < m.len() implies is_commented_out(#[trigger] m[k]) by {
        let i = choose|i: int| 0 <= i < es.len() && es[i] == m[k];
        what_is_added_is_commented_out(s, i);
    }
    assert forall|i: int| 0 <= i < es.len() implies document::value_of(
        theirs,
        (#[trigger] es[i]).key,
    ) is None || document::value_of(again, es[i].key) is Some || mentions(body_of(r, s.name), es[i].key) by {
        let key = es[i].key;
        if document::value_of(theirs, key) is Some && document::value_of(again, key) is None {
            assert(document::value_of(mine, key) is None);
            if !mentions(body_of(ls, s.name), key) {
                assert(m.contains(es[i]));
                let k = choose|k: int| 0 <= k < m.len() && m[k] == es[i];
                assert(m[k].key == key);
            }
            what_is_added_is_mentioned(ls, s.name, m, r, key);
        }
    }
    lemma_none_missing(es, theirs, again, body_of(r, s.name));
}

} // verus!
