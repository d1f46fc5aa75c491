//! Where a track's audio is to be had: what to ask the downloader, what its answer
//! means, how long an answer is good for, and the cookies it needs.

use crate::copied::Copied;
use crate::model::VideoId;
use crate::text::{
    self, char_at_or_end, chars_of, contains_text, join2, join3, lines_of, split_text, starts_with,
    text_of, trim,
};
use vstd::prelude::*;

verus! {

/// Resolved URLs are valid for about six hours upstream; they expire after four here,
/// so that playback never starts with one that dies mid-track.
pub const TTL_SECS: i64 = 14400;

/// Why a track's audio could not be had.
#[derive(Debug, Clone, PartialEq, Eq)]
pub enum ResolveError {
    NotInstalled,
    NoAudioStream,
    Failed(String),
}

/// The model of a `ResolveError`.
#[verifier::ext_equal]
pub enum ResolveErrorView {
    NotInstalled,
    NoAudioStream,
    Failed(Seq<char>),
}

impl DeepView for ResolveError {
    type V = ResolveErrorView;

    open spec fn deep_view(&self) -> ResolveErrorView {
        match self {
            ResolveError::NotInstalled => ResolveErrorView::NotInstalled,
            ResolveError::NoAudioStream => ResolveErrorView::NoAudioStream,
            ResolveError::Failed(m) => ResolveErrorView::Failed(m@),
        }
    }
}

impl ResolveErrorView {
    /// What the user is told.
    pub open spec fn message(self) -> Seq<char> {
        match self {
            ResolveErrorView::NotInstalled =>
                "yt-dlp is not installed or not on PATH \u{2014} install it to play audio"@,
            ResolveErrorView::NoAudioStream =>
                "yt-dlp could not find an audio stream for this track"@,
            ResolveErrorView::Failed(m) => "yt-dlp failed: "@ + m,
        }
    }
}

impl ResolveError {
    /// What the user is told.
    pub fn message(&self) -> (r: String)
        ensures
            r@ == self.deep_view().message(),
    {
        match self {
            ResolveError::NotInstalled =>
                "yt-dlp is not installed or not on PATH \u{2014} install it to play audio".to_owned(),
            ResolveError::NoAudioStream =>
                "yt-dlp could not find an audio stream for this track".to_owned(),
            ResolveError::Failed(m) => join2("yt-dlp failed: ", m.as_str()),
        }
    }
}

/// One line of a cookie jar.
pub open spec fn jar_line(name: Seq<char>, value: Seq<char>) -> Seq<char> {
    ".youtube.com\tTRUE\t/\tTRUE\t2147483647\t"@ + name + "\t"@ + value + "\n"@
}

/// The line a piece of a header makes: what stands before its first `=` and what
/// stands behind it, without the blanks around. None for a piece without a name.
pub open spec fn line_of_pair(piece: Seq<char>) -> Option<Seq<char>> {
    let p = text::trimmed(piece);
    let e = text::find_char(p, '=', 0);
    if e < p.len() && text::trimmed(p.take(e)).len() > 0 {
        Some(jar_line(text::trimmed(p.take(e)), text::trimmed(p.skip(e + 1))))
    } else {
        None
    }
}

/// The lines that pieces of a header make, in their order.
pub open spec fn lines_of_pairs(ps: Seq<Seq<char>>) -> Seq<char>
    decreases ps.len(),
{
    if ps.len() == 0 {
        Seq::empty()
    } else {
        let before = lines_of_pairs(ps.drop_last());
        match line_of_pair(ps.last()) {
            Some(l) => before + l,
            None => before,
        }
    }
}

/// One of the pieces makes a line.
pub open spec fn has_pair(ps: Seq<Seq<char>>) -> bool {
    exists|i: int| 0 <= i < ps.len() && line_of_pair(#[trigger] ps[i]) is Some
}

/// The cookie jar that a raw `Cookie:` header makes. None for one without cookies: an
/// empty jar would authenticate nothing while looking like it should.
pub open spec fn jar_of(header: Seq<char>) -> Option<Seq<char>> {
    let ps = text::pieces(header, ';');
    if has_pair(ps) {
        Some("# Netscape HTTP Cookie File\n"@ + lines_of_pairs(ps))
    } else {
        None
    }
}

fn pair_line(piece: &str) -> (r: Option<String>)
    ensures
        r.deep_view() == line_of_pair(piece@),
{
    let p = trim(piece);
    let v = chars_of(p.as_str());
    let e: usize = char_at_or_end(v.as_slice(), '=', 0);
    if e == v.len() {
        return None;
    }
    let left = text_of(v.as_slice(), 0, e);
    let right = text_of(v.as_slice(), e + 1, v.len());
    assert(left@ =~= p@.take(e as int));
    assert(right@ =~= p@.skip(e + 1));
    let name = trim(left.as_str());
    if name.as_str().unicode_len() == 0 {
        return None;
    }
    let value = trim(right.as_str());
    let mut line = join3(".youtube.com\tTRUE\t/\tTRUE\t2147483647\t", name.as_str(), "\t");
    line.append(value.as_str());
    line.append("\n");
    Some(line)
}

/// Converts a raw `Cookie:` header into the jar format the downloader wants.
pub fn netscape_from_header(header: &str) -> (r: Option<String>)
    ensures
        r.deep_view() == jar_of(header@),
{
    let ps = split_text(header, ';');
    let ghost all = ps.deep_view();
    let mut out = "# Netscape HTTP Cookie File\n".to_owned();
    let mut any = false;
    let mut i: usize = 0;
    assert(out@ =~= "# Netscape HTTP Cookie File\n"@ + lines_of_pairs(all.take(0)));
    while i < ps.len()
        invariant
            i <= ps@.len() == all.len(),
            all == ps.deep_view(),
            out@ == "# Netscape HTTP Cookie File\n"@ + lines_of_pairs(all.take(i as int)),
            any == has_pair(all.take(i as int)),
        decreases ps@.len() - i,
    {
        let ghost upto = all.take(i + 1);
        assert(upto.drop_last() =~= all.take(i as int));
        assert(upto.last() == ps@[i as int]@);
        let ghost before = out@;
        match pair_line(ps[i].as_str()) {
            Some(l) => {
                out.append(l.as_str());
                assert(out@ =~= "# Netscape HTTP Cookie File\n"@ + lines_of_pairs(upto));
                any = true;
                assert(line_of_pair(upto[i as int]) is Some);
            },
            None => {
                assert(has_pair(upto) == has_pair(all.take(i as int))) by {
                    if has_pair(upto) {
                        let k = choose|k: int|
                            0 <= k < upto.len() && line_of_pair(#[trigger] upto[k]) is Some;
                        assert(all.take(i as int)[k] == upto[k]);
                    }
                    if has_pair(all.take(i as int)) {
                        let k = choose|k: int|
                            0 <= k < i && line_of_pair(#[trigger] all.take(i as int)[k]) is Some;
                        assert(upto[k] == all.take(i as int)[k]);
                    }
                }
            },
        }
        i += 1;
    }
    assert(all.take(i as int) =~= all);
    if any {
        Some(out)
    } else {
        None
    }
}

/// What to do with a file of cookies.
#[derive(Debug, Clone, PartialEq, Eq)]
pub enum Jar {
    /// It is a jar already.
    AsIs,
    /// It is a header, which makes this jar.
    Converted(String),
    /// There are no cookies in it.
    Nothing,
}

/// A text that is a cookie jar already.
pub open spec fn is_jar(content: Seq<char>) -> bool {
    text::begins(content, "# Netscape"@) || text::begins(content, "# HTTP Cookie File"@)
}

/// What to do with a file of cookies, by what it holds.
pub fn ensure_netscape_cookie_jar(content: &str) -> (r: Jar)
    ensures
        if is_jar(content@) {
            r is AsIs
        } else {
            match jar_of(content@) {
                Some(jar) => r matches Jar::Converted(j) && j@ == jar,
                None => r is Nothing,
            }
        },
{
    if starts_with(content, "# Netscape") || starts_with(content, "# HTTP Cookie File") {
        return Jar::AsIs;
    }
    match netscape_from_header(content) {
        Some(j) => Jar::Converted(j),
        None => Jar::Nothing,
    }
}

/// Whether a jar that was made of a file of cookies still stands for it: it is there, it
/// holds something, and the file is not newer. Times are of the last change; a file that
/// cannot be asked has none.
pub fn jar_is_fresh(source_time: Option<u64>, jar_time: Option<u64>, jar_len: u64) -> (r: bool)
    ensures
        r == (source_time is Some && jar_time is Some && jar_time->0 >= source_time->0 && jar_len
            > 0),
{
    match (source_time, jar_time) {
        (Some(made_of), Some(made)) => made >= made_of && jar_len > 0,
        _ => false,
    }
}

/// Where audio was found, and when; and the cookies for the downloader.
#[derive(Debug, Clone, PartialEq, Eq)]
pub struct StreamResolver {
    cache: Vec<(VideoId, String, i64)>,
    cookie_jar: Option<String>,
}

/// The model of a `StreamResolver`.
#[verifier::ext_equal]
pub struct ResolverView {
    /// Tracks, where their audio was found, and when.
    pub cache: Seq<(Seq<char>, Seq<char>, i64)>,
    /// The path of the cookie jar.
    pub cookie_jar: Option<Seq<char>>,
}

/// The model of what was found.
pub open spec fn found(v: Seq<(VideoId, String, i64)>) -> Seq<(Seq<char>, Seq<char>, i64)> {
    Seq::new(v.len(), |i: int| (v[i].0.deep_view(), v[i].1@, v[i].2))
}

impl View for StreamResolver {
    type V = ResolverView;

    closed spec fn view(&self) -> ResolverView {
        ResolverView { cache: found(self.cache@), cookie_jar: self.cookie_jar.deep_view() }
    }
}

/// What was found for a track.
pub open spec fn entry_of(
    cache: Seq<(Seq<char>, Seq<char>, i64)>,
    id: Seq<char>,
) -> Option<(Seq<char>, i64)>
    decreases cache.len(),
{
    if cache.len() == 0 {
        None
    } else if cache.last().0 == id {
        Some((cache.last().1, cache.last().2))
    } else {
        entry_of(cache.drop_last(), id)
    }
}

/// What was found for other tracks.
pub open spec fn forgetting(
    cache: Seq<(Seq<char>, Seq<char>, i64)>,
    id: Seq<char>,
) -> Seq<(Seq<char>, Seq<char>, i64)>
    decreases cache.len(),
{
    if cache.len() == 0 {
        Seq::empty()
    } else if cache.last().0 == id {
        forgetting(cache.drop_last(), id)
    } else {
        forgetting(cache.drop_last(), id).push(cache.last())
    }
}

/// Where a track's audio is to be had.
#[derive(Debug, Clone, PartialEq, Eq)]
pub enum Whence {
    /// A file on disk.
    File(String),
    /// An address on the network.
    Url(String),
    /// The downloader, asked with these arguments, says where.
    Fetch(Vec<String>),
}

/// The model of a `Whence`.
#[verifier::ext_equal]
pub enum WhenceView {
    File(Seq<char>),
    Url(Seq<char>),
    Fetch(Seq<Seq<char>>),
}

impl DeepView for Whence {
    type V = WhenceView;

    open spec fn deep_view(&self) -> WhenceView {
        match self {
            Whence::File(p) => WhenceView::File(p@),
            Whence::Url(u) => WhenceView::Url(u@),
            Whence::Fetch(args) => WhenceView::Fetch(args.deep_view()),
        }
    }
}

impl ResolverView {
    /// Where a track is streamed from: the address that is known, else what the
    /// downloader finds.
    pub open spec fn resolved(self, id: Seq<char>, now: int) -> WhenceView {
        match self.known(id, now) {
            Some(u) => WhenceView::Url(u),
            None => WhenceView::Fetch(stream_command(id, self.cookie_jar)),
        }
    }

    /// Where a track is played from: its file, where there is one, else its stream.
    pub open spec fn located(self, id: Seq<char>, local: Option<Seq<char>>, now: int) -> WhenceView {
        match local {
            Some(p) => WhenceView::File(p),
            None => self.resolved(id, now),
        }
    }

    /// Where a track's audio is, if that is known and still good.
    pub open spec fn known(self, id: Seq<char>, now: int) -> Option<Seq<char>> {
        match entry_of(self.cache, id) {
            Some((url, at)) => if now - at < TTL_SECS {
                Some(url)
            } else {
                None
            },
            None => None,
        }
    }

    /// With the cookies of the file at `path`, which holds `content`, and the jar to be
    /// written to `jar_path` for them, where they have to be converted.
    pub open spec fn with_cookies(
        self,
        path: Seq<char>,
        content: Option<Seq<char>>,
        jar_path: Seq<char>,
    ) -> (ResolverView, Option<Seq<char>>) {
        match content {
            Some(c) => if is_jar(c) {
                (ResolverView { cookie_jar: Some(path), ..self }, None)
            } else {
                match jar_of(c) {
                    Some(jar) => (
                        ResolverView { cookie_jar: Some(jar_path), ..self },
                        Some(jar),
                    ),
                    None => (self, None),
                }
            },
            None => (self, None),
        }
    }

    /// With what was found for a track.
    pub open spec fn finding(self, id: Seq<char>, url: Seq<char>, at: i64) -> ResolverView {
        ResolverView { cache: forgetting(self.cache, id).push((id, url, at)), ..self }
    }
}

impl Default for StreamResolver {
    fn default() -> (r: StreamResolver)
        ensures
            r@ == (ResolverView { cache: Seq::empty(), cookie_jar: None }),
    {
        StreamResolver::new()
    }
}

impl StreamResolver {
    pub fn new() -> (r: StreamResolver)
        ensures
            r@ == (ResolverView { cache: Seq::empty(), cookie_jar: None }),
    {
        let r = StreamResolver { cache: Vec::new(), cookie_jar: None };
        assert(r@.cache =~= Seq::<(Seq<char>, Seq<char>, i64)>::empty());
        r
    }

    /// Points the downloader at the cookies of the file at `path`, which holds
    /// `content`; a file that could not be read holds none. A header is converted:
    /// the jar to be written to `jar_path` is returned. Without cookies everything
    /// stays as it is.
    pub fn use_cookie_header_file(&mut self, path: &str, content: Option<&str>, jar_path: &str) -> (r:
        Option<String>)
        ensures
            final(self)@ == old(self)@.with_cookies(
                path@,
                match content {
                    Some(c) => Some(c@),
                    None => None,
                },
                jar_path@,
            ).0,
            r.deep_view() == old(self)@.with_cookies(
                path@,
                match content {
                    Some(c) => Some(c@),
                    None => None,
                },
                jar_path@,
            ).1,
    {
        match content {
            Some(c) => match ensure_netscape_cookie_jar(c) {
                Jar::AsIs => {
                    self.cookie_jar = Some(path.to_owned());
                    None
                },
                Jar::Converted(jar) => {
                    self.cookie_jar = Some(jar_path.to_owned());
                    Some(jar)
                },
                Jar::Nothing => None,
            },
            None => None,
        }
    }

    /// The path of the cookie jar.
    pub fn cookie_jar(&self) -> (r: Option<String>)
        ensures
            r.deep_view() == self@.cookie_jar,
    {
        self.cookie_jar.copy()
    }

    /// Where a track's audio is, if that is known and still good.
    pub fn cached_at(&self, id: &VideoId, now_unix: i64) -> (r: Option<String>)
        ensures
            r.deep_view() == self@.known(id.deep_view(), now_unix as int),
    {
        let ghost all = self@.cache;
        let mut i: usize = self.cache.len();
        assert(all.take(i as int) =~= all);
        while i > 0
            invariant
                i <= self.cache@.len(),
                all == found(self.cache@),
                all == self@.cache,
                entry_of(all, id.deep_view()) == entry_of(all.take(i as int), id.deep_view()),
            decreases i,
        {
            i -= 1;
            assert(all.take(i + 1).drop_last() =~= all.take(i as int));
            assert(all.take(i + 1).last() == all[i as int]);
            if self.cache[i].0.same(id) {
                let at: i64 = self.cache[i].2;
                return if now_unix as i128 - (at as i128) < TTL_SECS as i128 {
                    Some(self.cache[i].1.clone())
                } else {
                    None
                };
            }
        }
        None
    }

    /// Forgets where a track's audio was found.
    pub fn invalidate(&mut self, id: &VideoId)
        ensures
            final(self)@ == (ResolverView {
                cache: forgetting(old(self)@.cache, id.deep_view()),
                ..old(self)@
            }),
    {
        let ghost all = found(self.cache@);
        let mut out: Vec<(VideoId, String, i64)> = Vec::new();
        let mut i: usize = 0;
        assert(found(out@) =~= forgetting(all.take(0), id.deep_view()));
        while i < self.cache.len()
            invariant
                i <= self.cache@.len(),
                *self == *old(self),
                all == found(self.cache@),
                found(out@) == forgetting(all.take(i as int), id.deep_view()),
            decreases self.cache@.len() - i,
        {
            let ghost before = found(out@);
            assert(all.take(i + 1).drop_last() =~= all.take(i as int));
            assert(all.take(i + 1).last() == all[i as int]);
            if !self.cache[i].0.same(id) {
                out.push((self.cache[i].0.copy(), self.cache[i].1.clone(), self.cache[i].2));
                assert(found(out@) =~= before.push(all[i as int]));
            }
            i += 1;
        }
        assert(all.take(i as int) =~= all);
        self.cache = out;
    }

    /// Remembers where a track's audio was found.
    pub fn remember(&mut self, id: &VideoId, url: &str, at: i64)
        ensures
            final(self)@ == old(self)@.finding(id.deep_view(), url@, at),
    {
        self.invalidate(id);
        let ghost before = found(self.cache@);
        self.cache.push((id.copy(), url.to_owned(), at));
        assert(found(self.cache@) =~= before.push((id.deep_view(), url@, at)));
    }

    /// Where a track is streamed from. What was found before is used for as long as it
    /// is good; otherwise the downloader has to be asked.
    pub fn resolve(&self, id: &VideoId, now: i64) -> (r: Whence)
        ensures
            r.deep_view() == self@.resolved(id.deep_view(), now as int),
    {
        match self.cached_at(id, now) {
            Some(u) => Whence::Url(u),
            None => {
                let jar: Option<&str> = match &self.cookie_jar {
                    Some(j) => Some(j.as_str()),
                    None => None,
                };
                Whence::Fetch(stream_args(id, jar))
            },
        }
    }

    /// Where a track is played from, given its file on disk, if there is one. Only
    /// without a file is a stream looked up.
    pub fn locate(&self, id: &VideoId, local: Option<String>, now: i64) -> (r: Whence)
        ensures
            match local {
                Some(p) => r.deep_view() == WhenceView::File(p@),
                None => match self@.known(id.deep_view(), now as int) {
                    Some(u) => r.deep_view() == WhenceView::Url(u),
                    None => r.deep_view() == WhenceView::Fetch(
                        stream_command(id.deep_view(), self@.cookie_jar),
                    ),
                },
            },
            r.deep_view() == self@.located(id.deep_view(), local.deep_view(), now as int),
    {
        match local {
            Some(p) => Whence::File(p),
            None => self.resolve(id, now),
        }
    }

    /// The downloader has been asked: remembers what it found, and hands back what is to
    /// be loaded, or what the user is told.
    pub fn fetched(&mut self, id: &VideoId, now: i64, outcome: Result<String, ResolveError>) -> (r:
        Result<String, String>)
        ensures
            match outcome {
                Ok(u) => final(self)@ == old(self)@.finding(id.deep_view(), u@, now) && (
                r matches Ok(at) && at@ == u@),
                Err(e) => final(self)@ == old(self)@ && (r matches Err(m) && m@
                    == e.deep_view().message()),
            },
    {
        match outcome {
            Ok(u) => {
                self.remember(id, u.as_str(), now);
                Ok(u)
            },
            Err(e) => Err(e.message()),
        }
    }

    /// Puts an entry in by hand.
    pub fn insert_for_test(&mut self, id: &VideoId, url: &str, at: i64)
        ensures
            final(self)@ == old(self)@.finding(id.deep_view(), url@, at),
    {
        self.remember(id, url, at);
    }
}

/// What was found for a track is known for as long as it is good, and no longer.
pub proof fn what_was_found_is_known_while_good(
    s: ResolverView,
    id: Seq<char>,
    url: Seq<char>,
    at: i64,
    now: int,
)
    ensures
        s.finding(id, url, at).known(id, now) == if now - at < TTL_SECS {
            Some(url)
        } else {
            None
        },
{
    let c = s.finding(id, url, at).cache;
    assert(c.last() == (id, url, at));
}

/// What is on disk is played from there, whatever is known of its stream and whenever it
/// is asked for: the network is not needed.
pub proof fn what_is_on_disk_needs_no_network(s: ResolverView, id: Seq<char>, p: Seq<char>, now: int)
    ensures
        s.located(id, Some(p), now) == WhenceView::File(p),
{
}

/// The downloader is asked once for a track, and not again while its answer is good.
pub proof fn a_stream_is_looked_up_once(
    s: ResolverView,
    id: Seq<char>,
    url: Seq<char>,
    at: i64,
    now: int,
)
    requires
        now - at < TTL_SECS,
    ensures
        s.finding(id, url, at).located(id, None, now) == WhenceView::Url(url),
{
    what_was_found_is_known_while_good(s, id, url, at, now);
}

/// What was forgotten is not known, and nothing else is forgotten.
pub proof fn what_was_forgotten_is_not_known(
    s: ResolverView,
    id: Seq<char>,
    other: Seq<char>,
    now: int,
)
    requires
        other != id,
    ensures
        (ResolverView { cache: forgetting(s.cache, id), ..s }).known(id, now) is None,
        (ResolverView { cache: forgetting(s.cache, id), ..s }).known(other, now) == s.known(
            other,
            now,
        ),
{
    lemma_forgetting(s.cache, id, other);
}

proof fn lemma_forgetting(
    cache: Seq<(Seq<char>, Seq<char>, i64)>,
    id: Seq<char>,
    other: Seq<char>,
)
    requires
        other != id,
    ensures
        entry_of(forgetting(cache, id), id) is None,
        entry_of(forgetting(cache, id), other) == entry_of(cache, other),
    decreases cache.len(),
{
    if cache.len() > 0 {
        lemma_forgetting(cache.drop_last(), id, other);
        let rest = forgetting(cache.drop_last(), id);
        assert(rest.push(cache.last()).drop_last() =~= rest);
    }
}

/// Where a track is to be found.
pub open spec fn watch_url(id: Seq<char>) -> Seq<char> {
    "https://music.youtube.com/watch?v="@ + id
}

/// What the downloader is asked: `-g` prints the direct URL.
pub open spec fn stream_command(id: Seq<char>, jar: Option<Seq<char>>) -> Seq<Seq<char>> {
    seq!["-f"@, "bestaudio"@, "--no-playlist"@, "--no-warnings"@, "-g"@] + (match jar {
        Some(j) => seq!["--cookies"@, j],
        None => Seq::empty(),
    }) + seq![watch_url(id)]
}

fn push_arg(v: &mut Vec<String>, s: String)
    ensures
        final(v).deep_view() == old(v).deep_view().push(s@),
{
    v.push(s);
    assert(v.deep_view() =~= old(v).deep_view().push(s@));
}

/// What the downloader is asked in order to find a track's audio.
pub fn stream_args(id: &VideoId, jar: Option<&str>) -> (r: Vec<String>)
    ensures
        r.deep_view() == stream_command(
            id.deep_view(),
            match jar {
                Some(j) => Some(j@),
                None => None,
            },
        ),
{
    let mut v: Vec<String> = Vec::new();
    assert(v.deep_view() =~= Seq::<Seq<char>>::empty());
    push_arg(&mut v, "-f".to_owned());
    push_arg(&mut v, "bestaudio".to_owned());
    push_arg(&mut v, "--no-playlist".to_owned());
    push_arg(&mut v, "--no-warnings".to_owned());
    push_arg(&mut v, "-g".to_owned());
    match jar {
        Some(j) => {
            push_arg(&mut v, "--cookies".to_owned());
            push_arg(&mut v, j.to_owned());
        },
        None => {},
    }
    push_arg(&mut v, join2("https://music.youtube.com/watch?v=", id.as_str()));
    assert(v.deep_view() =~= stream_command(
        id.deep_view(),
        match jar {
            Some(j) => Some(j@),
            None => None,
        },
    ));
    v
}

/// What to say when a sign-in is demanded before anything is streamed.
pub fn bot_check_error() -> (r: String)
    ensures
        r@
            == "YouTube asked this connection to sign in before streaming; set auth.cookie_file in config.toml and restart"@,
{
    "YouTube asked this connection to sign in before streaming; set auth.cookie_file in config.toml and restart".to_owned()
}

/// The downloader was asked to sign in.
pub open spec fn is_bot_check(stderr: Seq<char>) -> bool {
    text::has_part(stderr, "not a bot"@) || text::has_part(stderr, "Sign in to confirm"@)
}

/// The last line of a text, or what stands for it.
pub open spec fn last_line(s: Seq<char>, otherwise: Seq<char>) -> Seq<char> {
    if text::lines(s).len() > 0 {
        text::lines(s).last()
    } else {
        otherwise
    }
}

/// Whether the downloader was asked to sign in.
pub fn bot_checked(stderr: &str) -> (r: bool)
    ensures
        r == is_bot_check(stderr@),
{
    contains_text(stderr, "not a bot") || contains_text(stderr, "Sign in to confirm")
}

/// The last line of a text, or what stands for it.
pub fn last_line_of(s: &str, otherwise: &str) -> (r: String)
    ensures
        r@ == last_line(s@, otherwise@),
{
    let ls = lines_of(s);
    assert(ls@.len() == ls.deep_view().len());
    if ls.len() > 0 {
        let r = ls[ls.len() - 1].clone();
        assert(r@ == ls.deep_view()[ls@.len() - 1]);
        r
    } else {
        otherwise.to_owned()
    }
}

/// The first line, from `i` on, that is a URL.
pub open spec fn first_url(ls: Seq<Seq<char>>, i: int) -> Option<Seq<char>>
    decreases ls.len() - i,
{
    if i < 0 || i >= ls.len() {
        None
    } else if text::begins(ls[i], "http"@) {
        Some(ls[i])
    } else {
        first_url(ls, i + 1)
    }
}

/// What the downloader's answer means.
pub open spec fn stream_found(success: bool, stdout: Seq<char>, stderr: Seq<char>) -> Result<
    Seq<char>,
    ResolveErrorView,
> {
    if !success {
        Err(
            ResolveErrorView::Failed(
                if is_bot_check(stderr) {
                    "YouTube asked this connection to sign in before streaming; set auth.cookie_file in config.toml and restart"@
                } else {
                    last_line(stderr, "unknown"@)
                },
            ),
        )
    } else {
        match first_url(text::lines(stdout), 0) {
            Some(u) => Ok(u),
            None => Err(ResolveErrorView::NoAudioStream),
        }
    }
}

/// What the downloader's answer means.
pub fn stream_outcome(success: bool, stdout: &str, stderr: &str) -> (r: Result<
    String,
    ResolveError,
>)
    ensures
        match stream_found(success, stdout@, stderr@) {
            Ok(u) => r matches Ok(s) && s@ == u,
            Err(e) => r matches Err(x) && x.deep_view() == e,
        },
{
    if !success {
        return Err(
            ResolveError::Failed(
                if bot_checked(stderr) {
                    bot_check_error()
                } else {
                    last_line_of(stderr, "unknown")
                },
            ),
        );
    }
    let ls = lines_of(stdout);
    let ghost all = ls.deep_view();
    let mut i: usize = 0;
    while i < ls.len()
        invariant
            i <= ls@.len() == all.len(),
            all == ls.deep_view(),
            success,
            all == text::lines(stdout@),
            first_url(all, 0) == first_url(all, i as int),
        decreases ls@.len() - i,
    {
        assert(all[i as int] == ls@[i as int]@);
        if starts_with(ls[i].as_str(), "http") {
            return Ok(ls[i].clone());
        }
        i += 1;
    }
    Err(ResolveError::NoAudioStream)
}

} // verus!
