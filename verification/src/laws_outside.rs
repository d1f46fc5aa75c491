//! What passes between the application and what is outside it: the desktop, the downloader,
//! the files on disk, and what was there at the last run.

use crate::actor::{ActView, ActorView};
use crate::app::{Focus, StateView, ToastKind};
use crate::background::KeptLibraryView;
use crate::cli::{Cli, Command};
use crate::config::{AuthKind, BehaviourConfig, ConfigView};
use crate::event::InputAction;
use crate::laws_intents::says;
use crate::laws_player::asks_to_pause;
use crate::model;
use crate::mpris::{self, MediaKey, MediaPlayback};
use crate::player::{PlaybackState, PlayerCommandView};
use crate::resolver::{self, ResolveErrorView, ResolverView, WhenceView};
use crate::startup;
use crate::storage::{self, CachedFile, EvictionView, StorageView};
use crate::text;
use vstd::prelude::*;

verus! {

/// The media keys that the application has keys for do what those keys do.
pub proof fn media_keys_do_what_the_keys_do(s: StateView, b: BehaviourConfig)
    requires
        s.modal is None,
    ensures
        ({
            let sent = |key: MediaKey| mpris::command_of(key)->0;
            &&& mpris::command_of(MediaKey::Toggle) is Some && mpris::command_of(MediaKey::Next)
                is Some && mpris::command_of(MediaKey::Previous) is Some
            &&& s.dispatched(InputAction::TogglePause, b).sent == seq![sent(MediaKey::Toggle)]
            &&& s.dispatched(InputAction::NextTrack, b).sent == seq![sent(MediaKey::Next)]
            &&& s.dispatched(InputAction::PrevTrack, b).sent == seq![sent(MediaKey::Previous)]
        }),
{
    reveal(StateView::transported);
}

/// The desktop's play resumes and never pauses, its pause pauses and never resumes, its
/// stop stops; and what has no meaning is ignored.
pub proof fn play_pause_and_stop_are_what_they_say(s: ActorView, picks: Seq<usize>)
    ensures
        mpris::command_of(MediaKey::Play) matches Some(cmd) && asks_to_pause(
            s.handled(cmd, picks),
            false,
        ),
        mpris::command_of(MediaKey::Pause) matches Some(cmd) && asks_to_pause(
            s.handled(cmd, picks),
            true,
        ),
        mpris::command_of(MediaKey::Stop) matches Some(cmd) && s.handled(cmd, picks).core.state
            is Stopped,
        mpris::command_of(MediaKey::Other) is None,
{
    assert(s.handled(PlayerCommandView::Pause, picks).acts =~= seq![ActView::SetPause(true)]);
    assert(s.handled(PlayerCommandView::Resume, picks).acts =~= seq![ActView::SetPause(false)]);
}

/// A higher volume from the desktop is never a lower one for the player.
pub proof fn a_higher_volume_is_never_lower(v: i64, w: i64)
    requires
        v <= w,
    ensures
        mpris::command_of(MediaKey::SetVolume(v)) matches Some(PlayerCommandView::SetVolume(p)) && (
        mpris::command_of(MediaKey::SetVolume(w)) matches Some(PlayerCommandView::SetVolume(q)) && p
            <= q && (v < 0 ==> p == 0) && (w > 100 ==> q == 100) && (0 <= v <= 100 ==> p == v)),
{
}

/// The desktop shows the track that plays, as the application does, and nothing where
/// nothing plays.
pub proof fn the_desktop_shows_what_plays(s: StateView)
    ensures
        s.now_playing is None ==> s.metadata().title is None && s.metadata().artist is None
            && s.metadata().album is None && s.metadata().cover_url is None && s.metadata().duration
            is None,
        s.now_playing matches Some(t) ==> s.metadata().title == Some(t.title) && s.metadata().album
            == t.album && s.metadata().cover_url == s.picture() && s.metadata().artist == Some(
            t.artist_line(),
        ) && s.metadata().duration == Some(s.duration),
{
}

/// The desktop is told to be playing where something sounds or is about to, paused where it
/// is paused, stopped where it is stopped; and where in the track that is.
pub proof fn the_desktop_knows_how_it_plays(s: StateView)
    ensures
        s.media_playback() is Stopped <==> s.playback is Stopped,
        s.media_playback() is Paused <==> s.playback is Paused,
        s.media_playback() matches MediaPlayback::Playing { progress } ==> progress == s.position,
        s.media_playback() matches MediaPlayback::Paused { progress } ==> progress == s.position,
{
}

/// A track has a page of its own: two tracks have two.
pub proof fn a_track_has_its_own_page(a: Seq<char>, b: Seq<char>)
    ensures
        resolver::watch_url(a) == resolver::watch_url(b) ==> a == b,
        text::has_part(resolver::watch_url(a), a),
        text::begins(resolver::watch_url(a), "https://music.youtube.com/"@),
{
    let site = "https://music.youtube.com/watch?v="@;
    let u = resolver::watch_url(a);
    let w = resolver::watch_url(b);
    reveal_strlit("https://music.youtube.com/watch?v=");
    reveal_strlit("https://music.youtube.com/");
    assert(u.subrange(site.len() as int, u.len() as int) =~= a);
    assert(w.subrange(site.len() as int, w.len() as int) =~= b);
    assert(text::part_at(u, a, site.len() as int));
    assert(u.subrange(0, "https://music.youtube.com/"@.len() as int)
        =~= "https://music.youtube.com/"@);
}

/// The downloader is asked for the page of the track, with the cookies there are and no
/// others: to say where the audio is, or to put it into the file it is to be in.
pub proof fn the_downloader_is_asked_for_the_track(
    id: Seq<char>,
    target: Seq<char>,
    jar: Option<Seq<char>>,
)
    ensures
        ({
            let say = resolver::stream_command(id, jar);
            let put = storage::fetch_command(id, target, jar);
            &&& say.last() == resolver::watch_url(id) && put.last() == resolver::watch_url(id)
            &&& say.contains("-g"@)
            &&& exists|i: int|
                0 <= i < put.len() - 1 && #[trigger] put[i] == "-o"@ && put[i + 1] == target
            &&& jar matches Some(j) ==> say.len() == 8 && say[5] == "--cookies"@ && say[6] == j
                && put.len() == 9 && put[6] == "--cookies"@ && put[7] == j
            &&& jar is None ==> say.len() == 6 && put.len() == 7
            &&& say.take(4) == put.take(4)
        }),
{
    let say = resolver::stream_command(id, jar);
    let put = storage::fetch_command(id, target, jar);
    assert(say[4] == "-g"@);
    assert(put[4] == "-o"@ && put[5] == target);
    assert(say.take(4) =~= put.take(4));
}

/// What was found for a track says nothing about another, and the cookies stay.
pub proof fn what_was_found_is_for_one_track(
    s: ResolverView,
    id: Seq<char>,
    url: Seq<char>,
    at: i64,
    other: Seq<char>,
    now: int,
)
    requires
        other != id,
    ensures
        s.finding(id, url, at).known(other, now) == s.known(other, now),
        s.finding(id, url, at).cookie_jar == s.cookie_jar,
        s.finding(id, url, at).resolved(other, now) == s.resolved(other, now),
{
    resolver::what_was_forgotten_is_not_known(s, id, other, now);
    let rest = resolver::forgetting(s.cache, id);
    assert(rest.push((id, url, at)).drop_last() =~= rest);
}

/// What is not on disk and not known is asked of the downloader, with the cookies there are.
pub proof fn what_is_not_known_is_looked_up(s: ResolverView, id: Seq<char>, now: int)
    ensures
        match s.located(id, None, now) {
            WhenceView::Url(u) => s.known(id, now) == Some(u),
            WhenceView::Fetch(args) => s.known(id, now) is None && args.last()
                == resolver::watch_url(id) && (s.cookie_jar matches Some(j) ==> args.contains(j)),
            WhenceView::File(_) => false,
        },
{
    let args = resolver::stream_command(id, s.cookie_jar);
    match s.cookie_jar {
        Some(j) => {
            assert(args[6] == j);
        },
        None => {},
    }
}

proof fn lemma_first_url(ls: Seq<Seq<char>>, i: int)
    requires
        0 <= i <= ls.len(),
    ensures
        match resolver::first_url(ls, i) {
            Some(u) => exists|k: int|
                i <= k < ls.len() && #[trigger] ls[k] == u && text::begins(u, "http"@) && (forall|
                    j: int,
                |
                    i <= j < k ==> !text::begins(#[trigger] ls[j], "http"@)),
            None => forall|k: int| i <= k < ls.len() ==> !text::begins(#[trigger] ls[k], "http"@),
        },
    decreases ls.len() - i,
{
    if i < ls.len() {
        if text::begins(ls[i], "http"@) {
            assert(ls[i] == ls[i]);
        } else {
            lemma_first_url(ls, i + 1);
            match resolver::first_url(ls, i + 1) {
                Some(u) => {
                    let k = choose|k: int|
                        i + 1 <= k < ls.len() && #[trigger] ls[k] == u && text::begins(u, "http"@)
                            && (forall|j: int|
                            i + 1 <= j < k ==> !text::begins(#[trigger] ls[j], "http"@));
                    assert(ls[k] == u);
                },
                None => {},
            }
        }
    }
}

/// What the downloader prints is a stream where it worked out and one of its lines is an
/// address: the first such line. A failure is told by its last words, and a demand to sign
/// in by what helps against it.
pub proof fn the_downloader_is_understood(success: bool, stdout: Seq<char>, stderr: Seq<char>)
    ensures
        match resolver::stream_found(success, stdout, stderr) {
            Ok(u) => success && text::begins(u, "http"@) && exists|k: int|
                0 <= k < text::lines(stdout).len() && #[trigger] text::lines(stdout)[k] == u && (
                forall|j: int|
                    0 <= j < k ==> !text::begins(#[trigger] text::lines(stdout)[j], "http"@)),
            Err(ResolveErrorView::NoAudioStream) => success && forall|k: int|
                0 <= k < text::lines(stdout).len() ==> !text::begins(
                    #[trigger] text::lines(stdout)[k],
                    "http"@,
                ),
            Err(ResolveErrorView::Failed(m)) => !success && (!resolver::is_bot_check(stderr)
                && text::lines(stderr).len() > 0 ==> m == text::lines(stderr).last()) && (
            resolver::is_bot_check(stderr) ==> text::has_part(m, "auth.cookie_file"@)),
            Err(ResolveErrorView::NotInstalled) => false,
        },
{
    lemma_first_url(text::lines(stdout), 0);
    let help = "YouTube asked this connection to sign in before streaming; set auth.cookie_file in config.toml and restart"@;
    reveal_strlit(
        "YouTube asked this connection to sign in before streaming; set auth.cookie_file in config.toml and restart",
    );
    reveal_strlit("auth.cookie_file");
    let named = "auth.cookie_file"@;
    assert(help.subrange(63, 63 + named.len() as int) =~= named);
    assert(text::part_at(help, named, 63));
}

proof fn lemma_no_char(s: Seq<char>, c: char, from: int)
    requires
        0 <= from <= s.len(),
        forall|i: int| from <= i < s.len() ==> s[i] != c,
    ensures
        text::find_char(s, c, from) == s.len(),
    decreases s.len() - from,
{
    if from < s.len() {
        lemma_no_char(s, c, from + 1);
    }
}

pub proof fn lemma_pieces_end(h: Seq<char>, p: Seq<char>, c: char, from: int)
    requires
        0 <= from <= h.len(),
        forall|i: int| 0 <= i < p.len() ==> p[i] != c,
    ensures
        text::pieces_from(h.push(c) + p, c, from) == text::pieces_from(h, c, from).push(p),
    decreases h.len() - from,
{
    let s = h.push(c) + p;
    let e = text::find_char(h, c, from);
    text::lemma_find_char(h, c, from);
    text::lemma_find_char(s, c, from);
    let f = text::find_char(s, c, from);
    assert(s[h.len() as int] == c);
    if e < h.len() {
        assert(s[e] == h[e]);
        assert(f == e) by {
            if f < e {
                assert(s[f] == h[f]);
            }
        }
        assert(s.subrange(from, e) =~= h.subrange(from, e));
        lemma_pieces_end(h, p, c, e + 1);
        assert(seq![h.subrange(from, e)] + text::pieces_from(h, c, e + 1).push(p) =~= (seq![
            h.subrange(from, e),
        ] + text::pieces_from(h, c, e + 1)).push(p));
    } else {
        assert(f == h.len()) by {
            if f < h.len() {
                assert(s[f] == h[f]);
            }
        }
        assert(s.subrange(from, f) =~= h.subrange(from, h.len() as int));
        let n = h.len() + 1;
        assert forall|i: int| n <= i < s.len() implies s[i] != c by {
            assert(s[i] == p[i - n]);
        }
        lemma_no_char(s, c, n as int);
        assert(s.subrange(n as int, s.len() as int) =~= p);
        assert(text::pieces_from(s, c, n as int) =~= seq![p]);
        assert(text::pieces_from(s, c, from) =~= text::pieces_from(h, c, from).push(p));
    }
}

/// A text without blanks at its ends.
pub open spec fn tight(s: Seq<char>) -> bool {
    s.len() > 0 ==> !text::is_space(s[0]) && !text::is_space(s.last())
}

/// A cookie with this name and this value, as a header has it.
pub open spec fn cookie(name: Seq<char>, value: Seq<char>) -> Seq<char> {
    name.push('=') + value
}

proof fn lemma_tight(s: Seq<char>)
    requires
        tight(s),
    ensures
        text::trimmed(s) == s,
{
}

proof fn lemma_cookie(name: Seq<char>, value: Seq<char>)
    requires
        name.len() > 0,
        tight(name),
        tight(value),
        forall|i: int| 0 <= i < name.len() ==> name[i] != '=',
    ensures
        resolver::line_of_pair(cookie(name, value)) == Some(resolver::jar_line(name, value)),
{
    let p = cookie(name, value);
    let n = name.len() as int;
    assert(p[0] == name[0]);
    if value.len() > 0 {
        assert(p.last() == value.last());
    } else {
        assert(p.last() == '=');
    }
    lemma_tight(p);
    text::lemma_find_char(p, '=', 0);
    let e = text::find_char(p, '=', 0);
    assert(p[n] == '=');
    assert(e == n) by {
        if e < n {
            assert(p[e] == name[e]);
        }
    }
    assert(p.take(n) =~= name);
    assert(p.skip(n + 1) =~= value);
    lemma_tight(name);
    lemma_tight(value);
}

/// A cookie that a header ends with ends the jar that the header makes, under its own name
/// and with its own value; the cookies before it stay as they were.
pub proof fn each_cookie_of_a_header_is_in_the_jar(
    header: Seq<char>,
    name: Seq<char>,
    value: Seq<char>,
)
    requires
        name.len() > 0,
        tight(name),
        tight(value),
        forall|i: int| 0 <= i < name.len() ==> name[i] != '=' && name[i] != ';',
        forall|i: int| 0 <= i < value.len() ==> value[i] != ';',
    ensures
        resolver::jar_of(header.push(';') + cookie(name, value)) == Some(
            (match resolver::jar_of(header) {
                Some(jar) => jar,
                None => "# Netscape HTTP Cookie File\n"@,
            }) + resolver::jar_line(name, value),
        ),
        resolver::jar_of(cookie(name, value)) == Some(
            "# Netscape HTTP Cookie File\n"@ + resolver::jar_line(name, value),
        ),
{
    let p = cookie(name, value);
    let head = "# Netscape HTTP Cookie File\n"@;
    let line = resolver::jar_line(name, value);
    assert forall|i: int| 0 <= i < p.len() implies p[i] != ';' by {
        if i < name.len() {
            assert(p[i] == name[i]);
        } else if i > name.len() {
            assert(p[i] == value[i - name.len() - 1]);
        }
    }
    lemma_cookie(name, value);
    lemma_pieces_end(header, p, ';', 0);
    let before = text::pieces(header, ';');
    let after = text::pieces(header.push(';') + p, ';');
    assert(after == before.push(p));
    assert(after[before.len() as int] == p);
    assert(resolver::has_pair(after));
    assert(after.drop_last() =~= before);
    assert(resolver::lines_of_pairs(after) == resolver::lines_of_pairs(before) + line);
    if !resolver::has_pair(before) {
        lemma_no_pairs(before);
        assert(Seq::<char>::empty() + line =~= line);
    }
    assert(head + (resolver::lines_of_pairs(before) + line) =~= head + resolver::lines_of_pairs(
        before,
    ) + line);
    lemma_no_char(p, ';', 0);
    assert(p.subrange(0, p.len() as int) =~= p);
    let one = text::pieces(p, ';');
    assert(one =~= seq![p]);
    assert(one[0] == p);
    assert(resolver::has_pair(one));
    assert(one.drop_last() =~= Seq::<Seq<char>>::empty());
    assert(resolver::lines_of_pairs(one.drop_last()) =~= Seq::<char>::empty());
    assert(resolver::lines_of_pairs(one) =~= line);
}

proof fn lemma_no_pairs(ps: Seq<Seq<char>>)
    requires
        !resolver::has_pair(ps),
    ensures
        resolver::lines_of_pairs(ps) == Seq::<char>::empty(),
    decreases ps.len(),
{
    if ps.len() > 0 {
        let rest = ps.drop_last();
        assert(resolver::line_of_pair(ps[ps.len() - 1]) is None);
        assert forall|i: int| 0 <= i < rest.len() implies resolver::line_of_pair(
            #[trigger] rest[i],
        ) is None by {
            assert(resolver::line_of_pair(ps[i]) is None);
        }
        lemma_no_pairs(rest);
    }
}

/// A line of a jar ends with the name and the value of its cookie, in fields of their own,
/// and is for the whole of the site.
pub proof fn a_line_of_a_jar_names_its_cookie(name: Seq<char>, value: Seq<char>)
    ensures
        ({
            let line = resolver::jar_line(name, value);
            let tail = seq!['\t'] + name + seq!['\t'] + value + seq!['\n'];
            &&& text::begins(line, ".youtube.com\t"@)
            &&& line.len() >= tail.len()
            &&& line.skip(line.len() - tail.len()) == tail
        }),
{
    let line = resolver::jar_line(name, value);
    let tail = seq!['\t'] + name + seq!['\t'] + value + seq!['\n'];
    reveal_strlit(".youtube.com\tTRUE\t/\tTRUE\t2147483647\t");
    reveal_strlit(".youtube.com\t");
    reveal_strlit("\t");
    reveal_strlit("\n");
    assert(line.skip(line.len() - tail.len()) =~= tail);
    assert(line.subrange(0, ".youtube.com\t"@.len() as int) =~= ".youtube.com\t"@);
}

proof fn lemma_present(cs: Seq<Seq<char>>, files: Seq<Seq<char>>, i: int)
    requires
        0 <= i <= cs.len(),
    ensures
        match storage::first_present(cs, files, i) {
            Some(p) => files.contains(p) && exists|k: int|
                i <= k < cs.len() && #[trigger] cs[k] == p && (forall|j: int|
                    i <= j < k ==> !files.contains(#[trigger] cs[j])),
            None => forall|k: int| i <= k < cs.len() ==> !files.contains(#[trigger] cs[k]),
        },
    decreases cs.len() - i,
{
    if i < cs.len() {
        if files.contains(cs[i]) {
            assert(cs[i] == cs[i]);
        } else {
            lemma_present(cs, files, i + 1);
            match storage::first_present(cs, files, i + 1) {
                Some(p) => {
                    let k = choose|k: int|
                        i + 1 <= k < cs.len() && #[trigger] cs[k] == p && (forall|j: int|
                            i + 1 <= j < k ==> !files.contains(#[trigger] cs[j]));
                    assert(cs[k] == p);
                },
                None => {},
            }
        }
    }
}

/// What is found of a track on disk is there and is one of the names it may have; where
/// nothing is found, it has none of them.
pub proof fn what_is_found_on_disk_is_there(s: StorageView, id: Seq<char>, files: Seq<Seq<char>>)
    ensures
        match storage::first_present(s.candidates(id), files, 0) {
            Some(p) => files.contains(p) && s.candidates(id).contains(p),
            None => forall|k: int|
                0 <= k < s.candidates(id).len() ==> !files.contains(#[trigger] s.candidates(id)[k]),
        },
{
    lemma_present(s.candidates(id), files, 0);
}

/// A file that was downloaded is found where it was put, before any other; one that was
/// fetched ahead of time is found where it was put, unless the track was downloaded.
pub proof fn what_was_put_on_disk_is_found(s: StorageView, id: Seq<char>, files: Seq<Seq<char>>)
    ensures
        ({
            let download = text::path_joined(s.download_dir, id + ".opus"@);
            let ahead = text::path_joined(s.cache_dir, id + ".opus"@);
            let found = storage::first_present(s.candidates(id), files, 0);
            &&& files.contains(download) ==> found == Some(download)
            &&& files.contains(ahead) && (forall|k: int|
                0 <= k < 5 ==> !files.contains(
                    #[trigger] storage::names_in(s.download_dir, id)[k],
                )) ==> found == Some(ahead)
        }),
{
    let cs = s.candidates(id);
    let down = storage::names_in(s.download_dir, id);
    let cache = storage::names_in(s.cache_dir, id);
    assert(down.len() == 5 && cache.len() == 5);
    assert(cs[0] == down[0]);
    assert(cs[5] == cache[0]);
    lemma_present(cs, files, 0);
    if forall|k: int| 0 <= k < 5 ==> !files.contains(#[trigger] down[k]) {
        assert forall|k: int| 0 <= k < 5 implies !files.contains(#[trigger] cs[k]) by {
            assert(cs[k] == down[k]);
        }
        if files.contains(cs[5]) {
            let p = storage::first_present(cs, files, 0)->0;
            let k = choose|k: int|
                0 <= k < cs.len() && #[trigger] cs[k] == p && (forall|j: int|
                    0 <= j < k ==> !files.contains(#[trigger] cs[j]));
            assert(k == 5);
        }
    }
}

/// A file was last used when it was last read or written, whichever was later.
pub proof fn a_file_was_used_when_it_was_read_or_written(f: CachedFile)
    ensures
        f.accessed matches Some(t) ==> t <= f.used(),
        f.modified matches Some(t) ==> t <= f.used(),
        f.used() == 0 || f.accessed == Some(f.used()) || f.modified == Some(f.used()),
{
}

/// The file that is evicted first is one that was not used for the longest time, and only a
/// cache that is too large loses any.
pub proof fn the_oldest_is_evicted_first(files: Seq<CachedFile>, max_bytes: u64, j: int)
    requires
        0 <= j < files.len(),
    ensures
        match EvictionView::begun(files, max_bytes).next() {
            Some(i) => 0 <= i < files.len() && files[i].used() <= files[j].used()
                && storage::total_size(files) > max_bytes,
            None => storage::total_size(files) <= max_bytes,
        },
{
    let n = files.len() as int;
    storage::the_least_recently_used_come_first(files, n);
    let order = storage::by_age(files, n);
    if storage::total_size(files) > max_bytes {
        assert(exists|k: int| 0 <= k < n && order[k] == j) by {
            lemma_all_by_age(files, n, j);
        }
        let k = choose|k: int| 0 <= k < n && order[k] == j;
        if k > 0 {
            assert(files[order[0]].used() <= files[order[k]].used());
        }
    }
}

proof fn lemma_all_by_age(files: Seq<CachedFile>, n: int, j: int)
    requires
        0 <= j < n <= files.len(),
    ensures
        exists|k: int| 0 <= k < n && storage::by_age(files, n)[k] == j,
    decreases n,
{
    let before = storage::by_age(files, n - 1);
    let all = storage::by_age(files, n);
    let p = storage::slot(before, files, files[n - 1].used());
    storage::the_least_recently_used_come_first(files, n - 1);
    lemma_slot_within(before, files, files[n - 1].used());
    if j < n - 1 {
        lemma_all_by_age(files, n - 1, j);
        let k = choose|k: int| 0 <= k < n - 1 && before[k] == j;
        if k < p {
            assert(all[k] == j);
        } else {
            assert(all[k + 1] == j);
        }
    } else {
        assert(all[p] == j);
    }
}

proof fn lemma_slot_within(order: Seq<int>, files: Seq<CachedFile>, used: u64)
    ensures
        0 <= storage::slot(order, files, used) <= order.len(),
    decreases order.len(),
{
    if order.len() > 0 && files[order.last()].used() > used {
        lemma_slot_within(order.drop_last(), files, used);
    }
}

/// A file that was evicted is no longer counted, and one that could not be is; either way
/// the next one is another.
pub proof fn an_eviction_counts_where_it_works(e: EvictionView)
    requires
        e.next() is Some,
        e.total >= e.sizes[e.left[0]],
    ensures
        e.tried(true).total == e.total - e.sizes[e.next()->0],
        e.tried(false).total == e.total,
        e.tried(true).pruned == e.pruned + 1 && e.tried(false).pruned == e.pruned,
        e.tried(true).left == e.left.skip(1) && e.tried(false).left == e.left.skip(1),
        storage::target_size(e.max_bytes) <= e.max_bytes,
{
}

/// The volume one begins with is the last one, else the one that is set, and never too loud.
pub proof fn the_last_volume_comes_back(remembered: Option<u8>, set: u16)
    ensures
        remembered matches Some(v) ==> startup::first_volume(remembered, set) == v,
        remembered is None ==> startup::first_volume(remembered, set) <= 100,
        remembered is None && set <= 100 ==> startup::first_volume(remembered, set) == set,
{
}

/// The first frame is as the settings say: the pane, the shuffle, the volume. It shows what
/// was kept, and nothing plays yet.
pub proof fn the_first_frame_is_as_set(
    c: ConfigView,
    volume: u8,
    kept: KeptLibraryView,
)
    ensures
        ({
            let s = startup::first_state(c, false, volume, Some(kept));
            &&& s.pane == c.ui.start_pane.opens() && s.focus is Main && !s.guest
            &&& s.volume == volume && s.shuffle == c.playback.shuffle && !s.muted
            &&& s.playback is Stopped && s.now_playing is None && s.queue.len() == 0
            &&& s.modal is None && !s.should_quit && s.toasts.len() == 0
            &&& kept.playlists matches Some(v) ==> s.playlists == v || v.len() == 0
            &&& kept.songs matches Some(v) ==> s.tracks == v || v.len() == 0
            &&& kept.downloads matches Some(v) ==> s.downloaded_tracks == model::download_rows(v)
            &&& kept.playlists is None ==> s.playlists.len() == 0
            &&& kept.downloads is None ==> s.downloaded_tracks.len() == 0
        }),
{
    reveal(StateView::preloaded);
}

/// A guest sees what was downloaded, and is told of being one.
pub proof fn a_guest_sees_the_downloads(c: ConfigView, volume: u8, kept: KeptLibraryView)
    ensures
        ({
            let s = startup::first_state(c, true, volume, Some(kept));
            &&& s.pane is Search && s.toasts.len() == 1 && s.volume == volume
            &&& kept.downloads matches Some(v) ==> s.downloaded_tracks == model::download_rows(v)
        }),
{
    reveal(StateView::preloaded);
    reveal(StateView::told);
    reveal(StateView::toasted);
}

/// One begins as a guest exactly where cookies are the way to sign in and there are none.
pub proof fn without_cookies_one_is_a_guest(c: ConfigView, is_file: bool)
    ensures
        c.auth.kind == AuthKind::Cookie && c.auth.cookie_file is None ==> c.begins_as_guest(is_file),
        c.auth.kind == AuthKind::Cookie && !is_file ==> c.begins_as_guest(is_file),
        c.auth.cookie_file is Some && is_file ==> !c.begins_as_guest(is_file),
        c.auth.kind != AuthKind::Cookie ==> !c.begins_as_guest(is_file),
{
}

/// One signs in with the cookies that are set, where cookies are the way to; where they are
/// not, or none are set, that is an error that says where to set them.
pub proof fn one_signs_in_with_the_cookies_that_are_set(
    c: ConfigView,
    home: Option<Seq<char>>,
    at: Seq<char>,
)
    ensures
        match startup::signed_in_with(c, home, at) {
            Ok(p) => c.auth.kind != AuthKind::OAuth && c.cookie_path(home) == Some(p),
            Err(m) => (c.auth.kind == AuthKind::OAuth || c.auth.cookie_file is None)
                && text::has_part(m, at),
        },
{
    let old = "auth.kind = \"oauth\" is no longer supported \u{2014} Google stopped accepting device-flow tokens on YouTube Music's endpoints. Set auth.kind = \"cookie\" and auth.cookie_file in "@;
    let end = " (see the README for how to export cookies)."@;
    let unset = "auth.cookie_file is not set in "@;
    let help = " \u{2014} see the README for how to export your cookies"@;
    assert((old + at + end).subrange(old.len() as int, (old.len() + at.len()) as int) =~= at);
    assert(text::part_at(old + at + end, at, old.len() as int));
    assert((unset + at + help).subrange(unset.len() as int, (unset.len() + at.len()) as int) =~= at);
    assert(text::part_at(unset + at + help, at, unset.len() as int));
}

/// The jar that a header makes is one that is taken as it is from then on.
pub proof fn a_jar_that_was_made_is_a_jar(header: Seq<char>)
    ensures
        resolver::jar_of(header) matches Some(jar) ==> resolver::is_jar(jar),
{
    reveal_strlit("# Netscape HTTP Cookie File\n");
    reveal_strlit("# Netscape");
    match resolver::jar_of(header) {
        Some(jar) => {
            assert(jar.subrange(0, "# Netscape"@.len() as int) =~= "# Netscape"@);
        },
        None => {},
    }
}

/// Only the command that repairs the settings runs without them.
pub proof fn only_the_repair_does_without_settings(cli: Cli)
    ensures
        cli.command is None ==> cli.needs_settings(),
        cli.command matches Some(Command::Playlists) ==> cli.needs_settings(),
        cli.command matches Some(Command::Cache { .. }) ==> cli.needs_settings(),
        cli.command matches Some(Command::Config { .. }) ==> !cli.needs_settings(),
{
}

/// The downloader is given the jar of the file of cookies: the file itself where it is a jar,
/// else the jar that is made of it, which is then the one to write. Without cookies nothing
/// changes, and what was found stays known.
pub proof fn the_downloader_gets_the_cookies(
    s: ResolverView,
    path: Seq<char>,
    content: Option<Seq<char>>,
    jar_path: Seq<char>,
)
    ensures
        ({
            let (t, made) = s.with_cookies(path, content, jar_path);
            &&& t.cache == s.cache
            &&& content is None ==> t == s && made is None
            &&& content matches Some(c) ==> {
                &&& resolver::is_jar(c) ==> t.cookie_jar == Some(path) && made is None
                &&& !resolver::is_jar(c) ==> made == resolver::jar_of(c)
                &&& made is Some ==> t.cookie_jar == Some(jar_path)
                &&& !resolver::is_jar(c) && made is None ==> t == s
            }
        }),
{
}

proof fn lemma_lines_shift(a: Seq<char>, b: Seq<char>, from: int)
    requires
        0 <= from <= b.len(),
    ensures
        text::lines_from(a + b, a.len() + from) == text::lines_from(b, from),
    decreases b.len() - from,
{
    let s = a + b;
    let n = a.len() as int;
    text::lemma_find_char(s, '\n', n + from);
    text::lemma_find_char(b, '\n', from);
    let e = text::find_char(b, '\n', from);
    let f = text::find_char(s, '\n', n + from);
    assert(f == n + e) by {
        if f < n + e {
            assert(s[f] == b[f - n]);
        }
        if f > n + e {
            assert(s[n + e] == b[e]);
        }
    }
    if from < b.len() {
        assert(s.subrange(n + from, f) =~= b.subrange(from, e));
        if e < b.len() {
            lemma_lines_shift(a, b, e + 1);
        } else {
            assert(s.subrange(n + from, s.len() as int) =~= b.subrange(from, b.len() as int));
        }
    }
}

/// A text is its lines: what stands before the first end of a line is the first of them,
/// without the return that may end it, and the others are those of the rest. A last line
/// need not be ended.
pub proof fn a_text_is_its_lines(first: Seq<char>, rest: Seq<char>)
    requires
        forall|i: int| 0 <= i < first.len() ==> first[i] != '\n',
    ensures
        text::lines(first.push('\n') + rest) == seq![text::without_return(first)] + text::lines(
            rest,
        ),
        first.len() > 0 ==> text::lines(first) == seq![first],
        text::lines(Seq::empty()).len() == 0,
        text::without_return(first.push('\r')) == first,
{
    let s = first.push('\n') + rest;
    let n = first.len() as int;
    text::lemma_find_char(s, '\n', 0);
    let e = text::find_char(s, '\n', 0);
    assert(s[n] == '\n');
    assert(e == n) by {
        if e < n {
            assert(s[e] == first[e]);
        }
    }
    assert(s.subrange(0, n) =~= first);
    lemma_lines_shift(first.push('\n'), rest, 0);
    lemma_no_char(first, '\n', 0);
    assert(first.subrange(0, n) =~= first);
    assert(first.push('\r').drop_last() =~= first);
}

/// A cache that is too large is brought to nine tenths of what it may have, rounded down.
pub proof fn a_full_cache_is_brought_to_nine_tenths(max_bytes: u64)
    ensures
        ({
            let target = storage::target_size(max_bytes);
            &&& 10 * target <= 9 * max_bytes
            &&& 10 * (target + 1) > 9 * max_bytes
        }),
{
}

} // verus!
