//! What the user is told: that a message names what it is about.

use crate::app::{ModalView, StateView, ToastKind};
use crate::app_loop;
use crate::background;
use crate::config::{self, ConfigErrorView};
use crate::laws_settings::{a_number_is_written_as_it_is, worth};
use crate::model::{SourceErrorView, TrackView};
use crate::resolver::ResolveErrorView;
use crate::tasks::MutationTaskView;
use crate::text;
use vstd::prelude::*;

verus! {

/// A text put between two others is a part of the whole.
pub proof fn lemma_between(a: Seq<char>, part: Seq<char>, b: Seq<char>)
    ensures
        text::has_part(a + part + b, part),
        text::has_part(a + part, part),
        text::begins(part + b, part),
        text::has_part(part + b, part),
{
    let k = a.len() as int;
    assert((a + part + b).subrange(k, k + part.len()) =~= part);
    assert(text::part_at(a + part + b, part, k));
    assert((a + part).subrange(k, k + part.len()) =~= part);
    assert(text::part_at(a + part, part, k));
    assert((part + b).subrange(0, part.len() as int) =~= part);
    assert(text::part_at(part + b, part, 0));
}

/// What was queued is said by its title, or by how many there are of it; and where it went
/// is said first.
pub proof fn what_was_queued_is_named(ts: Seq<TrackView>, next: bool)
    requires
        ts.len() > 0,
    ensures
        ({
            let m = app_loop::enqueue_text(ts, next);
            &&& ts.len() == 1 ==> text::has_part(m, ts[0].title)
            &&& ts.len() > 1 ==> text::has_part(m, text::decimal(ts.len()))
            &&& next ==> text::begins(m, "playing next"@)
            &&& !next ==> text::begins(m, "added to queue"@)
        }),
{
    let place = if next {
        "playing next"@
    } else {
        "added to queue"@
    };
    if ts.len() == 1 {
        lemma_between(place + ": "@, ts[0].title, Seq::empty());
        lemma_between(Seq::empty(), place, ": "@ + ts[0].title);
        assert(place + ": "@ + ts[0].title =~= place + (": "@ + ts[0].title));
    } else {
        let n = text::decimal(ts.len());
        lemma_between(place + " "@, n, " tracks"@);
        lemma_between(Seq::empty(), place, " "@ + n + " tracks"@);
        assert(place + " "@ + n + " tracks"@ =~= place + (" "@ + n + " tracks"@));
    }
}

/// A list that was queued is said by its title and by how many tracks it has; and where it
/// went is said first.
pub proof fn a_list_that_was_queued_is_named(title: Seq<char>, n: nat, next: bool)
    ensures
        ({
            let m = background::list_queued_text(title, n, next);
            &&& text::has_part(m, title)
            &&& text::has_part(m, text::decimal(n))
            &&& next ==> text::begins(m, "playing next"@)
            &&& !next ==> text::begins(m, "added to queue"@)
        }),
{
    let place = if next {
        "playing next"@
    } else {
        "added to queue"@
    };
    let end = if n == 1 {
        " track)"@
    } else {
        " tracks)"@
    };
    let d = text::decimal(n);
    let m = background::list_queued_text(title, n, next);
    lemma_between(place + ": "@, title, " ("@ + d + end);
    assert(m =~= place + ": "@ + title + (" ("@ + d + end));
    lemma_between(place + ": "@ + title + " ("@, d, end);
    lemma_between(Seq::empty(), place, ": "@ + title + " ("@ + d + end);
    assert(m =~= place + (": "@ + title + " ("@ + d + end));
}

/// What several tracks, or one, are said to be: the one by its title, several by how many.
pub proof fn what_is_worked_on_is_named(
    ts: Seq<TrackView>,
    before: Seq<char>,
    after_one: Seq<char>,
    after_many: Seq<char>,
)
    ensures
        ({
            let m = app_loop::counted(ts, before, after_one, after_many);
            &&& text::begins(m, before)
            &&& ts.len() == 1 ==> text::has_part(m, ts[0].title)
            &&& ts.len() != 1 ==> text::has_part(m, text::decimal(ts.len()))
        }),
{
    if ts.len() == 1 {
        lemma_between(before + "\""@, ts[0].title, after_one);
        lemma_between(Seq::empty(), before, "\""@ + ts[0].title + after_one);
        assert(before + "\""@ + ts[0].title + after_one =~= before + ("\""@ + ts[0].title
            + after_one));
    } else {
        let d = text::decimal(ts.len());
        lemma_between(before, d, after_many);
        lemma_between(Seq::empty(), before, d + after_many);
        assert(before + d + after_many =~= before + (d + after_many));
    }
}

/// What was done to a playlist is said in words of its own.
pub proof fn each_change_has_its_own_words(a: MutationTaskView, b: MutationTaskView)
    ensures
        background::made_text(a) == background::made_text(b) ==> ((a is Create <==> b is Create)
            && (a is Rename <==> b is Rename) && (a is Delete <==> b is Delete) && (a is AddTracks
            <==> b is AddTracks)),
        a is Create ==> text::has_part(background::made_text(a), "created"@),
        a is Rename ==> text::has_part(background::made_text(a), "renamed"@),
        a is Delete ==> text::has_part(background::made_text(a), "deleted"@),
        a is AddTracks ==> text::begins(background::made_text(a), "added"@),
        a is RemoveTracks ==> text::begins(background::made_text(a), "removed"@),
{
    reveal_strlit("playlist created");
    reveal_strlit("playlist renamed");
    reveal_strlit("playlist deleted");
    reveal_strlit("added to playlist");
    reveal_strlit("removed from playlist");
    reveal_strlit("created");
    reveal_strlit("renamed");
    reveal_strlit("deleted");
    reveal_strlit("added");
    reveal_strlit("removed");
    assert("playlist created"@[9] == 'c' && "playlist renamed"@[9] == 'r');
    assert("playlist deleted"@[9] == 'd' && "added to playlist"@[9] == 'p');
    assert("removed from playlist"@.len() == 21 && "added to playlist"@.len() == 17);
    assert("playlist created"@.subrange(9, 16) =~= "created"@);
    assert("playlist renamed"@.subrange(9, 16) =~= "renamed"@);
    assert("playlist deleted"@.subrange(9, 16) =~= "deleted"@);
    assert("added to playlist"@.subrange(0, 5) =~= "added"@);
    assert("removed from playlist"@.subrange(0, 7) =~= "removed"@);
    assert(text::part_at("playlist created"@, "created"@, 9));
    assert(text::part_at("playlist renamed"@, "renamed"@, 9));
    assert(text::part_at("playlist deleted"@, "deleted"@, 9));
}

/// An error of the source names what was not found, or is in the source's own words; one of
/// the downloader holds its words.
pub proof fn an_error_says_what_it_is_about(what: Seq<char>)
    ensures
        text::has_part(SourceErrorView::NotFound(what).message(), what),
        SourceErrorView::Other(what).message() == what,
        text::has_part(ResolveErrorView::Failed(what).message(), what),
        SourceErrorView::RateLimited.message() != SourceErrorView::AlreadyInPlaylist.message(),
{
    lemma_between("not found: "@, what, Seq::empty());
    lemma_between("yt-dlp failed: "@, what, Seq::empty());
    reveal_strlit("too many requests, try again in a moment");
    reveal_strlit("already in playlist");
    assert("already in playlist"@.len() == 19);
    assert("too many requests, try again in a moment"@.len() == 40);
}

/// A guest who is refused is told what it was, and how to sign in.
pub proof fn a_refusal_says_what_was_refused(s: StateView, what: Seq<char>)
    ensures
        ({
            let t = s.refused(what);
            let m = t.toasts.last().text;
            &&& text::begins(m, what)
            &&& text::has_part(m, "auth.cookie_file"@)
            &&& t == (StateView { toasts: t.toasts, ..s })
        }),
{
    reveal(StateView::refused);
    reveal(StateView::told);
    reveal(StateView::toasted);
    let how = " needs an account; set auth.cookie_file to sign in"@;
    reveal_strlit(" needs an account; set auth.cookie_file to sign in");
    reveal_strlit("auth.cookie_file");
    lemma_between(Seq::empty(), what, how);
    let m = what + how;
    let k = what.len() + 23;
    let name = "auth.cookie_file"@;
    assert(m.subrange(k as int, (k + name.len()) as int) =~= name);
    assert(text::part_at(m, name, k as int));
}

/// A question about a playlist, and a word about a download, hold its title.
pub proof fn a_question_names_what_it_is_about(s: StateView, t: TrackView)
    ensures
        s.selected_playlist() is Some && !(s.selected_playlist()->0).is_system ==> (
        s.delete_asked().modal matches Some(ModalView::Confirm { text: question, .. })
            && text::has_part(question, (s.selected_playlist()->0).title)),
        text::has_part(s.with_download(t).toasts.last().text, t.title),
        s.with_download(t).toasts.last().kind == ToastKind::Success,
{
    reveal(StateView::with_download);
    reveal(StateView::told);
    reveal(StateView::toasted);
    match s.selected_playlist() {
        Some(p) => lemma_between("Delete \""@, p.title, "\"? This cannot be undone."@),
        None => {},
    }
    lemma_between("Downloaded \""@, t.title, "\""@);
}

/// A number below nothing has a sign and is worth what is behind it.
pub proof fn a_number_below_nothing_has_a_sign(n: int)
    ensures
        n >= 0 ==> worth(config::signed(n)) == n,
        n < 0 ==> config::signed(n)[0] == '-' && worth(config::signed(n).skip(1)) == -n,
{
    reveal_strlit("-");
    if n >= 0 {
        a_number_is_written_as_it_is(n as nat);
    } else {
        a_number_is_written_as_it_is((-n) as nat);
        assert(config::signed(n).skip(1) =~= text::decimal((-n) as nat));
    }
}

/// What is wrong with settings is said with the setting and the value, or with the file and
/// the reason.
pub proof fn a_fault_in_the_settings_is_named(
    path: Seq<char>,
    reason: Seq<char>,
    key: Seq<char>,
    n: i64,
    v: u16,
)
    ensures
        text::has_part(config::error_text(ConfigErrorView::Io { path, reason }), path),
        text::has_part(config::error_text(ConfigErrorView::Io { path, reason }), reason),
        text::has_part(config::error_text(ConfigErrorView::Parse(reason)), reason),
        text::has_part(config::error_text(ConfigErrorView::Theme(reason)), reason),
        text::has_part(config::error_text(ConfigErrorView::Volume(v)), text::decimal(v as nat)),
        text::has_part(config::error_text(ConfigErrorView::Step(key, n)), key),
        text::has_part(
            config::error_text(ConfigErrorView::Step(key, n)),
            config::signed(n as int),
        ),
        text::has_part(
            config::error_text(ConfigErrorView::UnknownTheme(key)),
            config::quoted(key),
        ),
        text::has_part(config::error_text(ConfigErrorView::BadAccent(key)), config::quoted(key)),
{
    let s = config::signed(n as int);
    lemma_between("could not read config at "@, path, ": "@ + reason);
    assert("could not read config at "@ + path + ": "@ + reason =~= "could not read config at "@
        + path + (": "@ + reason));
    lemma_between("could not read config at "@ + path + ": "@, reason, Seq::empty());
    lemma_between("config is not valid TOML: "@, reason, Seq::empty());
    lemma_between("theme file is not valid: "@, reason, Seq::empty());
    lemma_between(
        "config key `playback.volume` must be 0-100, got "@,
        text::decimal(v as nat),
        Seq::empty(),
    );
    lemma_between("config key `"@, key, "` must be greater than 0, got "@ + s);
    assert("config key `"@ + key + "` must be greater than 0, got "@ + s =~= "config key `"@ + key
        + ("` must be greater than 0, got "@ + s));
    lemma_between("config key `"@ + key + "` must be greater than 0, got "@, s, Seq::empty());
    lemma_between(
        "config key `ui.theme` names no built-in theme: "@,
        config::quoted(key),
        Seq::empty(),
    );
    lemma_between(
        "config key `ui.accent` is not a hex color like \"#7aa2f7\": "@,
        config::quoted(key),
        Seq::empty(),
    );
}

} // verus!
