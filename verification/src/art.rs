//! Which pictures have been asked for, so that each is fetched once.

use crate::text::same_text;
use vstd::prelude::*;

verus! {

/// Which pictures have been asked for. The pictures themselves are kept by whoever
/// draws them.
#[derive(Debug, Clone, PartialEq, Eq)]
pub struct ArtCache {
    enabled: bool,
    tried: Vec<String>,
}

/// The model of an `ArtCache`.
#[verifier::ext_equal]
pub struct ArtView {
    /// The terminal can show pictures.
    pub enabled: bool,
    /// What was asked for already, whatever came of it.
    pub tried: Seq<Seq<char>>,
}

impl View for ArtCache {
    type V = ArtView;

    closed spec fn view(&self) -> ArtView {
        ArtView { enabled: self.enabled, tried: self.tried.deep_view() }
    }
}

impl ArtView {
    /// After a picture was asked for.
    pub open spec fn trying(self, url: Seq<char>) -> ArtView {
        if self.tried.contains(url) {
            self
        } else {
            ArtView { tried: self.tried.push(url), ..self }
        }
    }
}

impl ArtCache {
    pub fn new(enabled: bool) -> (r: ArtCache)
        ensures
            r@ == (ArtView { enabled, tried: Seq::empty() }),
    {
        let r = ArtCache { enabled, tried: Vec::new() };
        assert(r.tried.deep_view() =~= Seq::<Seq<char>>::empty());
        r
    }

    /// For a terminal that cannot show pictures.
    pub fn disabled() -> (r: ArtCache)
        ensures
            r@ == (ArtView { enabled: false, tried: Seq::empty() }),
    {
        ArtCache::new(false)
    }

    pub fn is_enabled(&self) -> (r: bool)
        ensures
            r == self@.enabled,
    {
        self.enabled
    }

    fn has(&self, url: &str) -> (r: bool)
        ensures
            r == self@.tried.contains(url@),
    {
        let mut i: usize = 0;
        while i < self.tried.len()
            invariant
                i <= self.tried@.len(),
                forall|k: int| 0 <= k < i ==> (#[trigger] self.tried@[k])@ != url@,
            decreases self.tried@.len() - i,
        {
            if same_text(self.tried[i].as_str(), url) {
                assert(self@.tried[i as int] == url@);
                return true;
            }
            i += 1;
        }
        assert forall|k: int| 0 <= k < self@.tried.len() implies self@.tried[k] != url@ by {
            assert(self.tried@[k]@ != url@);
        }
        false
    }

    /// Whether a picture is still to be fetched; true once for each.
    pub fn should_fetch(&mut self, url: &str) -> (r: bool)
        ensures
            r == !old(self)@.tried.contains(url@),
            final(self)@ == old(self)@.trying(url@),
    {
        if self.has(url) {
            false
        } else {
            self.tried.push(url.to_owned());
            assert(self@.tried =~= old(self)@.tried.push(url@));
            true
        }
    }

    /// Keeps a picture that cannot be had from being asked for again.
    pub fn mark_failed(&mut self, url: &str)
        ensures
            final(self)@ == old(self)@.trying(url@),
    {
        let _ = self.should_fetch(url);
    }
}

/// A picture that was asked for, or could not be had, is never asked for again.
pub proof fn each_picture_is_asked_for_once(a: ArtView, url: Seq<char>)
    ensures
        a.trying(url).tried.contains(url),
        a.trying(url).trying(url) == a.trying(url),
{
    if !a.tried.contains(url) {
        assert(a.tried.push(url).last() == url);
    }
}

} // verus!
