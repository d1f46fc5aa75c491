//! Audio files kept on disk: downloads for good, and a bounded cache of what comes
//! next. Which names to look for, what to ask the downloader, what to evict.

use crate::model::VideoId;
use crate::resolver::{self, ResolveError, ResolveErrorView, bot_checked, last_line_of};
use crate::text::{self, join2, join_path, same_text};
use vstd::prelude::*;

verus! {

/// The endings an audio file may have, in the order they are looked for.
pub const ENDINGS: [&'static str; 5] = [".opus", ".webm", ".m4a", ".mp3", ""];

/// Where audio files are kept.
#[derive(Debug, Clone, PartialEq, Eq)]
pub struct AudioStorageManager {
    download_dir: String,
    cache_dir: String,
    cache_size_mb: u64,
    prefetch_count: usize,
}

/// The model of an `AudioStorageManager`.
#[verifier::ext_equal]
pub struct StorageView {
    pub download_dir: Seq<char>,
    pub cache_dir: Seq<char>,
    pub cache_size_mb: u64,
    /// How many tracks are fetched ahead of time.
    pub prefetch_count: usize,
}

impl View for AudioStorageManager {
    type V = StorageView;

    closed spec fn view(&self) -> StorageView {
        StorageView {
            download_dir: self.download_dir@,
            cache_dir: self.cache_dir@,
            cache_size_mb: self.cache_size_mb,
            prefetch_count: self.prefetch_count,
        }
    }
}

/// The names under which a track's audio may stand in a directory.
pub open spec fn names_in(dir: Seq<char>, id: Seq<char>) -> Seq<Seq<char>> {
    Seq::new(ENDINGS@.len(), |i: int| text::path_joined(dir, id + ENDINGS@[i]@))
}

impl StorageView {
    /// Where a track's audio may stand, in the order it is looked for: among the
    /// downloads first.
    pub open spec fn candidates(self, id: Seq<char>) -> Seq<Seq<char>> {
        names_in(self.download_dir, id) + names_in(self.cache_dir, id)
    }
}

/// The first candidate, from `i` on, that is among the files.
pub open spec fn first_present(
    candidates: Seq<Seq<char>>,
    files: Seq<Seq<char>>,
    i: int,
) -> Option<Seq<char>>
    decreases candidates.len() - i,
{
    if i < 0 || i >= candidates.len() {
        None
    } else if files.contains(candidates[i]) {
        Some(candidates[i])
    } else {
        first_present(candidates, files, i + 1)
    }
}

fn push_names(out: &mut Vec<String>, dir: &str, id: &str)
    ensures
        final(out).deep_view() == old(out).deep_view() + names_in(dir@, id@),
{
    let mut i: usize = 0;
    assert(out.deep_view() =~= old(out).deep_view() + names_in(dir@, id@).take(0));
    while i < 5
        invariant
            i <= 5,
            out.deep_view() == old(out).deep_view() + names_in(dir@, id@).take(i as int),
        decreases 5 - i,
    {
        let ghost before = out.deep_view();
        let name = join2(id, ENDINGS[i]);
        let p = join_path(dir, name.as_str());
        let ghost v = p@;
        out.push(p);
        assert(out.deep_view() =~= before.push(v));
        assert(v == names_in(dir@, id@)[i as int]);
        i += 1;
        assert(out.deep_view() =~= old(out).deep_view() + names_in(dir@, id@).take(i as int));
    }
    assert(names_in(dir@, id@).take(5) =~= names_in(dir@, id@));
}

fn is_among(files: &Vec<String>, name: &str) -> (r: bool)
    ensures
        r == files.deep_view().contains(name@),
{
    let mut i: usize = 0;
    while i < files.len()
        invariant
            i <= files@.len(),
            forall|k: int| 0 <= k < i ==> (#[trigger] files@[k])@ != name@,
        decreases files@.len() - i,
    {
        if same_text(files[i].as_str(), name) {
            assert(files.deep_view()[i as int] == name@);
            return true;
        }
        i += 1;
    }
    assert forall|k: int| 0 <= k < files.deep_view().len() implies files.deep_view()[k] != name@ by {
        assert(files@[k]@ != name@);
    }
    false
}

impl AudioStorageManager {
    pub fn new(download_dir: String, cache_dir: String, cache_size_mb: u64) -> (r:
        AudioStorageManager)
        ensures
            r@ == (StorageView {
                download_dir: download_dir@,
                cache_dir: cache_dir@,
                cache_size_mb,
                prefetch_count: 0,
            }),
    {
        AudioStorageManager { download_dir, cache_dir, cache_size_mb, prefetch_count: 0 }
    }

    /// With so many tracks fetched ahead of time.
    pub fn with_prefetch_count(self, n: usize) -> (r: AudioStorageManager)
        ensures
            r@ == (StorageView { prefetch_count: n, ..self@ }),
    {
        AudioStorageManager { prefetch_count: n, ..self }
    }

    pub fn download_dir(&self) -> (r: &str)
        ensures
            r@ == self@.download_dir,
    {
        self.download_dir.as_str()
    }

    pub fn cache_dir(&self) -> (r: &str)
        ensures
            r@ == self@.cache_dir,
    {
        self.cache_dir.as_str()
    }

    pub fn cache_size_mb(&self) -> (r: u64)
        ensures
            r == self@.cache_size_mb,
    {
        self.cache_size_mb
    }

    pub fn prefetch_count(&self) -> (r: usize)
        ensures
            r == self@.prefetch_count,
    {
        self.prefetch_count
    }

    /// Where a track's audio may stand, in the order it is looked for.
    pub fn candidates(&self, id: &VideoId) -> (r: Vec<String>)
        ensures
            r.deep_view() == self@.candidates(id.deep_view()),
    {
        let mut out: Vec<String> = Vec::new();
        assert(out.deep_view() =~= Seq::<Seq<char>>::empty());
        push_names(&mut out, self.download_dir.as_str(), id.as_str());
        push_names(&mut out, self.cache_dir.as_str(), id.as_str());
        assert(out.deep_view() =~= self@.candidates(id.deep_view()));
        out
    }

    /// The names of a download's files.
    pub fn download_names(&self, id: &VideoId) -> (r: Vec<String>)
        ensures
            r.deep_view() == names_in(self@.download_dir, id.deep_view()),
    {
        let mut out: Vec<String> = Vec::new();
        assert(out.deep_view() =~= Seq::<Seq<char>>::empty());
        push_names(&mut out, self.download_dir.as_str(), id.as_str());
        assert(out.deep_view() =~= names_in(self@.download_dir, id.deep_view()));
        out
    }

    /// A track's audio among the files there are. Downloads come before the cache.
    pub fn find_local_audio(&self, id: &VideoId, files: &Vec<String>) -> (r: Option<String>)
        ensures
            r.deep_view() == first_present(
                self@.candidates(id.deep_view()),
                files.deep_view(),
                0,
            ),
    {
        let names = self.candidates(id);
        let ghost all = names.deep_view();
        let mut i: usize = 0;
        while i < names.len()
            invariant
                i <= names@.len() == all.len(),
                all == names.deep_view(),
                all == self@.candidates(id.deep_view()),
                first_present(all, files.deep_view(), 0) == first_present(
                    all,
                    files.deep_view(),
                    i as int,
                ),
            decreases names@.len() - i,
        {
            assert(all[i as int] == names@[i as int]@);
            if is_among(files, names[i].as_str()) {
                return Some(names[i].clone());
            }
            i += 1;
        }
        None
    }

    /// The file a track is downloaded to.
    pub fn download_path(&self, id: &VideoId) -> (r: String)
        ensures
            r@ == text::path_joined(self@.download_dir, id.deep_view() + ".opus"@),
    {
        let name = join2(id.as_str(), ".opus");
        join_path(self.download_dir.as_str(), name.as_str())
    }

    /// The file a track is fetched to ahead of time.
    pub fn cache_path(&self, id: &VideoId) -> (r: String)
        ensures
            r@ == text::path_joined(self@.cache_dir, id.deep_view() + ".opus"@),
    {
        let name = join2(id.as_str(), ".opus");
        join_path(self.cache_dir.as_str(), name.as_str())
    }
}

/// A download is found before a file of the cache.
pub proof fn downloads_come_first(s: StorageView, id: Seq<char>, files: Seq<Seq<char>>, i: int)
    requires
        0 <= i < ENDINGS@.len(),
        files.contains(names_in(s.download_dir, id)[i]),
    ensures
        exists|k: int|
            0 <= k <= i && first_present(s.candidates(id), files, 0) == Some(
                #[trigger] names_in(s.download_dir, id)[k],
            ),
{
    lemma_first_present(s.candidates(id), files, 0, i);
    let r = first_present(s.candidates(id), files, 0)->0;
    let k = choose|k: int| 0 <= k <= i && r == #[trigger] s.candidates(id)[k];
    assert(r == names_in(s.download_dir, id)[k]);
}

proof fn lemma_first_present(cs: Seq<Seq<char>>, files: Seq<Seq<char>>, from: int, i: int)
    requires
        0 <= from <= i < cs.len(),
        files.contains(cs[i]),
    ensures
        first_present(cs, files, from) is Some,
        exists|k: int|
            from <= k <= i && first_present(cs, files, from)->0 == #[trigger] cs[k],
    decreases i - from,
{
    if files.contains(cs[from]) {
    } else {
        lemma_first_present(cs, files, from + 1, i);
        let k = choose|k: int|
            from + 1 <= k <= i && first_present(cs, files, from + 1)->0 == #[trigger] cs[k];
        assert(first_present(cs, files, from)->0 == cs[k]);
    }
}

/// A file of the cache: when it was last read and last written, in ticks of the same
/// clock and as far as that is known, and its size.
#[derive(Debug, Clone, Copy, PartialEq, Eq)]
pub struct CachedFile {
    pub accessed: Option<u64>,
    pub modified: Option<u64>,
    pub size: u64,
}

impl CachedFile {
    /// When it was last used: read or written, whichever was later. One of which neither
    /// is known was used before any other.
    pub open spec fn used(self) -> u64 {
        let written: u64 = match self.modified {
            Some(t) => t,
            None => 0,
        };
        match self.accessed {
            Some(t) if t > written => t,
            _ => written,
        }
    }

    /// When it was last used.
    pub fn last_used(&self) -> (r: u64)
        ensures
            r == self.used(),
    {
        let written: u64 = match self.modified {
            Some(t) => t,
            None => 0,
        };
        match self.accessed {
            Some(t) if t > written => t,
            _ => written,
        }
    }
}

/// The sizes of files of a cache, added up.
pub open spec fn total_size(files: Seq<CachedFile>) -> int
    decreases files.len(),
{
    if files.len() == 0 {
        0
    } else {
        total_size(files.drop_last()) + files.last().size
    }
}

/// Where a file belongs in an order by age: behind all that were not used later.
pub open spec fn slot(order: Seq<int>, files: Seq<CachedFile>, used: u64) -> int
    decreases order.len(),
{
    if order.len() == 0 || files[order.last()].used() <= used {
        order.len() as int
    } else {
        slot(order.drop_last(), files, used)
    }
}

/// The files in the order of their age, the least recently used first; those used at
/// the same time stay in their order.
pub open spec fn by_age(files: Seq<CachedFile>, n: int) -> Seq<int>
    decreases n,
{
    if n <= 0 {
        Seq::empty()
    } else {
        let before = by_age(files, n - 1);
        before.insert(slot(before, files, files[n - 1].used()), n - 1)
    }
}

/// How much of a full cache is to be left: nine tenths.
pub open spec fn target_size(max_bytes: u64) -> int {
    max_bytes * 9 / 10
}

/// What is still to be evicted from a cache.
#[verifier::ext_equal]
pub struct EvictionView {
    /// The files that may be evicted, in this order.
    pub left: Seq<int>,
    /// The sizes of all files.
    pub sizes: Seq<u64>,
    /// How much there is.
    pub total: int,
    pub max_bytes: u64,
    /// How many files were evicted.
    pub pruned: int,
}

impl EvictionView {
    /// What is to be evicted from a cache at first: nothing from one that is not full.
    pub open spec fn begun(files: Seq<CachedFile>, max_bytes: u64) -> EvictionView {
        EvictionView {
            left: if total_size(files) <= max_bytes {
                Seq::empty()
            } else {
                by_age(files, files.len() as int)
            },
            sizes: Seq::new(files.len(), |i: int| files[i].size),
            total: total_size(files),
            max_bytes,
            pruned: 0,
        }
    }

    /// The file to evict next, while there is too much.
    pub open spec fn next(self) -> Option<int> {
        if self.left.len() > 0 && self.total > target_size(self.max_bytes) {
            Some(self.left[0])
        } else {
            None
        }
    }

    /// After trying to evict it.
    pub open spec fn tried(self, ok: bool) -> EvictionView {
        let size = self.sizes[self.left[0]];
        EvictionView {
            left: self.left.skip(1),
            total: if !ok {
                self.total
            } else if self.total > size {
                self.total - size
            } else {
                0
            },
            pruned: if ok {
                self.pruned + 1
            } else {
                self.pruned
            },
            ..self
        }
    }
}

proof fn lemma_slot(order: Seq<int>, files: Seq<CachedFile>, used: u64)
    ensures
        0 <= slot(order, files, used) <= order.len(),
        slot(order, files, used) < order.len() ==> files[order[slot(order, files, used)]].used() > used,
        slot(order, files, used) > 0 ==> files[order[slot(order, files, used) - 1]].used() <= used,
        forall|k: int| slot(order, files, used) <= k < order.len() ==> files[order[k]].used() > used,
    decreases order.len(),
{
    if order.len() > 0 && files[order.last()].used() > used {
        lemma_slot(order.drop_last(), files, used);
        let p = slot(order.drop_last(), files, used);
        assert forall|k: int| p <= k < order.len() implies files[order[k]].used() > used by {
            if k < order.len() - 1 {
                assert(order.drop_last()[k] == order[k]);
            }
        }
    }
}

/// Every file has its place in the order by age, and no later used one comes first.
pub proof fn the_least_recently_used_come_first(files: Seq<CachedFile>, n: int)
    requires
        0 <= n <= files.len(),
    ensures
        by_age(files, n).len() == n,
        forall|k: int| 0 <= k < n ==> 0 <= #[trigger] by_age(files, n)[k] < n,
        forall|j: int, k: int|
            0 <= j < k < n ==> files[#[trigger] by_age(files, n)[j]].used() <= files[#[trigger] by_age(
                files,
                n,
            )[k]].used(),
        by_age(files, n).no_duplicates(),
    decreases n,
{
    if n > 0 {
        the_least_recently_used_come_first(files, n - 1);
        let before = by_age(files, n - 1);
        let used = files[n - 1].used();
        lemma_slot(before, files, used);
        let p = slot(before, files, used);
        let all = before.insert(p, n - 1);
        assert(by_age(files, n) == all);
        assert forall|j: int, k: int| 0 <= j < k < n implies files[#[trigger] all[j]].used()
            <= files[#[trigger] all[k]].used() by {
            let a = if j < p {
                before[j]
            } else if j == p {
                n - 1
            } else {
                before[j - 1]
            };
            let b = if k < p {
                before[k]
            } else if k == p {
                n - 1
            } else {
                before[k - 1]
            };
            assert(all[j] == a && all[k] == b);
            if k == p {
                if j < p - 1 {
                    assert(files[before[j]].used() <= files[before[p - 1]].used());
                }
            }
        }
    }
}

/// What is still to be evicted from a cache.
#[derive(Debug, Clone)]
pub struct Eviction {
    order: Vec<usize>,
    at: usize,
    sizes: Vec<u64>,
    total: u128,
    max_bytes: u64,
    pruned: usize,
}

/// The numbers of some indices.
pub open spec fn numbers(v: Seq<usize>) -> Seq<int> {
    Seq::new(v.len(), |i: int| v[i] as int)
}

impl View for Eviction {
    type V = EvictionView;

    closed spec fn view(&self) -> EvictionView {
        EvictionView {
            left: numbers(self.order@).skip(self.at as int),
            sizes: self.sizes@,
            total: self.total as int,
            max_bytes: self.max_bytes,
            pruned: self.pruned as int,
        }
    }
}

impl Eviction {
    pub closed spec fn wf(self) -> bool {
        &&& self.at <= self.order@.len()
        &&& self.pruned <= self.at
        &&& forall|k: int| 0 <= k < self.order@.len() ==> (#[trigger] self.order@[k])
            < self.sizes@.len()
    }

    /// What is to be evicted from a cache of these files, so that it does not take more
    /// than `max_bytes`.
    pub fn begin(files: &Vec<CachedFile>, max_bytes: u64) -> (r: Eviction)
        ensures
            r@ == EvictionView::begun(files@, max_bytes),
            r.wf(),
    {
        let mut sizes: Vec<u64> = Vec::new();
        let mut order: Vec<usize> = Vec::new();
        let mut total: u128 = 0;
        let mut i: usize = 0;
        assert(numbers(order@) =~= by_age(files@, 0));
        assert(files@.take(0) =~= Seq::empty());
        while i < files.len()
            invariant
                i <= files@.len(),
                sizes@.len() == i,
                forall|k: int| 0 <= k < i ==> sizes@[k] == files@[k].size,
                total == total_size(files@.take(i as int)),
                total <= i * 0xffff_ffff_ffff_ffff,
                numbers(order@) == by_age(files@, i as int),
                order@.len() == i,
                forall|k: int| 0 <= k < order@.len() ==> (#[trigger] order@[k]) < i,
            decreases files@.len() - i,
        {
            let used: u64 = files[i].last_used();
            let size: u64 = files[i].size;
            assert(files@.take(i + 1).drop_last() =~= files@.take(i as int));
            assert(files@.take(i + 1).last() == files@[i as int]);
            assert(i * 0xffff_ffff_ffff_ffff <= 0xffff_ffff_ffff_ffff * 0xffff_ffff_ffff_ffff) by (
            nonlinear_arith)
                requires
                    i <= 0xffff_ffff_ffff_ffff,
            ;
            total = total + size as u128;
            sizes.push(size);
            let ghost all = numbers(order@);
            let mut p: usize = order.len();
            assert(all.take(p as int) =~= all);
            while p > 0 && files[order[p - 1]].last_used() > used
                invariant
                    p <= order@.len(),
                    all == numbers(order@),
                    forall|k: int| 0 <= k < order@.len() ==> (#[trigger] order@[k]) < files@.len(),
                    slot(all, files@, used) == slot(all.take(p as int), files@, used),
                decreases p,
            {
                assert(all.take(p as int).drop_last() =~= all.take(p - 1));
                assert(all.take(p as int).last() == all[p - 1]);
                assert(all[p - 1] == order@[p - 1]);
                p -= 1;
            }
            if p > 0 {
                assert(all.take(p as int).last() == all[p - 1]);
                assert(all[p - 1] == order@[p - 1]);
            }
            assert(slot(all, files@, used) == p);
            order.insert(p, i);
            assert(numbers(order@) =~= all.insert(p as int, i as int));
            i += 1;
        }
        assert(files@.take(i as int) =~= files@);
        if total <= max_bytes as u128 {
            order.clear();
        }
        let r = Eviction { order, at: 0, sizes, total, max_bytes, pruned: 0 };
        assert(numbers(r.order@).skip(0) =~= numbers(r.order@));
        assert(r@ =~= EvictionView::begun(files@, max_bytes));
        r
    }

    /// The file to evict next, while there is too much.
    pub fn next(&self) -> (r: Option<usize>)
        requires
            self.wf(),
        ensures
            match self@.next() {
                Some(i) => r == Some(i as usize) && 0 <= i < self@.sizes.len(),
                None => r is None,
            },
    {
        if self.at < self.order.len() && self.total > (self.max_bytes as u128 * 9) / 10 {
            assert(self@.left[0] == self.order@[self.at as int]);
            Some(self.order[self.at])
        } else {
            None
        }
    }

    /// How evicting it came out.
    pub fn settle(&mut self, ok: bool)
        requires
            old(self).wf(),
            old(self)@.next() is Some,
        ensures
            final(self)@ == old(self)@.tried(ok),
            final(self).wf(),
    {
        let n: usize = self.order.len();
        let i: usize = self.order[self.at];
        assert(self@.left[0] == i);
        assert(self.at < n);
        if ok {
            let size: u64 = self.sizes[i];
            self.total = self.total.saturating_sub(size as u128);
            self.pruned += 1;
        }
        self.at += 1;
        assert(numbers(self.order@).skip(self.at as int) =~= old(self)@.left.skip(1));
    }

    /// How many files were evicted.
    pub fn pruned(&self) -> (r: usize)
        ensures
            r == self@.pruned,
    {
        self.pruned
    }
}

/// Nothing is evicted from a cache that is not full.
pub proof fn a_cache_that_is_not_full_is_left_alone(files: Seq<CachedFile>, max_bytes: u64)
    requires
        total_size(files) <= max_bytes,
    ensures
        EvictionView::begun(files, max_bytes).next() is None,
{
}

/// The evictions that follow where each works out.
pub open spec fn evicted_all(e: EvictionView) -> EvictionView
    decreases e.left.len(),
{
    if e.next() is Some {
        evicted_all(e.tried(true))
    } else {
        e
    }
}

/// The sum of sizes of some files.
pub open spec fn left_size(left: Seq<int>, sizes: Seq<u64>) -> int
    decreases left.len(),
{
    if left.len() == 0 {
        0
    } else {
        sizes[left[0]] + left_size(left.skip(1), sizes)
    }
}

/// Where every eviction works out, no more than nine tenths of the limit are left of
/// a cache that was full, and a cache that was not stays as it is.
pub proof fn evicting_gets_below_the_target(files: Seq<CachedFile>, max_bytes: u64)
    ensures
        ({
            let left = evicted_all(EvictionView::begun(files, max_bytes)).total;
            if total_size(files) > max_bytes {
                left <= target_size(max_bytes)
            } else {
                left == total_size(files)
            }
        }),
{
    let e = EvictionView::begun(files, max_bytes);
    if total_size(files) > max_bytes {
        lemma_total_by_age(files, files.len() as int);
        assert(files.take(files.len() as int) =~= files);
        lemma_evicted(e);
    }
}

proof fn lemma_evicted(e: EvictionView)
    requires
        e.total == left_size(e.left, e.sizes),
    ensures
        evicted_all(e).total <= target_size(e.max_bytes),
    decreases e.left.len(),
{
    if e.next() is Some {
        let f = e.tried(true);
        lemma_left_size(e.left.skip(1), e.sizes);
        assert(f.total == left_size(f.left, f.sizes));
        lemma_evicted(f);
    }
}

/// The order by age leaves no file out and takes none twice.
proof fn lemma_total_by_age(files: Seq<CachedFile>, n: int)
    requires
        0 <= n <= files.len(),
    ensures
        left_size(by_age(files, n), Seq::new(files.len(), |i: int| files[i].size)) == total_size(
            files.take(n),
        ),
    decreases n,
{
    let sizes = Seq::new(files.len(), |i: int| files[i].size);
    if n > 0 {
        lemma_total_by_age(files, n - 1);
        let before = by_age(files, n - 1);
        lemma_slot(before, files, files[n - 1].used());
        lemma_left_size_inserted(before, slot(before, files, files[n - 1].used()), n - 1, sizes);
        assert(files.take(n).drop_last() =~= files.take(n - 1));
    }
}

proof fn lemma_left_size_inserted(left: Seq<int>, p: int, i: int, sizes: Seq<u64>)
    requires
        0 <= p <= left.len(),
    ensures
        left_size(left.insert(p, i), sizes) == left_size(left, sizes) + sizes[i],
    decreases left.len(),
{
    let all = left.insert(p, i);
    if p == 0 {
        assert(all.skip(1) =~= left);
    } else {
        assert(all.skip(1) =~= left.skip(1).insert(p - 1, i));
        lemma_left_size_inserted(left.skip(1), p - 1, i, sizes);
    }
}

proof fn lemma_left_size(left: Seq<int>, sizes: Seq<u64>)
    ensures
        left_size(left, sizes) >= 0,
    decreases left.len(),
{
    if left.len() > 0 {
        lemma_left_size(left.skip(1), sizes);
    }
}

impl AudioStorageManager {
    /// What is to be evicted so that the cache does not take more than `max_bytes`.
    pub fn prune_lru(&self, files: &Vec<CachedFile>, max_bytes: u64) -> (r: Eviction)
        ensures
            r@ == EvictionView::begun(files@, max_bytes),
            r.wf(),
    {
        Eviction::begin(files, max_bytes)
    }

    /// What is to be evicted so that the cache keeps to its size.
    pub fn prune_cache(&self, files: &Vec<CachedFile>) -> (r: Eviction)
        requires
            self@.cache_size_mb * 1024 * 1024 <= u64::MAX,
        ensures
            r@ == EvictionView::begun(files@, (self@.cache_size_mb * 1024 * 1024) as u64),
            r.wf(),
    {
        self.prune_lru(files, self.cache_size_mb * 1024 * 1024)
    }
}

/// What the downloader is asked in order to fetch a track.
pub open spec fn fetch_command(
    id: Seq<char>,
    target: Seq<char>,
    jar: Option<Seq<char>>,
) -> Seq<Seq<char>> {
    seq!["-f"@, "bestaudio"@, "--no-playlist"@, "--no-warnings"@, "-o"@, target] + (match jar {
        Some(j) => seq!["--cookies"@, j],
        None => Seq::empty(),
    }) + seq![resolver::watch_url(id)]
}

fn push_arg(v: &mut Vec<String>, s: String)
    ensures
        final(v).deep_view() == old(v).deep_view().push(s@),
{
    v.push(s);
    assert(v.deep_view() =~= old(v).deep_view().push(s@));
}

/// What the downloader is asked in order to fetch a track into a file.
pub fn fetch_args(id: &VideoId, target: &str, jar: Option<&str>) -> (r: Vec<String>)
    ensures
        r.deep_view() == fetch_command(
            id.deep_view(),
            target@,
            match jar {
                Some(j) => Some(j@),
                None => None,
            },
        ),
{
    let mut v: Vec<String> = Vec::new();
    assert(v.deep_view() =~= Seq::<Seq<char>>::empty());
    push_arg(&mut v, "-f".to_owned());
    push_arg(&mut v, "bestaudio".to_owned());
    push_arg(&mut v, "--no-playlist".to_owned());
    push_arg(&mut v, "--no-warnings".to_owned());
    push_arg(&mut v, "-o".to_owned());
    push_arg(&mut v, target.to_owned());
    match jar {
        Some(j) => {
            push_arg(&mut v, "--cookies".to_owned());
            push_arg(&mut v, j.to_owned());
        },
        None => {},
    }
    push_arg(&mut v, join2("https://music.youtube.com/watch?v=", id.as_str()));
    assert(v.deep_view() =~= fetch_command(
        id.deep_view(),
        target@,
        match jar {
            Some(j) => Some(j@),
            None => None,
        },
    ));
    v
}

/// What came of fetching a track into a file.
pub fn fetch_outcome(success: bool, stderr: &str, target: &str) -> (r: Result<
    String,
    ResolveError,
>)
    ensures
        if success {
            r matches Ok(p) && p@ == target@
        } else {
            r matches Err(e) && e.deep_view() == ResolveErrorView::Failed(
                if resolver::is_bot_check(stderr@) {
                    "YouTube requested sign-in to stream or download this audio"@
                } else {
                    resolver::last_line(stderr@, "unknown error"@)
                },
            )
        },
{
    if success {
        return Ok(target.to_owned());
    }
    Err(
        ResolveError::Failed(
            if bot_checked(stderr) {
                "YouTube requested sign-in to stream or download this audio".to_owned()
            } else {
                last_line_of(stderr, "unknown error")
            },
        ),
    )
}

} // verus!
