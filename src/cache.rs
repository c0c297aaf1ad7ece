//! The versioned page-snapshot cache and the tiered resolver in front of it.
//!
//! A request is served, in this order, by the latest snapshot stored for the exact
//! (site, canonical URL) key, by the latest snapshot of the site whose URL is a
//! prefix of the requested one or the other way round, by the newest saved folder of
//! the host whose origin marker matches, by the newest saved folder of the host that
//! has no marker when the root path is requested, and otherwise by a fetch.

use vstd::prelude::*;
use crate::files::{resource_file_name, resource_name_of};
use crate::pick::{lemma_pick_exists, lemma_picks_is_pick, lemma_picks_step, pick, picks, step_pick};
use crate::marker::{extract_data_base_url, origin_marker};
use crate::text::{contains, is_prefix, occurs_in, same_text, starts_with};
use crate::urls::{
    host_bucket, host_bucket_of, normalize_url_for_comparison, normalized, prefix_related, url_host, url_path,
    url_serialization, urls_prefix_related, WebUrl,
};

verus! {

/// One stored capture of a page.
#[derive(Clone, Debug)]
pub struct PageSnapshot {
    pub id: u64,
    pub site_id: i64,
    /// The canonical URL of the page.
    pub url: String,
    /// Where the raw HTML is kept.
    pub location: String,
    /// The capture instant, in milliseconds since the Unix epoch.
    pub version: i64,
}

/// A saved folder of the file-system area, with the page it holds.
#[derive(Clone, Debug)]
pub struct CachedFolder {
    pub folder: String,
    /// Modification instant of the page, in seconds or any finer unit.
    pub modified: u64,
    pub html: String,
}

/// The tier that served a request.
#[derive(PartialEq, Eq, Structural, Clone, Copy, Debug)]
pub enum CacheTier {
    Exact,
    Prefix,
    Marker,
    RootFallback,
}

/// What the resolver decides for one request.
#[derive(Debug)]
pub enum Resolution {
    /// Serve the page kept at `location`.
    Cached { tier: CacheTier, location: String },
    /// Fetch the page; a capture is then saved under the canonical `url`.
    Fetch { url: String },
}

/// Why a request cannot be resolved.
#[derive(PartialEq, Eq, Structural, Clone, Copy, Debug)]
pub enum ResolveError {
    EmptyUrl,
}

/// The capture instant of a snapshot, as the key of "latest".
pub open spec fn version_key() -> spec_fn(PageSnapshot) -> int {
    |s: PageSnapshot| s.version as int
}

/// The modification instant of a folder, as the key of "newest".
pub open spec fn modified_key() -> spec_fn(CachedFolder) -> int {
    |f: CachedFolder| f.modified as int
}

/// Snapshots stored under exactly this site and canonical URL.
pub open spec fn exact_key(site_id: i64, url: Seq<char>) -> spec_fn(PageSnapshot) -> bool {
    |s: PageSnapshot| s.site_id == site_id && s.url@ == url
}

/// Snapshots of this site whose URL is prefix-related to the requested one.
pub open spec fn prefix_key(site_id: i64, url: Seq<char>) -> spec_fn(PageSnapshot) -> bool {
    |s: PageSnapshot| s.site_id == site_id && prefix_related(s.url@, url)
}

/// The text `page_`.
pub open spec fn folder_prefix() -> Seq<char> {
    seq!['p', 'a', 'g', 'e', '_']
}

/// A folder of the host bucket `bucket`.
pub open spec fn in_bucket(f: CachedFolder, bucket: Seq<char>) -> bool {
    is_prefix(folder_prefix(), f.folder@) && occurs_in(bucket, f.folder@)
}

/// Folders of the bucket whose marker, normalized, is prefix-related to `req`.
pub open spec fn marker_key(bucket: Seq<char>, req: Seq<char>) -> spec_fn(CachedFolder) -> bool {
    |f: CachedFolder|
        in_bucket(f, bucket) && match origin_marker(f.html@) {
            Some(m) => prefix_related(normalized(m), req),
            None => false,
        }
}

/// Folders of the bucket without a marker.
pub open spec fn unmarked_key(bucket: Seq<char>) -> spec_fn(CachedFolder) -> bool {
    |f: CachedFolder| in_bucket(f, bucket) && origin_marker(f.html@) is None
}

/// The path of the root page.
pub open spec fn is_root_path(p: Seq<char>) -> bool {
    p.len() == 0 || p == seq!['/']
}

/// A cached answer.
pub open spec fn cached(tier: CacheTier, location: Seq<char>) -> (bool, CacheTier, Seq<char>) {
    (true, tier, location)
}

/// A fetch, with the key the capture is saved under.
pub open spec fn fetch(url: Seq<char>) -> (bool, CacheTier, Seq<char>) {
    (false, CacheTier::Exact, url)
}

/// The view of a resolution: whether it is cached, the tier, and the location or the
/// URL to save under.
pub open spec fn resolution_view(r: Resolution) -> (bool, CacheTier, Seq<char>) {
    match r {
        Resolution::Cached { tier, location } => cached(tier, location@),
        Resolution::Fetch { url } => fetch(url@),
    }
}

/// The file-system tiers for the canonical URL `n`.
pub open spec fn folder_tiers(folders: Seq<CachedFolder>, n: Seq<char>) -> (bool, CacheTier, Seq<char>) {
    match url_serialization(n) {
        None => fetch(n),
        Some(t) => {
            let bucket = host_bucket_of(url_host(t));
            let req = normalized(n);
            match pick(folders, marker_key(bucket, req), modified_key()) {
                Some(i) => cached(CacheTier::Marker, folders[i].folder@),
                None => if is_root_path(url_path(t)) {
                    match pick(folders, unmarked_key(bucket), modified_key()) {
                        Some(i) => cached(CacheTier::RootFallback, folders[i].folder@),
                        None => fetch(n),
                    }
                } else {
                    fetch(n)
                },
            }
        },
    }
}

/// What the resolver decides for `url`, over the stored snapshots and saved folders.
pub open spec fn resolution_of(
    snaps: Seq<PageSnapshot>,
    folders: Seq<CachedFolder>,
    url: Seq<char>,
    site_id: Option<i64>,
    force_refresh: bool,
) -> (bool, CacheTier, Seq<char>) {
    let n = normalized(url);
    if force_refresh {
        fetch(n)
    } else {
        match site_id {
            Some(s) => match pick(snaps, exact_key(s, n), version_key()) {
                Some(i) => cached(CacheTier::Exact, snaps[i].location@),
                None => match pick(snaps, prefix_key(s, n), version_key()) {
                    Some(i) => cached(CacheTier::Prefix, snaps[i].location@),
                    None => folder_tiers(folders, n),
                },
            },
            None => folder_tiers(folders, n),
        }
    }
}

/// The store of snapshots: append-only but for the deletion of single versions.
pub struct SnapshotIndex {
    snapshots: Vec<PageSnapshot>,
    next_id: u64,
}

impl View for SnapshotIndex {
    type V = Seq<PageSnapshot>;

    closed spec fn view(&self) -> Seq<PageSnapshot> {
        self.snapshots@
    }
}

impl SnapshotIndex {
    /// The identity the next saved snapshot gets.
    pub closed spec fn next_id(&self) -> nat {
        self.next_id as nat
    }

    /// Identities are below the next one, and no two snapshots share one.
    pub closed spec fn wf(&self) -> bool {
        &&& forall|i: int| 0 <= i < self@.len() ==> (#[trigger] self@[i]).id < self.next_id
        &&& forall|i: int, j: int| 0 <= i < j < self@.len() ==> (#[trigger] self@[i]).id != (#[trigger] self@[j]).id
    }

    /// An empty index.
    pub fn new() -> (r: SnapshotIndex)
        ensures
            r.wf(),
            r@ == Seq::<PageSnapshot>::empty(),
            r.next_id() == 1,
    {
        SnapshotIndex { snapshots: Vec::new(), next_id: 1 }
    }

    /// The stored snapshots, in the order they were saved.
    pub fn snapshots(&self) -> (r: &Vec<PageSnapshot>)
        ensures
            r@ == self@,
    {
        &self.snapshots
    }

    /// The number of stored snapshots.
    pub fn len(&self) -> (r: usize)
        ensures
            r == self@.len(),
    {
        self.snapshots.len()
    }

    /// Saves a capture of `url` for `site_id`, keyed by the canonical form of `url`,
    /// and returns its identity. Earlier versions stay.
    pub fn save(&mut self, site_id: i64, url: &str, location: String, version: i64) -> (r: u64)
        requires
            old(self).wf(),
            old(self).next_id() < u64::MAX,
        ensures
            final(self).wf(),
            r == old(self).next_id(),
            final(self).next_id() == old(self).next_id() + 1,
            final(self)@.len() == old(self)@.len() + 1,
            final(self)@.drop_last() == old(self)@,
            final(self)@.last().id == r,
            final(self)@.last().site_id == site_id,
            final(self)@.last().url@ == normalized(url@),
            final(self)@.last().location == location,
            final(self)@.last().version == version,
    {
        let id = self.next_id;
        let s = PageSnapshot { id, site_id, url: normalize_url_for_comparison(url), location, version };
        self.snapshots.push(s);
        self.next_id = self.next_id + 1;
        assert(self@.drop_last() == old(self)@);
        id
    }

    /// Adds a snapshot read back from durable storage, with the identity it had there.
    pub fn insert_existing(&mut self, s: PageSnapshot) -> (r: bool)
        requires
            old(self).wf(),
        ensures
            final(self).wf(),
            r == (s.id < u64::MAX && forall|i: int| 0 <= i < old(self)@.len() ==> (#[trigger] old(self)@[i]).id != s.id),
            r ==> final(self)@ == old(self)@.push(s),
            !r ==> final(self)@ == old(self)@,
    {
        if s.id == u64::MAX {
            return false;
        }
        let mut i: usize = 0;
        while i < self.snapshots.len()
            invariant
                i <= self@.len(),
                self == old(self),
                self.wf(),
                forall|k: int| 0 <= k < i ==> (#[trigger] self@[k]).id != s.id,
            decreases self@.len() - i,
        {
            if self.snapshots[i].id == s.id {
                return false;
            }
            i = i + 1;
        }
        if s.id >= self.next_id {
            self.next_id = s.id + 1;
        }
        self.snapshots.push(s);
        true
    }

    /// Deletes the one snapshot with identity `id`, if there is one; every other
    /// version stays as it was.
    pub fn delete_version(&mut self, id: u64) -> (r: bool)
        requires
            old(self).wf(),
        ensures
            final(self).wf(),
            final(self).next_id() == old(self).next_id(),
            r == exists|i: int| 0 <= i < old(self)@.len() && (#[trigger] old(self)@[i]).id == id,
            !r ==> final(self)@ == old(self)@,
            r ==> exists|i: int| 0 <= i < old(self)@.len() && (#[trigger] old(self)@[i]).id == id
                && final(self)@ == old(self)@.remove(i),
    {
        let mut i: usize = 0;
        while i < self.snapshots.len()
            invariant
                i <= self@.len(),
                self == old(self),
                self.wf(),
                forall|k: int| 0 <= k < i ==> (#[trigger] self@[k]).id != id,
            decreases self@.len() - i,
        {
            if self.snapshots[i].id == id {
                let ghost before = self@;
                self.snapshots.remove(i);
                assert(self@ == before.remove(i as int));
                assert forall|a: int, b: int| 0 <= a < b < self@.len() implies (#[trigger] self@[a]).id != (#[trigger] self@[b]).id by {
                    let a2 = if a < i { a } else { a + 1 };
                    let b2 = if b < i { b } else { b + 1 };
                    assert(self@[a] == before[a2]);
                    assert(self@[b] == before[b2]);
                    assert(a2 < b2);
                    assert(before[a2].id != before[b2].id);
                }
                assert forall|k: int| 0 <= k < self@.len() implies (#[trigger] self@[k]).id < self.next_id by {
                    let k2 = if k < i { k } else { k + 1 };
                    assert(self@[k] == before[k2]);
                    assert(before[k2].id < self.next_id);
                }
                return true;
            }
            i = i + 1;
        }
        false
    }

    /// Tier one: the latest snapshot stored for exactly this site and canonical URL.
    pub fn find_exact(&self, site_id: i64, url: &str) -> (r: Option<usize>)
        ensures
            picks(self@, exact_key(site_id, url@), version_key(), r),
    {
        let ghost p = exact_key(site_id, url@);
        let ghost key = version_key();
        let mut best: Option<usize> = None;
        let mut i: usize = 0;
        while i < self.snapshots.len()
            invariant
                i <= self@.len(),
                p == exact_key(site_id, url@),
                key == version_key(),
                picks(self@.subrange(0, i as int), p, key, best),
                best matches Some(b) ==> b < i,
            decreases self@.len() - i,
        {
            let s = &self.snapshots[i];
            let ghost best_before = best;
            proof {
                lemma_picks_step(self@, p, key, best, i);
            }
            if s.site_id == site_id && same_text(s.url.as_str(), url) {
                best = match best {
                    Some(b) => if s.version > self.snapshots[b].version {
                        Some(i)
                    } else {
                        Some(b)
                    },
                    None => Some(i),
                };
            }
            assert(best == step_pick(self@, p, key, best_before, i));
            i = i + 1;
        }
        assert(self@.subrange(0, i as int) == self@);
        best
    }

    /// Tier two: the latest snapshot of the site whose canonical URL is a prefix of
    /// `url`, or has `url` as a prefix.
    pub fn find_prefix(&self, site_id: i64, url: &str) -> (r: Option<usize>)
        ensures
            picks(self@, prefix_key(site_id, url@), version_key(), r),
    {
        let ghost p = prefix_key(site_id, url@);
        let ghost key = version_key();
        let mut best: Option<usize> = None;
        let mut i: usize = 0;
        while i < self.snapshots.len()
            invariant
                i <= self@.len(),
                p == prefix_key(site_id, url@),
                key == version_key(),
                picks(self@.subrange(0, i as int), p, key, best),
                best matches Some(b) ==> b < i,
            decreases self@.len() - i,
        {
            let s = &self.snapshots[i];
            let ghost best_before = best;
            proof {
                lemma_picks_step(self@, p, key, best, i);
            }
            if s.site_id == site_id && urls_prefix_related(s.url.as_str(), url) {
                best = match best {
                    Some(b) => if s.version > self.snapshots[b].version {
                        Some(i)
                    } else {
                        Some(b)
                    },
                    None => Some(i),
                };
            }
            assert(best == step_pick(self@, p, key, best_before, i));
            i = i + 1;
        }
        assert(self@.subrange(0, i as int) == self@);
        best
    }
}

/// Whether a folder belongs to the host bucket.
pub fn folder_in_bucket(f: &CachedFolder, bucket: &str) -> (r: bool)
    ensures
        r == in_bucket(*f, bucket@),
{
    proof {
        reveal_strlit("page_");
    }
    assert("page_"@ =~= folder_prefix());
    starts_with(f.folder.as_str(), "page_") && contains(f.folder.as_str(), bucket)
}

/// Tier three: the newest folder of the bucket whose origin marker, normalized, is
/// prefix-related to `req`.
pub fn find_marked(folders: &Vec<CachedFolder>, bucket: &str, req: &str) -> (r: Option<usize>)
    ensures
        picks(folders@, marker_key(bucket@, req@), modified_key(), r),
{
    let ghost p = marker_key(bucket@, req@);
    let ghost key = modified_key();
    let mut best: Option<usize> = None;
    let mut i: usize = 0;
    while i < folders.len()
        invariant
            i <= folders@.len(),
            p == marker_key(bucket@, req@),
            key == modified_key(),
            picks(folders@.subrange(0, i as int), p, key, best),
            best matches Some(b) ==> b < i,
        decreases folders@.len() - i,
    {
        let f = &folders[i];
        let ghost best_before = best;
        proof {
            lemma_picks_step(folders@, p, key, best, i);
        }
        let hit = folder_in_bucket(f, bucket) && match extract_data_base_url(f.html.as_str()) {
            Some(m) => urls_prefix_related(normalize_url_for_comparison(m.as_str()).as_str(), req),
            None => false,
        };
        if hit {
            best = match best {
                Some(b) => if f.modified > folders[b].modified {
                    Some(i)
                } else {
                    Some(b)
                },
                None => Some(i),
            };
        }
        assert(best == step_pick(folders@, p, key, best_before, i));
        i = i + 1;
    }
    assert(folders@.subrange(0, i as int) == folders@);
    best
}

/// Tier four: the newest folder of the bucket that carries no origin marker.
pub fn find_unmarked(folders: &Vec<CachedFolder>, bucket: &str) -> (r: Option<usize>)
    ensures
        picks(folders@, unmarked_key(bucket@), modified_key(), r),
{
    let ghost p = unmarked_key(bucket@);
    let ghost key = modified_key();
    let mut best: Option<usize> = None;
    let mut i: usize = 0;
    while i < folders.len()
        invariant
            i <= folders@.len(),
            p == unmarked_key(bucket@),
            key == modified_key(),
            picks(folders@.subrange(0, i as int), p, key, best),
            best matches Some(b) ==> b < i,
        decreases folders@.len() - i,
    {
        let f = &folders[i];
        let ghost best_before = best;
        proof {
            lemma_picks_step(folders@, p, key, best, i);
        }
        let hit = folder_in_bucket(f, bucket) && extract_data_base_url(f.html.as_str()).is_none();
        if hit {
            best = match best {
                Some(b) => if f.modified > folders[b].modified {
                    Some(i)
                } else {
                    Some(b)
                },
                None => Some(i),
            };
        }
        assert(best == step_pick(folders@, p, key, best_before, i));
        i = i + 1;
    }
    assert(folders@.subrange(0, i as int) == folders@);
    best
}

/// The file-system tiers for the canonical URL `n`.
fn resolve_in_folders(folders: &Vec<CachedFolder>, n: String) -> (r: Resolution)
    ensures
        resolution_view(r) == folder_tiers(folders@, n@),
{
    let w = match WebUrl::parse(n.as_str()) {
        Some(w) => w,
        None => return Resolution::Fetch { url: n },
    };
    let bucket = host_bucket(&w);
    let req = normalize_url_for_comparison(n.as_str());
    match find_marked(folders, bucket.as_str(), req.as_str()) {
        Some(i) => {
            proof {
                lemma_picks_is_pick(folders@, marker_key(bucket@, req@), modified_key(), Some(i));
            }
            return Resolution::Cached { tier: CacheTier::Marker, location: folders[i].folder.clone() };
        },
        None => {
            proof {
                lemma_picks_is_pick(folders@, marker_key(bucket@, req@), modified_key(), None);
            }
        },
    }
    let path = w.path();
    proof {
        reveal_strlit("/");
    }
    let root = path.unicode_len() == 0 || same_text(path.as_str(), "/");
    assert("/"@ =~= seq!['/']);
    if !root {
        return Resolution::Fetch { url: n };
    }
    match find_unmarked(folders, bucket.as_str()) {
        Some(i) => {
            proof {
                lemma_picks_is_pick(folders@, unmarked_key(bucket@), modified_key(), Some(i));
            }
            Resolution::Cached { tier: CacheTier::RootFallback, location: folders[i].folder.clone() }
        },
        None => {
            proof {
                lemma_picks_is_pick(folders@, unmarked_key(bucket@), modified_key(), None);
            }
            Resolution::Fetch { url: n }
        },
    }
}

/// Decides how a request for `url` is served: a forced refresh always fetches;
/// otherwise the tiers are tried in order and the first hit wins; a miss in all of
/// them fetches. An empty URL is rejected.
pub fn resolve(
    index: &SnapshotIndex,
    folders: &Vec<CachedFolder>,
    url: &str,
    site_id: Option<i64>,
    force_refresh: bool,
) -> (r: Result<Resolution, ResolveError>)
    ensures
        url@.len() == 0 <==> r is Err,
        r matches Ok(res) ==> resolution_view(res) == resolution_of(index@, folders@, url@, site_id, force_refresh),
{
    if url.unicode_len() == 0 {
        return Err(ResolveError::EmptyUrl);
    }
    let n = normalize_url_for_comparison(url);
    if force_refresh {
        return Ok(Resolution::Fetch { url: n });
    }
    if let Some(s) = site_id {
        match index.find_exact(s, n.as_str()) {
            Some(i) => {
                proof {
                    lemma_picks_is_pick(index@, exact_key(s, n@), version_key(), Some(i));
                }
                return Ok(Resolution::Cached { tier: CacheTier::Exact, location: index.snapshots()[i].location.clone() });
            },
            None => {
                proof {
                    lemma_picks_is_pick(index@, exact_key(s, n@), version_key(), None);
                }
            },
        }
        match index.find_prefix(s, n.as_str()) {
            Some(i) => {
                proof {
                    lemma_picks_is_pick(index@, prefix_key(s, n@), version_key(), Some(i));
                }
                return Ok(Resolution::Cached { tier: CacheTier::Prefix, location: index.snapshots()[i].location.clone() });
            },
            None => {
                proof {
                    lemma_picks_is_pick(index@, prefix_key(s, n@), version_key(), None);
                }
            },
        }
    }
    Ok(resolve_in_folders(folders, n))
}

/// Folders of the bucket.
pub open spec fn bucket_key(bucket: Seq<char>) -> spec_fn(CachedFolder) -> bool {
    |f: CachedFolder| in_bucket(f, bucket)
}

/// The newest folder of the bucket.
pub fn newest_in_bucket(folders: &Vec<CachedFolder>, bucket: &str) -> (r: Option<usize>)
    ensures
        picks(folders@, bucket_key(bucket@), modified_key(), r),
{
    let ghost p = bucket_key(bucket@);
    let ghost key = modified_key();
    let mut best: Option<usize> = None;
    let mut i: usize = 0;
    while i < folders.len()
        invariant
            i <= folders@.len(),
            p == bucket_key(bucket@),
            key == modified_key(),
            picks(folders@.subrange(0, i as int), p, key, best),
            best matches Some(b) ==> b < i,
        decreases folders@.len() - i,
    {
        let f = &folders[i];
        let ghost best_before = best;
        proof {
            lemma_picks_step(folders@, p, key, best, i);
        }
        if folder_in_bucket(f, bucket) {
            best = match best {
                Some(b) => if f.modified > folders[b].modified {
                    Some(i)
                } else {
                    Some(b)
                },
                None => Some(i),
            };
        }
        assert(best == step_pick(folders@, p, key, best_before, i));
        i = i + 1;
    }
    assert(folders@.subrange(0, i as int) == folders@);
    best
}

/// The newest saved folder of the host of `url`, where `url` parses.
pub fn cache_folder_for_url(folders: &Vec<CachedFolder>, url: &str) -> (r: Option<String>)
    ensures
        match url_serialization(url@) {
            None => r is None,
            Some(t) => match pick(folders@, bucket_key(host_bucket_of(url_host(t))), modified_key()) {
                Some(i) => r.deep_view() == Some(folders@[i].folder@),
                None => r is None,
            },
        },
{
    let w = match WebUrl::parse(url) {
        Some(w) => w,
        None => return None,
    };
    let bucket = host_bucket(&w);
    let r = newest_in_bucket(folders, bucket.as_str());
    proof {
        lemma_picks_is_pick(folders@, bucket_key(bucket@), modified_key(), r);
    }
    match r {
        Some(i) => Some(folders[i].folder.clone()),
        None => None,
    }
}

/// The file name under which a cached resource at `url` is looked up: the last
/// segment of its path, kept to name characters.
pub fn cached_resource_name(url: &str) -> (r: Option<String>)
    ensures
        match url_serialization(url@) {
            None => r is None,
            Some(t) => r.deep_view() == resource_name_of(url_path(t)),
        },
{
    match WebUrl::parse(url) {
        Some(w) => resource_file_name(w.path().as_str()),
        None => None,
    }
}

/// The file-system tiers never answer as the prefix tier.
pub proof fn lemma_folder_tiers_not_prefix(folders: Seq<CachedFolder>, n: Seq<char>)
    ensures
        !(folder_tiers(folders, n).0 && folder_tiers(folders, n).1 == CacheTier::Prefix),
{
}

/// Prefix matching is symmetric: with one snapshot stored for a site under the
/// canonical URL `A`, a request for `B` that the exact tier does not serve is
/// served by the prefix tier exactly when `A` is a prefix of the canonical form of
/// `B` or that form is a prefix of `A`.
pub proof fn lemma_prefix_tier_symmetric(snap: PageSnapshot, folders: Seq<CachedFolder>, b: Seq<char>)
    requires
        snap.url@ != normalized(b),
    ensures
        ({
            let r = resolution_of(seq![snap], folders, b, Some(snap.site_id), false);
            (r.0 && r.1 == CacheTier::Prefix) <==> prefix_related(snap.url@, normalized(b))
        }),
        prefix_related(snap.url@, normalized(b)) == prefix_related(normalized(b), snap.url@),
{
    let n = normalized(b);
    let snaps = seq![snap];
    assert(snaps[0] == snap);
    assert(picks(snaps, exact_key(snap.site_id, n), version_key(), None));
    lemma_picks_is_pick(snaps, exact_key(snap.site_id, n), version_key(), None);
    lemma_folder_tiers_not_prefix(folders, n);
    if prefix_related(snap.url@, n) {
        assert(picks(snaps, prefix_key(snap.site_id, n), version_key(), Some(0usize)));
        lemma_picks_is_pick(snaps, prefix_key(snap.site_id, n), version_key(), Some(0usize));
    } else {
        assert(picks(snaps, prefix_key(snap.site_id, n), version_key(), None));
        lemma_picks_is_pick(snaps, prefix_key(snap.site_id, n), version_key(), None);
    }
}

/// Once a capture of `u` has been saved for a site, a request for `u` on that site
/// without a forced refresh is served by the exact tier, with no fetch.
pub proof fn lemma_saved_page_served_exactly(
    snaps: Seq<PageSnapshot>,
    folders: Seq<CachedFolder>,
    u: Seq<char>,
    saved: PageSnapshot,
)
    requires
        snaps.len() < usize::MAX,
        saved.url@ == normalized(u),
    ensures
        ({
            let r = resolution_of(snaps.push(saved), folders, u, Some(saved.site_id), false);
            r.0 && r.1 == CacheTier::Exact
        }),
{
    let all = snaps.push(saved);
    assert(all[snaps.len() as int] == saved);
    lemma_pick_exists(all, exact_key(saved.site_id, normalized(u)), version_key(), snaps.len() as int);
}

} // verus!
