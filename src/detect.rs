//! The update detector: classifies freshly extracted records against the stored
//! ones by their `updated_at` instants, and keeps the store in step.

use vstd::prelude::*;
use crate::model::{copy_opt, Mod, ModUpdate};

verus! {

/// What the detector makes of one candidate record.
#[derive(PartialEq, Eq, Structural, Clone, Copy, Debug)]
pub enum Classification {
    /// Its URL has not been seen: store it, report nothing.
    New,
    /// It is strictly later than the stored record: overwrite and report.
    Updated,
    /// It is not later: leave the store alone.
    Unchanged,
}

/// The candidate is strictly later than what is stored.
pub open spec fn is_later(candidate: Mod, stored: Mod) -> bool {
    candidate.updated_at > stored.updated_at
}

/// The classification of `candidate` given the record stored under its URL.
pub open spec fn classification_of(stored: Option<Mod>, candidate: Mod) -> Classification {
    match stored {
        None => Classification::New,
        Some(s) => if is_later(candidate, s) {
            Classification::Updated
        } else {
            Classification::Unchanged
        },
    }
}

/// The stored record with its mutable fields taken from the candidate; identity,
/// site and creation instant stay.
pub open spec fn merged(stored: Mod, candidate: Mod) -> Mod {
    Mod {
        id: stored.id,
        site_id: stored.site_id,
        title: candidate.title,
        url: stored.url,
        version: candidate.version,
        author: candidate.author,
        description: candidate.description,
        image_url: candidate.image_url,
        changes: candidate.changes,
        created_at: stored.created_at,
        updated_at: candidate.updated_at,
    }
}

/// The event that reports `candidate` as an update of `stored`.
pub open spec fn update_event(stored: Mod, candidate: Mod, site_id: i64) -> ModUpdate {
    ModUpdate {
        mod_id: stored.id,
        site_id: site_id,
        old_version: stored.version,
        new_version: candidate.version,
        changes: candidate.changes,
    }
}

/// Classifies one candidate against the record stored under its URL, if any.
pub fn classify(stored: Option<&Mod>, candidate: &Mod) -> (r: Classification)
    ensures
        r == classification_of(
            match stored {
                Some(s) => Some(*s),
                None => None,
            },
            *candidate,
        ),
{
    match stored {
        None => Classification::New,
        Some(s) => if candidate.updated_at > s.updated_at {
            Classification::Updated
        } else {
            Classification::Unchanged
        },
    }
}

/// The stored record overwritten with the candidate's mutable fields.
pub fn merge_update(stored: &Mod, candidate: &Mod) -> (r: Mod)
    ensures
        r == merged(*stored, *candidate),
{
    Mod {
        id: stored.id,
        site_id: stored.site_id,
        title: candidate.title.clone(),
        url: stored.url.clone(),
        version: copy_opt(&candidate.version),
        author: copy_opt(&candidate.author),
        description: copy_opt(&candidate.description),
        image_url: copy_opt(&candidate.image_url),
        changes: copy_opt(&candidate.changes),
        created_at: stored.created_at,
        updated_at: candidate.updated_at,
    }
}

/// The change event for an update of `stored` by `candidate`.
pub fn change_event(stored: &Mod, candidate: &Mod, site_id: i64) -> (r: ModUpdate)
    ensures
        r == update_event(*stored, *candidate, site_id),
{
    ModUpdate {
        mod_id: stored.id,
        site_id: site_id,
        old_version: copy_opt(&stored.version),
        new_version: copy_opt(&candidate.version),
        changes: copy_opt(&candidate.changes),
    }
}

/// The position of the record stored under `url`, if any.
pub open spec fn position_of(records: Seq<Mod>, url: Seq<char>) -> Option<int>
    decreases records.len(),
{
    if records.len() == 0 {
        None
    } else if records.last().url@ == url {
        Some(records.len() - 1)
    } else {
        position_of(records.drop_last(), url)
    }
}

/// A position found is a position of the sequence.
pub proof fn lemma_position_in_range(records: Seq<Mod>, url: Seq<char>)
    ensures
        position_of(records, url) matches Some(k) ==> 0 <= k < records.len() && records[k].url@ == url,
    decreases records.len(),
{
    if records.len() > 0 && records.last().url@ != url {
        lemma_position_in_range(records.drop_last(), url);
    }
}

/// The candidate as it is stored on first sight, under the identity `id`.
pub open spec fn as_new(candidate: Mod, id: i64) -> Mod {
    Mod { id: id, ..candidate }
}

/// The store, the next free identity and the events after the detector has
/// processed one more candidate.
pub open spec fn detect_step(state: (Seq<Mod>, int, Seq<ModUpdate>), c: Mod, site_id: i64) -> (
    Seq<Mod>,
    int,
    Seq<ModUpdate>,
) {
    let (recs, nid, events) = state;
    match position_of(recs, c.url@) {
        None => (recs.push(as_new(c, nid as i64)), nid + 1, events),
        Some(k) => if is_later(c, recs[k]) {
            (recs.update(k, merged(recs[k], c)), nid, events.push(update_event(recs[k], c, site_id)))
        } else {
            (recs, nid, events)
        },
    }
}

/// The store, the next free identity and the events after the detector has
/// processed `candidates` in order.
pub open spec fn detect_run(records: Seq<Mod>, next_id: int, candidates: Seq<Mod>, site_id: i64) -> (
    Seq<Mod>,
    int,
    Seq<ModUpdate>,
)
    decreases candidates.len(),
{
    if candidates.len() == 0 {
        (records, next_id, Seq::empty())
    } else {
        detect_step(detect_run(records, next_id, candidates.drop_last(), site_id), candidates.last(), site_id)
    }
}

/// A candidate whose URL is stored yields an update event exactly when its
/// `updated_at` is strictly later than the stored one; an equal or earlier instant
/// yields no event and leaves the store as it was.
pub proof fn lemma_update_iff_strictly_later(records: Seq<Mod>, next_id: int, c: Mod, site_id: i64)
    requires
        position_of(records, c.url@) is Some,
    ensures
        ({
            let k = position_of(records, c.url@)->0;
            let (recs, nid, events) = detect_run(records, next_id, seq![c], site_id);
            &&& events.len() == 1 <==> c.updated_at > records[k].updated_at
            &&& events.len() == 1 ==> events[0] == update_event(records[k], c, site_id)
                && recs == records.update(k, merged(records[k], c))
            &&& events.len() == 0 ==> recs == records
            &&& events.len() <= 1
            &&& nid == next_id
        }),
{
    lemma_position_in_range(records, c.url@);
    assert(seq![c].drop_last() =~= Seq::<Mod>::empty());
    assert(seq![c].last() == c);
    assert(detect_run(records, next_id, Seq::<Mod>::empty(), site_id) == (records, next_id, Seq::<ModUpdate>::empty()));
}

/// A candidate whose URL has never been seen produces no event, and is stored under
/// the next identity.
pub proof fn lemma_first_sight_is_silent(records: Seq<Mod>, next_id: int, c: Mod, site_id: i64)
    requires
        position_of(records, c.url@) is None,
    ensures
        detect_run(records, next_id, seq![c], site_id) == (records.push(as_new(c, next_id as i64)), next_id + 1, Seq::<ModUpdate>::empty()),
{
    lemma_position_in_range(records, c.url@);
    assert(seq![c].drop_last() =~= Seq::<Mod>::empty());
    assert(seq![c].last() == c);
    assert(detect_run(records, next_id, Seq::<Mod>::empty(), site_id) == (records, next_id, Seq::<ModUpdate>::empty()));
}

/// Each candidate takes at most one fresh identity.
pub proof fn lemma_detect_run_ids(records: Seq<Mod>, next_id: int, candidates: Seq<Mod>, site_id: i64)
    ensures
        next_id <= detect_run(records, next_id, candidates, site_id).1 <= next_id + candidates.len(),
    decreases candidates.len(),
{
    if candidates.len() > 0 {
        lemma_detect_run_ids(records, next_id, candidates.drop_last(), site_id);
    }
}

/// An in-memory record store keyed by URL.
pub struct RecordStore {
    records: Vec<Mod>,
    next_id: i64,
}

impl View for RecordStore {
    type V = Seq<Mod>;

    closed spec fn view(&self) -> Seq<Mod> {
        self.records@
    }
}

impl RecordStore {
    /// The next identity that an insert hands out.
    pub closed spec fn next_id(&self) -> int {
        self.next_id as int
    }

    /// The identities handed out so far are positive and below the next one.
    pub closed spec fn wf(&self) -> bool {
        &&& self.next_id >= 1
        &&& forall|i: int| 0 <= i < self.records@.len() ==> 1 <= #[trigger] self.records@[i].id < self.next_id
    }

    /// An empty store.
    pub fn new() -> (r: RecordStore)
        ensures
            r.wf(),
            r@ == Seq::<Mod>::empty(),
            r.next_id() == 1,
    {
        RecordStore { records: Vec::new(), next_id: 1 }
    }

    /// The stored records.
    pub fn records(&self) -> (r: &Vec<Mod>)
        ensures
            r@ == self@,
    {
        &self.records
    }

    /// The position of the record stored under `url`, if any.
    pub fn find(&self, url: &String) -> (r: Option<usize>)
        ensures
            match r {
                Some(k) => position_of(self@, url@) == Some(k as int) && k < self@.len(),
                None => position_of(self@, url@) is None,
            },
    {
        proof {
            lemma_position_in_range(self@, url@);
        }
        let mut i = self.records.len();
        assert(self@.subrange(0, i as int) == self@);
        while i > 0
            invariant
                i <= self.records@.len(),
                position_of(self@, url@) == position_of(self@.subrange(0, i as int), url@),
            decreases i,
        {
            let ghost pre = self@.subrange(0, i as int);
            assert(pre.drop_last() == self@.subrange(0, i - 1));
            if self.records[i - 1].url == *url {
                return Some(i - 1);
            }
            i = i - 1;
        }
        None
    }

    /// Looks up the record stored under `url`.
    pub fn get_by_url(&self, url: &String) -> (r: Option<&Mod>)
        ensures
            match r {
                Some(m) => position_of(self@, url@) matches Some(k) && 0 <= k < self@.len() && *m == self@[k],
                None => position_of(self@, url@) is None,
            },
    {
        proof {
            lemma_position_in_range(self@, url@);
        }
        match self.find(url) {
            Some(k) => {
                Some(&self.records[k])
            },
            None => None,
        }
    }

    /// Stores `m` as a new record under the next identity, unless a record is already
    /// stored under its URL; returns the identity given.
    pub fn put(&mut self, m: &Mod) -> (r: Option<i64>)
        requires
            old(self).wf(),
            old(self).next_id() < i64::MAX,
        ensures
            final(self).wf(),
            position_of(old(self)@, m.url@) is Some ==> r is None && final(self)@ == old(self)@
                && final(self).next_id() == old(self).next_id(),
            position_of(old(self)@, m.url@) is None ==> r == Some(old(self).next_id() as i64)
                && final(self)@ == old(self)@.push(as_new(*m, old(self).next_id() as i64))
                && final(self).next_id() == old(self).next_id() + 1,
    {
        match self.find(&m.url) {
            Some(_) => None,
            None => {
                let id = self.next_id;
                let mut fresh = m.copy();
                fresh.id = id;
                self.records.push(fresh);
                self.next_id = self.next_id + 1;
                assert(self@ == old(self)@.push(as_new(*m, id)));
                Some(id)
            },
        }
    }

    /// Overwrites the mutable fields of the record with identity `id` from `m`;
    /// `false` where no record has that identity.
    pub fn update(&mut self, id: i64, m: &Mod) -> (r: bool)
        requires
            old(self).wf(),
        ensures
            final(self).wf(),
            final(self).next_id() == old(self).next_id(),
            r == exists|k: int| 0 <= k < old(self)@.len() && (#[trigger] old(self)@[k]).id == id,
            !r ==> final(self)@ == old(self)@,
            r ==> exists|k: int|
                0 <= k < old(self)@.len() && (#[trigger] old(self)@[k]).id == id && final(self)@ == old(self)@.update(
                    k,
                    merged(old(self)@[k], *m),
                ),
    {
        let mut i: usize = 0;
        while i < self.records.len()
            invariant
                i <= self@.len(),
                self == old(self),
                self.wf(),
                forall|k: int| 0 <= k < i ==> (#[trigger] self@[k]).id != id,
            decreases self@.len() - i,
        {
            if self.records[i].id == id {
                let merged_record = merge_update(&self.records[i], m);
                self.records.set(i, merged_record);
                assert(self@ == old(self)@.update(i as int, merged(old(self)@[i as int], *m)));
                return true;
            }
            i = i + 1;
        }
        false
    }

    /// Runs the detector over `candidates` in order: first sights are stored under
    /// fresh identities and reported by nothing; strictly later candidates overwrite
    /// the stored record and are reported; the rest change nothing.
    pub fn detect(&mut self, candidates: &Vec<Mod>, site_id: i64) -> (r: Vec<ModUpdate>)
        requires
            old(self).wf(),
            old(self).next_id() + candidates@.len() <= i64::MAX,
        ensures
            final(self).wf(),
            (final(self)@, final(self).next_id(), r@) == detect_run(old(self)@, old(self).next_id(), candidates@, site_id),
            old(self).next_id() <= final(self).next_id() <= old(self).next_id() + candidates@.len(),
    {
        proof {
            lemma_detect_run_ids(old(self)@, old(self).next_id(), candidates@, site_id);
        }
        let mut events: Vec<ModUpdate> = Vec::new();
        let mut i: usize = 0;
        while i < candidates.len()
            invariant
                self.wf(),
                i <= candidates@.len(),
                self.next_id() + (candidates@.len() - i) <= i64::MAX,
                (self@, self.next_id(), events@) == detect_run(old(self)@, old(self).next_id(), candidates@.subrange(0, i as int), site_id),
            decreases candidates@.len() - i,
        {
            let c = &candidates[i];
            let ghost before = (self@, self.next_id(), events@);
            proof {
                lemma_position_in_range(self@, c.url@);
            }
            let ghost prefix = candidates@.subrange(0, i + 1);
            assert(prefix.drop_last() == candidates@.subrange(0, i as int));
            assert(prefix.last() == *c);
            match self.find(&c.url) {
                None => {
                    let mut m = c.copy();
                    m.id = self.next_id;
                    self.records.push(m);
                    self.next_id = self.next_id + 1;
                    assert(self.records@.last().id == self.next_id - 1);
                    assert(self@ == before.0.push(as_new(*c, before.1 as i64)));
                },
                Some(k) => {
                    if c.updated_at > self.records[k].updated_at {
                        let e = change_event(&self.records[k], c, site_id);
                        let m = merge_update(&self.records[k], c);
                        self.records.set(k, m);
                        events.push(e);
                        assert(self@ == before.0.update(k as int, merged(before.0[k as int], *c)));
                    }
                },
            }
            assert((self@, self.next_id(), events@) == detect_step(before, *c, site_id));
            i = i + 1;
        }
        assert(candidates@.subrange(0, i as int) == candidates@);
        events
    }
}

} // verus!
