//! The incremental state store.
//!
//! A file-backed mapping from entry identifier to the last processed update
//! time and the produced artifact path. The store holds two snapshots: the
//! previous run's records, immutable once loaded, and the records written by
//! the current run. Per entry the store decides whether the entry is stale;
//! at shutdown the two snapshots are merged so that records never visited in
//! the current run survive.

use vstd::prelude::*;

use crate::bytestr::{bytes_eq, clone_bytes};
use crate::error::FeedError;

verus! {

/// One persisted record: an entry identifier, the artifact path produced for
/// it, and the update time the feed reported when it was processed.
pub struct SnapEntry {
    pub id: Vec<u8>,
    pub path: Vec<u8>,
    pub last_update: i64,
}

/// The mathematical value of one record.
#[verifier::ext_equal]
pub struct RecordV {
    pub path: Seq<u8>,
    pub last_update: int,
}

impl SnapEntry {
    pub open spec fn rec_v(&self) -> RecordV {
        RecordV { path: self.path@, last_update: self.last_update as int }
    }
}

/// A snapshot as a mapping from entry identifier to record. Later entries in
/// the sequence shadow earlier ones; well-formed snapshots have distinct ids.
pub open spec fn snap_view(s: Seq<SnapEntry>) -> Map<Seq<u8>, RecordV>
    decreases s.len(),
{
    if s.len() == 0 {
        Map::empty()
    } else {
        snap_view(s.drop_last()).insert(s.last().id@, s.last().rec_v())
    }
}

/// Distinctness of the identifiers in a snapshot.
pub open spec fn distinct_ids(s: Seq<SnapEntry>) -> bool {
    forall|i: int, j: int| 0 <= i < j < s.len() ==> s[i].id@ != s[j].id@
}

/// A key is in the view exactly when some record carries it.
pub proof fn lemma_snap_view_contains(s: Seq<SnapEntry>, k: Seq<u8>)
    ensures
        snap_view(s).contains_key(k) <==> exists|i: int| 0 <= i < s.len() && s[i].id@ == k,
    decreases s.len(),
{
    if s.len() > 0 {
        lemma_snap_view_contains(s.drop_last(), k);
        if s.last().id@ == k {
            assert(s[s.len() - 1].id@ == k);
        } else if snap_view(s).contains_key(k) {
            let i = choose|i: int| 0 <= i < s.drop_last().len() && s.drop_last()[i].id@ == k;
            assert(s[i].id@ == k);
        } else {
            assert(forall|i: int| 0 <= i < s.len() - 1 ==> s.drop_last()[i] == s[i]);
        }
    }
}

/// Appending a record whose id is fresh keeps the ids distinct and inserts
/// exactly that record into the view.
proof fn lemma_push_fresh(s: Seq<SnapEntry>, e: SnapEntry)
    requires
        distinct_ids(s),
        !snap_view(s).contains_key(e.id@),
    ensures
        distinct_ids(s.push(e)),
        snap_view(s.push(e)) == snap_view(s).insert(e.id@, e.rec_v()),
{
    lemma_snap_view_contains(s, e.id@);
    assert(s.push(e).drop_last() =~= s);
    let pushed = s.push(e);
    assert forall|x: int, y: int| 0 <= x < y < pushed.len() implies pushed[x].id@
        != pushed[y].id@ by {
        if y < s.len() {
            assert(pushed[x] == s[x] && pushed[y] == s[y]);
        } else {
            assert(pushed[x] == s[x] && pushed[y] == e);
            assert(forall|z: int| 0 <= z < s.len() ==> s[z].id@ != e.id@);
        }
    }
}

/// Find the position of a record by id, scanning from the end so that, even
/// without distinct ids, the record found is the one the view denotes.
fn find_record(s: &Vec<SnapEntry>, id: &Vec<u8>) -> (r: Option<usize>)
    ensures
        match r {
            Some(i) => i < s@.len() && s@[i as int].id@ == id@ && snap_view(s@).contains_key(id@)
                && snap_view(s@)[id@] == s@[i as int].rec_v(),
            None => !snap_view(s@).contains_key(id@),
        },
{
    let mut i = s.len();
    proof {
        assert(s@.subrange(0, s@.len() as int) =~= s@);
    }
    while i > 0
        invariant
            i <= s@.len(),
            snap_view(s@.subrange(0, i as int)).contains_key(id@) == snap_view(s@).contains_key(
                id@,
            ),
            snap_view(s@).contains_key(id@) ==> snap_view(s@.subrange(0, i as int))[id@]
                == snap_view(s@)[id@],
        decreases i,
    {
        i = i - 1;
        let prefix_len: Ghost<int> = Ghost(i + 1);
        proof {
            assert(s@.subrange(0, prefix_len@).last() == s@[i as int]);
            assert(s@.subrange(0, prefix_len@).drop_last() =~= s@.subrange(0, i as int));
            assert(snap_view(s@.subrange(0, prefix_len@)) == snap_view(
                s@.subrange(0, i as int),
            ).insert(s@[i as int].id@, s@[i as int].rec_v()));
        }
        if bytes_eq(&s[i].id, id) {
            return Some(i);
        }
    }
    proof {
        assert(s@.subrange(0, 0) =~= Seq::<SnapEntry>::empty());
        lemma_snap_view_contains(Seq::<SnapEntry>::empty(), id@);
    }
    None
}

/// The previous run's update time is at least what the feed now reports, or
/// the feed reports nothing: the entry is unchanged and its record is carried
/// forward without invoking the producer.
pub open spec fn spec_carry(prev: Map<Seq<u8>, RecordV>, id: Seq<u8>, updated: Option<int>) -> bool {
    prev.contains_key(id) && (updated is None || prev[id].last_update >= updated->0)
}

/// The update time recorded after a successful production: the feed's
/// reported time, or the current time when the feed reported none.
pub open spec fn resolve_time(updated: Option<int>, now: int) -> int {
    match updated {
        Some(u) => u,
        None => now,
    }
}

/// The effect of one `decide`-and-apply sequence on the new snapshot.
/// `outcome` is what the producer returned; when the entry is carried the
/// producer is never invoked, so the result does not depend on it.
pub open spec fn entry_step(
    prev: Map<Seq<u8>, RecordV>,
    new: Map<Seq<u8>, RecordV>,
    id: Seq<u8>,
    updated: Option<int>,
    outcome: Result<Seq<u8>, FeedError>,
    now: int,
) -> Map<Seq<u8>, RecordV> {
    if spec_carry(prev, id, updated) {
        new.insert(id, prev[id])
    } else {
        match outcome {
            Ok(path) => new.insert(
                id,
                RecordV { path: path, last_update: resolve_time(updated, now) },
            ),
            Err(_) => if prev.contains_key(id) {
                new.insert(id, prev[id])
            } else {
                new
            },
        }
    }
}

/// The state store: the previous run's snapshot, immutable after load, and
/// the snapshot the current run is writing.
pub struct StateStore {
    prev: Vec<SnapEntry>,
    new: Vec<SnapEntry>,
}

impl StateStore {
    /// The previous run's records, as a mapping.
    pub closed spec fn prev_map(&self) -> Map<Seq<u8>, RecordV> {
        snap_view(self.prev@)
    }

    /// The records decided in the current run, as a mapping.
    pub closed spec fn new_map(&self) -> Map<Seq<u8>, RecordV> {
        snap_view(self.new@)
    }

    pub closed spec fn wf(&self) -> bool {
        distinct_ids(self.prev@) && distinct_ids(self.new@)
    }

    /// Load the store from the records read out of the backing file; if the
    /// file held an id twice, the first occurrence wins. The new snapshot
    /// starts empty.
    pub fn from_records(records: Vec<SnapEntry>) -> (s: StateStore)
        ensures
            s.wf(),
            s.new_map() == Map::<Seq<u8>, RecordV>::empty(),
            s.prev_map() == load_view(records@),
    {
        let mut prev: Vec<SnapEntry> = Vec::new();
        let n = records.len();
        let mut i: usize = 0;
        while i < n
            invariant
                n == records@.len(),
                i <= n,
                distinct_ids(prev@),
                snap_view(prev@) == load_view(records@.subrange(0, i as int)),
            decreases n - i,
        {
            proof {
                assert(records@.subrange(0, i + 1).drop_last() =~= records@.subrange(0, i as int));
                assert(records@.subrange(0, i + 1).last() == records@[i as int]);
            }
            let rec = &records[i];
            match find_record(&prev, &rec.id) {
                Some(_) => {
                    proof {
                        assert(load_view(records@.subrange(0, i + 1)) == load_view(
                            records@.subrange(0, i as int),
                        ));
                    }
                },
                None => {
                    let copy = SnapEntry {
                        id: clone_bytes(&rec.id),
                        path: clone_bytes(&rec.path),
                        last_update: rec.last_update,
                    };
                    proof {
                        lemma_push_fresh(prev@, copy);
                        assert(copy.rec_v() =~= records@[i as int].rec_v());
                        assert(load_view(records@.subrange(0, i + 1)) == load_view(
                            records@.subrange(0, i as int),
                        ).insert(records@[i as int].id@, records@[i as int].rec_v()));
                    }
                    prev.push(copy);
                },
            }
            i = i + 1;
        }
        proof {
            assert(records@.subrange(0, n as int) =~= records@);
        }
        StateStore { prev, new: Vec::new() }
    }

    /// Decide whether the entry is unchanged: a prior record exists and the
    /// feed reports no newer update time (or none at all). A carried entry's
    /// producer is never invoked.
    pub fn decide(&self, id: &Vec<u8>, updated: Option<i64>) -> (carry: bool)
        ensures
            carry == spec_carry(self.prev_map(), id@, opt_int(updated)),
    {
        match find_record(&self.prev, id) {
            Some(i) => match updated {
                Some(u) => self.prev[i].last_update >= u,
                None => true,
            },
            None => false,
        }
    }

    /// Carry the prior record forward into the new snapshot, unmodified.
    pub fn apply_carry(&mut self, id: &Vec<u8>)
        requires
            old(self).wf(),
            old(self).prev_map().contains_key(id@),
            !old(self).new_map().contains_key(id@),
        ensures
            final(self).wf(),
            final(self).prev_map() == old(self).prev_map(),
            final(self).new_map() == old(self).new_map().insert(id@, old(self).prev_map()[id@]),
    {
        let i = match find_record(&self.prev, id) {
            Some(i) => i,
            None => {
                proof {
                    assert(false);
                }
                0
            },
        };
        let rec = SnapEntry {
            id: clone_bytes(&self.prev[i].id),
            path: clone_bytes(&self.prev[i].path),
            last_update: self.prev[i].last_update,
        };
        proof {
            lemma_push_fresh(self.new@, rec);
        }
        self.new.push(rec);
    }

    /// Record the producer's outcome for an entry that was not carried. On
    /// success a fresh record is inserted; on failure the prior record, if
    /// any, is preserved, and the failure propagates either way.
    pub fn apply_produce(
        &mut self,
        id: &Vec<u8>,
        updated: Option<i64>,
        outcome: Result<Vec<u8>, FeedError>,
        now: i64,
    ) -> (r: Result<(), FeedError>)
        requires
            old(self).wf(),
            !old(self).new_map().contains_key(id@),
            !spec_carry(old(self).prev_map(), id@, opt_int(updated)),
        ensures
            final(self).wf(),
            final(self).prev_map() == old(self).prev_map(),
            final(self).new_map() == entry_step(
                old(self).prev_map(),
                old(self).new_map(),
                id@,
                opt_int(updated),
                outcome_view(&outcome),
                now as int,
            ),
            r matches Ok(()) <==> outcome is Ok,
            r matches Err(e) ==> outcome matches Err(e2) && e == e2,
    {
        match outcome {
            Ok(path) => {
                let t = match updated {
                    Some(u) => u,
                    None => now,
                };
                let rec = SnapEntry { id: clone_bytes(id), path, last_update: t };
                proof {
                    lemma_push_fresh(self.new@, rec);
                }
                self.new.push(rec);
                Ok(())
            },
            Err(e) => {
                match find_record(&self.prev, id) {
                    Some(i) => {
                        let rec = SnapEntry {
                            id: clone_bytes(&self.prev[i].id),
                            path: clone_bytes(&self.prev[i].path),
                            last_update: self.prev[i].last_update,
                        };
                        proof {
                            lemma_push_fresh(self.new@, rec);
                        }
                        self.new.push(rec);
                    },
                    None => {},
                }
                Err(e)
            },
        }
    }

    /// Merge for shutdown: every key of the previous snapshot untouched in
    /// the current run survives into the merged snapshot; keys the run wrote
    /// take the run's value.
    pub fn into_merged(self) -> (snap: Vec<SnapEntry>)
        requires
            self.wf(),
        ensures
            distinct_ids(snap@),
            snap_view(snap@) == self.prev_map().union_prefer_right(self.new_map()),
    {
        let StateStore { prev, new } = self;
        let mut out = new;
        let ghost new_v = snap_view(out@);
        let n = prev.len();
        let mut i: usize = 0;
        while i < n
            invariant
                n == prev@.len(),
                i <= n,
                distinct_ids(prev@),
                distinct_ids(out@),
                snap_view(out@) == snap_view(prev@.subrange(0, i as int)).union_prefer_right(new_v),
            decreases n - i,
        {
            proof {
                assert(prev@.subrange(0, i + 1).drop_last() =~= prev@.subrange(0, i as int));
                assert(prev@.subrange(0, i + 1).last() == prev@[i as int]);
                assert(snap_view(prev@.subrange(0, i + 1)) == snap_view(
                    prev@.subrange(0, i as int),
                ).insert(prev@[i as int].id@, prev@[i as int].rec_v()));
                lemma_snap_view_contains(prev@.subrange(0, i as int), prev@[i as int].id@);
                assert(forall|x: int| 0 <= x < i ==> prev@.subrange(0, i as int)[x] == prev@[x]);
                assert(!snap_view(prev@.subrange(0, i as int)).contains_key(prev@[i as int].id@));
            }
            let rec = &prev[i];
            match find_record(&out, &rec.id) {
                Some(_) => {
                    proof {
                        assert(new_v.contains_key(rec.id@));
                        lemma_union_absorb(
                            snap_view(prev@.subrange(0, i as int)),
                            new_v,
                            rec.id@,
                            rec.rec_v(),
                        );
                        assert(snap_view(out@) == snap_view(
                            prev@.subrange(0, i + 1),
                        ).union_prefer_right(new_v));
                    }
                },
                None => {
                    proof {
                        assert(!new_v.contains_key(rec.id@));
                        lemma_union_insert_left(
                            snap_view(prev@.subrange(0, i as int)),
                            new_v,
                            rec.id@,
                            rec.rec_v(),
                        );
                    }
                    let copy = SnapEntry {
                        id: clone_bytes(&rec.id),
                        path: clone_bytes(&rec.path),
                        last_update: rec.last_update,
                    };
                    proof {
                        lemma_push_fresh(out@, copy);
                        assert(copy.rec_v() =~= prev@[i as int].rec_v());
                        assert(snap_view(out@.push(copy)) =~= snap_view(
                            prev@.subrange(0, i + 1),
                        ).union_prefer_right(new_v));
                    }
                    out.push(copy);
                },
            }
            i = i + 1;
        }
        proof {
            assert(prev@.subrange(0, n as int) =~= prev@);
        }
        out
    }
}

/// First-occurrence-wins view of a raw record list, as loaded from disk.
pub open spec fn load_view(s: Seq<SnapEntry>) -> Map<Seq<u8>, RecordV>
    decreases s.len(),
{
    if s.len() == 0 {
        Map::empty()
    } else {
        let m = load_view(s.drop_last());
        if m.contains_key(s.last().id@) {
            m
        } else {
            m.insert(s.last().id@, s.last().rec_v())
        }
    }
}

/// The mathematical value of an optional update time.
pub open spec fn opt_int(u: Option<i64>) -> Option<int> {
    match u {
        Some(v) => Some(v as int),
        None => None,
    }
}

/// The mathematical value of a producer outcome.
pub open spec fn outcome_view(o: &Result<Vec<u8>, FeedError>) -> Result<Seq<u8>, FeedError> {
    match o {
        Ok(p) => Ok(p@),
        Err(e) => Err(*e),
    }
}

/// One entry of a run, at the level of the state store: its identifier, the
/// update time the feed reported, what the producer returned when it was
/// invoked, and the time the run would use when the feed reported none.
pub struct EntryRun {
    pub id: Seq<u8>,
    pub updated: Option<int>,
    pub outcome: Result<Seq<u8>, FeedError>,
    pub now: int,
}

/// The new snapshot a run builds by deciding every entry of a feed in order,
/// starting from an empty new snapshot.
pub open spec fn run_feed(prev: Map<Seq<u8>, RecordV>, es: Seq<EntryRun>) -> Map<Seq<u8>, RecordV>
    decreases es.len(),
{
    if es.len() == 0 {
        Map::empty()
    } else {
        entry_step(
            prev,
            run_feed(prev, es.drop_last()),
            es.last().id,
            es.last().updated,
            es.last().outcome,
            es.last().now,
        )
    }
}

/// The snapshot persisted at shutdown: the run's records, with every key of
/// the previous snapshot the run never touched carried over.
pub open spec fn final_snapshot(prev: Map<Seq<u8>, RecordV>, es: Seq<EntryRun>) -> Map<
    Seq<u8>,
    RecordV,
> {
    prev.union_prefer_right(run_feed(prev, es))
}

/// Each entry appears at most once per run.
pub open spec fn distinct_run_ids(es: Seq<EntryRun>) -> bool {
    forall|i: int, j: int| 0 <= i < j < es.len() ==> es[i].id != es[j].id
}

/// For every entry with a prior record that the feed does not report as
/// updated, the producer's outcome is irrelevant — it is never invoked — and
/// the prior record is carried into the new snapshot unmodified.
pub proof fn law_unchanged_entry_carried(
    prev: Map<Seq<u8>, RecordV>,
    new: Map<Seq<u8>, RecordV>,
    id: Seq<u8>,
    updated: Option<int>,
    o1: Result<Seq<u8>, FeedError>,
    o2: Result<Seq<u8>, FeedError>,
    now1: int,
    now2: int,
)
    requires
        spec_carry(prev, id, updated),
    ensures
        entry_step(prev, new, id, updated, o1, now1) == entry_step(prev, new, id, updated, o2, now2),
        entry_step(prev, new, id, updated, o1, now1).contains_key(id),
        entry_step(prev, new, id, updated, o1, now1)[id] == prev[id],
{
}

/// For every entry whose production fails: with a prior record the new
/// snapshot holds that record unmodified; without one the entry is absent
/// from the new snapshot.
pub proof fn law_failed_produce_preserves_prior(
    prev: Map<Seq<u8>, RecordV>,
    new: Map<Seq<u8>, RecordV>,
    id: Seq<u8>,
    updated: Option<int>,
    e: FeedError,
    now: int,
)
    requires
        !new.contains_key(id),
    ensures
        prev.contains_key(id) ==> {
            &&& entry_step(prev, new, id, updated, Err(e), now).contains_key(id)
            &&& entry_step(prev, new, id, updated, Err(e), now)[id] == prev[id]
        },
        !prev.contains_key(id) ==> !entry_step(prev, new, id, updated, Err(e), now).contains_key(id),
{
}

/// After a run in which every producer invocation succeeded, the run's
/// snapshot holds every entry of the feed, with an update time at least what
/// the feed reported.
proof fn lemma_run_all_ok_fresh(prev: Map<Seq<u8>, RecordV>, es: Seq<EntryRun>, i: int)
    requires
        distinct_run_ids(es),
        forall|j: int| 0 <= j < es.len() ==> (#[trigger] es[j]).outcome is Ok,
        0 <= i < es.len(),
    ensures
        run_feed(prev, es).contains_key(es[i].id),
        es[i].updated matches Some(u) ==> run_feed(prev, es)[es[i].id].last_update >= u,
    decreases es.len(),
{
    let m = run_feed(prev, es.drop_last());
    let last = es.last();
    if i == es.len() - 1 {
        if spec_carry(prev, last.id, last.updated) {
        } else {
            assert(last.outcome is Ok);
        }
    } else {
        assert(distinct_run_ids(es.drop_last())) by {
            assert(forall|x: int, y: int|
                0 <= x < y < es.drop_last().len() ==> es.drop_last()[x] == es[x]
                    && es.drop_last()[y] == es[y]);
        }
        assert(forall|j: int| 0 <= j < es.drop_last().len() ==> (#[trigger] es.drop_last()[j])
            == es[j]);
        lemma_run_all_ok_fresh(prev, es.drop_last(), i);
        assert(es.drop_last()[i] == es[i]);
        assert(last.id != es[i].id);
    }
}

/// When every entry of the feed is carried, the run's snapshot is a submap
/// of the previous one.
proof fn lemma_run_carries_submap(prevm: Map<Seq<u8>, RecordV>, es: Seq<EntryRun>)
    requires
        forall|i: int| 0 <= i < es.len() ==> spec_carry(prevm, (#[trigger] es[i]).id, es[i].updated),
    ensures
        forall|k: Seq<u8>| #[trigger] run_feed(prevm, es).contains_key(k) ==> prevm.contains_key(k)
            && run_feed(prevm, es)[k] == prevm[k],
    decreases es.len(),
{
    if es.len() > 0 {
        assert(forall|j: int| 0 <= j < es.drop_last().len() ==> (#[trigger] es.drop_last()[j])
            == es[j]);
        lemma_run_carries_submap(prevm, es.drop_last());
        assert(es[es.len() - 1] == es.last());
        assert(spec_carry(prevm, es.last().id, es.last().updated));
        let m = run_feed(prevm, es.drop_last());
        assert(run_feed(prevm, es) == m.insert(es.last().id, prevm[es.last().id]));
        assert forall|k: Seq<u8>| #[trigger] run_feed(prevm, es).contains_key(k) implies
            prevm.contains_key(k) && run_feed(prevm, es)[k] == prevm[k] by {
            if k == es.last().id {
            } else {
                assert(m.contains_key(k));
            }
        }
    }
}

/// Idempotence of the pipeline at the state store: after a run in which every
/// entry either was carried or was produced successfully, a second run
/// against the unchanged feed carries every entry — the producer is invoked
/// for none of them — and persists a snapshot equal to the first run's.
pub proof fn law_second_run_identical(
    prev: Map<Seq<u8>, RecordV>,
    es1: Seq<EntryRun>,
    es2: Seq<EntryRun>,
)
    requires
        distinct_run_ids(es1),
        es2.len() == es1.len(),
        forall|i: int| 0 <= i < es1.len() ==> (#[trigger] es2[i]).id == es1[i].id && es2[i].updated
            == es1[i].updated,
        forall|i: int| 0 <= i < es1.len() ==> (#[trigger] es1[i]).outcome is Ok,
    ensures
        forall|i: int| 0 <= i < es2.len() ==> spec_carry(
            final_snapshot(prev, es1),
            (#[trigger] es2[i]).id,
            es2[i].updated,
        ),
        final_snapshot(final_snapshot(prev, es1), es2) == final_snapshot(prev, es1),
{
    let snap1 = final_snapshot(prev, es1);
    let run1 = run_feed(prev, es1);
    assert forall|i: int| 0 <= i < es2.len() implies spec_carry(
        snap1,
        (#[trigger] es2[i]).id,
        es2[i].updated,
    ) by {
        lemma_run_all_ok_fresh(prev, es1, i);
        assert(snap1[es1[i].id] == run1[es1[i].id]);
    }
    lemma_run_carries_submap(snap1, es2);
    assert(final_snapshot(snap1, es2) =~= snap1);
}

proof fn lemma_union_absorb(
    a: Map<Seq<u8>, RecordV>,
    b: Map<Seq<u8>, RecordV>,
    k: Seq<u8>,
    v: RecordV,
)
    requires
        b.contains_key(k),
    ensures
        a.insert(k, v).union_prefer_right(b) == a.union_prefer_right(b),
{
    assert(a.insert(k, v).union_prefer_right(b) =~= a.union_prefer_right(b));
}

proof fn lemma_union_insert_left(
    a: Map<Seq<u8>, RecordV>,
    b: Map<Seq<u8>, RecordV>,
    k: Seq<u8>,
    v: RecordV,
)
    requires
        !b.contains_key(k),
    ensures
        a.insert(k, v).union_prefer_right(b) == a.union_prefer_right(b).insert(k, v),
{
    assert(a.insert(k, v).union_prefer_right(b) =~= a.union_prefer_right(b).insert(k, v));
}

} // verus!
