use vstd::prelude::*;

use crate::entry::LogEntry;
use crate::entry::Timestamp;
use crate::filter::spec_accepts;
use crate::filter::Filter;

verus! {

/// How many entries the ingestion buffer may hold before a flush.
pub const FLUSH_THRESHOLD: usize = 1024;

/// The largest batch one bulk insert may persist; callers split
/// larger batches (the underlying engine's parameter-count limit).
pub const MAX_BATCH: usize = 16383;

/// How many rows a search returns at most, keeping the most recent.
pub const RESULT_LIMIT: usize = 100;

/// The full-text-indexed row of one entry: its service and message,
/// keyed by an opaque sequence id.
pub struct ContentRecord {
    pub id: u64,
    pub service: String,
    pub message: String,
}

/// The metadata row of one entry: hostname and timestamp, keyed by the
/// same sequence id and referencing its content row.
pub struct EnvelopeRecord {
    pub id: u64,
    pub hostname: String,
    pub timestamp: Timestamp,
    pub content_id: u64,
}

/// The log store: two coupled record tables written together in one
/// atomic unit per batch, and an ingestion buffer that is flushed when
/// it exceeds its threshold and before every search.
pub struct LogDatabase {
    content: Vec<ContentRecord>,
    envelopes: Vec<EnvelopeRecord>,
    buffer: Vec<LogEntry>,
}

/// `a` is no newer than `b`.
pub open spec fn ts_le(a: LogEntry, b: LogEntry) -> bool {
    a.timestamp.micros <= b.timestamp.micros
}

/// Non-strictly ascending timestamps.
pub open spec fn sorted_by_ts(s: Seq<LogEntry>) -> bool {
    forall|i: int, j: int| 0 <= i <= j < s.len() ==> ts_le(s[i], s[j])
}

/// `e` placed after every element of the sorted sequence `s` that is no
/// newer than it (a stable insertion).
pub open spec fn insert_ts(s: Seq<LogEntry>, e: LogEntry) -> Seq<LogEntry>
    decreases s.len(),
{
    if s.len() == 0 {
        seq![e]
    } else if ts_le(s.last(), e) {
        s.push(e)
    } else {
        insert_ts(s.drop_last(), e).push(s.last())
    }
}

/// Stable insertion sort by timestamp: entries with equal timestamps
/// keep their relative order.
pub open spec fn sort_by_ts(s: Seq<LogEntry>) -> Seq<LogEntry>
    decreases s.len(),
{
    if s.len() == 0 {
        Seq::empty()
    } else {
        insert_ts(sort_by_ts(s.drop_last()), s.last())
    }
}

/// The subsequence of `s` the filter accepts, in the order of `s`.
pub open spec fn matching(s: Seq<LogEntry>, f: Filter) -> Seq<LogEntry>
    decreases s.len(),
{
    if s.len() == 0 {
        Seq::empty()
    } else if spec_accepts(f, s.last()) {
        matching(s.drop_last(), f).push(s.last())
    } else {
        matching(s.drop_last(), f)
    }
}

/// The last `n` elements of `s`, or all of `s` if it is shorter.
pub open spec fn capped(s: Seq<LogEntry>, n: int) -> Seq<LogEntry> {
    if s.len() <= n {
        s
    } else {
        s.subrange(s.len() - n, s.len() as int)
    }
}

impl LogDatabase {
    /// Every envelope row is paired with exactly one content row under
    /// the same sequence id, written in the same atomic unit; ids are
    /// assigned in strictly increasing order and never reused; the
    /// ingestion buffer never exceeds its flush threshold.
    pub closed spec fn well_formed(self) -> bool {
        &&& self.content@.len() == self.envelopes@.len()
        &&& forall|i: int|
            0 <= i < self.content@.len() ==> (#[trigger] self.content@[i]).id == i as u64
        &&& forall|i: int|
            0 <= i < self.envelopes@.len() ==> (#[trigger] self.envelopes@[i]).id == i as u64
                && self.envelopes@[i].content_id == i as u64
        &&& self.buffer@.len() <= FLUSH_THRESHOLD
    }

    /// The durably persisted entries, in insertion order.
    pub closed spec fn persisted(self) -> Seq<LogEntry> {
        Seq::new(
            self.envelopes@.len(),
            |i: int|
                LogEntry {
                    message: self.content@[i].message,
                    hostname: self.envelopes@[i].hostname,
                    service: self.content@[i].service,
                    timestamp: self.envelopes@[i].timestamp,
                },
        )
    }

    /// The entries awaiting a durability flush, oldest first.
    pub closed spec fn buffered(self) -> Seq<LogEntry> {
        self.buffer@
    }

    /// An empty store with an empty ingestion buffer.
    pub fn new() -> (r: LogDatabase)
        ensures
            r.well_formed(),
            r.persisted().len() == 0,
            r.buffered().len() == 0,
    {
        LogDatabase { content: Vec::new(), envelopes: Vec::new(), buffer: Vec::new() }
    }

    /// Persist a batch as one atomic unit: for each entry a content row
    /// and its envelope row under one fresh sequence id. An empty batch
    /// changes nothing at all. The buffer is untouched.
    pub fn insert_logs(&mut self, entries: &Vec<LogEntry>)
        requires
            old(self).well_formed(),
            entries@.len() < MAX_BATCH,
        ensures
            final(self).well_formed(),
            final(self).persisted() == old(self).persisted() + entries@,
            final(self).buffered() == old(self).buffered(),
            entries@.len() == 0 ==> *final(self) == *old(self),
    {
        if entries.len() == 0 {
            assert(old(self).persisted() + entries@ =~= old(self).persisted());
            return;
        }
        let ghost orig = *self;
        assert(orig.persisted() + entries@.subrange(0, 0) =~= orig.persisted());
        let mut k: usize = 0;
        while k < entries.len()
            invariant
                0 <= k <= entries@.len(),
                self.well_formed(),
                orig.well_formed(),
                self.persisted() == orig.persisted() + entries@.subrange(0, k as int),
                self.buffer@ == orig.buffer@,
            decreases entries@.len() - k,
        {
            let ghost pre = *self;
            let e = &entries[k];
            let id = self.content.len() as u64;
            self.content.push(
                ContentRecord { id, service: e.service.clone(), message: e.message.clone() },
            );
            self.envelopes.push(
                EnvelopeRecord {
                    id,
                    hostname: e.hostname.clone(),
                    timestamp: e.timestamp,
                    content_id: id,
                },
            );
            proof {
                let now = self.persisted();
                let want = orig.persisted() + entries@.subrange(0, k + 1);
                assert(self.envelopes@ == pre.envelopes@.push(self.envelopes@.last()));
                assert(now.len() == pre.envelopes@.len() + 1);
                assert(pre.persisted() == orig.persisted() + entries@.subrange(0, k as int));
                assert(pre.persisted().len() == orig.persisted().len() + k);
                assert(pre.persisted().len() == pre.envelopes@.len());
                assert(want.len() == orig.persisted().len() + k + 1);
                assert(now.len() == want.len());
                assert forall|m: int| 0 <= m < now.len() implies now[m] == want[m] by {
                    if m < now.len() - 1 {
                        assert(now[m] == pre.persisted()[m]);
                        assert(pre.persisted()[m] == want[m]);
                    } else {
                        assert(m == orig.persisted().len() + k);
                        assert(now[m] == entries@[k as int]);
                        assert(want[m] == entries@.subrange(0, k + 1)[k as int]);
                    }
                }
                assert(now =~= want);
            }
            k = k + 1;
        }
        assert(entries@.subrange(0, entries@.len() as int) =~= entries@);
    }

    /// Durably persist everything buffered, leaving the buffer empty.
    pub fn sync_logs(&mut self)
        requires
            old(self).well_formed(),
        ensures
            final(self).well_formed(),
            final(self).persisted() == old(self).persisted() + old(self).buffered(),
            final(self).buffered().len() == 0,
    {
        let mut moved: Vec<LogEntry> = Vec::new();
        core::mem::swap(&mut moved, &mut self.buffer);
        self.insert_logs(&moved);
    }

    /// Buffer one entry; once the buffer exceeds its flush threshold it
    /// is persisted as one batch and emptied.
    pub fn add_log(&mut self, entry: LogEntry)
        requires
            old(self).well_formed(),
        ensures
            final(self).well_formed(),
            old(self).buffered().len() < FLUSH_THRESHOLD ==> final(self).persisted() == old(
                self,
            ).persisted() && final(self).buffered() == old(self).buffered().push(entry),
            old(self).buffered().len() == FLUSH_THRESHOLD ==> final(self).persisted() == old(
                self,
            ).persisted() + old(self).buffered().push(entry) && final(self).buffered().len() == 0,
    {
        self.buffer.push(entry);
        if self.buffer.len() > FLUSH_THRESHOLD {
            let mut moved: Vec<LogEntry> = Vec::new();
            core::mem::swap(&mut moved, &mut self.buffer);
            self.insert_logs(&moved);
        }
    }

    /// The greatest timestamp across all persisted entries, or nothing
    /// if none is persisted yet. Buffered entries do not count.
    pub fn last_timestamp(&self) -> (r: Option<Timestamp>)
        requires
            self.well_formed(),
        ensures
            r is None <==> self.persisted().len() == 0,
            r matches Some(t) ==> (exists|i: int|
                0 <= i < self.persisted().len() && self.persisted()[i].timestamp == t) && (forall|
                i: int,
            |
                0 <= i < self.persisted().len() ==> self.persisted()[i].timestamp.micros
                    <= t.micros),
    {
        if self.envelopes.len() == 0 {
            return None;
        }
        let mut best: Timestamp = self.envelopes[0].timestamp;
        let ghost mut witness: int = 0;
        let mut i: usize = 1;
        while i < self.envelopes.len()
            invariant
                self.well_formed(),
                1 <= i <= self.envelopes@.len(),
                0 <= witness < i,
                self.persisted()[witness].timestamp == best,
                forall|k: int| 0 <= k < i ==> self.persisted()[k].timestamp.micros <= best.micros,
            decreases self.envelopes@.len() - i,
        {
            let t = self.envelopes[i].timestamp;
            if t.micros > best.micros {
                best = t;
                proof {
                    witness = i as int;
                }
            }
            i = i + 1;
        }
        Some(best)
    }

    /// Search the store: flush the buffer first so the result observes
    /// everything ingested so far, then return the entries the filter
    /// accepts, oldest to newest (stably sorted by timestamp), capped
    /// at the result limit by dropping the oldest.
    pub fn extract(&mut self, filter: &Filter) -> (r: Vec<LogEntry>)
        requires
            old(self).well_formed(),
        ensures
            final(self).well_formed(),
            final(self).persisted() == old(self).persisted() + old(self).buffered(),
            final(self).buffered().len() == 0,
            r@ == capped(
                sort_by_ts(matching(final(self).persisted(), *filter)),
                RESULT_LIMIT as int,
            ),
    {
        self.sync_logs();
        let mut found: Vec<LogEntry> = Vec::new();
        let n = self.envelopes.len();
        let mut i: usize = 0;
        while i < n
            invariant
                self.well_formed(),
                n == self.envelopes@.len(),
                0 <= i <= n,
                found@ == sort_by_ts(matching(self.persisted().subrange(0, i as int), *filter)),
            decreases n - i,
        {
            let candidate = LogEntry {
                message: self.content[i].message.clone(),
                hostname: self.envelopes[i].hostname.clone(),
                service: self.content[i].service.clone(),
                timestamp: self.envelopes[i].timestamp,
            };
            assert(candidate == self.persisted()[i as int]);
            proof {
                let pre = self.persisted().subrange(0, i as int);
                let pre1 = self.persisted().subrange(0, i + 1);
                assert(pre1.drop_last() =~= pre);
                assert(pre1.last() == self.persisted()[i as int]);
                let m0 = matching(pre, *filter);
                let m1 = matching(pre1, *filter);
                if spec_accepts(*filter, candidate) {
                    assert(m1 == m0.push(candidate));
                    assert(m1.drop_last() =~= m0);
                    assert(m1.len() > 0);
                    assert(sort_by_ts(m1) == insert_ts(sort_by_ts(m0), candidate));
                } else {
                    assert(m1 == m0);
                }
            }
            if filter.accept(&candidate) {
                insert_sorted(&mut found, candidate);
            }
            i = i + 1;
        }
        assert(self.persisted().subrange(0, n as int) =~= self.persisted());
        if found.len() > RESULT_LIMIT {
            let at = found.len() - RESULT_LIMIT;
            let kept = found.split_off(at);
            return kept;
        }
        found
    }
}

/// Place `e` into the sorted vector, after every entry no newer than it.
fn insert_sorted(v: &mut Vec<LogEntry>, e: LogEntry)
    ensures
        final(v)@ == insert_ts(old(v)@, e),
{
    let mut j: usize = v.len();
    while j > 0 && v[j - 1].timestamp.micros > e.timestamp.micros
        invariant
            0 <= j <= v@.len(),
            forall|k: int| j <= k < v@.len() ==> !ts_le(v@[k], e),
        decreases j,
    {
        j = j - 1;
    }
    proof {
        lemma_insert_ts_at(v@, e, j as int);
    }
    v.insert(j, e);
    assert(final(v)@ =~= old(v)@.subrange(0, j as int) + seq![e] + old(v)@.subrange(
        j as int,
        old(v)@.len() as int,
    ));
}

/// Inserting at the first position from the right whose predecessor is
/// no newer yields exactly the stable-insertion result.
proof fn lemma_insert_ts_at(s: Seq<LogEntry>, e: LogEntry, j: int)
    requires
        0 <= j <= s.len(),
        forall|k: int| j <= k < s.len() ==> !ts_le(s[k], e),
        j > 0 ==> ts_le(s[j - 1], e),
    ensures
        insert_ts(s, e) == s.subrange(0, j) + seq![e] + s.subrange(j, s.len() as int),
    decreases s.len(),
{
    if j == s.len() {
        if s.len() == 0 {
            assert(insert_ts(s, e) =~= s.subrange(0, j) + seq![e] + s.subrange(j, s.len() as int));
        } else {
            assert(ts_le(s.last(), e));
            assert(insert_ts(s, e) =~= s.subrange(0, j) + seq![e] + s.subrange(j, s.len() as int));
        }
    } else {
        assert(!ts_le(s.last(), e));
        lemma_insert_ts_at(s.drop_last(), e, j);
        assert(s.drop_last().subrange(0, j) =~= s.subrange(0, j));
        assert(s.drop_last().subrange(j, s.drop_last().len() as int) =~= s.subrange(
            j,
            s.len() - 1,
        ));
        assert(insert_ts(s, e) =~= s.subrange(0, j) + seq![e] + s.subrange(j, s.len() as int));
    }
}

/// Every element of the accepted subsequence is no newer than `b` if
/// every element of `s` is.
proof fn lemma_matching_bounded(s: Seq<LogEntry>, f: Filter, b: LogEntry)
    requires
        forall|k: int| 0 <= k < s.len() ==> ts_le(s[k], b),
    ensures
        forall|k: int| 0 <= k < matching(s, f).len() ==> ts_le(matching(s, f)[k], b),
    decreases s.len(),
{
    if s.len() > 0 {
        lemma_matching_bounded(s.drop_last(), f, b);
        let m = matching(s, f);
        let m0 = matching(s.drop_last(), f);
        assert(ts_le(s.last(), b));
        assert forall|k: int| 0 <= k < m.len() implies ts_le(m[k], b) by {
            if spec_accepts(f, s.last()) {
                assert(m == m0.push(s.last()));
                if k < m0.len() {
                    assert(ts_le(m0[k], b));
                }
            } else {
                assert(m == m0);
            }
        }
    }
}

/// Filtering keeps ascending timestamp order.
proof fn lemma_matching_sorted(s: Seq<LogEntry>, f: Filter)
    requires
        sorted_by_ts(s),
    ensures
        sorted_by_ts(matching(s, f)),
    decreases s.len(),
{
    if s.len() > 0 {
        assert(sorted_by_ts(s.drop_last()));
        lemma_matching_sorted(s.drop_last(), f);
        if spec_accepts(f, s.last()) {
            lemma_matching_bounded(s.drop_last(), f, s.last());
            let m = matching(s.drop_last(), f).push(s.last());
            assert forall|i: int, j: int| 0 <= i <= j < m.len() implies ts_le(m[i], m[j]) by {
                if j < m.len() - 1 {
                    assert(ts_le(matching(s.drop_last(), f)[i], matching(s.drop_last(), f)[j]));
                }
            }
        }
    }
}

/// Sorting an already sorted sequence changes nothing.
proof fn lemma_sort_of_sorted(s: Seq<LogEntry>)
    requires
        sorted_by_ts(s),
    ensures
        sort_by_ts(s) == s,
    decreases s.len(),
{
    if s.len() > 0 {
        assert(sorted_by_ts(s.drop_last()));
        lemma_sort_of_sorted(s.drop_last());
        if s.len() == 1 {
            assert(sort_by_ts(s) =~= s);
        } else {
            assert(ts_le(s.drop_last().last(), s.last()));
            assert(sort_by_ts(s) =~= s.drop_last().push(s.last()));
            assert(s.drop_last().push(s.last()) =~= s);
        }
    }
}

/// Law: on a store whose persisted history has ascending timestamps, a
/// search whose accepted entries fit within the result cap returns
/// exactly the subsequence of persisted entries the filter accepts, in
/// ascending timestamp order — the in-memory predicate and the store's
/// search agree.
pub proof fn lemma_search_is_filtered_history(all: Seq<LogEntry>, f: Filter)
    requires
        sorted_by_ts(all),
        matching(all, f).len() <= RESULT_LIMIT,
    ensures
        capped(sort_by_ts(matching(all, f)), RESULT_LIMIT as int) == matching(all, f),
        sorted_by_ts(matching(all, f)),
{
    lemma_matching_sorted(all, f);
    lemma_sort_of_sorted(matching(all, f));
}

/// The round-trip law on the store itself: after `extract` has flushed
/// the buffer, its result — promised to be the capped stable sort of
/// the accepted entries — is exactly the subsequence of the store's
/// history that `accept` admits, whenever that history has ascending
/// timestamps and the matches fit within the result cap.
pub proof fn lemma_store_search_round_trip(db: LogDatabase, f: Filter)
    requires
        db.well_formed(),
        sorted_by_ts(db.persisted() + db.buffered()),
        matching(db.persisted() + db.buffered(), f).len() <= RESULT_LIMIT,
    ensures
        capped(sort_by_ts(matching(db.persisted() + db.buffered(), f)), RESULT_LIMIT as int)
            == matching(db.persisted() + db.buffered(), f),
{
    lemma_search_is_filtered_history(db.persisted() + db.buffered(), f);
}

} // verus!

