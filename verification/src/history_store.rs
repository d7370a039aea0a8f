//! The history of numeric readings: the latest ones of each entity, and drawings of them.
//!
//! Readings are kept as decimal texts. Coordinates in drawings come as texts too, since they are
//! computed in floating point elsewhere.

use std::collections::VecDeque;

use vstd::arithmetic::div_mod::{lemma_fundamental_div_mod, lemma_fundamental_div_mod_converse};
use vstd::prelude::*;
use vstd::string::*;

use crate::clock::now_unix_secs;
use crate::json::Real;
use crate::keyed;
use crate::keyed::{position, Keyed};
use crate::logbook_store;
use crate::text;
use crate::text::{decimal_string, push_padded};

verus! {

/// A reading.
pub struct HistoryEntry {
    /// When, in seconds since 1970-01-01.
    pub ts: u64,
    pub value: Real,
}

/// The mathematical value of a [`HistoryEntry`].
pub struct HistoryModel {
    pub ts: u64,
    pub value: Seq<char>,
}

impl View for HistoryEntry {
    type V = HistoryModel;

    open spec fn view(&self) -> HistoryModel {
        HistoryModel { ts: self.ts, value: self.value@ }
    }
}

impl Clone for HistoryEntry {
    fn clone(&self) -> (r: Self)
        ensures
            r == *self,
    {
        HistoryEntry { ts: self.ts, value: self.value.clone() }
    }
}

/// The latest readings of an entity, oldest first.
pub struct RingBuffer {
    pub entries: VecDeque<HistoryEntry>,
    pub capacity: usize,
}

/// The readings of a buffer after one more: the latest ones stay, as many as the capacity allows.
pub open spec fn pushed<T>(s: Seq<T>, capacity: usize, e: T) -> Seq<T> {
    logbook_store::last_of(s.push(e), capacity as int)
}

/// The readings of a buffer after many.
pub open spec fn pushed_all<T>(s: Seq<T>, capacity: usize, more: Seq<T>) -> Seq<T>
    decreases more.len(),
{
    if more.len() == 0 {
        s
    } else {
        pushed(pushed_all(s, capacity, more.drop_last()), capacity, more.last())
    }
}

/// A buffer holds the latest readings: as many as its capacity allows, and never more.
pub proof fn law_latest_stay<T>(capacity: usize, all: Seq<T>)
    ensures
        pushed_all(Seq::empty(), capacity, all) == logbook_store::last_of(all, capacity as int),
        pushed_all(Seq::empty(), capacity, all).len() <= capacity,
    decreases all.len(),
{
    if all.len() > 0 {
        law_latest_stay(capacity, all.drop_last());
        assert(all.drop_last().push(all.last()) =~= all);
        assert(pushed_all(Seq::empty(), capacity, all) =~= logbook_store::last_of(
            all,
            capacity as int,
        ));
    } else {
        assert(all =~= Seq::empty());
    }
}

impl RingBuffer {
    /// An empty buffer.
    pub fn new(capacity: usize) -> (r: Self)
        ensures
            r.entries@ == Seq::<HistoryEntry>::empty(),
            r.capacity == capacity,
    {
        RingBuffer { entries: VecDeque::new(), capacity }
    }

    /// Adds a reading.
    pub fn push(&mut self, entry: HistoryEntry)
        ensures
            final(self).entries@ == pushed(old(self).entries@, old(self).capacity, entry),
            final(self).capacity == old(self).capacity,
    {
        let ghost all = self.entries@.push(entry);
        self.entries.push_back(entry);
        assert(all.skip(0) =~= all);
        while self.entries.len() > self.capacity
            invariant
                self.capacity == old(self).capacity,
                all == old(self).entries@.push(entry),
                self.entries@.len() <= all.len(),
                self.entries@ == all.skip(all.len() - self.entries@.len()),
                self.entries@.len() == all.len() || self.entries@.len() >= self.capacity,
            decreases self.entries@.len(),
        {
            let ghost before = self.entries@;
            let _ = self.entries.pop_front();
            assert(self.entries@ =~= before.skip(1));
            assert(self.entries@ =~= all.skip(all.len() - self.entries@.len()));
        }
        assert(self.entries@ =~= pushed(old(self).entries@, self.capacity, entry));
    }

    /// The latest `n` readings, oldest first.
    pub fn last_n(&self, n: usize) -> (r: Vec<HistoryEntry>)
        ensures
            r@ == logbook_store::last_of(self.entries@, n as int),
    {
        let len: usize = self.entries.len();
        let start: usize = if n < len {
            len - n
        } else {
            0
        };
        let mut out: Vec<HistoryEntry> = Vec::new();
        let mut i: usize = start;
        while i < len
            invariant
                start <= i <= len,
                len == self.entries@.len(),
                out@ == self.entries@.subrange(start as int, i as int),
            decreases len - i,
        {
            out.push(self.entries[i].clone());
            i += 1;
            assert(out@ =~= self.entries@.subrange(start as int, i as int));
        }
        assert(out@ =~= logbook_store::last_of(self.entries@, n as int));
        out
    }

    /// Whether there is a reading from a time on.
    pub fn any_since(&self, since_ts: u64) -> (r: bool)
        ensures
            r == read_since(self.entries@, since_ts),
    {
        let mut i: usize = 0;
        let len: usize = self.entries.len();
        while i < len
            invariant
                i <= len,
                len == self.entries@.len(),
                forall|k: int| 0 <= k < i ==> (#[trigger] self.entries@[k]).ts < since_ts,
            decreases len - i,
        {
            if self.entries[i].ts >= since_ts {
                return true;
            }
            i += 1;
        }
        false
    }

    /// The readings from a time on, oldest first.
    pub fn since(&self, since_ts: u64) -> (r: Vec<HistoryEntry>)
        ensures
            r@ == self.entries@.filter(|e: HistoryEntry| e.ts >= since_ts),
    {
        let ghost p = |e: HistoryEntry| e.ts >= since_ts;
        let ghost all = self.entries@;
        let mut out: Vec<HistoryEntry> = Vec::new();
        let mut i: usize = 0;
        let len: usize = self.entries.len();
        proof {
            reveal(Seq::filter);
            assert(all.take(0) =~= Seq::empty());
        }
        while i < len
            invariant
                i <= len,
                len == self.entries@.len(),
                all == self.entries@,
                p == (|e: HistoryEntry| e.ts >= since_ts),
                out@ == all.take(i as int).filter(p),
            decreases len - i,
        {
            proof {
                reveal(Seq::filter);
                assert(all.take(i + 1).drop_last() =~= all.take(i as int));
                assert(all.take(i + 1).last() == all[i as int]);
            }
            if self.entries[i].ts >= since_ts {
                out.push(self.entries[i].clone());
            }
            i += 1;
        }
        assert(all.take(i as int) =~= all);
        out
    }
}

/// The readings of one entity.
pub struct EntityHistory {
    pub entity_id: String,
    pub buffer: RingBuffer,
}

impl Keyed for EntityHistory {
    open spec fn key(&self) -> Seq<char> {
        self.entity_id@
    }

    fn key_str(&self) -> (r: &str) {
        self.entity_id.as_str()
    }
}

/// The readings of an entity; none where there is no buffer.
pub open spec fn readings_of(s: Seq<EntityHistory>, id: Seq<char>) -> Seq<HistoryEntry> {
    match keyed::key_get(s, id) {
        Some(h) => h.buffer.entries@,
        None => Seq::empty(),
    }
}

/// Ids with one more, unless it is among them.
pub open spec fn with_id(ids: Seq<Seq<char>>, id: Seq<char>) -> Seq<Seq<char>> {
    if ids.contains(id) {
        ids
    } else {
        ids.push(id)
    }
}

proof fn lemma_with_id(ids: Seq<Seq<char>>, id: Seq<char>, other: Seq<char>)
    ensures
        with_id(ids, id).contains(other) <==> ids.contains(other) || other == id,
{
    let r = with_id(ids, id);
    if !ids.contains(id) {
        assert(r[ids.len() as int] == id);
        if ids.contains(other) {
            let k = choose|k: int| 0 <= k < ids.len() && ids[k] == other;
            assert(r[k] == other);
        }
        if r.contains(other) && other != id {
            let k = choose|k: int| 0 <= k < r.len() && r[k] == other;
            assert(ids[k] == other);
        }
    }
}

/// Whether there is a reading from a time on.
pub open spec fn read_since(s: Seq<HistoryEntry>, since_ts: u64) -> bool {
    exists|i: int| 0 <= i < s.len() && (#[trigger] s[i]).ts >= since_ts
}

/// The entities with a reading from a time on.
pub open spec fn ids_since(s: Seq<EntityHistory>, since_ts: u64) -> Seq<Seq<char>>
    decreases s.len(),
{
    if s.len() == 0 {
        Seq::empty()
    } else if read_since(s.last().buffer.entries@, since_ts) {
        ids_since(s.drop_last(), since_ts).push(s.last().entity_id@)
    } else {
        ids_since(s.drop_last(), since_ts)
    }
}

/// Every entity with a reading from a time on is listed, and each once.
proof fn lemma_ids_since(s: Seq<EntityHistory>, since_ts: u64)
    requires
        keyed::distinct_keys(s),
    ensures
        forall|id: Seq<char>| #[trigger]
            ids_since(s, since_ts).contains(id) <==> read_since(readings_of(s, id), since_ts),
        ids_since(s, since_ts).no_duplicates(),
    decreases s.len(),
{
    let r = ids_since(s, since_ts);
    if s.len() == 0 {
        assert forall|id: Seq<char>| #[trigger] r.contains(id) <==> read_since(
            readings_of(s, id),
            since_ts,
        ) by {
            keyed::lemma_key_pos(s, id);
        }
    } else {
        let t = s.drop_last();
        let h = s.last();
        let before = ids_since(t, since_ts);
        lemma_ids_since(t, since_ts);
        keyed::lemma_key_pos(t, h.key());
        assert(keyed::key_pos(t, h.key()) is None) by {
            if keyed::key_pos(t, h.key()) is Some {
                let k = keyed::key_pos(t, h.key())->0;
                assert(s[k].key() != s[s.len() - 1].key());
            }
        }
        keyed::law_added(t, h);
        assert(t.push(h) =~= s);
        assert(!before.contains(h.entity_id@)) by {
            assert(readings_of(t, h.key()) =~= Seq::empty());
        }
        assert forall|id: Seq<char>| #[trigger] r.contains(id) <==> read_since(
            readings_of(s, id),
            since_ts,
        ) by {
            assert(before.contains(id) <==> read_since(readings_of(t, id), since_ts));
            if r != before {
                assert(r == before.push(h.entity_id@));
                assert(r[before.len() as int] == h.entity_id@);
                if before.contains(id) {
                    let k = choose|k: int| 0 <= k < before.len() && before[k] == id;
                    assert(r[k] == id);
                }
                if r.contains(id) && id != h.entity_id@ {
                    let k = choose|k: int| 0 <= k < r.len() && r[k] == id;
                    assert(before[k] == id);
                }
            }
            if id != h.entity_id@ {
                assert(keyed::key_get(t.push(h), id) == keyed::key_get(t, id));
            }
        }
    }
}

/// The latest readings of all entities.
pub struct HistoryStore {
    pub buffers: Vec<EntityHistory>,
    pub capacity: usize,
}

/// A reading of an entity.
pub struct HistoryRow {
    pub entity_id: String,
    pub ts: u64,
    pub value: Real,
}

/// The readings among rows that are of an entity.
pub open spec fn rows_of(rows: Seq<HistoryRow>, id: Seq<char>) -> Seq<HistoryEntry>
    decreases rows.len(),
{
    if rows.len() == 0 {
        Seq::empty()
    } else if rows.last().entity_id@ == id {
        rows_of(rows.drop_last(), id).push(
            HistoryEntry { ts: rows.last().ts, value: rows.last().value },
        )
    } else {
        rows_of(rows.drop_last(), id)
    }
}

impl HistoryStore {
    /// Each entity has one buffer, and all have the capacity of the store.
    pub open spec fn wf(&self) -> bool {
        &&& keyed::distinct_keys(self.buffers@)
        &&& forall|i: int|
            0 <= i < self.buffers@.len() ==> (#[trigger] self.buffers@[i]).buffer.capacity
                == self.capacity
    }

    /// The readings of an entity, oldest first.
    pub open spec fn readings(&self, id: Seq<char>) -> Seq<HistoryEntry> {
        readings_of(self.buffers@, id)
    }

    /// The entities that have a buffer.
    pub open spec fn ids(&self) -> Seq<Seq<char>> {
        Seq::new(self.buffers@.len(), |i: int| self.buffers@[i].entity_id@)
    }

    /// How many readings of an entity are kept.
    pub open spec fn capacity_for(&self, id: Seq<char>) -> usize {
        match keyed::key_get(self.buffers@, id) {
            Some(h) => h.buffer.capacity,
            None => self.capacity,
        }
    }

    /// A store without readings.
    pub fn new(capacity: usize) -> (r: Self)
        ensures
            r.wf(),
            r.capacity == capacity,
            r.buffers@ == Seq::<EntityHistory>::empty(),
            forall|id: Seq<char>| #[trigger] r.readings(id) == Seq::<HistoryEntry>::empty(),
    {
        HistoryStore { buffers: Vec::new(), capacity }
    }

    /// Notes a reading of an entity at a time.
    pub fn record_at(&mut self, entity_id: &str, value: Real, ts: u64)
        ensures
            old(self).wf() ==> final(self).wf(),
            old(self).wf() ==> old(self).capacity_for(entity_id@) == old(self).capacity,
            final(self).capacity == old(self).capacity,
            final(self).readings(entity_id@) == pushed(
                old(self).readings(entity_id@),
                old(self).capacity_for(entity_id@),
                HistoryEntry { ts, value },
            ),
            final(self).ids() == with_id(old(self).ids(), entity_id@),
            forall|id: Seq<char>|
                id != entity_id@ ==> #[trigger] final(self).readings(id) == old(self).readings(id),
    {
        let ghost before = self.buffers@;
        let ghost entry = HistoryEntry { ts, value };
        match position(&self.buffers, entity_id) {
            Some(i) => {
                let mut slot: EntityHistory = EntityHistory {
                    entity_id: entity_id.to_owned(),
                    buffer: RingBuffer::new(self.capacity),
                };
                std::mem::swap(&mut self.buffers[i], &mut slot);
                slot.buffer.push(HistoryEntry { ts, value });
                let ghost stored = slot;
                proof {
                    keyed::lemma_put(before, stored);
                }
                self.buffers[i] = slot;
                assert(self.buffers@ =~= keyed::with(before, stored));
                assert(old(self).ids()[i as int] == entity_id@);
                assert(self.ids() =~= old(self).ids());
            },
            None => {
                let mut buffer: RingBuffer = RingBuffer::new(self.capacity);
                buffer.push(HistoryEntry { ts, value });
                let fresh: EntityHistory = EntityHistory { entity_id: entity_id.to_owned(), buffer };
                proof {
                    keyed::lemma_put(before, fresh);
                }
                self.buffers.push(fresh);
                assert(self.buffers@ =~= keyed::with(before, fresh));
                proof {
                    keyed::lemma_key_pos(before, entity_id@);
                    assert forall|k: int| 0 <= k < before.len() implies #[trigger] old(self).ids()[k]
                        != entity_id@ by {
                        assert(before[k].key() != entity_id@);
                    }
                }
                assert(self.ids() =~= old(self).ids().push(entity_id@));
            },
        }
        proof {
            assert forall|id: Seq<char>| id != entity_id@ implies #[trigger] self.readings(id) == old(
                self,
            ).readings(id) by {
                assert(keyed::key_get(self.buffers@, id) == keyed::key_get(before, id));
            }
        }
    }

    /// Notes a reading of an entity now. Gives the time that was noted, in seconds since
    /// 1970-01-01.
    pub fn record(&mut self, entity_id: &str, value: Real) -> (ts: u64)
        ensures
            old(self).wf() ==> final(self).wf(),
            final(self).capacity == old(self).capacity,
            final(self).readings(entity_id@) == pushed(
                old(self).readings(entity_id@),
                old(self).capacity_for(entity_id@),
                HistoryEntry { ts, value },
            ),
            final(self).ids() == with_id(old(self).ids(), entity_id@),
            forall|id: Seq<char>|
                id != entity_id@ ==> #[trigger] final(self).readings(id) == old(self).readings(id),
    {
        let ts: u64 = now_unix_secs();
        self.record_at(entity_id, value, ts);
        ts
    }

    /// A store that holds the latest readings of rows, which come in the order of their times.
    pub fn warmed(capacity: usize, rows: Vec<HistoryRow>) -> (r: Self)
        ensures
            r.wf(),
            r.capacity == capacity,
            forall|id: Seq<char>| #[trigger]
                r.readings(id) == pushed_all(Seq::empty(), capacity, rows_of(rows@, id)),
            forall|id: Seq<char>| #[trigger]
                r.ids().contains(id) <==> rows_of(rows@, id).len() > 0,
    {
        let ghost all = rows@;
        let mut store: HistoryStore = HistoryStore::new(capacity);
        assert(all.take(0) =~= Seq::empty());
        for row in it: rows
            invariant
                it.seq() == all,
                store.wf(),
                store.capacity == capacity,
                forall|id: Seq<char>| #[trigger]
                    store.readings(id) == pushed_all(
                        Seq::empty(),
                        capacity,
                        rows_of(all.take(it.index() as int), id),
                    ),
                forall|id: Seq<char>| #[trigger]
                    store.ids().contains(id) <==> rows_of(
                        all.take(it.index() as int),
                        id,
                    ).len() > 0,
        {
            let ghost earlier = store;
            let ghost here = row;
            let HistoryRow { entity_id, ts, value } = row;
            store.record_at(entity_id.as_str(), value, ts);
            proof {
                let i = it.index() as int;
                assert(all.take(i + 1).drop_last() =~= all.take(i));
                assert(all.take(i + 1).last() == here);
                assert forall|id: Seq<char>| #[trigger] store.readings(id) == pushed_all(
                    Seq::empty(),
                    capacity,
                    rows_of(all.take(i + 1), id),
                ) by {
                    assert(earlier.readings(id) == pushed_all(
                        Seq::empty(),
                        capacity,
                        rows_of(all.take(i), id),
                    ));
                    if id == here.entity_id@ {
                        let now = rows_of(all.take(i + 1), id);
                        assert(now.drop_last() =~= rows_of(all.take(i), id));
                    }
                }
                assert forall|id: Seq<char>| #[trigger] store.ids().contains(id) <==> rows_of(
                    all.take(i + 1),
                    id,
                ).len() > 0 by {
                    lemma_with_id(earlier.ids(), here.entity_id@, id);
                    assert(earlier.ids().contains(id) <==> rows_of(all.take(i), id).len() > 0);
                }
            }
        }
        assert(all.take(all.len() as int) =~= all);
        store
    }

    /// The latest `n` readings of an entity, oldest first.
    pub fn last_n(&self, entity_id: &str, n: usize) -> (r: Vec<HistoryEntry>)
        ensures
            r@ == logbook_store::last_of(self.readings(entity_id@), n as int),
    {
        match position(&self.buffers, entity_id) {
            Some(i) => self.buffers[i].buffer.last_n(n),
            None => Vec::new(),
        }
    }

    /// The readings of an entity from a time on, oldest first.
    pub fn since(&self, entity_id: &str, since_ts: u64) -> (r: Vec<HistoryEntry>)
        ensures
            r@ == self.readings(entity_id@).filter(|e: HistoryEntry| e.ts >= since_ts),
    {
        match position(&self.buffers, entity_id) {
            Some(i) => self.buffers[i].buffer.since(since_ts),
            None => {
                proof {
                    reveal(Seq::filter);
                }
                Vec::new()
            },
        }
    }

    /// The entities with a reading from a time on, each once.
    pub fn entity_ids_since(&self, since_ts: u64) -> (r: Vec<String>)
        ensures
            r.deep_view() == ids_since(self.buffers@, since_ts),
            self.wf() ==> r.deep_view().no_duplicates(),
            self.wf() ==> forall|id: Seq<char>| #[trigger]
                r.deep_view().contains(id) <==> read_since(self.readings(id), since_ts),
    {
        let mut out: Vec<String> = Vec::new();
        let mut i: usize = 0;
        assert(self.buffers@.take(0) =~= Seq::empty());
        assert(out.deep_view() =~= Seq::empty());
        while i < self.buffers.len()
            invariant
                i <= self.buffers.len(),
                out.deep_view() == ids_since(self.buffers@.take(i as int), since_ts),
            decreases self.buffers.len() - i,
        {
            let h: &EntityHistory = &self.buffers[i];
            proof {
                assert(self.buffers@.take(i + 1).drop_last() =~= self.buffers@.take(i as int));
                assert(self.buffers@.take(i + 1).last() == self.buffers@[i as int]);
            }
            if h.buffer.any_since(since_ts) {
                let ghost before = out.deep_view();
                out.push(h.entity_id.clone());
                assert(out.deep_view() =~= before.push(h.entity_id@));
            }
            i += 1;
        }
        proof {
            assert(self.buffers@.take(i as int) =~= self.buffers@);
            if self.wf() {
                lemma_ids_since(self.buffers@, since_ts);
            }
        }
        out
    }

    /// The latest reading of each entity that has one.
    pub fn latest_values(&self) -> (r: Vec<(String, Real)>)
        ensures
            r@ == latest_from(self.buffers@),
    {
        let mut out: Vec<(String, Real)> = Vec::new();
        let mut i: usize = 0;
        assert(self.buffers@.take(0) =~= Seq::empty());
        while i < self.buffers.len()
            invariant
                i <= self.buffers.len(),
                out@ == latest_from(self.buffers@.take(i as int)),
            decreases self.buffers.len() - i,
        {
            let h: &EntityHistory = &self.buffers[i];
            let n: usize = h.buffer.entries.len();
            proof {
                assert(self.buffers@.take(i + 1).drop_last() =~= self.buffers@.take(i as int));
                assert(self.buffers@.take(i + 1).last() == self.buffers@[i as int]);
            }
            if n > 0 {
                out.push((h.entity_id.clone(), h.buffer.entries[n - 1].value.clone()));
            }
            i += 1;
        }
        assert(self.buffers@.take(i as int) =~= self.buffers@);
        out
    }
}

/// The latest reading of each entity that has one.
pub open spec fn latest_from(s: Seq<EntityHistory>) -> Seq<(String, Real)>
    decreases s.len(),
{
    if s.len() == 0 {
        Seq::empty()
    } else {
        let h = s.last();
        let before = latest_from(s.drop_last());
        if h.buffer.entries@.len() > 0 {
            before.push((h.entity_id, h.buffer.entries@.last().value))
        } else {
            before
        }
    }
}

/// The time of day as `HH:MM`.
pub open spec fn hhmm(ts: u64) -> Seq<char> {
    text::padded((ts / 3600 % 24) as nat, 2) + ":"@ + text::padded((ts / 60 % 60) as nat, 2)
}

/// The hour and the minute of a day, whether the days are left out first or last.
proof fn lemma_hhmm(ts: int)
    requires
        0 <= ts,
    ensures
        ts % 86400 / 3600 == ts / 3600 % 24,
        ts % 86400 % 3600 / 60 == ts / 60 % 60,
{
    let d = ts / 86400;
    let in_day = ts % 86400;
    let h = in_day / 3600;
    let in_hour = in_day % 3600;
    let m = in_hour / 60;
    let s = in_hour % 60;
    lemma_fundamental_div_mod(ts, 86400);
    lemma_fundamental_div_mod(in_day, 3600);
    lemma_fundamental_div_mod(in_hour, 60);
    let hours = 24 * d + h;
    lemma_fundamental_div_mod_converse(ts, 3600, hours, in_hour);
    lemma_fundamental_div_mod_converse(hours, 24, d, h);
    lemma_fundamental_div_mod_converse(ts, 60, 60 * hours + m, s);
    lemma_fundamental_div_mod_converse(60 * hours + m, 60, hours, m);
}

/// The time of day as `HH:MM`, in UTC.
pub fn format_hhmm(unix_ts: u64) -> (r: String)
    ensures
        r@ == hhmm(unix_ts),
{
    let secs_in_day: u64 = unix_ts % 86400;
    let h: u64 = secs_in_day / 3600;
    let m: u64 = (secs_in_day % 3600) / 60;
    proof {
        lemma_hhmm(unix_ts as int);
    }
    let mut out: String = String::new();
    push_padded(&mut out, h, 2);
    assert(out@ =~= text::padded((unix_ts / 3600 % 24) as nat, 2));
    out.append(":");
    push_padded(&mut out, m, 2);
    out
}

/// A stretch of time in which a sensor was on or off.
#[derive(Clone, Copy, Debug, PartialEq, Eq, Structural)]
pub struct Segment {
    pub start: u64,
    pub end: u64,
    pub on: bool,
}

/// The stretch that begins with a reading: it ends with the next one, or with the window, and is
/// cut to the window.
pub open spec fn segment_at(s: Seq<(u64, bool)>, since: u64, end: u64, i: int) -> Segment {
    Segment {
        start: if s[i].0 >= since {
            s[i].0
        } else {
            since
        },
        end: if i + 1 < s.len() && s[i + 1].0 < end {
            s[i + 1].0
        } else {
            end
        },
        on: s[i].1,
    }
}

/// The stretches that the first `n` readings begin, without the empty ones.
pub open spec fn segments(s: Seq<(u64, bool)>, since: u64, end: u64, n: int) -> Seq<Segment>
    decreases n,
{
    if n <= 0 {
        Seq::empty()
    } else {
        let x = segment_at(s, since, end, n - 1);
        if x.end <= x.start {
            segments(s, since, end, n - 1)
        } else {
            segments(s, since, end, n - 1).push(x)
        }
    }
}

/// The stretches of a window in which a sensor was on or off, from readings in the order of their
/// times.
pub fn timeline_segments(entries: &Vec<(u64, bool)>, since: u64, end: u64) -> (r: Vec<Segment>)
    ensures
        r@ == segments(entries@, since, end, entries@.len() as int),
{
    let mut out: Vec<Segment> = Vec::new();
    let mut i: usize = 0;
    while i < entries.len()
        invariant
            i <= entries.len(),
            out@ == segments(entries@, since, end, i as int),
        decreases entries.len() - i,
    {
        let start: u64 = if entries[i].0 >= since {
            entries[i].0
        } else {
            since
        };
        let stop: u64 = if i + 1 < entries.len() && entries[i + 1].0 < end {
            entries[i + 1].0
        } else {
            end
        };
        if stop > start {
            out.push(Segment { start, end: stop, on: entries[i].1 });
        }
        i += 1;
    }
    out
}

/// The stretches of a timeline lie in the window, are not empty, and do not overlap.
pub proof fn law_segments(s: Seq<(u64, bool)>, since: u64, end: u64, n: int)
    requires
        0 <= n <= s.len(),
        forall|i: int, j: int| 0 <= i < j < s.len() ==> (#[trigger] s[i]).0 <= (#[trigger] s[j]).0,
    ensures
        ({
            let r = segments(s, since, end, n);
            &&& forall|i: int|
                0 <= i < r.len() ==> since <= (#[trigger] r[i]).start && r[i].start < r[i].end
                    && r[i].end <= end
            &&& forall|i: int, j: int|
                0 <= i < j < r.len() ==> (#[trigger] r[i]).end <= (#[trigger] r[j]).start
            &&& n < s.len() ==> forall|i: int|
                0 <= i < r.len() ==> (#[trigger] r[i]).end <= s[n].0
        }),
    decreases n,
{
    if n > 0 {
        law_segments(s, since, end, n - 1);
        let before = segments(s, since, end, n - 1);
        let r = segments(s, since, end, n);
        let here = s[n - 1].0;
        if n < s.len() {
            assert(here <= s[n].0);
        }
        assert forall|i: int| 0 <= i < before.len() implies (#[trigger] r[i]).end <= here by {
            assert(r[i] == before[i]);
        }
        assert forall|i: int, j: int| 0 <= i < j < r.len() implies (#[trigger] r[i]).end <= (
        #[trigger] r[j]).start by {
            if j < before.len() {
                assert(before[i].end <= before[j].start);
            }
        }
        assert forall|i: int| 0 <= i < r.len() implies since <= (#[trigger] r[i]).start
            && r[i].start < r[i].end && r[i].end <= end by {
            if i < before.len() {
                assert(r[i] == before[i]);
            }
        }
    }
}

/// The start of a drawing of a given size.
pub open spec fn svg_open(width: u32, height: u32) -> Seq<char> {
    "<svg width=\""@ + text::decimal(width as nat) + "\" height=\""@ + text::decimal(height as nat)
        + "\" viewBox=\"0 0 "@ + text::decimal(width as nat) + " "@ + text::decimal(height as nat)
        + "\" xmlns=\"http://www.w3.org/2000/svg\""@
}

fn open_svg(width: u32, height: u32) -> (r: String)
    ensures
        r@ == svg_open(width, height),
{
    let w: String = decimal_string(width as u64);
    let h: String = decimal_string(height as u64);
    let mut out: String = "<svg width=\"".to_owned();
    out.append(w.as_str());
    out.append("\" height=\"");
    out.append(h.as_str());
    out.append("\" viewBox=\"0 0 ");
    out.append(w.as_str());
    out.append(" ");
    out.append(h.as_str());
    out.append("\" xmlns=\"http://www.w3.org/2000/svg\"");
    out
}

/// The drawing for too few readings.
pub open spec fn no_data_text(width: u32, height: u32) -> Seq<char> {
    svg_open(width, height) + NO_DATA@
}

pub const NO_DATA: &'static str = "><text x=\"50%\" y=\"50%\" text-anchor=\"middle\" dominant-baseline=\"middle\" fill=\"#aaa\" font-size=\"11\">No data yet</text></svg>";

/// The drawing for too few readings.
pub fn no_data_svg(width: u32, height: u32) -> (r: String)
    ensures
        r@ == no_data_text(width, height),
{
    let mut out: String = open_svg(width, height);
    out.append(NO_DATA);
    out
}

/// A line through points.
pub open spec fn path_text(points: Seq<(String, String)>) -> Seq<char>
    decreases points.len(),
{
    if points.len() == 0 {
        Seq::empty()
    } else {
        path_text(points.drop_last()) + (if points.len() == 1 {
            "M "@
        } else {
            " L "@
        }) + points.last().0@ + " "@ + points.last().1@
    }
}

/// A line through points.
pub fn svg_path(points: &Vec<(String, String)>) -> (r: String)
    ensures
        r@ == path_text(points@),
{
    let mut out: String = String::new();
    let mut i: usize = 0;
    assert(out@ =~= path_text(points@.take(0)));
    while i < points.len()
        invariant
            i <= points.len(),
            out@ == path_text(points@.take(i as int)),
        decreases points.len() - i,
    {
        proof {
            assert(points@.take(i + 1).drop_last() =~= points@.take(i as int));
            assert(points@.take(i + 1).last() == points@[i as int]);
        }
        out.append(
            if i == 0 {
                "M "
            } else {
                " L "
            },
        );
        out.append(points[i].0.as_str());
        out.append(" ");
        out.append(points[i].1.as_str());
        i += 1;
    }
    assert(points@.take(i as int) =~= points@);
    out
}

/// The area between a line and a base line.
pub open spec fn area_text(points: Seq<(String, String)>, base: Seq<char>) -> Seq<char> {
    path_text(points) + " L "@ + points.last().0@ + " "@ + base + " L "@ + points[0].0@ + " "@ + base
        + " Z"@
}

/// The area between a line and a base line.
pub fn svg_area(points: &Vec<(String, String)>, base: &str) -> (r: String)
    requires
        points@.len() > 0,
    ensures
        r@ == area_text(points@, base@),
{
    let mut out: String = svg_path(points);
    out.append(" L ");
    out.append(points[points.len() - 1].0.as_str());
    out.append(" ");
    out.append(base);
    out.append(" L ");
    out.append(points[0].0.as_str());
    out.append(" ");
    out.append(base);
    out.append(" Z");
    out
}

/// A label of an axis.
pub struct AxisLabel {
    pub x: String,
    pub y: String,
    /// `start` or `end`.
    pub anchor: String,
    pub value: String,
}

/// Labels in a drawing.
pub open spec fn labels_text(s: Seq<AxisLabel>) -> Seq<char>
    decreases s.len(),
{
    if s.len() == 0 {
        Seq::empty()
    } else {
        labels_text(s.drop_last()) + "  <text x=\""@ + s.last().x@ + "\" y=\""@ + s.last().y@
            + "\" text-anchor=\""@ + s.last().anchor@ + "\" fill=\"#999\" font-size=\"9\">"@
            + s.last().value@ + "</text>\n"@
    }
}

fn svg_labels(labels: &Vec<AxisLabel>) -> (r: String)
    ensures
        r@ == labels_text(labels@),
{
    let mut out: String = String::new();
    let mut i: usize = 0;
    assert(out@ =~= labels_text(labels@.take(0)));
    while i < labels.len()
        invariant
            i <= labels.len(),
            out@ == labels_text(labels@.take(i as int)),
        decreases labels.len() - i,
    {
        proof {
            assert(labels@.take(i + 1).drop_last() =~= labels@.take(i as int));
            assert(labels@.take(i + 1).last() == labels@[i as int]);
        }
        out.append("  <text x=\"");
        out.append(labels[i].x.as_str());
        out.append("\" y=\"");
        out.append(labels[i].y.as_str());
        out.append("\" text-anchor=\"");
        out.append(labels[i].anchor.as_str());
        out.append("\" fill=\"#999\" font-size=\"9\">");
        out.append(labels[i].value.as_str());
        out.append("</text>\n");
        i += 1;
    }
    assert(labels@.take(i as int) =~= labels@);
    out
}

pub const GRADIENT_OPEN: &'static str = " style=\"display:block\">\n  <defs>\n    <linearGradient id=\"";

pub const GRADIENT_STOPS: &'static str = "\" x1=\"0\" y1=\"0\" x2=\"0\" y2=\"1\">\n      <stop offset=\"0%\" stop-color=\"#18BCF2\" stop-opacity=\"0.35\"/>\n      <stop offset=\"100%\" stop-color=\"#18BCF2\" stop-opacity=\"0.02\"/>\n    </linearGradient>\n  </defs>\n  <path d=\"";

pub const AREA_FILL: &'static str = "\" fill=\"url(#";

pub const LINE_OPEN: &'static str = ")\"/>\n  <path d=\"";

pub const LINE_STYLE: &'static str = "\" fill=\"none\" stroke=\"#18BCF2\" stroke-width=\"2\" stroke-linecap=\"round\" stroke-linejoin=\"round\"/>\n";

/// The name of the gradient of a drawing.
pub open spec fn gradient_id(prefix: Seq<char>, width: u32, height: u32) -> Seq<char> {
    prefix + "_"@ + text::decimal(width as nat) + "_"@ + text::decimal(height as nat)
}

/// A drawing of a line with the area below it.
pub open spec fn line_chart(
    width: u32,
    height: u32,
    prefix: Seq<char>,
    points: Seq<(String, String)>,
    base: Seq<char>,
    labels: Seq<AxisLabel>,
) -> Seq<char> {
    svg_open(width, height) + GRADIENT_OPEN@ + gradient_id(prefix, width, height) + GRADIENT_STOPS@
        + area_text(points, base) + AREA_FILL@ + gradient_id(prefix, width, height) + LINE_OPEN@
        + path_text(points) + LINE_STYLE@ + labels_text(labels) + "</svg>"@
}

fn draw_line_chart(
    width: u32,
    height: u32,
    prefix: &str,
    points: &Vec<(String, String)>,
    base: &str,
    labels: &Vec<AxisLabel>,
) -> (r: String)
    requires
        points@.len() > 0,
    ensures
        r@ == line_chart(width, height, prefix@, points@, base@, labels@),
{
    let mut id: String = prefix.to_owned();
    id.append("_");
    id.append(decimal_string(width as u64).as_str());
    id.append("_");
    id.append(decimal_string(height as u64).as_str());
    let mut out: String = open_svg(width, height);
    out.append(GRADIENT_OPEN);
    out.append(id.as_str());
    out.append(GRADIENT_STOPS);
    out.append(svg_area(points, base).as_str());
    out.append(AREA_FILL);
    out.append(id.as_str());
    out.append(LINE_OPEN);
    out.append(svg_path(points).as_str());
    out.append(LINE_STYLE);
    out.append(svg_labels(labels).as_str());
    out.append("</svg>");
    out
}

/// A small line drawing of readings, from the places of their points and of the base line; two
/// readings at least make a line.
pub fn render_sparkline(
    points: &Vec<(String, String)>,
    base: &str,
    width: u32,
    height: u32,
) -> (r: String)
    ensures
        r@ == if points@.len() < 2 {
            no_data_text(width, height)
        } else {
            line_chart(width, height, "sg"@, points@, base@, Seq::empty())
        },
{
    if points.len() < 2 {
        return no_data_svg(width, height);
    }
    let none: Vec<AxisLabel> = Vec::new();
    draw_line_chart(width, height, "sg", points, base, &none)
}

/// A line drawing of readings with labels at its axes.
pub fn render_history_chart(
    points: &Vec<(String, String)>,
    base: &str,
    labels: &Vec<AxisLabel>,
    width: u32,
    height: u32,
) -> (r: String)
    ensures
        r@ == if points@.len() < 2 {
            no_data_text(width, height)
        } else {
            line_chart(width, height, "hcg"@, points@, base@, labels@)
        },
{
    if points.len() < 2 {
        return no_data_svg(width, height);
    }
    draw_line_chart(width, height, "hcg", points, base, labels)
}

/// A stripe of a timeline.
pub struct Stripe {
    pub x: String,
    pub width: String,
    pub on: bool,
}

/// Stripes of a timeline: amber where the sensor was on, grey where it was off.
pub open spec fn stripes_text(s: Seq<Stripe>, height: Seq<char>) -> Seq<char>
    decreases s.len(),
{
    if s.len() == 0 {
        Seq::empty()
    } else {
        stripes_text(s.drop_last(), height) + "<rect x=\""@ + s.last().x@ + "\" y=\"0\" width=\""@
            + s.last().width@ + "\" height=\""@ + height + "\" fill=\""@ + (if s.last().on {
            "#f59e0b"@
        } else {
            "#e5e7eb"@
        }) + "\"/>"@
    }
}

pub const NO_TIMELINE: &'static str = " style=\"display:block\"><rect x=\"0\" y=\"0\" width=\"";

pub const NO_TIMELINE_FILL: &'static str = "\" fill=\"#e5e7eb\" rx=\"4\"/><text x=\"50%\" y=\"50%\" text-anchor=\"middle\" dominant-baseline=\"middle\" fill=\"#aaa\" font-size=\"11\">No data</text></svg>";

pub const TIMELINE_OPEN: &'static str = " style=\"display:block;border-radius:4px\"><rect x=\"0\" y=\"0\" width=\"";

pub const TIMELINE_FILL: &'static str = "\" fill=\"#e5e7eb\"/>";

/// A timeline of a sensor that is on or off.
pub open spec fn timeline_text(
    stripes: Option<Seq<Stripe>>,
    width: u32,
    height: u32,
    stripe_height: Seq<char>,
) -> Seq<char> {
    match stripes {
        None => svg_open(width, height) + NO_TIMELINE@ + text::decimal(width as nat)
            + "\" height=\""@ + text::decimal(height as nat) + NO_TIMELINE_FILL@,
        Some(s) => svg_open(width, height) + TIMELINE_OPEN@ + text::decimal(width as nat)
            + "\" height=\""@ + text::decimal(height as nat) + TIMELINE_FILL@ + stripes_text(
            s,
            stripe_height,
        ) + "</svg>"@,
    }
}

/// The view of optional stripes.
pub open spec fn opt_stripes(s: Option<Vec<Stripe>>) -> Option<Seq<Stripe>> {
    match s {
        Some(v) => Some(v@),
        None => None,
    }
}

fn svg_stripes(s: &Vec<Stripe>, height: &str) -> (r: String)
    ensures
        r@ == stripes_text(s@, height@),
{
    let mut out: String = String::new();
    let mut i: usize = 0;
    assert(out@ =~= stripes_text(s@.take(0), height@));
    while i < s.len()
        invariant
            i <= s.len(),
            out@ == stripes_text(s@.take(i as int), height@),
        decreases s.len() - i,
    {
        proof {
            assert(s@.take(i + 1).drop_last() =~= s@.take(i as int));
            assert(s@.take(i + 1).last() == s@[i as int]);
        }
        out.append("<rect x=\"");
        out.append(s[i].x.as_str());
        out.append("\" y=\"0\" width=\"");
        out.append(s[i].width.as_str());
        out.append("\" height=\"");
        out.append(height);
        out.append("\" fill=\"");
        out.append(
            if s[i].on {
                "#f59e0b"
            } else {
                "#e5e7eb"
            },
        );
        out.append("\"/>");
        i += 1;
    }
    assert(s@.take(i as int) =~= s@);
    out
}

/// A timeline of a sensor that is on or off, from the places of its stripes; without readings
/// there are none to give.
pub fn render_binary_timeline(
    stripes: &Option<Vec<Stripe>>,
    width: u32,
    height: u32,
    stripe_height: &str,
) -> (r: String)
    ensures
        r@ == timeline_text(opt_stripes(*stripes), width, height, stripe_height@),
{
    let w: String = decimal_string(width as u64);
    let h: String = decimal_string(height as u64);
    let mut out: String = open_svg(width, height);
    match stripes {
        None => {
            out.append(NO_TIMELINE);
            out.append(w.as_str());
            out.append("\" height=\"");
            out.append(h.as_str());
            out.append(NO_TIMELINE_FILL);
        },
        Some(s) => {
            out.append(TIMELINE_OPEN);
            out.append(w.as_str());
            out.append("\" height=\"");
            out.append(h.as_str());
            out.append(TIMELINE_FILL);
            out.append(svg_stripes(s, stripe_height).as_str());
            out.append("</svg>");
        },
    }
    out
}

} // verus!
