//! The logbook: the most recent state changes.

use std::collections::VecDeque;

use vstd::prelude::*;

use crate::json;
use crate::json::{get_member, JsonView};
use crate::state_store::{EventModel, StateEvent, StateView};
use crate::text;
use crate::text::{contains_text, to_lowercase};

verus! {

/// A state change that has been recorded.
pub struct LogbookEntry {
    /// When, in seconds since 1970-01-01.
    pub ts: u64,
    pub entity_id: String,
    /// The name of the entity.
    pub display_name: String,
    pub old_state: String,
    pub new_state: String,
}

impl Clone for LogbookEntry {
    fn clone(&self) -> (r: Self)
        ensures
            r == *self,
    {
        LogbookEntry {
            ts: self.ts,
            entity_id: self.entity_id.clone(),
            display_name: self.display_name.clone(),
            old_state: self.old_state.clone(),
            new_state: self.new_state.clone(),
        }
    }
}

/// The mathematical value of a [`LogbookEntry`].
pub struct LogModel {
    pub ts: u64,
    pub entity_id: Seq<char>,
    pub display_name: Seq<char>,
    pub old_state: Seq<char>,
    pub new_state: Seq<char>,
}

impl View for LogbookEntry {
    type V = LogModel;

    open spec fn view(&self) -> LogModel {
        LogModel {
            ts: self.ts,
            entity_id: self.entity_id@,
            display_name: self.display_name@,
            old_state: self.old_state@,
            new_state: self.new_state@,
        }
    }
}

/// Entries as mathematical values.
pub open spec fn log_models(s: Seq<LogbookEntry>) -> Seq<LogModel> {
    s.map_values(|e: LogbookEntry| e@)
}

/// The entries of a logbook of a given capacity after one more.
pub open spec fn logged(s: Seq<LogModel>, capacity: usize, e: LogModel) -> Seq<LogModel> {
    if capacity == 0 {
        s
    } else if s.len() >= capacity {
        s.skip(1).push(e)
    } else {
        s.push(e)
    }
}

/// The most recent state changes, up to a capacity.
pub struct LogbookStore {
    pub entries: VecDeque<LogbookEntry>,
    pub capacity: usize,
}

/// The last `n` of a sequence.
pub open spec fn last_of<T>(s: Seq<T>, n: int) -> Seq<T> {
    if s.len() <= n {
        s
    } else {
        s.skip(s.len() - n)
    }
}

/// Whether an entry is about an entity whose id holds a text, upper and lower case being the same.
pub open spec fn about(e: LogbookEntry, wanted: Option<Seq<char>>) -> bool {
    match wanted {
        Some(f) => text::has_text(text::lowercased(e.entity_id@), text::lowercased(f)),
        None => true,
    }
}

/// The entries about an entity, newest first.
pub open spec fn newest_about(
    s: Seq<LogbookEntry>,
    wanted: Option<Seq<char>>,
) -> Seq<LogbookEntry>
    decreases s.len(),
{
    if s.len() == 0 {
        s
    } else if about(s.last(), wanted) {
        Seq::empty().push(s.last()) + newest_about(s.drop_last(), wanted)
    } else {
        newest_about(s.drop_last(), wanted)
    }
}

impl LogbookStore {
    /// The entries never exceed the capacity.
    pub open spec fn wf(&self) -> bool {
        self.entries@.len() <= self.capacity
    }

    /// An empty logbook.
    pub fn new(capacity: usize) -> (r: Self)
        ensures
            r.wf(),
            r.entries@.len() == 0,
            r.capacity == capacity,
    {
        LogbookStore { entries: VecDeque::new(), capacity }
    }

    /// Records a state change. Where the logbook is full, the oldest entry goes, so that the
    /// last ones stay.
    pub fn record(&mut self, entry: LogbookEntry)
        ensures
            final(self).capacity == old(self).capacity,
            final(self).entries@ == if old(self).capacity == 0 {
                old(self).entries@
            } else if old(self).entries@.len() >= old(self).capacity {
                old(self).entries@.skip(1).push(entry)
            } else {
                old(self).entries@.push(entry)
            },
            log_models(final(self).entries@) == logged(
                log_models(old(self).entries@),
                old(self).capacity,
                entry@,
            ),
            old(self).wf() ==> final(self).wf() && final(self).entries@ == last_of(
                old(self).entries@.push(entry),
                old(self).capacity as int,
            ),
    {
        let ghost before = self.entries@;
        if self.capacity == 0 {
            proof {
                if self.wf() {
                    assert(self.entries@ =~= last_of(before.push(entry), 0));
                }
            }
            return ;
        }
        if self.entries.len() >= self.capacity {
            let _ = self.entries.pop_front();
        }
        self.entries.push_back(entry);
        proof {
            if before.len() >= self.capacity {
                assert(self.entries@ =~= before.skip(1).push(entry));
                assert(log_models(self.entries@) =~= log_models(before).skip(1).push(entry@));
            } else {
                assert(log_models(self.entries@) =~= log_models(before).push(entry@));
            }
            if before.len() <= self.capacity {
                assert(self.entries@ =~= last_of(before.push(entry), self.capacity as int));
            }
        }
    }

    /// The most recent entries, newest first.
    pub fn recent_n(&self, n: usize) -> (r: Vec<LogbookEntry>)
        ensures
            r@ == last_of(self.entries@, n as int).reverse(),
    {
        let mut out: Vec<LogbookEntry> = Vec::new();
        let len: usize = self.entries.len();
        let mut k: usize = 0;
        while k < n && k < len
            invariant
                k <= n,
                k <= len,
                len == self.entries@.len(),
                out@ == last_of(self.entries@, k as int).reverse(),
            decreases len - k,
        {
            out.push(self.entries[len - 1 - k].clone());
            k += 1;
            assert(out@ =~= last_of(self.entries@, k as int).reverse());
        }
        assert(out@ =~= last_of(self.entries@, n as int).reverse());
        out
    }

    /// Up to `limit` entries about an entity, newest first.
    pub fn get_filtered(
        &self,
        entity_id_filter: Option<&str>,
        limit: usize,
    ) -> (r: Vec<LogbookEntry>)
        ensures
            ({
                let all = newest_about(
                    self.entries@,
                    match entity_id_filter {
                        Some(f) => Some(f@),
                        None => None,
                    },
                );
                r@ == if all.len() <= limit {
                    all
                } else {
                    all.take(limit as int)
                }
            }),
    {
        let ghost wanted = match entity_id_filter {
            Some(f) => Some(f@),
            None => None,
        };
        let ghost all = newest_about(self.entries@, wanted);
        let mut out: Vec<LogbookEntry> = Vec::new();
        let mut i: usize = self.entries.len();
        assert(self.entries@.take(i as int) =~= self.entries@);
        assert(all =~= out@ + newest_about(self.entries@.take(i as int), wanted));
        while i > 0 && out.len() < limit
            invariant
                i <= self.entries@.len(),
                out@.len() <= limit,
                wanted == (match entity_id_filter {
                    Some(f) => Some(f@),
                    None => None,
                }),
                all == out@ + newest_about(self.entries@.take(i as int), wanted),
            decreases i,
        {
            let entry: &LogbookEntry = &self.entries[i - 1];
            let fits: bool = match entity_id_filter {
                Some(f) => {
                    let id: String = to_lowercase(entry.entity_id.as_str());
                    let part: String = to_lowercase(f);
                    contains_text(id.as_str(), part.as_str())
                },
                None => true,
            };
            proof {
                let t = self.entries@.take(i as int);
                assert(t.drop_last() =~= self.entries@.take(i - 1));
                assert(t.last() == *entry);
            }
            if fits {
                out.push(entry.clone());
            }
            i -= 1;
            assert(all =~= out@ + newest_about(self.entries@.take(i as int), wanted));
        }
        proof {
            if i == 0 {
                assert(self.entries@.take(0) =~= Seq::<LogbookEntry>::empty());
                assert(out@ =~= all);
            } else {
                assert(out@ =~= all.take(limit as int));
            }
        }
        out
    }
}

/// The name of an entity in its state: the friendly one, or else the entity id.
pub open spec fn friendly_name(s: StateView) -> Seq<char> {
    match json::member(s.attributes, "friendly_name"@) {
        Some(JsonView::Str(name)) => name,
        _ => s.entity_id,
    }
}

/// The entry for a state change.
pub open spec fn entry_model(event: EventModel, ts: u64) -> LogModel {
    LogModel {
        ts,
        entity_id: event.0.entity_id,
        display_name: friendly_name(event.0),
        old_state: match event.1 {
            Some(s) => s.state,
            None => ""@,
        },
        new_state: event.0.state,
    }
}

/// The entry for a state change at a time.
pub fn entry_for(event: &StateEvent, ts: u64) -> (r: LogbookEntry)
    ensures
        r@ == entry_model(event@, ts),
{
    let display_name: String = match get_member(&event.state.attributes, "friendly_name") {
        Some(j) => match j.as_str() {
            Some(name) => name.to_owned(),
            None => event.state.entity_id.clone(),
        },
        None => event.state.entity_id.clone(),
    };
    let old_state: String = match &event.old_state {
        Some(s) => s.state.clone(),
        None => "".to_owned(),
    };
    LogbookEntry {
        ts,
        entity_id: event.state.entity_id.clone(),
        display_name,
        old_state,
        new_state: event.state.state.clone(),
    }
}

} // verus!
