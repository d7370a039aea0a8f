//! Notifications that wait for the user.

use vstd::prelude::*;

use crate::clock::now_unix_secs;
use crate::ids;
use crate::ids::new_uuid;
use crate::keyed;
use crate::keyed::{copy_all, put, remove_key, Keyed, Record};

verus! {

/// A notification.
pub struct Notification {
    pub notification_id: String,
    pub title: Option<String>,
    pub message: String,
    /// When it was made, in seconds since 1970-01-01.
    pub created_at: u64,
    pub status: String,
}

impl Keyed for Notification {
    open spec fn key(&self) -> Seq<char> {
        self.notification_id@
    }

    fn key_str(&self) -> (r: &str) {
        self.notification_id.as_str()
    }
}

impl Clone for Notification {
    fn clone(&self) -> (r: Self)
        ensures
            r == *self,
    {
        Notification {
            notification_id: self.notification_id.clone(),
            title: self.title.clone(),
            message: self.message.clone(),
            created_at: self.created_at,
            status: self.status.clone(),
        }
    }
}

impl Record for Notification {
    fn dup(&self) -> (r: Self) {
        self.clone()
    }
}

/// Whether notifications stand newest first.
pub open spec fn newest_first(s: Seq<Notification>) -> bool {
    forall|i: int, j: int|
        0 <= i < j < s.len() ==> (#[trigger] s[i]).created_at >= (#[trigger] s[j]).created_at
}

/// Puts a notification in front of the first one that is older.
fn put_newest_first(v: &mut Vec<Notification>, x: Notification)
    requires
        newest_first(old(v)@),
    ensures
        newest_first(final(v)@),
        final(v)@.to_multiset() == old(v)@.to_multiset().insert(x),
{
    let mut i: usize = 0;
    while i < v.len() && v[i].created_at >= x.created_at
        invariant
            i <= v.len(),
            v@ == old(v)@,
            forall|j: int| 0 <= j < i ==> (#[trigger] v@[j]).created_at >= x.created_at,
        decreases v.len() - i,
    {
        i += 1;
    }
    let ghost before = v@;
    v.insert(i, x);
    proof {
        before.to_multiset_ensures();
        vstd::seq_lib::to_multiset_insert(before, i as int, x);
        assert(v@ =~= before.insert(i as int, x));
        assert forall|a: int, b: int| 0 <= a < b < v@.len() implies (#[trigger] v@[a]).created_at
            >= (#[trigger] v@[b]).created_at by {
            if i < before.len() && b >= i {
                assert(before[i as int].created_at < x.created_at);
                if b > i {
                    assert(before[i as int].created_at >= before[b - 1].created_at);
                }
            }
        }
    }
}

/// The notifications, one for each id.
pub struct NotificationStore {
    pub notifications: Vec<Notification>,
}

impl Default for NotificationStore {
    fn default() -> (r: Self)
        ensures
            r.wf(),
            r.notifications@ == Seq::<Notification>::empty(),
    {
        NotificationStore::new()
    }
}

impl NotificationStore {
    /// No id is used twice.
    pub open spec fn wf(&self) -> bool {
        keyed::distinct_keys(self.notifications@)
    }

    /// A store without notifications.
    pub fn new() -> (r: Self)
        ensures
            r.wf(),
            r.notifications@ == Seq::<Notification>::empty(),
    {
        NotificationStore { notifications: Vec::new() }
    }

    /// Makes a notification with an id at a time. It replaces the one with its id.
    pub fn create_at(
        &mut self,
        message: String,
        title: Option<String>,
        notification_id: String,
        created_at: u64,
    ) -> (r: Notification)
        ensures
            r.status@ == "unread"@,
            r == (Notification { notification_id, title, message, created_at, status: r.status }),
            final(self).notifications@ == keyed::with(old(self).notifications@, r),
            old(self).wf() ==> final(self).wf(),
    {
        let n: Notification = Notification {
            notification_id,
            title,
            message,
            created_at,
            status: "unread".to_owned(),
        };
        proof {
            keyed::lemma_put(self.notifications@, n);
        }
        let _ = put(&mut self.notifications, n.clone());
        n
    }

    /// Makes a notification now, with a random id where none is given.
    pub fn create(
        &mut self,
        message: String,
        title: Option<String>,
        notification_id: Option<String>,
    ) -> (r: Notification)
        ensures
            r.status@ == "unread"@,
            r.message == message,
            r.title == title,
            match notification_id {
                Some(id) => r.notification_id == id,
                None => ids::is_hyphenated(r.notification_id@),
            },
            final(self).notifications@ == keyed::with(old(self).notifications@, r),
            old(self).wf() ==> final(self).wf(),
    {
        let id: String = match notification_id {
            Some(id) => id,
            None => new_uuid(),
        };
        self.create_at(message, title, id, now_unix_secs())
    }

    /// Removes a notification. Says whether there was one.
    pub fn dismiss(&mut self, notification_id: &str) -> (r: bool)
        ensures
            final(self).notifications@ == keyed::without_key(
                old(self).notifications@,
                notification_id@,
            ),
            r == (keyed::key_pos(old(self).notifications@, notification_id@) is Some),
            old(self).wf() ==> final(self).wf(),
    {
        proof {
            keyed::lemma_without_key(self.notifications@, notification_id@);
        }
        remove_key(&mut self.notifications, notification_id)
    }

    /// All notifications, newest first.
    pub fn all(&self) -> (r: Vec<Notification>)
        ensures
            newest_first(r@),
            r@.to_multiset() == self.notifications@.to_multiset(),
    {
        let copies: Vec<Notification> = copy_all(&self.notifications);
        let ghost s = copies@;
        let mut out: Vec<Notification> = Vec::new();
        proof {
            assert(s.take(0) =~= out@);
        }
        for n in it: copies
            invariant
                it.seq() == s,
                newest_first(out@),
                out@.to_multiset() == s.take(it.index() as int).to_multiset(),
        {
            proof {
                let i = it.index() as int;
                assert(s.take(i + 1) =~= s.take(i).push(s[i]));
                s.take(i).to_multiset_ensures();
            }
            put_newest_first(&mut out, n);
        }
        assert(s.take(s.len() as int) =~= s);
        out
    }
}

} // verus!
