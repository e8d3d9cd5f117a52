//! One tick of the background scheduler: scan the store for reminders
//! whose time has come, and remove the ones that were delivered.
//!
//! Delivery itself is message-transport work and happens outside the
//! library; a tick is therefore split in two verified halves. The caller
//! first takes the due snapshot with [`due_reminders`], attempts delivery
//! of each entry, and then hands the delivered `(chat, id)` pairs to
//! [`remove_delivered`]. One failed delivery never hides the remaining
//! due reminders: the snapshot always holds every due entry, and only the
//! pairs actually delivered are removed. [`fire_due`] is the whole tick
//! for the case that every delivery succeeds.

use vstd::prelude::*;

use crate::store::{Reminder, ReminderStore, ReminderV, without};

verus! {

/// The scheduler's default tick interval, in seconds.
pub const DEFAULT_TICK_INTERVAL_SECS: u64 = 60;

/// The entries of `s` already due at `now`, in store order.
pub open spec fn due_of(s: Seq<ReminderV>, now: i64) -> Seq<ReminderV>
    decreases s.len(),
{
    if s.len() == 0 {
        Seq::empty()
    } else {
        let rest = due_of(s.drop_last(), now);
        if s.last().fire_at <= now {
            rest.push(s.last())
        } else {
            rest
        }
    }
}

/// The entries of `s` still in the future at `now`, in store order.
pub open spec fn not_due_of(s: Seq<ReminderV>, now: i64) -> Seq<ReminderV>
    decreases s.len(),
{
    if s.len() == 0 {
        Seq::empty()
    } else {
        let rest = not_due_of(s.drop_last(), now);
        if s.last().fire_at > now {
            rest.push(s.last())
        } else {
            rest
        }
    }
}

/// `s` with each `(chat, id)` pair of `pairs` removed in turn.
pub open spec fn without_all(s: Seq<ReminderV>, pairs: Seq<(i64, u32)>) -> Seq<ReminderV>
    decreases pairs.len(),
{
    if pairs.len() == 0 {
        s
    } else {
        without(without_all(s, pairs.drop_last()), pairs.last().0, pairs.last().1)
    }
}

/// An independent copy of every reminder due at `now`, across all chats,
/// in store order: the snapshot a tick delivers from.
pub fn due_reminders(store: &ReminderStore, now: i64) -> (r: Vec<Reminder>)
    ensures
        r@.map_values(|x: Reminder| x@) == due_of(store.entries(), now),
{
    proof {
        store.lemma_entries_items();
    }
    let n = store.items.len();
    let mut out: Vec<Reminder> = Vec::new();
    let mut i: usize = 0;
    while i < n
        invariant
            n == store.items@.len(),
            store.entries() == store.items@.map_values(|x: Reminder| x@),
            0 <= i <= n,
            out@.map_values(|x: Reminder| x@) == due_of(store.entries().take(i as int), now),
        decreases n - i,
    {
        if store.items[i].fire_at <= now {
            out.push(store.items[i].duplicate());
        }
        i = i + 1;
        proof {
            assert(store.entries().take(i as int).drop_last() =~= store.entries().take(
                i as int - 1,
            ));
            assert(out@.map_values(|x: Reminder| x@) =~= due_of(
                store.entries().take(i as int),
                now,
            ));
        }
    }
    proof {
        assert(store.entries().take(n as int) =~= store.entries());
    }
    out
}

/// Removes every delivered `(chat, id)` pair from the store, in order,
/// ignoring pairs that are already gone; nothing else is touched, and a
/// tick that delivered nothing leaves the store exactly as it was.
pub fn remove_delivered(store: &mut ReminderStore, delivered: &Vec<(i64, u32)>)
    requires
        old(store).wf(),
    ensures
        final(store).wf(),
        final(store).issued() == old(store).issued(),
        final(store).entries() == without_all(old(store).entries(), delivered@),
        delivered@.len() == 0 ==> *final(store) == *old(store),
{
    let n = delivered.len();
    let mut k: usize = 0;
    while k < n
        invariant
            store.wf(),
            store.issued() == old(store).issued(),
            n == delivered@.len(),
            0 <= k <= n,
            store.entries() == without_all(old(store).entries(), delivered@.take(k as int)),
            n == 0 ==> *store == *old(store),
        decreases n - k,
    {
        let pair = delivered[k];
        let _ = store.remove(pair.0, pair.1);
        k = k + 1;
        proof {
            assert(delivered@.take(k as int).drop_last() =~= delivered@.take(k as int - 1));
        }
    }
    proof {
        assert(delivered@.take(n as int) =~= delivered@);
    }
}

/// One whole tick in which every delivery succeeds: returns an
/// independent copy of exactly the reminders due at `now` and removes
/// them from the store; reminders whose time has not come are untouched,
/// and a tick with nothing due leaves the store exactly as it was.
pub fn fire_due(store: &mut ReminderStore, now: i64) -> (fired: Vec<Reminder>)
    requires
        old(store).wf(),
    ensures
        final(store).wf(),
        final(store).issued() == old(store).issued(),
        fired@.map_values(|x: Reminder| x@) == due_of(old(store).entries(), now),
        final(store).entries() == not_due_of(old(store).entries(), now),
        due_of(old(store).entries(), now).len() == 0 ==> *final(store) == *old(store),
{
    proof {
        old(store).lemma_entries_items();
    }
    let n = store.items.len();
    let mut fired: Vec<Reminder> = Vec::new();
    let mut kept: Vec<Reminder> = Vec::new();
    let mut i: usize = 0;
    while i < n
        invariant
            *store == *old(store),
            n == store.items@.len(),
            store.entries() == store.items@.map_values(|x: Reminder| x@),
            0 <= i <= n,
            fired@.map_values(|x: Reminder| x@) == due_of(store.entries().take(i as int), now),
            kept@.map_values(|x: Reminder| x@) == not_due_of(store.entries().take(i as int), now),
        decreases n - i,
    {
        if store.items[i].fire_at <= now {
            fired.push(store.items[i].duplicate());
        } else {
            kept.push(store.items[i].duplicate());
        }
        i = i + 1;
        proof {
            assert(store.entries().take(i as int).drop_last() =~= store.entries().take(
                i as int - 1,
            ));
            assert(fired@.map_values(|x: Reminder| x@) =~= due_of(
                store.entries().take(i as int),
                now,
            ));
            assert(kept@.map_values(|x: Reminder| x@) =~= not_due_of(
                store.entries().take(i as int),
                now,
            ));
        }
    }
    proof {
        assert(store.entries().take(n as int) =~= store.entries());
    }
    if fired.len() > 0 {
        proof {
            lemma_not_due_wf(old(store).entries(), now, old(store).issued());
        }
        store.items = kept;
        proof {
            store.lemma_entries_items();
            assert(store.entries() =~= not_due_of(old(store).entries(), now));
        }
    } else {
        proof {
            lemma_due_empty_keeps_all(old(store).entries(), now);
        }
    }
    fired
}

/// Law: a tick with no due reminders keeps every entry — the store's
/// contents are an invariant of such a tick.
pub proof fn lemma_due_empty_keeps_all(s: Seq<ReminderV>, now: i64)
    requires
        due_of(s, now).len() == 0,
    ensures
        not_due_of(s, now) == s,
    decreases s.len(),
{
    if s.len() > 0 {
        if s.last().fire_at <= now {
            assert(due_of(s, now).len() == due_of(s.drop_last(), now).len() + 1);
        } else {
            lemma_due_empty_keeps_all(s.drop_last(), now);
            assert(not_due_of(s, now) =~= s);
        }
    } else {
        assert(not_due_of(s, now) =~= s);
    }
}

/// The surviving entries of a tick are entries of the old store, their
/// ids stay within the allocator's bound, and they stay pairwise
/// distinct: the scan preserves the store invariant.
pub proof fn lemma_not_due_wf(s: Seq<ReminderV>, now: i64, bound: u32)
    requires
        forall|i: int| 0 <= i < s.len() ==> 1 <= (#[trigger] s[i]).id <= bound,
        forall|i: int, j: int|
            0 <= i < s.len() && 0 <= j < s.len() && i != j ==> (#[trigger] s[i]).id != (
            #[trigger] s[j]).id,
    ensures
        forall|k: int|
            0 <= k < not_due_of(s, now).len() ==> exists|j: int|
                0 <= j < s.len() && #[trigger] not_due_of(s, now)[k] == s[j],
        forall|k: int|
            0 <= k < not_due_of(s, now).len() ==> 1 <= (#[trigger] not_due_of(s, now)[k]).id
                <= bound,
        forall|k1: int, k2: int|
            0 <= k1 < not_due_of(s, now).len() && 0 <= k2 < not_due_of(s, now).len() && k1 != k2
                ==> (#[trigger] not_due_of(s, now)[k1]).id != (#[trigger] not_due_of(s, now)[k2]).id,
    decreases s.len(),
{
    if s.len() > 0 {
        let d = s.drop_last();
        let nd = not_due_of(s, now);
        let ndd = not_due_of(d, now);
        assert forall|i: int| 0 <= i < d.len() implies 1 <= (#[trigger] d[i]).id <= bound by {
            assert(d[i] == s[i]);
        }
        assert forall|i: int, j: int|
            0 <= i < d.len() && 0 <= j < d.len() && i != j implies (#[trigger] d[i]).id != (
        #[trigger] d[j]).id by {
            assert(d[i] == s[i] && d[j] == s[j]);
        }
        lemma_not_due_wf(d, now, bound);
        assert forall|k: int| 0 <= k < nd.len() implies exists|j: int|
            0 <= j < s.len() && #[trigger] nd[k] == s[j] by {
            if s.last().fire_at > now && k == nd.len() - 1 {
                assert(nd[k] == s[s.len() - 1]);
            } else {
                assert(nd[k] == ndd[k]);
                let j = choose|j: int| 0 <= j < d.len() && ndd[k] == d[j];
                assert(nd[k] == s[j]);
            }
        }
        assert forall|k: int| 0 <= k < nd.len() implies 1 <= (#[trigger] nd[k]).id <= bound by {
            if s.last().fire_at > now && k == nd.len() - 1 {
                assert(nd[k] == s[s.len() - 1]);
            } else {
                assert(nd[k] == ndd[k]);
            }
        }
        assert forall|k1: int, k2: int|
            0 <= k1 < nd.len() && 0 <= k2 < nd.len() && k1 != k2 implies (#[trigger] nd[k1]).id
            != (#[trigger] nd[k2]).id by {
            if s.last().fire_at > now {
                if k1 == nd.len() - 1 {
                    assert(nd[k2] == ndd[k2]);
                    let j = choose|j: int| 0 <= j < d.len() && ndd[k2] == d[j];
                    assert(nd[k1] == s[s.len() - 1]);
                    assert(nd[k2] == s[j] && j != s.len() - 1);
                } else if k2 == nd.len() - 1 {
                    assert(nd[k1] == ndd[k1]);
                    let j = choose|j: int| 0 <= j < d.len() && ndd[k1] == d[j];
                    assert(nd[k2] == s[s.len() - 1]);
                    assert(nd[k1] == s[j] && j != s.len() - 1);
                } else {
                    assert(nd[k1] == ndd[k1] && nd[k2] == ndd[k2]);
                }
            } else {
                assert(nd[k1] == ndd[k1] && nd[k2] == ndd[k2]);
            }
        }
    }
}

} // verus!
