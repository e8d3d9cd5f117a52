//! The reminder store: every chat's pending reminders together with the
//! global monotonic id allocator. Ids are handed out by a single counter,
//! are never reused, and strictly increase over the store's lifetime.

use vstd::prelude::*;

verus! {

/// A pending one-time reminder owned by a chat.
#[derive(Debug)]
pub struct Reminder {
    pub id: u32,
    pub description: String,
    pub fire_at: i64,
    pub owner_chat: i64,
}

/// The mathematical image of a [`Reminder`]: the same fields with the
/// description abstracted to a sequence of characters.
#[verifier::ext_equal]
pub struct ReminderV {
    pub id: u32,
    pub description: Seq<char>,
    pub fire_at: i64,
    pub owner_chat: i64,
}

impl View for Reminder {
    type V = ReminderV;

    open spec fn view(&self) -> ReminderV {
        ReminderV {
            id: self.id,
            description: self.description@,
            fire_at: self.fire_at,
            owner_chat: self.owner_chat,
        }
    }
}

impl Reminder {
    /// An independent copy, equal to the original.
    pub fn duplicate(&self) -> (r: Reminder)
        ensures
            r == *self,
    {
        Reminder {
            id: self.id,
            description: self.description.clone(),
            fire_at: self.fire_at,
            owner_chat: self.owner_chat,
        }
    }
}

/// Why a removal failed.
#[derive(Clone, Copy, Debug, PartialEq, Eq, Structural)]
pub enum StoreError {
    /// The chat owns no reminders at all.
    ChatNotFound,
    /// The chat owns reminders, but none with the requested id.
    ReminderNotFound,
}

/// `s` with every entry of chat `chat` carrying id `id` taken out
/// (at most one exists in a well-formed store); order otherwise kept.
pub open spec fn without(s: Seq<ReminderV>, chat: i64, id: u32) -> Seq<ReminderV>
    decreases s.len(),
{
    if s.len() == 0 {
        Seq::empty()
    } else {
        let rest = without(s.drop_last(), chat, id);
        if s.last().owner_chat == chat && s.last().id == id {
            rest
        } else {
            rest.push(s.last())
        }
    }
}

/// The subsequence of `s` owned by `chat`, in store order.
pub open spec fn of_chat(s: Seq<ReminderV>, chat: i64) -> Seq<ReminderV>
    decreases s.len(),
{
    if s.len() == 0 {
        Seq::empty()
    } else {
        let rest = of_chat(s.drop_last(), chat);
        if s.last().owner_chat == chat {
            rest.push(s.last())
        } else {
            rest
        }
    }
}

/// The store: all pending reminders, plus the id counter. The counter
/// holds the last id issued; the first reminder ever created gets id 1.
pub struct ReminderStore {
    pub(crate) items: Vec<Reminder>,
    pub(crate) counter: u32,
}

impl ReminderStore {
    /// All pending reminders, in creation order.
    pub closed spec fn entries(self) -> Seq<ReminderV> {
        self.items@.map_values(|r: Reminder| r@)
    }

    /// The last id the allocator issued; 0 before any reminder exists.
    pub closed spec fn issued(self) -> u32 {
        self.counter
    }

    /// Whether `chat` owns a reminder with id `id`.
    pub open spec fn contains_id(self, chat: i64, id: u32) -> bool {
        exists|i: int|
            0 <= i < self.entries().len() && (#[trigger] self.entries()[i]).owner_chat == chat
                && self.entries()[i].id == id
    }

    /// Whether `chat` owns any reminder.
    pub open spec fn has_chat(self, chat: i64) -> bool {
        exists|i: int|
            0 <= i < self.entries().len() && (#[trigger] self.entries()[i]).owner_chat == chat
    }

    /// Store invariant: every id lies in `1 ..= issued()`, and no two
    /// entries share an id, regardless of the chats that own them.
    pub open spec fn wf(self) -> bool {
        &&& forall|i: int|
            0 <= i < self.entries().len() ==> 1 <= (#[trigger] self.entries()[i]).id
                <= self.issued()
        &&& forall|i: int, j: int|
            0 <= i < self.entries().len() && 0 <= j < self.entries().len() && i != j ==> (
            #[trigger] self.entries()[i]).id != (#[trigger] self.entries()[j]).id
    }

    /// Crate-internal: the stored vector underlies `entries()`.
    pub(crate) proof fn lemma_entries_items(self)
        ensures
            self.entries() == self.items@.map_values(|r: Reminder| r@),
            self.issued() == self.counter,
    {
    }

    /// An empty store whose allocator has issued nothing yet.
    pub fn new() -> (r: ReminderStore)
        ensures
            r.wf(),
            r.entries() == Seq::<ReminderV>::empty(),
            r.issued() == 0,
    {
        let r = ReminderStore { items: Vec::new(), counter: 0 };
        proof {
            assert(r.entries() =~= Seq::<ReminderV>::empty());
        }
        r
    }

    /// Allocates the next id and inserts the reminder as one unit: the id
    /// is strictly greater than every id the store ever issued, and the
    /// new entry is appended with exactly the given fields.
    pub fn create(&mut self, chat: i64, description: String, fire_at: i64) -> (id: u32)
        requires
            old(self).wf(),
            old(self).issued() < u32::MAX,
        ensures
            final(self).wf(),
            id == old(self).issued() + 1,
            final(self).issued() == id,
            forall|i: int|
                0 <= i < old(self).entries().len() ==> (#[trigger] old(self).entries()[i]).id < id,
            final(self).entries() == old(self).entries().push(
                ReminderV { id, description: description@, fire_at, owner_chat: chat },
            ),
    {
        self.counter = self.counter + 1;
        let id = self.counter;
        let ghost desc_view = description@;
        self.items.push(Reminder { id, description, fire_at, owner_chat: chat });
        proof {
            assert(self.entries() =~= old(self).entries().push(
                ReminderV { id, description: desc_view, fire_at, owner_chat: chat },
            ));
        }
        id
    }

    /// Removes the reminder `id` of `chat`. Succeeds exactly when that
    /// reminder exists; otherwise reports whether the chat was unknown or
    /// merely the id, and leaves the store untouched.
    pub fn remove(&mut self, chat: i64, id: u32) -> (r: Result<(), StoreError>)
        requires
            old(self).wf(),
        ensures
            final(self).wf(),
            final(self).issued() == old(self).issued(),
            final(self).entries() == without(old(self).entries(), chat, id),
            r is Ok <==> old(self).contains_id(chat, id),
            r == Err::<(), StoreError>(StoreError::ChatNotFound) <==> !old(self).has_chat(chat),
            r == Err::<(), StoreError>(StoreError::ReminderNotFound) <==> (old(self).has_chat(chat)
                && !old(self).contains_id(chat, id)),
            !old(self).contains_id(chat, id) ==> *final(self) == *old(self),
    {
        let n = self.items.len();
        let mut i: usize = 0;
        let mut seen_chat = false;
        while i < n
            invariant
                old(self).wf(),
                *self == *old(self),
                n == self.items@.len(),
                0 <= i <= n,
                seen_chat <==> exists|j: int|
                    0 <= j < i && (#[trigger] self.entries()[j]).owner_chat == chat,
                forall|j: int|
                    0 <= j < i ==> !((#[trigger] self.entries()[j]).owner_chat == chat
                        && self.entries()[j].id == id),
            decreases n - i,
        {
            if self.items[i].owner_chat == chat {
                if self.items[i].id == id {
                    proof {
                        assert(self.entries()[i as int].owner_chat == chat
                            && self.entries()[i as int].id == id);
                        assert(old(self).contains_id(chat, id));
                        assert(old(self).has_chat(chat));
                        lemma_without_unique_match(self.entries(), chat, id, i as int);
                    }
                    self.items.remove(i);
                    proof {
                        assert(self.entries() =~= old(self).entries().remove(i as int));
                    }
                    return Ok(());
                }
                seen_chat = true;
            }
            i = i + 1;
        }
        proof {
            lemma_without_no_match(self.entries(), chat, id);
        }
        if seen_chat {
            Err(StoreError::ReminderNotFound)
        } else {
            Err(StoreError::ChatNotFound)
        }
    }

    /// The last id the allocator issued so far.
    pub fn issued_count(&self) -> (r: u32)
        ensures
            r == self.issued(),
    {
        self.counter
    }

    /// An independent copy of the chat's reminders, in store order; later
    /// store mutation is never visible through it.
    pub fn list_snapshot(&self, chat: i64) -> (r: Vec<Reminder>)
        ensures
            r@.map_values(|x: Reminder| x@) == of_chat(self.entries(), chat),
    {
        let n = self.items.len();
        let mut out: Vec<Reminder> = Vec::new();
        let mut i: usize = 0;
        while i < n
            invariant
                n == self.items@.len(),
                0 <= i <= n,
                out@.map_values(|x: Reminder| x@) == of_chat(self.entries().take(i as int), chat),
            decreases n - i,
        {
            if self.items[i].owner_chat == chat {
                out.push(self.items[i].duplicate());
            }
            i = i + 1;
            proof {
                assert(self.entries().take(i as int).drop_last() =~= self.entries().take(
                    i as int - 1,
                ));
                assert(out@.map_values(|x: Reminder| x@) =~= of_chat(
                    self.entries().take(i as int),
                    chat,
                ));
            }
        }
        proof {
            assert(self.entries().take(n as int) =~= self.entries());
        }
        out
    }
}

/// Law: in a well-formed store, every stored id is bounded by the last
/// issued id, so a fresh id (one greater) exceeds every id ever handed out.
pub proof fn lemma_ids_bounded(s: ReminderStore)
    requires
        s.wf(),
    ensures
        forall|i: int| 0 <= i < s.entries().len() ==> (#[trigger] s.entries()[i]).id <= s.issued(),
{
}

/// Law: global id uniqueness — two distinct entries of a well-formed
/// store never share an id, whichever chats own them.
pub proof fn lemma_ids_globally_unique(s: ReminderStore)
    requires
        s.wf(),
    ensures
        forall|i: int, j: int|
            0 <= i < s.entries().len() && 0 <= j < s.entries().len() && i != j ==> (
            #[trigger] s.entries()[i]).id != (#[trigger] s.entries()[j]).id,
{
}

/// Law: the id the allocator would hand out next is owned by no chat,
/// so a creation never collides with an existing reminder, wherever it
/// happens.
pub proof fn lemma_next_id_fresh(s: ReminderStore)
    requires
        s.wf(),
        s.issued() < u32::MAX,
    ensures
        forall|chat: i64| !(#[trigger] s.contains_id(chat, (s.issued() + 1) as u32)),
{
}

/// Law: a chat's snapshot taken right after a creation for that chat is
/// the previous snapshot extended by exactly the new entry.
pub proof fn lemma_snapshot_sees_new_entry(s: Seq<ReminderV>, r: ReminderV, chat: i64)
    requires
        r.owner_chat == chat,
    ensures
        of_chat(s.push(r), chat) == of_chat(s, chat).push(r),
{
    assert(s.push(r).drop_last() =~= s);
}

/// Removing an id that no entry of the chat carries changes nothing.
pub proof fn lemma_without_no_match(s: Seq<ReminderV>, chat: i64, id: u32)
    requires
        forall|i: int|
            0 <= i < s.len() ==> !((#[trigger] s[i]).owner_chat == chat && s[i].id == id),
    ensures
        without(s, chat, id) == s,
    decreases s.len(),
{
    if s.len() > 0 {
        lemma_without_no_match(s.drop_last(), chat, id);
        assert(without(s, chat, id) =~= s);
    } else {
        assert(without(s, chat, id) =~= s);
    }
}

/// When exactly one entry matches, `without` is removal at its index.
pub proof fn lemma_without_unique_match(s: Seq<ReminderV>, chat: i64, id: u32, k: int)
    requires
        0 <= k < s.len(),
        s[k].owner_chat == chat && s[k].id == id,
        forall|i: int|
            0 <= i < s.len() && i != k ==> !((#[trigger] s[i]).owner_chat == chat && s[i].id
                == id),
    ensures
        without(s, chat, id) == s.remove(k),
    decreases s.len(),
{
    if k == s.len() - 1 {
        lemma_without_no_match(s.drop_last(), chat, id);
        assert(without(s, chat, id) =~= s.remove(k));
    } else {
        lemma_without_unique_match(s.drop_last(), chat, id, k);
        assert(without(s, chat, id) =~= s.remove(k));
    }
}

} // verus!
