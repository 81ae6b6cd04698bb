//! The store: string keys with blob values, an index of pending expirations,
//! and the registry of publish/subscribe channels.
//!
//! `State` is what the store holds, and `StateView` what that is as a
//! mathematical value. Time is a count of milliseconds since the store's
//! clock was started; a `State` never reads the clock, every instant is
//! handed to it. `Db` is a handle on a `State` that is shared behind a lock:
//! it reads the clock and wakes the purge task.

use crate::blob::blob_bytes;
use crate::clock::Clock;
use crate::wake::share;
use bytes::Bytes;
use std::collections::BTreeMap;
use std::sync::Arc;
use tokio::sync::broadcast::error::SendError;
use tokio::sync::broadcast::{Receiver, Sender};
use tokio::sync::Notify;
use vstd::hash_map::StringHashMap;
use vstd::prelude::*;
use vstd::rwlock::RwLock;
use vstd::std_specs::cmp::OrdSpec;
use vstd::std_specs::iter::IteratorSpec;

verus! {

/// Messages that a channel keeps for a subscriber that has fallen behind.
pub const CHANNEL_CAPACITY: usize = 1024;

/// One stored value.
pub struct Entry {
    id: u64,
    data: Bytes,
    expires_at: Option<u64>,
}

/// What an entry is: its id, its bytes and the instant at which it expires.
pub struct EntryView {
    pub id: u64,
    pub data: Seq<u8>,
    pub expires_at: Option<u64>,
}

impl View for Entry {
    type V = EntryView;

    closed spec fn view(&self) -> EntryView {
        EntryView { id: self.id, data: blob_bytes(self.data), expires_at: self.expires_at }
    }
}

/// The store as a mathematical value.
pub struct StateView {
    /// The entries by key.
    pub entries: Map<Seq<char>, EntryView>,
    /// The pending expirations: `(instant, id)` to the key that expires.
    pub expirations: Map<(u64, u64), Seq<char>>,
    /// The channels: each name with the sender of its broadcast channel.
    pub channels: Map<Seq<char>, Sender<Bytes>>,
    /// The id that the next `set` hands out.
    pub next_id: u64,
    /// Whether the store is shutting down.
    pub shutdown: bool,
}

/// The instant at which a value set at `now` with time-to-live `expire` expires.
pub open spec fn expiry(expire: Option<u64>, now: u64) -> Option<u64> {
    match expire {
        Some(ttl) => Some((now + ttl) as u64),
        None => None,
    }
}

impl StateView {
    /// The empty store.
    pub open spec fn empty() -> StateView {
        StateView {
            entries: Map::empty(),
            expirations: Map::empty(),
            channels: Map::empty(),
            next_id: 0,
            shutdown: false,
        }
    }

    /// Every entry that expires has its one pair in the index, every pair of
    /// the index belongs to such an entry, no two entries share an id, and
    /// every id in use is below `next_id`.
    pub open spec fn wf(self) -> bool {
        &&& forall|key: Seq<char>| #[trigger]
            self.entries.contains_key(key) ==> self.entries[key].id < self.next_id
        &&& forall|key: Seq<char>, other: Seq<char>|
            #[trigger] self.entries.contains_key(key) && #[trigger] self.entries.contains_key(other)
                && key != other ==> self.entries[key].id != self.entries[other].id
        &&& forall|key: Seq<char>| #[trigger]
            self.entries.contains_key(key) ==> (self.entries[key].expires_at matches Some(when)
                ==> self.expirations.contains_key((when, self.entries[key].id))
                && self.expirations[(when, self.entries[key].id)] == key)
        &&& forall|slot: (u64, u64)| #[trigger]
            self.expirations.contains_key(slot) ==> self.entries.contains_key(
                self.expirations[slot],
            ) && self.entries[self.expirations[slot]].id == slot.1
                && self.entries[self.expirations[slot]].expires_at == Some(slot.0)
    }

    /// The bytes stored under `key`, if any.
    pub open spec fn get(self, key: Seq<char>) -> Option<Seq<u8>> {
        if self.entries.contains_key(key) {
            Some(self.entries[key].data)
        } else {
            None
        }
    }

    /// Whether `when` is the earliest instant in the index.
    pub open spec fn earliest_is(self, when: u64) -> bool {
        &&& exists|id: u64| self.expirations.contains_key((when, id))
        &&& forall|slot: (u64, u64)| #[trigger]
            self.expirations.contains_key(slot) ==> when <= slot.0
    }

    /// Whether `r` is the instant of the next expiration: the earliest in the
    /// index, or nothing when the index is empty.
    pub open spec fn next_expiration_is(self, r: Option<u64>) -> bool {
        match r {
            Some(when) => self.earliest_is(when),
            None => forall|slot: (u64, u64)| !self.expirations.contains_key(slot),
        }
    }

    /// The index without the pair of the entry now stored under `key`.
    pub open spec fn index_without(self, key: Seq<char>) -> Map<(u64, u64), Seq<char>> {
        if self.entries.contains_key(key) && self.entries[key].expires_at is Some {
            self.expirations.remove((self.entries[key].expires_at->0, self.entries[key].id))
        } else {
            self.expirations
        }
    }

    /// The store after `key` is set to `data` at `now`, to live for `expire`
    /// milliseconds if that is given.
    pub open spec fn set(self, key: Seq<char>, data: Seq<u8>, expire: Option<u64>, now: u64) -> StateView {
        let entry = EntryView { id: self.next_id, data, expires_at: expiry(expire, now) };
        StateView {
            entries: self.entries.insert(key, entry),
            expirations: match entry.expires_at {
                Some(when) => self.index_without(key).insert((when, entry.id), key),
                None => self.index_without(key),
            },
            next_id: (self.next_id + 1) as u64,
            ..self
        }
    }

    /// Whether a `set` at `now` has to wake the purge task: the new entry
    /// expires, and earlier than anything that was in the index.
    pub open spec fn set_notifies(self, expire: Option<u64>, now: u64) -> bool {
        &&& expiry(expire, now) is Some
        &&& exists|slot: (u64, u64)| self.expirations.contains_key(slot)
        &&& forall|slot: (u64, u64)| #[trigger]
            self.expirations.contains_key(slot) ==> expiry(expire, now)->0 < slot.0
    }

    /// A `set` keeps the store well formed: the new entry gets a fresh id and
    /// its one pair in the index, and the pair of the entry that it replaces
    /// leaves the index.
    pub proof fn lemma_set_wf(self, key: Seq<char>, data: Seq<u8>, expire: Option<u64>, now: u64)
        requires
            self.wf(),
            self.next_id < u64::MAX,
        ensures
            self.set(key, data, expire, now).wf(),
    {
        let after = self.set(key, data, expire, now);
        assert forall|k: Seq<char>| #[trigger] after.entries.contains_key(k) implies (
        after.entries[k].expires_at matches Some(when) ==> after.expirations.contains_key(
            (when, after.entries[k].id),
        ) && after.expirations[(when, after.entries[k].id)] == k) by {
            if k != key {
                assert(self.entries.contains_key(k));
            }
        }
        assert forall|slot: (u64, u64)| #[trigger] after.expirations.contains_key(slot) implies (
        after.entries.contains_key(after.expirations[slot]) && after.entries[after.expirations[slot]].id
            == slot.1 && after.entries[after.expirations[slot]].expires_at == Some(slot.0)) by {
            if slot.1 != self.next_id {
                assert(self.expirations.contains_key(slot));
                assert(self.entries.contains_key(self.expirations[slot]));
            }
        }
    }

    /// Whether an entry is due at `now`.
    pub open spec fn due(entry: EntryView, now: u64) -> bool {
        entry.expires_at matches Some(when) && when <= now
    }

    /// The store after the entries due at `now` are purged. A store that is
    /// shutting down purges nothing.
    pub open spec fn purge(self, now: u64) -> StateView {
        if self.shutdown {
            self
        } else {
            StateView {
                entries: Map::new(
                    |key: Seq<char>| self.entries.contains_key(key) && !Self::due(self.entries[key], now),
                    |key: Seq<char>| self.entries[key],
                ),
                expirations: Map::new(
                    |slot: (u64, u64)| self.expirations.contains_key(slot) && slot.0 > now,
                    |slot: (u64, u64)| self.expirations[slot],
                ),
                ..self
            }
        }
    }

    /// The store after a subscription to `channel`: a channel that exists
    /// keeps its sender, and so does every other channel; a channel that does
    /// not exist is created with `sender`.
    pub open spec fn subscribe(self, channel: Seq<char>, sender: Sender<Bytes>) -> StateView {
        StateView {
            channels: if self.channels.contains_key(channel) {
                self.channels
            } else {
                self.channels.insert(channel, sender)
            },
            ..self
        }
    }

    /// Whether the store can take a value that is set at `now` to live for
    /// `expire` milliseconds: it has an id left, and the instant at which the
    /// value expires can be counted.
    pub open spec fn can_set(self, expire: Option<u64>, now: u64) -> bool {
        &&& self.next_id < u64::MAX
        &&& expire matches Some(ttl) ==> now + ttl <= u64::MAX
    }

    /// The store once it is told to shut down.
    pub open spec fn shut_down(self) -> StateView {
        StateView { shutdown: true, ..self }
    }
}

/// What the purge task does after a round.
#[derive(Debug, Clone, Copy, PartialEq, Eq)]
pub enum PurgeWait {
    /// The store is shutting down: the task ends.
    Stop,
    /// Sleep until this instant, or until the task is notified.
    Until(u64),
    /// Nothing is to expire: wait until the task is notified.
    Notified,
}

/// One change of the store.
pub enum Step {
    Put { key: Seq<char>, data: Seq<u8>, expire: Option<u64>, now: u64 },
    Purge { now: u64 },
    Subscribe { channel: Seq<char>, sender: Sender<Bytes> },
    ShutDown,
}

impl Step {
    /// Whether the step leaves alone a value that was set under `key` to
    /// expire at `expires_at`: it does not set `key` again, and does not purge
    /// at or after that instant.
    pub open spec fn leaves_alone(self, key: Seq<char>, expires_at: Option<u64>) -> bool {
        match self {
            Step::Put { key: other, .. } => other != key,
            Step::Purge { now } => expires_at matches Some(when) ==> now < when,
            _ => true,
        }
    }

    /// Whether the store has an id left for the step, where it needs one.
    pub open spec fn fits(self, db: StateView) -> bool {
        self is Put ==> db.next_id < u64::MAX
    }
}

impl StateView {
    /// The store after `step`.
    pub open spec fn step(self, step: Step) -> StateView {
        match step {
            Step::Put { key, data, expire, now } => self.set(key, data, expire, now),
            Step::Purge { now } => self.purge(now),
            Step::Subscribe { channel, sender } => self.subscribe(channel, sender),
            Step::ShutDown => self.shut_down(),
        }
    }

    /// The store after `steps`, in order.
    pub open spec fn run(self, steps: Seq<Step>) -> StateView
        decreases steps.len(),
    {
        if steps.len() == 0 {
            self
        } else {
            self.run(steps.drop_last()).step(steps.last())
        }
    }

    /// A value that was set is read back, whatever happens to the store in
    /// between, until its key is set again or a purge finds it due.
    pub proof fn lemma_get_after_set(
        self,
        key: Seq<char>,
        data: Seq<u8>,
        expire: Option<u64>,
        now: u64,
        steps: Seq<Step>,
    )
        requires
            forall|i: int| 0 <= i < steps.len() ==> (#[trigger] steps[i]).leaves_alone(key, expiry(expire, now)),
        ensures
            self.set(key, data, expire, now).run(steps).get(key) == Some(data),
            self.set(key, data, expire, now).run(steps).entries[key].expires_at == expiry(expire, now),
        decreases steps.len(),
    {
        if steps.len() > 0 {
            self.lemma_get_after_set(key, data, expire, now, steps.drop_last());
            assert(steps.last() == steps[steps.len() - 1]);
            assert(steps.last().leaves_alone(key, expiry(expire, now)));
        }
    }

    /// The empty store is well formed, and every step keeps a store well
    /// formed.
    pub proof fn lemma_step_wf(self, step: Step)
        requires
            self.wf(),
            step.fits(self),
        ensures
            StateView::empty().wf(),
            self.step(step).wf(),
    {
        match step {
            Step::Put { key, data, expire, now } => {
                self.lemma_set_wf(key, data, expire, now);
            },
            Step::Purge { now } => {
                let after = self.purge(now);
                assert forall|slot: (u64, u64)| #[trigger] after.expirations.contains_key(slot) implies (
                after.entries.contains_key(after.expirations[slot]) && after.entries[after.expirations[slot]].id
                    == slot.1 && after.entries[after.expirations[slot]].expires_at == Some(slot.0)) by {
                    assert(self.expirations.contains_key(slot));
                }
            },
            _ => {},
        }
    }

    /// In a well-formed store an entry that expires has exactly one pair in
    /// the index: the one made of its instant and its id.
    pub proof fn lemma_one_pair(self, key: Seq<char>, slot: (u64, u64))
        requires
            self.wf(),
            self.entries.contains_key(key),
            self.entries[key].expires_at is Some,
        ensures
            (self.expirations.contains_key(slot) && self.expirations[slot] == key) <==> slot == (
                self.entries[key].expires_at->0,
                self.entries[key].id,
            ),
    {
    }

    /// A second subscription to a channel changes nothing in the store: the
    /// channel keeps the sender that the first one found or made.
    pub proof fn lemma_subscribe_twice(
        self,
        channel: Seq<char>,
        first: Sender<Bytes>,
        second: Sender<Bytes>,
    )
        ensures
            self.subscribe(channel, first).subscribe(channel, second) == self.subscribe(
                channel,
                first,
            ),
            self.subscribe(channel, first).channels.contains_key(channel),
            self.channels.submap_of(self.subscribe(channel, first).channels),
    {
    }

    /// Setting a key twice to the same bytes leaves what a single `set`
    /// leaves, but for the entry's id and its expiration: the same keys hold
    /// the same bytes, every other entry and its pair in the index are
    /// untouched, and the key has the one pair of its second setting.
    pub proof fn lemma_set_twice(
        self,
        key: Seq<char>,
        data: Seq<u8>,
        first: (Option<u64>, u64),
        second: (Option<u64>, u64),
    )
        requires
            self.wf(),
            self.next_id < u64::MAX - 1,
        ensures
            ({
                let once = self.set(key, data, first.0, first.1);
                let twice = once.set(key, data, second.0, second.1);
                &&& twice.wf()
                &&& twice.entries.dom() == once.entries.dom()
                &&& forall|k: Seq<char>| twice.get(k) == once.get(k)
                &&& forall|k: Seq<char>| k != key && once.entries.contains_key(k) ==> twice.entries[k] == once.entries[k]
                &&& forall|slot: (u64, u64)| slot.1 < self.next_id ==> (twice.expirations.contains_key(slot) <==> once.expirations.contains_key(slot))
                &&& forall|slot: (u64, u64)| slot.1 < self.next_id && once.expirations.contains_key(slot) ==> twice.expirations[slot] == once.expirations[slot]
                &&& twice.entries[key].expires_at == expiry(second.0, second.1)
                &&& twice.channels == once.channels
                &&& twice.shutdown == once.shutdown
            }),
    {
        let once = self.set(key, data, first.0, first.1);
        self.lemma_set_wf(key, data, first.0, first.1);
        once.lemma_set_wf(key, data, second.0, second.1);
        let twice = once.set(key, data, second.0, second.1);
        assert(twice.entries.dom() =~= once.entries.dom());
    }
}

/// What the store holds. One is made when the server starts, and lives
/// behind the lock of a `Db`.
pub struct State {
    entries: StringHashMap<Entry>,
    pub_sub: StringHashMap<Sender<Bytes>>,
    expirations: BTreeMap<(u64, u64), String>,
    next_id: u64,
    shutdown: bool,
}

impl View for State {
    type V = StateView;

    closed spec fn view(&self) -> StateView {
        StateView {
            entries: self.entries@.map_values(|e: Entry| e@),
            expirations: self.expirations@.map_values(|s: String| s@),
            channels: self.pub_sub@,
            next_id: self.next_id,
            shutdown: self.shutdown,
        }
    }
}

/// How many receivers a message reached, from what the channel reported: a
/// send that failed reached none.
pub fn receivers_reached(sent: Result<usize, SendError<Bytes>>) -> (n: usize)
    ensures
        n == match sent {
            Ok(receivers) => receivers,
            Err(_) => 0,
        },
{
    match sent {
        Ok(receivers) => receivers,
        Err(_) => 0,
    }
}

impl State {
    /// An empty store.
    pub fn new() -> (db: State)
        ensures
            db@ == StateView::empty(),
            db@.wf(),
    {
        let db = State {
            entries: StringHashMap::new(),
            pub_sub: StringHashMap::new(),
            expirations: BTreeMap::new(),
            next_id: 0,
            shutdown: false,
        };
        assert(db@.entries =~= Map::empty());
        assert(db@.expirations =~= Map::empty());
        assert(db@.channels =~= Map::empty());
        db
    }

    /// The value stored under `key`: a handle that shares the stored bytes.
    pub fn get(&self, key: &str) -> (value: Option<Bytes>)
        ensures
            match value {
                Some(blob) => self@.get(key@) == Some(blob_bytes(blob)),
                None => self@.get(key@) is None,
            },
    {
        match self.entries.get(key) {
            Some(entry) => Some(entry.data.clone()),
            None => None,
        }
    }

    /// The first pair of the index in its order: by instant, then by id.
    fn first_slot(&self) -> (first: Option<(u64, u64)>)
        ensures
            match first {
                Some(slot) => self.expirations@.contains_key(slot) && forall|other: (u64, u64)| #[trigger]
                    self.expirations@.contains_key(other) ==> slot.0 <= other.0,
                None => forall|other: (u64, u64)| !self.expirations@.contains_key(other),
            },
    {
        broadcast use vstd::std_specs::btree::group_btree_axioms;
        broadcast use vstd::laws_cmp::group_laws_cmp;

        let ghost slots = vstd::std_specs::btree::spec_keys_iter(&self.expirations).remaining();
        for slot in it: self.expirations.keys()
            invariant
                it.index() == 0,
                it.seq() == slots,
        {
            proof {
                assert(slots.unref().to_set() == self.expirations@.dom());
                assert(slots.unref()[0] == *slot);
                assert(slots.unref().to_set().contains(*slot));
                assert forall|other: (u64, u64)| #[trigger]
                    self.expirations@.contains_key(other) implies slot.0 <= other.0 by {
                    assert(slots.unref().to_set().contains(other));
                    let j = choose|j: int| 0 <= j < slots.len() && slots.unref()[j] == other;
                    if j > 0 {
                        assert(vstd::laws_cmp::obeys_cmp::<u64>());
                        assert(vstd::laws_cmp::obeys_cmp::<(u64, u64)>());
                        assert(vstd::laws_cmp::obeys_cmp::<&(u64, u64)>());
                        assert(vstd::std_specs::btree::increasing_seq(slots));
                        assert(OrdSpec::cmp_spec(&slots[0], &slots[j]) is Less);
                    }
                }
            }
            return Some(*slot);
        }
        proof {
            assert(slots.len() == 0);
            assert(slots.unref().to_set() == self.expirations@.dom());
            assert forall|other: (u64, u64)| !self.expirations@.contains_key(other) by {
                if self.expirations@.contains_key(other) {
                    assert(slots.unref().to_set().contains(other));
                }
            }
        }
        None
    }

    /// The instant of the next expiration, if any entry is to expire.
    pub fn next_expiration(&self) -> (next: Option<u64>)
        ensures
            self@.next_expiration_is(next),
    {
        match self.first_slot() {
            Some(slot) => {
                proof {
                    assert(self@.expirations.contains_key((slot.0, slot.1)));
                    assert forall|other: (u64, u64)| #[trigger]
                        self@.expirations.contains_key(other) implies slot.0 <= other.0 by {
                        assert(self.expirations@.contains_key(other));
                    }
                }
                Some(slot.0)
            },
            None => None,
        }
    }

    /// Sets `key` to `value` at the instant `now`, to live for `expire`
    /// milliseconds if that is given. The value that the key had is replaced,
    /// and its pending expiration with it. Returns whether the purge task has
    /// to be woken, which the caller does once it has let go of the store.
    pub fn set(&mut self, key: String, value: Bytes, expire: Option<u64>, now: u64) -> (notify: bool)
        requires
            old(self)@.wf(),
            old(self)@.can_set(expire, now),
        ensures
            final(self)@ == old(self)@.set(key@, blob_bytes(value), expire, now),
            final(self)@.wf(),
            notify == old(self)@.set_notifies(expire, now),
    {
        broadcast use vstd::std_specs::btree::group_btree_axioms;
        broadcast use vstd::laws_cmp::group_laws_cmp;

        let id = self.next_id;
        self.next_id = self.next_id + 1;
        assert(self@.expirations =~= old(self)@.expirations);

        let (notify, expires_at) = match expire {
            Some(ttl) => {
                let when = now + ttl;
                let notify = match self.next_expiration() {
                    Some(next) => next > when,
                    None => false,
                };
                self.expirations.insert((when, id), key.clone());
                (notify, Some(when))
            },
            None => (false, None),
        };
        let prev = match self.entries.get(key.as_str()) {
            Some(entry) => Some((entry.expires_at, entry.id)),
            None => None,
        };
        let ghost name = key@;
        self.entries.insert(key, Entry { id, data: value, expires_at });
        match prev {
            Some((Some(when), prev_id)) => {
                self.expirations.remove(&(when, prev_id));
            },
            _ => {},
        }
        proof {
            let before = old(self)@;
            let after = before.set(name, blob_bytes(value), expire, now);
            assert(self@.entries =~= after.entries);
            assert(self@.expirations =~= after.expirations);
            before.lemma_set_wf(name, blob_bytes(value), expire, now);
        }
        notify
    }

    /// Purges every entry that is due at `now`, and returns the instant of
    /// the next expiration among those that stay, for the purge task to sleep
    /// until. A store that is shutting down is left alone.
    pub fn purge_expired_keys(&mut self, now: u64) -> (next: Option<u64>)
        requires
            old(self)@.wf(),
        ensures
            final(self)@ == old(self)@.purge(now),
            final(self)@.wf(),
            old(self)@.shutdown ==> next is None,
            !old(self)@.shutdown ==> final(self)@.next_expiration_is(next),
    {
        broadcast use vstd::std_specs::btree::group_btree_axioms;
        broadcast use vstd::laws_cmp::group_laws_cmp;

        if self.shutdown {
            return None;
        }
        let ghost before = self@;
        loop
            invariant
                before == old(self)@,
                before.wf(),
                self@.wf(),
                !before.shutdown,
                self@.shutdown == before.shutdown,
                self@.next_id == before.next_id,
                self@.channels == before.channels,
                forall|slot: (u64, u64)| #[trigger]
                    self@.expirations.contains_key(slot) ==> before.expirations.contains_key(slot)
                        && self@.expirations[slot] == before.expirations[slot],
                forall|slot: (u64, u64)| #[trigger]
                    before.expirations.contains_key(slot) && slot.0 > now
                        ==> self@.expirations.contains_key(slot),
                forall|key: Seq<char>| #[trigger]
                    self@.entries.contains_key(key) ==> before.entries.contains_key(key)
                        && self@.entries[key] == before.entries[key],
                forall|key: Seq<char>| #[trigger]
                    before.entries.contains_key(key) && !StateView::due(before.entries[key], now)
                        ==> self@.entries.contains_key(key),
            decreases self.expirations@.len(),
        {
            let slot = match self.first_slot() {
                Some(slot) => slot,
                None => {
                    proof {
                        assert(self@.entries =~= before.purge(now).entries);
                        assert(self@.expirations =~= before.purge(now).expirations);
                    }
                    return None;
                },
            };
            if slot.0 > now {
                proof {
                    assert forall|other: (u64, u64)| #[trigger]
                        self@.expirations.contains_key(other) implies other.0 > now by {
                        assert(self.expirations@.contains_key(other));
                    }
                    assert(self@.entries =~= before.purge(now).entries);
                    assert(self@.expirations =~= before.purge(now).expirations);
                    assert(self@.expirations.contains_key((slot.0, slot.1)));
                }
                return Some(slot.0);
            }
            let ghost here = self@;
            assert(here.expirations.contains_key(slot));
            let name = match self.expirations.get(&slot) {
                Some(name) => name.clone(),
                None => vstd::pervasive::unreached(),
            };
            assert(name@ == here.expirations[slot]);
            self.entries.remove(name.as_str());
            self.expirations.remove(&slot);
            proof {
                assert(self@.entries =~= here.entries.remove(name@));
                assert(self@.expirations =~= here.expirations.remove(slot));
                assert(here.entries.contains_key(name@));
                assert forall|key: Seq<char>| #[trigger] self@.entries.contains_key(key) implies (
                self@.entries[key].expires_at matches Some(when) ==> self@.expirations.contains_key(
                    (when, self@.entries[key].id),
                ) && self@.expirations[(when, self@.entries[key].id)] == key) by {
                    assert(here.entries.contains_key(key));
                }
                assert forall|other: (u64, u64)| #[trigger]
                    self@.expirations.contains_key(other) implies (self@.entries.contains_key(
                    self@.expirations[other],
                ) && self@.entries[self@.expirations[other]].id == other.1
                    && self@.entries[self@.expirations[other]].expires_at == Some(other.0)) by {
                    assert(here.expirations.contains_key(other));
                }
            }
        }
    }

    /// One round of the purge task at the instant `now`: stop if the store is
    /// shutting down; otherwise purge what is due and say what to wait for.
    pub fn purge_task_step(&mut self, now: u64) -> (wait: PurgeWait)
        requires
            old(self)@.wf(),
        ensures
            final(self)@ == old(self)@.purge(now),
            final(self)@.wf(),
            old(self)@.shutdown <==> wait is Stop,
            wait matches PurgeWait::Until(when) ==> final(self)@.next_expiration_is(Some(when)),
            wait is Notified ==> final(self)@.next_expiration_is(None),
    {
        if self.is_shutdown() {
            return PurgeWait::Stop;
        }
        match self.purge_expired_keys(now) {
            Some(when) => PurgeWait::Until(when),
            None => PurgeWait::Notified,
        }
    }

    /// One round of the purge task at the present instant, which is read from
    /// `clock`: what `purge_task_step` does at some instant. Where the clock is
    /// beyond what the store can count nothing is purged, and the task waits
    /// to be notified unless the store is shutting down.
    pub fn purge_task_step_now(&mut self, clock: &Clock) -> (wait: PurgeWait)
        requires
            old(self)@.wf(),
        ensures
            final(self)@.wf(),
            old(self)@.shutdown <==> wait is Stop,
            final(self)@ == old(self)@ || exists|now: u64| final(self)@ == #[trigger] old(self)@.purge(now),
            wait matches PurgeWait::Until(when) ==> final(self)@.next_expiration_is(Some(when)),
            wait is Notified ==> final(self)@ == old(self)@ || final(self)@.next_expiration_is(None),
    {
        match clock.now() {
            Some(now) => self.purge_task_step(now),
            None => if self.is_shutdown() {
                PurgeWait::Stop
            } else {
                PurgeWait::Notified
            },
        }
    }

    /// Whether the store can take a value that is set at `now` to live for
    /// `expire` milliseconds.
    pub fn can_set(&self, expire: Option<u64>, now: u64) -> (fits: bool)
        ensures
            fits == self@.can_set(expire, now),
    {
        self.next_id < u64::MAX && match expire {
            Some(ttl) => ttl <= u64::MAX - now,
            None => true,
        }
    }

    /// Sets `key` to `value` at the instant `now` as `set` does, and returns
    /// whether the purge task has to be woken, where the store can take the
    /// value. Where it cannot, nothing is returned and the store is left as it
    /// is.
    pub fn try_set(&mut self, key: String, value: Bytes, expire: Option<u64>, now: u64) -> (notify:
        Option<bool>)
        requires
            old(self)@.wf(),
        ensures
            final(self)@.wf(),
            match notify {
                Some(wake) => old(self)@.can_set(expire, now) && final(self)@ == old(self)@.set(
                    key@,
                    blob_bytes(value),
                    expire,
                    now,
                ) && wake == old(self)@.set_notifies(expire, now),
                None => !old(self)@.can_set(expire, now) && final(self)@ == old(self)@,
            },
    {
        if self.can_set(expire, now) {
            Some(self.set(key, value, expire, now))
        } else {
            None
        }
    }

    /// Whether the store has an id left for one more `set`.
    pub fn has_id_left(&self) -> (left: bool)
        ensures
            left == (self@.next_id < u64::MAX),
    {
        self.next_id < u64::MAX
    }

    /// Whether the store is shutting down.
    pub fn is_shutdown(&self) -> (b: bool)
        ensures
            b == self@.shutdown,
    {
        self.shutdown
    }

    /// Tells the store to shut down. The caller then wakes the purge task,
    /// which stops at its next wake.
    pub fn shutdown_purge_task(&mut self)
        ensures
            final(self)@ == old(self)@.shut_down(),
    {
        self.shutdown = true;
    }

    /// Publishes `value` on the channel `key` and returns how many receivers
    /// were attached to it at that moment: none where the channel does not
    /// exist or has lost its receivers.
    pub fn publish(&self, key: &str, value: Bytes) -> (n: usize)
        ensures
            !self@.channels.contains_key(key@) ==> n == 0,
    {
        match self.pub_sub.get(key) {
            Some(tx) => receivers_reached(tx.send(value)),
            None => 0,
        }
    }

    /// A receiver for the channel `key`, which is created if it does not
    /// exist. A channel that exists keeps its sender, and so does every other
    /// channel, so that the receivers handed out before stay attached.
    pub fn subscribe(&mut self, key: String) -> (rx: Receiver<Bytes>)
        ensures
            final(self)@.channels.contains_key(key@),
            final(self)@ == old(self)@.subscribe(key@, final(self)@.channels[key@]),
    {
        match self.pub_sub.get(key.as_str()) {
            Some(tx) => {
                let rx = tx.subscribe();
                rx
            },
            None => {
                let (tx, rx) = tokio::sync::broadcast::channel::<Bytes>(CHANNEL_CAPACITY);
                self.pub_sub.insert(key, tx);
                rx
            },
        }
    }
}

/// What the handles of one store share: the state behind its lock, the
/// notifier of the purge task, and the clock.
pub struct Shared {
    pub(crate) state: RwLock<State, spec_fn(State) -> bool>,
    pub(crate) background_task: Notify,
    pub(crate) clock: Clock,
}

/// A handle on the store. The server makes one store and hands a handle to
/// each connection and to the purge task. Every method takes the lock, does
/// its work on the state at the present instant and lets go of the lock
/// before it notifies the purge task; the lock only ever holds a well-formed
/// state. Other handles may change the store between any two calls, so what
/// a method finds in the store is promised by `State`, on the state that it
/// found, and not here.
pub struct Db {
    pub(crate) shared: Arc<Shared>,
}

impl Db {
    #[verifier::type_invariant]
    pub closed spec fn holds_well_formed_state(self) -> bool {
        forall|state: State| #[trigger] self.shared.state.inv(state) <==> state@.wf()
    }

    /// What the lock of a handle holds: the well-formed states and no other.
    pub(crate) proof fn lemma_lock_holds_well_formed_state(self)
        requires
            self.holds_well_formed_state(),
        ensures
            forall|state: State| #[trigger] self.shared.state.inv(state) <==> state@.wf(),
    {
    }

    /// A handle on a new, empty store, with its clock started. The caller
    /// starts the purge task.
    pub fn new() -> Db {
        let state = State::new();
        let lock = RwLock::<State, spec_fn(State) -> bool>::new(
            state,
            Ghost(|state: State| state@.wf()),
        );
        Db {
            shared: Arc::new(
                Shared { state: lock, background_task: Notify::new(), clock: Clock::start() },
            ),
        }
    }

    /// One more handle on the same store.
    pub fn handle(&self) -> (handle: Db)
        ensures
            handle == *self,
    {
        proof {
            use_type_invariant(self);
        }
        Db { shared: share(&self.shared) }
    }

    /// The notifier that the purge task waits on.
    pub fn background_task(&self) -> (notify: &Notify)
        ensures
            *notify == self.notifier(),
    {
        &self.shared.background_task
    }

    /// The clock of the store.
    pub fn clock(&self) -> (clock: &Clock)
        ensures
            *clock == self.timer(),
    {
        &self.shared.clock
    }

    /// The notifier that the handles of this store share.
    pub closed spec fn notifier(self) -> Notify {
        self.shared.background_task
    }

    /// The clock that the handles of this store share.
    pub closed spec fn timer(self) -> Clock {
        self.shared.clock
    }

    /// The value stored under `key` at this moment.
    pub fn get(&self, key: &str) -> Option<Bytes> {
        proof {
            use_type_invariant(self);
        }
        let guard = self.shared.state.acquire_read();
        let value = guard.borrow().get(key);
        guard.release_read();
        value
    }

    /// Sets `key` to `value`, to live for `expire` milliseconds from now if
    /// that is given, and wakes the purge task where it has to. Gives `false`
    /// and changes nothing where the store cannot take the value: it has no
    /// id left, or the instant of the expiration cannot be counted.
    pub fn set(&self, key: String, value: Bytes, expire: Option<u64>) -> (done: bool) {
        proof {
            use_type_invariant(self);
        }
        let (mut state, guard) = self.shared.state.acquire_write();
        let now = match expire {
            Some(_) => match self.shared.clock.now() {
                Some(now) => now,
                None => {
                    guard.release_write(state);
                    return false;
                },
            },
            None => 0,
        };
        let notify = state.try_set(key, value, expire, now);
        guard.release_write(state);
        match notify {
            Some(wake) => {
                if wake {
                    self.shared.background_task.notify_one();
                }
                true
            },
            None => false,
        }
    }

    /// A receiver for the channel `key`, which is created if it does not
    /// exist.
    pub fn subscribe(&self, key: String) -> Receiver<Bytes> {
        proof {
            use_type_invariant(self);
        }
        let (mut state, guard) = self.shared.state.acquire_write();
        let receiver = state.subscribe(key);
        guard.release_write(state);
        receiver
    }

    /// Publishes `value` on the channel `key` and returns how many receivers
    /// were attached to it at that moment.
    pub fn publish(&self, key: &str, value: Bytes) -> usize {
        proof {
            use_type_invariant(self);
        }
        let guard = self.shared.state.acquire_read();
        let receivers = guard.borrow().publish(key, value);
        guard.release_read();
        receivers
    }

    /// Tells the store to shut down and wakes the purge task, which then
    /// stops.
    pub fn shutdown_purge_task(&self) {
        proof {
            use_type_invariant(self);
        }
        let (mut state, guard) = self.shared.state.acquire_write();
        state.shutdown_purge_task();
        guard.release_write(state);
        self.shared.background_task.notify_one();
    }

    /// Whether the store is shutting down.
    pub fn is_shutdown(&self) -> bool {
        proof {
            use_type_invariant(self);
        }
        let guard = self.shared.state.acquire_read();
        let shutdown = guard.borrow().is_shutdown();
        guard.release_read();
        shutdown
    }

    /// Purges every entry that is due now, and gives the instant of the next
    /// expiration.
    pub fn purge_expired_keys(&self) -> Option<u64> {
        match self.purge_round() {
            PurgeWait::Until(when) => Some(when),
            _ => None,
        }
    }

    /// One round of the purge task: purges what is due now, and says what
    /// the task has to wait for.
    pub fn purge_round(&self) -> PurgeWait {
        proof {
            use_type_invariant(self);
        }
        let (mut state, guard) = self.shared.state.acquire_write();
        let wait = state.purge_task_step_now(&self.shared.clock);
        guard.release_write(state);
        wait
    }
}

} // verus!
