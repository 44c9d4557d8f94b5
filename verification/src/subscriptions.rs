//! The registry of streams: one snapshot stream per race and one location
//! stream per rider of a race, each started by the first subscription to it
//! and found again by every later one.
use vstd::prelude::*;
use crate::fmc::{live_url_of, subscribe, Phase, RaceHandle, RacePoller};
use crate::locations::{location_updates, LocationDeriver};
use crate::coordinates::Coordinates;

verus! {

/// Names the location stream of one rider: the snapshot stream it reads, and
/// its place among the location streams, in the order of their first
/// subscription.
#[derive(Debug, Clone, Copy, PartialEq, Eq, Structural)]
pub struct CapHandle {
    pub race: RaceHandle,
    pub slot: usize,
}

/// What a subscription to a race comes to: the stream to read, and the poller
/// to run if the stream did not exist before.
#[derive(Debug)]
pub struct RaceSubscription {
    pub handle: RaceHandle,
    pub start: Option<RacePoller>,
}

/// What a subscription to a rider comes to: the subscription to the race, the
/// stream to read, and the deriver to run if the stream did not exist before.
#[derive(Debug)]
pub struct CapSubscription {
    pub race: RaceSubscription,
    pub handle: CapHandle,
    pub start: Option<LocationDeriver>,
}

/// The keys after a subscription to `key`: as before if the key is known,
/// else with the key behind all others.
pub open spec fn with_key<K>(keys: Seq<K>, key: K) -> Seq<K> {
    if keys.contains(key) {
        keys
    } else {
        keys.push(key)
    }
}

/// The place of `key` among `keys`.
pub open spec fn slot_of<K>(keys: Seq<K>, key: K) -> int {
    choose|i: int| 0 <= i < keys.len() && keys[i] == key
}

/// Among keys that are all different a key has one place only.
pub proof fn slot_is_unique<K>(keys: Seq<K>, key: K, at: int)
    requires
        keys.no_duplicates(),
        0 <= at < keys.len(),
        keys[at] == key,
    ensures
        slot_of(keys, key) == at,
        keys.contains(key),
{
}

/// A second subscription to a key finds what the first one left: the key is
/// held once, at the same place, and the keys are as they were.
pub proof fn subscribing_again_changes_nothing<K>(keys: Seq<K>, key: K)
    requires
        keys.no_duplicates(),
    ensures
        with_key(keys, key).no_duplicates(),
        with_key(keys, key).contains(key),
        with_key(with_key(keys, key), key) == with_key(keys, key),
        slot_of(with_key(with_key(keys, key), key), key) == slot_of(with_key(keys, key), key),
{
    if !keys.contains(key) {
        let grown = keys.push(key);
        assert(grown[keys.len() as int] == key);
        assert forall|i: int, j: int| 0 <= i < grown.len() && 0 <= j < grown.len() && i != j implies grown[i] != grown[j] by {
            if i < keys.len() && j < keys.len() {
                assert(keys[i] != keys[j]);
            } else if i < keys.len() {
                assert(keys.contains(keys[i]));
            } else {
                assert(keys.contains(keys[j]));
            }
        }
    }
}

/// A subscription to one key leaves every key held before at its place.
pub proof fn subscribing_keeps_handles<K>(keys: Seq<K>, key: K, other: K)
    requires
        keys.no_duplicates(),
        keys.contains(other),
    ensures
        slot_of(with_key(keys, key), other) == slot_of(keys, other),
        0 <= slot_of(keys, other) < keys.len(),
        with_key(keys, key)[slot_of(keys, other)] == other,
{
    subscribing_again_changes_nothing(keys, key);
    let at = slot_of(keys, other);
    assert(with_key(keys, key)[at] == other);
    slot_is_unique(with_key(keys, key), other, at);
}

/// The races and riders subscribed to.
#[derive(Debug)]
pub struct Subscriptions {
    races: Vec<String>,
    caps: Vec<(usize, u64)>,
}

impl Subscriptions {
    /// The races subscribed to, in the order of their first subscription. The
    /// place of a race is the slot of its handle.
    pub closed spec fn races(&self) -> Seq<Seq<char>> {
        Seq::new(self.races@.len(), |i: int| self.races@[i]@)
    }

    /// The riders subscribed to, each as the slot of its race and its team
    /// number, in the order of their first subscription. The place of a rider
    /// is the slot of its handle.
    pub closed spec fn caps(&self) -> Seq<(usize, u64)> {
        self.caps@
    }

    /// No race and no rider is held twice, and every rider is a rider of a
    /// race that is held.
    pub open spec fn wf(&self) -> bool {
        &&& self.races().no_duplicates()
        &&& self.caps().no_duplicates()
        &&& forall|i: int| 0 <= i < self.caps().len() ==> (#[trigger] self.caps()[i]).0 < self.races().len()
    }

    /// A registry without subscriptions.
    pub fn new() -> (subscriptions: Subscriptions)
        ensures
            subscriptions.wf(),
            subscriptions.races() == Seq::<Seq<char>>::empty(),
            subscriptions.caps() == Seq::<(usize, u64)>::empty(),
    {
        Subscriptions { races: Vec::new(), caps: Vec::new() }
    }

    /// The place of `race` among the races held, if it is held.
    fn find_race(&self, race: &String) -> (r: Option<usize>)
        requires
            self.wf(),
        ensures
            match r {
                Some(slot) => slot < self.races().len() && self.races()[slot as int] == race@
                    && slot == slot_of(self.races(), race@),
                None => !self.races().contains(race@),
            },
    {
        let mut i: usize = 0;
        while i < self.races.len()
            invariant
                self.wf(),
                i <= self.races.len(),
                forall|k: int| 0 <= k < i ==> self.races()[k] != race@,
            decreases self.races.len() - i,
        {
            if self.races[i] == *race {
                proof {
                    slot_is_unique(self.races(), race@, i as int);
                }
                return Some(i);
            }
            i = i + 1;
        }
        None
    }

    /// The place of the rider `key` among the riders held, if it is held.
    fn find_cap(&self, key: (usize, u64)) -> (r: Option<usize>)
        requires
            self.wf(),
        ensures
            match r {
                Some(slot) => slot < self.caps().len() && self.caps()[slot as int] == key && slot
                    == slot_of(self.caps(), key),
                None => !self.caps().contains(key),
            },
    {
        let mut i: usize = 0;
        while i < self.caps.len()
            invariant
                self.wf(),
                i <= self.caps.len(),
                forall|k: int| 0 <= k < i ==> self.caps()[k] != key,
            decreases self.caps.len() - i,
        {
            let held = self.caps[i];
            if held.0 == key.0 && held.1 == key.1 {
                proof {
                    slot_is_unique(self.caps(), key, i as int);
                }
                return Some(i);
            }
            i = i + 1;
        }
        None
    }

    /// Subscribes to the snapshots of `race`. A race that is held keeps its
    /// handle and nothing is started; a new race is held behind all others and
    /// comes with the poller to run for it.
    pub fn race(&mut self, race: &str) -> (r: RaceSubscription)
        requires
            old(self).wf(),
        ensures
            final(self).wf(),
            final(self).races() == with_key(old(self).races(), race@),
            final(self).caps() == old(self).caps(),
            final(self).races().contains(race@),
            r.handle.slot == slot_of(final(self).races(), race@),
            r.handle.slot < final(self).races().len(),
            final(self).races()[r.handle.slot as int] == race@,
            r.start is Some <==> !old(self).races().contains(race@),
            r.start matches Some(poller) ==> poller.url_spec() == live_url_of(race@)
                && poller.phase() == Phase::Fetching && poller.published() is Pending,
    {
        let name = race.to_owned();
        match self.find_race(&name) {
            Some(slot) => RaceSubscription { handle: RaceHandle { slot }, start: None },
            None => {
                let slot = self.races.len();
                let poller = subscribe(race);
                self.races.push(name);
                proof {
                    assert(self.races() == old(self).races().push(race@));
                    slot_is_unique(self.races(), race@, slot as int);
                }
                RaceSubscription { handle: RaceHandle { slot }, start: Some(poller) }
            },
        }
    }

    /// Subscribes to the locations of rider `cap` of `race_name`, and to the
    /// race first. A rider that is held keeps its handle and nothing is
    /// started for it; a new rider is held behind all others and comes with
    /// the deriver to run for it, which reads the stream of the race.
    pub fn cap(&mut self, race_name: &str, cap: u64) -> (r: CapSubscription)
        requires
            old(self).wf(),
        ensures
            final(self).wf(),
            final(self).races() == with_key(old(self).races(), race_name@),
            final(self).races().contains(race_name@),
            r.race.handle.slot == slot_of(final(self).races(), race_name@),
            r.race.handle.slot < final(self).races().len(),
            final(self).races()[r.race.handle.slot as int] == race_name@,
            r.race.start is Some <==> !old(self).races().contains(race_name@),
            r.race.start matches Some(poller) ==> poller.url_spec() == live_url_of(race_name@)
                && poller.phase() == Phase::Fetching && poller.published() is Pending,
            final(self).caps() == with_key(old(self).caps(), (r.race.handle.slot, cap)),
            r.handle.race == r.race.handle,
            r.handle.slot == slot_of(final(self).caps(), (r.race.handle.slot, cap)),
            r.handle.slot < final(self).caps().len(),
            final(self).caps()[r.handle.slot as int] == (r.race.handle.slot, cap),
            r.start is Some <==> !old(self).caps().contains((r.race.handle.slot, cap)),
            r.start matches Some(deriver) ==> deriver.wf() && deriver.race() == r.race.handle
                && deriver.cap() == cap && deriver.position() is NoCoordinates
                && deriver.awaited() == Seq::<Coordinates>::empty() && deriver.published() is Pending,
    {
        let race = self.race(race_name);
        let key = (race.handle.slot, cap);
        match self.find_cap(key) {
            Some(slot) => {
                let handle = CapHandle { race: race.handle, slot };
                CapSubscription { race, handle, start: None }
            },
            None => {
                let slot = self.caps.len();
                let deriver = location_updates(race.handle, cap);
                self.caps.push(key);
                proof {
                    slot_is_unique(self.caps(), key, slot as int);
                }
                let handle = CapHandle { race: race.handle, slot };
                CapSubscription { race, handle, start: Some(deriver) }
            },
        }
    }
}

} // verus!
