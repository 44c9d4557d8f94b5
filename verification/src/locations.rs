//! From the snapshots of a race to the addresses of one rider: which snapshot
//! entries are sightings of the rider, which sightings are a change of
//! position, and what is published once a change has been resolved.
use vstd::prelude::*;
use crate::Update;
use crate::coordinates::Coordinates;
use crate::fmc::{RaceHandle, Rider, Snapshot};
use crate::nominatim::Location;
use crate::text::{parse_number, parsed_number};

verus! {

/// What a deriver remembers of its rider's whereabouts.
#[derive(Debug, Clone, Copy, PartialEq, Eq)]
pub enum Position {
    /// No sighting yet.
    NoCoordinates,
    /// The position of the last sighting that was a change.
    At(Coordinates),
}

/// The team number of an entry, if it has one that reads as a number.
pub open spec fn rider_number(rider: Rider) -> Option<u64> {
    match rider.team_number {
        Some(text) => parsed_number(text@),
        None => None,
    }
}

/// The position of an entry, if it carries both numbers.
pub open spec fn rider_position(rider: Rider) -> Option<Coordinates> {
    match (rider.latitude, rider.longitude) {
        (Some(lat), Some(lon)) => Some(Coordinates { lat, lon }),
        _ => None,
    }
}

/// Where an entry places rider `cap`, if it is an entry of that rider and
/// carries a position.
pub open spec fn sighting(rider: Rider, cap: u64) -> Option<Coordinates> {
    if rider_number(rider) == Some(cap) {
        rider_position(rider)
    } else {
        None
    }
}

/// A sighting is a change unless it is at the remembered position.
pub open spec fn is_change(position: Position, seen: Coordinates) -> bool {
    match position {
        Position::NoCoordinates => true,
        Position::At(last) => !last.same_place(seen),
    }
}

/// What is remembered after one entry.
pub open spec fn position_after_rider(position: Position, rider: Rider, cap: u64) -> Position {
    match sighting(rider, cap) {
        Some(seen) => if is_change(position, seen) {
            Position::At(seen)
        } else {
            position
        },
        None => position,
    }
}

/// What is remembered after the entries of a snapshot, taken in order.
pub open spec fn position_after(position: Position, riders: Seq<Rider>, cap: u64) -> Position
    decreases riders.len(),
{
    if riders.len() == 0 {
        position
    } else {
        position_after_rider(position_after(position, riders.drop_last(), cap), riders.last(), cap)
    }
}

/// The positions to resolve after the entries of a snapshot: every sighting
/// that was a change, in order.
pub open spec fn lookups(position: Position, riders: Seq<Rider>, cap: u64) -> Seq<Coordinates>
    decreases riders.len(),
{
    if riders.len() == 0 {
        Seq::empty()
    } else {
        let before = position_after(position, riders.drop_last(), cap);
        let earlier = lookups(position, riders.drop_last(), cap);
        match sighting(riders.last(), cap) {
            Some(seen) => if is_change(before, seen) {
                earlier.push(seen)
            } else {
                earlier
            },
            None => earlier,
        }
    }
}

/// The team number of a snapshot entry: its text read as an unsigned decimal
/// number. An entry without the field, or with text that is no such number,
/// has none.
pub fn team_number(rider: &Rider) -> (r: Option<u64>)
    ensures
        r == rider_number(*rider),
{
    match &rider.team_number {
        Some(text) => parse_number(text.as_str()),
        None => None,
    }
}

/// Where `rider` places rider `cap`, if anywhere.
pub fn sighting_of(rider: &Rider, cap: u64) -> (r: Option<Coordinates>)
    ensures
        r == sighting(*rider, cap),
{
    match team_number(rider) {
        Some(number) => {
            if number == cap {
                match (rider.latitude, rider.longitude) {
                    (Some(lat), Some(lon)) => Some(Coordinates { lat, lon }),
                    _ => None,
                }
            } else {
                None
            }
        },
        None => None,
    }
}

/// The state of the task that follows one rider of one race.
#[derive(Debug)]
pub struct LocationDeriver {
    race: RaceHandle,
    cap: u64,
    position: Position,
    queue: Vec<Coordinates>,
    published: Update<Location>,
}

impl LocationDeriver {
    /// The snapshot stream that the deriver reads.
    pub closed spec fn race_spec(&self) -> RaceHandle {
        self.race
    }

    /// The team number of the rider followed.
    pub closed spec fn cap_spec(&self) -> u64 {
        self.cap
    }

    /// What is remembered of the rider's whereabouts.
    pub closed spec fn position(&self) -> Position {
        self.position
    }

    /// The positions handed out for resolving and not settled yet, oldest first.
    pub closed spec fn awaited(&self) -> Seq<Coordinates> {
        self.queue@
    }

    /// The value that subscribers see.
    pub closed spec fn published(&self) -> Update<Location> {
        self.published
    }

    /// Nothing is awaited or published before the first sighting.
    pub open spec fn wf(&self) -> bool {
        self.position() is NoCoordinates ==> self.awaited().len() == 0 && self.published() is Pending
    }

    #[verifier::when_used_as_spec(race_spec)]
    pub fn race(&self) -> (r: RaceHandle)
        ensures
            r == self.race_spec(),
    {
        self.race
    }

    #[verifier::when_used_as_spec(cap_spec)]
    pub fn cap(&self) -> (r: u64)
        ensures
            r == self.cap_spec(),
    {
        self.cap
    }

    /// The value that subscribers see.
    pub fn current(&self) -> (r: &Update<Location>)
        ensures
            *r == self.published(),
    {
        &self.published
    }

    /// The position to resolve next, if one is awaited.
    pub fn next_lookup(&self) -> (r: Option<Coordinates>)
        ensures
            r == if self.awaited().len() > 0 {
                Some(self.awaited()[0])
            } else {
                None
            },
    {
        if self.queue.len() > 0 {
            Some(self.queue[0])
        } else {
            None
        }
    }

    /// Takes in a snapshot: every entry that places the rider somewhere else
    /// than remembered becomes the remembered position and is queued for
    /// resolving. Entries of other riders, entries without a readable team
    /// number and entries without a position are passed over. What subscribers
    /// see does not change. Returns how many positions were queued.
    pub fn observe(&mut self, snapshot: &Snapshot) -> (queued: usize)
        requires
            old(self).wf(),
        ensures
            final(self).wf(),
            final(self).race() == old(self).race(),
            final(self).cap() == old(self).cap(),
            final(self).published() == old(self).published(),
            final(self).position() == position_after(
                old(self).position(),
                snapshot.riders@,
                old(self).cap(),
            ),
            final(self).awaited() == old(self).awaited() + lookups(
                old(self).position(),
                snapshot.riders@,
                old(self).cap(),
            ),
            queued == lookups(old(self).position(), snapshot.riders@, old(self).cap()).len(),
    {
        let ghost start = self.position;
        let ghost riders = snapshot.riders@;
        let cap = self.cap;
        let mut queued: usize = 0;
        let mut i: usize = 0;
        assert(riders.take(0) == Seq::<Rider>::empty());
        assert(self.queue@ == old(self).queue@ + Seq::<Coordinates>::empty());
        while i < snapshot.riders.len()
            invariant
                i <= snapshot.riders.len(),
                riders == snapshot.riders@,
                start == old(self).position,
                cap == old(self).cap,
                self.cap == cap,
                self.race == old(self).race,
                self.published == old(self).published,
                self.wf(),
                self.position == position_after(start, riders.take(i as int), cap),
                self.queue@ == old(self).queue@ + lookups(start, riders.take(i as int), cap),
                queued == lookups(start, riders.take(i as int), cap).len(),
                queued <= i,
            decreases snapshot.riders.len() - i,
        {
            let ghost upto = riders.take(i as int + 1);
            assert(upto.drop_last() == riders.take(i as int));
            assert(upto.last() == riders[i as int]);
            match sighting_of(&snapshot.riders[i], cap) {
                Some(seen) => {
                    let change = match self.position {
                        Position::NoCoordinates => true,
                        Position::At(last) => !last.same(&seen),
                    };
                    if change {
                        self.position = Position::At(seen);
                        self.queue.push(seen);
                        queued = queued + 1;
                        assert(self.queue@ == old(self).queue@ + lookups(start, upto, cap));
                    }
                },
                None => {},
            }
            i = i + 1;
        }
        assert(riders.take(i as int) == riders);
        queued
    }

    /// Settles the oldest awaited position with what the resolver answered.
    /// An address is published; a failure leaves what subscribers see as it
    /// was, and the position is not asked for again until the rider has moved.
    /// With nothing awaited the call changes nothing. Returns whether a new
    /// value was published.
    pub fn resolved(&mut self, outcome: Option<Location>) -> (news: bool)
        requires
            old(self).wf(),
        ensures
            final(self).wf(),
            final(self).race() == old(self).race(),
            final(self).cap() == old(self).cap(),
            final(self).position() == old(self).position(),
            final(self).awaited() == if old(self).awaited().len() > 0 {
                old(self).awaited().drop_first()
            } else {
                old(self).awaited()
            },
            news == (old(self).awaited().len() > 0 && outcome is Some),
            old(self).published() is New ==> final(self).published() is New,
            final(self).published() == if news {
                Update::New(outcome->0)
            } else {
                old(self).published()
            },
    {
        if self.queue.len() == 0 {
            return false;
        }
        self.queue.remove(0);
        assert(self.queue@ == old(self).queue@.drop_first());
        match outcome {
            Some(location) => {
                self.published = Update::New(location);
                true
            },
            None => false,
        }
    }
}

/// Starts following rider `cap` on the snapshot stream `race`: no sighting
/// yet, nothing awaited, and subscribers see `Pending`.
pub fn location_updates(race: RaceHandle, cap: u64) -> (deriver: LocationDeriver)
    ensures
        deriver.wf(),
        deriver.race() == race,
        deriver.cap() == cap,
        deriver.position() is NoCoordinates,
        deriver.awaited() == Seq::<Coordinates>::empty(),
        deriver.published() is Pending,
{
    LocationDeriver {
        race,
        cap,
        position: Position::NoCoordinates,
        queue: Vec::new(),
        published: Update::Pending,
    }
}

/// Every sighting among `riders` is at `place`.
pub open spec fn all_sightings_at(riders: Seq<Rider>, cap: u64, place: Coordinates) -> bool {
    forall|i: int|
        0 <= i < riders.len() ==> (#[trigger] sighting(riders[i], cap) matches Some(seen)
            ==> seen.same_place(place))
}

/// Rider `cap` is sighted somewhere among `riders`.
pub open spec fn is_sighted(riders: Seq<Rider>, cap: u64) -> bool {
    exists|i: int| 0 <= i < riders.len() && (#[trigger] sighting(riders[i], cap)) is Some
}

/// The remembered position is at `place`.
pub open spec fn remembers(position: Position, place: Coordinates) -> bool {
    position matches Position::At(last) && last.same_place(place)
}

/// A snapshot that places the rider only where the deriver remembers it asks
/// for nothing and leaves the memory as it is.
pub proof fn known_place_asks_nothing(
    position: Position,
    riders: Seq<Rider>,
    cap: u64,
    place: Coordinates,
)
    requires
        remembers(position, place),
        all_sightings_at(riders, cap, place),
    ensures
        position_after(position, riders, cap) == position,
        lookups(position, riders, cap) == Seq::<Coordinates>::empty(),
    decreases riders.len(),
{
    if riders.len() > 0 {
        let earlier = riders.drop_last();
        assert forall|i: int| 0 <= i < earlier.len() implies (#[trigger] sighting(earlier[i], cap)
            matches Some(seen) ==> seen.same_place(place)) by {
            assert(earlier[i] == riders[i]);
        }
        known_place_asks_nothing(position, earlier, cap, place);
        assert(sighting(riders[riders.len() - 1], cap) matches Some(seen) ==> seen.same_place(
            place,
        ));
    }
}

/// A snapshot that places the rider at one place only asks for that place at
/// most once, and the deriver remembers the place afterwards if it did before
/// or if the snapshot holds a sighting.
pub proof fn one_place_asks_at_most_once(
    position: Position,
    riders: Seq<Rider>,
    cap: u64,
    place: Coordinates,
)
    requires
        all_sightings_at(riders, cap, place),
    ensures
        lookups(position, riders, cap).len() <= 1,
        remembers(position, place) || is_sighted(riders, cap) ==> remembers(
            position_after(position, riders, cap),
            place,
        ),
        !remembers(position, place) && !is_sighted(riders, cap) ==> position_after(
            position,
            riders,
            cap,
        ) == position,
        lookups(position, riders, cap).len() == 1 ==> !remembers(position, place) && is_sighted(
            riders,
            cap,
        ),
    decreases riders.len(),
{
    if riders.len() > 0 {
        let earlier = riders.drop_last();
        let last = riders[riders.len() - 1];
        assert forall|i: int| 0 <= i < earlier.len() implies (#[trigger] sighting(earlier[i], cap)
            matches Some(seen) ==> seen.same_place(place)) by {
            assert(earlier[i] == riders[i]);
        }
        one_place_asks_at_most_once(position, earlier, cap, place);
        assert(sighting(last, cap) matches Some(seen) ==> seen.same_place(place));
        if is_sighted(earlier, cap) {
            let i = choose|i: int| 0 <= i < earlier.len() && (#[trigger] sighting(earlier[i], cap)) is Some;
            assert(earlier[i] == riders[i]);
            assert(sighting(riders[i], cap) is Some);
        }
        if is_sighted(riders, cap) && !is_sighted(earlier, cap) {
            let i = choose|i: int| 0 <= i < riders.len() && (#[trigger] sighting(riders[i], cap)) is Some;
            if i < earlier.len() {
                assert(earlier[i] == riders[i]);
                assert(sighting(earlier[i], cap) is Some);
            }
        }
        if sighting(last, cap) is Some {
            assert(sighting(riders[riders.len() - 1], cap) is Some);
        }
        if remembers(position, place) {
            known_place_asks_nothing(position, earlier, cap, place);
        }
    }
}

/// Two snapshots in a row that place the rider at the same place, a place made
/// of numbers: the second asks for nothing and changes nothing that is
/// remembered, and the first asks at most once.
pub proof fn same_coordinates_are_resolved_once(
    position: Position,
    first: Seq<Rider>,
    second: Seq<Rider>,
    cap: u64,
    place: Coordinates,
)
    requires
        is_sighted(first, cap),
        all_sightings_at(first, cap, place),
        all_sightings_at(second, cap, place),
    ensures
        lookups(position, first, cap).len() <= 1,
        lookups(position_after(position, first, cap), second, cap) == Seq::<Coordinates>::empty(),
        position_after(position_after(position, first, cap), second, cap) == position_after(
            position,
            first,
            cap,
        ),
{
    one_place_asks_at_most_once(position, first, cap, place);
    known_place_asks_nothing(position_after(position, first, cap), second, cap, place);
}

/// A snapshot whose one sighting of the rider is a change of position asks
/// for exactly that position, and the deriver remembers it.
pub proof fn a_move_is_resolved_once(
    position: Position,
    riders: Seq<Rider>,
    cap: u64,
    at: int,
    place: Coordinates,
)
    requires
        0 <= at < riders.len(),
        sighting(riders[at], cap) == Some(place),
        forall|i: int| 0 <= i < riders.len() && i != at ==> (#[trigger] sighting(riders[i], cap)) is None,
        is_change(position, place),
    ensures
        lookups(position, riders, cap) == seq![place],
        position_after(position, riders, cap) == Position::At(place),
{
    no_sighting_asks_nothing(position, riders.take(at), cap);
    assert(riders.take(at + 1).drop_last() == riders.take(at));
    assert(riders.take(at + 1).last() == riders[at]);
    assert(lookups(position, riders.take(at + 1), cap) == seq![place]);
    quiet_tail_adds_nothing(position, riders, cap, at + 1);
}

/// A snapshot without a sighting of the rider asks for nothing and changes
/// nothing that is remembered.
pub proof fn no_sighting_asks_nothing(position: Position, riders: Seq<Rider>, cap: u64)
    requires
        forall|i: int| 0 <= i < riders.len() ==> (#[trigger] sighting(riders[i], cap)) is None,
    ensures
        position_after(position, riders, cap) == position,
        lookups(position, riders, cap) == Seq::<Coordinates>::empty(),
    decreases riders.len(),
{
    if riders.len() > 0 {
        let earlier = riders.drop_last();
        assert forall|i: int| 0 <= i < earlier.len() implies (#[trigger] sighting(earlier[i], cap)) is None by {
            assert(earlier[i] == riders[i]);
        }
        no_sighting_asks_nothing(position, earlier, cap);
        assert(sighting(riders[riders.len() - 1], cap) is None);
    }
}

/// Entries behind the last sighting add nothing to what a snapshot asks for.
proof fn quiet_tail_adds_nothing(position: Position, riders: Seq<Rider>, cap: u64, from: int)
    requires
        0 <= from <= riders.len(),
        forall|i: int| from <= i < riders.len() ==> (#[trigger] sighting(riders[i], cap)) is None,
    ensures
        position_after(position, riders, cap) == position_after(position, riders.take(from), cap),
        lookups(position, riders, cap) == lookups(position, riders.take(from), cap),
    decreases riders.len(),
{
    if from < riders.len() {
        let earlier = riders.drop_last();
        assert forall|i: int| from <= i < earlier.len() implies (#[trigger] sighting(earlier[i], cap)) is None by {
            assert(earlier[i] == riders[i]);
        }
        quiet_tail_adds_nothing(position, earlier, cap, from);
        assert(earlier.take(from) == riders.take(from));
        assert(sighting(riders[riders.len() - 1], cap) is None);
    } else {
        assert(riders.take(from) == riders);
    }
}

/// Subscribers of a deriver that has not seen its rider see `Pending`, and
/// snapshots without a sighting of the rider leave it so.
pub proof fn pending_before_first_sighting(deriver: LocationDeriver, riders: Seq<Rider>)
    requires
        deriver.wf(),
        deriver.position() is NoCoordinates,
        !is_sighted(riders, deriver.cap()),
    ensures
        deriver.published() is Pending,
        deriver.awaited().len() == 0,
        position_after(deriver.position(), riders, deriver.cap()) is NoCoordinates,
        lookups(deriver.position(), riders, deriver.cap()).len() == 0,
{
    assert forall|i: int| 0 <= i < riders.len() implies (#[trigger] sighting(
        riders[i],
        deriver.cap(),
    )) is None by {}
    no_sighting_asks_nothing(deriver.position(), riders, deriver.cap());
}

} // verus!
