use vstd::prelude::*;

verus! {

/// The year against which event dates are measured.
pub const REFERENCE_YEAR: i32 = 2026;

/// Length of the approximate year used for timestamps: 365 days, no leap days.
pub const SECONDS_PER_YEAR: i64 = 31_536_000;

/// Seconds from the start of the reference year to the start of `year`,
/// counting every year as 365 days.
pub open spec fn timestamp_of_year(year: int) -> int {
    (year - REFERENCE_YEAR) * SECONDS_PER_YEAR
}

/// Timestamp of an event dated in `year`: only the year is taken into account.
pub fn year_timestamp(year: i32) -> (r: i64)
    ensures
        r == timestamp_of_year(year as int),
{
    let years: i64 = year as i64 - REFERENCE_YEAR as i64;
    years * SECONDS_PER_YEAR
}

/// A colour with straight (not premultiplied) alpha.
#[derive(Clone, Copy, Debug, PartialEq, Eq, Structural)]
pub struct Rgba {
    pub r: u8,
    pub g: u8,
    pub b: u8,
    pub a: u8,
}

impl Rgba {
    /// An opaque colour.
    pub fn from_rgb(r: u8, g: u8, b: u8) -> (c: Rgba)
        ensures
            c == (Rgba { r, g, b, a: 255 }),
    {
        Rgba { r, g, b, a: 255 }
    }

    /// The channels in the order red, green, blue, alpha.
    pub fn to_array(&self) -> (c: [u8; 4])
        ensures
            c@ == self.channels(),
    {
        [self.r, self.g, self.b, self.a]
    }

    /// The colour whose channels, red, green, blue, alpha, are `c`.
    pub fn from_array(c: [u8; 4]) -> (r: Rgba)
        ensures
            r.channels() == c@,
    {
        let r = Rgba { r: c[0], g: c[1], b: c[2], a: c[3] };
        assert(r.channels() =~= c@);
        r
    }

    /// The channels in the order red, green, blue, alpha.
    pub open spec fn channels(self) -> Seq<u8> {
        seq![self.r, self.g, self.b, self.a]
    }
}

/// The colour an event gets when it is created.
pub open spec fn default_event_color() -> Rgba {
    Rgba { r: 100, g: 150, b: 255, a: 255 }
}

/// An event as it is stored: its date fields, without the derived timestamp.
#[derive(Clone, Debug)]
pub struct SerializableEvent {
    pub title: String,
    pub description: String,
    pub day: u8,
    pub month: u8,
    pub year: i32,
    pub image_path: Option<String>,
    pub color: [u8; 4],
}

/// One dated entry of a timeline.
///
/// `id` identifies the event within the timeline that holds it; the timeline
/// assigns it when the event is added (an event that was never added has id 0).
#[derive(Clone, Debug)]
pub struct Event {
    pub id: u64,
    pub title: String,
    pub description: String,
    pub timestamp: i64,
    pub day: u8,
    pub month: u8,
    pub year: i32,
    pub image_path: Option<String>,
    pub color: Rgba,
}

/// The event that `new` builds from these fields.
pub open spec fn new_event(
    title: String,
    description: String,
    day: u8,
    month: u8,
    year: i32,
    image_path: Option<String>,
) -> Event {
    Event {
        id: 0,
        title,
        description,
        timestamp: timestamp_of_year(year as int) as i64,
        day,
        month,
        year,
        image_path,
        color: default_event_color(),
    }
}

/// The event that a stored record describes, before a timeline gives it an id.
pub open spec fn event_of_record(s: SerializableEvent) -> Event {
    Event {
        id: 0,
        title: s.title,
        description: s.description,
        timestamp: timestamp_of_year(s.year as int) as i64,
        day: s.day,
        month: s.month,
        year: s.year,
        image_path: s.image_path,
        color: Rgba { r: s.color[0], g: s.color[1], b: s.color[2], a: s.color[3] },
    }
}

/// `s` is the stored form of `e`: every field but the id and the timestamp, the
/// colour as its four channels.
pub open spec fn stores(s: SerializableEvent, e: Event) -> bool {
    &&& s.title == e.title
    &&& s.description == e.description
    &&& s.day == e.day
    &&& s.month == e.month
    &&& s.year == e.year
    &&& s.image_path == e.image_path
    &&& s.color@ == e.color.channels()
}

/// Storing an event and reading the record back gives the event again, apart
/// from its id, whenever its timestamp is the one its year gives (as for every
/// event built by `Event::new`).
pub proof fn lemma_record_round_trip(e: Event, s: SerializableEvent)
    requires
        stores(s, e),
        e.timestamp == timestamp_of_year(e.year as int),
    ensures
        with_id(event_of_record(s), e.id) == e,
{
    assert(s.color@[0] == s.color[0]);
    assert(s.color@[1] == s.color[1]);
    assert(s.color@[2] == s.color[2]);
    assert(s.color@[3] == s.color[3]);
}

fn record_event(s: &SerializableEvent) -> (e: Event)
    ensures
        e == event_of_record(*s),
{
    let color = Rgba::from_array(s.color);
    let mut e = Event::new(
        s.title.clone(),
        s.description.clone(),
        s.day,
        s.month,
        s.year,
        clone_path(&s.image_path),
    );
    e.color = color;
    e
}

fn clone_path(p: &Option<String>) -> (r: Option<String>)
    ensures
        r == *p,
{
    match p {
        Some(s) => Some(s.clone()),
        None => None,
    }
}

impl Event {
    /// A new event dated `day`/`month`/`year`, with the default colour.
    /// Its timestamp comes from the year alone; day and month are kept as given.
    pub fn new(
        title: String,
        description: String,
        day: u8,
        month: u8,
        year: i32,
        image_path: Option<String>,
    ) -> (e: Event)
        ensures
            e == new_event(title, description, day, month, year, image_path),
    {
        let timestamp = year_timestamp(year);
        Event {
            id: 0,
            title,
            description,
            timestamp,
            day,
            month,
            year,
            image_path,
            color: Rgba { r: 100, g: 150, b: 255, a: 255 },
        }
    }

    /// An event dated on the reference day, 16 January of the reference year.
    pub fn today(title: String, description: String) -> (e: Event)
        ensures
            e == new_event(title, description, 16, 1, REFERENCE_YEAR, None),
    {
        Event::new(title, description, 16, 1, REFERENCE_YEAR, None)
    }

    /// The stored form of this event.
    pub fn to_serializable(&self) -> (s: SerializableEvent)
        ensures
            stores(s, *self),
    {
        SerializableEvent {
            title: self.title.clone(),
            description: self.description.clone(),
            day: self.day,
            month: self.month,
            year: self.year,
            image_path: clone_path(&self.image_path),
            color: self.color.to_array(),
        }
    }

    /// A new event with the date fields of a stored record, its timestamp
    /// recomputed from the year and the default colour (the stored colour is
    /// restored by `Timeline::from_serializable`).
    pub fn from_serializable(s: SerializableEvent) -> (e: Event)
        ensures
            e == new_event(s.title, s.description, s.day, s.month, s.year, s.image_path),
    {
        Event::new(s.title, s.description, s.day, s.month, s.year, s.image_path)
    }
}


/// `e` with its id set to `id`.
pub open spec fn with_id(e: Event, id: u64) -> Event {
    Event { id, ..e }
}

/// Events in timeline order: by timestamp, and events with equal timestamps in
/// the order they were added, which is the order of their ids.
pub open spec fn in_timeline_order(s: Seq<Event>) -> bool {
    forall|i: int, j: int|
        0 <= i < j < s.len() ==> {
            ||| s[i].timestamp < s[j].timestamp
            ||| (s[i].timestamp == s[j].timestamp && s[i].id < s[j].id)
        }
}

/// No two events of `s` share an id.
pub open spec fn ids_distinct(s: Seq<Event>) -> bool {
    forall|i: int, j: int| 0 <= i < s.len() && 0 <= j < s.len() && i != j ==> s[i].id != s[j].id
}

/// Timestamps never decrease along `s`.
pub open spec fn sorted_by_time(s: Seq<Event>) -> bool {
    forall|i: int, j: int| 0 <= i <= j < s.len() ==> s[i].timestamp <= s[j].timestamp
}

/// Number of events in `s` that are not later than `t`: where an event with
/// timestamp `t` goes in a sorted timeline, after every event with an equal
/// or earlier timestamp.
pub open spec fn count_not_later(s: Seq<Event>, t: i64) -> nat
    decreases s.len(),
{
    if s.len() == 0 {
        0
    } else {
        count_not_later(s.drop_last(), t) + if s.last().timestamp <= t {
            1nat
        } else {
            0nat
        }
    }
}

/// The events of a timeline that starts empty and has the events of `records`
/// added in order, the event of `records[k]` with id `k`.
pub open spec fn loaded(records: Seq<SerializableEvent>) -> Seq<Event>
    decreases records.len(),
{
    if records.len() == 0 {
        Seq::empty()
    } else {
        let before = loaded(records.drop_last());
        let e = with_id(event_of_record(records.last()), (records.len() - 1) as u64);
        before.insert(count_not_later(before, e.timestamp) as int, e)
    }
}

/// Storing the events of a timeline and loading the records back gives the
/// same events in the same order, renumbered from 0, when every event's
/// timestamp is the one its year gives.
pub proof fn lemma_timeline_round_trip(events: Seq<Event>, records: Seq<SerializableEvent>)
    requires
        sorted_by_time(events),
        forall|i: int|
            0 <= i < events.len() ==> #[trigger] events[i].timestamp == timestamp_of_year(
                events[i].year as int,
            ),
        records.len() == events.len(),
        forall|i: int| 0 <= i < records.len() ==> stores(#[trigger] records[i], events[i]),
    ensures
        loaded(records) == Seq::new(events.len(), |k: int| with_id(events[k], k as u64)),
    decreases events.len(),
{
    let n = events.len();
    let expected = Seq::new(n, |k: int| with_id(events[k], k as u64));
    if n > 0 {
        let evs = events.drop_last();
        let recs = records.drop_last();
        assert(recs == records.drop_last());
        assert forall|i: int| 0 <= i < recs.len() implies stores(#[trigger] recs[i], evs[i]) by {
            assert(recs[i] == records[i]);
            assert(evs[i] == events[i]);
        }
        assert forall|i: int| 0 <= i < evs.len() implies #[trigger] evs[i].timestamp
            == timestamp_of_year(evs[i].year as int) by {
            assert(evs[i] == events[i]);
        }
        lemma_timeline_round_trip(evs, recs);
        let before = loaded(recs);
        let last = events[n - 1];
        lemma_record_round_trip(last, records.last());
        let e = with_id(event_of_record(records.last()), (n - 1) as u64);
        assert(e == with_id(last, (n - 1) as u64));
        assert forall|j: int| 0 <= j < before.len() implies before[j].timestamp <= e.timestamp by {
            assert(before[j] == with_id(evs[j], j as u64));
            assert(events[j].timestamp <= events[n - 1].timestamp);
        }
        lemma_count_not_later(before, e.timestamp, before.len() as int);
        assert(loaded(records) =~= expected);
    } else {
        assert(loaded(records) =~= expected);
    }
}

/// The events of a timeline, kept in timeline order.
pub struct Timeline {
    events: Vec<Event>,
    next_id: u64,
}

impl View for Timeline {
    type V = Seq<Event>;

    closed spec fn view(&self) -> Seq<Event> {
        self.events@
    }
}

/// An event can be placed anywhere from the front to the back of `s`, no further.
pub proof fn lemma_count_not_later_bounded(s: Seq<Event>, t: i64)
    ensures
        count_not_later(s, t) <= s.len(),
    decreases s.len(),
{
    if s.len() > 0 {
        lemma_count_not_later_bounded(s.drop_last(), t);
    }
}

proof fn lemma_count_not_later(s: Seq<Event>, t: i64, p: int)
    requires
        0 <= p <= s.len(),
        forall|j: int| 0 <= j < p ==> s[j].timestamp <= t,
        forall|j: int| p <= j < s.len() ==> s[j].timestamp > t,
    ensures
        count_not_later(s, t) == p,
    decreases s.len(),
{
    if s.len() > 0 {
        let q = if p == s.len() { p - 1 } else { p };
        lemma_count_not_later(s.drop_last(), t, q);
    }
}

impl Timeline {
    /// The id that the next added event receives.
    pub closed spec fn next_id_spec(&self) -> u64 {
        self.next_id
    }

    /// The events are in timeline order, their ids are distinct, and every id is below the next one to hand out.
    pub open spec fn wf(&self) -> bool {
        &&& in_timeline_order(self@)
        &&& forall|i: int| 0 <= i < self@.len() ==> self@[i].id < self.next_id_spec()
    &&& ids_distinct(self@)
    }

    /// The id that the next added event receives.
    pub fn next_id(&self) -> (r: u64)
        ensures
            r == self.next_id_spec(),
    {
        self.next_id
    }

    /// An empty timeline.
    pub fn new() -> (t: Timeline)
        ensures
            t.wf(),
            t@ == Seq::<Event>::empty(),
            t.next_id_spec() == 0,
    {
        Timeline { events: Vec::new(), next_id: 0 }
    }

    /// Adds `event` after every event with an equal or earlier timestamp, and
    /// gives it the next id.
    pub fn add_event(&mut self, event: Event)
        requires
            old(self).wf(),
            old(self).next_id_spec() < u64::MAX,
        ensures
            final(self).wf(),
            sorted_by_time(final(self)@),
            final(self).next_id_spec() == old(self).next_id_spec() + 1,
            final(self)@.len() == old(self)@.len() + 1,
            final(self)@ == old(self)@.insert(
                count_not_later(old(self)@, event.timestamp) as int,
                with_id(event, old(self).next_id_spec()),
            ),
    {
        let ghost before = self@;
        proof {
            lemma_count_not_later_bounded(before, event.timestamp);
        }
        let mut e = event;
        e.id = self.next_id;
        self.next_id = self.next_id + 1;
        let t = e.timestamp;
        let mut p: usize = self.events.len();
        while p > 0 && self.events[p - 1].timestamp > t
            invariant
                p <= self.events@.len(),
                self.events@ == before,
                forall|j: int| p <= j < before.len() ==> before[j].timestamp > t,
            decreases p,
        {
            p = p - 1;
        }
        proof {
            if p > 0 {
                assert forall|j: int| 0 <= j < p implies before[j].timestamp <= t by {
                    assert(before[j].timestamp <= before[p - 1].timestamp);
                }
            }
            lemma_count_not_later(before, t, p as int);
        }
        self.events.insert(p, e);
        proof {
            let after = self@;
            assert forall|i: int, j: int| 0 <= i < j < after.len() implies {
                ||| after[i].timestamp < after[j].timestamp
                ||| (after[i].timestamp == after[j].timestamp && after[i].id < after[j].id)
            } by {
                if i < p && j > p {
                    assert(after[i] == before[i]);
                    assert(after[j] == before[j - 1]);
                }
            }
            assert forall|i: int, j: int|
                0 <= i < after.len() && 0 <= j < after.len() && i != j implies after[i].id
                != after[j].id by {
                let i0 = if i < p { i } else { i - 1 };
                let j0 = if j < p { j } else { j - 1 };
                if i != p && j != p {
                    assert(after[i] == before[i0]);
                    assert(after[j] == before[j0]);
                }
            }
            assert forall|i: int, j: int| 0 <= i <= j < after.len() implies after[i].timestamp
                <= after[j].timestamp by {
                if i < j {
                    assert(after[i].timestamp < after[j].timestamp || after[i].timestamp
                        == after[j].timestamp);
                }
            }
        }
    }

    /// Removes the event at `index`; an index past the end leaves the timeline as it is.
    pub fn remove_event(&mut self, index: usize)
        requires
            old(self).wf(),
        ensures
            final(self).wf(),
            final(self).next_id_spec() == old(self).next_id_spec(),
            final(self)@ == if index < old(self)@.len() {
                old(self)@.remove(index as int)
            } else {
                old(self)@
            },
    {
        if index < self.events.len() {
            let ghost before = self@;
            self.events.remove(index);
            proof {
                let after = self@;
                assert forall|i: int, j: int| 0 <= i < j < after.len() implies {
                    ||| after[i].timestamp < after[j].timestamp
                    ||| (after[i].timestamp == after[j].timestamp && after[i].id < after[j].id)
                } by {
                    let i0 = if i < index { i } else { i + 1 };
                    let j0 = if j < index { j } else { j + 1 };
                    assert(after[i] == before[i0]);
                    assert(after[j] == before[j0]);
                }
                assert forall|i: int, j: int|
                    0 <= i < after.len() && 0 <= j < after.len() && i != j implies after[i].id
                    != after[j].id by {
                    let i0 = if i < index { i } else { i + 1 };
                    let j0 = if j < index { j } else { j + 1 };
                    assert(after[i] == before[i0]);
                    assert(after[j] == before[j0]);
                }
            }
        }
    }

    /// The stored form of every event, in timeline order.
    pub fn to_serializable(&self) -> (r: Vec<SerializableEvent>)
        ensures
            r@.len() == self@.len(),
            forall|i: int| 0 <= i < r@.len() ==> stores(#[trigger] r@[i], self@[i]),
    {
        let mut r: Vec<SerializableEvent> = Vec::new();
        let mut i: usize = 0;
        while i < self.events.len()
            invariant
                i <= self.events@.len(),
                r@.len() == i,
                forall|j: int| 0 <= j < i ==> stores(#[trigger] r@[j], self.events@[j]),
            decreases self.events@.len() - i,
        {
            r.push(self.events[i].to_serializable());
            i = i + 1;
        }
        r
    }

    /// A timeline holding the events that `records` describe, added in the order
    /// of the records: the event of `records[k]` gets id `k`.
    pub fn from_serializable(records: &Vec<SerializableEvent>) -> (t: Timeline)
        ensures
            t.wf(),
            t@ == loaded(records@),
            t.next_id_spec() == records@.len(),
            t@.len() == records@.len(),
            forall|i: int|
                0 <= i < t@.len() ==> #[trigger] t@[i] == with_id(
                    event_of_record(records@[t@[i].id as int]),
                    t@[i].id,
                ),
    {
        let mut t = Timeline::new();
        let mut k: usize = 0;
        while k < records.len()
            invariant
                k <= records@.len(),
                t.wf(),
                t@ == loaded(records@.subrange(0, k as int)),
                t.next_id_spec() == k,
                t@.len() == k,
                forall|i: int|
                    0 <= i < t@.len() ==> #[trigger] t@[i] == with_id(
                        event_of_record(records@[t@[i].id as int]),
                        t@[i].id,
                    ),
            decreases records@.len() - k,
        {
            let e = record_event(&records[k]);
            let ghost before = t@;
            let ghost p = count_not_later(before, e.timestamp) as int;
            proof {
                lemma_count_not_later_bounded(before, e.timestamp);
            }
            t.add_event(e);
            proof {
                let next = records@.subrange(0, k + 1);
                assert(next.drop_last() =~= records@.subrange(0, k as int));
                assert(next.last() == records@[k as int]);
                assert forall|i: int| 0 <= i < t@.len() implies #[trigger] t@[i] == with_id(
                    event_of_record(records@[t@[i].id as int]),
                    t@[i].id,
                ) by {
                    if i < p {
                        assert(t@[i] == before[i]);
                    } else if i > p {
                        assert(t@[i] == before[i - 1]);
                    }
                }
            }
            k = k + 1;
        }
        assert(records@.subrange(0, k as int) =~= records@);
        t
    }

    /// The events, in timeline order.
    pub fn events(&self) -> (r: &[Event])
        ensures
            r@ == self@,
    {
        self.events.as_slice()
    }
}

} // verus!
