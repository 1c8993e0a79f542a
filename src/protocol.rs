//! The exchange protocol of a `FlipCell` as a state machine over whole
//! snapshots: the three slot contents, the writer's index, the shared-state
//! word, the reader's index and the reader's first-fetch flag.
//!
//! Every step that the handles take is one atomic exchange (or, for a fetch
//! that finds nothing fresh, one load), so any run of a writer thread and a
//! reader thread is a sequence of these steps in some interleaving.
use vstd::prelude::*;

use crate::flip_cell::{fetch_took, publish_took, Exchange, FetchRecord};
use crate::shared_state::{lemma_packed_parts, packed, well_formed_word, word_fresh, word_index};

verus! {

/// One instant of a cell, as both handles and the shared word see it.
pub ghost struct Snapshot<V> {
    pub slots: Seq<V>,
    pub writer: u8,
    pub shared: u8,
    pub reader: u8,
    pub is_initial: bool,
}

/// One step of either side.
pub ghost enum Step<V> {
    /// The writer overwrites its own slot.
    Write(V),
    /// The writer publishes its slot.
    Publish,
    /// The reader fetches.
    Fetch,
}

/// Whether three indices are a permutation of {0, 1, 2}.
pub open spec fn is_permutation(a: u8, b: u8, c: u8) -> bool {
    a < 3 && b < 3 && c < 3 && a != b && a != c && b != c
}

/// The snapshot of a cell just built from three values.
pub open spec fn initial<V>(shared_v: V, writer_v: V, reader_v: V) -> Snapshot<V> {
    Snapshot {
        slots: seq![shared_v, writer_v, reader_v],
        writer: 1,
        shared: packed(0, false),
        reader: 2,
        is_initial: true,
    }
}

impl<V> Snapshot<V> {
    /// Each slot is owned by exactly one of writer, shared word and reader.
    pub open spec fn inv(self) -> bool {
        &&& self.slots.len() == 3
        &&& well_formed_word(self.shared)
        &&& is_permutation(self.writer, word_index(self.shared), self.reader)
    }

    /// What the reader's `read` returns.
    pub open spec fn read(self) -> V {
        self.slots[self.reader as int]
    }

    /// What the writer's slot holds.
    pub open spec fn written(self) -> V {
        self.slots[self.writer as int]
    }

    /// What the in-flight slot holds.
    pub open spec fn in_flight(self) -> V {
        self.slots[word_index(self.shared) as int]
    }

    /// The writer stores `v` in its own slot.
    pub open spec fn write(self, v: V) -> Snapshot<V> {
        Snapshot { slots: self.slots.update(self.writer as int, v), ..self }
    }

    /// The writer exchanges its index, marked fresh, for the in-flight one.
    pub open spec fn publish(self) -> Snapshot<V> {
        Snapshot { writer: word_index(self.shared), shared: packed(self.writer, true), ..self }
    }

    /// The reader fetches: what it reports, and the snapshot after it.
    ///
    /// Its advisory load and its exchange both see the current word;
    /// `lemma_split_fetch_refines` shows that writer steps between the two
    /// change nothing.
    pub open spec fn fetch(self) -> (bool, Snapshot<V>) {
        if word_fresh(self.shared) {
            (
                true,
                Snapshot {
                    reader: word_index(self.shared),
                    shared: packed(self.reader, false),
                    is_initial: false,
                    ..self
                },
            )
        } else {
            (self.is_initial, Snapshot { is_initial: false, ..self })
        }
    }

    /// The snapshot after one step.
    pub open spec fn step(self, s: Step<V>) -> Snapshot<V> {
        match s {
            Step::Write(v) => self.write(v),
            Step::Publish => self.publish(),
            Step::Fetch => self.fetch().1,
        }
    }

    /// The snapshot after a sequence of steps, in order.
    pub open spec fn run(self, steps: Seq<Step<V>>) -> Snapshot<V>
        decreases steps.len(),
    {
        if steps.len() == 0 {
            self
        } else {
            self.step(steps[0]).run(steps.drop_first())
        }
    }
}

/// Whether a sequence of steps is made by the writer alone.
pub open spec fn writer_only<V>(steps: Seq<Step<V>>) -> bool {
    forall|i: int| 0 <= i < steps.len() ==> !(steps[i] is Fetch)
}

/// Whether a sequence of steps only writes, without publishing or fetching.
pub open spec fn writes_only<V>(steps: Seq<Step<V>>) -> bool {
    forall|i: int| 0 <= i < steps.len() ==> steps[i] is Write
}

/// A cell just built satisfies the ownership invariant.
pub proof fn lemma_initial_inv<V>(shared_v: V, writer_v: V, reader_v: V)
    ensures
        initial(shared_v, writer_v, reader_v).inv(),
        initial(shared_v, writer_v, reader_v).read() == reader_v,
        initial(shared_v, writer_v, reader_v).written() == writer_v,
        initial(shared_v, writer_v, reader_v).in_flight() == shared_v,
{
    lemma_packed_parts(0, false);
}

/// Each single step keeps {writer, shared word, reader} a permutation of
/// {0, 1, 2}.
pub proof fn lemma_step_inv<V>(s: Snapshot<V>, st: Step<V>)
    requires
        s.inv(),
    ensures
        s.step(st).inv(),
{
    lemma_packed_parts(s.writer, true);
    lemma_packed_parts(s.reader, false);
}

/// For any interleaving of writes, publishes and fetches, the writer's
/// index, the shared word's index and the reader's index stay a permutation
/// of {0, 1, 2}.
pub proof fn lemma_run_inv<V>(s: Snapshot<V>, steps: Seq<Step<V>>)
    requires
        s.inv(),
    ensures
        s.run(steps).inv(),
    decreases steps.len(),
{
    if steps.len() > 0 {
        lemma_step_inv(s, steps[0]);
        lemma_run_inv(s.step(steps[0]), steps.drop_first());
    }
}

/// A writer's `publish`, as its contract describes it, takes exactly the
/// model's publish step when its exchange received the cell's current word:
/// it leaves the writer with the model's new index and puts in the shared
/// word the model's new word.
pub proof fn lemma_publish_refines<V>(s: Snapshot<V>, e: Exchange, new_index: u8)
    requires
        s.inv(),
        publish_took(s.writer, e, new_index),
        e.received == s.shared,
    ensures
        s.publish() == (Snapshot { writer: new_index, shared: e.handed, ..s }),
        s.publish().inv(),
{
    lemma_step_inv(s, Step::Publish);
}

/// A reader's `fetch`, as its contract describes it, takes the model's fetch
/// step even though its load and its exchange are two atomic steps with
/// writer steps between them.
///
/// If the load saw no freshness flag, the fetch is the model's fetch at the
/// load. If it saw the flag, the word its exchange received is fresh too,
/// and the fetch is the model's fetch at the exchange, whatever the writer
/// did in between.
pub proof fn lemma_split_fetch_refines<V>(
    s: Snapshot<V>,
    between: Seq<Step<V>>,
    f: FetchRecord,
    changed: bool,
    new_index: u8,
)
    requires
        s.inv(),
        writer_only(between),
        fetch_took(s.reader, s.is_initial, f, changed, new_index),
        f.peek == s.shared,
        f.exchange matches Some(e) ==> e.received == s.run(between).shared,
    ensures
        !word_fresh(f.peek) ==> s.fetch() == (
            changed,
            Snapshot { reader: new_index, is_initial: false, ..s },
        ),
        word_fresh(f.peek) ==> ({
            let t = s.run(between);
            let e = f.exchange->Some_0;
            &&& word_fresh(e.received)
            &&& t.fetch() == (
                changed,
                Snapshot { reader: new_index, shared: e.handed, is_initial: false, ..t },
            )
            &&& t.fetch().1.inv()
        }),
{
    if word_fresh(f.peek) {
        lemma_fresh_persists(s, between);
        lemma_run_inv(s, between);
        lemma_step_inv(s.run(between), Step::Fetch);
    }
}

/// The first fetch on a reader reports a change, whether or not the writer
/// ever published.
pub proof fn lemma_first_fetch_changed<V>(s: Snapshot<V>)
    requires
        s.inv(),
        s.is_initial,
    ensures
        s.fetch().0,
{
}

/// Once the shared word is fresh, writer steps keep it fresh: a reader whose
/// advisory load saw the flag set finds it still set at its exchange, however
/// many writes and publishes fall in between.
pub proof fn lemma_fresh_persists<V>(s: Snapshot<V>, steps: Seq<Step<V>>)
    requires
        s.inv(),
        word_fresh(s.shared),
        writer_only(steps),
    ensures
        word_fresh(s.run(steps).shared),
        s.run(steps).reader == s.reader,
        s.run(steps).is_initial == s.is_initial,
    decreases steps.len(),
{
    if steps.len() > 0 {
        lemma_packed_parts(s.writer, true);
        lemma_step_inv(s, steps[0]);
        assert(!(steps[0] is Fetch));
        let rest = steps.drop_first();
        assert forall|i: int| 0 <= i < rest.len() implies !(rest[i] is Fetch) by {
            assert(rest[i] == steps[i + 1]);
        }
        lemma_fresh_persists(s.step(steps[0]), rest);
    }
}

/// Writes by the writer into its own slot leave the indices, the shared word
/// and everything outside the writer's slot unchanged.
proof fn lemma_run_writes<V>(s: Snapshot<V>, steps: Seq<Step<V>>)
    requires
        s.inv(),
        writes_only(steps),
    ensures
        s.run(steps).inv(),
        s.run(steps).writer == s.writer,
        s.run(steps).shared == s.shared,
        s.run(steps).reader == s.reader,
        s.run(steps).is_initial == s.is_initial,
        forall|i: int| 0 <= i < 3 && i != s.writer ==> s.run(steps).slots[i] == s.slots[i],
    decreases steps.len(),
{
    if steps.len() > 0 {
        assert(steps[0] is Write);
        let rest = steps.drop_first();
        assert forall|i: int| 0 <= i < rest.len() implies rest[i] is Write by {
            assert(rest[i] == steps[i + 1]);
        }
        let t = s.step(steps[0]);
        lemma_run_writes(t, rest);
        assert(s.run(steps) == t.run(rest));
        assert forall|i: int| 0 <= i < 3 && i != s.writer implies s.run(steps).slots[i]
            == s.slots[i] by {
            assert(t.slots[i] == s.slots[i]);
        }
    }
}

/// After a fetch, as long as the writer does not publish again, every later
/// fetch reports no change and leaves the cell as it is, and the reader keeps
/// reading the same value.
pub proof fn lemma_fetch_again_unchanged<V>(s: Snapshot<V>, steps: Seq<Step<V>>)
    requires
        s.inv(),
        writes_only(steps),
    ensures
        ({
            let t = s.fetch().1;
            let u = t.run(steps);
            &&& u.fetch() == (false, u)
            &&& u.read() == t.read()
        }),
{
    let t = s.fetch().1;
    lemma_packed_parts(s.reader, false);
    lemma_step_inv(s, Step::Fetch);
    assert(!word_fresh(t.shared));
    lemma_run_writes(t, steps);
}

/// Publishes between two fetches coalesce: whatever the writer did before
/// (`before`, any number of writes and publishes), if it last published when
/// its slot held some value and then only wrote, the next fetch reports a
/// change and the reader then reads the value of that last publish.
pub proof fn lemma_last_publish_observed<V>(
    s: Snapshot<V>,
    before: Seq<Step<V>>,
    after: Seq<Step<V>>,
)
    requires
        s.inv(),
        writer_only(before),
        writes_only(after),
    ensures
        ({
            let t = s.run(before);
            let u = t.publish().run(after);
            &&& u.fetch().0
            &&& u.fetch().1.read() == t.written()
        }),
{
    let t = s.run(before);
    lemma_run_inv(s, before);
    lemma_packed_parts(t.writer, true);
    lemma_step_inv(t, Step::Publish);
    lemma_run_writes(t.publish(), after);
}

/// Values move between the sides whole. A writer step never changes what the
/// reader reads, nor what the in-flight slot holds but by a publish, which
/// puts there exactly what the writer's slot held; a fetch changes what the
/// reader reads only by taking the in-flight slot as it is.
pub proof fn lemma_no_tearing<V>(s: Snapshot<V>, v: V)
    requires
        s.inv(),
    ensures
        s.write(v).read() == s.read(),
        s.write(v).in_flight() == s.in_flight(),
        s.write(v).written() == v,
        s.publish().read() == s.read(),
        s.publish().in_flight() == s.written(),
        s.fetch().1.read() == if word_fresh(s.shared) {
            s.in_flight()
        } else {
            s.read()
        },
{
    lemma_packed_parts(s.writer, true);
}

/// One round of a producer that overwrites its slot with `v` and publishes
/// (`Some(v)`), or one fetch by the consumer (`None`).
pub open spec fn round(s: Snapshot<int>, e: Option<int>) -> Snapshot<int> {
    match e {
        Some(v) => s.write(v).publish(),
        None => s.fetch().1,
    }
}

/// The snapshot after a sequence of rounds, in order.
pub open spec fn run_rounds(s: Snapshot<int>, events: Seq<Option<int>>) -> Snapshot<int>
    decreases events.len(),
{
    if events.len() == 0 {
        s
    } else {
        round(run_rounds(s, events.drop_last()), events.last())
    }
}

/// The last value published in `events`, or `a` if none was.
pub open spec fn latest(a: int, events: Seq<Option<int>>) -> int
    decreases events.len(),
{
    if events.len() == 0 {
        a
    } else {
        match events.last() {
            Some(v) => v,
            None => latest(a, events.drop_last()),
        }
    }
}

/// Whether each published value is greater than every value before it,
/// starting from the initial value `a`.
pub open spec fn increasing_payload(a: int, events: Seq<Option<int>>) -> bool {
    forall|i: int|
        0 <= i < events.len() ==> (#[trigger] events[i] matches Some(v) ==> v > latest(
            a,
            events.take(i),
        ))
}

/// Whether `x` is the initial value or a value published in `events`.
pub open spec fn genuine(a: int, events: Seq<Option<int>>, x: int) -> bool {
    x == a || exists|i: int| 0 <= i < events.len() && events[i] == Some(x)
}

/// What stays true of a cell built with `a` in all three slots while a
/// producer publishes increasing values.
spec fn monotone_inv(s: Snapshot<int>, a: int, events: Seq<Option<int>>) -> bool {
    let hi = latest(a, events);
    &&& s.inv()
    &&& forall|k: int| 0 <= k < 3 ==> #[trigger] s.slots[k] <= hi
    &&& forall|k: int| 0 <= k < 3 ==> genuine(a, events, #[trigger] s.slots[k])
    &&& word_fresh(s.shared) ==> s.in_flight() == hi
    &&& !word_fresh(s.shared) ==> s.in_flight() <= s.read()
}

proof fn lemma_genuine_extends(a: int, events: Seq<Option<int>>, x: int)
    requires
        events.len() > 0,
        genuine(a, events.drop_last(), x),
    ensures
        genuine(a, events, x),
{
    if x != a {
        let i = choose|i: int|
            0 <= i < events.drop_last().len() && events.drop_last()[i] == Some(x);
        assert(events[i] == Some(x));
    }
}

proof fn lemma_monotone_inv(a: int, events: Seq<Option<int>>)
    requires
        increasing_payload(a, events),
    ensures
        monotone_inv(run_rounds(initial(a, a, a), events), a, events),
        events.len() > 0 ==> run_rounds(initial(a, a, a), events.drop_last()).read() <= run_rounds(
            initial(a, a, a),
            events,
        ).read(),
    decreases events.len(),
{
    lemma_packed_parts(0, false);
    if events.len() > 0 {
        let p = events.drop_last();
        assert forall|i: int| 0 <= i < p.len() implies (#[trigger] p[i] matches Some(v) ==> v
            > latest(a, p.take(i))) by {
            assert(p.take(i) == events.take(i));
            assert(p[i] == events[i]);
        }
        lemma_monotone_inv(a, p);
        let s = run_rounds(initial(a, a, a), p);
        let hi = latest(a, p);
        lemma_packed_parts(s.writer, true);
        lemma_packed_parts(s.reader, false);
        lemma_step_inv(s, Step::Fetch);
        assert forall|k: int| 0 <= k < 3 implies genuine(a, events, #[trigger] s.slots[k]) by {
            lemma_genuine_extends(a, events, s.slots[k]);
        }
        match events.last() {
            Some(v) => {
                assert(events.take(events.len() - 1) == p);
                assert(events[events.len() - 1] == Some(v));
                let t = s.write(v).publish();
                assert(genuine(a, events, v));
                assert forall|k: int| 0 <= k < 3 implies genuine(a, events, #[trigger] t.slots[k]) by {
                    if k != s.writer {
                        assert(t.slots[k] == s.slots[k]);
                    }
                }
                assert forall|k: int| 0 <= k < 3 implies #[trigger] t.slots[k] <= v by {
                    if k != s.writer {
                        assert(t.slots[k] == s.slots[k]);
                    }
                }
            },
            None => {
                assert(latest(a, events) == hi);
            },
        }
    }
}

/// A producer that publishes ever larger values to a cell built with `a` in
/// every slot, against a consumer that fetches at any moments: after every
/// round the value the consumer reads is no smaller than before, and it is
/// always the initial value or a value that was actually published.
pub proof fn lemma_monotone_observation(a: int, events: Seq<Option<int>>)
    requires
        increasing_payload(a, events),
    ensures
        forall|n: int|
            0 < n <= events.len() ==> run_rounds(initial(a, a, a), events.take(n - 1)).read()
                <= #[trigger] run_rounds(initial(a, a, a), events.take(n)).read(),
        forall|n: int|
            0 <= n <= events.len() ==> genuine(
                a,
                events,
                #[trigger] run_rounds(initial(a, a, a), events.take(n)).read(),
            ),
{
    assert forall|n: int| 0 < n <= events.len() implies run_rounds(
        initial(a, a, a),
        events.take(n - 1),
    ).read() <= #[trigger] run_rounds(initial(a, a, a), events.take(n)).read() by {
        let q = events.take(n);
        assert(q.drop_last() == events.take(n - 1));
        lemma_increasing_prefix(a, events, n);
        lemma_monotone_inv(a, q);
    }
    assert forall|n: int| 0 <= n <= events.len() implies genuine(
        a,
        events,
        #[trigger] run_rounds(initial(a, a, a), events.take(n)).read(),
    ) by {
        let q = events.take(n);
        lemma_increasing_prefix(a, events, n);
        lemma_monotone_inv(a, q);
        let s = run_rounds(initial(a, a, a), q);
        let x = s.read();
        assert(genuine(a, q, s.slots[s.reader as int]));
        if x != a {
            let i = choose|i: int| 0 <= i < q.len() && q[i] == Some(x);
            assert(events[i] == Some(x));
        }
    }
}

proof fn lemma_increasing_prefix(a: int, events: Seq<Option<int>>, n: int)
    requires
        increasing_payload(a, events),
        0 <= n <= events.len(),
    ensures
        increasing_payload(a, events.take(n)),
{
    let q = events.take(n);
    assert forall|i: int| 0 <= i < q.len() implies (#[trigger] q[i] matches Some(v) ==> v > latest(
        a,
        q.take(i),
    )) by {
        assert(q.take(i) == events.take(i));
        assert(q[i] == events[i]);
    }
}

} // verus!
