//! The distribution hub: one stream of published events, any number of
//! subscribers, and a producer that never waits.
//!
//! The hub numbers the events in the order of their publication and
//! keeps the latest `capacity` of them. A subscription is a position in
//! that order and belongs to its subscriber alone. What a subscriber has
//! not fetched yet is its queue; it is never longer than `capacity`,
//! because an event that leaves the hub leaves the queue of every
//! subscriber that has not fetched it. Such a subscriber is told how many
//! events it missed and goes on with the oldest event still there; the
//! others notice nothing.

use vstd::prelude::*;

verus! {

/// Events that the hub of the event stream keeps.
pub const STREAM_CAPACITY: usize = 100;

/// A hub as a mathematical value.
pub ghost struct HubView {
    /// How many events the hub keeps.
    pub capacity: nat,
    /// Whether the hub has shut down.
    pub closed: bool,
    /// Every event published so far; the index of an event is its number.
    pub log: Seq<Seq<char>>,
}

/// What a subscriber gets when it asks for its next event.
#[derive(Clone, Debug, PartialEq, Eq)]
pub enum Delivery {
    /// The event with the number `seq`.
    Item { seq: u64, payload: String },
    /// The subscriber fell behind: `missed` events left the hub before it
    /// fetched them. The subscription stands and goes on with the oldest
    /// event that the hub still has.
    Lagged { missed: u64 },
    /// Nothing new yet.
    Empty,
    /// The hub has shut down and nothing is left to fetch.
    Closed,
}

/// A `Delivery` as a mathematical value.
pub ghost enum DeliveryView {
    Item { seq: nat, payload: Seq<char> },
    Lagged { missed: nat },
    Empty,
    Closed,
}

impl View for Delivery {
    type V = DeliveryView;

    open spec fn view(&self) -> DeliveryView {
        match self {
            Delivery::Item { seq, payload } => DeliveryView::Item {
                seq: *seq as nat,
                payload: payload@,
            },
            Delivery::Lagged { missed } => DeliveryView::Lagged { missed: *missed as nat },
            Delivery::Empty => DeliveryView::Empty,
            Delivery::Closed => DeliveryView::Closed,
        }
    }
}

impl HubView {
    /// The number of the oldest event that the hub still has.
    pub open spec fn oldest(self) -> nat {
        if self.log.len() <= self.capacity {
            0
        } else {
            (self.log.len() - self.capacity) as nat
        }
    }

    /// Whether the hub takes another event.
    pub open spec fn accepts(self) -> bool {
        !self.closed && self.log.len() < u64::MAX
    }

    /// The hub after `payload` is offered for publication.
    pub open spec fn published(self, payload: Seq<char>) -> HubView {
        if self.accepts() {
            HubView { log: self.log.push(payload), ..self }
        } else {
            self
        }
    }

    /// The queue of a subscriber at position `next`: the events that it
    /// can still fetch, oldest first.
    pub open spec fn queue(self, next: nat) -> Seq<Seq<char>> {
        if next >= self.log.len() {
            Seq::empty()
        } else if next < self.oldest() {
            self.log.skip(self.oldest() as int)
        } else {
            self.log.skip(next as int)
        }
    }

    /// What a subscriber at position `next` gets.
    pub open spec fn delivery(self, next: nat) -> DeliveryView {
        if next < self.oldest() {
            DeliveryView::Lagged { missed: (self.oldest() - next) as nat }
        } else if next < self.log.len() {
            DeliveryView::Item { seq: next, payload: self.log[next as int] }
        } else if self.closed {
            DeliveryView::Closed
        } else {
            DeliveryView::Empty
        }
    }

    /// Where a subscriber at position `next` stands after it got its
    /// delivery.
    pub open spec fn advanced(self, next: nat) -> nat {
        if next < self.oldest() {
            self.oldest()
        } else if next < self.log.len() {
            next + 1
        } else {
            next
        }
    }
}

/// The place of one subscriber in the order of events: the number of the
/// event that it fetches next.
#[derive(Debug, PartialEq, Eq)]
pub struct Subscription {
    next: u64,
}

impl View for Subscription {
    type V = nat;

    closed spec fn view(&self) -> nat {
        self.next as nat
    }
}

/// The publish point and the events it keeps.
pub struct Hub {
    capacity: usize,
    recent: Vec<String>,
    published: u64,
    closed: bool,
    log: Ghost<Seq<Seq<char>>>,
}

impl View for Hub {
    type V = HubView;

    closed spec fn view(&self) -> HubView {
        HubView { capacity: self.capacity as nat, closed: self.closed, log: self.log@ }
    }
}

impl Hub {
    /// What holds of every hub that `new` made: it has the latest events,
    /// as many as it keeps or as were published, and has counted them.
    pub closed spec fn well_formed(&self) -> bool {
        &&& self.capacity > 0
        &&& self.published == self.log@.len()
        &&& self.recent@.len() == self.log@.len() - self@.oldest()
        &&& forall|i: int|
            0 <= i < self.recent@.len() ==> (#[trigger] self.recent@[i])@ == self.log@[self@.oldest()
                + i]
    }

    /// A hub that keeps the latest `capacity` events and has none yet.
    pub fn new(capacity: usize) -> (hub: Hub)
        requires
            capacity > 0,
        ensures
            hub.well_formed(),
            hub@ == (HubView { capacity: capacity as nat, closed: false, log: Seq::empty() }),
    {
        Hub {
            capacity,
            recent: Vec::new(),
            published: 0,
            closed: false,
            log: Ghost(Seq::empty()),
        }
    }

    /// How many events the hub keeps.
    pub fn capacity(&self) -> (capacity: usize)
        requires
            self.well_formed(),
        ensures
            capacity == self@.capacity,
            capacity > 0,
    {
        self.capacity
    }

    /// How many events have been published.
    pub fn published(&self) -> (count: u64)
        requires
            self.well_formed(),
        ensures
            count == self@.log.len(),
    {
        self.published
    }

    /// Whether the hub has shut down.
    pub fn is_closed(&self) -> (closed: bool)
        ensures
            closed == self@.closed,
    {
        self.closed
    }

    /// Publishes `payload` to every subscriber, without waiting for any.
    /// A hub that has shut down takes nothing, nor does one that has
    /// numbered as many events as there are numbers.
    pub fn publish(&mut self, payload: String) -> (accepted: bool)
        requires
            old(self).well_formed(),
        ensures
            final(self).well_formed(),
            accepted == old(self)@.accepts(),
            final(self)@ == old(self)@.published(payload@),
    {
        if self.closed || self.published == u64::MAX {
            return false;
        }
        let ghost before = self.log@;
        let ghost kept = self.recent@;
        let ghost text = payload@;
        if self.recent.len() == self.capacity {
            self.recent.remove(0);
        }
        self.recent.push(payload);
        self.published = self.published + 1;
        self.log = Ghost(before.push(text));
        proof {
            let after = self.log@;
            let now = self@.oldest();
            assert forall|i: int| 0 <= i < self.recent@.len() implies (#[trigger] self.recent@[i])@
                == after[now + i] by {
                if i < self.recent@.len() - 1 {
                    if kept.len() == self.capacity {
                        assert(self.recent@[i] == kept[i + 1]);
                    } else {
                        assert(self.recent@[i] == kept[i]);
                    }
                }
            }
        }
        true
    }

    /// Shuts the hub down. Subscribers still get what is in their queues.
    pub fn close(&mut self)
        requires
            old(self).well_formed(),
        ensures
            final(self).well_formed(),
            final(self)@ == (HubView { closed: true, ..old(self)@ }),
    {
        self.closed = true;
    }

    /// A subscription that starts with the next event to be published.
    pub fn subscribe(&self) -> (subscription: Subscription)
        requires
            self.well_formed(),
        ensures
            subscription@ == self@.log.len(),
            self@.queue(subscription@) == Seq::<Seq<char>>::empty(),
    {
        Subscription { next: self.published }
    }

    /// How many events are in the queue of `subscription`.
    pub fn queued(&self, subscription: &Subscription) -> (count: usize)
        requires
            self.well_formed(),
        ensures
            count == self@.queue(subscription@).len(),
            count <= self@.capacity,
    {
        if subscription.next >= self.published {
            0
        } else {
            let oldest: u64 = self.published - self.recent.len() as u64;
            if subscription.next < oldest {
                self.recent.len()
            } else {
                (self.published - subscription.next) as usize
            }
        }
    }

    /// The next delivery for `subscription`, which moves on past it.
    pub fn poll(&self, subscription: &mut Subscription) -> (delivery: Delivery)
        requires
            self.well_formed(),
        ensures
            delivery@ == self@.delivery(old(subscription)@),
            final(subscription)@ == self@.advanced(old(subscription)@),
    {
        let oldest: u64 = self.published - self.recent.len() as u64;
        if subscription.next < oldest {
            let missed: u64 = oldest - subscription.next;
            subscription.next = oldest;
            Delivery::Lagged { missed }
        } else if subscription.next < self.published {
            let seq: u64 = subscription.next;
            let at: usize = (seq - oldest) as usize;
            let payload = self.recent[at].clone();
            subscription.next = seq + 1;
            Delivery::Item { seq, payload }
        } else if self.closed {
            Delivery::Closed
        } else {
            Delivery::Empty
        }
    }
}

// ---------------------------------------------------------------------
// What a subscriber sees
// ---------------------------------------------------------------------

/// One step in the life of a hub and one of its subscribers.
pub ghost enum Step {
    /// The producer publishes an event.
    Publish { payload: Seq<char> },
    /// The subscriber asks for its next event.
    Poll,
}

/// A hub and the position of one subscriber.
pub ghost struct Scene {
    pub hub: HubView,
    pub next: nat,
}

/// The scene after one step.
pub open spec fn stepped(scene: Scene, step: Step) -> Scene {
    match step {
        Step::Publish { payload } => Scene { hub: scene.hub.published(payload), next: scene.next },
        Step::Poll => Scene { hub: scene.hub, next: scene.hub.advanced(scene.next) },
    }
}

/// The scene after `steps`.
pub open spec fn played(scene: Scene, steps: Seq<Step>) -> Scene
    decreases steps.len(),
{
    if steps.len() == 0 {
        scene
    } else {
        stepped(played(scene, steps.drop_last()), steps.last())
    }
}

/// What the subscriber got in the course of `steps`, in order.
pub open spec fn deliveries(scene: Scene, steps: Seq<Step>) -> Seq<DeliveryView>
    decreases steps.len(),
{
    if steps.len() == 0 {
        Seq::empty()
    } else {
        let before = played(scene, steps.drop_last());
        let sofar = deliveries(scene, steps.drop_last());
        match steps.last() {
            Step::Publish { .. } => sofar,
            Step::Poll => sofar.push(before.hub.delivery(before.next)),
        }
    }
}

/// How many events `got` accounts for: one for each event delivered, and
/// for each report of a lag as many as it says were missed.
pub open spec fn accounted(got: Seq<DeliveryView>) -> nat
    decreases got.len(),
{
    if got.len() == 0 {
        0
    } else {
        accounted(got.drop_last()) + match got.last() {
            DeliveryView::Item { .. } => 1nat,
            DeliveryView::Lagged { missed } => missed,
            _ => 0nat,
        }
    }
}

/// Whether a scene is in order: the hub keeps at least one event, and
/// the subscriber is not ahead of the producer.
pub open spec fn in_order(scene: Scene) -> bool {
    scene.hub.capacity > 0 && scene.next <= scene.hub.log.len()
}

/// Whether no delivery of `got` says that the hub has shut down.
pub open spec fn none_closed(got: Seq<DeliveryView>) -> bool {
    forall|i: int| 0 <= i < got.len() ==> !(#[trigger] got[i] is Closed)
}

/// Whether every event delivered in `got` has a number from `from` up to,
/// but not including, `to`, and is the event that `log` has under that
/// number.
pub open spec fn true_to_log(
    got: Seq<DeliveryView>,
    log: Seq<Seq<char>>,
    from: nat,
    to: nat,
) -> bool {
    forall|i: int|
        0 <= i < got.len() ==> (#[trigger] got[i] matches DeliveryView::Item { seq, payload } ==> from
            <= seq < to && payload == log[seq as int])
}

/// Whether the numbers of the events delivered in `got` grow strictly.
pub open spec fn numbers_grow(got: Seq<DeliveryView>) -> bool {
    forall|i: int, j: int|
        0 <= i < j < got.len() ==> (#[trigger] got[i] matches DeliveryView::Item { seq: first, .. }
            ==> (#[trigger] got[j] matches DeliveryView::Item { seq: second, .. } ==> first
            < second))
}

/// Whatever the producer and a subscriber do, and however far the
/// subscriber falls behind:
///
/// - the hub keeps what it was made to keep, stays open, and only adds to
///   what was published;
/// - the queue of the subscriber never holds more than `capacity` events;
/// - the hub never shuts the subscriber out: while the hub is open, no
///   delivery is `Closed`;
/// - every event delivered is the event published under its number, and
///   the numbers delivered grow strictly, before a lag and after it;
/// - nothing goes missing unnoticed: the events delivered and the events
///   reported as missed are together exactly the events that the
///   subscriber has moved past.
pub proof fn lemma_subscriber_keeps_up(scene: Scene, steps: Seq<Step>)
    requires
        in_order(scene),
    ensures
        in_order(played(scene, steps)),
        played(scene, steps).hub.capacity == scene.hub.capacity,
        played(scene, steps).hub.closed == scene.hub.closed,
        scene.hub.log.len() <= played(scene, steps).hub.log.len(),
        played(scene, steps).hub.log.take(scene.hub.log.len() as int) == scene.hub.log,
        played(scene, steps).hub.queue(played(scene, steps).next).len() <= scene.hub.capacity,
        !scene.hub.closed ==> none_closed(deliveries(scene, steps)),
        true_to_log(
            deliveries(scene, steps),
            played(scene, steps).hub.log,
            scene.next,
            played(scene, steps).next,
        ),
        numbers_grow(deliveries(scene, steps)),
        scene.next + accounted(deliveries(scene, steps)) == played(scene, steps).next,
    decreases steps.len(),
{
    if steps.len() == 0 {
        assert(scene.hub.log.take(scene.hub.log.len() as int) =~= scene.hub.log);
    } else {
        let shorter = steps.drop_last();
        lemma_subscriber_keeps_up(scene, shorter);
        let before = played(scene, shorter);
        let after = played(scene, steps);
        let sofar = deliveries(scene, shorter);
        let got = deliveries(scene, steps);
        assert(after.hub.log.take(scene.hub.log.len() as int) =~= scene.hub.log);
        match steps.last() {
            Step::Publish { payload } => {
                assert forall|i: int| 0 <= i < got.len() implies (#[trigger] got[i]
                    matches DeliveryView::Item { seq, payload } ==> scene.next <= seq < after.next
                    && payload == after.hub.log[seq as int]) by {
                    assert(got[i] == sofar[i]);
                }
            },
            Step::Poll => {
                assert(got.drop_last() =~= sofar);
                assert forall|i: int| 0 <= i < got.len() implies (#[trigger] got[i]
                    matches DeliveryView::Item { seq, payload } ==> scene.next <= seq < after.next
                    && payload == after.hub.log[seq as int]) by {
                    if i < sofar.len() {
                        assert(got[i] == sofar[i]);
                    }
                }
                assert forall|i: int, j: int| 0 <= i < j < got.len() implies (#[trigger] got[i]
                    matches DeliveryView::Item { seq: first, .. } ==> (#[trigger] got[j]
                    matches DeliveryView::Item { seq: second, .. } ==> first < second)) by {
                    assert(got[i] == sofar[i]);
                    if j < sofar.len() {
                        assert(got[j] == sofar[j]);
                    }
                }
                if !scene.hub.closed {
                    assert forall|i: int| 0 <= i < got.len() implies !(#[trigger] got[i]
                        is Closed) by {
                        if i < sofar.len() {
                            assert(got[i] == sofar[i]);
                        }
                    }
                }
            },
        }
    }
}

/// Whether what `stamp` reads from the events of `log` grows strictly.
pub open spec fn stamps_grow(log: Seq<Seq<char>>, stamp: spec_fn(Seq<char>) -> int) -> bool {
    forall|a: int, b: int|
        0 <= a < b < log.len() ==> stamp(#[trigger] log[a]) < stamp(#[trigger] log[b])
}

/// Whether what `stamp` reads from the events delivered in `got` grows
/// strictly.
pub open spec fn delivered_stamps_grow(
    got: Seq<DeliveryView>,
    stamp: spec_fn(Seq<char>) -> int,
) -> bool {
    forall|i: int, j: int|
        0 <= i < j < got.len() ==> (#[trigger] got[i] matches DeliveryView::Item { payload: first, .. }
            ==> (#[trigger] got[j] matches DeliveryView::Item { payload: second, .. } ==> stamp(
            first,
        ) < stamp(second)))
}

/// Whatever the events tell of time, a subscriber reads it in the order
/// of publication: where the time that `stamp` reads from the events
/// grows strictly along the events published, it grows strictly along
/// the events delivered, before a lag and after it.
pub proof fn lemma_delivered_in_publish_order(
    scene: Scene,
    steps: Seq<Step>,
    stamp: spec_fn(Seq<char>) -> int,
)
    requires
        in_order(scene),
        stamps_grow(played(scene, steps).hub.log, stamp),
    ensures
        delivered_stamps_grow(deliveries(scene, steps), stamp),
{
    lemma_subscriber_keeps_up(scene, steps);
    let got = deliveries(scene, steps);
    let log = played(scene, steps).hub.log;
    assert forall|i: int, j: int| 0 <= i < j < got.len() implies (#[trigger] got[i]
        matches DeliveryView::Item { payload: first, .. } ==> (#[trigger] got[j]
        matches DeliveryView::Item { payload: second, .. } ==> stamp(first) < stamp(second))) by {
        if let DeliveryView::Item { seq: a, payload: first } = got[i] {
            if let DeliveryView::Item { seq: b, payload: second } = got[j] {
                assert(a < b);
                assert(first == log[a as int]);
                assert(second == log[b as int]);
            }
        }
    }
}

/// A subscriber that fell behind is told by how much and then gets the
/// events that the hub still has, from the oldest on.
pub proof fn lemma_lagged_subscriber_recovers(hub: HubView, next: nat)
    requires
        hub.capacity > 0,
        next < hub.oldest(),
    ensures
        hub.delivery(next) == (DeliveryView::Lagged { missed: (hub.oldest() - next) as nat }),
        hub.delivery(hub.advanced(next)) == (DeliveryView::Item {
            seq: hub.oldest(),
            payload: hub.log[hub.oldest() as int],
        }),
        hub.queue(hub.advanced(next)) == hub.log.skip(hub.oldest() as int),
        hub.queue(hub.advanced(next)).len() == hub.capacity,
{
}

} // verus!
