//! The broadcast hub: one producer, any number of subscriptions, each with
//! its own bounded queue of frames.
//!
//! A frame that arrives at a full queue pushes the oldest frame of that queue
//! out, so publishing never waits for a reader and never fails. A
//! subscription sees only what is published after it was created.
//!
//! The queue of a subscription is a `tokio::sync::broadcast` channel of its
//! own, both ends of which the hub keeps: the hub sends each frame into every
//! channel, and a subscription is read from the receiving end of its channel.
//! tokio keeps the newest frames of a channel and lets a reader that was
//! overrun go on with the oldest frame kept. What the hub states of its
//! queues rests on what is stated here of those channels; it is not proved.

use tokio::sync::broadcast::error::TryRecvError;
use tokio::sync::broadcast::{Receiver, Sender};
use vstd::prelude::*;
use vstd::slice::slice_to_vec;

verus! {

/// What a queue holds after `frame` arrives: the frames it held and then
/// `frame`, cut down from the front to the newest `capacity` of them.
pub open spec fn enqueue(queue: Seq<Seq<u8>>, frame: Seq<u8>, capacity: nat) -> Seq<Seq<u8>> {
    newest(queue.push(frame), capacity)
}

/// The last `count` items of `frames`, or all of them if there are fewer.
pub open spec fn newest(frames: Seq<Seq<u8>>, count: nat) -> Seq<Seq<u8>> {
    if frames.len() > count {
        frames.skip(frames.len() - count)
    } else {
        frames
    }
}

/// The mathematical state of a hub.
pub struct HubState {
    /// The most frames a subscription's queue holds.
    pub capacity: nat,
    /// The identifier that the next subscription gets.
    pub next_id: nat,
    /// The frames waiting for each live subscription, oldest first.
    pub queues: Map<u64, Seq<Seq<u8>>>,
}

impl HubState {
    /// A hub without subscriptions.
    pub open spec fn empty(capacity: nat) -> HubState {
        HubState { capacity, next_id: 0, queues: Map::empty() }
    }

    /// Every live identifier was handed out by this hub, identifiers still fit
    /// the machine word, and no queue is over capacity.
    pub open spec fn wf(self) -> bool {
        &&& self.next_id <= u64::MAX
        &&& self.queues.dom().finite()
        &&& forall|id: u64| #[trigger]
            self.queues.contains_key(id) ==> id < self.next_id && self.queues[id].len()
                <= self.capacity
    }

    /// Whether `id` names a live subscription.
    pub open spec fn is_live(self, id: u64) -> bool {
        self.queues.contains_key(id)
    }

    /// The hub after a subscription is added under the identifier
    /// `self.next_id`, with nothing waiting for it.
    pub open spec fn subscribe(self) -> HubState {
        HubState {
            next_id: self.next_id + 1,
            queues: self.queues.insert(self.next_id as u64, Seq::empty()),
            ..self
        }
    }

    /// The hub after `frame` is delivered to every live subscription.
    pub open spec fn publish(self, frame: Seq<u8>) -> HubState {
        HubState {
            queues: Map::new(
                |id: u64| self.queues.contains_key(id),
                |id: u64| enqueue(self.queues[id], frame, self.capacity),
            ),
            ..self
        }
    }

    /// The hub after each of `frames` is published, in order.
    pub open spec fn publish_all(self, frames: Seq<Seq<u8>>) -> HubState
        decreases frames.len(),
    {
        if frames.len() == 0 {
            self
        } else {
            self.publish_all(frames.drop_last()).publish(frames.last())
        }
    }

    /// The oldest frame waiting for `id`, if `id` is live and has one.
    pub open spec fn next_frame(self, id: u64) -> Option<Seq<u8>> {
        if self.queues.contains_key(id) && self.queues[id].len() > 0 {
            Some(self.queues[id].first())
        } else {
            None
        }
    }

    /// The hub after `id` has taken its oldest waiting frame, if it had one.
    pub open spec fn poll(self, id: u64) -> HubState {
        if self.queues.contains_key(id) && self.queues[id].len() > 0 {
            HubState { queues: self.queues.insert(id, self.queues[id].drop_first()), ..self }
        } else {
            self
        }
    }

    /// The hub after the subscription `id` is dropped.
    pub open spec fn unsubscribe(self, id: u64) -> HubState {
        HubState { queues: self.queues.remove(id), ..self }
    }
}

/// Publishing keeps a hub well formed however full its queues are: the same
/// subscriptions stay live, every queue stays within capacity, and a queue
/// with room loses nothing.
pub proof fn lemma_publish_never_overflows(hub: HubState, frame: Seq<u8>)
    requires
        hub.wf(),
    ensures
        hub.publish(frame).wf(),
        hub.publish(frame).queues.dom() == hub.queues.dom(),
        forall|id: u64|
            hub.is_live(id) && hub.queues[id].len() < hub.capacity ==> #[trigger] hub.publish(
                frame,
            ).queues[id] == hub.queues[id].push(frame),
        forall|id: u64|
            hub.is_live(id) && hub.queues[id].len() == hub.capacity && hub.capacity > 0
                ==> #[trigger] hub.publish(frame).queues[id] == hub.queues[id].drop_first().push(
                frame,
            ),
{
    let after = hub.publish(frame);
    assert(after.queues.dom() =~= hub.queues.dom());
}

/// After a run of publications a live subscription holds the newest frames,
/// in the order in which they were published: what waited before followed by
/// the run, cut down to the capacity.
pub proof fn lemma_publish_all(hub: HubState, frames: Seq<Seq<u8>>, id: u64)
    requires
        hub.wf(),
        hub.is_live(id),
    ensures
        hub.publish_all(frames).wf(),
        hub.publish_all(frames).is_live(id),
        hub.publish_all(frames).capacity == hub.capacity,
        hub.publish_all(frames).next_id == hub.next_id,
        hub.publish_all(frames).queues[id] == newest(hub.queues[id] + frames, hub.capacity),
    decreases frames.len(),
{
    if frames.len() > 0 {
        let front = frames.drop_last();
        lemma_publish_all(hub, front, id);
        lemma_publish_never_overflows(hub.publish_all(front), frames.last());
    }
}

/// No replay: a new subscription starts with nothing waiting, whatever was
/// published before, and after any run of later publications it holds
/// exactly the newest of those later frames, in publication order.
pub proof fn lemma_subscription_sees_only_later_frames(hub: HubState, later: Seq<Seq<u8>>)
    requires
        hub.wf(),
        hub.next_id < u64::MAX,
    ensures
        hub.subscribe().wf(),
        hub.subscribe().queues[hub.next_id as u64] == Seq::<Seq<u8>>::empty(),
        hub.subscribe().publish_all(later).queues[hub.next_id as u64] == newest(
            later,
            hub.capacity,
        ),
{
    let id = hub.next_id as u64;
    let joined = hub.subscribe();
    lemma_publish_all(joined, later, id);
}

/// Dropping a subscription does not disturb the producer or the other
/// subscriptions: the others keep their queues, and dropping before a
/// publication gives the same hub as dropping after it.
pub proof fn lemma_unsubscribe_is_independent(hub: HubState, dropped: u64, frame: Seq<u8>)
    requires
        hub.wf(),
    ensures
        hub.unsubscribe(dropped).wf(),
        !hub.unsubscribe(dropped).is_live(dropped),
        forall|id: u64|
            id != dropped && hub.is_live(id) ==> hub.unsubscribe(dropped).is_live(id)
                && #[trigger] hub.unsubscribe(dropped).queues[id] == hub.queues[id],
        hub.unsubscribe(dropped).publish(frame) == hub.publish(frame).unsubscribe(dropped),
{
    let gone = hub.unsubscribe(dropped);
    assert(gone.publish(frame).queues =~= hub.publish(frame).unsubscribe(dropped).queues);
}

/// A capability to read the frames published after it was created.
#[derive(Clone, Copy, Debug, PartialEq, Eq, Structural)]
pub struct Subscription {
    /// The identifier under which the hub keeps this subscription's queue.
    pub id: u64,
}

/// The sending end of a tokio broadcast channel.
#[verifier::external_type_specification]
#[verifier::external_body]
#[verifier::reject_recursive_types(T)]
pub struct ExSender<T>(Sender<T>);

/// The receiving end of a tokio broadcast channel.
#[verifier::external_type_specification]
#[verifier::external_body]
#[verifier::reject_recursive_types(T)]
pub struct ExReceiver<T>(Receiver<T>);

/// The frames that the receiving end of `line` has still to yield, oldest
/// first.
pub uninterp spec fn waiting(line: (Sender<Vec<u8>>, Receiver<Vec<u8>>)) -> Seq<Seq<u8>>;

/// Whether the receiving end of `line` was overrun: frames that it had not
/// read were pushed out, and its next read reports that before it goes on.
pub uninterp spec fn overrun(line: (Sender<Vec<u8>>, Receiver<Vec<u8>>)) -> bool;

/// The number of frames that `line` keeps.
pub uninterp spec fn room(line: (Sender<Vec<u8>>, Receiver<Vec<u8>>)) -> nat;

/// Whether the two ends of `line` were made together by one call and are the
/// only handles of their channel.
pub uninterp spec fn paired(line: (Sender<Vec<u8>>, Receiver<Vec<u8>>)) -> bool;

/// The least power of two that is not less than `capacity`, counted up from
/// `power`.
pub open spec fn retained_from(capacity: nat, power: nat) -> nat
    decreases 2 * capacity - power,
{
    if power == 0 || power >= capacity {
        power
    } else {
        retained_from(capacity, 2 * power)
    }
}

/// The number of frames that a queue asked to hold `capacity` frames keeps:
/// the least power of two that is not less than `capacity`.
pub open spec fn retained(capacity: nat) -> nat {
    retained_from(capacity, 1)
}

/// What reading from a channel gave.
enum Taken {
    /// This frame.
    Frame(Vec<u8>),
    /// Nothing: no frame waits.
    Empty,
    /// Nothing: no frame waits and the sending end is gone.
    Closed,
    /// Nothing yet: the reader was overrun and missed this many frames.
    Lagged(u64),
}

/// `tokio::sync::broadcast::channel`: a new channel that keeps `capacity`
/// frames, rounded up to a power of two, with nothing waiting at its
/// receiving end. tokio panics on a capacity of 0 or above `usize::MAX / 2`,
/// which `requires` leaves out.
#[verifier::external_body]
fn line_new(capacity: usize) -> (line: (Sender<Vec<u8>>, Receiver<Vec<u8>>))
    requires
        0 < capacity <= usize::MAX / 2,
    ensures
        paired(line),
        room(line) == retained(capacity as nat),
        waiting(line) == Seq::<Seq<u8>>::empty(),
        !overrun(line),
{
    tokio::sync::broadcast::channel(capacity)
}

/// `Sender::send` on the sending end of a channel whose receiving end is
/// alive: the frame is added behind the frames that wait; if the channel was
/// full, the oldest of them is pushed out and the receiving end is overrun.
#[verifier::external_body]
fn line_send(line: &mut (Sender<Vec<u8>>, Receiver<Vec<u8>>), frame: Vec<u8>)
    requires
        paired(*old(line)),
    ensures
        paired(*final(line)),
        room(*final(line)) == room(*old(line)),
        waiting(*final(line)) == enqueue(waiting(*old(line)), frame@, room(*old(line))),
        overrun(*final(line)) == (overrun(*old(line)) || waiting(*old(line)).len() >= room(
            *old(line),
        )),
{
    let _ = line.0.send(frame);
}

/// `Receiver::try_recv` on the receiving end of a channel whose sending end
/// is alive. A reader that was overrun is told so, once, and loses nothing
/// more by it; any other reader gets the oldest frame that waits, or is told
/// that none does.
#[verifier::external_body]
fn line_take(line: &mut (Sender<Vec<u8>>, Receiver<Vec<u8>>)) -> (taken: Taken)
    requires
        paired(*old(line)),
    ensures
        paired(*final(line)),
        room(*final(line)) == room(*old(line)),
        !overrun(*final(line)),
        match taken {
            Taken::Frame(frame) => {
                &&& !overrun(*old(line))
                &&& waiting(*old(line)).len() > 0
                &&& frame@ == waiting(*old(line)).first()
                &&& waiting(*final(line)) == waiting(*old(line)).drop_first()
            },
            Taken::Lagged(missed) => {
                &&& overrun(*old(line))
                &&& missed > 0
                &&& waiting(*final(line)) == waiting(*old(line))
            },
            _ => {
                &&& !overrun(*old(line))
                &&& waiting(*old(line)).len() == 0
                &&& waiting(*final(line)) == waiting(*old(line))
            },
        },
{
    match line.1.try_recv() {
        Ok(frame) => Taken::Frame(frame),
        Err(TryRecvError::Empty) => Taken::Empty,
        Err(TryRecvError::Closed) => Taken::Closed,
        Err(TryRecvError::Lagged(missed)) => Taken::Lagged(missed),
    }
}

struct Slot {
    id: u64,
    line: (Sender<Vec<u8>>, Receiver<Vec<u8>>),
}

/// A single-producer fan-out of byte frames to bounded per-subscription
/// queues.
pub struct BroadcastHub {
    capacity: usize,
    room: usize,
    next_id: u64,
    slots: Vec<Slot>,
}

spec fn has_slot(slots: Seq<Slot>, id: u64) -> bool {
    exists|i: int| 0 <= i < slots.len() && #[trigger] slots[i].id == id
}

spec fn slot_of(slots: Seq<Slot>, id: u64) -> int {
    choose|i: int| 0 <= i < slots.len() && #[trigger] slots[i].id == id
}

spec fn ascending(slots: Seq<Slot>) -> bool {
    forall|i: int, j: int| 0 <= i < j < slots.len() ==> slots[i].id < slots[j].id
}

spec fn queues_of(slots: Seq<Slot>) -> Map<u64, Seq<Seq<u8>>> {
    Map::new(|id: u64| has_slot(slots, id), |id: u64| waiting(slots[slot_of(slots, id)].line))
}

/// Whether `slot` is a sound queue that keeps `kept` frames: its channel is
/// whole, what waits fits, and a reader that was overrun finds it full.
spec fn sound(slot: Slot, kept: nat) -> bool {
    &&& paired(slot.line)
    &&& room(slot.line) == kept
    &&& waiting(slot.line).len() <= kept
    &&& overrun(slot.line) ==> waiting(slot.line).len() == kept
}

proof fn lemma_domain_size(slots: Seq<Slot>)
    requires
        ascending(slots),
    ensures
        queues_of(slots).dom().finite(),
        queues_of(slots).dom().len() == slots.len(),
    decreases slots.len(),
{
    let dom = queues_of(slots).dom();
    if slots.len() == 0 {
        assert(dom =~= Set::<u64>::empty());
    } else {
        let front = slots.drop_last();
        let last = slots.last().id;
        lemma_domain_size(front);
        let front_dom = queues_of(front).dom();
        assert(dom =~= front_dom.insert(last)) by {
            assert forall|id: u64| dom.contains(id) <==> front_dom.insert(last).contains(id) by {
                if has_slot(slots, id) {
                    let j = slot_of(slots, id);
                    if j < front.len() {
                        assert(front[j].id == id);
                    }
                }
            }
        }
    }
}

/// The number of frames kept for a capacity: computed by doubling.
fn round_up(capacity: usize) -> (kept: usize)
    requires
        0 < capacity <= usize::MAX / 2,
    ensures
        kept == retained(capacity as nat),
        capacity <= kept,
{
    let mut power: usize = 1;
    while power < capacity
        invariant
            0 < power,
            power < 2 * capacity,
            capacity <= usize::MAX / 2,
            retained_from(capacity as nat, power as nat) == retained(capacity as nat),
        decreases 2 * capacity - power,
    {
        power = power * 2;
    }
    power
}

impl View for BroadcastHub {
    type V = HubState;

    closed spec fn view(&self) -> HubState {
        HubState {
            capacity: self.room as nat,
            next_id: self.next_id as nat,
            queues: queues_of(self.slots@),
        }
    }
}

impl BroadcastHub {
    /// The representation invariant: slots are kept in the order in which
    /// their identifiers were handed out, and each is a sound queue of the
    /// hub's capacity.
    pub closed spec fn wf(&self) -> bool {
        &&& 0 < self.capacity <= usize::MAX / 2
        &&& self.room == retained(self.capacity as nat)
        &&& self.capacity <= self.room
        &&& ascending(self.slots@)
        &&& forall|i: int|
            0 <= i < self.slots.len() ==> (#[trigger] self.slots[i]).id < self.next_id && sound(
                self.slots[i],
                self.room as nat,
            )
    }

    /// A well-formed hub has a well-formed state, so what is proved of
    /// `HubState` holds of `self@`.
    pub proof fn lemma_wf_state(&self)
        requires
            self.wf(),
        ensures
            self@.wf(),
            0 < self@.capacity <= usize::MAX,
            self@.queues.dom().len() <= usize::MAX,
    {
        lemma_domain_size(self.slots@);
        assert(self.slots.len() <= usize::MAX);
    }

    /// A hub without subscriptions whose queues will hold the newest frames,
    /// at least `capacity` of them: `capacity` rounded up to a power of two.
    pub fn new(capacity: usize) -> (hub: BroadcastHub)
        requires
            0 < capacity <= usize::MAX / 2,
        ensures
            hub.wf(),
            hub@ == HubState::empty(retained(capacity as nat)),
    {
        let room = round_up(capacity);
        let hub = BroadcastHub { capacity, room, next_id: 0, slots: Vec::new() };
        assert(hub@.queues =~= Map::<u64, Seq<Seq<u8>>>::empty());
        hub
    }

    /// The most frames a subscription's queue holds.
    pub fn capacity(&self) -> (capacity: usize)
        ensures
            capacity == self@.capacity,
    {
        self.room
    }

    /// The number of live subscriptions.
    pub fn subscriber_count(&self) -> (count: usize)
        requires
            self.wf(),
        ensures
            count == self@.queues.dom().len(),
    {
        proof {
            lemma_domain_size(self.slots@);
        }
        self.slots.len()
    }

    fn find(&self, id: u64) -> (found: Option<usize>)
        requires
            self.wf(),
        ensures
            match found {
                Some(i) => i < self.slots.len() && self.slots[i as int].id == id && slot_of(
                    self.slots@,
                    id,
                ) == i,
                None => !has_slot(self.slots@, id),
            },
    {
        let mut i: usize = 0;
        while i < self.slots.len()
            invariant
                i <= self.slots.len(),
                self.wf(),
                forall|j: int| 0 <= j < i ==> self.slots[j].id != id,
            decreases self.slots.len() - i,
        {
            if self.slots[i].id == id {
                return Some(i);
            }
            i += 1;
        }
        None
    }

    /// Whether `subscription` is live in this hub.
    pub fn is_live(&self, subscription: Subscription) -> (live: bool)
        requires
            self.wf(),
        ensures
            live == self@.is_live(subscription.id),
    {
        self.find(subscription.id).is_some()
    }

    /// Add a subscription that will see the frames published from now on.
    /// Returns `None`, and changes nothing, only when the hub has handed out
    /// every identifier there is.
    pub fn subscribe(&mut self) -> (subscription: Option<Subscription>)
        requires
            old(self).wf(),
        ensures
            final(self).wf(),
            match subscription {
                Some(s) => {
                    &&& old(self)@.next_id < u64::MAX
                    &&& s.id == old(self)@.next_id
                    &&& final(self)@ == old(self)@.subscribe()
                },
                None => old(self)@.next_id == u64::MAX && final(self)@ == old(self)@,
            },
    {
        if self.next_id == u64::MAX {
            return None;
        }
        let id = self.next_id;
        let ghost before = self.slots@;
        let line = line_new(self.capacity);
        self.slots.push(Slot { id, line });
        self.next_id = id + 1;
        proof {
            let after = self.slots@;
            assert forall|k: u64| has_slot(after, k) <==> (k == id || has_slot(before, k)) by {
                if has_slot(before, k) {
                    assert(after[slot_of(before, k)].id == k);
                }
                if k == id {
                    assert(after[after.len() - 1].id == k);
                }
            }
            assert(final(self)@.queues =~= old(self)@.subscribe().queues);
        }
        Some(Subscription { id })
    }

    /// Deliver `frame` to every live subscription and return how many there
    /// are. A queue that is full loses its oldest frame to make room.
    pub fn publish(&mut self, frame: &[u8]) -> (reached: usize)
        requires
            old(self).wf(),
        ensures
            final(self).wf(),
            final(self)@ == old(self)@.publish(frame@),
            reached == old(self)@.queues.dom().len(),
    {
        let ghost before = self.slots@;
        let count = self.slots.len();
        let mut i: usize = 0;
        while i < count
            invariant
                i <= count,
                count == before.len(),
                self.slots.len() == count,
                self.capacity == old(self).capacity,
                self.room == old(self).room,
                self.next_id == old(self).next_id,
                old(self).wf(),
                before == old(self).slots@,
                forall|j: int| 0 <= j < count ==> (#[trigger] self.slots[j]).id == before[j].id,
                forall|j: int|
                    0 <= j < count ==> sound(#[trigger] self.slots[j], self.room as nat),
                forall|j: int|
                    0 <= j < i ==> waiting((#[trigger] self.slots[j]).line) == enqueue(
                        waiting(before[j].line),
                        frame@,
                        self.room as nat,
                    ),
                forall|j: int| i <= j < count ==> (#[trigger] self.slots[j]).line == before[j].line,
            decreases count - i,
        {
            let copy = slice_to_vec(frame);
            let slot = &mut self.slots[i];
            line_send(&mut slot.line, copy);
            i += 1;
        }
        proof {
            let after = self.slots@;
            lemma_domain_size(before);
            assert forall|k: u64| has_slot(after, k) <==> has_slot(before, k) by {
                if has_slot(before, k) {
                    assert(after[slot_of(before, k)].id == k);
                }
            }
            assert(final(self)@.queues =~= old(self)@.publish(frame@).queues);
        }
        count
    }

    /// Take the oldest frame waiting for `subscription`. Returns `None`, and
    /// changes nothing, when nothing waits or the subscription is not live.
    pub fn poll(&mut self, subscription: Subscription) -> (frame: Option<Vec<u8>>)
        requires
            old(self).wf(),
        ensures
            final(self).wf(),
            final(self)@ == old(self)@.poll(subscription.id),
            match frame {
                Some(f) => old(self)@.next_frame(subscription.id) == Some(f@),
                None => old(self)@.next_frame(subscription.id) is None,
            },
    {
        let ghost before = self.slots@;
        let id = subscription.id;
        match self.find(id) {
            None => None,
            Some(i) => {
                let slot = &mut self.slots[i];
                let frame = match line_take(&mut slot.line) {
                    Taken::Frame(frame) => Some(frame),
                    Taken::Lagged(_) => match line_take(&mut slot.line) {
                        Taken::Frame(frame) => Some(frame),
                        _ => None,
                    },
                    _ => None,
                };
                proof {
                    let after = self.slots@;
                    assert forall|k: u64| has_slot(after, k) <==> has_slot(before, k) by {
                        if has_slot(before, k) {
                            assert(after[slot_of(before, k)].id == k);
                        }
                    }
                    assert(final(self)@.queues =~= old(self)@.poll(id).queues);
                }
                frame
            },
        }
    }

    /// Drop `subscription` and the frames waiting for it. Returns whether it
    /// was live; the queues of the other subscriptions are untouched.
    pub fn unsubscribe(&mut self, subscription: Subscription) -> (was_live: bool)
        requires
            old(self).wf(),
        ensures
            final(self).wf(),
            final(self)@ == old(self)@.unsubscribe(subscription.id),
            was_live == old(self)@.is_live(subscription.id),
    {
        let ghost before = self.slots@;
        let id = subscription.id;
        match self.find(id) {
            None => {
                assert(final(self)@.queues =~= old(self)@.unsubscribe(id).queues);
                false
            },
            Some(i) => {
                let _ = self.slots.remove(i);
                proof {
                    let after = self.slots@;
                    assert forall|k: u64| has_slot(after, k) <==> (k != id && has_slot(
                        before,
                        k,
                    )) by {
                        if has_slot(after, k) {
                            let j = slot_of(after, k);
                            assert(before[if j < i { j } else { j + 1 }].id == k);
                        }
                        if k != id && has_slot(before, k) {
                            let j = slot_of(before, k);
                            let dst = if j < i { j } else { j - 1 };
                            assert(after[dst].id == k);
                        }
                    }
                    assert(final(self)@.queues =~= old(self)@.unsubscribe(id).queues);
                }
                true
            },
        }
    }
}

} // verus!
