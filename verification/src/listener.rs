//! The frame demultiplexer: what the background listener decides.
//!
//! The connection owns the read side of the stream. After each read it hands
//! the outcome to [`Listener::on_event`], which cuts the bytes into frames,
//! tells each frame apart, stores the responses in the registry and hands the
//! notifications back. The connection then does what the returned action
//! says.

use crate::command::{frame_of, Frame, FrameView, NotificationResult, NotificationView};
use crate::error::DeviceError;
use crate::framing::{frame_views, frames_of, rest_of, Deframer};
use crate::json::parsed_json;
use crate::registry::{Responses, ResponsesView};
use vstd::prelude::*;

verus! {

/// Where the listener stands.
#[derive(Clone, Copy, PartialEq, Eq, Structural, Debug)]
pub enum ListenerState {
    /// The listener reads from the stream.
    Reading,
    /// The peer has closed the stream. The listener has ended.
    Closed,
    /// A read has failed. The listener has ended.
    Failed,
}

/// What a read on the stream came to.
#[derive(PartialEq, Eq, Debug)]
pub enum ReadEvent {
    /// The read brought these bytes, at least one.
    Data(Vec<u8>),
    /// The read brought no byte: the peer has closed the stream.
    EndOfStream,
    /// Nothing is there to read at the moment.
    WouldBlock,
    /// The read failed in another way.
    Failed,
}

/// What the connection does after an event.
#[derive(Clone, Copy, PartialEq, Eq, Structural, Debug)]
pub enum ListenerAction {
    /// Read again.
    Read,
    /// Pause briefly, then read again.
    Pause,
    /// End the listener task.
    Stop,
}

/// What one event brought.
#[derive(PartialEq, Eq, Debug)]
pub struct Delivery {
    /// What the connection does next.
    pub action: ListenerAction,
    /// How many responses were stored. Where it is not zero, or the action
    /// is to stop, the waiting calls are to be woken.
    pub stored: usize,
    /// The notifications, in order of arrival, for the notification sink.
    pub notifications: Vec<NotificationResult>,
    /// How many frames were neither, and were left out.
    pub discarded: usize,
}

/// How long the connection pauses, in milliseconds, when nothing is there
/// to read.
pub const PAUSE: u64 = 100;

/// How many bytes the connection asks for in one read.
pub const READ_SIZE: usize = 8192;

impl Delivery {
    /// Whether the calls that wait are to be woken: something was stored for
    /// them to find, or the listener has ended.
    pub fn wakes(&self) -> (wakes: bool)
        ensures
            wakes == (self.stored > 0 || self.action == ListenerAction::Stop),
    {
        self.stored > 0 || self.action == ListenerAction::Stop
    }
}

/// What a list of notifications holds.
pub open spec fn notification_views(notifications: Seq<NotificationResult>) -> Seq<
    NotificationView,
> {
    Seq::new(notifications.len(), |i: int| notifications[i]@)
}

/// What each of the frames is, once parsed and told apart.
pub open spec fn classified(frames: Seq<Seq<u8>>) -> Seq<FrameView> {
    Seq::new(frames.len(), |i: int| frame_of(parsed_json(frames[i])))
}

/// The registry after one frame that arrived at `now`: a response is stored,
/// anything else leaves the registry as it is.
pub open spec fn routed_one(registry: ResponsesView, frame: FrameView, now: u64) -> ResponsesView {
    match frame {
        FrameView::Response(response) => registry.added(response, now),
        _ => registry,
    }
}

/// The registry after the frames, in order.
pub open spec fn routed(registry: ResponsesView, frames: Seq<FrameView>, now: u64) -> ResponsesView
    decreases frames.len(),
{
    if frames.len() == 0 {
        registry
    } else {
        routed_one(routed(registry, frames.drop_last(), now), frames.last(), now)
    }
}

/// The notifications among the frames, in order.
pub open spec fn forwarded(frames: Seq<FrameView>) -> Seq<NotificationView>
    decreases frames.len(),
{
    if frames.len() == 0 {
        seq![]
    } else {
        match frames.last() {
            FrameView::Notification(notification) => forwarded(frames.drop_last()).push(
                notification,
            ),
            _ => forwarded(frames.drop_last()),
        }
    }
}

/// How many of the frames are responses.
pub open spec fn response_count(frames: Seq<FrameView>) -> nat
    decreases frames.len(),
{
    if frames.len() == 0 {
        0
    } else if frames.last() is Response {
        response_count(frames.drop_last()) + 1
    } else {
        response_count(frames.drop_last())
    }
}

/// How many of the frames are malformed.
pub open spec fn malformed_count(frames: Seq<FrameView>) -> nat
    decreases frames.len(),
{
    if frames.len() == 0 {
        0
    } else if frames.last() is Malformed {
        malformed_count(frames.drop_last()) + 1
    } else {
        malformed_count(frames.drop_last())
    }
}

/// What the background listener holds between two reads.
pub struct Listener {
    state: ListenerState,
    deframer: Deframer,
}

impl Listener {
    /// Where the listener stands.
    pub closed spec fn state(&self) -> ListenerState {
        self.state
    }

    /// The bytes that were read and wait for the rest of their frame.
    pub closed spec fn pending(&self) -> Seq<u8> {
        self.deframer@
    }

    /// A listener that reads, with nothing buffered.
    pub fn new() -> (listener: Listener)
        ensures
            listener.state() == ListenerState::Reading,
            listener.pending() == Seq::<u8>::empty(),
    {
        Listener { state: ListenerState::Reading, deframer: Deframer::new() }
    }

    /// Where the listener stands.
    pub fn current_state(&self) -> (state: ListenerState)
        ensures
            state == self.state(),
    {
        self.state
    }

    /// Ends the listener from outside: a listener that reads is closed, one
    /// that has ended stays as it is.
    pub fn stop(&mut self)
        ensures
            final(self).state() == match old(self).state() {
                ListenerState::Reading => ListenerState::Closed,
                ended => ended,
            },
            final(self).pending() == old(self).pending(),
    {
        match self.state {
            ListenerState::Reading => {
                self.state = ListenerState::Closed;
            },
            _ => {},
        }
    }

    /// Stores the response of a frame that arrived at `now`, or hands its
    /// notification on, or counts it as left out.
    pub fn route(frame: Frame, registry: &mut Responses, now: u64, delivery: &mut Delivery)
        requires
            old(delivery).stored + old(delivery).discarded < usize::MAX,
        ensures
            final(registry)@ == routed_one(old(registry)@, frame@, now),
            final(delivery).action == old(delivery).action,
            final(delivery).stored == old(delivery).stored + if frame is Response {
                1int
            } else {
                0int
            },
            final(delivery).discarded == old(delivery).discarded + if frame is Malformed {
                1int
            } else {
                0int
            },
            notification_views(final(delivery).notifications@) == match frame@ {
                FrameView::Notification(notification) => notification_views(
                    old(delivery).notifications@,
                ).push(notification),
                _ => notification_views(old(delivery).notifications@),
            },
    {
        match frame {
            Frame::Response(response) => {
                registry.add(response, now);
                delivery.stored = delivery.stored + 1;
            },
            Frame::Notification(notification) => {
                delivery.notifications.push(notification);
                assert(notification_views(delivery.notifications@) =~= notification_views(
                    old(delivery).notifications@,
                ).push(notification@));
            },
            Frame::Malformed => {
                delivery.discarded = delivery.discarded + 1;
            },
        }
    }

    /// Takes in the outcome of one read at the time `now`.
    ///
    /// While the listener reads: bytes are cut into frames, with what was
    /// left over from earlier reads in front; each whole frame is stored,
    /// handed on or left out; what is left over waits. Before that, the
    /// registry drops what is out of time. The end of the stream and a
    /// failed read close the registry and end the listener. Once the
    /// listener has ended, events change nothing.
    pub fn on_event(&mut self, event: ReadEvent, registry: &mut Responses, now: u64) -> (delivery:
        Delivery)
        ensures
            old(self).state() != ListenerState::Reading ==> {
                &&& final(self).state() == old(self).state()
                &&& final(self).pending() == old(self).pending()
                &&& final(registry)@ == old(registry)@
                &&& delivery.action == ListenerAction::Stop
                &&& delivery.stored == 0
                &&& delivery.discarded == 0
                &&& delivery.notifications@.len() == 0
            },
            old(self).state() == ListenerState::Reading ==> match event {
                ReadEvent::Data(bytes) => {
                    let frames = classified(frames_of(old(self).pending() + bytes@));
                    &&& final(self).state() == ListenerState::Reading
                    &&& final(self).pending() == rest_of(old(self).pending() + bytes@)
                    &&& final(registry)@ == routed(old(registry)@.evicted(now), frames, now)
                    &&& delivery.action == ListenerAction::Read
                    &&& delivery.stored == response_count(frames)
                    &&& delivery.discarded == malformed_count(frames)
                    &&& notification_views(delivery.notifications@) == forwarded(frames)
                },
                ReadEvent::EndOfStream => {
                    &&& final(self).state() == ListenerState::Closed
                    &&& final(self).pending() == old(self).pending()
                    &&& final(registry)@ == old(registry)@.closed_with(
                        DeviceError::ConnectionClosed,
                    )
                    &&& delivery.action == ListenerAction::Stop
                    &&& delivery.stored == 0
                    &&& delivery.discarded == 0
                    &&& delivery.notifications@.len() == 0
                },
                ReadEvent::WouldBlock => {
                    &&& final(self).state() == ListenerState::Reading
                    &&& final(self).pending() == old(self).pending()
                    &&& final(registry)@ == old(registry)@.evicted(now)
                    &&& delivery.action == ListenerAction::Pause
                    &&& delivery.stored == 0
                    &&& delivery.discarded == 0
                    &&& delivery.notifications@.len() == 0
                },
                ReadEvent::Failed => {
                    &&& final(self).state() == ListenerState::Failed
                    &&& final(self).pending() == old(self).pending()
                    &&& final(registry)@ == old(registry)@.closed_with(DeviceError::IoFailure)
                    &&& delivery.action == ListenerAction::Stop
                    &&& delivery.stored == 0
                    &&& delivery.discarded == 0
                    &&& delivery.notifications@.len() == 0
                },
            },
    {
        let mut delivery = Delivery {
            action: ListenerAction::Stop,
            stored: 0,
            notifications: Vec::new(),
            discarded: 0,
        };
        match self.state {
            ListenerState::Reading => {},
            _ => {
                return delivery;
            },
        }
        match event {
            ReadEvent::Data(bytes) => {
                registry.evict(now);
                let frames = self.deframer.feed(bytes.as_slice());
                let ghost all = classified(frame_views(frames@));
                delivery.action = ListenerAction::Read;
                assert(notification_views(delivery.notifications@) =~= forwarded(all.take(0)));
                let mut i: usize = 0;
                while i < frames.len()
                    invariant
                        i <= frames.len(),
                        all == classified(frame_views(frames@)),
                        registry@ == routed(old(registry)@.evicted(now), all.take(i as int), now),
                        delivery.action == ListenerAction::Read,
                        delivery.stored == response_count(all.take(i as int)),
                        delivery.discarded == malformed_count(all.take(i as int)),
                        delivery.stored + delivery.discarded <= i,
                        notification_views(delivery.notifications@) == forwarded(
                            all.take(i as int),
                        ),
                    decreases frames.len() - i,
                {
                    let frame = Frame::of_bytes(frames[i].as_slice());
                    proof {
                        let upto = all.take(i as int + 1);
                        assert(upto.drop_last() == all.take(i as int));
                        assert(upto.last() == frame@);
                    }
                    Listener::route(frame, registry, now, &mut delivery);
                    i += 1;
                }
                assert(all.take(i as int) == all);
            },
            ReadEvent::EndOfStream => {
                self.state = ListenerState::Closed;
                registry.close(DeviceError::ConnectionClosed);
            },
            ReadEvent::WouldBlock => {
                registry.evict(now);
                delivery.action = ListenerAction::Pause;
            },
            ReadEvent::Failed => {
                self.state = ListenerState::Failed;
                registry.close(DeviceError::IoFailure);
            },
        }
        delivery
    }
}

/// Frames are taken one after the other: the registry after two runs of
/// frames is the registry after the second run, begun where the first
/// ended, and the notifications follow each other.
pub proof fn lemma_routed_in_order(
    registry: ResponsesView,
    first: Seq<FrameView>,
    second: Seq<FrameView>,
    now: u64,
)
    ensures
        routed(registry, first + second, now) == routed(
            routed(registry, first, now),
            second,
            now,
        ),
        forwarded(first + second) == forwarded(first) + forwarded(second),
        response_count(first + second) == response_count(first) + response_count(second),
        malformed_count(first + second) == malformed_count(first) + malformed_count(second),
    decreases second.len(),
{
    if second.len() == 0 {
        assert(first + second == first);
        assert(forwarded(first) + forwarded(second) == forwarded(first));
    } else {
        lemma_routed_in_order(registry, first, second.drop_last(), now);
        assert((first + second).drop_last() == first + second.drop_last());
        assert((first + second).last() == second.last());
        match second.last() {
            FrameView::Notification(notification) => {
                assert(forwarded(first) + forwarded(second.drop_last()).push(notification) == (
                forwarded(first) + forwarded(second.drop_last())).push(notification));
            },
            _ => {},
        }
    }
}

/// However the stream is cut into reads, the same frames come out in the
/// same order: what two reads store and hand on is what one read of all the
/// bytes would.
pub proof fn lemma_reads_can_be_split(
    registry: ResponsesView,
    first: Seq<u8>,
    second: Seq<u8>,
    now: u64,
)
    ensures
        routed(
            routed(registry, classified(frames_of(first)), now),
            classified(frames_of(rest_of(first) + second)),
            now,
        ) == routed(registry, classified(frames_of(first + second)), now),
        forwarded(classified(frames_of(first))) + forwarded(
            classified(frames_of(rest_of(first) + second)),
        ) == forwarded(classified(frames_of(first + second))),
        rest_of(rest_of(first) + second) == rest_of(first + second),
{
    crate::framing::lemma_frames_resume(first, second);
    let early = frames_of(first);
    let late = frames_of(rest_of(first) + second);
    assert(classified(early + late) =~= classified(early) + classified(late));
    lemma_routed_in_order(registry, classified(early), classified(late), now);
}

/// A malformed frame among other frames changes nothing: the registry and
/// the notifications are what they are without it.
pub proof fn lemma_malformed_frame_is_skipped(
    registry: ResponsesView,
    before: Seq<FrameView>,
    after: Seq<FrameView>,
    now: u64,
)
    ensures
        routed(registry, before + seq![FrameView::Malformed] + after, now) == routed(
            registry,
            before + after,
            now,
        ),
        forwarded(before + seq![FrameView::Malformed] + after) == forwarded(before + after),
        response_count(before + seq![FrameView::Malformed] + after) == response_count(
            before + after,
        ),
{
    let bad = seq![FrameView::Malformed];
    reveal_with_fuel(routed, 2);
    reveal_with_fuel(forwarded, 2);
    reveal_with_fuel(response_count, 2);
    assert(bad.drop_last() == Seq::<FrameView>::empty());
    assert(routed(routed(registry, before, now), bad, now) == routed(registry, before, now));
    assert(forwarded(bad) == Seq::<NotificationView>::empty());
    assert(response_count(bad) == 0);
    lemma_routed_in_order(registry, before, bad, now);
    lemma_routed_in_order(registry, before + bad, after, now);
    lemma_routed_in_order(registry, before, after, now);
    assert(forwarded(before) + forwarded(bad) == forwarded(before));
}

/// A malformed frame between two frames on the stream does no harm: the
/// bytes of the three frames, each with its delimiter, bring what the two
/// outer frames bring alone, and nothing is left over.
pub proof fn lemma_malformed_between_frames(
    registry: ResponsesView,
    first: Seq<u8>,
    bad: Seq<u8>,
    last: Seq<u8>,
    now: u64,
)
    requires
        !crate::framing::has_frame(first),
        !crate::framing::has_frame(bad),
        !crate::framing::has_frame(last),
        frame_of(parsed_json(bad)) is Malformed,
    ensures
        routed(
            registry,
            classified(
                frames_of(
                    first + crate::framing::delimiter() + (bad + crate::framing::delimiter() + (last
                        + crate::framing::delimiter())),
                ),
            ),
            now,
        ) == routed(
            registry,
            classified(
                frames_of(
                    first + crate::framing::delimiter() + (last + crate::framing::delimiter()),
                ),
            ),
            now,
        ),
        rest_of(
            first + crate::framing::delimiter() + (bad + crate::framing::delimiter() + (last
                + crate::framing::delimiter())),
        ) == Seq::<u8>::empty(),
{
    let end = crate::framing::delimiter();
    let nothing = Seq::<u8>::empty();
    assert(!crate::framing::has_frame(nothing));
    assert(last + end == last + end + nothing);
    crate::framing::lemma_frames_of_sealed(last, nothing);
    crate::framing::lemma_frames_of_sealed(bad, last + end);
    crate::framing::lemma_frames_of_sealed(first, bad + end + (last + end));
    crate::framing::lemma_frames_of_sealed(first, last + end);
    let with_bad = classified(frames_of(first + end + (bad + end + (last + end))));
    let without = classified(frames_of(first + end + (last + end)));
    let head = seq![frame_of(parsed_json(first))];
    let tail = seq![frame_of(parsed_json(last))];
    assert(with_bad =~= head + seq![FrameView::Malformed] + tail);
    assert(without =~= head + tail);
    lemma_malformed_frame_is_skipped(registry, head, tail, now);
}

} // verus!
