//! Frames on the byte stream. Every message, in both directions, is followed
//! by a carriage return and a line feed. Bytes behind the last delimiter wait
//! for the next read.

use vstd::prelude::*;
use vstd::slice::{slice_subrange, slice_to_vec};

verus! {

/// The first byte of the delimiter: carriage return.
pub const CARRIAGE_RETURN: u8 = 13;

/// The second byte of the delimiter: line feed.
pub const LINE_FEED: u8 = 10;

/// The delimiter that ends every frame.
pub open spec fn delimiter() -> Seq<u8> {
    seq![CARRIAGE_RETURN, LINE_FEED]
}

/// Whether a delimiter starts at `at`.
pub open spec fn ends_frame_at(data: Seq<u8>, at: int) -> bool {
    0 <= at && at + 1 < data.len() && data[at] == CARRIAGE_RETURN && data[at + 1] == LINE_FEED
}

/// Whether the data holds a delimiter, and so at least one whole frame.
pub open spec fn has_frame(data: Seq<u8>) -> bool {
    exists|at: int| ends_frame_at(data, at)
}

/// Whether the first delimiter of the data starts at `at`.
pub open spec fn is_first_end(data: Seq<u8>, at: int) -> bool {
    ends_frame_at(data, at) && forall|before: int| 0 <= before < at ==> !ends_frame_at(data, before)
}

/// Where the first delimiter of the data starts.
pub open spec fn first_end(data: Seq<u8>) -> int {
    choose|at: int| is_first_end(data, at)
}

/// The whole frames in the data, in order, each without its delimiter.
pub open spec fn frames_of(data: Seq<u8>) -> Seq<Seq<u8>>
    decreases data.len(),
{
    if has_frame(data) {
        proof {
            lemma_first_end(data);
        }
        seq![data.take(first_end(data))] + frames_of(data.skip(first_end(data) + 2))
    } else {
        seq![]
    }
}

/// The bytes behind the last whole frame: the beginning of a frame that is
/// not complete yet.
pub open spec fn rest_of(data: Seq<u8>) -> Seq<u8>
    decreases data.len(),
{
    if has_frame(data) {
        proof {
            lemma_first_end(data);
        }
        rest_of(data.skip(first_end(data) + 2))
    } else {
        data
    }
}

/// The frames, each followed by the delimiter, one after the other.
pub open spec fn sealed(frames: Seq<Seq<u8>>) -> Seq<u8>
    decreases frames.len(),
{
    if frames.len() == 0 {
        seq![]
    } else {
        frames[0] + delimiter() + sealed(frames.skip(1))
    }
}

/// The byte strings that a list of frames holds.
pub open spec fn frame_views(frames: Seq<Vec<u8>>) -> Seq<Seq<u8>> {
    Seq::new(frames.len(), |i: int| frames[i]@)
}

/// Among the delimiters that start at or before a given one, one is the first.
proof fn lemma_least_end(data: Seq<u8>, bound: int)
    requires
        ends_frame_at(data, bound),
    ensures
        exists|at: int| is_first_end(data, at),
    decreases bound,
{
    if exists|before: int| 0 <= before < bound && ends_frame_at(data, before) {
        let before = choose|before: int| 0 <= before < bound && ends_frame_at(data, before);
        lemma_least_end(data, before);
    } else {
        assert(is_first_end(data, bound));
    }
}

/// Data that holds a delimiter has a first one.
pub proof fn lemma_first_end(data: Seq<u8>)
    requires
        has_frame(data),
    ensures
        is_first_end(data, first_end(data)),
{
    let some = choose|at: int| ends_frame_at(data, at);
    lemma_least_end(data, some);
}

/// Where a delimiter starts at `at` and none starts before, the data's first
/// frame ends there.
proof fn lemma_split_at(data: Seq<u8>, at: int)
    requires
        is_first_end(data, at),
    ensures
        has_frame(data),
        first_end(data) == at,
        frames_of(data) == seq![data.take(at)] + frames_of(data.skip(at + 2)),
        rest_of(data) == rest_of(data.skip(at + 2)),
{
    lemma_first_end(data);
}

/// Taking the frames out loses nothing: the frames with their delimiters,
/// followed by the rest, are the data. No frame holds a delimiter, and
/// neither does the rest.
pub proof fn lemma_frames_partition(data: Seq<u8>)
    ensures
        sealed(frames_of(data)) + rest_of(data) == data,
        !has_frame(rest_of(data)),
        forall|i: int| 0 <= i < frames_of(data).len() ==> !has_frame(#[trigger] frames_of(data)[i]),
    decreases data.len(),
{
    if has_frame(data) {
        lemma_first_end(data);
        let at = first_end(data);
        let tail = data.skip(at + 2);
        lemma_frames_partition(tail);
        let frames = frames_of(data);
        assert(frames[0] == data.take(at));
        assert(frames.skip(1) == frames_of(tail));
        assert(data.subrange(at, at + 2) == delimiter());
        assert(data == data.take(at) + data.subrange(at, at + 2) + tail);
        assert(sealed(frames) + rest_of(data) == data.take(at) + delimiter() + (sealed(
            frames_of(tail),
        ) + rest_of(tail)));
        assert(!has_frame(data.take(at))) by {
            if has_frame(data.take(at)) {
                let inner = choose|inner: int| ends_frame_at(data.take(at), inner);
                assert(ends_frame_at(data, inner));
            }
        }
        assert forall|i: int| 0 <= i < frames.len() implies !has_frame(#[trigger] frames[i]) by {
            if i > 0 {
                assert(frames[i] == frames_of(tail)[i - 1]);
            }
        }
    } else {
        assert(sealed(frames_of(data)) + rest_of(data) == data);
    }
}

/// Reading in two pieces gives what reading at once gives: the frames of the
/// first piece, then the frames of what it left over followed by the second
/// piece. A frame that is split between two reads is not lost.
pub proof fn lemma_frames_resume(first: Seq<u8>, second: Seq<u8>)
    ensures
        frames_of(first + second) == frames_of(first) + frames_of(rest_of(first) + second),
        rest_of(first + second) == rest_of(rest_of(first) + second),
    decreases first.len(),
{
    if has_frame(first) {
        lemma_first_end(first);
        let at = first_end(first);
        assert(is_first_end(first + second, at)) by {
            assert(ends_frame_at(first + second, at));
            assert forall|before: int| 0 <= before < at implies !ends_frame_at(
                first + second,
                before,
            ) by {
                assert(!ends_frame_at(first, before));
            }
        }
        lemma_split_at(first + second, at);
        assert((first + second).take(at) == first.take(at));
        assert((first + second).skip(at + 2) == first.skip(at + 2) + second);
        lemma_frames_resume(first.skip(at + 2), second);
        assert(frames_of(first + second) =~= frames_of(first) + frames_of(
            rest_of(first) + second,
        ));
    } else {
        assert(frames_of(first) + frames_of(rest_of(first) + second) =~= frames_of(
            first + second,
        ));
    }
}

/// A payload that holds no delimiter, once its delimiter stands behind it,
/// is the first frame of whatever follows.
pub proof fn lemma_frames_of_sealed(payload: Seq<u8>, following: Seq<u8>)
    requires
        !has_frame(payload),
    ensures
        frames_of(payload + delimiter() + following) == seq![payload] + frames_of(following),
        rest_of(payload + delimiter() + following) == rest_of(following),
{
    let data = payload + delimiter() + following;
    let at = payload.len() as int;
    assert(is_first_end(data, at)) by {
        assert(ends_frame_at(data, at));
        assert forall|before: int| 0 <= before < at implies !ends_frame_at(data, before) by {
            if ends_frame_at(data, before) {
                assert(ends_frame_at(payload, before));
            }
        }
    }
    lemma_split_at(data, at);
    assert(data.take(at) == payload);
    assert(data.skip(at + 2) == following);
}

/// The bytes of one frame on the wire: the payload, then the delimiter.
pub fn seal(payload: &[u8]) -> (frame: Vec<u8>)
    ensures
        frame@ == payload@ + delimiter(),
{
    let mut frame = slice_to_vec(payload);
    frame.push(CARRIAGE_RETURN);
    frame.push(LINE_FEED);
    assert(frame@ =~= payload@ + delimiter());
    frame
}

/// The read side's buffer: what was read and does not yet make up a whole
/// frame.
pub struct Deframer {
    buffer: Vec<u8>,
}

impl Deframer {
    /// The bytes that wait for the rest of their frame.
    pub closed spec fn view(&self) -> Seq<u8> {
        self.buffer@
    }

    /// A buffer with nothing in it.
    pub fn new() -> (deframer: Deframer)
        ensures
            deframer@ == Seq::<u8>::empty(),
    {
        Deframer { buffer: Vec::new() }
    }

    /// How many bytes wait for the rest of their frame.
    pub fn pending(&self) -> (count: usize)
        ensures
            count == self@.len(),
    {
        self.buffer.len()
    }

    /// Takes in what one read brought and hands out the frames that are now
    /// whole, in order and without their delimiters. What stands behind the
    /// last delimiter is kept for the next read.
    pub fn feed(&mut self, data: &[u8]) -> (frames: Vec<Vec<u8>>)
        ensures
            frame_views(frames@) == frames_of(old(self)@ + data@),
            final(self)@ == rest_of(old(self)@ + data@),
    {
        self.buffer.extend_from_slice(data);
        let ghost all = self.buffer@;
        assert(all =~= old(self)@ + data@);
        let mut frames: Vec<Vec<u8>> = Vec::new();
        let mut start: usize = 0;
        let mut i: usize = 0;
        assert(all.skip(0) == all);
        assert(frame_views(frames@) =~= Seq::<Seq<u8>>::empty());
        while i < self.buffer.len() && i + 1 < self.buffer.len()
            invariant
                self.buffer@ == all,
                start <= i <= all.len(),
                forall|at: int| start <= at < i ==> !ends_frame_at(all, at),
                frames_of(all) == frame_views(frames@) + frames_of(all.skip(start as int)),
                rest_of(all) == rest_of(all.skip(start as int)),
            decreases all.len() - i,
        {
            if self.buffer[i] == CARRIAGE_RETURN && self.buffer[i + 1] == LINE_FEED {
                let frame = slice_to_vec(slice_subrange(self.buffer.as_slice(), start, i));
                proof {
                    let tail = all.skip(start as int);
                    let at = i - start;
                    assert(is_first_end(tail, at)) by {
                        assert(ends_frame_at(tail, at));
                        assert forall|before: int| 0 <= before < at implies !ends_frame_at(
                            tail,
                            before,
                        ) by {
                            assert(!ends_frame_at(all, start + before));
                        }
                    }
                    lemma_split_at(tail, at);
                    assert(tail.take(at) == all.subrange(start as int, i as int));
                    assert(tail.skip(at + 2) == all.skip(i + 2));
                    assert(frame_views(frames@.push(frame)) =~= frame_views(frames@) + seq![
                        frame@,
                    ]);
                }
                frames.push(frame);
                i = i + 2;
                start = i;
            } else {
                i = i + 1;
            }
        }
        proof {
            let tail = all.skip(start as int);
            assert(!has_frame(tail)) by {
                if has_frame(tail) {
                    let at = choose|at: int| ends_frame_at(tail, at);
                    assert(ends_frame_at(all, start + at));
                }
            }
            assert(frames_of(all) =~= frame_views(frames@));
        }
        self.buffer = self.buffer.split_off(start);
        assert(self.buffer@ =~= all.skip(start as int));
        frames
    }
}

} // verus!
