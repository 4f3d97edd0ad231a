//! Splitting a byte stream into frames of a fixed size.
//!
//! The stream has no delimiters, headers or checksums: frame boundaries exist
//! only by arithmetic. Dimensions that do not match the stream therefore shift
//! every later frame instead of raising an error.
use crate::frame::{PlaybackError, RawFrame, StreamInfo};
use vstd::prelude::*;

verus! {

/// What one read of the stream yields.
pub enum Step {
    /// The bytes of a whole frame.
    Frame(Seq<u8>),
    /// Fewer bytes than a frame are buffered and the stream goes on.
    NeedMore,
    /// The stream ended on a frame boundary.
    EndOfStream,
    /// The stream ended inside a frame.
    Truncated,
}

/// The step taken on `pending` bytes, `ended` telling whether the stream has
/// ended, for frames of `frame_len` bytes.
pub open spec fn read_step(pending: Seq<u8>, ended: bool, frame_len: nat) -> Step {
    if pending.len() >= frame_len {
        Step::Frame(pending.take(frame_len as int))
    } else if !ended {
        Step::NeedMore
    } else if pending.len() == 0 {
        Step::EndOfStream
    } else {
        Step::Truncated
    }
}

/// The bytes still buffered after that step.
pub open spec fn rest_after(pending: Seq<u8>, frame_len: nat) -> Seq<u8> {
    if pending.len() >= frame_len {
        pending.skip(frame_len as int)
    } else {
        pending
    }
}

/// The steps taken, one read after another, on a whole stream that has
/// ended, up to the first that is not a frame.
pub open spec fn drain(stream: Seq<u8>, frame_len: nat) -> Seq<Step>
    decreases stream.len(),
{
    if frame_len > 0 && stream.len() >= frame_len {
        seq![read_step(stream, true, frame_len)] + drain(stream.skip(frame_len as int), frame_len)
    } else {
        seq![read_step(stream, true, frame_len)]
    }
}

/// A stream of exactly `n` whole frames, read after it has ended, yields
/// those `n` frames in order and then a clean end.
pub proof fn lemma_whole_frames_then_end(stream: Seq<u8>, frame_len: nat, n: nat)
    requires
        frame_len > 0,
        stream.len() == n * frame_len,
    ensures
        drain(stream, frame_len).len() == n + 1,
        forall|i: int|
            0 <= i < n ==> #[trigger] drain(stream, frame_len)[i] == Step::Frame(
                stream.subrange(i * frame_len, (i + 1) * frame_len),
            ),
        drain(stream, frame_len)[n as int] == Step::EndOfStream,
    decreases n,
{
    if n > 0 {
        let m = (n - 1) as nat;
        let rest = stream.skip(frame_len as int);
        assert(stream.len() == m * frame_len + frame_len) by (nonlinear_arith)
            requires stream.len() == n * frame_len, m == n - 1;
        lemma_whole_frames_then_end(rest, frame_len, m);
        let d = drain(stream, frame_len);
        let dr = drain(rest, frame_len);
        assert(d == seq![read_step(stream, true, frame_len)] + dr);
        assert forall|i: int| 0 <= i < n implies #[trigger] d[i] == Step::Frame(
            stream.subrange(i * frame_len, (i + 1) * frame_len),
        ) by {
            if i == 0 {
                assert(i * frame_len == 0 && (i + 1) * frame_len == frame_len) by (nonlinear_arith)
                    requires i == 0;
                assert(stream.take(frame_len as int) =~= stream.subrange(0, frame_len as int));
            } else {
                let j = i - 1;
                assert(d[i] == dr[j]);
                assert(i * frame_len == j * frame_len + frame_len && (i + 1) * frame_len == (j + 1)
                    * frame_len + frame_len) by (nonlinear_arith)
                    requires j == i - 1;
                assert((j + 1) * frame_len <= m * frame_len) by (nonlinear_arith)
                    requires 0 <= j < m, frame_len > 0;
                assert(0 <= j * frame_len) by (nonlinear_arith)
                    requires 0 <= j, frame_len > 0;
                assert(rest.subrange(j * frame_len, (j + 1) * frame_len) =~= stream.subrange(
                    i * frame_len,
                    (i + 1) * frame_len,
                ));
            }
        }
        assert(d[n as int] == dr[m as int]);
    } else {
        assert(stream.len() == 0) by (nonlinear_arith)
            requires stream.len() == n * frame_len, n == 0;
        assert(drain(stream, frame_len) == seq![Step::EndOfStream]);
    }
}

/// A stream of one whole frame and five more bytes, shorter than a frame,
/// yields that frame and then a truncated one.
pub proof fn lemma_trailing_bytes_truncate(stream: Seq<u8>, frame_len: nat)
    requires
        frame_len > 5,
        stream.len() == frame_len + 5,
    ensures
        drain(stream, frame_len) == seq![
            Step::Frame(stream.take(frame_len as int)),
            Step::Truncated,
        ],
{
    let rest = stream.skip(frame_len as int);
    assert(drain(rest, frame_len) == seq![Step::Truncated]);
    assert(drain(stream, frame_len) =~= seq![
        Step::Frame(stream.take(frame_len as int)),
        Step::Truncated,
    ]);
}

/// What a read returned, as a step.
pub open spec fn step_of(r: &Result<FrameRead, PlaybackError>) -> Step {
    match r {
        Ok(FrameRead::Frame(f)) => Step::Frame(f@.bytes),
        Ok(FrameRead::NeedMore) => Step::NeedMore,
        Ok(FrameRead::EndOfStream) => Step::EndOfStream,
        Err(_) => Step::Truncated,
    }
}

/// The result of asking for the next frame.
pub enum FrameRead {
    Frame(RawFrame),
    NeedMore,
    EndOfStream,
}

/// Reassembles fixed-size frames from bytes handed in as they arrive.
pub struct FrameDemuxer {
    info: StreamInfo,
    frame_len: usize,
    pending: Vec<u8>,
    ended: bool,
}

/// What a demuxer holds: the frame dimensions, the bytes not yet handed out
/// as frames, and whether the stream has ended.
pub struct DemuxerView {
    pub info: StreamInfo,
    pub pending: Seq<u8>,
    pub ended: bool,
}

impl View for FrameDemuxer {
    type V = DemuxerView;

    closed spec fn view(&self) -> DemuxerView {
        DemuxerView { info: self.info, pending: self.pending@, ended: self.ended }
    }
}

impl FrameDemuxer {
    pub closed spec fn wf(&self) -> bool {
        &&& self.info.wf()
        &&& self.frame_len == self.info.frame_len()
    }

    /// An empty demuxer for frames of the given dimensions.
    pub fn new(info: StreamInfo) -> (d: FrameDemuxer)
        requires
            info.wf(),
        ensures
            d.wf(),
            d@ == (DemuxerView { info, pending: Seq::empty(), ended: false }),
    {
        FrameDemuxer { info, frame_len: info.frame_byte_size(), pending: Vec::new(), ended: false }
    }

    /// Appends bytes read from the stream.
    pub fn push_bytes(&mut self, chunk: &[u8])
        requires
            old(self).wf(),
        ensures
            final(self).wf(),
            final(self)@ == (DemuxerView { pending: old(self)@.pending + chunk@, ..old(self)@ }),
    {
        let ghost start = self.pending@;
        let mut i: usize = 0;
        while i < chunk.len()
            invariant
                self.wf(),
                self@ == (DemuxerView { pending: self@.pending, ..old(self)@ }),
                i <= chunk@.len(),
                self.pending@ == start + chunk@.take(i as int),
            decreases chunk@.len() - i,
        {
            self.pending.push(chunk[i]);
            i = i + 1;
            assert(self.pending@ =~= start + chunk@.take(i as int));
        }
        assert(chunk@.take(i as int) =~= chunk@);
    }

    /// Records that the stream has ended.
    pub fn finish(&mut self)
        requires
            old(self).wf(),
        ensures
            final(self).wf(),
            final(self)@ == (DemuxerView { ended: true, ..old(self)@ }),
    {
        self.ended = true;
    }

    /// Hands out the next whole frame if one is buffered; otherwise asks for
    /// more bytes, or reports the end of the stream, clean or inside a frame.
    pub fn next_frame(&mut self) -> (r: Result<FrameRead, PlaybackError>)
        requires
            old(self).wf(),
        ensures
            final(self).wf(),
            step_of(&r) == read_step(old(self)@.pending, old(self)@.ended, old(self)@.info.frame_len()),
            final(self)@ == (DemuxerView {
                pending: rest_after(old(self)@.pending, old(self)@.info.frame_len()),
                ..old(self)@
            }),
            r is Err ==> r matches Err(PlaybackError::TruncatedFrame),
            r matches Ok(FrameRead::Frame(f)) ==> f.wf() && f@.width == old(self)@.info.width
                && f@.height == old(self)@.info.height,
    {
        let frame_len = self.frame_len;
        if self.pending.len() >= frame_len {
            let mut bytes = self.pending.split_off(frame_len);
            std::mem::swap(&mut self.pending, &mut bytes);
            proof {
                assert(bytes@ =~= old(self)@.pending.take(frame_len as int));
                assert(self.pending@ =~= old(self)@.pending.skip(frame_len as int));
            }
            match RawFrame::from_raw(self.info.width, self.info.height, bytes) {
                Some(f) => Ok(FrameRead::Frame(f)),
                None => Err(PlaybackError::TruncatedFrame),
            }
        } else if !self.ended {
            Ok(FrameRead::NeedMore)
        } else if self.pending.len() == 0 {
            Ok(FrameRead::EndOfStream)
        } else {
            Err(PlaybackError::TruncatedFrame)
        }
    }
}

} // verus!
