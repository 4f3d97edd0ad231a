//! The playback loop as a state machine: the caller performs each action
//! (reading the stream, showing a frame) and reports back, the machine
//! decides what comes next.
use crate::demux::{read_step, rest_after, DemuxerView, FrameDemuxer, FrameRead, Step};
use crate::frame::{PlaybackError, StreamInfo};
use crate::glyph::ascii_art;
use crate::render::{degenerate, image_to_ascii, nearest_resized};
use vstd::prelude::*;

verus! {

/// Where playback stands.
#[derive(Debug, Clone, Copy, PartialEq, Eq, Structural)]
pub enum PlayState {
    /// Waiting for the next frame.
    Fetching,
    /// A frame is on screen; the caller waits, clears, and reports back.
    Displaying,
    /// The stream ended on a frame boundary.
    Finished,
    /// Playback stopped on an error.
    Aborted,
}

/// What the caller is to do next.
pub enum Action {
    /// Read more bytes of the stream and supply them, or report its end.
    ReadMore,
    /// Write this text to the terminal, wait, clear the screen, and report
    /// that the frame was shown.
    Show(String),
    /// Stop: the stream is over.
    Finish,
    /// Stop and report the error.
    Abort(PlaybackError),
}

/// The text shown for the frame `bytes` of a stream of `info`'s dimensions,
/// shrunk by `divisor`.
pub open spec fn shown_art(bytes: Seq<u8>, info: StreamInfo, divisor: nat) -> Seq<char> {
    let (w, h) = (info.width as nat / divisor, info.height as nat / divisor);
    ascii_art(nearest_resized(bytes, info.width as nat, info.height as nat, w, h), w, h)
}

pub struct Playback {
    demuxer: FrameDemuxer,
    divisor: u32,
    state: PlayState,
}

/// What a playback holds: its demuxer, the resolution divisor, and its state.
pub struct PlaybackView {
    pub demuxer: DemuxerView,
    pub divisor: nat,
    pub state: PlayState,
}

impl View for Playback {
    type V = PlaybackView;

    closed spec fn view(&self) -> PlaybackView {
        PlaybackView { demuxer: self.demuxer@, divisor: self.divisor as nat, state: self.state }
    }
}

impl Playback {
    pub closed spec fn wf(&self) -> bool {
        &&& self.demuxer.wf()
        &&& self.demuxer@.info.wf()
        &&& self.divisor > 0
        &&& !degenerate(
            self.demuxer@.info.width as nat,
            self.demuxer@.info.height as nat,
            self.divisor as nat,
        )
    }

    /// Playback of a stream of `info`'s dimensions, shrunk `divisor` times.
    /// Fails with `DegenerateResize`, before any frame is read, when the
    /// divisor leaves no pixel in one of the dimensions.
    pub fn new(info: StreamInfo, divisor: u32) -> (r: Result<Playback, PlaybackError>)
        requires
            info.wf(),
            divisor > 0,
        ensures
            degenerate(info.width as nat, info.height as nat, divisor as nat) ==> r matches Err(
                PlaybackError::DegenerateResize,
            ),
            !degenerate(info.width as nat, info.height as nat, divisor as nat) ==> (r matches Ok(p)
                && p.wf() && p@ == (PlaybackView {
                demuxer: DemuxerView { info, pending: Seq::empty(), ended: false },
                divisor: divisor as nat,
                state: PlayState::Fetching,
            })),
    {
        if info.width / divisor == 0 || info.height / divisor == 0 {
            return Err(PlaybackError::DegenerateResize);
        }
        Ok(Playback { demuxer: FrameDemuxer::new(info), divisor, state: PlayState::Fetching })
    }

    pub fn state(&self) -> (s: PlayState)
        ensures
            s == self@.state,
    {
        self.state
    }

    /// Hands over bytes read from the stream.
    pub fn supply(&mut self, chunk: &[u8])
        requires
            old(self).wf(),
        ensures
            final(self).wf(),
            final(self)@ == (PlaybackView {
                demuxer: DemuxerView {
                    pending: old(self)@.demuxer.pending + chunk@,
                    ..old(self)@.demuxer
                },
                ..old(self)@
            }),
    {
        self.demuxer.push_bytes(chunk);
    }

    /// Reports that the stream has ended.
    pub fn supply_end(&mut self)
        requires
            old(self).wf(),
        ensures
            final(self).wf(),
            final(self)@ == (PlaybackView {
                demuxer: DemuxerView { ended: true, ..old(self)@.demuxer },
                ..old(self)@
            }),
    {
        self.demuxer.finish();
    }

    /// Reports that reading the stream failed: playback stops with the
    /// failure's message.
    pub fn supply_failure(&mut self, message: String) -> (a: Action)
        requires
            old(self).wf(),
        ensures
            final(self).wf(),
            final(self)@ == (PlaybackView { state: PlayState::Aborted, ..old(self)@ }),
            a matches Action::Abort(PlaybackError::IoFailure(m)) && m == message,
    {
        self.state = PlayState::Aborted;
        Action::Abort(PlaybackError::IoFailure(message))
    }

    /// Reports that the frame on screen was shown and cleared.
    pub fn frame_shown(&mut self)
        requires
            old(self).wf(),
            old(self)@.state == PlayState::Displaying,
        ensures
            final(self).wf(),
            final(self)@ == (PlaybackView { state: PlayState::Fetching, ..old(self)@ }),
    {
        self.state = PlayState::Fetching;
    }

    /// Fetches the next frame and decides: render it for display, ask for
    /// more bytes, finish at a clean end, or abort on a truncated frame.
    pub fn poll(&mut self) -> (a: Action)
        requires
            old(self).wf(),
            old(self)@.state == PlayState::Fetching,
        ensures
            final(self).wf(),
            final(self)@.divisor == old(self)@.divisor,
            final(self)@.demuxer == (DemuxerView {
                pending: rest_after(
                    old(self)@.demuxer.pending,
                    old(self)@.demuxer.info.frame_len(),
                ),
                ..old(self)@.demuxer
            }),
            match read_step(
                old(self)@.demuxer.pending,
                old(self)@.demuxer.ended,
                old(self)@.demuxer.info.frame_len(),
            ) {
                Step::Frame(bytes) => final(self)@.state == PlayState::Displaying && (a matches Action::Show(
                    text,
                ) && text@ == shown_art(bytes, old(self)@.demuxer.info, old(self)@.divisor)),
                Step::NeedMore => final(self)@.state == PlayState::Fetching && a is ReadMore,
                Step::EndOfStream => final(self)@.state == PlayState::Finished && a is Finish,
                Step::Truncated => final(self)@.state == PlayState::Aborted && a matches Action::Abort(
                    PlaybackError::TruncatedFrame,
                ),
            },
    {
        match self.demuxer.next_frame() {
            Ok(FrameRead::Frame(frame)) => {
                match image_to_ascii(&frame, self.divisor) {
                    Ok(text) => {
                        self.state = PlayState::Displaying;
                        Action::Show(text)
                    },
                    Err(e) => {
                        self.state = PlayState::Aborted;
                        Action::Abort(e)
                    },
                }
            },
            Ok(FrameRead::NeedMore) => Action::ReadMore,
            Ok(FrameRead::EndOfStream) => {
                self.state = PlayState::Finished;
                Action::Finish
            },
            Err(e) => {
                self.state = PlayState::Aborted;
                Action::Abort(e)
            },
        }
    }
}

} // verus!
