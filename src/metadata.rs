//! Choosing the frame dimensions from what a metadata probe reports of the
//! streams of a video.
use crate::frame::{PlaybackError, StreamInfo};
use vstd::prelude::*;

verus! {

/// One stream as reported by the probe; streams other than video have no
/// width or height.
#[derive(Debug, Clone, Copy, PartialEq, Eq, Structural)]
pub struct ProbeStream {
    pub width: Option<i64>,
    pub height: Option<i64>,
}

/// The stream reports both a width and a height.
pub open spec fn has_dims(s: ProbeStream) -> bool {
    s.width is Some && s.height is Some
}

/// `i` is the first stream that reports both dimensions.
pub open spec fn is_first_video(streams: Seq<ProbeStream>, i: int) -> bool {
    &&& 0 <= i < streams.len()
    &&& has_dims(streams[i])
    &&& forall|j: int| 0 <= j < i ==> !has_dims(#[trigger] streams[j])
}

/// Both dimensions are positive, fit in `u32`, and a frame of them fits in
/// memory.
pub open spec fn usable_dims(width: i64, height: i64) -> bool {
    &&& 0 < width <= u32::MAX
    &&& 0 < height <= u32::MAX
    &&& width * height * 3 <= usize::MAX
}

/// The dimensions of the first video stream, or `MetadataUnavailable` when
/// there is no such stream or its dimensions cannot size a frame.
pub fn resolve_stream_info(streams: &Vec<ProbeStream>) -> (r: Result<StreamInfo, PlaybackError>)
    ensures
        r matches Ok(info) ==> info.wf() && exists|i: int|
            is_first_video(streams@, i) && usable_dims(
                streams@[i].width->Some_0,
                streams@[i].height->Some_0,
            ) && info.width == streams@[i].width->Some_0 && info.height
                == streams@[i].height->Some_0,
        r is Err ==> (r matches Err(PlaybackError::MetadataUnavailable) && forall|i: int|
            is_first_video(streams@, i) ==> !usable_dims(
                streams@[i].width->Some_0,
                streams@[i].height->Some_0,
            )),
{
    let mut i: usize = 0;
    while i < streams.len()
        invariant
            i <= streams@.len(),
            forall|j: int| 0 <= j < i ==> !has_dims(#[trigger] streams@[j]),
        decreases streams@.len() - i,
    {
        let s = streams[i];
        match (s.width, s.height) {
            (Some(w), Some(h)) => {
                assert(is_first_video(streams@, i as int));
                if w <= 0 || w > u32::MAX as i64 || h <= 0 || h > u32::MAX as i64 {
                    return Err(PlaybackError::MetadataUnavailable);
                }
                return match StreamInfo::new(w as u32, h as u32) {
                    Some(info) => Ok(info),
                    None => Err(PlaybackError::MetadataUnavailable),
                };
            },
            _ => {},
        }
        i = i + 1;
    }
    Err(PlaybackError::MetadataUnavailable)
}

} // verus!
