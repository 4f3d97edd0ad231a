//! Rendering a frame: shrink it by the resolution divisor with
//! nearest-neighbour sampling, then lay the pixels out as glyphs.
use crate::frame::{PlaybackError, RawFrame};
use crate::glyph::{ascii_art, render_pixels};
use vstd::prelude::*;

verus! {

/// The RGB bytes of a `width` x `height` image resized to `new_width` x
/// `new_height` by nearest-neighbour sampling.
pub uninterp spec fn nearest_resized(
    bytes: Seq<u8>,
    width: nat,
    height: nat,
    new_width: nat,
    new_height: nat,
) -> Seq<u8>;

/// Relies on `image::imageops::resize` with `FilterType::Nearest`: it returns
/// an image of exactly the requested size, three bytes a pixel, and a plain
/// copy of the input when the requested size is the input's own.
#[verifier::external_body]
fn resize_nearest(bytes: &Vec<u8>, width: u32, height: u32, new_width: u32, new_height: u32) -> (r:
    Vec<u8>)
    requires
        width > 0,
        height > 0,
        0 < new_width <= width,
        0 < new_height <= height,
        bytes@.len() == width * height * 3,
    ensures
        r@ == nearest_resized(bytes@, width as nat, height as nat, new_width as nat, new_height as nat),
        r@.len() == new_width * new_height * 3,
        new_width == width && new_height == height ==> r@ == bytes@,
{
    let source = image::ImageBuffer::<image::Rgb<u8>, &[u8]>::from_raw(
        width,
        height,
        bytes.as_slice(),
    ).unwrap();
    image::imageops::resize(&source, new_width, new_height, image::imageops::FilterType::Nearest).into_raw()
}

/// The text of a frame shrunk by `divisor` in both dimensions.
pub open spec fn frame_art(f: RawFrame, divisor: nat) -> Seq<char> {
    let (w, h) = (f@.width / divisor, f@.height / divisor);
    ascii_art(nearest_resized(f@.bytes, f@.width, f@.height, w, h), w, h)
}

/// The divisor leaves no pixel in one of the frame's dimensions.
pub open spec fn degenerate(width: nat, height: nat, divisor: nat) -> bool {
    width / divisor == 0 || height / divisor == 0
}

/// Renders `frame` as ASCII art after shrinking it `resolution` times in each
/// dimension. Fails with `DegenerateResize` exactly when that leaves no pixel.
pub fn image_to_ascii(frame: &RawFrame, resolution: u32) -> (r: Result<String, PlaybackError>)
    requires
        frame.wf(),
        resolution > 0,
    ensures
        degenerate(frame@.width, frame@.height, resolution as nat) ==> r matches Err(
            PlaybackError::DegenerateResize,
        ),
        !degenerate(frame@.width, frame@.height, resolution as nat) ==> (r matches Ok(art)
            && art@ == frame_art(*frame, resolution as nat)),
{
    let width = frame.width();
    let height = frame.height();
    let new_width = width / resolution;
    let new_height = height / resolution;
    if new_width == 0 || new_height == 0 {
        return Err(PlaybackError::DegenerateResize);
    }
    let resized = resize_nearest(frame.bytes(), width, height, new_width, new_height);
    Ok(render_pixels(&resized, new_width, new_height))
}

} // verus!
