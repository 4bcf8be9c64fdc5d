//! Snapshots of the frame: its PNG encoding, and the names of the files that
//! hold them.
use vstd::prelude::*;
use crate::frame::{decimal, push_decimal};

verus! {

#[verifier::external_type_specification]
#[verifier::external_body]
pub struct ExEncodingError(png::EncodingError);

/// The PNG image, 8-bit RGB, of `width` by `height` pixels given row by row,
/// top row first.
pub uninterp spec fn rgb8_png(width: u32, height: u32, pixels: Seq<u8>) -> Seq<u8>;

/// Relies on png's `Encoder::new`, `write_header`, `Writer::write_image_data`
/// and `Writer::finish`, writing into memory: the encoding of the pixels as an
/// 8-bit RGB image, refused for a zero width or height and for a pixel buffer
/// of another length than `width * height * 3`, and made for every other
/// input: the colour type and depth form a valid pair, sequence checks are off
/// by default, and writing into a `Vec` does not fail.
#[verifier::external_body]
fn encode_rgb8_png(pixels: &[u8], width: u32, height: u32) -> (r: Result<Vec<u8>, png::EncodingError>)
    requires
        width * height * 3 <= usize::MAX,
    ensures
        r is Ok ==> r->Ok_0@ == rgb8_png(width, height, pixels@),
        width == 0 || height == 0 || pixels@.len() != width * height * 3 ==> r is Err,
        width > 0 && height > 0 && pixels@.len() == width * height * 3 ==> r is Ok,
{
    let mut out: Vec<u8> = Vec::new();
    let mut encoder = png::Encoder::new(&mut out, width, height);
    encoder.set_color(png::ColorType::Rgb);
    encoder.set_depth(png::BitDepth::Eight);
    let mut writer = encoder.write_header()?;
    writer.write_image_data(pixels)?;
    writer.finish()?;
    Ok(out)
}

/// Why a frame could not be encoded.
#[derive(Clone, Copy, Debug, PartialEq, Eq, Structural)]
pub enum SnapshotError {
    /// The frame is too large for the format or for this machine.
    TooLarge,
    /// The encoder refused the frame.
    Encoder,
}

/// The PNG encoding of a frame of `width` by `height` pixels.
pub fn encode_snapshot(frame: &[u8], width: usize, height: usize) -> (r: Result<Vec<u8>, SnapshotError>)
    ensures
        width > u32::MAX || height > u32::MAX || width * height * 3 > usize::MAX ==> r == Err::<
            Vec<u8>,
            SnapshotError,
        >(SnapshotError::TooLarge),
        width == 0 || height == 0 || frame@.len() != width * height * 3 ==> r is Err,
        0 < width <= u32::MAX && 0 < height <= u32::MAX && width * height * 3 <= usize::MAX
            && frame@.len() == width * height * 3 ==> r is Ok,
        r is Ok ==> r->Ok_0@ == rgb8_png(width as u32, height as u32, frame@),
{
    if width > u32::MAX as usize || height > u32::MAX as usize {
        return Err(SnapshotError::TooLarge);
    }
    let fits = match width.checked_mul(height) {
        Some(area) => area.checked_mul(3).is_some(),
        None => false,
    };
    if !fits {
        proof {
            assert(width * height <= width * height * 3) by (nonlinear_arith)
                requires
                    width >= 0,
                    height >= 0,
            ;
        }
        return Err(SnapshotError::TooLarge);
    }
    match encode_rgb8_png(frame, width as u32, height as u32) {
        Ok(bytes) => Ok(bytes),
        Err(_) => Err(SnapshotError::Encoder),
    }
}

/// Name of the file of a snapshot: `image.png` for the only one,
/// `image<k>.png` for the `k`-th of a series.
pub open spec fn spec_snapshot_name(index: Option<usize>) -> Seq<u8> {
    let stem = seq!['i' as u8, 'm' as u8, 'a' as u8, 'g' as u8, 'e' as u8];
    let ext = seq!['.' as u8, 'p' as u8, 'n' as u8, 'g' as u8];
    match index {
        Some(k) => stem + decimal(k as nat) + ext,
        None => stem + ext,
    }
}

/// Name of the file of a snapshot: `image.png` for the only one,
/// `image<k>.png` for the `k`-th of a series.
pub fn snapshot_name(index: Option<usize>) -> (r: Vec<u8>)
    ensures
        r@ == spec_snapshot_name(index),
{
    let mut out = vec!['i' as u8, 'm' as u8, 'a' as u8, 'g' as u8, 'e' as u8];
    if let Some(k) = index {
        push_decimal(k, &mut out);
    }
    out.push('.' as u8);
    out.push('p' as u8);
    out.push('n' as u8);
    out.push('g' as u8);
    out
}

} // verus!
