//! The integer decisions of image processing: whether to resize, how to
//! centre a crop, and which encoder settings a request asks for.

use vstd::prelude::*;

use crate::model::params::{ImageFormat, ImageParams};

verus! {

/// The target box of a resize, `(width, height)`, with an absent side
/// written as 0 (sizes are read as `i32`, so a size above `i32::MAX` wraps
/// to a negative number); `None` when neither side is positive, in which
/// case the image is kept at its size.
pub open spec fn target_box(width: Option<u32>, height: Option<u32>) -> Option<(i32, i32)> {
    let w = match width {
        Some(v) => v as i32,
        None => 0i32,
    };
    let h = match height {
        Some(v) => v as i32,
        None => 0i32,
    };
    if w <= 0 && h <= 0 {
        None
    } else {
        Some((w, h))
    }
}

/// The resize target of a request.
pub fn resize_target(params: &ImageParams) -> (r: Option<(i32, i32)>)
    ensures
        r == target_box(params.width, params.height),
{
    let w: i32 = match params.width {
        Some(v) => v as i32,
        None => 0,
    };
    let h: i32 = match params.height {
        Some(v) => v as i32,
        None => 0,
    };
    if w <= 0 && h <= 0 {
        None
    } else {
        Some((w, h))
    }
}

/// A rectangle cut out of an image.
#[derive(Debug, Clone, Copy, PartialEq, Eq)]
pub struct CropBox {
    pub x: i32,
    pub y: i32,
    pub width: i32,
    pub height: i32,
}

/// The smaller of two numbers.
pub open spec fn min_i32(a: i32, b: i32) -> i32 {
    if a <= b { a } else { b }
}

/// The centred crop of a scaled image to the target box: each side is the
/// smaller of the scaled and the target side, and the offsets split the
/// surplus evenly (rounding down).
pub open spec fn centred_crop(scaled_w: i32, scaled_h: i32, target_w: i32, target_h: i32) -> CropBox {
    let cw = min_i32(scaled_w, target_w);
    let ch = min_i32(scaled_h, target_h);
    CropBox { x: ((scaled_w - cw) / 2) as i32, y: ((scaled_h - ch) / 2) as i32, width: cw, height: ch }
}

/// Centres a crop of the target size (or less) on a scaled image.
pub fn centre_crop(scaled_w: i32, scaled_h: i32, target_w: i32, target_h: i32) -> (r: CropBox)
    requires
        scaled_w - min_i32(scaled_w, target_w) <= i32::MAX,
        scaled_h - min_i32(scaled_h, target_h) <= i32::MAX,
    ensures
        r == centred_crop(scaled_w, scaled_h, target_w, target_h),
{
    let cw = if scaled_w <= target_w {
        scaled_w
    } else {
        target_w
    };
    let ch = if scaled_h <= target_h {
        scaled_h
    } else {
        target_h
    };
    CropBox { x: (scaled_w - cw) / 2, y: (scaled_h - ch) / 2, width: cw, height: ch }
}

/// Encoder settings; quality is passed on as `i32`, PNG takes none.
#[derive(Debug, Clone, Copy, PartialEq, Eq)]
pub enum EncodeSettings {
    Webp { quality: i32 },
    /// HEIF container with AV1 compression.
    Avif { quality: i32 },
    Jpeg { quality: i32 },
    Png,
}

/// The encoder settings of a request.
pub open spec fn settings_for(format: ImageFormat, quality: u8) -> EncodeSettings {
    match format {
        ImageFormat::Webp => EncodeSettings::Webp { quality: quality as i32 },
        ImageFormat::Avif => EncodeSettings::Avif { quality: quality as i32 },
        ImageFormat::Jpeg => EncodeSettings::Jpeg { quality: quality as i32 },
        ImageFormat::Png => EncodeSettings::Png,
    }
}

/// Chooses the encoder and its quality for a request.
pub fn encode_settings(params: &ImageParams) -> (r: EncodeSettings)
    ensures
        r == settings_for(params.format, params.quality),
{
    let quality = params.quality as i32;
    match params.format {
        ImageFormat::Webp => EncodeSettings::Webp { quality },
        ImageFormat::Avif => EncodeSettings::Avif { quality },
        ImageFormat::Jpeg => EncodeSettings::Jpeg { quality },
        ImageFormat::Png => EncodeSettings::Png,
    }
}


/// The resize target keeps each side that was asked for: a present size up
/// to `i32::MAX` is its own value and an absent size is 0, so two present
/// positive sizes give exactly that box; there is no target exactly when
/// neither side is positive.
pub proof fn lemma_resize_target_sides(width: Option<u32>, height: Option<u32>)
    ensures
        (width is Some && 0 < width.unwrap() <= i32::MAX && height is Some && 0 < height.unwrap()
            <= i32::MAX) ==> target_box(width, height) == Some(
            (width.unwrap() as i32, height.unwrap() as i32),
        ),
        target_box(width, height) is Some ==> {
            let (a, b) = target_box(width, height).unwrap();
            &&& (width is None ==> a == 0)
            &&& (height is None ==> b == 0)
            &&& ((width is Some && width.unwrap() <= i32::MAX) ==> a == width.unwrap())
            &&& ((height is Some && height.unwrap() <= i32::MAX) ==> b == height.unwrap())
        },
        (width is Some && 0 < width.unwrap() <= i32::MAX) ==> target_box(width, height) is Some,
        (height is Some && 0 < height.unwrap() <= i32::MAX) ==> target_box(width, height) is Some,
        (width is None && height is None) ==> target_box(width, height) is None,
{
}

/// A centred crop of non-negative sizes lies inside the scaled image, is no
/// larger than the target, keeps the whole side where the image is smaller,
/// and leaves margins on both sides that differ by at most one pixel.
pub proof fn lemma_centred_crop_fits(scaled_w: i32, scaled_h: i32, target_w: i32, target_h: i32)
    requires
        0 <= scaled_w,
        0 <= scaled_h,
        0 <= target_w,
        0 <= target_h,
    ensures
        ({
            let c = centred_crop(scaled_w, scaled_h, target_w, target_h);
            &&& 0 <= c.x && c.x + c.width <= scaled_w
            &&& 0 <= c.y && c.y + c.height <= scaled_h
            &&& c.width <= target_w && c.height <= target_h
            &&& (scaled_w <= target_w ==> c.width == scaled_w)
            &&& (target_w <= scaled_w ==> c.width == target_w)
            &&& (scaled_h <= target_h ==> c.height == scaled_h)
            &&& (target_h <= scaled_h ==> c.height == target_h)
            &&& scaled_w - (c.x + c.width) - c.x == (scaled_w - c.width) % 2
            &&& scaled_h - (c.y + c.height) - c.y == (scaled_h - c.height) % 2
        }),
{
}

/// Lossy formats are encoded at the requested quality; PNG takes none.
pub proof fn lemma_encoder_follows_format(format: ImageFormat, quality: u8)
    ensures
        format == ImageFormat::Webp ==> (settings_for(format, quality) == (EncodeSettings::Webp {
            quality: quality as i32,
        })),
        format == ImageFormat::Avif ==> (settings_for(format, quality) == (EncodeSettings::Avif {
            quality: quality as i32,
        })),
        format == ImageFormat::Jpeg ==> (settings_for(format, quality) == (EncodeSettings::Jpeg {
            quality: quality as i32,
        })),
        format == ImageFormat::Png ==> settings_for(format, quality) == EncodeSettings::Png,
{
}

} // verus!
