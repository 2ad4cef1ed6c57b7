//! Screen regions, the choice of the screen a region is captured from, and
//! the cropping and PNG encoding of captured pixels.
use vstd::prelude::*;

use crate::text::{chars_of, concat_chars, string_of};

use image::{ExtendedColorType, ImageFormat};

verus! {

#[derive(Debug)]
pub enum CaptureError {
    NoScreen,
    ScreenshotFailed(String),
    EncodeFailed(String),
}

impl CaptureError {
    /// The message shown for the error.
    pub fn message(&self) -> (m: String)
        ensures
            m@ == match self {
                CaptureError::NoScreen => "No screen found for capture region"@,
                CaptureError::ScreenshotFailed(s) => "Screenshot failed: "@ + s@,
                CaptureError::EncodeFailed(s) => "PNG encode failed: "@ + s@,
            },
    {
        broadcast use vstd::string::group_string_axioms;

        match self {
            CaptureError::NoScreen => "No screen found for capture region".to_string(),
            CaptureError::ScreenshotFailed(s) => crate::text::join2(
                "Screenshot failed: ",
                s.as_str(),
            ),
            CaptureError::EncodeFailed(s) => crate::text::join2("PNG encode failed: ", s.as_str()),
        }
    }
}

/// Screen region in physical pixels.
#[derive(Debug, Clone, Copy, PartialEq, Eq)]
pub struct Region {
    pub x: i32,
    pub y: i32,
    pub width: u32,
    pub height: u32,
}

/// The region's right and bottom edges are representable as `i32`.
pub open spec fn region_fits(r: Region) -> bool {
    r.width <= i32::MAX && r.height <= i32::MAX && r.x + r.width <= i32::MAX && r.y
        + r.height <= i32::MAX
}

/// The point lies in the region (left and top edges included).
pub open spec fn contains_point(r: Region, x: i32, y: i32) -> bool {
    r.x <= x < r.x + r.width && r.y <= y < r.y + r.height
}

/// Index of the first screen containing the point, or -1.
pub open spec fn screen_index(screens: Seq<Region>, x: i32, y: i32) -> int
    decreases screens.len(),
{
    if screens.len() == 0 {
        -1
    } else if contains_point(screens[0], x, y) {
        0
    } else {
        let k = screen_index(screens.drop_first(), x, y);
        if k < 0 {
            -1
        } else {
            k + 1
        }
    }
}

/// The first screen that contains the region's top-left corner.
pub fn screen_for_point(screens: &Vec<Region>, x: i32, y: i32) -> (r: Option<usize>)
    requires
        forall|i: int| 0 <= i < screens@.len() ==> region_fits(#[trigger] screens@[i]),
    ensures
        match r {
            Some(k) => screen_index(screens@, x, y) == k as int && k < screens@.len(),
            None => screen_index(screens@, x, y) == -1,
        },
{
    let mut i: usize = 0;
    assert(screens@.skip(0) =~= screens@);
    while i < screens.len()
        invariant
            i <= screens@.len(),
            forall|j: int| 0 <= j < screens@.len() ==> region_fits(#[trigger] screens@[j]),
            screen_index(screens@, x, y) == (if screen_index(screens@.skip(i as int), x, y) < 0 {
                -1
            } else {
                screen_index(screens@.skip(i as int), x, y) + i
            }),
        decreases screens.len() - i,
    {
        assert(screens@.skip(i as int).drop_first() =~= screens@.skip(i as int + 1));
        assert(screens@.skip(i as int)[0] == screens@[i as int]);
        let s = screens[i];
        assert(region_fits(s));
        if x >= s.x && x < s.x + (s.width as i32) && y >= s.y && y < s.y + (s.height as i32) {
            return Some(i);
        }
        i += 1;
    }
    None
}

/// Offset of the point inside the screen, where cropping starts.
pub fn crop_origin(screen: Region, x: i32, y: i32) -> (r: (u32, u32))
    requires
        contains_point(screen, x, y),
        x - screen.x <= i32::MAX,
        y - screen.y <= i32::MAX,
    ensures
        r.0 == x - screen.x,
        r.1 == y - screen.y,
{
    ((x - screen.x) as u32, (y - screen.y) as u32)
}

// ---------------------------------------------------------------------------
// Turning captured pixels into PNG files
// ---------------------------------------------------------------------------
/// The RGBA buffer holds a `width` x `height` image: four bytes a pixel,
/// counted as the image crate counts (`4 * width`, then times `height`)
/// without overflowing `usize`.
pub open spec fn rgba_fits(width: u32, height: u32, len: nat) -> bool {
    &&& 4 * width <= usize::MAX
    &&& 4 * width * height <= usize::MAX
    &&& 4 * width * height <= len
}

/// Whether the buffer holds the image, counted with checked products in the
/// order the image crate checks a raw buffer before building an image on it.
fn rgba_check(width: u32, height: u32, len: usize) -> (b: bool)
    ensures
        b == rgba_fits(width, height, len as nat),
{
    match 4usize.checked_mul(width as usize) {
        None => false,
        Some(row) => match row.checked_mul(height as usize) {
            None => false,
            Some(n) => n <= len,
        },
    }
}

pub open spec fn min_int(a: int, b: int) -> int {
    if a <= b {
        a
    } else {
        b
    }
}

/// The rectangle a crop of a `iw` x `ih` image at `(x, y)` of size `w` x `h`
/// keeps: the corner moved into the image, the size cut to what lies inside
/// (left, top, width, height).
pub open spec fn crop_dims(iw: u32, ih: u32, x: u32, y: u32, w: u32, h: u32) -> (int, int, int, int) {
    let cx = min_int(x as int, iw as int);
    let cy = min_int(y as int, ih as int);
    (cx, cy, min_int(w as int, iw - cx), min_int(h as int, ih - cy))
}

/// Byte `k` of the cut-out, row by row: pixel `k / 4` lies in row
/// `(k / 4) / cw` and column `(k / 4) % cw` of the rectangle.
pub open spec fn crop_byte(rgba: Seq<u8>, iw: int, cx: int, cy: int, cw: int, k: int) -> u8 {
    let p = k / 4;
    rgba[4 * ((cy + p / cw) * iw + cx + p % cw) + k % 4]
}

/// The RGBA bytes of the cut-out of the `iw` x `ih` image in `rgba`.
pub open spec fn crop_pixels(rgba: Seq<u8>, iw: u32, ih: u32, x: u32, y: u32, w: u32, h: u32) -> Seq<
    u8,
> {
    let d = crop_dims(iw, ih, x, y, w, h);
    Seq::new((4 * d.2 * d.3) as nat, |k: int| crop_byte(rgba, iw as int, d.0, d.1, d.2, k))
}

/// The PNG file that encodes a `width` x `height` image of 8-bit RGBA
/// pixels, when the encoder produces one.
pub uninterp spec fn png_encoding(width: u32, height: u32, rgba: Seq<u8>) -> Option<Seq<u8>>;

/// `image::write_buffer_with_format` for 8-bit RGBA pixels in the PNG format,
/// into a byte buffer; this is the encoding `DynamicImage::write_to` performs
/// on an RGBA image. Its result is named `png_encoding`. The encoder asserts
/// that the buffer holds exactly the image, so that is required. The error
/// text is the crate's and is not stated.
#[verifier::external_body]
fn encode_png(width: u32, height: u32, rgba: &[u8]) -> (r: Result<Vec<u8>, String>)
    requires
        rgba@.len() == 4 * width * height,
    ensures
        r is Ok <==> png_encoding(width, height, rgba@) is Some,
        r matches Ok(b) ==> png_encoding(width, height, rgba@) == Some(b@),
{
    let mut buf: Vec<u8> = Vec::new();
    match image::write_buffer_with_format(
        &mut std::io::Cursor::new(&mut buf), rgba, width, height, ExtendedColorType::Rgba8,
        ImageFormat::Png,
    ) {
        Ok(()) => Ok(buf),
        Err(e) => Err(e.to_string()),
    }
}

/// Cuts the rectangle out of the `iw` x `ih` RGBA image, clipped to the
/// image as `crop_imm` clips it: the cut-out's width, height and bytes.
fn crop_rgba(rgba: &Vec<u8>, iw: u32, ih: u32, x: u32, y: u32, w: u32, h: u32) -> (r: (
    u32,
    u32,
    Vec<u8>,
))
    requires
        rgba_fits(iw, ih, rgba@.len()),
    ensures
        r.0 == crop_dims(iw, ih, x, y, w, h).2,
        r.1 == crop_dims(iw, ih, x, y, w, h).3,
        r.2@ == crop_pixels(rgba@, iw, ih, x, y, w, h),
        r.2@.len() == 4 * r.0 * r.1,
{
    let cx: u32 = if x < iw {
        x
    } else {
        iw
    };
    let cy: u32 = if y < ih {
        y
    } else {
        ih
    };
    let cw: u32 = if w < iw - cx {
        w
    } else {
        iw - cx
    };
    let ch: u32 = if h < ih - cy {
        h
    } else {
        ih - cy
    };
    let ghost spec_rect = crop_pixels(rgba@, iw, ih, x, y, w, h);
    assert(4 * cw * ch <= 4 * iw * ih) by (nonlinear_arith)
        requires
            cw <= iw,
            ch <= ih,
    ;
    let total: usize = 4 * (cw as usize) * (ch as usize);
    let mut out: Vec<u8> = Vec::new();
    let mut k: usize = 0;
    while k < total
        invariant
            k <= total,
            total == 4 * cw * ch,
            cx + cw <= iw,
            cy + ch <= ih,
            rgba_fits(iw, ih, rgba@.len()),
            spec_rect.len() == total,
            forall|j: int|
                0 <= j < spec_rect.len() ==> #[trigger] spec_rect[j] == crop_byte(
                    rgba@,
                    iw as int,
                    cx as int,
                    cy as int,
                    cw as int,
                    j,
                ),
            out@ == spec_rect.take(k as int),
        decreases total - k,
    {
        let p: usize = k / 4;
        let b: usize = k % 4;
        assert(cw > 0 && p < (cw as int) * (ch as int)) by (nonlinear_arith)
            requires
                k < total,
                total == 4 * cw * ch,
                p == k / 4,
        ;
        let row: usize = p / (cw as usize);
        let col: usize = p % (cw as usize);
        assert(row < ch && col < cw) by (nonlinear_arith)
            requires
                cw > 0,
                p < (cw as int) * (ch as int),
                row == (p as int) / (cw as int),
                col == (p as int) % (cw as int),
        ;
        assert(0 <= (cy + row) * iw <= (cy + row) * iw + cx + col < (iw as int) * (ih as int)
            && 4 * ((iw as int) * (ih as int)) <= usize::MAX && 4 * ((iw as int) * (ih as int))
            <= rgba@.len()) by (nonlinear_arith)
            requires
                cy + row < ih,
                cx + col < iw,
                4 * iw * ih <= usize::MAX,
                4 * iw * ih <= rgba@.len(),
        ;
        let idx: usize = 4 * (((cy as usize) + row) * (iw as usize) + (cx as usize) + col) + b;
        out.push(rgba[idx]);
        assert(out@ =~= spec_rect.take(k as int + 1));
        k += 1;
    }
    assert(out@ =~= spec_rect);
    (cw, ch, out)
}

/// A full-screen capture as PNG: the encoding of the `width` x `height`
/// pixels; a buffer too small for its size is an encoding failure. (A buffer
/// longer than the image makes the encoder panic, so it is excluded.)
pub fn full_screen_png(rgba: Vec<u8>, width: u32, height: u32) -> (r: Result<Vec<u8>, CaptureError>)
    requires
        rgba_fits(width, height, rgba@.len()) ==> rgba@.len() == 4 * width * height,
    ensures
        !rgba_fits(width, height, rgba@.len()) ==> (r matches Err(CaptureError::EncodeFailed(m))
            && m@ == "Failed to create RGBA image"@),
        rgba_fits(width, height, rgba@.len()) ==> match png_encoding(width, height, rgba@) {
            Some(png) => r matches Ok(b) && b@ == png,
            None => r matches Err(CaptureError::EncodeFailed(_)),
        },
{
    broadcast use vstd::string::group_string_axioms;

    if !rgba_check(width, height, rgba.len()) {
        return Err(CaptureError::EncodeFailed("Failed to create RGBA image".to_string()));
    }
    match encode_png(width, height, rgba.as_slice()) {
        Ok(b) => Ok(b),
        Err(e) => Err(CaptureError::EncodeFailed(e)),
    }
}

/// The region capture's result when the shot's buffer holds the shot: the
/// PNG encoding of the part of the `iw` x `ih` shot that starts at the
/// region's corner inside the screen, clipped to the shot.
pub open spec fn region_png_result(
    rgba: Seq<u8>,
    iw: u32,
    ih: u32,
    screen: Region,
    x: i32,
    y: i32,
    width: u32,
    height: u32,
    r: Result<Vec<u8>, CaptureError>,
) -> bool {
    let cx = (x - screen.x) as u32;
    let cy = (y - screen.y) as u32;
    let d = crop_dims(iw, ih, cx, cy, width, height);
    match png_encoding(d.2 as u32, d.3 as u32, crop_pixels(rgba, iw, ih, cx, cy, width, height)) {
        Some(png) => r matches Ok(b) && b@ == png,
        None => r matches Err(CaptureError::EncodeFailed(_)),
    }
}

/// A capture of the region whose top-left corner is `(x, y)`, cut from the
/// `image_width` x `image_height` shot of the screen that holds that corner
/// and encoded as PNG; a buffer too small for the shot is an encoding
/// failure.
pub fn region_png(
    rgba: Vec<u8>,
    image_width: u32,
    image_height: u32,
    screen: Region,
    x: i32,
    y: i32,
    width: u32,
    height: u32,
) -> (r: Result<Vec<u8>, CaptureError>)
    requires
        contains_point(screen, x, y),
        x - screen.x <= i32::MAX,
        y - screen.y <= i32::MAX,
    ensures
        !rgba_fits(image_width, image_height, rgba@.len()) ==> (r matches Err(
            CaptureError::EncodeFailed(m),
        ) && m@ == "Failed to create RGBA image from buffer"@),
        rgba_fits(image_width, image_height, rgba@.len()) ==> region_png_result(
            rgba@,
            image_width,
            image_height,
            screen,
            x,
            y,
            width,
            height,
            r,
        ),
{
    broadcast use vstd::string::group_string_axioms;

    if !rgba_check(image_width, image_height, rgba.len()) {
        return Err(
            CaptureError::EncodeFailed("Failed to create RGBA image from buffer".to_string()),
        );
    }
    let (cx, cy) = crop_origin(screen, x, y);
    let (cw, ch, cut) = crop_rgba(&rgba, image_width, image_height, cx, cy, width, height);
    match encode_png(cw, ch, cut.as_slice()) {
        Ok(b) => Ok(b),
        Err(e) => Err(CaptureError::EncodeFailed(e)),
    }
}

} // verus!
