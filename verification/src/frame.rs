//! Camera frames: the JPEG that the model sees (the frame filled into
//! 640 by 480 pixels, base64-encoded) and the 0RGB pixels of the preview
//! window.

use vstd::prelude::*;

use base64::prelude::{Engine, BASE64_STANDARD};

verus! {

/// The width of the image sent to the model and of the preview window.
pub const FRAME_WIDTH: u32 = 640;

/// The height of the image sent to the model and of the preview window.
pub const FRAME_HEIGHT: u32 = 480;

/// The number of bytes of an RGB frame of 640 by 480 pixels.
pub open spec fn filled_len() -> nat {
    (FRAME_WIDTH * FRAME_HEIGHT * 3) as nat
}

/// The character of the standard base64 alphabet for the six bits `x`:
/// `A`-`Z`, `a`-`z`, `0`-`9`, `+`, `/`.
pub open spec fn base64_digit(x: int) -> char {
    if x < 26 {
        ('A' as int + x) as char
    } else if x < 52 {
        ('a' as int + (x - 26)) as char
    } else if x < 62 {
        ('0' as int + (x - 52)) as char
    } else if x == 62 {
        '+'
    } else {
        '/'
    }
}

/// The standard base64 encoding, with padding, of `bytes`: four characters
/// for each group of three bytes, six bits each, most significant first; a
/// last group of one or two bytes is padded with zero bits and `=`.
pub open spec fn base64_standard(bytes: Seq<u8>) -> Seq<char>
    decreases bytes.len(),
{
    if bytes.len() == 0 {
        Seq::empty()
    } else if bytes.len() == 1 {
        let n = bytes[0] as int;
        seq![base64_digit(n / 4), base64_digit((n % 4) * 16), '=', '=']
    } else if bytes.len() == 2 {
        let n = bytes[0] as int * 256 + bytes[1] as int;
        seq![base64_digit(n / 1024), base64_digit((n / 16) % 64), base64_digit((n % 16) * 4), '=']
    } else {
        let n = bytes[0] as int * 65536 + bytes[1] as int * 256 + bytes[2] as int;
        seq![
            base64_digit(n / 262144),
            base64_digit((n / 4096) % 64),
            base64_digit((n / 64) % 64),
            base64_digit(n % 64),
        ] + base64_standard(bytes.subrange(3, bytes.len() as int))
    }
}

/// The encoding has four characters per started group of three bytes.
pub proof fn lemma_base64_len(bytes: Seq<u8>)
    ensures
        base64_standard(bytes).len() == (bytes.len() + 2) / 3 * 4,
    decreases bytes.len(),
{
    if bytes.len() >= 3 {
        lemma_base64_len(bytes.subrange(3, bytes.len() as int));
    }
}

/// The RGB bytes of an image of `width` by `height` pixels resized and
/// cropped to fill 640 by 480 pixels with nearest-neighbour sampling.
pub uninterp spec fn filled_rgb(width: u32, height: u32, rgb: Seq<u8>) -> Seq<u8>;

/// The JPEG bytes of an RGB image of 640 by 480 pixels.
pub uninterp spec fn jpeg_of(rgb: Seq<u8>) -> Seq<u8>;

/// The longest input that `base64_encode` takes: its encoded length fits in
/// a `usize`.
pub open spec fn base64_input_fits(n: nat) -> bool {
    n / 3 * 4 + 4 <= usize::MAX
}

/// Calls `base64::Engine::encode` of `base64::prelude::BASE64_STANDARD`.
/// Claimed: the result is the standard padded encoding of `bytes`, as
/// `base64_standard` spells it out. The crate computes the encoded length
/// with checked arithmetic and panics where it does not fit in a `usize`,
/// which `requires` leaves out.
#[verifier::external_body]
fn base64_encode(bytes: &[u8]) -> (r: String)
    requires
        base64_input_fits(bytes@.len()),
    ensures
        r@ == base64_standard(bytes@),
{
    BASE64_STANDARD.encode(bytes)
}

/// The frame sizes that `resize_to_fill` turns into 640 by 480 pixels. It
/// first scales the image so that it covers 640 by 480, keeping its aspect,
/// and then crops the middle: the scaled image is 640 pixels wide and
/// `640 * height / width` high, or 480 pixels high and `480 * width / height`
/// wide, whichever covers. So: both sides positive (with a side of zero the
/// scale factor is infinite), the scaled side at most `u32::MAX` pixels
/// (beyond that the crate clamps it and the crop comes out smaller than 640
/// by 480), and the scaled image's bytes at most `isize::MAX` (beyond that
/// its allocation panics).
pub open spec fn frame_shape_ok(width: u32, height: u32) -> bool {
    &&& 0 < width
    &&& 0 < height
    &&& 640 * height <= u32::MAX * width
    &&& 480 * width <= u32::MAX * height
    &&& 3 * 640 * (640 * height + width) <= isize::MAX * width
    &&& 3 * 480 * (480 * width + height) <= isize::MAX * height
}

/// Calls `image::DynamicImage::resize_to_fill` to 640 by 480 pixels with
/// `FilterType::Nearest`, on the image that `RgbImage::from_raw` makes of
/// `rgb`, and takes the RGB bytes of the result. Claimed: there is a result
/// exactly where `rgb` holds three bytes for each pixel of the given size,
/// which is what `from_raw` checks (resizing, cropping and taking the bytes
/// always succeed), and it is the bytes named `filled_rgb`, three for each
/// of the 640 by 480 pixels. Where the machine has too little memory for the
/// scaled image, its allocation aborts the process; that limit is the
/// machine's and is not stated here.
#[verifier::external_body]
fn resize_to_fill_rgb(width: u32, height: u32, rgb: Vec<u8>) -> (r: Option<Vec<u8>>)
    requires
        frame_shape_ok(width, height),
    ensures
        r is Some <==> 3 * width * height <= rgb@.len(),
        r matches Some(p) ==> p@ == filled_rgb(width, height, rgb@) && p@.len() == filled_len(),
{
    let img = image::RgbImage::from_raw(width, height, rgb)?;
    let filled = image::DynamicImage::ImageRgb8(img).resize_to_fill(
        FRAME_WIDTH,
        FRAME_HEIGHT,
        image::imageops::FilterType::Nearest,
    );
    Some(filled.into_rgb8().into_raw())
}

/// Calls `image::DynamicImage::write_to` with `ImageFormat::Jpeg` into a byte
/// buffer, on the 640 by 480 image that `RgbImage::from_raw` makes of `rgb`.
/// Claimed: there is always a result, the JPEG named `jpeg_of`, which is
/// not empty (the encoder writes the start-of-image marker first). The image
/// is RGB, which the encoder takes as it is, and its sides fit in 16 bits,
/// so the encoder's own checks pass; its other failures are failures to
/// write, and the buffer it writes to is a vector in memory that grows as
/// needed.
#[verifier::external_body]
fn encode_jpeg(rgb: Vec<u8>) -> (r: Option<Vec<u8>>)
    requires
        rgb@.len() == filled_len(),
    ensures
        r is Some,
        r matches Some(j) ==> j@ == jpeg_of(rgb@) && j@.len() > 0,
{
    let img = image::RgbImage::from_raw(FRAME_WIDTH, FRAME_HEIGHT, rgb)?;
    let mut jpeg: Vec<u8> = Vec::new();
    image::DynamicImage::ImageRgb8(img)
        .write_to(std::io::Cursor::new(&mut jpeg), image::ImageFormat::Jpeg)
        .ok()?;
    Some(jpeg)
}

/// The camera frame of `width` by `height` RGB pixels filled into 640 by
/// 480 pixels, as the preview window and the model see it.
pub fn fill_frame(width: u32, height: u32, rgb: Vec<u8>) -> (r: Option<Vec<u8>>)
    requires
        frame_shape_ok(width, height),
    ensures
        r is Some <==> 3 * width * height <= rgb@.len(),
        r matches Some(p) ==> p@ == filled_rgb(width, height, rgb@) && p@.len() == filled_len(),
{
    resize_to_fill_rgb(width, height, rgb)
}

/// The base64 text of the bytes `j`, where they fit the encoder.
pub open spec fn encoded(j: Seq<u8>) -> Option<Seq<char>> {
    if base64_input_fits(j.len()) {
        Some(base64_standard(j))
    } else {
        None
    }
}

/// The base64 text of the bytes `bytes`, `None` where they are too long to
/// encode.
pub fn encode_base64(bytes: &[u8]) -> (r: Option<String>)
    ensures
        match r {
            Some(s) => encoded(bytes@) == Some(s@) && s@.len() == (bytes@.len() + 2) / 3 * 4,
            None => encoded(bytes@) is None,
        },
{
    let n = bytes.len();
    if n / 3 > (usize::MAX - 4) / 4 {
        return None;
    }
    proof {
        lemma_base64_len(bytes@);
    }
    Some(base64_encode(bytes))
}

/// Encodes an RGB camera frame of `width` by `height` pixels for the model:
/// filled into 640 by 480 pixels, as JPEG, base64-encoded. `None` where the
/// frame holds too few bytes or its JPEG is too long to encode.
pub fn encode_frame(width: u32, height: u32, rgb: Vec<u8>) -> (r: Option<String>)
    requires
        frame_shape_ok(width, height),
    ensures
        match r {
            Some(s) => {
                let jpeg = jpeg_of(filled_rgb(width, height, rgb@));
                &&& 3 * width * height <= rgb@.len()
                &&& encoded(jpeg) == Some(s@)
                &&& s@.len() == (jpeg.len() + 2) / 3 * 4
                &&& s@.len() > 0
                &&& s@.len() % 4 == 0
            },
            None => 3 * width * height > rgb@.len() || encoded(
                jpeg_of(filled_rgb(width, height, rgb@)),
            ) is None,
        },
{
    let ghost pixels = rgb@;
    match resize_to_fill_rgb(width, height, rgb) {
        Some(filled) => match encode_jpeg(filled) {
            Some(jpeg) => encode_base64(jpeg.as_slice()),
            None => None,
        },
        None => None,
    }
}

/// The 0RGB word of a pixel with full alpha, as the preview window takes it.
pub open spec fn argb(r: u8, g: u8, b: u8) -> u32 {
    (0xff000000 + (r as int) * 0x10000 + (g as int) * 0x100 + b as int) as u32
}

fn pack_pixel(r: u8, g: u8, b: u8) -> (w: u32)
    ensures
        w == argb(r, g, b),
{
    let (r32, g32, b32) = (r as u32, g as u32, b as u32);
    let w = (255u32 << 24u32) | (r32 << 16u32) | (g32 << 8u32) | b32;
    assert(w == 0xff000000u32 + r32 * 0x10000u32 + g32 * 0x100u32 + b32) by (bit_vector)
        requires
            r32 < 256,
            g32 < 256,
            b32 < 256,
            w == (255u32 << 24u32) | (r32 << 16u32) | (g32 << 8u32) | b32,
    ;
    w
}

/// Writes the pixels of the RGB bytes `rgb`, three per pixel, into the
/// preview buffer as 0RGB words with full alpha, as far as both reach; the
/// rest of the buffer keeps its words.
pub fn fill_argb(rgb: &[u8], buffer: &mut Vec<u32>)
    ensures
        final(buffer)@.len() == old(buffer)@.len(),
        forall|i: int|
            0 <= i < old(buffer)@.len() ==> #[trigger] final(buffer)@[i] == if i < rgb@.len() / 3 {
                argb(rgb@[3 * i], rgb@[3 * i + 1], rgb@[3 * i + 2])
            } else {
                old(buffer)@[i]
            },
{
    let n = rgb.len();
    let pixels = n / 3;
    let mut i: usize = 0;
    while i < pixels && i < buffer.len()
        invariant
            n == rgb@.len(),
            pixels == rgb@.len() / 3,
            i <= pixels,
            buffer@.len() == old(buffer)@.len(),
            forall|k: int|
                0 <= k < old(buffer)@.len() ==> #[trigger] buffer@[k] == if k < i {
                    argb(rgb@[3 * k], rgb@[3 * k + 1], rgb@[3 * k + 2])
                } else {
                    old(buffer)@[k]
                },
        decreases pixels - i,
    {
        assert(3 * i + 2 < rgb@.len()) by (nonlinear_arith)
            requires
                i < pixels,
                pixels == n / 3,
                n == rgb@.len(),
        ;
        let w = pack_pixel(rgb[3 * i], rgb[3 * i + 1], rgb[3 * i + 2]);
        buffer.set(i, w);
        i = i + 1;
    }
}

/// How far the camera's clock has moved on from `first` to `now`, in
/// nanoseconds; zero where it went back (`Duration::saturating_sub`).
pub open spec fn clock_advance(first: u128, now: u128) -> u128 {
    if now >= first {
        (now - first) as u128
    } else {
        0
    }
}

/// The camera's clock as the capture thread reads it: the hardware time
/// stamp of the first frame, once one has come.
pub struct CaptureClock {
    pub first_stamp: Option<u128>,
}

impl CaptureClock {
    /// A clock that has seen no frame.
    pub fn new() -> (r: CaptureClock)
        ensures
            r.first_stamp is None,
    {
        CaptureClock { first_stamp: None }
    }

    /// The time of a frame stamped `stamp` by the camera, in nanoseconds after
    /// the arrival of the first frame: the first frame sets the base and is
    /// at zero; a later one is at its stamp's advance over the base.
    pub fn capture_offset(&mut self, stamp: u128) -> (r: u128)
        ensures
            final(self).first_stamp == Some(
                match old(self).first_stamp {
                    Some(b) => b,
                    None => stamp,
                },
            ),
            r == clock_advance(final(self).first_stamp->0, stamp),
    {
        let base = match self.first_stamp {
            Some(b) => b,
            None => {
                self.first_stamp = Some(stamp);
                stamp
            },
        };
        if stamp >= base {
            stamp - base
        } else {
            0
        }
    }
}

} // verus!
