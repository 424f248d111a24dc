//! The layout of the generated test picture that the camera module shows
//! while it is off or starting: six colour bars, a grey ramp along the
//! bottom, and an optional caption.
use vstd::prelude::*;

verus! {

/// Settings of a generated test picture.
pub struct TestFrameGenerator {
    pub w: usize,
    pub h: usize,
    pub q: u8,
    pub text: Option<String>,
}

/// The picture sizes that can be generated.
pub open spec fn size_supported(w: usize, h: usize) -> bool {
    (w == 320 && h == 240) || (w == 640 && h == 480) || (w == 1280 && h == 720) || (w == 1920 && h == 1080)
}

/// Where the parts of a test picture go.
pub struct FrameLayout {
    /// Width of each of the six colour bars, which start at the left edge
    /// side by side.
    pub bar_width: usize,
    /// Height of the colour bars, from the top; the grey ramp fills the
    /// rest.
    pub bar_height: usize,
    /// Grey level of each column of the ramp, left to right.
    pub shades: Vec<u8>,
    /// Point on which the caption is centred.
    pub text_x: usize,
    pub text_y: usize,
}

/// The grey level of column `x` of a ramp `w` columns wide: from 0 at the
/// left edge to 255 at the right edge, rounded down.
pub open spec fn shade(x: int, w: int) -> int {
    (x * 255) / (w - 1)
}

impl TestFrameGenerator {
    /// A picture of `w` by `h` at quality 50, without a caption.
    pub fn new(w: usize, h: usize) -> (r: Self)
        ensures
            r.w == w,
            r.h == h,
            r.q == 50,
            r.text is None,
    {
        TestFrameGenerator { w, h, q: 50, text: None }
    }

    /// The same picture with a caption.
    pub fn with_text(self, text: &str) -> (r: Self)
        ensures
            r.w == self.w,
            r.h == self.h,
            r.q == self.q,
            r.text matches Some(t) && t@ == text@,
    {
        TestFrameGenerator { w: self.w, h: self.h, q: self.q, text: Some(text.to_string()) }
    }

    /// The same picture at JPEG quality `q`.
    pub fn with_q(self, q: u8) -> (r: Self)
        ensures
            r.w == self.w,
            r.h == self.h,
            r.q == q,
            r.text == self.text,
    {
        TestFrameGenerator { w: self.w, h: self.h, q, text: self.text }
    }

    /// Whether this picture size can be generated.
    pub fn supported(&self) -> (r: bool)
        ensures
            r == size_supported(self.w, self.h),
    {
        (self.w == 320 && self.h == 240) || (self.w == 640 && self.h == 480)
            || (self.w == 1280 && self.h == 720) || (self.w == 1920 && self.h == 1080)
    }

    /// Where the bars, the ramp and the caption go.
    pub fn layout(&self) -> (r: FrameLayout)
        requires
            size_supported(self.w, self.h),
        ensures
            r.bar_width == self.w / 7,
            r.bar_height == self.h * 3 / 4,
            r.shades@.len() == self.w,
            forall|x: int| 0 <= x < self.w ==> r.shades@[x] as int == shade(x, self.w as int),
            r.text_x == self.w / 2,
            r.text_y == self.h / 3,
            6 * r.bar_width <= self.w,
            r.bar_height <= self.h,
    {
        let w = self.w;
        let mut shades: Vec<u8> = Vec::with_capacity(w);
        let mut x: usize = 0;
        while x < w
            invariant
                size_supported(w, self.h),
                w == self.w,
                x <= w,
                shades@.len() == x,
                forall|i: int| 0 <= i < x ==> shades@[i] as int == shade(i, w as int),
            decreases w - x,
        {
            assert((x * 255) / (w - 1) <= 255) by (nonlinear_arith)
                requires x < w, w >= 2;
            let g = (x * 255) / (w - 1);
            shades.push(g as u8);
            x = x + 1;
        }
        FrameLayout { bar_width: w / 7, bar_height: self.h * 3 / 4, shades, text_x: w / 2, text_y: self.h / 3 }
    }
}

/// Whether `b` is a JPEG stream from its start-of-image marker to its
/// end-of-image marker.
pub open spec fn jpeg_framed(b: Seq<u8>) -> bool {
    &&& b.len() >= 4
    &&& b[0] == 0xFF && b[1] == 0xD8
    &&& b[b.len() - 2] == 0xFF && b[b.len() - 1] == 0xD9
}

/// The bytes that `jpeg_encoder::Encoder::encode` writes for the RGB pixels
/// `data`, `width` by `height`, at quality `quality`, with the encoder's
/// default tables and sampling.
pub uninterp spec fn jpeg_encoding(data: Seq<u8>, width: u16, height: u16, quality: u8) -> Seq<u8>;

/// `jpeg_encoder::Encoder::encode` on RGB pixels, `width` by `height`, at
/// quality `quality`, into a new buffer. Its output depends on these
/// arguments alone (named `jpeg_encoding`); the encoder writes the
/// start-of-image marker first and the end-of-image marker last, and fails
/// only for a zero dimension or too few pixel bytes, which the precondition
/// rules out. What it writes between the markers is named, not stated.
#[verifier::external_body]
fn encode_rgb_jpeg(data: &[u8], width: u16, height: u16, quality: u8) -> (r: Vec<u8>)
    requires
        width > 0,
        height > 0,
        data@.len() >= width * height * 3,
    ensures
        r@ == jpeg_encoding(data@, width, height, quality),
        jpeg_framed(r@),
{
    let mut buffer: Vec<u8> = Vec::with_capacity(2048);
    let encoder = jpeg_encoder::Encoder::new(&mut buffer, quality);
    encoder.encode(data, width, height, jpeg_encoder::ColorType::Rgb).unwrap();
    buffer
}

impl TestFrameGenerator {
    /// Encodes the drawn picture, three bytes per pixel row by row, as a JPEG
    /// image at this generator's quality.
    pub fn encode(&self, rgb: &Vec<u8>) -> (r: Vec<u8>)
        requires
            size_supported(self.w, self.h),
            rgb@.len() >= self.w * self.h * 3,
        ensures
            r@ == jpeg_encoding(rgb@, self.w as u16, self.h as u16, self.q),
            jpeg_framed(r@),
    {
        encode_rgb_jpeg(rgb.as_slice(), self.w as u16, self.h as u16, self.q)
    }
}

} // verus!
