//! Pictures: rows of pixels, each of which is four bytes for red, green, blue and opacity.

use crate::rounding::{lemma_of, lemma_over, lemma_times, lemma_worth, unit, Float, DOUBLE, SINGLE};
use crate::screenshot::geometry::{max, min, Rect};
use vstd::prelude::*;

verus! {

/// A picture.
#[derive(Debug, PartialEq, Eq)]
pub struct Picture {
    pub width: u32,
    pub height: u32,
    pub data: Vec<u8>,
}

/// A picture, as a value.
pub struct PictureView {
    pub width: u32,
    pub height: u32,
    pub data: Seq<u8>,
}

impl View for Picture {
    type V = PictureView;

    open spec fn view(&self) -> PictureView {
        PictureView { width: self.width, height: self.height, data: self.data@ }
    }
}

/// How many bytes the pixels of a picture take.
pub open spec fn byte_len(width: int, height: int) -> int {
    4 * (width * height)
}

/// Whether a picture of this size can be held in memory.
pub open spec fn fits(width: int, height: int) -> bool {
    byte_len(width, height) <= isize::MAX
}

impl PictureView {
    /// The data hold exactly the pixels.
    pub open spec fn wf(self) -> bool {
        self.data.len() == byte_len(self.width as int, self.height as int)
    }
}

impl Picture {
    /// The data hold exactly the pixels.
    pub open spec fn wf(&self) -> bool {
        self@.wf()
    }
}

impl Clone for Picture {
    fn clone(&self) -> (r: Self)
        ensures
            r@ == self@,
    {
        let data = self.data.clone();
        proof {
            assert(data@ =~= self.data@);
        }
        Picture { width: self.width, height: self.height, data }
    }
}

/// A picture in which all pixels are the same.
pub open spec fn filled(width: u32, height: u32, pixel: Seq<u8>) -> PictureView {
    PictureView {
        width,
        height,
        data: Seq::new(
            byte_len(width as int, height as int) as nat,
            |i: int| pixel[i % 4],
        ),
    }
}

/// A picture in which all pixels are transparent black.
pub open spec fn blank(width: u32, height: u32) -> PictureView {
    filled(width, height, seq![0u8, 0u8, 0u8, 0u8])
}

/// How many bytes the pixels of a picture take.
fn count_bytes(width: u32, height: u32) -> (r: usize)
    requires
        fits(width as int, height as int),
    ensures
        r == byte_len(width as int, height as int),
{
    proof {
        assert(0 <= width * height) by (nonlinear_arith);
    }
    if width == 0 || height == 0 {
        proof {
            assert(width * height == 0) by (nonlinear_arith)
                requires
                    width == 0 || height == 0,
            ;
        }
        0
    } else {
        proof {
            assert(width <= width * height) by (nonlinear_arith)
                requires
                    height >= 1,
                    width >= 0,
            ;
            assert(height <= width * height) by (nonlinear_arith)
                requires
                    width >= 1,
                    height >= 0,
            ;
        }
        4 * (width as usize * height as usize)
    }
}

/// A picture in which all pixels are the same.
pub fn fill(width: u32, height: u32, red: u8, green: u8, blue: u8, opacity: u8) -> (r: Picture)
    requires
        fits(width as int, height as int),
    ensures
        r@ == filled(width, height, seq![red, green, blue, opacity]),
        r.wf(),
{
    let n: usize = count_bytes(width, height);
    let ghost pixel = seq![red, green, blue, opacity];
    let mut data: Vec<u8> = Vec::new();
    while data.len() < n
        invariant
            n == byte_len(width as int, height as int),
            n <= isize::MAX,
            data@.len() <= n,
            data@.len() % 4 == 0,
            pixel == seq![red, green, blue, opacity],
            forall|i: int| 0 <= i < data@.len() ==> data@[i] == pixel[i % 4],
        decreases n - data@.len(),
    {
        data.push(red);
        data.push(green);
        data.push(blue);
        data.push(opacity);
    }
    let r = Picture { width, height, data };
    proof {
        assert(r@.data =~= filled(width, height, pixel).data);
    }
    r
}

/// The part of a picture that lies in a frame. What of the frame lies beyond the picture is cut off.
pub open spec fn cropped(p: PictureView, x: u32, y: u32, width: u32, height: u32) -> PictureView {
    let x0 = min(x as int, p.width as int);
    let y0 = min(y as int, p.height as int);
    let w = min(width as int, p.width - x0);
    let h = min(height as int, p.height - y0);
    PictureView {
        width: w as u32,
        height: h as u32,
        data: Seq::new(
            byte_len(w, h) as nat,
            |i: int| p.data[4 * ((y0 + i / (4 * w)) * p.width + x0) + i % (4 * w)],
        ),
    }
}

/// The part of a picture that lies in a frame. It is what `image::imageops::crop_imm` gives of the
/// picture, made a picture of its own by `SubImage::to_image`: the frame is moved and cut down to
/// the picture, and its pixels are copied row by row.
#[verifier::external_body]
pub(crate) fn crop(p: &Picture, x: u32, y: u32, width: u32, height: u32) -> (r: Picture)
    requires
        p.wf(),
    ensures
        r@ == cropped(p@, x, y, width, height),
        r.wf(),
{
    let source = image::RgbaImage::from_raw(p.width, p.height, p.data.clone()).unwrap();
    let out = image::imageops::crop_imm(&source, x, y, width, height).to_image();
    Picture { width: out.width(), height: out.height(), data: out.into_raw() }
}

/// The longest side for which the filter that brings pictures to another size finds its pixels: it
/// counts them in numbers with 24 binary digits.
pub const LONGEST_SIDE: u32 = 0x40_0000;

/// Whether a picture can be brought to another size: the result and the picture between the two
/// passes of the filter fit into memory, and no side is too long for the filter.
pub open spec fn can_resize(width: u32, height: u32, new_width: int, new_height: int) -> bool {
    &&& fits(new_width, new_height)
    &&& width == 0 || height == 0 || {
        &&& fits(4 * width, new_height)
        &&& width <= LONGEST_SIDE
        &&& height <= LONGEST_SIDE
        &&& new_width <= LONGEST_SIDE
        &&& new_height <= LONGEST_SIDE
    }
}

/// A picture brought to another size by `image::imageops::resize` with the filter `Lanczos3`. The
/// result has the size that was asked for. Nothing is said of its pixels: the filter takes the sine
/// of numbers, and how exactly that is computed depends on the machine. With sides up to the longest
/// one every pixel has a neighbour that the filter counts, so that the sum of the weights, by which
/// it divides, is not zero.
#[verifier::external_body]
pub(crate) fn resize(p: &Picture, new_width: u32, new_height: u32) -> (r: Picture)
    requires
        p.wf(),
        can_resize(p.width, p.height, new_width as int, new_height as int),
    ensures
        r.width == new_width,
        r.height == new_height,
        r.wf(),
{
    let source = image::RgbaImage::from_raw(p.width, p.height, p.data.clone()).unwrap();
    let filter = image::imageops::FilterType::Lanczos3;
    let out = image::imageops::resize(&source, new_width, new_height, filter);
    Picture { width: out.width(), height: out.height(), data: out.into_raw() }
}

/// The bytes of a picture on which another one was laid at a position.
pub uninterp spec fn overlaid_data(
    width: u32,
    height: u32,
    data: Seq<u8>,
    top_width: u32,
    top_height: u32,
    top_data: Seq<u8>,
    x: i64,
    y: i64,
) -> Seq<u8>;

/// A picture on which another one was laid by `image::imageops::overlay`. The size stays, and the
/// bytes depend on the two pictures and the position alone.
#[verifier::external_body]
pub(crate) fn overlay(bottom: &Picture, top: &Picture, x: i64, y: i64) -> (r: Picture)
    requires
        bottom.wf(),
        top.wf(),
    ensures
        r.width == bottom.width,
        r.height == bottom.height,
        r.data@ == overlaid_data(
            bottom.width,
            bottom.height,
            bottom.data@,
            top.width,
            top.height,
            top.data@,
            x,
            y,
        ),
        r.wf(),
{
    let clone = bottom.data.clone();
    let mut out = image::RgbaImage::from_raw(bottom.width, bottom.height, clone).unwrap();
    let upper = image::RgbaImage::from_raw(top.width, top.height, top.data.clone()).unwrap();
    image::imageops::overlay(&mut out, &upper, x, y);
    Picture { width: out.width(), height: out.height(), data: out.into_raw() }
}

/// The file that holds a picture in the PNG format, if there is one.
pub uninterp spec fn png_file(width: u32, height: u32, data: Seq<u8>) -> Option<Seq<u8>>;

/// The file that holds a picture in the PNG format, written by `png::Encoder` with its default
/// options, four channels and eight bits. It depends on the picture alone, and there is none for a
/// picture without pixels.
#[verifier::external_body]
pub(crate) fn encode_png(p: &Picture) -> (r: Option<Vec<u8>>)
    requires
        p.wf(),
    ensures
        match r {
            Some(bytes) => png_file(p.width, p.height, p.data@) == Some(bytes@),
            None => png_file(p.width, p.height, p.data@) is None,
        },
        p.width == 0 || p.height == 0 ==> r is None,
{
    let mut bytes = Vec::new();
    let mut encoder = png::Encoder::new(&mut bytes, p.width, p.height);
    encoder.set_color(png::ColorType::Rgba);
    encoder.set_depth(png::BitDepth::Eight);
    let mut writer = encoder.write_header().ok()?;
    writer.write_image_data(&p.data).ok()?;
    writer.finish().ok()?;
    Some(bytes)
}

/// The picture as a PNG file; none for a picture without pixels.
pub fn write_png(p: &Picture) -> (r: Option<Vec<u8>>)
    requires
        p.wf(),
    ensures
        match r {
            Some(bytes) => png_file(p.width, p.height, p.data@) == Some(bytes@),
            None => png_file(p.width, p.height, p.data@) is None,
        },
        p.width == 0 || p.height == 0 ==> r is None,
{
    encode_png(p)
}

/// How far something is made smaller so that its longest side is at most 640: a factor in single
/// precision.
pub open spec fn shrinking(longest: int) -> Float {
    let scale = Float::of(640, 24).over(Float::of(longest as nat, 24), 24);
    if scale.at_least(1) {
        Float::of(1, 24)
    } else {
        scale
    }
}

/// The width or height of the picture that stands for a window or output of a size: of the same
/// shape and at most 640, in single precision.
pub open spec fn placeholder_side(side: int, longest: int) -> int {
    max(Float::of(side as nat, 24).times(shrinking(longest), 24).half_up() as int, 1)
}

/// The size of the picture that stands for something of a size.
pub open spec fn placeholder_size(width: u32, height: u32) -> (int, int) {
    let w = max(width as int, 1);
    let h = max(height as int, 1);
    (placeholder_side(w, max(w, h)), placeholder_side(h, max(w, h)))
}

/// What comes out of four roundings of a quotient that is at most 640 is less than half above it.
proof fn lemma_roundings(q: nat, s: nat, l: nat, w: nat, six: nat, long: nat, side: nat, t: nat)
    requires
        0 < side <= long,
        t > 0,
        l * 0x100_0000 >= long * t * 0xff_ffff,
        s * l * 0x100_0000 <= six * t * 0x100_0001,
        six * 0x100_0000 <= 640 * t * 0x100_0001,
        w * 0x100_0000 <= side * t * 0x100_0001,
        q * t * 0x100_0000 <= w * s * 0x100_0001,
    ensures
        2 * q < 1281 * t,
{
    let u: nat = 0x100_0000;
    let v: nat = 0x100_0001;
    // The quotient with the longest side, in terms of what is exact.
    let sl = s * l;
    assert(sl * u * u <= 640 * t * t * v * v) by (nonlinear_arith)
        requires
            sl * u <= six * t * v,
            six * u <= 640 * t * v,
            u == 0x100_0000,
            v == 0x100_0001,
            t > 0,
    ;
    // The product, multiplied with the longest side.
    let ql = q * l;
    assert(ql * t * u <= (w * sl) * v) by (nonlinear_arith)
        requires
            q * t * u <= w * s * v,
            ql == q * l,
            sl == s * l,
    ;
    assert((w * sl) * u * u * u <= (side * t * v) * (640 * t * t * v * v)) by (nonlinear_arith)
        requires
            w * u <= side * t * v,
            sl * u * u <= 640 * t * t * v * v,
            u > 0,
    ;
    let cube = t * t * t;
    assert((side * t * v) * (640 * t * t * v * v) == 640 * side * cube * (v * v * v))
        by (nonlinear_arith)
        requires
            cube == t * t * t,
    ;
    assert(ql * t * u * (u * u * u) <= 640 * side * cube * (v * v * v) * v) by (nonlinear_arith)
        requires
            ql * t * u <= (w * sl) * v,
            (w * sl) * u * u * u <= 640 * side * cube * (v * v * v),
            u > 0,
            v > 0,
    ;
    // The longest side, as it came out, is hardly shorter than it is.
    assert(ql * u >= q * long * t * 0xff_ffff) by (nonlinear_arith)
        requires
            ql == q * l,
            l * u >= long * t * 0xff_ffff,
    ;
    assert(q * long * t * 0xff_ffff * t * (u * u * u) <= ql * t * u * (u * u * u))
        by (nonlinear_arith)
        requires
            ql * u >= q * long * t * 0xff_ffff,
            t > 0,
            u > 0,
    ;
    assert(640 * side * cube * (v * v * v) * v <= 640 * long * cube * (v * v * v) * v)
        by (nonlinear_arith)
        requires
            side <= long,
            v > 0,
    ;
    let area = long * t * t;
    assert(area > 0) by (nonlinear_arith)
        requires
            area == long * t * t,
            long > 0,
            t > 0,
    ;
    let (few, many) = (u * u * u, v * v * v);
    assert(area * (q * 0xff_ffff * few) == q * long * t * 0xff_ffff * t * few) by (nonlinear_arith)
        requires
            area == long * t * t,
    ;
    assert(area * (640 * t * many * v) == 640 * long * cube * many * v) by (nonlinear_arith)
        requires
            area == long * t * t,
            cube == t * t * t,
    ;
    assert(q * 0xff_ffff * (u * u * u) <= 640 * t * (v * v * v) * v) by (nonlinear_arith)
        requires
            area * (q * 0xff_ffff * (u * u * u)) <= area * (640 * t * (v * v * v) * v),
            area > 0,
    ;
    assert(2 * q < 1281 * t) by (nonlinear_arith)
        requires
            q * 0xff_ffff * (u * u * u) <= 640 * t * (v * v * v) * v,
            u == 0x100_0000,
            v == 0x100_0001,
            t > 0,
    ;
}

/// A side that is made smaller is at most 640.
proof fn lemma_placeholder_side(side: nat, longest: nat)
    requires
        0 < side <= longest <= u32::MAX,
    ensures
        Float::of(side, 24).times(shrinking(longest as int), 24).half_up() <= 640,
        shrinking(longest as int).mantissa > 0,
        shrinking(longest as int).within(500),
{
    vstd::arithmetic::power2::lemma2_to64();
    lemma_of(640, 24);
    lemma_of(1, 24);
    lemma_of(side, 24);
    lemma_of(longest, 24);
    let (six, l, w) = (Float::of(640, 24), Float::of(longest, 24), Float::of(side, 24));
    lemma_over(six, l, 24);
    let scale = six.over(l, 24);
    let s = shrinking(longest as int);
    lemma_worth(scale, 1);
    lemma_times(w, s, 24);
    let q = w.times(s, 24);
    lemma_worth(q, 640);
    let t = unit();
    vstd::arithmetic::power2::lemma_pow2_pos(2000);
    if scale.at_least(1) {
        lemma_unscaled(
            q.worth(),
            s.worth(),
            l.worth(),
            w.worth(),
            six.worth(),
            scale.worth(),
            longest,
            side,
            t,
        );
    } else {
        lemma_roundings(
            q.worth(),
            s.worth(),
            l.worth(),
            w.worth(),
            six.worth(),
            longest,
            side,
            t,
        );
    }
}

/// What is not made smaller was at most 640.
proof fn lemma_unscaled(
    q: nat,
    one: nat,
    l: nat,
    w: nat,
    six: nat,
    scale: nat,
    long: nat,
    side: nat,
    t: nat,
)
    requires
        0 < side <= long,
        t > 0,
        scale >= t,
        l * 0x100_0000 >= long * t * 0xff_ffff,
        scale * l * 0x100_0000 <= six * t * 0x100_0001,
        six * 0x100_0000 <= 640 * t * 0x100_0001,
        w * 0x100_0000 <= side * t * 0x100_0001,
        one * 0x100_0000 <= t * 0x100_0001,
        q * t * 0x100_0000 <= w * one * 0x100_0001,
    ensures
        2 * q < 1281 * t,
{
    let u: nat = 0x100_0000;
    let v: nat = 0x100_0001;
    assert(l * u <= six * v) by (nonlinear_arith)
        requires
            scale >= t,
            t > 0,
            scale * l * u <= six * t * v,
    ;
    assert(long * 0xff_ffff * u <= 640 * v * v) by (nonlinear_arith)
        requires
            l * u >= long * t * 0xff_ffff,
            l * u <= six * v,
            six * u <= 640 * t * v,
            t > 0,
            u > 0,
            v > 0,
    ;
    assert(long <= 640);
    assert(q * u * u * u <= side * t * v * v * v) by (nonlinear_arith)
        requires
            q * t * u <= w * one * v,
            w * u <= side * t * v,
            one * u <= t * v,
            t > 0,
            u > 0,
            v > 0,
    ;
    assert(side * t * v * v * v <= 640 * t * (v * v * v)) by (nonlinear_arith)
        requires
            side <= 640,
            t > 0,
    ;
    assert(q * (u * u * u) == q * u * u * u) by (nonlinear_arith);
    assert(2 * q < 1281 * t) by (nonlinear_arith)
        requires
            q * (u * u * u) <= 640 * t * (v * v * v),
            u == 0x100_0000,
            v == 0x100_0001,
            t > 0,
    ;
}

/// One side of the picture that stands for something of a size.
fn shrink_side(side: u32, longest: u32) -> (r: u32)
    requires
        1 <= side <= longest,
    ensures
        r == placeholder_side(side as int, longest as int),
        1 <= r <= 640,
{
    proof {
        vstd::arithmetic::power2::lemma2_to64();
        lemma_of(640, 24);
        lemma_of(longest as nat, 24);
        lemma_of(side as nat, 24);
        lemma_placeholder_side(side as nat, longest as nat);
    }
    let whole = Float::from_whole(640, SINGLE);
    let full = Float::from_whole(longest as u64, SINGLE);
    let scale = whole.divide(&full, SINGLE);
    let scale = if scale.is_at_least(1) {
        Float::from_whole(1, SINGLE)
    } else {
        scale
    };
    let n: u32 = Float::from_whole(side as u64, SINGLE).multiply(&scale, SINGLE).half_up_u32();
    if n > 1 {
        n
    } else {
        1
    }
}

/// The picture that stands for a window or output of a size: grey, of the same shape, and at most
/// 640 pixels wide and high.
pub fn placeholder(width: u32, height: u32) -> (r: Picture)
    ensures
        r.width == placeholder_size(width, height).0,
        r.height == placeholder_size(width, height).1,
        r@ == filled(r.width, r.height, seq![38u8, 38u8, 38u8, 255u8]),
        r.wf(),
        1 <= r.width <= 640,
        1 <= r.height <= 640,
{
    let w: u32 = if width > 1 {
        width
    } else {
        1
    };
    let h: u32 = if height > 1 {
        height
    } else {
        1
    };
    let longest: u32 = if w > h {
        w
    } else {
        h
    };
    let small_w: u32 = shrink_side(w, longest);
    let small_h: u32 = shrink_side(h, longest);
    proof {
        assert(small_w * small_h <= 640 * 640) by (nonlinear_arith)
            requires
                small_w <= 640,
                small_h <= 640,
        ;
    }
    fill(small_w, small_h, 38, 38, 38, 255)
}

/// A coordinate multiplied with the quotient of two sizes, in double precision.
pub open spec fn scaled(v: int, size: int, span: int) -> Float {
    Float::of(v as nat, 53).times(
        Float::of(size as nat, 53).over(Float::of(span as nat, 53), 53),
        53,
    )
}

/// A coordinate multiplied with the quotient of two sizes, in double precision.
pub(crate) fn scale(v: u32, size: u32, span: u32) -> (r: Float)
    requires
        span > 0,
    ensures
        r == scaled(v as int, size as int, span as int),
        r.within(1000),
{
    proof {
        vstd::arithmetic::power2::lemma2_to64_rest();
        lemma_of(span as nat, 53);
    }
    let quotient = Float::from_whole(size as u64, DOUBLE).divide(
        &Float::from_whole(span as u64, DOUBLE),
        DOUBLE,
    );
    Float::from_whole(v as u64, DOUBLE).multiply(&quotient, DOUBLE)
}

/// The coordinate at or before which a logical coordinate lies.
pub open spec fn scaled_down(v: int, size: int, logical: int) -> int {
    min(scaled(v, size, logical).floor() as int, u32::MAX as int)
}

/// The coordinate at or behind which a logical coordinate lies, but not beyond the size.
pub open spec fn scaled_up(v: int, size: int, logical: int) -> int {
    min(scaled(v, size, logical).ceiling() as int, size)
}

/// The coordinate at or before which a logical coordinate lies.
fn scale_down(v: i32, size: u32, logical: i32) -> (r: u32)
    requires
        0 <= v <= logical,
        logical > 0,
    ensures
        r == scaled_down(v as int, size as int, logical as int),
{
    scale(v as u32, size, logical as u32).floor_u32()
}

/// The coordinate at or behind which a logical coordinate lies, but not beyond the size.
fn scale_up(v: i32, size: u32, logical: i32) -> (r: u32)
    requires
        0 <= v <= logical,
        logical > 0,
    ensures
        r == scaled_up(v as int, size as int, logical as int),
        r <= size,
{
    let n: u32 = scale(v as u32, size, logical as u32).ceiling_u32();
    if n < size {
        n
    } else {
        size
    }
}

/// The part of the picture of an output that shows a rectangle: left, top, width and height in
/// pixels. The edges are moved outwards to whole pixels. There is none where nothing is visible.
pub open spec fn visible_area(
    width: u32,
    height: u32,
    geometry: Rect,
    logical: (i32, i32),
) -> Option<(int, int, int, int)> {
    if logical.0 <= 0 || logical.1 <= 0 || width == 0 || height == 0 {
        None
    } else {
        match geometry.intersection(
            Rect { left: 0, top: 0, right: logical.0, bottom: logical.1 },
        ) {
            Some(visible) => {
                let left = scaled_down(visible.left as int, width as int, logical.0 as int);
                let top = scaled_down(visible.top as int, height as int, logical.1 as int);
                let right = scaled_up(visible.right as int, width as int, logical.0 as int);
                let bottom = scaled_up(visible.bottom as int, height as int, logical.1 as int);
                if left < right && top < bottom {
                    Some((left, top, right - left, bottom - top))
                } else {
                    None
                }
            },
            None => None,
        }
    }
}

/// The part of the picture of an output that shows a rectangle in logical coordinates.
pub fn crop_output_image(p: &Picture, geometry: Rect, logical: (i32, i32)) -> (r: Option<Picture>)
    requires
        p.wf(),
    ensures
        match visible_area(p.width, p.height, geometry, logical) {
            Some((left, top, width, height)) => r matches Some(part) && part@ == cropped(
                p@,
                left as u32,
                top as u32,
                width as u32,
                height as u32,
            ) && part.width == width && part.height == height && part.wf(),
            None => r is None,
        },
{
    if logical.0 <= 0 || logical.1 <= 0 || p.width == 0 || p.height == 0 {
        return None;
    }
    let whole = Rect { left: 0, top: 0, right: logical.0, bottom: logical.1 };
    let visible = match geometry.intersect(whole) {
        Some(visible) => visible,
        None => {
            return None;
        },
    };
    let left: u32 = scale_down(visible.left, p.width, logical.0);
    let top: u32 = scale_down(visible.top, p.height, logical.1);
    let right: u32 = scale_up(visible.right, p.width, logical.0);
    let bottom: u32 = scale_up(visible.bottom, p.height, logical.1);
    if left >= right || top >= bottom {
        return None;
    }
    Some(crop(p, left, top, right - left, bottom - top))
}

} // verus!
