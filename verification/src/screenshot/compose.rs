//! Pictures of several outputs put together.

use crate::rounding::lemma_same_size_keeps;
use crate::screenshot::capture::law_cut_out_pixels_are_those_of_the_output;
use crate::screenshot::geometry::{
    magnitude, max, min, saturated, saturating_difference, saturating_sum, unsigned_abs, Rect,
};
use crate::screenshot::picture::{
    blank, can_resize, crop, cropped, fill, fits, overlaid_data, overlay, resize, scale, scaled,
    Picture, PictureView, LONGEST_SIDE,
};
use vstd::prelude::*;

verus! {

/// `v` multiplied with the quotient of `size` and `span` in double precision, without its fraction,
/// from zero up to the largest `u32`. A span of zero makes what is positive as large as can be.
pub open spec fn stretched(v: int, size: int, span: int) -> int {
    if span == 0 {
        if v > 0 && size > 0 {
            u32::MAX as int
        } else {
            0
        }
    } else if (v > 0 && span > 0) || (v < 0 && span < 0) {
        min(scaled(magnitude(v), size, magnitude(span)).floor() as int, u32::MAX as int)
    } else {
        0
    }
}

/// `v` multiplied with the quotient of `size` and `span` in double precision, without its fraction,
/// from zero up to the largest `u32`.
fn stretch(v: i32, size: u32, span: i32) -> (r: u32)
    ensures
        r == stretched(v as int, size as int, span as int),
{
    if span == 0 {
        if v > 0 && size > 0 {
            u32::MAX
        } else {
            0
        }
    } else if (v > 0 && span > 0) || (v < 0 && span < 0) {
        scale(unsigned_abs(v), size, unsigned_abs(span)).floor_u32()
    } else {
        0
    }
}

/// A picture of an output with the rectangle that the output takes.
#[derive(Debug)]
pub struct Frame {
    pub picture: Picture,
    pub rect: Rect,
}

impl Frame {
    /// The data hold exactly the pixels, and width and height of the rectangle are numbers.
    pub open spec fn wf(self) -> bool {
        &&& self.picture.wf()
        &&& i32::MIN <= self.rect.spec_width() <= i32::MAX
        &&& i32::MIN <= self.rect.spec_height() <= i32::MAX
    }

    /// The picture has the size of the rectangle.
    pub open spec fn has_size_of_rect(self) -> bool {
        &&& self.picture.width == self.rect.spec_width()
        &&& self.picture.height == self.rect.spec_height()
    }

    /// The rectangle is upright, and the picture has its size or can be brought to it.
    pub open spec fn can_fill_rect(self) -> bool {
        &&& 0 <= self.rect.spec_width()
        &&& 0 <= self.rect.spec_height()
        &&& self.has_size_of_rect() || can_resize(
            self.picture.width,
            self.picture.height,
            self.rect.spec_width(),
            self.rect.spec_height(),
        )
    }
}

/// A width or height of a rectangle: not below zero.
pub open spec fn extent(from: i32, to: i32) -> int {
    max(saturated(to - from), 0)
}

/// The pictures of frames with their rectangles.
pub open spec fn frame_views(frames: Seq<Frame>) -> Seq<(PictureView, Rect)> {
    frames.map_values(|frame: Frame| (frame.picture@, frame.rect))
}

/// Whether a picture is that of a frame brought to the size of its rectangle; it is the same where it
/// has that size.
pub open spec fn is_fitted(top: PictureView, frame: Frame) -> bool {
    &&& top.wf()
    &&& top.width == frame.rect.spec_width()
    &&& top.height == frame.rect.spec_height()
    &&& frame.has_size_of_rect() ==> top == frame.picture@
}

/// Whether pictures are those of frames brought to the sizes of their rectangles.
pub open spec fn are_fitted(tops: Seq<(PictureView, Rect)>, frames: Seq<Frame>) -> bool {
    &&& tops.len() == frames.len()
    &&& forall|i: int|
        0 <= i < tops.len() ==> is_fitted((#[trigger] tops[i]).0, frames[i]) && tops[i].1
            == frames[i].rect
}

/// A picture with another one laid on it where a rectangle lies in the bounds.
pub open spec fn laid(p: PictureView, top: PictureView, rect: Rect, bounds: Rect) -> PictureView {
    PictureView {
        width: p.width,
        height: p.height,
        data: overlaid_data(
            p.width,
            p.height,
            p.data,
            top.width,
            top.height,
            top.data,
            (rect.left - bounds.left) as i64,
            (rect.top - bounds.top) as i64,
        ),
    }
}

/// The bounds with pictures laid on them, one after the other, each where its rectangle lies.
pub open spec fn layered(bounds: Rect, tops: Seq<(PictureView, Rect)>) -> PictureView
    decreases tops.len(),
{
    if tops.len() == 0 {
        blank(
            extent(bounds.left, bounds.right) as u32,
            extent(bounds.top, bounds.bottom) as u32,
        )
    } else {
        laid(layered(bounds, tops.drop_last()), tops.last().0, tops.last().1, bounds)
    }
}

/// What of a single frame lies in the bounds, in pixels of the frame.
pub open spec fn single(bounds: Rect, frame: Frame) -> PictureView {
    let p = frame.picture@;
    cropped(
        p,
        stretched(bounds.left - frame.rect.left, p.width as int, frame.rect.spec_width()) as u32,
        stretched(bounds.top - frame.rect.top, p.height as int, frame.rect.spec_height()) as u32,
        stretched(bounds.spec_width(), p.width as int, frame.rect.spec_width()) as u32,
        stretched(bounds.spec_height(), p.height as int, frame.rect.spec_height()) as u32,
    )
}

/// Whether a picture is that of the bounds: a single frame is cut in its own resolution, several are
/// brought to logical size and laid on each other in order.
pub open spec fn is_combined(p: PictureView, bounds: Rect, frames: Seq<Frame>) -> bool {
    if frames.len() == 1 {
        p == single(bounds, frames[0])
    } else {
        exists|tops: Seq<(PictureView, Rect)>| #[trigger]
            are_fitted(tops, frames) && p == layered(bounds, tops)
    }
}

/// Whether the picture of the bounds can be made.
pub open spec fn can_combine(bounds: Rect, frames: Seq<Frame>) -> bool {
    &&& forall|i: int| 0 <= i < frames.len() ==> (#[trigger] frames[i]).wf()
    &&& if frames.len() == 1 {
        &&& i32::MIN <= bounds.spec_width() <= i32::MAX
        &&& i32::MIN <= bounds.spec_height() <= i32::MAX
        &&& i32::MIN <= bounds.left - frames[0].rect.left <= i32::MAX
        &&& i32::MIN <= bounds.top - frames[0].rect.top <= i32::MAX
    } else {
        &&& fits(extent(bounds.left, bounds.right), extent(bounds.top, bounds.bottom))
        &&& forall|i: int| 0 <= i < frames.len() ==> (#[trigger] frames[i]).can_fill_rect()
    }
}

/// What of a single frame lies in the bounds.
fn cut_single(bounds: Rect, frame: &Frame) -> (r: Picture)
    requires
        frame.wf(),
        i32::MIN <= bounds.spec_width() <= i32::MAX,
        i32::MIN <= bounds.spec_height() <= i32::MAX,
        i32::MIN <= bounds.left - frame.rect.left <= i32::MAX,
        i32::MIN <= bounds.top - frame.rect.top <= i32::MAX,
    ensures
        r@ == single(bounds, *frame),
        r.wf(),
{
    let rect_width: i32 = frame.rect.width();
    let rect_height: i32 = frame.rect.height();
    let width: u32 = stretch(bounds.width(), frame.picture.width, rect_width);
    let height: u32 = stretch(bounds.height(), frame.picture.height, rect_height);
    let x: u32 = stretch(bounds.left - frame.rect.left, frame.picture.width, rect_width);
    let y: u32 = stretch(bounds.top - frame.rect.top, frame.picture.height, rect_height);
    crop(&frame.picture, x, y, width, height)
}

/// A width or height of a rectangle: not below zero.
fn measure(from: i32, to: i32) -> (r: u32)
    ensures
        r == extent(from, to),
{
    let n: i32 = saturating_difference(to, from);
    if n > 0 {
        n as u32
    } else {
        0
    }
}

/// The picture of a frame, brought to the size of its rectangle.
fn fit(frame: &Frame) -> (r: Picture)
    requires
        frame.wf(),
        frame.can_fill_rect(),
    ensures
        is_fitted(r@, *frame),
{
    let width: u32 = frame.rect.width() as u32;
    let height: u32 = frame.rect.height() as u32;
    if frame.picture.width == width && frame.picture.height == height {
        frame.picture.clone()
    } else {
        resize(&frame.picture, width, height)
    }
}

/// The bounds with pictures laid on them, one after the other, each where its rectangle lies.
pub fn lay_frames(bounds: Rect, tops: &Vec<Frame>) -> (r: Picture)
    requires
        fits(extent(bounds.left, bounds.right), extent(bounds.top, bounds.bottom)),
        forall|i: int| 0 <= i < tops@.len() ==> (#[trigger] tops@[i]).picture.wf(),
    ensures
        r@ == layered(bounds, frame_views(tops@)),
        r.wf(),
{
    let width: u32 = measure(bounds.left, bounds.right);
    let height: u32 = measure(bounds.top, bounds.bottom);
    let mut picture = fill(width, height, 0, 0, 0, 0);
    let mut i: usize = 0;
    let ghost all = frame_views(tops@);
    proof {
        assert(all.take(0) =~= Seq::<(PictureView, Rect)>::empty());
    }
    while i < tops.len()
        invariant
            i <= tops@.len(),
            all == frame_views(tops@),
            forall|j: int| 0 <= j < tops@.len() ==> (#[trigger] tops@[j]).picture.wf(),
            picture.wf(),
            picture@ == layered(bounds, all.take(i as int)),
        decreases tops@.len() - i,
    {
        let top = &tops[i];
        proof {
            assert(all.take(i + 1).drop_last() =~= all.take(i as int));
            assert(all.take(i + 1).last() == (top.picture@, top.rect));
        }
        let x: i64 = top.rect.left as i64 - bounds.left as i64;
        let y: i64 = top.rect.top as i64 - bounds.top as i64;
        picture = overlay(&picture, &top.picture, x, y);
        i = i + 1;
    }
    proof {
        assert(all.take(i as int) =~= all);
    }
    picture
}

/// The picture of the bounds.
pub fn combined_image(bounds: Rect, frames: &Vec<Frame>) -> (r: Picture)
    requires
        can_combine(bounds, frames@),
    ensures
        is_combined(r@, bounds, frames@),
        r.wf(),
{
    if frames.len() == 1 {
        return cut_single(bounds, &frames[0]);
    }
    let mut tops: Vec<Frame> = Vec::new();
    let mut i: usize = 0;
    while i < frames.len()
        invariant
            i <= frames@.len(),
            frames@.len() != 1,
            can_combine(bounds, frames@),
            tops@.len() == i,
            forall|j: int|
                0 <= j < i ==> is_fitted((#[trigger] tops@[j]).picture@, frames@[j])
                    && tops@[j].rect == frames@[j].rect,
        decreases frames@.len() - i,
    {
        tops.push(Frame { picture: fit(&frames[i]), rect: frames[i].rect });
        i = i + 1;
    }
    let picture = lay_frames(bounds, &tops);
    proof {
        assert(are_fitted(frame_views(tops@), frames@));
    }
    picture
}

/// Pictures that have the sizes of their rectangles are laid on each other as they are.
pub proof fn law_fitting_pictures_stay(p: PictureView, bounds: Rect, frames: Seq<Frame>)
    requires
        frames.len() != 1,
        forall|i: int| 0 <= i < frames.len() ==> (#[trigger] frames[i]).has_size_of_rect(),
        is_combined(p, bounds, frames),
    ensures
        p == layered(bounds, frame_views(frames)),
{
    let tops = choose|tops: Seq<(PictureView, Rect)>| #[trigger]
        are_fitted(tops, frames) && p == layered(bounds, tops);
    assert(tops =~= frame_views(frames)) by {
        assert forall|i: int| 0 <= i < tops.len() implies tops[i] == frame_views(frames)[i] by {
            assert(frames[i].has_size_of_rect());
        }
    }
}

/// Whether a picture of this size can be held in memory.
fn size_fits(width: u64, height: u64) -> (r: bool)
    requires
        width <= 0x4_0000_0000,
        height <= 0x1_0000_0000,
    ensures
        r == fits(width as int, height as int),
{
    proof {
        assert(width * height <= 0x4_0000_0000 * 0x1_0000_0000) by (nonlinear_arith)
            requires
                width <= 0x4_0000_0000,
                height <= 0x1_0000_0000,
        ;
    }
    4 * (width as u128 * height as u128) <= isize::MAX as u128
}

/// Whether a difference is a number.
fn difference_fits(a: i32, b: i32) -> (r: bool)
    ensures
        r == (i32::MIN <= a - b <= i32::MAX),
{
    a.checked_sub(b).is_some()
}

/// Whether the width and height of the rectangle of a frame are numbers.
fn has_size(frame: &Frame) -> (r: bool)
    requires
        frame.picture.wf(),
    ensures
        r == frame.wf(),
{
    difference_fits(frame.rect.right, frame.rect.left) && difference_fits(
        frame.rect.bottom,
        frame.rect.top,
    )
}

/// Whether the rectangle of a frame is upright, and the picture can be brought to its size.
fn fills_rect(frame: &Frame) -> (r: bool)
    requires
        frame.wf(),
    ensures
        r == frame.can_fill_rect(),
{
    let width: i32 = frame.rect.width();
    let height: i32 = frame.rect.height();
    if width < 0 || height < 0 {
        return false;
    }
    let picture = &frame.picture;
    if picture.width == width as u32 && picture.height == height as u32 {
        return true;
    }
    size_fits(width as u64, height as u64) && (picture.width == 0 || picture.height == 0 || (
    size_fits(4 * picture.width as u64, height as u64) && picture.width <= LONGEST_SIDE
        && picture.height <= LONGEST_SIDE && width as u32 <= LONGEST_SIDE && height as u32
        <= LONGEST_SIDE))
}

/// Whether the picture of the bounds can be made.
pub fn can_be_combined(bounds: Rect, frames: &Vec<Frame>) -> (r: bool)
    requires
        forall|i: int| 0 <= i < frames@.len() ==> (#[trigger] frames@[i]).picture.wf(),
    ensures
        r == can_combine(bounds, frames@),
{
    let mut i: usize = 0;
    while i < frames.len()
        invariant
            i <= frames@.len(),
            forall|j: int| 0 <= j < frames@.len() ==> (#[trigger] frames@[j]).picture.wf(),
            forall|j: int| 0 <= j < i ==> (#[trigger] frames@[j]).wf(),
            frames@.len() != 1 ==> forall|j: int|
                0 <= j < i ==> (#[trigger] frames@[j]).can_fill_rect(),
        decreases frames@.len() - i,
    {
        if !has_size(&frames[i]) {
            return false;
        }
        if frames.len() != 1 && !fills_rect(&frames[i]) {
            return false;
        }
        i = i + 1;
    }
    if frames.len() == 1 {
        let rect = frames[0].rect;
        difference_fits(bounds.right, bounds.left) && difference_fits(bounds.bottom, bounds.top)
            && difference_fits(bounds.left, rect.left) && difference_fits(bounds.top, rect.top)
    } else {
        size_fits(
            measure(bounds.left, bounds.right) as u64,
            measure(bounds.top, bounds.bottom) as u64,
        )
    }
}

/// The rectangle of an output. What lies beyond the numbers is cut off.
pub open spec fn output_rect(position: (i32, i32), size: (i32, i32)) -> Rect {
    Rect {
        left: position.0,
        top: position.1,
        right: saturated(position.0 + size.0) as i32,
        bottom: saturated(position.1 + size.1) as i32,
    }
}

/// The rectangle of an output.
pub fn rect_of_output(position: (i32, i32), size: (i32, i32)) -> (r: Rect)
    ensures
        r == output_rect(position, size),
{
    Rect {
        left: position.0,
        top: position.1,
        right: saturating_sum(position.0, size.0),
        bottom: saturating_sum(position.1, size.1),
    }
}

/// The smallest rectangle that holds all of the rectangles; an empty one where there are none.
pub open spec fn bounds_of(rects: Seq<Rect>) -> Rect
    decreases rects.len(),
{
    if rects.len() == 0 {
        Rect { left: 0, top: 0, right: 0, bottom: 0 }
    } else if rects.len() == 1 {
        rects[0]
    } else {
        bounds_of(rects.drop_last()).union(rects.last())
    }
}

/// The smallest rectangle that holds all of the rectangles.
pub fn union_bounds(rects: &Vec<Rect>) -> (r: Rect)
    ensures
        r == bounds_of(rects@),
{
    if rects.len() == 0 {
        return Rect::default();
    }
    let mut bounds = rects[0];
    let mut i: usize = 1;
    proof {
        assert(rects@.take(1).len() == 1);
        assert(rects@.take(1)[0] == rects@[0]);
    }
    while i < rects.len()
        invariant
            1 <= i <= rects@.len(),
            bounds == bounds_of(rects@.take(i as int)),
        decreases rects@.len() - i,
    {
        proof {
            assert(rects@.take(i + 1).drop_last() =~= rects@.take(i as int));
            assert(rects@.take(i + 1).last() == rects@[i as int]);
        }
        bounds = bounds.joined(rects[i]);
        i = i + 1;
    }
    proof {
        assert(rects@.take(rects@.len() as int) =~= rects@);
    }
    bounds
}

/// Every rectangle lies in the bounds of all of them.
pub proof fn law_bounds_hold_all(rects: Seq<Rect>, i: int)
    requires
        0 <= i < rects.len(),
    ensures
        bounds_of(rects).left <= rects[i].left,
        bounds_of(rects).top <= rects[i].top,
        rects[i].right <= bounds_of(rects).right,
        rects[i].bottom <= bounds_of(rects).bottom,
    decreases rects.len(),
{
    if rects.len() > 1 && i < rects.len() - 1 {
        law_bounds_hold_all(rects.drop_last(), i);
        assert(rects.drop_last()[i] == rects[i]);
    }
}

/// A size times the quotient of a span and the same span is the size.
proof fn lemma_stretched_by_one(v: int, size: int)
    requires
        0 <= v <= size <= u32::MAX,
        size > 0,
    ensures
        stretched(v, size, size) == v,
{
    lemma_same_size_keeps(v as nat, size as nat);
}

/// A rectangle that lies on one output is captured pixel by pixel: the picture has the size of the
/// rectangle, and each of its pixels is the pixel of the output at the same place of the desktop.
pub proof fn law_rectangle_on_one_output_is_captured_pixel_by_pixel(
    p: PictureView,
    bounds: Rect,
    frame: Frame,
    x: int,
    y: int,
    channel: int,
)
    requires
        is_combined(p, bounds, seq![frame]),
        frame.has_size_of_rect(),
        frame.rect.left <= bounds.left <= x < bounds.right <= frame.rect.right,
        frame.rect.top <= bounds.top <= y < bounds.bottom <= frame.rect.bottom,
        0 <= channel < 4,
    ensures
        p.width == bounds.right - bounds.left,
        p.height == bounds.bottom - bounds.top,
        p.data[4 * ((y - bounds.top) * p.width + (x - bounds.left)) + channel]
            == frame.picture@.data[4 * ((y - frame.rect.top) * frame.picture@.width + (x
            - frame.rect.left)) + channel],
{
    let whole = frame.picture@;
    assert(seq![frame][0] == frame);
    let (w, h) = (bounds.right - bounds.left, bounds.bottom - bounds.top);
    let (left, top) = (bounds.left - frame.rect.left, bounds.top - frame.rect.top);
    lemma_stretched_by_one(left, whole.width as int);
    lemma_stretched_by_one(top, whole.height as int);
    lemma_stretched_by_one(w, whole.width as int);
    lemma_stretched_by_one(h, whole.height as int);
    law_cut_out_pixels_are_those_of_the_output(
        whole,
        left as u32,
        top as u32,
        w as u32,
        h as u32,
        x - bounds.left,
        y - bounds.top,
        channel,
    );
}

} // verus!
