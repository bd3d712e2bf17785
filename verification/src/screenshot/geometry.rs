//! Rectangles and positions on the desktop.

use crate::rounding::{
    lemma_exact, lemma_floor, lemma_of, lemma_over, lemma_times, lemma_whole, lemma_worth, single,
    to_single, unit, Float, SINGLE,
};
use vstd::prelude::*;

verus! {

/// Logical size and position of a rectangle.
#[derive(Debug, Clone, Copy, PartialEq, Eq, Structural)]
pub struct Rect {
    pub left: i32,
    pub top: i32,
    pub right: i32,
    pub bottom: i32,
}

impl Default for Rect {
    fn default() -> (r: Self)
        ensures
            r == (Rect { left: 0, top: 0, right: 0, bottom: 0 }),
    {
        Rect { left: 0, top: 0, right: 0, bottom: 0 }
    }
}

/// A width and a height, neither of which is zero.
#[derive(Debug, Clone, Copy, PartialEq, Eq, Structural)]
pub struct RectDimension {
    pub width: u32,
    pub height: u32,
}

/// A position in logical coordinates, in single precision.
#[derive(Debug, Clone, Copy, PartialEq, Eq, Structural)]
pub struct Point {
    pub x: Float,
    pub y: Float,
}

/// Whether a number is not less than a whole number in single precision.
pub open spec fn reaches(f: Float, n: int) -> bool {
    n <= 0 || f.at_least(single(n) as nat)
}

/// Whether a number is not less than a whole number in single precision.
fn does_reach(f: &Float, n: i32) -> (r: bool)
    ensures
        r == reaches(*f, n as int),
{
    if n <= 0 {
        true
    } else {
        let limit: i64 = to_single(n as i64);
        proof {
            lemma_single_bounds(n as nat);
        }
        f.is_at_least(limit as u32)
    }
}

/// A whole number in single precision is not negative, and not far off.
proof fn lemma_single_bounds(n: nat)
    requires
        0 < n <= i32::MAX,
    ensures
        0 <= single(n as int) <= u32::MAX,
{
    vstd::arithmetic::power2::lemma2_to64();
    lemma_of(n, 24);
    let f = Float::of(n, 24);
    let t = unit();
    vstd::arithmetic::power2::lemma_pow2_pos(2000);
    lemma_floor(f);
    let (w, k) = (f.worth(), f.floor());
    assert(k <= u32::MAX) by (nonlinear_arith)
        requires
            k * t <= w,
            w * 0x100_0000 <= n * t * 0x100_0001,
            n <= 0x7fff_ffff,
            t > 0,
    ;
}

/// The smaller of two numbers.
pub open spec fn min(a: int, b: int) -> int {
    if a < b {
        a
    } else {
        b
    }
}

/// The larger of two numbers.
pub open spec fn max(a: int, b: int) -> int {
    if a > b {
        a
    } else {
        b
    }
}

/// The magnitude of a number.
pub open spec fn magnitude(a: int) -> int {
    if a < 0 {
        -a
    } else {
        a
    }
}

/// The nearest number that is an `i32`.
pub open spec fn saturated(a: int) -> int {
    min(max(a, i32::MIN as int), i32::MAX as int)
}

/// The smaller of two numbers.
pub fn min_i32(a: i32, b: i32) -> (r: i32)
    ensures
        r == min(a as int, b as int),
{
    if a < b {
        a
    } else {
        b
    }
}

/// The larger of two numbers.
pub fn max_i32(a: i32, b: i32) -> (r: i32)
    ensures
        r == max(a as int, b as int),
{
    if a > b {
        a
    } else {
        b
    }
}

/// The sum of two numbers, or the nearest number that is an `i32`.
pub fn saturating_sum(a: i32, b: i32) -> (r: i32)
    ensures
        r == saturated(a + b),
{
    let sum: i64 = a as i64 + b as i64;
    saturate(sum)
}

/// The difference of two numbers, or the nearest number that is an `i32`.
pub fn saturating_difference(a: i32, b: i32) -> (r: i32)
    ensures
        r == saturated(a - b),
{
    let difference: i64 = a as i64 - b as i64;
    saturate(difference)
}

/// The nearest number that is an `i32`.
fn saturate(n: i64) -> (r: i32)
    ensures
        r == saturated(n as int),
{
    if n > 0x7fff_ffff {
        i32::MAX
    } else if n < -0x8000_0000 {
        i32::MIN
    } else {
        n as i32
    }
}

/// The magnitude of a number.
pub fn unsigned_abs(n: i32) -> (r: u32)
    ensures
        r == magnitude(n as int),
{
    if n < 0 {
        (-(n as i64)) as u32
    } else {
        n as u32
    }
}

impl Rect {
    pub open spec fn spec_width(self) -> int {
        self.right - self.left
    }

    pub open spec fn spec_height(self) -> int {
        self.bottom - self.top
    }

    /// Whether a point with integer coordinates lies in the rectangle.
    pub open spec fn has_point(self, x: int, y: int) -> bool {
        self.left <= x < self.right && self.top <= y < self.bottom
    }

    /// The part that two rectangles have in common, if it is not empty.
    pub open spec fn intersection(self, other: Rect) -> Option<Rect> {
        let left = max(self.left as int, other.left as int);
        let top = max(self.top as int, other.top as int);
        let right = min(self.right as int, other.right as int);
        let bottom = min(self.bottom as int, other.bottom as int);
        if left < right && top < bottom {
            Some(
                Rect {
                    left: left as i32,
                    top: top as i32,
                    right: right as i32,
                    bottom: bottom as i32,
                },
            )
        } else {
            None
        }
    }

    /// The smallest rectangle that holds both.
    pub open spec fn union(self, other: Rect) -> Rect {
        Rect {
            left: min(self.left as int, other.left as int) as i32,
            top: min(self.top as int, other.top as int) as i32,
            right: max(self.right as int, other.right as int) as i32,
            bottom: max(self.bottom as int, other.bottom as int) as i32,
        }
    }

    /// The part that two rectangles have in common, if it is not empty.
    pub fn intersect(&self, other: Rect) -> (r: Option<Rect>)
        ensures
            r == self.intersection(other),
    {
        let left: i32 = max_i32(self.left, other.left);
        let top: i32 = max_i32(self.top, other.top);
        let right: i32 = min_i32(self.right, other.right);
        let bottom: i32 = min_i32(self.bottom, other.bottom);
        if left < right && top < bottom {
            Some(Rect { left, top, right, bottom })
        } else {
            None
        }
    }

    /// The smallest rectangle that holds both.
    pub fn joined(&self, other: Rect) -> (r: Rect)
        ensures
            r == self.union(other),
    {
        Rect {
            left: min_i32(self.left, other.left),
            top: min_i32(self.top, other.top),
            right: max_i32(self.right, other.right),
            bottom: max_i32(self.bottom, other.bottom),
        }
    }

    /// The rectangle moved to the right and down.
    pub fn translate(&self, x: i32, y: i32) -> (r: Rect)
        requires
            i32::MIN <= self.left + x <= i32::MAX,
            i32::MIN <= self.right + x <= i32::MAX,
            i32::MIN <= self.top + y <= i32::MAX,
            i32::MIN <= self.bottom + y <= i32::MAX,
        ensures
            r.left == self.left + x,
            r.top == self.top + y,
            r.right == self.right + x,
            r.bottom == self.bottom + y,
    {
        Rect {
            left: self.left + x,
            top: self.top + y,
            right: self.right + x,
            bottom: self.bottom + y,
        }
    }

    /// The width of the rectangle.
    pub fn width(&self) -> (r: i32)
        requires
            i32::MIN <= self.spec_width() <= i32::MAX,
        ensures
            r == self.spec_width(),
    {
        self.right - self.left
    }

    /// The height of the rectangle.
    pub fn height(&self) -> (r: i32)
        requires
            i32::MIN <= self.spec_height() <= i32::MAX,
        ensures
            r == self.spec_height(),
    {
        self.bottom - self.top
    }

    /// Whether a position lies in the rectangle.
    pub open spec fn holds(self, point: Point) -> bool {
        &&& reaches(point.x, self.left as int)
        &&& !reaches(point.x, self.right as int)
        &&& reaches(point.y, self.top as int)
        &&& !reaches(point.y, self.bottom as int)
    }

    /// Whether a position lies in the rectangle.
    pub fn contains(&self, point: Point) -> (r: bool)
        ensures
            r == self.holds(point),
    {
        does_reach(&point.x, self.left) && !does_reach(&point.x, self.right) && does_reach(
            &point.y,
            self.top,
        ) && !does_reach(&point.y, self.bottom)
    }

    /// Width and height without sign, at least one.
    pub fn dimensions_or_default(self) -> (r: (u32, u32))
        ensures
            r.0 == max(magnitude(saturated(self.spec_width())), 1),
            r.1 == max(magnitude(saturated(self.spec_height())), 1),
    {
        let width: u32 = unsigned_abs(saturating_difference(self.right, self.left));
        let height: u32 = unsigned_abs(saturating_difference(self.bottom, self.top));
        (
            if width > 1 {
                width
            } else {
                1
            },
            if height > 1 {
                height
            } else {
                1
            },
        )
    }

    /// Width and height without sign, if neither is zero.
    pub fn dimensions(self) -> (r: Option<RectDimension>)
        requires
            i32::MIN <= self.spec_width() <= i32::MAX,
            i32::MIN <= self.spec_height() <= i32::MAX,
        ensures
            match r {
                Some(d) => {
                    &&& d.width == magnitude(self.spec_width())
                    &&& d.height == magnitude(self.spec_height())
                    &&& d.width > 0
                    &&& d.height > 0
                },
                None => self.spec_width() == 0 || self.spec_height() == 0,
            },
    {
        let width: u32 = unsigned_abs(self.width());
        let height: u32 = unsigned_abs(self.height());
        if width == 0 || height == 0 {
            None
        } else {
            Some(RectDimension { width, height })
        }
    }
}

/// The common part of two rectangles does not depend on their order, and a point lies in it where it
/// lies in both.
pub proof fn law_intersection_is_common_part(a: Rect, b: Rect)
    ensures
        a.intersection(b) == b.intersection(a),
        forall|x: int, y: int|
            (#[trigger] a.has_point(x, y) && b.has_point(x, y)) <==> (a.intersection(b) matches Some(
                c,
            ) && c.has_point(x, y)),
{
}

/// A size and position as the compositor gives it for a window on an output.
#[derive(Debug, Clone, Copy, PartialEq, Eq, Structural)]
pub struct WindowGeometry {
    pub x: i32,
    pub y: i32,
    pub width: i32,
    pub height: i32,
}

/// The rectangle of a window. A width or height below zero reaches to the other side.
pub open spec fn window_rect(g: WindowGeometry) -> Rect {
    let right = saturated(g.x + g.width);
    let bottom = saturated(g.y + g.height);
    Rect {
        left: min(g.x as int, right) as i32,
        top: min(g.y as int, bottom) as i32,
        right: max(g.x as int, right) as i32,
        bottom: max(g.y as int, bottom) as i32,
    }
}

/// The rectangle of a window on an output, if it is there.
pub fn toplevel_geometry(geometry: Option<WindowGeometry>) -> (r: Option<Rect>)
    ensures
        r == match geometry {
            Some(g) => Some(window_rect(g)),
            None => None,
        },
{
    match geometry {
        Some(g) => {
            let right: i32 = saturating_sum(g.x, g.width);
            let bottom: i32 = saturating_sum(g.y, g.height);
            Some(
                Rect {
                    left: min_i32(g.x, right),
                    top: min_i32(g.y, bottom),
                    right: max_i32(g.x, right),
                    bottom: max_i32(g.y, bottom),
                },
            )
        },
        None => None,
    }
}

/// The rectangle of a window is never turned around.
pub proof fn law_window_rect_is_upright(g: WindowGeometry)
    ensures
        window_rect(g).left <= window_rect(g).right,
        window_rect(g).top <= window_rect(g).bottom,
{
}

/// How an output is turned.
#[derive(Debug, Clone, Copy, PartialEq, Eq, Structural)]
pub enum Transform {
    Normal,
    Rotated90,
    Rotated180,
    Rotated270,
    Flipped,
    Flipped90,
    Flipped180,
    Flipped270,
}

impl Transform {
    /// Whether width and height change places.
    pub open spec fn spec_swaps(self) -> bool {
        self == Transform::Rotated90 || self == Transform::Rotated270 || self
            == Transform::Flipped90 || self == Transform::Flipped270
    }

    /// Whether width and height change places.
    pub fn swaps(&self) -> (r: bool)
        ensures
            r == self.spec_swaps(),
    {
        match self {
            Transform::Rotated90 => true,
            Transform::Rotated270 => true,
            Transform::Flipped90 => true,
            Transform::Flipped270 => true,
            _ => false,
        }
    }
}

/// A mode of an output.
#[derive(Debug, Clone, Copy, PartialEq, Eq, Structural)]
pub struct Mode {
    pub width: i32,
    pub height: i32,
    pub current: bool,
}

/// The first mode that is the current one.
pub open spec fn current_mode(modes: Seq<Mode>) -> Option<Mode>
    decreases modes.len(),
{
    if modes.len() == 0 {
        None
    } else if modes[0].current {
        Some(modes[0])
    } else {
        current_mode(modes.drop_first())
    }
}

/// The first mode that is the current one.
fn find_current_mode(modes: &Vec<Mode>) -> (r: Option<Mode>)
    ensures
        r == current_mode(modes@),
{
    let mut i: usize = 0;
    proof {
        assert(modes@.skip(0) =~= modes@);
    }
    while i < modes.len()
        invariant
            i <= modes@.len(),
            current_mode(modes@) == current_mode(modes@.skip(i as int)),
        decreases modes@.len() - i,
    {
        proof {
            assert(modes@.skip(i as int).drop_first() =~= modes@.skip(i + 1));
            assert(modes@.skip(i as int)[0] == modes@[i as int]);
        }
        if modes[i].current {
            return Some(modes[i]);
        }
        i = i + 1;
    }
    None
}

/// The size of what an output shows, in pixels: that of its current mode, turned as the output is.
pub open spec fn output_size(modes: Seq<Mode>, transform: Transform) -> Option<(u32, u32)> {
    match current_mode(modes) {
        Some(mode) => if mode.width >= 0 && mode.height >= 0 {
            if transform.spec_swaps() {
                Some((mode.height as u32, mode.width as u32))
            } else {
                Some((mode.width as u32, mode.height as u32))
            }
        } else {
            None
        },
        None => None,
    }
}

/// The size of what an output shows, in pixels.
pub fn transformed_output_size(modes: &Vec<Mode>, transform: Transform) -> (r: Option<(u32, u32)>)
    ensures
        r == output_size(modes@, transform),
{
    match find_current_mode(modes) {
        Some(mode) => if mode.width >= 0 && mode.height >= 0 {
            if transform.swaps() {
                Some((mode.height as u32, mode.width as u32))
            } else {
                Some((mode.width as u32, mode.height as u32))
            }
        } else {
            None
        },
        None => None,
    }
}

/// A coordinate in a buffer as a logical coordinate, in single precision.
pub open spec fn logical_coordinate(value: nat, buffer: nat, logical: nat) -> Float {
    Float::of(value, 24).times(Float::of(logical, 24), 24).over(Float::of(buffer, 24), 24)
}

/// A coordinate in a buffer as a logical coordinate, in single precision.
fn to_logical(value: u32, buffer: u32, logical: u32) -> (r: Float)
    requires
        buffer > 0,
    ensures
        r == logical_coordinate(value as nat, buffer as nat, logical as nat),
{
    proof {
        vstd::arithmetic::power2::lemma2_to64();
        vstd::arithmetic::power2::lemma2_to64_rest();
        lemma_of(buffer as nat, 24);
    }
    let product = Float::from_whole(value as u64, SINGLE).multiply(
        &Float::from_whole(logical as u64, SINGLE),
        SINGLE,
    );
    product.divide(&Float::from_whole(buffer as u64, SINGLE), SINGLE)
}

/// A position in a buffer, in logical coordinates of its output; none where it lies outside or a
/// size is not positive.
pub open spec fn logical_position(
    position: (i32, i32),
    buffer: (u32, u32),
    logical: (i32, i32),
) -> Option<Point> {
    if 0 <= position.0 < buffer.0 && 0 <= position.1 < buffer.1 && logical.0 > 0 && logical.1 > 0 {
        Some(
            Point {
                x: logical_coordinate(position.0 as nat, buffer.0 as nat, logical.0 as nat),
                y: logical_coordinate(position.1 as nat, buffer.1 as nat, logical.1 as nat),
            },
        )
    } else {
        None
    }
}

/// A position in a buffer, in logical coordinates of its output.
pub fn logical_pointer_position(
    position: (i32, i32),
    buffer: (u32, u32),
    logical: (i32, i32),
) -> (r: Option<Point>)
    ensures
        r == logical_position(position, buffer, logical),
{
    let (x, y) = position;
    let (buffer_width, buffer_height) = buffer;
    let (logical_width, logical_height) = logical;
    if x < 0 || y < 0 || logical_width <= 0 || logical_height <= 0 {
        return None;
    }
    let x: u32 = x as u32;
    let y: u32 = y as u32;
    if x >= buffer_width || y >= buffer_height {
        return None;
    }
    Some(
        Point {
            x: to_logical(x, buffer_width, logical_width as u32),
            y: to_logical(y, buffer_height, logical_height as u32),
        },
    )
}

/// The widest and highest buffer in which no two roundings in single precision make up for a pixel.
pub const PRECISE_SIDE: u32 = 0x80_0000;

/// What comes out of the roundings of a coordinate stays below the logical size.
proof fn lemma_stays_below(r: nat, p: nat, l: nat, value: nat, buffer: nat, t: nat)
    requires
        value < buffer <= PRECISE_SIDE,
        t > 0,
        l > 0,
        p * t * 0x100_0000 <= value * t * l * 0x100_0001,
        r * (buffer * t) * 0x100_0000 <= p * t * 0x100_0001,
    ensures
        r < l,
{
    let u: nat = 0x100_0000;
    let v: nat = 0x100_0001;
    assert(p * u <= value * l * v) by (nonlinear_arith)
        requires
            p * t * u <= value * t * l * v,
            t > 0,
    ;
    assert(r * buffer * u <= p * v) by (nonlinear_arith)
        requires
            r * (buffer * t) * u <= p * t * v,
            t > 0,
    ;
    assert(r * buffer * u * u <= p * v * u) by (nonlinear_arith)
        requires
            r * buffer * u <= p * v,
            u > 0,
    ;
    assert(p * u * v <= value * l * v * v) by (nonlinear_arith)
        requires
            p * u <= value * l * v,
            v > 0,
    ;
    assert(p * v * u == p * u * v) by (nonlinear_arith);
    // One pixel counts for more than both roundings.
    let (few, many) = (u * u, v * v);
    assert(value * many < buffer * few) by (nonlinear_arith)
        requires
            value + 1 <= buffer,
            buffer <= 0x80_0000,
            few == 0x100_0000 * 0x100_0000,
            many == 0x100_0001 * 0x100_0001,
    ;
    assert(r * (buffer * few) == r * buffer * u * u) by (nonlinear_arith)
        requires
            few == u * u,
    ;
    assert(l * (value * many) == value * l * v * v) by (nonlinear_arith)
        requires
            many == v * v,
    ;
    assert(r < l) by (nonlinear_arith)
        requires
            r * (buffer * few) <= l * (value * many),
            value * many < buffer * few,
            l > 0,
            r >= 0,
    ;
}

/// A coordinate of a buffer does not reach the logical size.
proof fn lemma_coordinate_stays_below(value: nat, buffer: nat, logical: nat)
    requires
        value < buffer <= PRECISE_SIDE,
        0 < logical <= i32::MAX,
    ensures
        !reaches(logical_coordinate(value, buffer, logical), logical as int),
{
    vstd::arithmetic::power2::lemma2_to64();
    lemma_of(buffer, 24);
    lemma_exact(buffer, 24);
    lemma_of(logical, 24);
    lemma_whole(logical, 24);
    let (l, b) = (Float::of(logical, 24), Float::of(buffer, 24));
    let t = unit();
    vstd::arithmetic::power2::lemma_pow2_pos(2000);
    let n = single(logical as int);
    assert(n * t == l.worth());
    let x = Float::of(value, 24);
    let p = x.times(l, 24);
    let r = p.over(b, 24);
    assert(l.worth() > 0) by {
        let (m, k) = (l.mantissa as nat, vstd::arithmetic::power2::pow2((l.exponent + 2000) as nat));
        vstd::arithmetic::power2::lemma_pow2_pos((l.exponent + 2000) as nat);
        assert(m * k > 0) by (nonlinear_arith)
            requires
                m > 0,
                k > 0,
        ;
    }
    if value == 0 {
        assert(x.mantissa == 0 && x.exponent == 0);
        assert(x.mantissa as nat * l.mantissa as nat == 0) by (nonlinear_arith)
            requires
                x.mantissa == 0,
        ;
        assert(p.mantissa == 0);
        assert(r.mantissa == 0);
        assert(r.worth() == 0) by (nonlinear_arith)
            requires
                r.worth() == r.mantissa as nat * vstd::arithmetic::power2::pow2(
                    (r.exponent + 2000) as nat,
                ),
                r.mantissa == 0,
        ;
    } else {
        lemma_of(value, 24);
        lemma_exact(value, 24);
        lemma_times(x, l, 24);
        lemma_over(p, b, 24);
        lemma_stays_below(r.worth(), p.worth(), l.worth(), value, buffer, t);
    }
    lemma_worth(r, n as nat);
}

/// A position that is found lies on its output, where the buffer is not too large for single
/// precision.
pub proof fn law_pointer_lies_on_output(
    position: (i32, i32),
    buffer: (u32, u32),
    logical: (i32, i32),
)
    requires
        buffer.0 <= PRECISE_SIDE,
        buffer.1 <= PRECISE_SIDE,
    ensures
        logical_position(position, buffer, logical) matches Some(point) ==> (Rect {
            left: 0,
            top: 0,
            right: logical.0,
            bottom: logical.1,
        }).holds(point),
{
    if logical_position(position, buffer, logical) is Some {
        lemma_coordinate_stays_below(position.0 as nat, buffer.0 as nat, logical.0 as nat);
        lemma_coordinate_stays_below(position.1 as nat, buffer.1 as nat, logical.1 as nat);
    }
}

/// A window lies where the compositor says: it begins at its position and is as wide and as high as its
/// size, as far as the numbers reach.
pub proof fn law_window_lies_where_it_is_told(g: WindowGeometry)
    requires
        g.width >= 0,
        g.height >= 0,
    ensures
        window_rect(g).left == g.x,
        window_rect(g).top == g.y,
        g.x + g.width <= i32::MAX ==> window_rect(g).right - window_rect(g).left == g.width,
        g.y + g.height <= i32::MAX ==> window_rect(g).bottom - window_rect(g).top == g.height,
        g.x + g.width > i32::MAX ==> window_rect(g).right == i32::MAX,
        g.y + g.height > i32::MAX ==> window_rect(g).bottom == i32::MAX,
{
}

/// The size of an output is that of the first of its modes that is the current one, with width and height
/// exchanged where the output is turned by a quarter, flipped or not.
pub proof fn law_output_is_as_large_as_its_mode(modes: Seq<Mode>, transform: Transform, k: int)
    requires
        0 <= k < modes.len(),
        modes[k].current,
        forall|i: int| 0 <= i < k ==> !(#[trigger] modes[i]).current,
    ensures
        current_mode(modes) == Some(modes[k]),
        modes[k].width >= 0 && modes[k].height >= 0 ==> (output_size(modes, transform) matches Some(
            size,
        ) && if transform is Rotated90 || transform is Rotated270 || transform is Flipped90
            || transform is Flipped270 {
            size.0 == modes[k].height && size.1 == modes[k].width
        } else {
            size.0 == modes[k].width && size.1 == modes[k].height
        }),
        modes[k].width < 0 || modes[k].height < 0 ==> output_size(modes, transform) is None,
    decreases modes.len(),
{
    if k > 0 {
        let rest = modes.drop_first();
        assert forall|i: int| 0 <= i < k - 1 implies !(#[trigger] rest[i]).current by {
            assert(rest[i] == modes[i + 1]);
        }
        assert(rest[k - 1] == modes[k]);
        assert(!modes[0].current);
        law_output_is_as_large_as_its_mode(rest, transform, k - 1);
    }
}

/// An output without a current mode has no size.
pub proof fn law_idle_output_has_no_size(modes: Seq<Mode>, transform: Transform)
    requires
        forall|i: int| 0 <= i < modes.len() ==> !(#[trigger] modes[i]).current,
    ensures
        output_size(modes, transform) is None,
    decreases modes.len(),
{
    if modes.len() > 0 {
        let rest = modes.drop_first();
        assert forall|i: int| 0 <= i < rest.len() implies !(#[trigger] rest[i]).current by {
            assert(rest[i] == modes[i + 1]);
        }
        assert(!modes[0].current);
        law_idle_output_has_no_size(rest, transform);
    }
}

/// The union of two rectangles holds both, and its sides are sides of them.
pub proof fn law_union_holds_both(a: Rect, b: Rect, x: int, y: int)
    ensures
        a.has_point(x, y) || b.has_point(x, y) ==> a.union(b).has_point(x, y),
        a.union(b) == b.union(a),
        a.union(a) == a,
        a.union(b).left == a.left || a.union(b).left == b.left,
        a.union(b).top == a.top || a.union(b).top == b.top,
        a.union(b).right == a.right || a.union(b).right == b.right,
        a.union(b).bottom == a.bottom || a.union(b).bottom == b.bottom,
{
}

/// A pointer has a position exactly where it lies in the buffer of an output that has a size.
pub proof fn law_pointer_has_a_position_where_it_is_on_the_buffer(
    position: (i32, i32),
    buffer: (u32, u32),
    logical: (i32, i32),
)
    ensures
        logical_position(position, buffer, logical) is Some <==> (0 <= position.0 < buffer.0 && 0
            <= position.1 < buffer.1 && 0 < logical.0 && 0 < logical.1),
{
}

} // verus!
