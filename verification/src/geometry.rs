use vstd::prelude::*;

verus! {

/// An axis-aligned rectangle in logical pixels: top-left corner and size.
#[derive(Clone, Copy, Debug, PartialEq, Eq, Structural)]
pub struct Rect {
    pub x: i32,
    pub y: i32,
    pub w: i32,
    pub h: i32,
}

/// The value an `i32` holds after a two's-complement cast of `v`.
pub open spec fn wrap_i32(v: int) -> int {
    let m = v % 0x1_0000_0000;
    if m > 0x7fff_ffff {
        m - 0x1_0000_0000
    } else {
        m
    }
}

/// `true` when `v` fits in an `i32`.
pub open spec fn fits_i32(v: int) -> bool {
    i32::MIN <= v <= i32::MAX
}

/// Saturating addition in the range of `i32`.
pub open spec fn sat_add_i32(a: int, b: int) -> int {
    if a + b > i32::MAX {
        i32::MAX as int
    } else if a + b < i32::MIN {
        i32::MIN as int
    } else {
        a + b
    }
}

/// A point lies in a rectangle when it is at or right/below the corner and
/// strictly before the corner plus the size (sums saturate).
pub open spec fn rect_contains(r: Rect, px: int, py: int) -> bool {
    &&& px >= r.x
    &&& px < sat_add_i32(r.x as int, r.w as int)
    &&& py >= r.y
    &&& py < sat_add_i32(r.y as int, r.h as int)
}

/// Rust's `/ 2` on a signed value: the quotient rounds toward zero.
pub open spec fn half_toward_zero(d: int) -> int {
    if d >= 0 {
        d / 2
    } else {
        -((-d) / 2)
    }
}

pub proof fn lemma_u32_as_i32(x: u32)
    ensures
        (x as i32) as int == wrap_i32(x as int),
{
    assert(x <= 0x7fff_ffff ==> (x as i32) as int == x as int) by (bit_vector);
    assert(x > 0x7fff_ffff ==> (x as i32) as int == x as int - 0x1_0000_0000) by (bit_vector);
}

pub proof fn lemma_usize_as_i32(x: usize)
    ensures
        (x as i32) as int == wrap_i32(x as int),
{
    assert((x as i32) as int == ((x as u32) as i32) as int) by (bit_vector);
    assert((x as u32) as int == x as int % 0x1_0000_0000) by (bit_vector);
    lemma_u32_as_i32(x as u32);
}

pub proof fn lemma_usize_as_u32(x: usize)
    ensures
        (x as u32) as int == x as int % 0x1_0000_0000,
{
    assert((x as u32) as int == x as int % 0x1_0000_0000) by (bit_vector);
}

/// Whether the point lies inside the rectangle.
pub fn contains(r: Rect, px: i32, py: i32) -> (b: bool)
    ensures
        b == rect_contains(r, px as int, py as int),
{
    let right = sat_add(r.x, r.w);
    let bottom = sat_add(r.y, r.h);
    px >= r.x && px < right && py >= r.y && py < bottom
}

/// `i32` addition that clamps to the type's range.
pub fn sat_add(a: i32, b: i32) -> (r: i32)
    ensures
        r as int == sat_add_i32(a as int, b as int),
{
    let s: i64 = a as i64 + b as i64;
    if s > i32::MAX as i64 {
        i32::MAX
    } else if s < i32::MIN as i64 {
        i32::MIN
    } else {
        s as i32
    }
}

/// A `u32` read as an `i32` (two's complement), as `as` does.
pub fn u32_to_i32(x: u32) -> (r: i32)
    ensures
        r as int == wrap_i32(x as int),
{
    proof {
        lemma_u32_as_i32(x);
    }
    x as i32
}

/// Halves a signed value, rounding toward zero as Rust's `/` does.
pub fn half_i32(d: i32) -> (r: i32)
    ensures
        r as int == half_toward_zero(d as int),
{
    if d >= 0 {
        d / 2
    } else {
        let n: i64 = -(d as i64);
        let q: i64 = n / 2;
        (-q) as i32
    }
}

/// Law: a point lies in a rectangle exactly when it is at or right of the left edge, at or
/// below the top edge, and strictly left of the right edge and above the bottom edge
/// (`x + w`, `y + h`); only a point on the largest `i32` column or row is kept out of a
/// rectangle reaching past it, where the edges saturate.
pub proof fn law_contains_bounds(r: Rect, px: i32, py: i32)
    ensures
        rect_contains(r, px as int, py as int) ==> r.x <= px && px < r.x + r.w && r.y <= py && py < r.y + r.h,
        r.x <= px && px < r.x + r.w && r.y <= py && py < r.y + r.h && px < i32::MAX && py < i32::MAX
            ==> rect_contains(r, px as int, py as int),
        px < r.x || py < r.y ==> !rect_contains(r, px as int, py as int),
{
}

/// Law: casting to `i32` keeps the value modulo 2^32 and lands in the range of `i32`; a
/// value that already fits is unchanged.
pub proof fn law_wrap_i32(v: int)
    ensures
        fits_i32(wrap_i32(v)),
        (wrap_i32(v) - v) % 0x1_0000_0000 == 0,
        fits_i32(v) ==> wrap_i32(v) == v,
{
}

/// Law: halving rounds toward zero: the half has the sign of the value and twice it is the
/// value or one step closer to zero.
pub proof fn law_half_toward_zero(d: int)
    ensures
        d >= 0 ==> 0 <= 2 * half_toward_zero(d) <= d && d - 2 * half_toward_zero(d) <= 1,
        d < 0 ==> d <= 2 * half_toward_zero(d) <= 0 && 2 * half_toward_zero(d) - d <= 1,
{
}

/// Law: saturating addition is the sum when that fits, and the nearest end of the `i32`
/// range otherwise.
pub proof fn law_sat_add(a: int, b: int)
    ensures
        fits_i32(a + b) ==> sat_add_i32(a, b) == a + b,
        a + b > i32::MAX ==> sat_add_i32(a, b) == i32::MAX,
        a + b < i32::MIN ==> sat_add_i32(a, b) == i32::MIN,
{
}

} // verus!
