//! Screen Ruler: distances between two points on the screen.

use vstd::prelude::*;

use crate::text::{decimal, push_all, push_char, push_decimal};

verus! {

/// A point on the screen, in pixels.
#[derive(Debug, Clone, Copy, PartialEq, Eq, Structural)]
pub struct Point {
    pub x: i32,
    pub y: i32,
}

/// A measurement between two screen points.
#[derive(Debug, Clone, Copy, PartialEq, Eq, Structural)]
pub struct Measurement {
    pub start: Point,
    pub end: Point,
}

/// The absolute value of an integer.
pub open spec fn abs(v: int) -> int {
    if v < 0 {
        -v
    } else {
        v
    }
}

/// The signed horizontal step from start to end fits an `i32` and has an
/// `i32` absolute value.
pub open spec fn fits_x(m: Measurement) -> bool {
    i32::MIN < m.end.x - m.start.x <= i32::MAX
}

/// The signed vertical step from start to end fits an `i32` and has an
/// `i32` absolute value.
pub open spec fn fits_y(m: Measurement) -> bool {
    i32::MIN < m.end.y - m.start.y <= i32::MAX
}

/// Both steps fit.
pub open spec fn fits(m: Measurement) -> bool {
    fits_x(m) && fits_y(m)
}

/// The squared length of the diagonal.
pub open spec fn diagonal_squared(m: Measurement) -> int {
    let dx = m.end.x - m.start.x;
    let dy = m.end.y - m.start.y;
    dx * dx + dy * dy
}

/// The diagonal's length in tenths of a pixel, to the nearest tenth: the
/// whole number `t` with `t - 1/2 < 10 * sqrt(n) < t + 1/2`. No square root
/// of a whole number lies halfway between two tenths, so `t` is unique.
pub open spec fn nearest_tenths(n: int, t: int) -> bool {
    &&& t >= 0
    &&& (t == 0 || (2 * t - 1) * (2 * t - 1) < 400 * n)
    &&& 400 * n < (2 * t + 1) * (2 * t + 1)
}

/// The text of a measurement: width by height, and the diagonal to a tenth
/// of a pixel.
pub open spec fn display_of(w: nat, h: nat, tenths: nat) -> Seq<char> {
    decimal(w) + "x"@ + decimal(h) + " px (diagonal: "@ + decimal(tenths / 10) + "."@ + decimal(
        tenths % 10,
    ) + " px)"@
}

impl Measurement {
    /// A measurement from `start` to `end`.
    pub fn new(start: Point, end: Point) -> (m: Measurement)
        ensures
            m.start == start,
            m.end == end,
    {
        Measurement { start, end }
    }

    /// Horizontal distance in pixels.
    pub fn width(&self) -> (w: i32)
        requires
            fits_x(*self),
        ensures
            w == abs(self.end.x - self.start.x),
    {
        let d = self.end.x - self.start.x;
        if d < 0 {
            -d
        } else {
            d
        }
    }

    /// Vertical distance in pixels.
    pub fn height(&self) -> (h: i32)
        requires
            fits_y(*self),
        ensures
            h == abs(self.end.y - self.start.y),
    {
        let d = self.end.y - self.start.y;
        if d < 0 {
            -d
        } else {
            d
        }
    }

    /// The diagonal in tenths of a pixel, rounded to the nearest tenth.
    pub fn diagonal_tenths(&self) -> (t: u64)
        requires
            fits(*self),
        ensures
            nearest_tenths(diagonal_squared(*self), t as int),
    {
        let w = self.width() as u128;
        let h = self.height() as u128;
        proof {
            lemma_square_bound(w as int);
            lemma_square_bound(h as int);
            assert(diagonal_squared(*self) == w * w + h * h) by (nonlinear_arith)
                requires
                    w == abs(self.end.x - self.start.x),
                    h == abs(self.end.y - self.start.y),
            ;
        }
        let n: u128 = w * w + h * h;
        let target: u128 = 400 * n;
        // The smallest t with 400 n < (2t + 1)^2 lies in [lo, hi].
        let mut lo: u128 = 0;
        let mut hi: u128 = 0x10_0000_0000;
        proof {
            assert((2 * hi + 1) * (2 * hi + 1) > target) by (nonlinear_arith)
                requires
                    hi == 0x10_0000_0000,
                    target == 400 * n,
                    n < 0x8000_0000_0000_0000,
            ;
        }
        while lo < hi
            invariant
                lo <= hi <= 0x10_0000_0000,
                target == 400 * n,
                target < (2 * hi + 1) * (2 * hi + 1),
                lo == 0 || (2 * lo - 1) * (2 * lo - 1) <= target,
            decreases hi - lo,
        {
            let mid = lo + (hi - lo) / 2;
            let odd = 2 * mid + 1;
            proof {
                assert(odd * odd <= 0x1_0000_0000_0000_0000_0000) by (nonlinear_arith)
                    requires
                        odd <= 0x20_0000_0001,
                ;
            }
            if target < odd * odd {
                hi = mid;
            } else {
                lo = mid + 1;
            }
        }
        proof {
            if lo > 0 {
                assert((2 * lo - 1) * (2 * lo - 1) != 400 * n) by {
                    lemma_odd_square_not_even(2 * lo - 1, 400 * n);
                }
            }
        }
        lo as u64
    }

    /// Format as human-readable string: width by height in pixels, and the
    /// diagonal to a tenth of a pixel.
    pub fn display_string(&self) -> (s: String)
        requires
            fits(*self),
        ensures
            exists|t: nat|
                nearest_tenths(diagonal_squared(*self), t as int) && s@ == display_of(
                    abs(self.end.x - self.start.x) as nat,
                    abs(self.end.y - self.start.y) as nat,
                    t,
                ),
    {
        let w = self.width();
        let h = self.height();
        let t = self.diagonal_tenths();
        let mut s = String::new();
        push_decimal(&mut s, w as u64);
        push_char(&mut s, 'x');
        push_decimal(&mut s, h as u64);
        push_all(&mut s, " px (diagonal: ");
        push_decimal(&mut s, t / 10);
        push_char(&mut s, '.');
        push_decimal(&mut s, t % 10);
        push_all(&mut s, " px)");
        proof {
            reveal_strlit("x");
            reveal_strlit(".");
            assert(s@ =~= display_of(w as nat, h as nat, t as nat));
        }
        s
    }
}

/// A square below 2^62 for a value below 2^31.
proof fn lemma_square_bound(v: int)
    requires
        0 <= v < 0x8000_0000,
    ensures
        v * v < 0x4000_0000_0000_0000,
{
    assert(v * v < 0x4000_0000_0000_0000) by (nonlinear_arith)
        requires
            0 <= v < 0x8000_0000,
    ;
}

/// An odd square is never an even number.
proof fn lemma_odd_square_not_even(o: int, e: int)
    requires
        o % 2 == 1,
        e % 2 == 0,
    ensures
        o * o != e,
{
    let k = o / 2;
    assert(o == 2 * k + 1);
    let m = 2 * k * k + 2 * k;
    assert(o * o == 2 * m + 1) by (nonlinear_arith)
        requires
            o == 2 * k + 1,
            m == 2 * k * k + 2 * k,
    ;
    assert((2 * m + 1) % 2 == 1);
}

/// The nearest tenth is unique: the diagonal's text does not depend on how
/// it was computed.
pub proof fn law_nearest_tenths_unique(n: int, t1: int, t2: int)
    requires
        n >= 0,
        nearest_tenths(n, t1),
        nearest_tenths(n, t2),
    ensures
        t1 == t2,
{
    if t1 < t2 {
        lemma_square_mono(2 * t1 + 1, 2 * t2 - 1);
    } else if t2 < t1 {
        lemma_square_mono(2 * t2 + 1, 2 * t1 - 1);
    }
}

proof fn lemma_square_mono(a: int, b: int)
    requires
        0 <= a <= b,
    ensures
        a * a <= b * b,
{
    assert(a * a <= b * b) by (nonlinear_arith)
        requires
            0 <= a <= b,
    ;
}

/// The Screen Ruler module: it only records whether it runs.
#[derive(Debug)]
pub struct ScreenRuler {
    running: bool,
}

impl ScreenRuler {
    /// A stopped Screen Ruler.
    pub fn new() -> (r: ScreenRuler)
        ensures
            !r.is_running_spec(),
    {
        ScreenRuler { running: false }
    }

    /// Whether the module runs.
    pub closed spec fn is_running_spec(&self) -> bool {
        self.running
    }

    /// The module's identifier.
    pub fn id(&self) -> (s: &'static str)
        ensures
            s@ == "screen-ruler"@,
    {
        "screen-ruler"
    }

    /// The module's display name.
    pub fn name(&self) -> (s: &'static str)
        ensures
            s@ == "Screen Ruler"@,
    {
        "Screen Ruler"
    }

    /// Starts the module.
    pub fn start(&mut self)
        ensures
            final(self).is_running_spec(),
    {
        self.running = true;
    }

    /// Stops the module.
    pub fn stop(&mut self)
        ensures
            !final(self).is_running_spec(),
    {
        self.running = false;
    }

    /// Whether the module runs.
    pub fn is_running(&self) -> (b: bool)
        ensures
            b == self.is_running_spec(),
    {
        self.running
    }
}

} // verus!
