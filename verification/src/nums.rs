//! Integer geometry: squared distances, integer square roots, and the
//! scaled displacement that movement integrates.  All of it is exact over
//! the integers, so contracts can name the results directly.

use vstd::prelude::*;
use vstd::math::abs;
use crate::components::{Velocity, DIR_LIMIT, DT_MAX, SPEED_MAX};

verus! {

/// Squared Euclidean distance between `(ax, ay)` and `(bx, by)`.
pub open spec fn dist_sq(ax: int, ay: int, bx: int, by: int) -> int {
    (ax - bx) * (ax - bx) + (ay - by) * (ay - by)
}

/// Largest value the movement and distance arithmetic ever takes a square
/// root of: the squared length of a heading vector.
pub open spec fn sqrt_domain_max() -> int {
    2 * DIR_LIMIT * DIR_LIMIT
}

/// The integer square root: the largest `r` with `r * r <= n`.
pub open spec fn isqrt_spec(n: nat) -> nat
    decreases n,
{
    if n == 0 {
        0
    } else {
        let r = isqrt_spec((n - 1) as nat);
        if (r + 1) * (r + 1) <= n {
            r + 1
        } else {
            r
        }
    }
}

/// `isqrt_spec(n)` is indeed the integer square root of `n`.
pub proof fn lemma_isqrt_bounds(n: nat)
    ensures
        isqrt_spec(n) * isqrt_spec(n) <= n,
        n < (isqrt_spec(n) + 1) * (isqrt_spec(n) + 1),
    decreases n,
{
    if n == 0 {
        let s = isqrt_spec(n);
        assert(s == 0);
        assert(n < (s + 1) * (s + 1)) by (nonlinear_arith)
            requires
                n == 0,
                s == 0,
        ;
    }
    if n > 0 {
        lemma_isqrt_bounds((n - 1) as nat);
        let r = isqrt_spec((n - 1) as nat);
        assert(isqrt_spec(n) == if (r + 1) * (r + 1) <= n {
            r + 1
        } else {
            r
        });
        if (r + 1) * (r + 1) <= n {
            assert(n < (r + 2) * (r + 2)) by (nonlinear_arith)
                requires
                    n - 1 < (r + 1) * (r + 1),
            ;
        }
    }
}

/// Any `r` with `r * r <= n < (r + 1) * (r + 1)` is `isqrt_spec(n)`.
pub proof fn lemma_isqrt_unique(n: nat, r: nat)
    requires
        r * r <= n,
        n < (r + 1) * (r + 1),
    ensures
        r == isqrt_spec(n),
{
    lemma_isqrt_bounds(n);
    let s = isqrt_spec(n);
    assert(r == s) by (nonlinear_arith)
        requires
            r * r <= n,
            n < (r + 1) * (r + 1),
            s * s <= n,
            n < (s + 1) * (s + 1),
    ;
}

/// Binary search for the integer square root.
pub fn isqrt(n: u128) -> (r: u64)
    requires
        n <= sqrt_domain_max(),
    ensures
        r == isqrt_spec(n as nat),
{
    // 3e15 squared exceeds 2 * DIR_LIMIT^2, so the root lies below it.
    let mut lo: u64 = 0;
    let mut hi: u64 = 3_000_000_000_000_000;
    assert((lo as int) * (lo as int) <= n < (hi as int) * (hi as int)) by (nonlinear_arith)
        requires
            n <= 2 * (DIR_LIMIT as int) * (DIR_LIMIT as int),
            lo == 0,
            hi == 3_000_000_000_000_000,
    ;
    while lo + 1 < hi
        invariant
            lo < hi <= 3_000_000_000_000_000,
            (lo as int) * (lo as int) <= n,
            n < (hi as int) * (hi as int),
        decreases hi - lo,
    {
        let mid: u64 = lo + (hi - lo) / 2;
        assert((mid as int) * (mid as int) <= u128::MAX) by (nonlinear_arith)
            requires
                mid <= 3_000_000_000_000_000,
        ;
        if (mid as u128) * (mid as u128) <= n {
            lo = mid;
        } else {
            hi = mid;
        }
    }
    proof {
        lemma_isqrt_unique(n as nat, lo as nat);
    }
    lo
}

/// The absolute value of a bounded `i64`, as a `u128`.
fn abs_u128(x: i64) -> (r: u128)
    requires
        -DIR_LIMIT <= x <= DIR_LIMIT,
    ensures
        r == abs(x as int),
        r <= DIR_LIMIT,
{
    if x < 0 {
        (-x) as u128
    } else {
        x as u128
    }
}

/// Squared distance as executable arithmetic; exact per `dist_sq`.
pub fn dist_sq_exec(ax: i64, ay: i64, bx: i64, by: i64) -> (d: u128)
    requires
        -DIR_LIMIT <= ax - bx <= DIR_LIMIT,
        -DIR_LIMIT <= ay - by <= DIR_LIMIT,
    ensures
        d == dist_sq(ax as int, ay as int, bx as int, by as int),
        d <= sqrt_domain_max(),
{
    let dxa: u128 = abs_u128(ax - bx);
    let dya: u128 = abs_u128(ay - by);
    assert(dxa * dxa == ((ax - bx) as int) * ((ax - bx) as int) && dxa * dxa <= (DIR_LIMIT
        as int) * (DIR_LIMIT as int)) by (nonlinear_arith)
        requires
            dxa == abs((ax - bx) as int),
            dxa <= DIR_LIMIT,
    ;
    assert(dya * dya == ((ay - by) as int) * ((ay - by) as int) && dya * dya <= (DIR_LIMIT
        as int) * (DIR_LIMIT as int)) by (nonlinear_arith)
        requires
            dya == abs((ay - by) as int),
            dya <= DIR_LIMIT,
    ;
    dxa * dxa + dya * dya
}

/// Length of a heading vector: the integer square root of its squared
/// length.
pub open spec fn dir_len(dir_x: int, dir_y: int) -> nat {
    isqrt_spec((dir_x * dir_x + dir_y * dir_y) as nat)
}

/// Magnitude of one displacement component over a frame: the speed scaled
/// by the frame time and by this component's share of the heading, rounded
/// toward zero.  `speed` is in milliunits per second and `dt` in
/// milliseconds, so the quotient is in milliunits.
pub open spec fn disp_mag(speed: u64, dt: u64, comp: int, len: nat) -> int
    recommends
        len > 0,
{
    (speed * dt * abs(comp)) as int / (1000 * len) as int
}

/// Signed displacement of the x component over a frame; zero for a zero
/// heading.
pub open spec fn disp_x(v: Velocity, dt: u64) -> int {
    let len = dir_len(v.dir_x as int, v.dir_y as int);
    if len == 0 {
        0
    } else if v.dir_x < 0 {
        -disp_mag(v.speed, dt, v.dir_x as int, len)
    } else {
        disp_mag(v.speed, dt, v.dir_x as int, len)
    }
}

/// Signed displacement of the y component over a frame; zero for a zero
/// heading.
pub open spec fn disp_y(v: Velocity, dt: u64) -> int {
    let len = dir_len(v.dir_x as int, v.dir_y as int);
    if len == 0 {
        0
    } else if v.dir_y < 0 {
        -disp_mag(v.speed, dt, v.dir_y as int, len)
    } else {
        disp_mag(v.speed, dt, v.dir_y as int, len)
    }
}

/// A displacement component never exceeds the distance travelled at full
/// speed: `|comp| <= len` bounds the quotient by `speed * dt / 1000`.
pub proof fn lemma_disp_mag_bound(speed: u64, dt: u64, comp: int, len: nat)
    requires
        len > 0,
        abs(comp) <= len,
    ensures
        0 <= disp_mag(speed, dt, comp, len) <= speed * dt / 1000,
{
    assert((speed * dt * abs(comp)) as int / (1000 * len) as int >= 0 && (speed * dt * abs(
        comp)) as int / (1000 * len) as int <= speed * dt / 1000) by (nonlinear_arith)
        requires
            len > 0,
            abs(comp) <= len,
            speed >= 0,
            dt >= 0,
    ;
}

/// Largest magnitude a displacement component can take: full speed for the
/// longest frame.
pub const DISP_LIMIT: i64 = 1_000_000_000_000;

/// Subtraction of durations, saturating at zero.
pub fn sat_sub_u64(a: u64, b: u64) -> (r: u64)
    ensures
        r == if a >= b {
            a - b
        } else {
            0
        },
{
    if a >= b {
        a - b
    } else {
        0
    }
}

/// Subtraction of hit points, saturating at zero.
pub fn sat_sub_u32(a: u32, b: u32) -> (r: u32)
    ensures
        r == if a >= b {
            a - b
        } else {
            0
        },
{
    if a >= b {
        a - b
    } else {
        0
    }
}

/// The saturated sum of two `u32` values, as a spec value.
pub open spec fn sat_add_u32_spec(a: u32, b: u32) -> u32 {
    if a + b > u32::MAX {
        u32::MAX
    } else {
        (a + b) as u32
    }
}

/// Addition of currency, saturating at the largest balance.
pub fn sat_add_u32(a: u32, b: u32) -> (r: u32)
    ensures
        r == sat_add_u32_spec(a, b),
{
    if a <= u32::MAX - b {
        a + b
    } else {
        u32::MAX
    }
}

/// Both displacement components of a frame, computed exactly.
pub fn displacement(v: &Velocity, dt: u64) -> (d: (i64, i64))
    requires
        v.wf(),
        dt <= DT_MAX,
    ensures
        d.0 == disp_x(*v, dt),
        d.1 == disp_y(*v, dt),
        -DISP_LIMIT <= d.0 <= DISP_LIMIT,
        -DISP_LIMIT <= d.1 <= DISP_LIMIT,
{
    let sq: u128 = dist_sq_exec(v.dir_x, v.dir_y, 0, 0);
    let len: u64 = isqrt(sq);
    if len == 0 {
        (0, 0)
    } else {
        proof {
            lemma_isqrt_bounds(sq as nat);
            assert(v.dir_x * v.dir_x <= sq && v.dir_y * v.dir_y <= sq) by (nonlinear_arith)
                requires
                    sq == v.dir_x * v.dir_x + v.dir_y * v.dir_y,
            ;
            // Each component's magnitude is at most the vector's length.
            assert(abs(v.dir_x as int) <= len && abs(v.dir_y as int) <= len)
                by (nonlinear_arith)
                requires
                    sq < (len + 1) * (len + 1),
                    v.dir_x * v.dir_x <= sq,
                    v.dir_y * v.dir_y <= sq,
                    len >= 0,
            ;
            lemma_disp_mag_bound(v.speed, dt, v.dir_x as int, len as nat);
            lemma_disp_mag_bound(v.speed, dt, v.dir_y as int, len as nat);
            assert(v.speed * dt / 1000 <= DISP_LIMIT) by (nonlinear_arith)
                requires
                    v.speed <= SPEED_MAX,
                    dt <= DT_MAX,
            ;
            assert((v.speed as int) * (dt as int) * (DIR_LIMIT as int) <= u128::MAX)
                by (nonlinear_arith)
                requires
                    v.speed <= SPEED_MAX,
                    dt <= DT_MAX,
            ;
        }
        let ax: u128 = abs_u128(v.dir_x);
        let ay: u128 = abs_u128(v.dir_y);
        proof {
            assert((v.speed as int) * (dt as int) * (ax as int) <= (v.speed as int) * (dt
                as int) * (DIR_LIMIT as int) && (v.speed as int) * (dt as int) * (ay as int)
                <= (v.speed as int) * (dt as int) * (DIR_LIMIT as int)) by (nonlinear_arith)
                requires
                    ax <= DIR_LIMIT,
                    ay <= DIR_LIMIT,
                    v.speed >= 0,
                    dt >= 0,
            ;
        }
        let num_x: u128 = (v.speed as u128) * (dt as u128) * ax;
        let num_y: u128 = (v.speed as u128) * (dt as u128) * ay;
        let den: u128 = 1000 * (len as u128);
        let mag_x: u128 = num_x / den;
        let mag_y: u128 = num_y / den;
        proof {
            assert(mag_x == disp_mag(v.speed, dt, v.dir_x as int, len as nat) && mag_y
                == disp_mag(v.speed, dt, v.dir_y as int, len as nat));
        }
        let dx: i64 = if v.dir_x < 0 {
            -(mag_x as i64)
        } else {
            mag_x as i64
        };
        let dy: i64 = if v.dir_y < 0 {
            -(mag_y as i64)
        } else {
            mag_y as i64
        };
        (dx, dy)
    }
}

} // verus!
