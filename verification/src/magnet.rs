//! The force field of the magnets on a course.
//!
//! The course is sampled on a grid of cells of 5 by 5 units, at the centre of
//! each cell. A magnet within 127 units of a sample point pulls with the
//! strength `127 - d`, where `d` is the distance. Of that strength the share
//! `|dx| / d` goes to the x axis and the rest to the y axis, each with the sign
//! of its difference, and each cut to a whole number. A repelling magnet pushes
//! with the opposite signs. The forces of all magnets at a point add up.
//!
//! Distances are square roots, so the shares are stated here by the
//! inequalities that define their whole part, over integers alone.

use crate::map::TrackMap;
use crate::tile::{Special, Tile};
use vstd::prelude::*;

verus! {

/// The force of every sample cell, row by row.
#[derive(Debug)]
pub struct MagnetForces {
    pub forces: Vec<[i32; 2]>,
}

/// A magnet on the course: the number of its tile, and whether it repels.
#[derive(Debug, PartialEq, Eq, Structural, Copy, Clone)]
pub struct Magnet {
    pub repel: bool,
    pub i: usize,
}

pub open spec fn abs(v: int) -> int {
    if v < 0 {
        -v
    } else {
        v
    }
}

/// `size` with the sign of `v`.
pub open spec fn with_sign_of(v: int, size: int) -> int {
    if v < 0 {
        -size
    } else if v > 0 {
        size
    } else {
        0
    }
}

/// `r` is the whole part of `n / sqrt(d2)`, for `n >= 0` and `d2 > 0`.
pub open spec fn is_floor_over_root(r: int, n: int, d2: int) -> bool {
    0 <= r && r * r * d2 <= n * n < (r + 1) * (r + 1) * d2
}

/// `k` is the whole part of `(127 - d) * a / d`, where `d = sqrt(d2)` is the
/// distance and `a <= d` the size of the difference along x. The inequality
/// `k <= (127 - d) * a / d < k + 1` is `(k + a) * d <= 127 * a < (k + a + 1) * d`,
/// squared.
pub open spec fn is_share_along(k: int, a: int, d2: int) -> bool {
    is_floor_over_root(k + a, 127 * a, d2) && 0 <= k
}

/// `k` is the whole part of `(127 - d) * (1 - a / d)`. The inequality
/// `k <= (127 - d) * (d - a) / d < k + 1` is
/// `(127 + a - k - 1) * d < d2 + 127 * a <= (127 + a - k) * d`, squared.
pub open spec fn is_share_across(k: int, a: int, d2: int) -> bool {
    let m = 127 + a - k;
    let n = d2 + 127 * a;
    0 <= k && 1 <= m && (m - 1) * (m - 1) * d2 < n * n <= m * m * d2
}

/// The share of the pull along x, as a whole number.
pub open spec fn share_along(a: int, d2: int) -> int {
    choose|k: int| is_share_along(k, a, d2)
}

/// The share of the pull along y, as a whole number.
pub open spec fn share_across(a: int, d2: int) -> int {
    choose|k: int| is_share_across(k, a, d2)
}

/// The pull on a point of a magnet that lies `(dx, dy)` away from it. There is
/// none beyond the reach, nor at the magnet's own place.
pub open spec fn pull(dx: int, dy: int) -> (int, int) {
    let d2 = dx * dx + dy * dy;
    if d2 == 0 || d2 > 127 * 127 {
        (0, 0)
    } else {
        (with_sign_of(dx, share_along(abs(dx), d2)), with_sign_of(dy, share_across(abs(dx), d2)))
    }
}

/// The centre of the tile with the given number, in course units.
pub open spec fn magnet_center(tile: int) -> (int, int) {
    ((tile % 49) * 15 + 8, (tile / 49) * 15 + 8)
}

/// The force of one magnet at the point `(x, y)`.
pub open spec fn magnet_force(magnet: Magnet, x: int, y: int) -> (int, int) {
    let center = magnet_center(magnet.i as int);
    let f = pull(center.0 - x, center.1 - y);
    if magnet.repel {
        (-f.0, -f.1)
    } else {
        f
    }
}

/// The force of all the magnets at the point `(x, y)`.
pub open spec fn total_force(magnets: Seq<Magnet>, x: int, y: int) -> (int, int)
    decreases magnets.len(),
{
    if magnets.len() == 0 {
        (0, 0)
    } else {
        let rest = total_force(magnets.drop_last(), x, y);
        let f = magnet_force(magnets.last(), x, y);
        (rest.0 + f.0, rest.1 + f.1)
    }
}

/// The stored pair `cell` holds the force `force`: x first, then y.
pub open spec fn is_force(cell: [i32; 2], force: (int, int)) -> bool {
    cell[0] == force.0 && cell[1] == force.1
}

/// The sample point of the cell with the given number: the centre of the cell.
pub open spec fn sample_point(cell: int) -> (int, int) {
    ((cell % 147) * 5 + 2, (cell / 147) * 5 + 2)
}

/// The magnets among the first `n` tiles, in tile order.
pub open spec fn magnets_among(tiles: Seq<Tile>, n: int) -> Seq<Magnet>
    decreases n,
{
    if n <= 0 {
        Seq::empty()
    } else {
        let before = magnets_among(tiles, n - 1);
        if tiles[n - 1].special == Some(Special::MagnetAttract) {
            before.push(Magnet { repel: false, i: (n - 1) as usize })
        } else if tiles[n - 1].special == Some(Special::MagnetRepel) {
            before.push(Magnet { repel: true, i: (n - 1) as usize })
        } else {
            before
        }
    }
}

proof fn lemma_square_order(a: int, b: int)
    by (nonlinear_arith)
    requires
        0 <= a,
        0 <= b,
        a * a < b * b,
    ensures
        a < b,
{
}

proof fn lemma_square_monotonic(a: int, b: int)
    by (nonlinear_arith)
    requires
        0 <= a <= b,
    ensures
        a * a <= b * b,
{
}

proof fn lemma_scaled_order(p: int, q: int, d2: int)
    by (nonlinear_arith)
    requires
        d2 > 0,
        p * d2 < q * d2,
    ensures
        p < q,
{
}

/// If `p^2 * d2 < q^2 * d2` for non-negative `p` and `q`, then `p < q`.
proof fn lemma_root_order(p: int, q: int, d2: int)
    requires
        0 <= p,
        0 <= q,
        d2 > 0,
        p * p * d2 < q * q * d2,
    ensures
        p < q,
{
    lemma_scaled_order(p * p, q * q, d2);
    lemma_square_order(p, q);
}

/// `p^2 * d2 < (p + 1)^2 * d2` for non-negative `p` and positive `d2`.
proof fn lemma_root_strict(p: int, d2: int)
    by (nonlinear_arith)
    requires
        0 <= p,
        d2 > 0,
    ensures
        p * p * d2 < (p + 1) * (p + 1) * d2,
{
    assert(p * p < (p + 1) * (p + 1));
}

/// There is at most one whole part of `n / sqrt(d2)`.
pub proof fn lemma_floor_over_root_unique(r1: int, r2: int, n: int, d2: int)
    requires
        d2 > 0,
        is_floor_over_root(r1, n, d2),
        is_floor_over_root(r2, n, d2),
    ensures
        r1 == r2,
{
    lemma_root_order(r1, r2 + 1, d2);
    lemma_root_order(r2, r1 + 1, d2);
}

/// The share along x is the one number that meets its inequality.
pub proof fn lemma_share_along(k: int, a: int, d2: int)
    requires
        d2 > 0,
        is_share_along(k, a, d2),
    ensures
        share_along(a, d2) == k,
{
    let c = share_along(a, d2);
    lemma_floor_over_root_unique(c + a, k + a, 127 * a, d2);
}

/// The share along y is the one number that meets its inequality.
pub proof fn lemma_share_across(k: int, a: int, d2: int)
    requires
        d2 > 0,
        is_share_across(k, a, d2),
    ensures
        share_across(a, d2) == k,
{
    let c = share_across(a, d2);
    let n = d2 + 127 * a;
    let m = 127 + a - k;
    let mc = 127 + a - c;
    assert(is_share_across(c, a, d2));
    lemma_root_order(m - 1, mc, d2);
    lemma_root_order(mc - 1, m, d2);
}

/// `(d2 + 127 a)^2 <= (127 + a)^2 * d2` whenever `a^2 <= d2 <= 127^2`: the
/// difference is `(d2 - 127^2) * (d2 - a^2)`.
proof fn lemma_across_bound(a: int, d2: int)
    by (nonlinear_arith)
    requires
        0 <= a,
        a * a <= d2 <= 127 * 127,
    ensures
        (d2 + 127 * a) * (d2 + 127 * a) <= (127 + a) * (127 + a) * d2,
{
    assert((127 + a) * (127 + a) * d2 - (d2 + 127 * a) * (d2 + 127 * a) == (127 * 127 - d2) * (d2
        - a * a));
    assert((127 * 127 - d2) * (d2 - a * a) >= 0);
}

/// `a^2 * d2 <= (d2 + 127 a)^2` whenever `a^2 <= d2`.
proof fn lemma_across_floor(a: int, d2: int)
    by (nonlinear_arith)
    requires
        0 <= a,
        a * a <= d2,
    ensures
        a * a * d2 <= (d2 + 127 * a) * (d2 + 127 * a),
{
    assert(a * a * d2 <= d2 * d2);
    assert(d2 * d2 <= (d2 + 127 * a) * (d2 + 127 * a));
}

/// `a^2 * d2 <= (127 a)^2 <= 127^2 * d2` whenever `a^2 <= d2 <= 127^2`.
proof fn lemma_along_bounds(a: int, d2: int)
    by (nonlinear_arith)
    requires
        0 <= a,
        a * a <= d2 <= 127 * 127,
    ensures
        a * a * d2 <= (127 * a) * (127 * a),
        (127 * a) * (127 * a) <= 127 * 127 * d2,
{
    assert((127 * a) * (127 * a) == 127 * 127 * (a * a));
    assert(a * a * d2 <= a * a * (127 * 127));
}

/// The whole part of `127 a / sqrt(d2)` gives the share along x: it is at
/// least `a` and at most 127.
proof fn lemma_along_from_root(r: int, a: int, d2: int)
    requires
        0 <= a,
        0 < d2,
        a * a <= d2 <= 127 * 127,
        is_floor_over_root(r, 127 * a, d2),
    ensures
        is_share_along(r - a, a, d2),
        a <= r <= 127,
{
    lemma_along_bounds(a, d2);
    lemma_root_order(a, r + 1, d2);
    lemma_root_strict(127, d2);
    lemma_root_order(r, 128, d2);
}

/// The whole part `q` of `(d2 + 127 a) / sqrt(d2)` gives the share along y:
/// the quotient rounded up is `q` when the quotient is whole and `q + 1`
/// otherwise, and lies between `a` and `127 + a`.
proof fn lemma_across_from_root(q: int, m: int, a: int, d2: int)
    requires
        0 <= a,
        0 < d2,
        a * a <= d2 <= 127 * 127,
        is_floor_over_root(q, d2 + 127 * a, d2),
        m == if q * q * d2 == (d2 + 127 * a) * (d2 + 127 * a) {
            q
        } else {
            q + 1
        },
    ensures
        is_share_across(127 + a - m, a, d2),
        a <= m <= 127 + a,
{
    let n = d2 + 127 * a;
    lemma_across_floor(a, d2);
    lemma_across_bound(a, d2);
    lemma_root_order(a, q + 1, d2);
    lemma_root_strict(127 + a, d2);
    lemma_root_order(q, 128 + a, d2);
    if q * q * d2 == n * n {
        // 1 <= q, so the number below q lies below the quotient
        if q == 0 {
            assert(n * n > 0) by (nonlinear_arith)
                requires
                    n > 0,
            ;
        } else {
            lemma_root_strict(q - 1, d2);
        }
    } else if q == 127 + a {
        // the quotient is at most 127 + a, so q would be exact
        assert(false);
    }
}

/// Every quotient `n / sqrt(d2)` has a whole part, found from `r` upwards.
proof fn lemma_floor_over_root_from(r: int, n: int, d2: int)
    requires
        0 <= r <= n,
        0 < d2,
        r * r * d2 <= n * n,
    ensures
        exists|found: int| is_floor_over_root(found, n, d2),
    decreases n - r,
{
    if n * n < (r + 1) * (r + 1) * d2 {
        assert(is_floor_over_root(r, n, d2));
    } else {
        if r == n {
            lemma_root_strict(n, d2);
            assert(n * n <= n * n * d2) by (nonlinear_arith)
                requires
                    d2 >= 1,
            ;
        }
        lemma_floor_over_root_from(r + 1, n, d2);
    }
}

/// Within the reach of a magnet both shares are defined: each is the one
/// number that meets its inequality, and lies between 0 and 127.
pub proof fn lemma_shares_defined(a: int, d2: int)
    requires
        0 <= a,
        0 < d2,
        a * a <= d2 <= 127 * 127,
    ensures
        is_share_along(share_along(a, d2), a, d2),
        is_share_across(share_across(a, d2), a, d2),
        0 <= share_along(a, d2) <= 127 - a,
        0 <= share_across(a, d2) <= 127,
{
    let along = 127 * a;
    assert(0 * 0 * d2 <= along * along) by (nonlinear_arith);
    lemma_floor_over_root_from(0, along, d2);
    let r = choose|r: int| is_floor_over_root(r, along, d2);
    lemma_along_from_root(r, a, d2);
    lemma_share_along(r - a, a, d2);
    let n = d2 + 127 * a;
    assert(0 * 0 * d2 <= n * n) by (nonlinear_arith);
    lemma_floor_over_root_from(0, n, d2);
    let q = choose|q: int| is_floor_over_root(q, n, d2);
    let m = if q * q * d2 == n * n {
        q
    } else {
        q + 1
    };
    lemma_across_from_root(q, m, a, d2);
    lemma_share_across(127 + a - m, a, d2);
}

/// The pull of a magnet is at most 127 along each axis and never points away
/// from the magnet.
pub proof fn lemma_pull_bounds(dx: int, dy: int)
    ensures
        -127 <= pull(dx, dy).0 <= 127,
        -127 <= pull(dx, dy).1 <= 127,
        dx >= 0 ==> pull(dx, dy).0 >= 0,
        dx <= 0 ==> pull(dx, dy).0 <= 0,
        dy >= 0 ==> pull(dx, dy).1 >= 0,
        dy <= 0 ==> pull(dx, dy).1 <= 0,
{
    let d2 = dx * dx + dy * dy;
    assert(abs(dx) * abs(dx) == dx * dx && dx * dx >= 0 && dy * dy >= 0) by (nonlinear_arith);
    if 0 < d2 <= 127 * 127 {
        lemma_shares_defined(abs(dx), d2);
    }
}

/// The whole part of `n / sqrt(d2)`, and whether the quotient is whole.
fn floor_over_root(n: u64, d2: u64) -> (found: (u64, bool))
    requires
        1 <= d2 <= 0x4000,
        n <= 0x1_0000,
    ensures
        is_floor_over_root(found.0 as int, n as int, d2 as int),
        found.0 <= n,
        found.1 == (found.0 * found.0 * d2 == n * n),
{
    assert(n * n <= 0x1_0000 * 0x1_0000) by (nonlinear_arith)
        requires
            n <= 0x1_0000,
    ;
    let target = n * n;
    let mut r: u64 = 0;
    let mut below: u64 = 0;
    assert(0 * 0 * d2 == 0) by (nonlinear_arith);
    loop
        invariant_except_break
            r <= n,
            n <= 0x1_0000,
            1 <= d2 <= 0x4000,
            target == n * n,
            below == r * r * d2,
            below <= target,
        ensures
            r <= n,
            below == r * r * d2,
            is_floor_over_root(r as int, n as int, d2 as int),
        decreases n - r,
    {
        if r >= n {
            assert(n * n < (n + 1) * (n + 1) * d2) by (nonlinear_arith)
                requires
                    d2 >= 1,
                    n >= 0,
            ;
            break ;
        }
        let next = r + 1;
        assert(next * next <= 0x1_0000 * 0x1_0000) by (nonlinear_arith)
            requires
                next <= 0x1_0000,
        ;
        assert(next * next * d2 <= 0x1_0000 * 0x1_0000 * 0x4000) by (nonlinear_arith)
            requires
                next * next <= 0x1_0000 * 0x1_0000,
                d2 <= 0x4000,
        ;
        let above = next * next * d2;
        if above > target {
            break ;
        }
        r = next;
        below = above;
    }
    (r, below == target)
}

impl Magnet {
    /// The magnets on the given tiles: one for each attracting or repelling
    /// magnet special, with the number of its tile, in tile order.
    pub fn extract_magnets(tiles: &[Tile]) -> (magnets: Vec<Magnet>)
        ensures
            magnets@ == magnets_among(tiles@, tiles@.len() as int),
    {
        let mut magnets: Vec<Magnet> = Vec::new();
        let mut i: usize = 0;
        while i < tiles.len()
            invariant
                i <= tiles.len(),
                magnets@ == magnets_among(tiles@, i as int),
            decreases tiles.len() - i,
        {
            let repel = match tiles[i].special {
                Some(Special::MagnetAttract) => Some(false),
                Some(Special::MagnetRepel) => Some(true),
                _ => None,
            };
            match repel {
                Some(repel) => {
                    magnets.push(Magnet { repel, i });
                },
                None => {},
            }
            i += 1;
        }
        magnets
    }

    /// The pull of a magnet that lies `(dx, dy)` away.
    pub fn pull_toward(dx: i32, dy: i32) -> (f: (i32, i32))
        ensures
            (f.0 as int, f.1 as int) == pull(dx as int, dy as int),
            -127 <= f.0 <= 127,
            -127 <= f.1 <= 127,
    {
        if dx < -127 || dx > 127 || dy < -127 || dy > 127 {
            proof {
                lemma_beyond_reach(dx as int, dy as int);
            }
            return (0, 0);
        }
        assert(dx * dx <= 127 * 127 && dy * dy <= 127 * 127 && 0 <= dx * dx && 0 <= dy * dy)
            by (nonlinear_arith)
            requires
                -127 <= dx <= 127,
                -127 <= dy <= 127,
        ;
        let d2: i32 = dx * dx + dy * dy;
        if d2 == 0 || d2 > 127 * 127 {
            return (0, 0);
        }
        let a: i32 = if dx < 0 {
            -dx
        } else {
            dx
        };
        assert(a * a == dx * dx) by (nonlinear_arith)
            requires
                a == dx || a == -dx,
        ;
        let (r, _) = floor_over_root(127 * (a as u64), d2 as u64);
        let n: u64 = d2 as u64 + 127 * (a as u64);
        let (q, exact) = floor_over_root(n, d2 as u64);
        let m: u64 = if exact {
            q
        } else {
            q + 1
        };
        proof {
            lemma_along_from_root(r as int, a as int, d2 as int);
            lemma_across_from_root(q as int, m as int, a as int, d2 as int);
            lemma_share_along(r - a, a as int, d2 as int);
            lemma_share_across(127 + a - m, a as int, d2 as int);
        }
        let along: i32 = (r as i32) - a;
        let across: i32 = 127 + a - (m as i32);
        let fx = if dx < 0 {
            -along
        } else if dx > 0 {
            along
        } else {
            0
        };
        let fy = if dy < 0 {
            -across
        } else if dy > 0 {
            across
        } else {
            0
        };
        (fx, fy)
    }

    /// The force of this magnet at the point `(x, y)`.
    pub fn force_at(&self, x: usize, y: usize) -> (f: (i32, i32))
        ensures
            (f.0 as int, f.1 as int) == magnet_force(*self, x as int, y as int),
            -127 <= f.0 <= 127,
            -127 <= f.1 <= 127,
    {
        let (magnet_x, magnet_y) = TrackMap::index_to_xy(self.i);
        let screen_x = (magnet_x * TrackMap::TILESIZE) + 8;
        let screen_y = (magnet_y * TrackMap::TILESIZE) + 8;
        let beyond_x = if screen_x >= x {
            screen_x - x > 127
        } else {
            x - screen_x > 127
        };
        let beyond_y = if screen_y >= y {
            screen_y - y > 127
        } else {
            y - screen_y > 127
        };
        if beyond_x || beyond_y {
            proof {
                lemma_beyond_reach(screen_x - x, screen_y - y);
            }
            return (0, 0);
        }
        let delta_x = if screen_x >= x {
            (screen_x - x) as i32
        } else {
            -((x - screen_x) as i32)
        };
        let delta_y = if screen_y >= y {
            (screen_y - y) as i32
        } else {
            -((y - screen_y) as i32)
        };
        let (force_x, force_y) = Magnet::pull_toward(delta_x, delta_y);
        if self.repel {
            (-force_x, -force_y)
        } else {
            (force_x, force_y)
        }
    }
}

impl MagnetForces {
    /// Rows of cells: the height of the course in units, by the side of a cell.
    pub const MAGNETHEIGHT: usize = 75;

    /// Columns of cells: the width of the course in units, by the side of a cell.
    pub const MAGNETWIDTH: usize = 147;

    /// Number of sample cells.
    pub open spec fn cells() -> int {
        MagnetForces::MAGNETWIDTH * MagnetForces::MAGNETHEIGHT
    }

    /// The field covers the whole course.
    pub open spec fn wf(&self) -> bool {
        self.forces@.len() == MagnetForces::cells()
    }

    /// The number of the cell that `get_force` reads for `(x, y)`: `x` counts
    /// course units, `y` counts rows of cells.
    pub open spec fn cell_index(x: int, y: int) -> int {
        y * 147 + x / 5
    }

    /// The force in the cell for `(x, y)`, or `None` where that cell lies
    /// outside the field.
    pub fn get_force(&self, x: usize, y: usize) -> (r: Option<[i32; 2]>)
        ensures
            r == if MagnetForces::cell_index(x as int, y as int) < self.forces@.len() {
                Some(self.forces@[MagnetForces::cell_index(x as int, y as int)])
            } else {
                None
            },
            self.wf() && MagnetForces::cell_index(x as int, y as int) >= MagnetForces::cells()
                ==> r is None,
    {
        let len = self.forces.len();
        assert(y * MagnetForces::MAGNETWIDTH == y * 147) by (nonlinear_arith)
            requires
                MagnetForces::MAGNETWIDTH == 147,
        ;
        let row = match y.checked_mul(MagnetForces::MAGNETWIDTH) {
            Some(row) => row,
            None => {
                return None;
            },
        };
        let index = match row.checked_add(x / 5) {
            Some(index) => index,
            None => {
                return None;
            },
        };
        if index < len {
            Some(self.forces[index])
        } else {
            None
        }
    }

    /// Computes the field of the given magnets.
    pub fn calculate_forces(magnets: &[Magnet]) -> (field: MagnetForces)
        requires
            magnets@.len() * 127 <= i32::MAX,
        ensures
            field.wf(),
            forall|cell: int|
                0 <= cell < MagnetForces::cells() ==> {
                    let point = sample_point(cell);
                    let force = total_force(magnets@, point.0, point.1);
                    is_force(#[trigger] field.forces@[cell], force)
                },
    {
        let mut forces: Vec<[i32; 2]> = Vec::new();
        let mut cell: usize = 0;
        while cell < MagnetForces::MAGNETWIDTH * MagnetForces::MAGNETHEIGHT
            invariant
                cell <= MagnetForces::cells(),
                forces@.len() == cell,
                magnets@.len() * 127 <= i32::MAX,
                forall|c: int|
                    0 <= c < cell ==> {
                        let point = sample_point(c);
                        let force = total_force(magnets@, point.0, point.1);
                        is_force(#[trigger] forces@[c], force)
                    },
            decreases MagnetForces::cells() - cell,
        {
            let x = (cell % MagnetForces::MAGNETWIDTH) * 5 + 2;
            let y = (cell / MagnetForces::MAGNETWIDTH) * 5 + 2;
            let total = MagnetForces::total_force_at(magnets, x, y);
            forces.push(total);
            cell += 1;
        }
        MagnetForces { forces }
    }

    /// The force of all the given magnets at the point `(x, y)`.
    pub fn total_force_at(magnets: &[Magnet], x: usize, y: usize) -> (total: [i32; 2])
        requires
            magnets@.len() * 127 <= i32::MAX,
        ensures
            is_force(total, total_force(magnets@, x as int, y as int)),
            -127 * magnets@.len() <= total_force(magnets@, x as int, y as int).0 <= 127
                * magnets@.len(),
            -127 * magnets@.len() <= total_force(magnets@, x as int, y as int).1 <= 127
                * magnets@.len(),
    {
        let mut total_x: i32 = 0;
        let mut total_y: i32 = 0;
        let mut k: usize = 0;
        assert(magnets@.take(0) =~= Seq::<Magnet>::empty());
        while k < magnets.len()
            invariant
                k <= magnets.len(),
                magnets@.len() * 127 <= i32::MAX,
                (total_x as int, total_y as int) == total_force(
                    magnets@.take(k as int),
                    x as int,
                    y as int,
                ),
                -127 * k <= total_x <= 127 * k,
                -127 * k <= total_y <= 127 * k,
            decreases magnets.len() - k,
        {
            let (force_x, force_y) = magnets[k].force_at(x, y);
            assert(magnets@.take(k + 1).drop_last() =~= magnets@.take(k as int));
            total_x += force_x;
            total_y += force_y;
            k += 1;
        }
        assert(magnets@.take(k as int) =~= magnets@);
        [total_x, total_y]
    }
}

/// The field has a fifth of the course's resolution along each axis.
pub proof fn lemma_field_size()
    ensures
        MagnetForces::MAGNETWIDTH == TrackMap::WIDTH * TrackMap::TILESIZE / 5,
        MagnetForces::MAGNETHEIGHT == TrackMap::HEIGHT * TrackMap::TILESIZE / 5,
        MagnetForces::cells() == 11025,
{
}

/// A point further than 127 units from a magnet along either axis feels
/// nothing of it.
pub proof fn lemma_beyond_reach(dx: int, dy: int)
    requires
        abs(dx) > 127 || abs(dy) > 127,
    ensures
        pull(dx, dy) == (0int, 0int),
{
    assert(dx * dx >= 0 && dy * dy >= 0) by (nonlinear_arith);
    if abs(dx) > 127 {
        lemma_square_monotonic(128, abs(dx));
        assert(abs(dx) * abs(dx) == dx * dx) by (nonlinear_arith);
    } else {
        lemma_square_monotonic(128, abs(dy));
        assert(abs(dy) * abs(dy) == dy * dy) by (nonlinear_arith);
    }
}

/// Directly east or west of a magnet the whole strength acts along x, and
/// directly north or south along y.
pub proof fn lemma_pull_on_axis(d: int)
    requires
        0 < d <= 127,
    ensures
        pull(d, 0) == (127 - d, 0int),
        pull(-d, 0) == (d - 127, 0int),
        pull(0, d) == (0int, 127 - d),
        pull(0, -d) == (0int, d - 127),
{
    let d2 = d * d;
    assert(0 < d2 <= 127 * 127) by (nonlinear_arith)
        requires
            0 < d <= 127,
            d2 == d * d,
    ;
    assert((-d) * (-d) == d * d) by (nonlinear_arith);
    // along x: a = d, the shares are 127 - d and 0
    assert(is_share_along(127 - d, d, d2)) by (nonlinear_arith)
        requires
            0 < d <= 127,
            d2 == d * d,
    ;
    assert(is_share_across(0, d, d2)) by (nonlinear_arith)
        requires
            0 < d <= 127,
            d2 == d * d,
    ;
    lemma_share_along(127 - d, d, d2);
    lemma_share_across(0, d, d2);
    // along y: a = 0, the shares are 0 and 127 - d
    assert(is_share_along(0, 0, d2)) by (nonlinear_arith)
        requires
            0 < d <= 127,
            d2 == d * d,
    ;
    assert(is_share_across(127 - d, 0, d2)) by (nonlinear_arith)
        requires
            0 < d <= 127,
            d2 == d * d,
    ;
    lemma_share_along(0, 0, d2);
    lemma_share_across(127 - d, 0, d2);
}

} // verus!
