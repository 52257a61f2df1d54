//! The two batched kernels of a simulated day: moving every agent inside the
//! area, and the all-pairs proximity test.
use vstd::prelude::*;

verus! {

/// Largest magnitude of a coordinate, a velocity component or an area bound.
pub const COORD_LIMIT: i64 = 1_000_000_000_000;

pub open spec fn coord_ok(x: int) -> bool {
    -COORD_LIMIT <= x <= COORD_LIMIT
}

pub open spec fn coords_ok(s: Seq<i64>) -> bool {
    forall|i: int| 0 <= i < s.len() ==> coord_ok(#[trigger] s[i] as int)
}

/// Positions and velocities of every agent on one day, as parallel arrays.
#[derive(Debug)]
pub struct Kinematics {
    pub pos_x: Vec<i64>,
    pub pos_y: Vec<i64>,
    pub vel_x: Vec<i64>,
    pub vel_y: Vec<i64>,
}

impl Kinematics {
    pub open spec fn len(&self) -> nat {
        self.pos_x@.len()
    }

    /// The four arrays have one length and hold representable values.
    pub open spec fn wf(&self) -> bool {
        &&& self.pos_y@.len() == self.len()
        &&& self.vel_x@.len() == self.len()
        &&& self.vel_y@.len() == self.len()
        &&& coords_ok(self.pos_x@)
        &&& coords_ok(self.pos_y@)
        &&& coords_ok(self.vel_x@)
        &&& coords_ok(self.vel_y@)
    }

    /// Arrays with no agent in them.
    pub fn empty() -> (r: Kinematics)
        ensures
            r.wf(),
            r.len() == 0,
    {
        Kinematics { pos_x: Vec::new(), pos_y: Vec::new(), vel_x: Vec::new(), vel_y: Vec::new() }
    }
}

pub open spec fn clamp_to(x: int, b: int) -> int {
    if x < 0 {
        0
    } else if x > b {
        b
    } else {
        x
    }
}

/// One axis of a move inside `[0, b]`: an agent that would leave the area is
/// reflected back into it and its velocity on that axis turns round.
pub open spec fn reflect_axis(p: int, v: int, b: int) -> (int, int) {
    let n = p + v;
    if n < 0 {
        (clamp_to(-n, b), -v)
    } else if n > b {
        (clamp_to(2 * b - n, b), -v)
    } else {
        (n, v)
    }
}

fn step_axis(p: i64, v: i64, b: i64) -> (r: (i64, i64))
    requires
        coord_ok(p as int),
        coord_ok(v as int),
        0 <= b <= COORD_LIMIT,
    ensures
        (r.0 as int, r.1 as int) == reflect_axis(p as int, v as int, b as int),
        0 <= r.0 <= b,
        coord_ok(r.1 as int),
{
    let n: i64 = p + v;
    let m: i64 = if n < 0 {
        -n
    } else if n > b {
        2 * b - n
    } else {
        return (n, v);
    };
    let q: i64 = if m < 0 {
        0
    } else if m > b {
        b
    } else {
        m
    };
    (q, -v)
}

/// Moves every agent by its velocity for one day inside the area
/// `[0, bound_x] x [0, bound_y]`.
pub fn advance_positions(k: &Kinematics, bound_x: i64, bound_y: i64) -> (r: Kinematics)
    requires
        k.wf(),
        0 <= bound_x <= COORD_LIMIT,
        0 <= bound_y <= COORD_LIMIT,
    ensures
        r.wf(),
        r.len() == k.len(),
        forall|i: int|
            0 <= i < k.len() ==> {
                &&& (#[trigger] r.pos_x@[i] as int, r.vel_x@[i] as int) == reflect_axis(
                    k.pos_x@[i] as int,
                    k.vel_x@[i] as int,
                    bound_x as int,
                )
                &&& (r.pos_y@[i] as int, r.vel_y@[i] as int) == reflect_axis(
                    k.pos_y@[i] as int,
                    k.vel_y@[i] as int,
                    bound_y as int,
                )
                &&& 0 <= r.pos_x@[i] <= bound_x
                &&& 0 <= r.pos_y@[i] <= bound_y
            },
{
    let n = k.pos_x.len();
    let mut r = Kinematics::empty();
    let mut i: usize = 0;
    while i < n
        invariant
            k.wf(),
            n == k.len(),
            0 <= bound_x <= COORD_LIMIT,
            0 <= bound_y <= COORD_LIMIT,
            i <= n,
            r.wf(),
            r.len() == i,
            forall|j: int|
                0 <= j < i ==> {
                    &&& (#[trigger] r.pos_x@[j] as int, r.vel_x@[j] as int) == reflect_axis(
                        k.pos_x@[j] as int,
                        k.vel_x@[j] as int,
                        bound_x as int,
                    )
                    &&& (r.pos_y@[j] as int, r.vel_y@[j] as int) == reflect_axis(
                        k.pos_y@[j] as int,
                        k.vel_y@[j] as int,
                        bound_y as int,
                    )
                    &&& 0 <= r.pos_x@[j] <= bound_x
                    &&& 0 <= r.pos_y@[j] <= bound_y
                },
        decreases n - i,
    {
        assert(coord_ok(k.pos_x@[i as int] as int));
        assert(coord_ok(k.vel_x@[i as int] as int));
        assert(coord_ok(k.pos_y@[i as int] as int));
        assert(coord_ok(k.vel_y@[i as int] as int));
        let (px, vx) = step_axis(k.pos_x[i], k.vel_x[i], bound_x);
        let (py, vy) = step_axis(k.pos_y[i], k.vel_y[i], bound_y);
        r.pos_x.push(px);
        r.vel_x.push(vx);
        r.pos_y.push(py);
        r.vel_y.push(vy);
        i = i + 1;
    }
    r
}

pub open spec fn dist_sq(ax: int, ay: int, bx: int, by: int) -> int {
    (ax - bx) * (ax - bx) + (ay - by) * (ay - by)
}

/// Agent `i` is infected and lies within the radius of agent `j`.
pub open spec fn in_contact(
    px: Seq<i64>,
    py: Seq<i64>,
    inf: Seq<u32>,
    radius_sq: int,
    i: int,
    j: int,
) -> bool {
    inf[i] != 0 && dist_sq(px[i] as int, py[i] as int, px[j] as int, py[j] as int) <= radius_sq
}

/// Some infected agent lies within the radius of agent `j`.
pub open spec fn exposed(px: Seq<i64>, py: Seq<i64>, inf: Seq<u32>, radius_sq: int, j: int) -> bool {
    exists|i: int| 0 <= i < inf.len() && #[trigger] in_contact(px, py, inf, radius_sq, i, j)
}

/// The flag of agent `j` after the proximity test: infected agents stay
/// infected; an exposed agent becomes infected when its draw falls below its
/// transmission probability.
pub open spec fn detected_flag(
    px: Seq<i64>,
    py: Seq<i64>,
    inf: Seq<u32>,
    radius_sq: int,
    chance: Seq<u64>,
    draws: Seq<u64>,
    j: int,
) -> u32 {
    if inf[j] != 0 || (draws[j] < chance[j] && exposed(px, py, inf, radius_sq, j)) {
        1
    } else {
        0
    }
}

fn distance_sq(ax: i64, ay: i64, bx: i64, by: i64) -> (r: i128)
    requires
        coord_ok(ax as int),
        coord_ok(ay as int),
        coord_ok(bx as int),
        coord_ok(by as int),
    ensures
        r as int == dist_sq(ax as int, ay as int, bx as int, by as int),
{
    let dx: i128 = ax as i128 - bx as i128;
    let dy: i128 = ay as i128 - by as i128;
    assert(dx * dx <= 4_000_000_000_000_000_000_000_000) by (nonlinear_arith)
        requires
            -2_000_000_000_000 <= dx <= 2_000_000_000_000,
    ;
    assert(dy * dy <= 4_000_000_000_000_000_000_000_000) by (nonlinear_arith)
        requires
            -2_000_000_000_000 <= dy <= 2_000_000_000_000,
    ;
    assert(0 <= dx * dx && 0 <= dy * dy) by (nonlinear_arith);
    dx * dx + dy * dy
}

/// Whether some infected agent lies within the radius of agent `j`.
fn has_infected_contact(
    px: &Vec<i64>,
    py: &Vec<i64>,
    inf: &Vec<u32>,
    radius_sq: i128,
    j: usize,
) -> (r: bool)
    requires
        px@.len() == inf@.len(),
        py@.len() == inf@.len(),
        coords_ok(px@),
        coords_ok(py@),
        j < inf@.len(),
    ensures
        r == exposed(px@, py@, inf@, radius_sq as int, j as int),
{
    let n = inf.len();
    let mut i: usize = 0;
    while i < n
        invariant
            n == inf@.len(),
            px@.len() == n,
            py@.len() == n,
            coords_ok(px@),
            coords_ok(py@),
            j < n,
            i <= n,
            forall|k: int| 0 <= k < i ==> !#[trigger] in_contact(px@, py@, inf@, radius_sq as int, k, j as int),
        decreases n - i,
    {
        if inf[i] != 0 {
            assert(coord_ok(px@[i as int] as int) && coord_ok(px@[j as int] as int));
            assert(coord_ok(py@[i as int] as int) && coord_ok(py@[j as int] as int));
            if distance_sq(px[i], py[i], px[j], py[j]) <= radius_sq {
                assert(in_contact(px@, py@, inf@, radius_sq as int, i as int, j as int));
                return true;
            }
        }
        i = i + 1;
    }
    false
}

/// The all-pairs proximity test of one day: every agent within the radius of
/// an infected agent becomes infected, subject to its own transmission
/// probability (`chance`) against its draw (`draws`).
pub fn detect_infections(
    px: &Vec<i64>,
    py: &Vec<i64>,
    inf: &Vec<u32>,
    radius_sq: i128,
    chance: &Vec<u64>,
    draws: &Vec<u64>,
) -> (r: Vec<u32>)
    requires
        px@.len() == inf@.len(),
        py@.len() == inf@.len(),
        chance@.len() == inf@.len(),
        draws@.len() == inf@.len(),
        coords_ok(px@),
        coords_ok(py@),
    ensures
        r@.len() == inf@.len(),
        forall|j: int|
            0 <= j < inf@.len() ==> #[trigger] r@[j] == detected_flag(
                px@,
                py@,
                inf@,
                radius_sq as int,
                chance@,
                draws@,
                j,
            ),
        forall|j: int| 0 <= j < inf@.len() && inf@[j] != 0 ==> #[trigger] r@[j] == 1,
{
    let n = inf.len();
    let mut r: Vec<u32> = Vec::new();
    let mut j: usize = 0;
    while j < n
        invariant
            n == inf@.len(),
            px@.len() == n,
            py@.len() == n,
            chance@.len() == n,
            draws@.len() == n,
            coords_ok(px@),
            coords_ok(py@),
            j <= n,
            r@.len() == j,
            forall|k: int|
                0 <= k < j ==> #[trigger] r@[k] == detected_flag(
                    px@,
                    py@,
                    inf@,
                    radius_sq as int,
                    chance@,
                    draws@,
                    k,
                ),
        decreases n - j,
    {
        let flag: u32 = if inf[j] != 0 {
            1
        } else if draws[j] < chance[j] && has_infected_contact(px, py, inf, radius_sq, j) {
            1
        } else {
            0
        };
        r.push(flag);
        j = j + 1;
    }
    r
}

} // verus!
