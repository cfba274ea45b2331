use vstd::prelude::*;
use crate::components::Position;

verus! {

/// A body that attracts and is attracted: its position and its mass, in
/// thousandths. A massless body exerts no pull but still feels one.
#[derive(Clone, Copy, Debug, PartialEq, Eq, Structural)]
pub struct MassPoint {
    pub position: Position,
    pub mass: u32,
}

/// A force in thousandths, wide enough for the sum over any number of bodies.
#[derive(Clone, Copy, Debug, PartialEq, Eq, Structural)]
pub struct Force {
    pub x: i128,
    pub y: i128,
}

/// The gravity constant: 0.3 with lengths, masses and forces in thousandths.
pub const GRAVITY: i128 = 300;

/// Largest pull that one pair can exert along one axis.
pub const PULL_MAX: i128 = 300 * 0xffff_ffff * 0xffff_ffff;

/// Largest number of bodies whose pulls are summed.
pub const MAX_BODIES: usize = 0xffff_ffff;

pub open spec fn dist2(a: MassPoint, b: MassPoint) -> int {
    let dx = b.position.x - a.position.x;
    let dy = b.position.y - a.position.y;
    dx * dx + dy * dy
}

/// The integer square root, rounded down.
pub open spec fn floor_sqrt(n: nat) -> nat
    decreases n,
{
    if n == 0 {
        0
    } else {
        let r = floor_sqrt((n - 1) as nat);
        if (r + 1) * (r + 1) <= n {
            r + 1
        } else {
            r
        }
    }
}

/// One component of the inverse-square pull: `G * m / d^2` along the unit
/// vector `d_axis / d`, that is `G * d_axis * m / (d2 * d)` with `d` the
/// distance rounded down, the quotient rounded toward zero; zero for
/// coincident bodies (`d2 == 0`).
pub open spec fn pull(d: int, d2: int, m: int) -> int {
    let r = floor_sqrt(d2 as nat);
    if d2 <= 0 {
        0
    } else if d >= 0 {
        (GRAVITY * d * m) / (d2 * r)
    } else {
        -((GRAVITY * (-d) * m) / (d2 * r))
    }
}

proof fn lemma_floor_sqrt(n: nat)
    ensures
        floor_sqrt(n) * floor_sqrt(n) <= n < (floor_sqrt(n) + 1) * (floor_sqrt(n) + 1),
    decreases n,
{
    if n > 0 {
        lemma_floor_sqrt((n - 1) as nat);
        let r = floor_sqrt((n - 1) as nat);
        if (r + 1) * (r + 1) <= n {
            assert(floor_sqrt(n) == r + 1);
            assert(n < (r + 2) * (r + 2)) by (nonlinear_arith)
                requires r >= 0, (r + 1) * (r + 1) <= n, n - 1 < (r + 1) * (r + 1);
            let f = floor_sqrt(n);
            assert(f * f <= n < (f + 1) * (f + 1)) by (nonlinear_arith)
                requires f == r + 1, (r + 1) * (r + 1) <= n, n < (r + 2) * (r + 2);
        } else {
            assert(floor_sqrt(n) == r);
            let f = floor_sqrt(n);
            assert(f * f <= n < (f + 1) * (f + 1)) by (nonlinear_arith)
                requires f == r, r * r <= n - 1, n < (r + 1) * (r + 1);
        }
    } else {
        assert(floor_sqrt(0) == 0);
        assert((0 + 1) * (0 + 1) == 1) by (nonlinear_arith);
    }
}

proof fn lemma_root_unique(r: int, s: int, n: int)
    requires
        r >= 0,
        s >= 0,
        r * r <= n < (r + 1) * (r + 1),
        s * s <= n < (s + 1) * (s + 1),
    ensures
        r == s,
{
    if r < s {
        assert((r + 1) * (r + 1) <= s * s) by (nonlinear_arith)
            requires 0 <= r + 1 <= s;
    } else if s < r {
        assert((s + 1) * (s + 1) <= r * r) by (nonlinear_arith)
            requires 0 <= s + 1 <= r;
    }
}

/// An offset along one axis is at most the distance, rounded down.
proof fn lemma_axis_within_root(d: int, e: int)
    ensures
        (if d >= 0 { d } else { -d }) <= floor_sqrt((d * d + e * e) as nat),
{
    let n = d * d + e * e;
    assert(n >= 0) by (nonlinear_arith)
        requires n == d * d + e * e;
    lemma_floor_sqrt(n as nat);
    let r = floor_sqrt(n as nat) as int;
    let a = if d >= 0 { d } else { -d };
    assert(a * a <= n) by (nonlinear_arith)
        requires a == d || a == -d, n == d * d + e * e;
    if a > r {
        assert((r + 1) * (r + 1) <= a * a) by (nonlinear_arith)
            requires r >= 0, a >= r + 1;
    }
}

/// The integer square root of `n`, by bisection.
fn isqrt(n: i128) -> (r: i128)
    requires
        0 <= n <= 0x4_0000_0000_0000_0000,
    ensures
        r == floor_sqrt(n as nat),
        0 <= r <= 0x2_0000_0000,
{
    let mut lo: i128 = 0;
    let mut hi: i128 = 0x2_0000_0001;
    assert(n < hi * hi) by (nonlinear_arith)
        requires n <= 0x4_0000_0000_0000_0000, hi == 0x2_0000_0001;
    while hi - lo > 1
        invariant
            0 <= lo < hi <= 0x2_0000_0001,
            lo * lo <= n < hi * hi,
        decreases hi - lo,
    {
        let mid = lo + (hi - lo) / 2;
        assert(0 <= mid * mid <= 0x2_0000_0001 * 0x2_0000_0001) by (nonlinear_arith)
            requires 0 <= mid <= 0x2_0000_0001;
        if mid * mid <= n {
            lo = mid;
        } else {
            hi = mid;
        }
    }
    proof {
        lemma_floor_sqrt(n as nat);
        lemma_root_unique(lo as int, floor_sqrt(n as nat) as int, n as int);
    }
    lo
}

/// Pull of `b` on `a` along x.
pub open spec fn pull_x(a: MassPoint, b: MassPoint) -> int {
    pull(b.position.x - a.position.x, dist2(a, b), a.mass * b.mass)
}

/// Pull of `b` on `a` along y.
pub open spec fn pull_y(a: MassPoint, b: MassPoint) -> int {
    pull(b.position.y - a.position.y, dist2(a, b), a.mass * b.mass)
}

/// Net pull along x on body `i` from the first `n` bodies other than itself.
pub open spec fn net_x(s: Seq<MassPoint>, i: int, n: nat) -> int
    decreases n,
{
    if n == 0 {
        0
    } else {
        net_x(s, i, (n - 1) as nat) + if n - 1 == i { 0 } else { pull_x(s[i], s[n - 1]) }
    }
}

/// Net pull along y on body `i` from the first `n` bodies other than itself.
pub open spec fn net_y(s: Seq<MassPoint>, i: int, n: nat) -> int
    decreases n,
{
    if n == 0 {
        0
    } else {
        net_y(s, i, (n - 1) as nat) + if n - 1 == i { 0 } else { pull_y(s[i], s[n - 1]) }
    }
}

proof fn lemma_pull_bound(d: int, e: int, m: int)
    requires
        0 <= m,
    ensures
        -(GRAVITY * m) <= pull(d, d * d + e * e, m) <= GRAVITY * m,
{
    let d2 = d * d + e * e;
    assert(d2 >= 0) by (nonlinear_arith)
        requires d2 == d * d + e * e;
    if d2 > 0 {
        let a = if d >= 0 { d } else { -d };
        lemma_axis_within_root(d, e);
        lemma_floor_sqrt(d2 as nat);
        let r = floor_sqrt(d2 as nat) as int;
        assert(r >= 1) by (nonlinear_arith)
            requires r >= 0, d2 < (r + 1) * (r + 1), d2 >= 1;
        let q = (GRAVITY * a * m) / (d2 * r);
        assert(0 <= q <= GRAVITY * m) by (nonlinear_arith)
            requires
                q == (GRAVITY * a * m) / (d2 * r),
                0 <= a <= r,
                d2 >= 1,
                r >= 1,
                m >= 0,
                GRAVITY == 300,
        {
            assert(d2 * r > 0);
            assert(q * (d2 * r) <= GRAVITY * a * m);
            assert(GRAVITY * a * m <= GRAVITY * r * m);
            assert(q * d2 <= GRAVITY * m);
            assert(q <= q * d2);
        }
    }
}

/// The pull of `b` on `a`.
pub fn pair_force(a: &MassPoint, b: &MassPoint) -> (f: Force)
    ensures
        f.x == pull_x(*a, *b),
        f.y == pull_y(*a, *b),
{
    let dx: i128 = b.position.x as i128 - a.position.x as i128;
    let dy: i128 = b.position.y as i128 - a.position.y as i128;
    assert(0 <= dx * dx <= 0x1_0000_0000 * 0x1_0000_0000) by (nonlinear_arith)
        requires -0x1_0000_0000 <= dx <= 0x1_0000_0000;
    assert(0 <= dy * dy <= 0x1_0000_0000 * 0x1_0000_0000) by (nonlinear_arith)
        requires -0x1_0000_0000 <= dy <= 0x1_0000_0000;
    let d2: i128 = dx * dx + dy * dy;
    if d2 == 0 {
        return Force { x: 0, y: 0 };
    }
    let r = isqrt(d2);
    let ma: i128 = a.mass as i128;
    let mb: i128 = b.mass as i128;
    assert(0 <= ma * mb <= 0xffff_ffff * 0xffff_ffff) by (nonlinear_arith)
        requires 0 <= ma <= 0xffff_ffff, 0 <= mb <= 0xffff_ffff;
    let m: i128 = ma * mb;
    proof {
        lemma_floor_sqrt(d2 as nat);
        assert(r >= 1) by (nonlinear_arith)
            requires r >= 0, d2 < (r + 1) * (r + 1), d2 >= 1;
        assert(0 < d2 * r <= 0x4_0000_0000_0000_0000 * 0x2_0000_0000) by (nonlinear_arith)
            requires 1 <= d2 <= 0x4_0000_0000_0000_0000, 1 <= r <= 0x2_0000_0000;
    }
    let den: i128 = d2 * r;
    Force { x: pull_component(dx, den, m), y: pull_component(dy, den, m) }
}

fn pull_component(d: i128, den: i128, m: i128) -> (r: i128)
    requires
        -0x1_0000_0000 <= d <= 0x1_0000_0000,
        0 < den,
        0 <= m <= 0xffff_ffff * 0xffff_ffff,
    ensures
        d >= 0 ==> r == (GRAVITY * d * m) / (den as int),
        d < 0 ==> r == -((GRAVITY * (-d) * m) / (den as int)),
{
    let a: i128 = if d >= 0 { d } else { -d };
    assert(0 <= GRAVITY * a * m <= 300 * 0x1_0000_0000 * (0xffff_ffff * 0xffff_ffff))
        by (nonlinear_arith)
        requires 0 <= a <= 0x1_0000_0000, 0 <= m <= 0xffff_ffff * 0xffff_ffff, GRAVITY == 300;
    let q: i128 = (GRAVITY * a * m) / den;
    if d >= 0 {
        q
    } else {
        assert(q >= 0) by (nonlinear_arith)
            requires q == (GRAVITY * a * m) / (den as int), a >= 0, m >= 0, den > 0, GRAVITY == 300;
        -q
    }
}

/// The pull of one pair along either axis is at most `G` times the product
/// of the masses: finite whatever the distance.
pub proof fn lemma_pull_bounded(a: MassPoint, b: MassPoint)
    ensures
        -(GRAVITY * a.mass * b.mass) <= pull_x(a, b) <= GRAVITY * a.mass * b.mass,
        -(GRAVITY * a.mass * b.mass) <= pull_y(a, b) <= GRAVITY * a.mass * b.mass,
        -PULL_MAX <= pull_x(a, b) <= PULL_MAX,
        -PULL_MAX <= pull_y(a, b) <= PULL_MAX,
{
    let dx = b.position.x - a.position.x;
    let dy = b.position.y - a.position.y;
    let m = a.mass * b.mass;
    assert(0 <= m <= 0xffff_ffff * 0xffff_ffff) by (nonlinear_arith)
        requires m == a.mass * b.mass, 0 <= a.mass <= 0xffff_ffff, 0 <= b.mass <= 0xffff_ffff;
    assert(GRAVITY * a.mass * b.mass == GRAVITY * m) by (nonlinear_arith)
        requires m == a.mass * b.mass;
    lemma_pull_bound(dx, dy, m);
    lemma_pull_bound(dy, dx, m);
    assert(dy * dy + dx * dx == dist2(a, b));
}

/// The pull of `b` on `a` points toward `b` on each axis (or is zero), and
/// bodies at the same position pull each other with zero force.
pub proof fn lemma_pull_attracts(a: MassPoint, b: MassPoint)
    ensures
        b.position.x > a.position.x ==> pull_x(a, b) >= 0,
        b.position.x < a.position.x ==> pull_x(a, b) <= 0,
        b.position.y > a.position.y ==> pull_y(a, b) >= 0,
        b.position.y < a.position.y ==> pull_y(a, b) <= 0,
        a.position == b.position ==> pull_x(a, b) == 0 && pull_y(a, b) == 0,
{
    let dx = b.position.x - a.position.x;
    let dy = b.position.y - a.position.y;
    let m = a.mass * b.mass;
    assert(m >= 0) by (nonlinear_arith)
        requires m == a.mass * b.mass, a.mass >= 0, b.mass >= 0;
    lemma_pull_sign(dx, dy, m);
    lemma_pull_sign(dy, dx, m);
    assert(dy * dy + dx * dx == dist2(a, b));
    if a.position == b.position {
        assert(dx == 0 && dy == 0);
        assert(dx * dx + dy * dy == 0) by (nonlinear_arith)
            requires dx == 0, dy == 0;
    }
}

proof fn lemma_pull_sign(d: int, e: int, m: int)
    requires
        m >= 0,
    ensures
        d > 0 ==> pull(d, d * d + e * e, m) >= 0,
        d < 0 ==> pull(d, d * d + e * e, m) <= 0,
{
    let d2 = d * d + e * e;
    if d2 > 0 {
        lemma_floor_sqrt(d2 as nat);
        let r = floor_sqrt(d2 as nat) as int;
        assert(r >= 1) by (nonlinear_arith)
            requires r >= 0, d2 < (r + 1) * (r + 1), d2 >= 1;
        let a = if d >= 0 { d } else { -d };
        assert((GRAVITY * a * m) / (d2 * r) >= 0) by (nonlinear_arith)
            requires a >= 0, m >= 0, d2 > 0, r >= 1, GRAVITY == 300;
    }
}

proof fn lemma_pull_odd(d: int, d2: int, m: int)
    ensures
        pull(-d, d2, m) == -pull(d, d2, m),
{
    let r = floor_sqrt(d2 as nat);
    if d == 0 && d2 > 0 {
        lemma_floor_sqrt(d2 as nat);
        assert(d2 * r != 0) by (nonlinear_arith)
            requires r >= 0, d2 < (r + 1) * (r + 1), d2 >= 1;
        assert((GRAVITY * d * m) / (d2 * r) == 0) by (nonlinear_arith)
            requires d == 0, d2 * r != 0;
    }
}

/// Two bodies pull each other with equal and opposite forces.
pub proof fn lemma_pull_mutual(a: MassPoint, b: MassPoint)
    ensures
        pull_x(a, b) == -pull_x(b, a),
        pull_y(a, b) == -pull_y(b, a),
{
    assert(dist2(a, b) == dist2(b, a)) by (nonlinear_arith);
    assert(a.mass * b.mass == b.mass * a.mass) by (nonlinear_arith);
    let d2 = dist2(a, b);
    if d2 > 0 {
        lemma_floor_sqrt(d2 as nat);
        assert(floor_sqrt(d2 as nat) >= 1) by (nonlinear_arith)
            requires floor_sqrt(d2 as nat) >= 0, d2 < (floor_sqrt(d2 as nat) + 1) * (floor_sqrt(
                d2 as nat,
            ) + 1), d2 >= 1;
    }
    lemma_pull_odd(b.position.x - a.position.x, d2, a.mass * b.mass);
    lemma_pull_odd(b.position.y - a.position.y, d2, a.mass * b.mass);
}

/// Inverse square: for two bodies `k` pixels apart on one axis, with
/// masses `ma` and `mb`, the pull along that axis has size
/// `G * ma * mb / k^2` (rounded down) and none across it.
pub proof fn lemma_pull_inverse_square(a: MassPoint, b: MassPoint)
    requires
        a.position.y == b.position.y,
        a.position.x != b.position.x,
    ensures
        ({
            let dx = b.position.x - a.position.x;
            let k = if dx >= 0 { dx } else { -dx };
            let p = pull_x(a, b);
            (if p >= 0 { p } else { -p }) == (GRAVITY * (a.mass * b.mass)) / (k * k)
        }),
        pull_y(a, b) == 0,
{
    let dx = b.position.x - a.position.x;
    let k = if dx >= 0 { dx } else { -dx };
    let m = a.mass * b.mass;
    let d2 = dist2(a, b);
    assert(d2 == k * k) by (nonlinear_arith)
        requires d2 == dx * dx + 0 * 0, k == dx || k == -dx;
    assert(k * k > 0) by (nonlinear_arith)
        requires k > 0;
    lemma_floor_sqrt(d2 as nat);
    assert(k * k <= d2 < (k + 1) * (k + 1)) by (nonlinear_arith)
        requires d2 == k * k, k > 0;
    lemma_root_unique(k, floor_sqrt(d2 as nat) as int, d2);
    assert(m >= 0) by (nonlinear_arith)
        requires m == a.mass * b.mass, a.mass >= 0, b.mass >= 0;
    assert((GRAVITY * k * m) / (d2 * k) == (GRAVITY * m) / (k * k)) by (nonlinear_arith)
        requires d2 == k * k, k > 0, m >= 0,
    {
        let q = (GRAVITY * m) / (k * k);
        let rem = (GRAVITY * m) % (k * k);
        assert(GRAVITY * m == q * (k * k) + rem && 0 <= rem < k * k);
        assert(GRAVITY * k * m == q * (d2 * k) + rem * k);
        assert(0 <= rem * k < d2 * k);
    }
    assert((GRAVITY * 0 * m) / (d2 * k) == 0) by (nonlinear_arith)
        requires d2 == k * k, k > 0;
}

proof fn lemma_net_bounded(s: Seq<MassPoint>, i: int, n: nat)
    requires
        0 <= i < s.len(),
        n <= s.len(),
    ensures
        -(n * PULL_MAX) <= net_x(s, i, n) <= n * PULL_MAX,
        -(n * PULL_MAX) <= net_y(s, i, n) <= n * PULL_MAX,
    decreases n,
{
    if n > 0 {
        lemma_net_bounded(s, i, (n - 1) as nat);
        lemma_pull_bounded(s[i], s[n - 1]);
        assert((n - 1) * PULL_MAX + PULL_MAX == n * PULL_MAX) by (nonlinear_arith);
    }
}

/// The net gravity force on every body: the sum of the pulls of all the
/// other bodies, each of size `G * m1 * m2 / d^2` toward the other body,
/// with coincident pairs contributing nothing.
pub fn apply_gravity(bodies: &Vec<MassPoint>) -> (forces: Vec<Force>)
    requires
        bodies.len() <= MAX_BODIES,
    ensures
        forces.len() == bodies.len(),
        forall|i: int|
            #![trigger forces[i]]
            0 <= i < bodies.len() ==> forces[i].x == net_x(bodies@, i, bodies.len() as nat)
                && forces[i].y == net_y(bodies@, i, bodies.len() as nat),
{
    let n = bodies.len();
    let mut forces: Vec<Force> = Vec::new();
    for i in 0..n
        invariant
            n == bodies.len(),
            n <= MAX_BODIES,
            forces.len() == i,
            forall|k: int|
                #![trigger forces[k]]
                0 <= k < i ==> forces[k].x == net_x(bodies@, k, n as nat) && forces[k].y == net_y(
                    bodies@,
                    k,
                    n as nat,
                ),
    {
        let mut sx: i128 = 0;
        let mut sy: i128 = 0;
        for j in 0..n
            invariant
                n == bodies.len(),
                n <= MAX_BODIES,
                0 <= i < n,
                sx == net_x(bodies@, i as int, j as nat),
                sy == net_y(bodies@, i as int, j as nat),
        {
            proof {
                lemma_net_bounded(bodies@, i as int, j as nat);
                lemma_pull_bounded(bodies@[i as int], bodies@[j as int]);
                assert((j + 1) * PULL_MAX <= MAX_BODIES * PULL_MAX) by (nonlinear_arith)
                    requires j + 1 <= MAX_BODIES, PULL_MAX > 0;
                assert(j * PULL_MAX + PULL_MAX == (j + 1) * PULL_MAX) by (nonlinear_arith);
            }
            if j != i {
                let f = pair_force(&bodies[i], &bodies[j]);
                sx = sx + f.x;
                sy = sy + f.y;
            }
        }
        forces.push(Force { x: sx, y: sy });
    }
    forces
}

} // verus!
