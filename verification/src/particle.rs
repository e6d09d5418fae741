//! One simulated body: position, fixed square size, fading opacity, velocity.
//!
//! All fields are fixed-point integers in 1/6400 of a drawing-surface unit.
//! A particle is created at the fixed spawn point with randomized size and
//! velocity, and advances once per tick: position integrates velocity, the
//! vertical velocity gains gravity, and the opacity fades. The opacity is
//! deliberately never clamped; it goes negative on a long-lived particle.

use vstd::prelude::*;
use crate::rng::{rand_at, RandomSource};

verus! {

/// Units per drawing-surface unit: all quantities are multiples of 1/6400.
pub const SCALE: i64 = 6400;

/// Spawn point, identical for every particle: (375, 500) in drawing units.
pub const SPAWN_X: i64 = 375 * SCALE;
/// See `SPAWN_X`.
pub const SPAWN_Y: i64 = 500 * SCALE;

/// Downward acceleration per tick: 0.1 drawing units.
pub const GRAVITY: i64 = 640;

/// Opacity lost per tick: 0.01.
pub const FADE_RATE: i64 = 64;

/// Opacity at creation: 1.0.
pub const ALPHA_START: i64 = 6400;

/// The mathematical state of a particle: the same fields as `Particle`, over
/// unbounded integers, with the velocity flattened in.
pub ghost struct PState {
    pub x: int,
    pub y: int,
    pub width: int,
    pub height: int,
    pub alpha: int,
    pub vx: int,
    pub vy: int,
}

/// Signed rate of change of position per tick, in 1/6400 units.
#[derive(Clone, Copy, PartialEq, Eq, Structural, Debug)]
pub struct Velocity {
    pub vx: i64,
    pub vy: i64,
}

/// One particle: `(x, y)` is the top-left drawing position, `width == height`
/// is fixed at creation, `alpha` starts at 1.0 and only decreases.
#[derive(Clone, Copy, PartialEq, Eq, Structural, Debug)]
pub struct Particle {
    pub x: i64,
    pub y: i64,
    pub width: i64,
    pub height: i64,
    pub alpha: i64,
    pub velocity: Velocity,
}

impl View for Particle {
    type V = PState;

    open spec fn view(&self) -> PState {
        PState {
            x: self.x as int,
            y: self.y as int,
            width: self.width as int,
            height: self.height as int,
            alpha: self.alpha as int,
            vx: self.velocity.vx as int,
            vy: self.velocity.vy as int,
        }
    }
}

/// The magnitude of a spec value.
pub open spec fn abs(v: int) -> int {
    if v < 0 {
        -v
    } else {
        v
    }
}

/// The particle created from three successive draws `r1, r2, r3`:
/// size `|r1| * 25`, horizontal velocity `r2 * 5` with the drawn sign kept,
/// vertical velocity `-|r3| * 10` (an upward kick or none), full opacity, at
/// the fixed spawn point.
pub open spec fn created(r1: int, r2: int, r3: int) -> PState {
    PState {
        x: SPAWN_X as int,
        y: SPAWN_Y as int,
        width: 25 * abs(r1),
        height: 25 * abs(r1),
        alpha: ALPHA_START as int,
        vx: 5 * r2,
        vy: -10 * abs(r3),
    }
}

/// The particle created from the three draws whose six bytes sit at `pos`.
pub open spec fn created_at(bytes: Seq<u8>, pos: int) -> PState {
    created(rand_at(bytes, pos), rand_at(bytes, pos + 2), rand_at(bytes, pos + 4))
}

/// The state one tick after `p`: position integrates velocity, the vertical
/// velocity gains gravity, the opacity fades; size and horizontal velocity
/// never change.
pub open spec fn updated(p: PState) -> PState {
    PState {
        x: p.x + p.vx,
        y: p.y + p.vy,
        width: p.width,
        height: p.height,
        alpha: p.alpha - FADE_RATE,
        vx: p.vx,
        vy: p.vy + GRAVITY,
    }
}

/// The state `n` ticks after `p`.
pub open spec fn iterated(p: PState, n: nat) -> PState
    decreases n,
{
    if n == 0 {
        p
    } else {
        updated(iterated(p, (n - 1) as nat))
    }
}

/// Every particle freshly created from draws lies at the fixed spawn point
/// with full opacity, a square size below 25 drawing units, a horizontal
/// velocity strictly between -5 and 5 with the drawn sign kept, and a
/// vertical velocity in (-10, 0].
pub proof fn lemma_created_bounds(r1: int, r2: int, r3: int)
    requires
        -6400 < r1 < 6400,
        -6400 < r2 < 6400,
        -6400 < r3 < 6400,
    ensures
        created(r1, r2, r3).x == SPAWN_X as int,
        created(r1, r2, r3).y == SPAWN_Y as int,
        created(r1, r2, r3).alpha == ALPHA_START as int,
        created(r1, r2, r3).width == created(r1, r2, r3).height,
        0 <= created(r1, r2, r3).width < 25 * SCALE,
        -5 * SCALE < created(r1, r2, r3).vx < 5 * SCALE,
        -10 * SCALE < created(r1, r2, r3).vy <= 0,
{
}

/// Advancing a particle `n` ticks fades its opacity by exactly `n` fade
/// steps (so from 1.0 it reaches `1.0 - 0.01 * n`, and goes negative once
/// `n` exceeds 100), moves it by the accumulated velocity, keeps its size
/// and horizontal velocity, and adds `n` gravity steps to its vertical
/// velocity.
pub proof fn lemma_iterated_fade(p: PState, n: nat)
    ensures
        iterated(p, n).alpha == p.alpha - n * FADE_RATE,
        iterated(p, n).vy == p.vy + n * GRAVITY,
        iterated(p, n).vx == p.vx,
        iterated(p, n).x == p.x + n * p.vx,
        iterated(p, n).width == p.width,
        iterated(p, n).height == p.height,
    decreases n,
{
    if n > 0 {
        lemma_iterated_fade(p, (n - 1) as nat);
        assert((n - 1) * FADE_RATE == n * FADE_RATE - FADE_RATE) by (nonlinear_arith);
        assert((n - 1) * GRAVITY == n * GRAVITY - GRAVITY) by (nonlinear_arith);
        assert((n - 1) * p.vx == n * p.vx - p.vx) by (nonlinear_arith);
    }
}

/// The conserved quantity of the update rule, an exact discrete analogue of
/// mechanical energy: advancing a particle one tick leaves
/// `vy^2 - GRAVITY*vy - 2*GRAVITY*y` unchanged (the coefficients are the
/// gravity step 640 and twice the gravity step).
pub open spec fn energy(p: PState) -> int {
    p.vy * p.vy - 640 * p.vy - 1280 * p.y
}

/// The largest energy a particle can be created with: reached at the
/// strongest upward kick (`vy == -63750`) from the spawn height.
pub const ENERGY_MAX: i64 = 8_862_500;

/// What holds of every particle the simulation can produce, at every tick
/// boundary: a square of size below 25 units, bounded horizontal velocity,
/// the vertical velocity at least the strongest upward kick, opacity at most
/// full and tied to the particle's age (opacity counts ticks, so the
/// vertical velocity, which gains one gravity step per tick, lies within
/// `[kick_min, 0] + GRAVITY * age`), position at or above the sea boundary,
/// bounded energy, and a horizontal drift from the spawn point of at most
/// the top horizontal speed per tick of age.
pub open spec fn inv_p(p: PState, sea: int) -> bool {
    &&& p.width == p.height
    &&& 0 <= p.width <= 159375
    &&& -31875 <= p.vx <= 31875
    &&& -63750 <= p.vy
    &&& p.alpha <= ALPHA_START as int
    &&& p.vy <= 10 * (ALPHA_START as int - p.alpha)
    &&& p.vy >= -63750 + 10 * (ALPHA_START as int - p.alpha)
    &&& p.y <= sea
    &&& energy(p) <= ENERGY_MAX as int
    &&& 64 * (p.x - SPAWN_X as int) <= 31875 * (ALPHA_START as int - p.alpha)
    &&& 64 * (SPAWN_X as int - p.x) <= 31875 * (ALPHA_START as int - p.alpha)
}

/// A freshly created particle satisfies the invariant, for any boundary at
/// or below the spawn point.
pub proof fn lemma_created_inv(bytes: Seq<u8>, pos: int, sea: int)
    requires
        SPAWN_Y as int <= sea,
    ensures
        inv_p(created_at(bytes, pos), sea),
{
    let p = created_at(bytes, pos);
    assert(abs(rand_at(bytes, pos)) <= 6375);
    assert(abs(rand_at(bytes, pos + 2)) <= 6375);
    assert(abs(rand_at(bytes, pos + 4)) <= 6375);
    assert(p.vy * p.vy - 640 * p.vy <= 4_104_862_500) by (nonlinear_arith)
        requires
            -63750 <= p.vy <= 0,
    ;
}

/// Numeric ranges every invariant-respecting particle lies in; they leave
/// ample headroom in a 64-bit field for one more tick.
pub proof fn lemma_inv_ranges(p: PState, sea: int)
    requires
        inv_p(p, sea),
        SPAWN_Y as int <= sea <= 1000 * (SCALE as int),
    ensures
        -63750 <= p.vy <= 90880,
        -9100 <= p.alpha <= ALPHA_START as int,
        -5_310_000 <= p.x <= 10_110_000,
        -7100 <= p.y <= sea,
        -31875 <= p.vx <= 31875,
        p.width == p.height,
        0 <= p.width <= 159375,
{
    assert(p.vy * p.vy - 640 * p.vy <= 8_200_862_500);
    assert((p.vy - 320) * (p.vy - 320) <= 8_200_964_900) by (nonlinear_arith)
        requires
            p.vy * p.vy - 640 * p.vy <= 8_200_862_500,
    ;
    assert(p.vy <= 90880) by (nonlinear_arith)
        requires
            (p.vy - 320) * (p.vy - 320) <= 8_200_964_900,
    ;
    assert(p.vy * p.vy - 640 * p.vy >= -102_400) by (nonlinear_arith);
}

/// Advancing a particle that does not cross the boundary preserves the
/// invariant; in particular the energy is conserved exactly.
pub proof fn lemma_update_keeps_inv(p: PState, sea: int)
    requires
        inv_p(p, sea),
        SPAWN_Y as int <= sea <= 1000 * (SCALE as int),
        updated(p).y <= sea,
    ensures
        inv_p(updated(p), sea),
{
    let q = updated(p);
    assert(energy(q) == energy(p)) by (nonlinear_arith)
        requires
            q.vy == p.vy + 640,
            q.y == p.y + p.vy,
            q.vy * q.vy - 640 * q.vy - 1280 * q.y == energy(q),
            p.vy * p.vy - 640 * p.vy - 1280 * p.y == energy(p),
    ;
}

impl Particle {
    /// Creation from three draws of the random source: randomized square
    /// size in [0, 25), horizontal velocity in (-5, 5) with the drawn sign,
    /// vertical velocity in (-10, 0], full opacity, fixed spawn point.
    pub fn new(rng: &mut RandomSource) -> (p: Particle)
        requires
            old(rng).wf(),
            old(rng).remaining() >= 6,
        ensures
            final(rng).wf(),
            final(rng).bytes@ == old(rng).bytes@,
            final(rng).pos == old(rng).pos + 6,
            p@ == created_at(old(rng).bytes@, old(rng).pos as int),
    {
        let r1 = rng.next();
        let r2 = rng.next();
        let r3 = rng.next();

        let mut size = r1 * 25;
        if size < 0 {
            size = -size;
        }

        let dx = r2 * 5;
        let mut dy = -(r3 * 10);
        if dy > 0 {
            dy = -dy;
        }
        proof {
            let ghost bytes = old(rng).bytes@;
            let ghost pos = old(rng).pos as int;
            assert(size as int == 25 * abs(rand_at(bytes, pos)));
            assert(dy as int == -10 * abs(rand_at(bytes, pos + 4)));
        }

        Particle {
            x: SPAWN_X,
            y: SPAWN_Y,
            width: size,
            height: size,
            alpha: ALPHA_START,
            velocity: Velocity { vx: dx, vy: dy },
        }
    }

    /// One tick of projectile motion, exactly `updated`: `x += vx`,
    /// `y += vy`, then `vy += 0.1` and `alpha -= 0.01` (never clamped).
    pub fn update(&mut self)
        requires
            i64::MIN <= old(self).x + old(self).velocity.vx <= i64::MAX,
            i64::MIN <= old(self).y + old(self).velocity.vy <= i64::MAX,
            old(self).velocity.vy + GRAVITY <= i64::MAX,
            i64::MIN <= old(self).alpha - FADE_RATE,
        ensures
            final(self)@ == updated(old(self)@),
    {
        self.x = self.x + self.velocity.vx;
        self.y = self.y + self.velocity.vy;
        self.velocity.vy = self.velocity.vy + GRAVITY;
        self.alpha = self.alpha - FADE_RATE;
    }
}

} // verus!
