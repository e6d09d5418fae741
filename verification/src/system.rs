//! The particle system: the live collection of particles above the sea
//! boundary, and the per-tick spawn / render-and-advance / cull-and-replace
//! algorithm.
//!
//! A tick is a pure function of the prior particle states and of the random
//! bytes it draws; it returns the frame to draw as plain commands, in the
//! exact order the drawing surface must receive them. Removal is done by
//! keeping, in order, exactly the particles that did not cross the boundary:
//! recorded indices are thus never shifted by earlier removals, so every
//! particle that crosses the boundary in a tick is removed in that same
//! tick's removal pass.

use vstd::prelude::*;
use crate::particle::{created_at, updated, Particle, PState, SCALE, SPAWN_Y};
use crate::particle::lemma_created_inv;
use crate::particle::lemma_inv_ranges;
use crate::particle::lemma_update_keeps_inv;
use crate::particle::inv_p;
use crate::rng::{rand_at, RandomSource};

verus! {

/// The population cap: the spawn roll never adds a particle beyond it.
pub const MAX_PARTICLES: usize = 500;

/// The default sea level: 550 drawing units.
pub const SEA_LEVEL: i64 = 550 * SCALE;

/// The largest supported sea level: 1000 drawing units.
pub const SEA_LEVEL_MAX: i64 = 1000 * SCALE;

/// One drawing instruction of a frame, in the order issued: clear the whole
/// surface, fill the sea region at and below the boundary, or fill one
/// particle's square at its current position with its current opacity.
#[derive(Clone, Copy, PartialEq, Eq, Structural, Debug)]
pub enum RenderCmd {
    Clear,
    Sea,
    Rect { x: i64, y: i64, width: i64, height: i64, alpha: i64 },
}

/// Whether `c` fills exactly the square of the particle state `p`.
pub open spec fn is_rect_of(c: RenderCmd, p: PState) -> bool {
    match c {
        RenderCmd::Rect { x, y, width, height, alpha } => {
            &&& x as int == p.x
            &&& y as int == p.y
            &&& width as int == p.width
            &&& height as int == p.height
            &&& alpha as int == p.alpha
        },
        _ => false,
    }
}

/// The mathematical states of a sequence of particles.
pub open spec fn models(s: Seq<Particle>) -> Seq<PState> {
    Seq::new(s.len(), |i: int| s[i]@)
}

/// Whether the tick's spawn roll succeeds: the drawn value is positive.
pub open spec fn spawn_rolled(bytes: Seq<u8>, pos: int) -> bool {
    rand_at(bytes, pos) > 0
}

/// Whether the tick appends a spawned particle: the roll succeeds and the
/// population is below the cap.
pub open spec fn spawns(s0: Seq<PState>, bytes: Seq<u8>, pos: int) -> bool {
    spawn_rolled(bytes, pos) && s0.len() < MAX_PARTICLES as nat
}

/// The population after the spawn step of a tick that starts with particles
/// `s0` and draws from `bytes` at `pos`.
pub open spec fn after_spawn(s0: Seq<PState>, bytes: Seq<u8>, pos: int) -> Seq<PState> {
    if spawns(s0, bytes, pos) {
        s0.push(created_at(bytes, pos + 2))
    } else {
        s0
    }
}

/// The draw cursor after the spawn step: the roll always costs two bytes, a
/// spawned particle six more.
pub open spec fn pos_after_spawn(s0: Seq<PState>, bytes: Seq<u8>, pos: int) -> int {
    if spawns(s0, bytes, pos) {
        pos + 8
    } else {
        pos + 2
    }
}

/// The advanced particles of `s`, in order, that do not cross the boundary:
/// what the removal pass leaves of the particles present at the start of the
/// render-and-advance pass.
pub open spec fn survivors(s: Seq<PState>, sea: int) -> Seq<PState>
    decreases s.len(),
{
    if s.len() == 0 {
        Seq::empty()
    } else {
        let rest = survivors(s.drop_last(), sea);
        let q = updated(s.last());
        if q.y <= sea {
            rest.push(q)
        } else {
            rest
        }
    }
}

/// How many particles of `s` cross the boundary when advanced: the number
/// removed, and the number of replacements appended.
pub open spec fn crossings(s: Seq<PState>, sea: int) -> int
    decreases s.len(),
{
    if s.len() == 0 {
        0
    } else {
        crossings(s.drop_last(), sea) + if updated(s.last()).y > sea {
            1int
        } else {
            0int
        }
    }
}

/// The replacement particles appended during the render-and-advance pass:
/// one per crossing, in crossing order, each freshly created from the six
/// bytes at its own draw position.
pub open spec fn replacements(s: Seq<PState>, sea: int, bytes: Seq<u8>, pos: int) -> Seq<
    PState,
> {
    Seq::new(crossings(s, sea) as nat, |j: int| created_at(bytes, pos + 6 * j))
}

/// The whole tick as a function of the prior particle states and the random
/// bytes: the advanced survivors followed by the replacements.
pub open spec fn tick_parts(s0: Seq<PState>, sea: int, bytes: Seq<u8>, pos: int) -> Seq<
    PState,
> {
    let s1 = after_spawn(s0, bytes, pos);
    let pos1 = pos_after_spawn(s0, bytes, pos);
    survivors(s1, sea) + replacements(s1, sea, bytes, pos1)
}

/// The draw cursor after the whole tick.
pub open spec fn tick_pos(s0: Seq<PState>, sea: int, bytes: Seq<u8>, pos: int) -> int {
    let s1 = after_spawn(s0, bytes, pos);
    pos_after_spawn(s0, bytes, pos) + 6 * crossings(s1, sea)
}

/// Every advanced particle either survives or crosses: the survivors and the
/// crossings of a pass partition the particles present at its start, and
/// crossings never outnumber them.
pub proof fn lemma_survivors_len(s: Seq<PState>, sea: int)
    ensures
        survivors(s, sea).len() + crossings(s, sea) == s.len(),
        0 <= crossings(s, sea) <= s.len(),
    decreases s.len(),
{
    if s.len() > 0 {
        lemma_survivors_len(s.drop_last(), sea);
    }
}

/// Population bound: a tick never grows the population past the cap. The
/// spawn step appends exactly one particle, and only when the roll succeeds
/// with the population below the cap; the render-and-advance pass pairs
/// every removal with exactly one replacement, so the population after the
/// removal pass equals the population after the spawn step.
pub proof fn lemma_population_bound(s0: Seq<PState>, sea: int, bytes: Seq<u8>, pos: int)
    ensures
        tick_parts(s0, sea, bytes, pos).len() == after_spawn(s0, bytes, pos).len(),
        spawns(s0, bytes, pos) ==> s0.len() < MAX_PARTICLES as nat && after_spawn(
            s0,
            bytes,
            pos,
        ).len() == s0.len() + 1,
        !spawns(s0, bytes, pos) ==> after_spawn(s0, bytes, pos) == s0,
        s0.len() <= MAX_PARTICLES as nat ==> tick_parts(s0, sea, bytes, pos).len()
            <= MAX_PARTICLES as nat,
{
    let s1 = after_spawn(s0, bytes, pos);
    let pos1 = pos_after_spawn(s0, bytes, pos);
    lemma_survivors_len(s1, sea);
    assert(replacements(s1, sea, bytes, pos1).len() == crossings(s1, sea));
}

/// Boundary crossing: every particle that crosses the boundary when advanced
/// is absent from the removal pass's result (every survivor lies at or above
/// the boundary), and exactly one freshly created replacement stands in the
/// collection per crossing, each at the fixed spawn point.
pub proof fn lemma_boundary_crossing(s: Seq<PState>, sea: int, bytes: Seq<u8>, pos: int)
    ensures
        survivors(s, sea).len() == s.len() - crossings(s, sea),
        forall|k: int|
            0 <= k < survivors(s, sea).len() ==> (#[trigger] survivors(s, sea)[k]).y <= sea,
        replacements(s, sea, bytes, pos).len() == crossings(s, sea),
        forall|j: int|
            0 <= j < crossings(s, sea) ==> #[trigger] replacements(s, sea, bytes, pos)[j]
                == created_at(bytes, pos + 6 * j),
    decreases s.len(),
{
    lemma_survivors_len(s, sea);
    if s.len() > 0 {
        lemma_boundary_crossing(s.drop_last(), sea, bytes, pos);
    }
}

/// The particle system: the ordered live collection and the sea boundary.
pub struct ParticleSystem {
    pub particles: Vec<Particle>,
    pub sea_y: i64,
}

impl ParticleSystem {
    /// Well-formedness: the boundary lies between the spawn point and the
    /// largest supported level, the population respects the cap, and every
    /// particle is one the simulation can have produced.
    pub open spec fn wf(&self) -> bool {
        &&& SPAWN_Y as int <= self.sea_y as int <= SEA_LEVEL_MAX as int
        &&& self.particles@.len() <= MAX_PARTICLES as nat
        &&& forall|i: int|
            0 <= i < self.particles@.len() ==> inv_p(
                (#[trigger] self.particles@[i])@,
                self.sea_y as int,
            )
    }

    /// An empty system above the given sea level.
    pub fn new(sea_y: i64) -> (s: ParticleSystem)
        requires
            SPAWN_Y <= sea_y <= SEA_LEVEL_MAX,
        ensures
            s.wf(),
            s.particles@.len() == 0,
            s.sea_y == sea_y,
    {
        ParticleSystem { particles: Vec::new(), sea_y }
    }

    /// Append one particle below the cap; the seed particle at startup, or a
    /// chosen state.
    pub fn add_particle(&mut self, p: Particle)
        requires
            old(self).wf(),
            old(self).particles@.len() < MAX_PARTICLES as nat,
            inv_p(p@, old(self).sea_y as int),
        ensures
            final(self).wf(),
            final(self).sea_y == old(self).sea_y,
            final(self).particles@ == old(self).particles@.push(p),
    {
        self.particles.push(p);
    }

    /// One tick: clear and fill the sea, roll the spawn, then render and
    /// advance every particle present, replacing each one that crosses the
    /// boundary. Returns the frame: the drawing commands in issue order,
    /// every particle drawn at its position before it advances. The
    /// resulting collection, the frame, and the bytes consumed are exact
    /// functions of the prior state and the drawn bytes. The required byte
    /// headroom covers the worst case: one roll, one spawned particle, and
    /// one replacement per particle present (the spawned one included), so
    /// the source never runs dry mid-tick.
    pub fn tick(&mut self, rng: &mut RandomSource) -> (frame: Vec<RenderCmd>)
        requires
            old(self).wf(),
            old(rng).wf(),
            old(rng).remaining() >= 14 + 6 * old(self).particles@.len(),
        ensures
            final(self).wf(),
            final(self).sea_y == old(self).sea_y,
            final(rng).wf(),
            final(rng).bytes@ == old(rng).bytes@,
            models(final(self).particles@) == tick_parts(
                models(old(self).particles@),
                old(self).sea_y as int,
                old(rng).bytes@,
                old(rng).pos as int,
            ),
            final(rng).pos as int == tick_pos(
                models(old(self).particles@),
                old(self).sea_y as int,
                old(rng).bytes@,
                old(rng).pos as int,
            ),
            frame@.len() == 2 + after_spawn(
                models(old(self).particles@),
                old(rng).bytes@,
                old(rng).pos as int,
            ).len(),
            frame@[0] == RenderCmd::Clear,
            frame@[1] == RenderCmd::Sea,
            forall|k: int|
                0 <= k < after_spawn(
                    models(old(self).particles@),
                    old(rng).bytes@,
                    old(rng).pos as int,
                ).len() ==> is_rect_of(
                    #[trigger] frame@[2 + k],
                    after_spawn(
                        models(old(self).particles@),
                        old(rng).bytes@,
                        old(rng).pos as int,
                    )[k],
                ),
    {
        let ghost s0: Seq<PState> = models(self.particles@);
        let ghost bytes: Seq<u8> = rng.bytes@;
        let ghost pos0: int = rng.pos as int;
        let ghost sea: int = self.sea_y as int;

        let mut frame: Vec<RenderCmd> = Vec::new();
        frame.push(RenderCmd::Clear);
        frame.push(RenderCmd::Sea);

        let roll = rng.next();
        if roll > 0 && self.particles.len() < MAX_PARTICLES {
            let p = Particle::new(rng);
            proof {
                lemma_created_inv(bytes, pos0 + 2, sea);
                assert(models(self.particles@.push(p)) =~= s0.push(p@));
            }
            self.particles.push(p);
        }
        let ghost s1: Seq<PState> = models(self.particles@);
        let ghost pos1: int = rng.pos as int;
        proof {
            assert(s1 =~= after_spawn(s0, bytes, pos0));
            assert(pos1 == pos_after_spawn(s0, bytes, pos0));
        }

        let n = self.particles.len();
        let mut kept: Vec<Particle> = Vec::new();
        let mut fresh: Vec<Particle> = Vec::new();
        let mut i: usize = 0;
        proof {
            assert(s1.take(0) =~= Seq::<PState>::empty());
            assert(models(kept@) =~= survivors(s1.take(0), sea));
            assert(models(fresh@) =~= replacements(s1.take(0), sea, bytes, pos1));
        }
        while i < n
            invariant
                i <= n,
                n == self.particles@.len(),
                s1 == models(self.particles@),
                s1.len() == n,
                self.sea_y as int == sea,
                SPAWN_Y as int <= sea <= SEA_LEVEL_MAX as int,
                forall|k: int| 0 <= k < n ==> inv_p(#[trigger] s1[k], sea),
                rng.wf(),
                rng.bytes@ == bytes,
                rng.pos as int == pos1 + 6 * crossings(s1.take(i as int), sea),
                rng.remaining() >= 6 * (n - i),
                models(kept@) == survivors(s1.take(i as int), sea),
                models(fresh@) == replacements(s1.take(i as int), sea, bytes, pos1),
                forall|k: int|
                    0 <= k < kept@.len() ==> inv_p((#[trigger] kept@[k])@, sea),
                forall|k: int|
                    0 <= k < fresh@.len() ==> inv_p((#[trigger] fresh@[k])@, sea),
                frame@.len() == 2 + i,
                frame@[0] == RenderCmd::Clear,
                frame@[1] == RenderCmd::Sea,
                forall|k: int| 0 <= k < i ==> is_rect_of(#[trigger] frame@[2 + k], s1[k]),
            decreases n - i,
        {
            proof {
                lemma_survivors_len(s1.take(i as int), sea);
                assert(models(fresh@).len() == fresh@.len());
                assert(models(fresh@).len() == crossings(s1.take(i as int), sea));
            }
            let p = self.particles[i];
            frame.push(RenderCmd::Rect {
                x: p.x,
                y: p.y,
                width: p.width,
                height: p.height,
                alpha: p.alpha,
            });
            proof {
                assert(p@ == s1[i as int]);
                lemma_inv_ranges(p@, sea);
            }
            let mut q = p;
            q.update();
            let ghost prev_take: Seq<PState> = s1.take(i as int);
            if q.y > self.sea_y {
                let r = Particle::new(rng);
                proof {
                    lemma_created_inv(bytes, pos1 + 6 * crossings(prev_take, sea), sea);
                }
                fresh.push(r);
            } else {
                proof {
                    lemma_update_keeps_inv(s1[i as int], sea);
                }
                kept.push(q);
            }
            i = i + 1;
            proof {
                let t = s1.take(i as int);
                let prev_c = crossings(prev_take, sea);
                assert(t.drop_last() =~= prev_take);
                assert(t.last() == s1[i as int - 1]);
                assert(crossings(t, sea) == prev_c + if updated(t.last()).y > sea {
                    1int
                } else {
                    0int
                });
                assert(0 <= prev_c);
                assert(models(kept@) =~= survivors(t, sea));
                assert(models(fresh@).len() == crossings(t, sea));
                assert forall|j: int| 0 <= j < crossings(t, sea) implies models(fresh@)[j]
                    == created_at(bytes, pos1 + 6 * j) by {
                    if j < prev_c {
                        assert(models(fresh@)[j] == replacements(prev_take, sea, bytes, pos1)[j]);
                    }
                }
                assert(models(fresh@) =~= replacements(t, sea, bytes, pos1));
            }
        }
        proof {
            assert(s1.take(n as int) =~= s1);
            lemma_survivors_len(s1, sea);
        }
        let ghost keptseq: Seq<PState> = models(kept@);
        let ghost freshseq: Seq<PState> = models(fresh@);
        kept.append(&mut fresh);
        proof {
            assert(models(kept@) =~= keptseq + freshseq);
        }
        self.particles = kept;
        proof {
            assert(models(self.particles@) =~= tick_parts(s0, sea, bytes, pos0));
        }
        frame
    }
}

} // verus!

