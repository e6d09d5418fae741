use sea_particles::animation::AnimationLoop;
use sea_particles::animation::LoopState;
use sea_particles::particle::Particle;
use sea_particles::particle::Velocity;
use sea_particles::particle::ALPHA_START;
use sea_particles::particle::FADE_RATE;
use sea_particles::particle::GRAVITY;
use sea_particles::particle::SPAWN_X;
use sea_particles::particle::SPAWN_Y;
use sea_particles::rng::RandomSource;
use sea_particles::system::ParticleSystem;
use sea_particles::system::RenderCmd;
use sea_particles::system::MAX_PARTICLES;
use sea_particles::system::SEA_LEVEL;

fn still_particle(x: i64, y: i64, size: i64) -> Particle {
    Particle { x, y, width: size, height: size, alpha: ALPHA_START, velocity: Velocity { vx: 0, vy: 0 } }
}

/// A particle an instant below the boundary, rising past it on its next
/// update: `y = sea - 0.05`, `vy = +0.1` (640 units), aged enough (65 ticks
/// of fading) for that downward velocity.
fn crossing_particle(sea: i64) -> Particle {
    Particle {
        x: SPAWN_X,
        y: sea - 320,
        width: 50,
        height: 50,
        alpha: ALPHA_START - 65 * FADE_RATE,
        velocity: Velocity { vx: 0, vy: 640 },
    }
}

#[test]
fn rand_exact_values() {
    let mut rng = RandomSource::new(vec![200, 0, 200, 128, 0, 0]);
    assert_eq!(rng.available(), 6);
    assert_eq!(rng.next(), 5000);
    assert_eq!(rng.available(), 4);
    assert_eq!(rng.next(), -5000);
    assert_eq!(rng.next(), 0);
    assert_eq!(rng.available(), 0);
}

#[test]
fn rand_magnitude_step_and_sign() {
    let mut bytes = Vec::new();
    for b0 in 0..=255u8 {
        bytes.push(b0);
        bytes.push(if b0 % 2 == 0 { 127 } else { 128 });
    }
    let mut rng = RandomSource::new(bytes);
    for b0 in 0..=255u16 {
        let v = rng.next();
        assert!(-6400 < v && v < 6400);
        assert_eq!(v % 25, 0);
        assert_eq!(v.abs(), 25 * b0 as i64);
        if b0 % 2 == 0 {
            assert!(v >= 0);
        } else {
            assert!(v <= 0);
        }
    }
}

#[test]
fn rand_refill_resets_cursor() {
    let mut rng = RandomSource::new(vec![1, 2]);
    let _ = rng.next();
    assert_eq!(rng.available(), 0);
    rng.refill(vec![75, 0, 0, 0]);
    assert_eq!(rng.available(), 4);
    assert_eq!(rng.next(), 75 * 25);
}

#[test]
fn particle_new_exact() {
    // Draws: +3200 (size), -1275 (horizontal), +1600 (vertical kick).
    let mut rng = RandomSource::new(vec![128, 0, 51, 200, 64, 0]);
    let p = Particle::new(&mut rng);
    assert_eq!(p.x, SPAWN_X);
    assert_eq!(p.y, SPAWN_Y);
    assert_eq!(p.width, 25 * 3200);
    assert_eq!(p.height, 25 * 3200);
    assert_eq!(p.alpha, ALPHA_START);
    assert_eq!(p.velocity.vx, 5 * -1275);
    assert_eq!(p.velocity.vy, -10 * 1600);
    assert_eq!(rng.available(), 0);
}

#[test]
fn particle_new_ranges() {
    // A crude deterministic byte scramble; only the ranges matter.
    let mut bytes = Vec::new();
    let mut seed: u32 = 0x1234_5678;
    for _ in 0..600 {
        seed = seed.wrapping_mul(1_103_515_245).wrapping_add(12_345);
        bytes.push((seed >> 16) as u8);
    }
    let mut rng = RandomSource::new(bytes);
    for _ in 0..100 {
        let p = Particle::new(&mut rng);
        assert_eq!(p.x, SPAWN_X);
        assert_eq!(p.y, SPAWN_Y);
        assert_eq!(p.alpha, ALPHA_START);
        assert_eq!(p.width, p.height);
        assert!(0 <= p.width && p.width < 25 * 6400);
        assert!(-5 * 6400 < p.velocity.vx && p.velocity.vx < 5 * 6400);
        assert!(-10 * 6400 < p.velocity.vy && p.velocity.vy <= 0);
    }
}

#[test]
fn update_exact() {
    let mut p = Particle {
        x: 100,
        y: 200,
        width: 50,
        height: 50,
        alpha: ALPHA_START,
        velocity: Velocity { vx: 7, vy: -30 },
    };
    p.update();
    assert_eq!(p.x, 107);
    assert_eq!(p.y, 170);
    assert_eq!(p.width, 50);
    assert_eq!(p.height, 50);
    assert_eq!(p.velocity.vx, 7);
    assert_eq!(p.velocity.vy, -30 + GRAVITY);
    assert_eq!(p.alpha, ALPHA_START - FADE_RATE);
}

#[test]
fn update_alpha_fades_linearly_and_goes_negative() {
    let mut p = still_particle(0, 0, 10);
    for _ in 0..150 {
        p.update();
    }
    assert_eq!(p.alpha, ALPHA_START - 150 * FADE_RATE);
    assert!(p.alpha < 0);
    assert_eq!(p.velocity.vy, 150 * GRAVITY);
    assert_eq!(p.velocity.vx, 0);
    assert_eq!(p.width, 10);
}

#[test]
fn tick_empty_system_spawn_succeeds() {
    // Roll +5000, then the spawned particle's three draws; the padding is
    // the headroom the tick may draw replacements from.
    let mut sys = ParticleSystem::new(SEA_LEVEL);
    let mut bytes = vec![200, 0, 128, 0, 51, 200, 64, 0];
    bytes.resize(14, 0);
    let mut rng = RandomSource::new(bytes);
    let frame = sys.tick(&mut rng);

    assert_eq!(sys.particles.len(), 1);
    assert_eq!(frame.len(), 3);
    assert_eq!(frame[0], RenderCmd::Clear);
    assert_eq!(frame[1], RenderCmd::Sea);
    // Rendered once at the fixed spawn point, with full opacity...
    assert_eq!(
        frame[2],
        RenderCmd::Rect { x: SPAWN_X, y: SPAWN_Y, width: 80000, height: 80000, alpha: ALPHA_START },
    );
    // ...then advanced once.
    let p = sys.particles[0];
    assert_eq!(p.x, SPAWN_X + 5 * -1275);
    assert_eq!(p.y, SPAWN_Y + -10 * 1600);
    assert_eq!(p.velocity.vy, -10 * 1600 + GRAVITY);
    assert_eq!(p.alpha, ALPHA_START - FADE_RATE);
    // The roll cost two bytes and the spawn six.
    assert_eq!(rng.available(), 6);
}

#[test]
fn tick_negative_roll_spawns_nothing() {
    let mut sys = ParticleSystem::new(SEA_LEVEL);
    let mut bytes = vec![200, 128];
    bytes.resize(14, 0);
    let mut rng = RandomSource::new(bytes);
    let frame = sys.tick(&mut rng);
    assert_eq!(sys.particles.len(), 0);
    assert_eq!(frame.len(), 2);
    assert_eq!(rng.available(), 12);
}

#[test]
fn tick_zero_roll_spawns_nothing() {
    let mut sys = ParticleSystem::new(SEA_LEVEL);
    let mut rng = RandomSource::new(vec![0; 14]);
    let frame = sys.tick(&mut rng);
    assert_eq!(sys.particles.len(), 0);
    assert_eq!(frame.len(), 2);
}

#[test]
fn tick_boundary_crossing_is_replaced() {
    let mut sys = ParticleSystem::new(SEA_LEVEL);
    let old = crossing_particle(SEA_LEVEL);
    sys.add_particle(old);

    // Roll -250 (no spawn), then one replacement draw: size +400, the other
    // two draws zero.
    let mut bytes = vec![10, 200, 16, 0, 0, 0, 0, 0];
    bytes.resize(20, 0);
    let mut rng = RandomSource::new(bytes);
    let frame = sys.tick(&mut rng);

    // One removed, one added: the size is unchanged, but the survivor is the
    // replacement at the spawn point, not the old particle's position.
    assert_eq!(sys.particles.len(), 1);
    let p = sys.particles[0];
    assert_eq!(p.x, SPAWN_X);
    assert_eq!(p.y, SPAWN_Y);
    assert_eq!(p.width, 25 * 400);
    assert_eq!(p.alpha, ALPHA_START);
    assert_eq!(p.velocity.vx, 0);
    assert_eq!(p.velocity.vy, 0);

    // The old particle was still rendered this tick, at its pre-update spot.
    assert_eq!(frame.len(), 3);
    assert_eq!(
        frame[2],
        RenderCmd::Rect { x: old.x, y: old.y, width: 50, height: 50, alpha: old.alpha },
    );
    assert_eq!(rng.available(), 12);
}

#[test]
fn tick_removals_do_not_shift_later_indices() {
    // Two crossers around a survivor: both crossers must go, the survivor
    // must stay, and each crosser gets exactly one fresh replacement.
    let mut sys = ParticleSystem::new(SEA_LEVEL);
    sys.add_particle(crossing_particle(SEA_LEVEL));
    sys.add_particle(still_particle(1000, 2000, 10));
    sys.add_particle(crossing_particle(SEA_LEVEL));

    // Roll 0 (no spawn), then two replacement draws with distinct sizes.
    let mut bytes = vec![0, 0, 16, 0, 0, 0, 0, 0, 32, 0, 0, 0, 0, 0];
    bytes.resize(14 + 6 * 3, 0);
    let mut rng = RandomSource::new(bytes);
    let frame = sys.tick(&mut rng);

    assert_eq!(frame.len(), 5);
    assert_eq!(sys.particles.len(), 3);
    // The advanced survivor comes first, then the replacements in crossing
    // order, each at the spawn point.
    assert_eq!(sys.particles[0].x, 1000);
    assert_eq!(sys.particles[0].y, 2000);
    assert_eq!(sys.particles[0].alpha, ALPHA_START - FADE_RATE);
    assert_eq!(sys.particles[1].width, 25 * 400);
    assert_eq!(sys.particles[1].y, SPAWN_Y);
    assert_eq!(sys.particles[2].width, 25 * 800);
    assert_eq!(sys.particles[2].y, SPAWN_Y);
}

#[test]
fn tick_at_cap_spawns_nothing() {
    let mut sys = ParticleSystem::new(SEA_LEVEL);
    for _ in 0..MAX_PARTICLES {
        sys.add_particle(still_particle(0, 0, 10));
    }
    // A winning roll, with draw headroom for a full tick.
    let mut bytes = vec![200, 0];
    bytes.resize(14 + 6 * MAX_PARTICLES, 0);
    let mut rng = RandomSource::new(bytes);
    let frame = sys.tick(&mut rng);

    // Cap enforced: no new particle was appended.
    assert_eq!(sys.particles.len(), MAX_PARTICLES);
    assert_eq!(frame.len(), 2 + MAX_PARTICLES);
    // Only the roll was drawn: nothing spawned, nothing crossed.
    assert_eq!(rng.available() as usize, 14 + 6 * MAX_PARTICLES - 2);
}

#[test]
fn tick_population_never_exceeds_cap_over_many_ticks() {
    let mut sys = ParticleSystem::new(SEA_LEVEL);
    let mut seed: u32 = 0x0dd_ba11;
    for _ in 0..200 {
        let need = 14 + 6 * sys.particles.len();
        let mut bytes = Vec::with_capacity(need);
        for _ in 0..need {
            seed = seed.wrapping_mul(1_103_515_245).wrapping_add(12_345);
            bytes.push((seed >> 16) as u8);
        }
        let mut rng = RandomSource::new(bytes);
        let _ = sys.tick(&mut rng);
        assert!(sys.particles.len() <= MAX_PARTICLES);
        for p in &sys.particles {
            assert!(p.y <= SEA_LEVEL);
        }
    }
}

#[test]
fn animation_loop_arms_once_and_stays_armed() {
    let mut l = AnimationLoop::new();
    assert_eq!(l.state, LoopState::Unarmed);
    l.start();
    assert_eq!(l.state, LoopState::Armed);
    l.on_frame();
    l.on_frame();
    assert_eq!(l.state, LoopState::Armed);
}
