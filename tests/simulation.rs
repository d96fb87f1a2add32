use ecosim::dna::{Color, Dna, Mutation, ALPHA, CHANNEL_MAX, CHANNEL_MIN, TRAIT_MAX, TRAIT_MIN};
use ecosim::fixed::{clamp, div_toward_zero, isqrt};
use ecosim::geom::{normalize, Vec2};
use ecosim::motion::{nearest_within, rotate};
use ecosim::params::SimulationParams;
use ecosim::predator::Predator;
use ecosim::prey::{metabolic_cost, Bacterium};
use ecosim::resolve::{caught_by, eat_food, hunt};
use ecosim::rng::SimRng;
use ecosim::stats::{trait_means, Stats, MAX_HISTORY};
use ecosim::world::{no_marks, settle_prey, World, RESEED_COUNT};

const W: i64 = 1_080_000;
const H: i64 = 700_000;

fn genome() -> Dna {
    Dna {
        speed: 2000,
        size: 4000,
        sense_radius: 30_000,
        color: Color { r: 500, g: 500, b: 500, a: ALPHA },
    }
}

fn prey_at(x: i64, y: i64, energy: i64) -> Bacterium {
    Bacterium { pos: Vec2 { x, y }, vel: Vec2 { x: 1000, y: 0 }, dna: genome(), energy, age: 3 }
}

fn predator_at(x: i64, y: i64) -> Predator {
    Predator {
        pos: Vec2 { x, y },
        vel: Vec2 { x: 1000, y: 0 },
        energy: 150_000,
        speed: 2500,
        size: 12_000,
        sense_radius: 100_000,
    }
}

fn dna_in_range(d: &Dna) -> bool {
    let scalar = |v: i64| (TRAIT_MIN..=TRAIT_MAX).contains(&v);
    let channel = |v: i64| (CHANNEL_MIN..=CHANNEL_MAX).contains(&v);
    scalar(d.speed)
        && scalar(d.size)
        && scalar(d.sense_radius)
        && channel(d.color.r)
        && channel(d.color.g)
        && channel(d.color.b)
        && d.color.a == ALPHA
}

#[test]
fn clamp_and_division() {
    assert_eq!(clamp(5, 0, 3), 3);
    assert_eq!(clamp(-5, 0, 3), 0);
    assert_eq!(clamp(2, 0, 3), 2);
    assert_eq!(div_toward_zero(-7, 2), -3);
    assert_eq!(div_toward_zero(7, 2), 3);
}

#[test]
fn integer_square_root() {
    assert_eq!(isqrt(0), 0);
    assert_eq!(isqrt(26), 5);
    assert_eq!(isqrt(25), 5);
    assert_eq!(isqrt(4_000_000_000_000_000_000), 2_000_000_000);
}

#[test]
fn normalize_keeps_direction_of_short_vectors() {
    assert_eq!(normalize(4, -1), Vec2 { x: 970, y: -242 });
    assert_eq!(normalize(1, 1), Vec2 { x: 707, y: 707 });
}

#[test]
fn normalize_scales_to_unit_length() {
    assert_eq!(normalize(3, 4), Vec2 { x: 600, y: 800 });
    assert_eq!(normalize(-3, 4), Vec2 { x: -600, y: 800 });
    assert_eq!(normalize(0, 0), Vec2 { x: 0, y: 0 });
    assert_eq!(normalize(0, -7), Vec2 { x: 0, y: -1000 });
}

#[test]
fn rotation_by_small_angle() {
    assert_eq!(rotate(Vec2 { x: 1000, y: 0 }, 0), Vec2 { x: 1000, y: 0 });
    assert_eq!(rotate(Vec2 { x: 1000, y: 0 }, 200), Vec2 { x: 979, y: 198 });
    assert_eq!(rotate(Vec2 { x: 1000, y: 0 }, -200), Vec2 { x: 979, y: -198 });
}

#[test]
fn nearest_point_first_strict_minimum_wins() {
    let origin = Vec2 { x: 0, y: 0 };
    let pts = vec![Vec2 { x: 3000, y: 0 }, Vec2 { x: 0, y: 3000 }, Vec2 { x: 1000, y: 0 }];
    assert_eq!(nearest_within(origin, &pts, 5000 * 5000), Some(2));
    let tie = vec![Vec2 { x: 0, y: 2000 }, Vec2 { x: 2000, y: 0 }];
    assert_eq!(nearest_within(origin, &tie, 5000 * 5000), Some(0));
    let edge = vec![Vec2 { x: 1000, y: 0 }];
    assert_eq!(nearest_within(origin, &edge, 1000 * 1000), None);
    assert_eq!(nearest_within(origin, &Vec::new(), 1000 * 1000), None);
}

#[test]
fn metabolism_costs_speed_squared_times_size() {
    assert_eq!(metabolic_cost(2000, 4000, 1000), 180);
    assert_eq!(metabolic_cost(2000, 4000, 2000), 360);
    assert_eq!(metabolic_cost(2000, 4000, 0), 0);
}

#[test]
fn metabolism_scenario_one_tick() {
    let mut b = prey_at(540_000, 350_000, 100_000);
    b.steer(W, H, &Vec::new(), 1000, &Vec::new(), 0);
    assert_eq!(b.energy, 100_000 - 180);
    assert_eq!(b.age, 4);
    assert_eq!(b.pos, Vec2 { x: 542_000, y: 350_000 });
    assert_eq!(b.vel, Vec2 { x: 1000, y: 0 });
}

#[test]
fn prey_bounces_off_wall() {
    let mut b = prey_at(W - 500, 350_000, 100_000);
    b.steer(W, H, &Vec::new(), 1000, &Vec::new(), 0);
    assert_eq!(b.pos, Vec2 { x: W, y: 350_000 });
    assert_eq!(b.vel, Vec2 { x: -1000, y: 0 });
}

#[test]
fn prey_flees_nearby_predator() {
    let mut b = prey_at(100_000, 100_000, 100_000);
    b.vel = Vec2 { x: 0, y: 1000 };
    let predators = vec![predator_at(105_000, 100_000)];
    b.steer(W, H, &Vec::new(), 0, &predators, 0);
    assert_eq!(b.vel, Vec2 { x: -447, y: 894 });
    assert_eq!(b.energy, 100_000);
}

#[test]
fn prey_steers_toward_visible_food() {
    let mut b = prey_at(100_000, 100_000, 100_000);
    let food = vec![Vec2 { x: 100_000, y: 120_000 }, Vec2 { x: 500_000, y: 500_000 }];
    b.steer(W, H, &food, 0, &Vec::new(), 0);
    assert_eq!(b.vel, normalize(1000, 200));
}

#[test]
fn predator_pursues_nearest_prey() {
    let mut p = predator_at(100_000, 100_000);
    let prey = vec![Vec2 { x: 102_500, y: 150_000 }];
    p.steer(W, H, &prey, 1000, 0);
    assert_eq!(p.pos, Vec2 { x: 102_500, y: 100_000 });
    assert_eq!(p.vel, Vec2 { x: 957, y: 287 });
    assert_eq!(p.energy, 149_800);
}

#[test]
fn predator_wanders_without_prey() {
    let mut p = predator_at(100_000, 100_000);
    p.steer(W, H, &Vec::new(), 1000, 150);
    assert_eq!(p.vel, rotate(Vec2 { x: 1000, y: 0 }, 150));
    assert_eq!(p.energy, 149_800);
}

#[test]
fn reproduction_halves_energy() {
    let mut parent = prey_at(200_000, 200_000, 200_000);
    let child = parent.split_off(genome());
    assert_eq!(parent.energy, 100_000);
    assert_eq!(child.energy, 100_000);
    assert_eq!(child.age, 0);
    assert_eq!(child.vel, Vec2 { x: -1000, y: 0 });
    assert_eq!(child.pos, parent.pos);
}

#[test]
fn reproduction_scenario_above_threshold() {
    let params = SimulationParams::default();
    let mut rng = SimRng::seeded(7);
    let mut b = prey_at(200_000, 200_000, 200_000);
    let mut marks = no_marks(0);
    let (was_caught, child) =
        settle_prey(&mut b, &Vec::new(), &mut marks, &Vec::new(), &params, W, H, &mut rng);
    assert!(!was_caught);
    let child = child.expect("one offspring");
    assert_eq!(b.energy, 100_000);
    assert_eq!(child.energy, 100_000);
    assert_eq!(child.age, 0);
    assert_eq!(child.vel, Vec2 { x: -1000, y: 0 });
    assert!(dna_in_range(&child.dna));
}

#[test]
fn no_reproduction_at_threshold() {
    let params = SimulationParams::default();
    let mut rng = SimRng::seeded(7);
    let mut b = prey_at(200_000, 200_000, 150_000);
    let mut marks = no_marks(0);
    let (was_caught, child) =
        settle_prey(&mut b, &Vec::new(), &mut marks, &Vec::new(), &params, W, H, &mut rng);
    assert!(!was_caught);
    assert!(child.is_none());
    assert_eq!(b.energy, 150_000);
}

#[test]
fn caught_prey_does_not_reproduce() {
    let params = SimulationParams::default();
    let mut rng = SimRng::seeded(3);
    let mut b = prey_at(300_000, 300_000, 200_000);
    let predators = vec![predator_at(310_000, 300_000)];
    let mut marks = no_marks(0);
    let (was_caught, child) =
        settle_prey(&mut b, &Vec::new(), &mut marks, &predators, &params, W, H, &mut rng);
    assert!(was_caught);
    assert!(child.is_none());
    assert_eq!(b.energy, 200_000);
}

#[test]
fn lethal_radius_is_sum_of_sizes() {
    let b = prey_at(300_000, 300_000, 1000);
    assert!(caught_by(&b, &vec![predator_at(315_999, 300_000)]));
    assert!(!caught_by(&b, &vec![predator_at(316_000, 300_000)]));
    assert!(!caught_by(&b, &Vec::new()));
}

#[test]
fn food_goes_to_first_prey_only() {
    let food = vec![Vec2 { x: 100_000, y: 100_000 }];
    let mut marks = no_marks(1);
    let mut first = prey_at(100_000, 100_000, 50_000);
    let mut second = prey_at(101_000, 100_000, 50_000);
    eat_food(&mut first, &food, &mut marks);
    eat_food(&mut second, &food, &mut marks);
    assert_eq!(first.energy, 80_000);
    assert_eq!(second.energy, 50_000);
    assert_eq!(first.energy + second.energy, 100_000 + 30_000);
    assert_eq!(marks, vec![true]);
}

#[test]
fn prey_eats_every_item_in_reach() {
    let food = vec![
        Vec2 { x: 100_000, y: 100_000 },
        Vec2 { x: 105_999, y: 100_000 },
        Vec2 { x: 106_000, y: 100_000 },
    ];
    let mut marks = no_marks(3);
    let mut b = prey_at(100_000, 100_000, 0);
    eat_food(&mut b, &food, &mut marks);
    assert_eq!(b.energy, 60_000);
    assert_eq!(marks, vec![true, true, false]);
}

#[test]
fn predator_catches_each_prey_once() {
    let prey = vec![prey_at(100_000, 100_000, 1000), prey_at(500_000, 100_000, 1000)];
    let mut marks = no_marks(2);
    let mut first_hunter = predator_at(100_000, 100_000);
    let mut second_hunter = predator_at(100_000, 100_000);
    hunt(&mut first_hunter, &prey, &mut marks);
    hunt(&mut second_hunter, &prey, &mut marks);
    assert_eq!(first_hunter.energy, 230_000);
    assert_eq!(second_hunter.energy, 150_000);
    assert_eq!(marks, vec![true, false]);
}

#[test]
fn empty_world_grows_food_and_reseeds() {
    let params = SimulationParams::default();
    let mut rng = SimRng::seeded(11);
    let mut world = World {
        width: W,
        height: H,
        prey: Vec::new(),
        predators: Vec::new(),
        food: Vec::new(),
        stats: Stats::new(),
    };
    world.tick(&params, &mut rng);
    assert_eq!(world.food.len(), 2);
    assert_eq!(world.prey.len(), RESEED_COUNT);
    assert!(world.predators.is_empty());
    for b in &world.prey {
        assert_eq!(b.energy, params.initial_energy);
        assert_eq!(b.age, 0);
        assert!(dna_in_range(&b.dna));
    }
}

#[test]
fn food_stops_growing_at_ceiling() {
    let mut params = SimulationParams::default();
    params.max_food = 3;
    params.food_growth_rate = 5;
    let mut rng = SimRng::seeded(5);
    let mut world = World::new(W, H, &params, &mut rng);
    world.prey.clear();
    world.predators.clear();
    world.food.clear();
    world.tick(&params, &mut rng);
    assert_eq!(world.food.len(), 5);
    world.prey.clear();
    world.tick(&params, &mut rng);
    assert!(world.food.len() <= 5);
}

#[test]
fn new_world_is_populated() {
    let params = SimulationParams::default();
    let mut rng = SimRng::seeded(1);
    let world = World::new(W, H, &params, &mut rng);
    assert_eq!(world.prey.len(), 50);
    assert_eq!(world.predators.len(), 5);
    assert_eq!(world.food.len(), 200);
    for f in &world.food {
        assert!(f.x >= 0 && f.x <= W && f.y >= 0 && f.y <= H);
    }
}

#[test]
fn caught_prey_is_removed_in_tick() {
    let mut params = SimulationParams::default();
    params.food_growth_rate = 0;
    let mut rng = SimRng::seeded(2);
    let mut victim = prey_at(500_000, 300_000, 200_000);
    victim.dna.speed = 100;
    let mut other = prey_at(100_000, 600_000, 1000);
    other.dna.speed = 100;
    let mut hunter = predator_at(500_000, 300_000);
    hunter.speed = 0;
    let mut world = World {
        width: W,
        height: H,
        prey: vec![victim, other],
        predators: vec![hunter],
        food: Vec::new(),
        stats: Stats::new(),
    };
    world.tick(&params, &mut rng);
    assert_eq!(world.prey.len(), 1);
    assert_eq!(world.prey[0].pos.y, 600_000);
    assert_eq!(world.predators.len(), 1);
    assert_eq!(world.predators[0].energy, 150_000 - 200);
}

#[test]
fn paused_frame_still_records() {
    let params = SimulationParams::default();
    let mut rng = SimRng::seeded(9);
    let mut world = World::new(W, H, &params, &mut rng);
    let before = world.prey.clone();
    world.frame(&params, true, &mut rng);
    assert_eq!(world.prey, before);
    assert_eq!(world.stats.population_history, vec![50]);
    assert_eq!(world.stats.predator_history, vec![5]);
}

#[test]
fn stats_series_stay_equal_and_bounded() {
    let mut stats = Stats::new();
    for i in 0..(MAX_HISTORY as u64 + 5) {
        stats.push(i, i as i64, 2 * i as i64, 7);
        let n = stats.population_history.len();
        assert!(n <= MAX_HISTORY);
        assert_eq!(stats.avg_speed_history.len(), n);
        assert_eq!(stats.avg_size_history.len(), n);
        assert_eq!(stats.predator_history.len(), n);
    }
    assert_eq!(stats.population_history.len(), MAX_HISTORY);
    assert_eq!(stats.population_history[0], 5);
    assert_eq!(*stats.population_history.last().unwrap(), MAX_HISTORY as u64 + 4);
}

#[test]
fn stats_means() {
    let mut a = prey_at(1, 1, 1);
    a.dna.speed = 1000;
    a.dna.size = 3000;
    let mut b = prey_at(1, 1, 1);
    b.dna.speed = 2001;
    b.dna.size = 6000;
    assert_eq!(trait_means(&vec![a, b]), (1500, 4500));
    assert_eq!(trait_means(&Vec::new()), (0, 0));
    let mut stats = Stats::new();
    stats.record(&vec![a, b], 4);
    assert_eq!(stats.population_history, vec![2]);
    assert_eq!(stats.avg_speed_history, vec![1500]);
    assert_eq!(stats.avg_size_history, vec![4500]);
    assert_eq!(stats.predator_history, vec![4]);
}

#[test]
fn mutation_applies_draws() {
    let m = Mutation {
        speed_roll: 0,
        speed_delta: 100,
        size_roll: 500,
        size_delta: 100,
        sense_roll: 99,
        sense_delta: -2000,
        r_drift: 50,
        g_drift: -50,
        b_drift: 0,
    };
    let mut d = genome();
    d.color.r = 980;
    d.color.g = 210;
    let out = d.apply_mutation(&m, 100);
    assert_eq!(out.speed, 2200);
    assert_eq!(out.size, 4000);
    assert_eq!(out.sense_radius, TRAIT_MIN);
    assert_eq!(out.color, Color { r: CHANNEL_MAX, g: CHANNEL_MIN, b: 500, a: ALPHA });
    let none = d.apply_mutation(&m, 0);
    assert_eq!(none.speed, 2000);
    assert_eq!(none.sense_radius, 30_000);
}

#[test]
fn mutation_stays_in_range_under_extreme_settings() {
    let mut rng = SimRng::seeded(42);
    let mut d = genome();
    for _ in 0..500 {
        d = d.mutate(1000, u32::MAX, &mut rng);
        assert!(dna_in_range(&d));
    }
    let mut d = genome();
    for _ in 0..200 {
        d = d.mutate(u32::MAX, 0, &mut rng);
        assert!(dna_in_range(&d));
        assert_eq!(d.speed, 2000);
    }
}

#[test]
fn random_genome_in_documented_ranges() {
    let mut rng = SimRng::seeded(8);
    for _ in 0..100 {
        let d = Dna::random(&mut rng);
        assert!((1000..3000).contains(&d.speed));
        assert!((3000..8000).contains(&d.size));
        assert!((20_000..60_000).contains(&d.sense_radius));
        assert!(d.color.r < CHANNEL_MAX && d.color.g < CHANNEL_MAX && d.color.b < CHANNEL_MAX);
        assert!(dna_in_range(&d));
    }
}

#[test]
fn seeded_draws_lie_in_range_and_repeat() {
    let mut a = SimRng::seeded(123);
    let mut b = SimRng::seeded(123);
    let mut seen_other = false;
    for _ in 0..100 {
        let x = a.range(5, 10);
        assert!((5..=10).contains(&x));
        assert_eq!(x, b.range(5, 10));
        if x != 5 {
            seen_other = true;
        }
    }
    assert!(seen_other);
    assert_eq!(a.range(-3, -3), -3);
}

#[test]
fn default_parameters() {
    let p = SimulationParams::default();
    assert_eq!(p.food_growth_rate, 2);
    assert_eq!(p.max_food, 1000);
    assert_eq!(p.mutation_rate, 100);
    assert_eq!(p.mutation_strength, 100);
    assert_eq!(p.reproduction_threshold, 150_000);
    assert_eq!(p.initial_energy, 100_000);
    assert_eq!(p.speed_multiplier, 1000);
    assert_eq!(p.predator_count, 5);
    assert_eq!(p.predator_reproduction_threshold, 200_000);
}

#[test]
fn meal_can_lift_prey_over_threshold() {
    let params = SimulationParams::default();
    let mut rng = SimRng::seeded(4);
    let food = vec![Vec2 { x: 200_000, y: 200_000 }];
    let mut marks = no_marks(1);
    let mut b = prey_at(200_000, 200_000, 130_000);
    let (was_caught, child) = settle_prey(&mut b, &food, &mut marks, &Vec::new(), &params, W, H, &mut rng);
    assert!(!was_caught);
    assert_eq!(marks, vec![true]);
    assert_eq!(b.energy, 80_000);
    assert_eq!(child.map(|c| c.energy), Some(80_000));
}

#[test]
fn frames_keep_history_bounded() {
    let params = SimulationParams::default();
    let mut rng = SimRng::seeded(21);
    let mut world = World::new(W, H, &params, &mut rng);
    for _ in 0..20 {
        world.frame(&params, false, &mut rng);
        assert!(!world.prey.is_empty());
        assert_eq!(*world.stats.population_history.last().unwrap(), world.prey.len() as u64);
        assert_eq!(*world.stats.predator_history.last().unwrap(), world.predators.len() as u64);
    }
    for _ in 0..(MAX_HISTORY + 10) {
        world.frame(&params, true, &mut rng);
    }
    let s = &world.stats;
    assert_eq!(s.population_history.len(), MAX_HISTORY);
    assert_eq!(s.avg_speed_history.len(), MAX_HISTORY);
    assert_eq!(s.avg_size_history.len(), MAX_HISTORY);
    assert_eq!(s.predator_history.len(), MAX_HISTORY);
}

#[test]
fn new_agents_get_unit_headings() {
    let mut rng = SimRng::seeded(17);
    for _ in 0..100 {
        let b = Bacterium::new(Vec2 { x: 10_000, y: 20_000 }, 100_000, &mut rng);
        let len2 = b.vel.x * b.vel.x + b.vel.y * b.vel.y;
        assert!((996_000..=1_000_000).contains(&len2), "{:?}", b.vel);
        assert_eq!(b.pos, Vec2 { x: 10_000, y: 20_000 });
        assert_eq!(b.energy, 100_000);
        assert_eq!(b.age, 0);
        let p = Predator::new(Vec2 { x: 10_000, y: 20_000 }, &mut rng);
        let len2 = p.vel.x * p.vel.x + p.vel.y * p.vel.y;
        assert!((996_000..=1_000_000).contains(&len2), "{:?}", p.vel);
        assert_eq!((p.energy, p.speed, p.size, p.sense_radius), (150_000, 2500, 12_000, 100_000));
    }
}

#[test]
fn shared_food_in_tick_goes_to_first_prey() {
    let mut params = SimulationParams::default();
    params.food_growth_rate = 0;
    let mut rng = SimRng::seeded(13);
    let mut a = prey_at(300_000, 300_000, 50_000);
    a.dna.speed = 100;
    let mut b = prey_at(301_000, 300_000, 50_000);
    b.dna.speed = 100;
    let mut world = World {
        width: W,
        height: H,
        prey: vec![a, b],
        predators: Vec::new(),
        food: vec![Vec2 { x: 300_000, y: 300_000 }],
        stats: Stats::new(),
    };
    world.tick(&params, &mut rng);
    assert!(world.food.is_empty());
    assert_eq!(world.prey.len(), 2);
    assert_eq!(world.prey[0].energy, 50_000 - 100 + 30_000);
    assert_eq!(world.prey[1].energy, 50_000 - 100);
}
