use gameplay::bitpack::TileColor;
use gameplay::context_map::{ContextMap, ContextMapAI, Weight};
use gameplay::markers::{marker_for_tile, marker_setup, Dress, Marker, PhysicsKind, TREE_SPRITES};

/// The order key of an `f32`: keys order as the numbers do.
fn key(x: f32) -> Weight {
    let b = x.to_bits() as i32;
    if b < 0 { b ^ 0x7fff_ffff } else { b }
}

fn unkey(k: Weight) -> f32 {
    let b = if k < 0 { k ^ 0x7fff_ffff } else { k };
    f32::from_bits(b as u32)
}

/// The rounded angle of `(x, y)` in slot widths of a map of `n` slots.
fn steps(x: f32, y: f32, n: usize) -> i64 {
    (y.atan2(x) * n as f32 / (2.0 * std::f32::consts::PI)).round() as i64
}

fn slot_dir(i: usize, n: usize) -> (f32, f32) {
    let a = i as f32 * 2.0 * std::f32::consts::PI / n as f32;
    (a.cos(), a.sin())
}

#[test]
fn keys_order_like_floats() {
    let xs = [-3.5f32, -1.0, -0.0, 0.0, 0.25, 1.0, 8.02];
    for w in xs.windows(2) {
        assert!(key(w[0]) < key(w[1]));
    }
    assert_eq!(key(0.0), 0);
    for x in xs {
        assert_eq!(unkey(key(x)).to_bits(), x.to_bits());
    }
}

#[test]
fn new_map_is_zero() {
    let m = ContextMap::new(12);
    assert_eq!(m.resolution(), 12);
    assert!(m.weights.iter().all(|w| *w == 0));
}

#[test]
fn angle_to_index_stays_in_range() {
    for n in [4usize, 8, 12, 16] {
        let m = ContextMap::new(n);
        for s in [-100i64, -17, -8, -1, 0, 1, 7, 8, 9, 33, i64::MAX, i64::MIN] {
            assert!(m.angle_to_index(s) < n);
        }
    }
}

#[test]
fn angle_to_index_wraps() {
    let m = ContextMap::new(8);
    assert_eq!(m.angle_to_index(0), 0);
    assert_eq!(m.angle_to_index(3), 3);
    assert_eq!(m.angle_to_index(8), 0);
    assert_eq!(m.angle_to_index(-1), 7);
    assert_eq!(m.angle_to_index(-8), 0);
    assert_eq!(m.angle_to_index(-9), 7);
    assert_eq!(m.angle_to_index(i64::MIN), 0);
    assert_eq!(m.angle_to_index(i64::MAX), 7);
}

#[test]
fn angle_to_index_full_turn() {
    let m = ContextMap::new(12);
    for s in -30i64..30 {
        assert_eq!(m.angle_to_index(s), m.angle_to_index(s + 12));
    }
    let theta = 1.0f32;
    let a = m.angle_to_index(steps(theta.cos(), theta.sin(), 12));
    let turned = theta + 2.0 * std::f32::consts::PI;
    let b = m.angle_to_index((turned * 12.0 / (2.0 * std::f32::consts::PI)).round() as i64);
    assert_eq!(a, b);
}

#[test]
fn set_overwrites_slot() {
    let mut m = ContextMap::new(8);
    let i = m.angle_to_index(steps(0.0, 3.0, 8));
    assert_eq!(i, 2);
    m.set(i, key(1.0));
    m.set(i, key(3.0));
    assert_eq!(unkey(m.weights[i]), 3.0);
}

#[test]
fn add_map_takes_slotwise_max() {
    let mut m = ContextMap::new(4);
    m.weights = vec![key(0.5), key(-1.0), 0, key(2.0)];
    let s = vec![key(0.25), key(0.0), key(1.0), key(2.5)];
    m.add_map(&s);
    assert_eq!(m.weights, vec![key(0.5), key(0.0), key(1.0), key(2.5)]);
}

#[test]
fn add_map_twice_same_as_once() {
    let mut once = ContextMap::new(8);
    once.weights[3] = key(0.7);
    let mut twice = once.clone();
    let s: Vec<Weight> = (0..8).map(|i| key(((1.0 + slot_dir(i, 8).0) / 2.0) as f32)).collect();
    once.add_map(&s);
    twice.add_map(&s);
    twice.add_map(&s);
    assert_eq!(once.weights, twice.weights);
}

#[test]
fn max_index_first_among_equals() {
    let mut m = ContextMap::new(6);
    m.weights = vec![key(-1.0), key(2.0), key(0.5), key(2.0), 0, key(1.0)];
    assert_eq!(m.max_index(), 1);
    m.weights = vec![key(-1.0), key(-2.0), key(-0.5), key(-3.0), key(-1.0), key(-1.0)];
    assert_eq!(m.max_index(), 2);
}

#[test]
fn single_slot_max() {
    for i in 0..8 {
        let mut m = ContextMap::new(8);
        m.set(i, key(0.75));
        let (j, w) = m.max_slot();
        assert_eq!(j, i);
        let (x, y) = slot_dir(j, 8);
        let (vx, vy) = (x * unkey(w), y * unkey(w));
        assert!(((vx * vx + vy * vy).sqrt() - 0.75).abs() < 1e-6);
    }
}

#[test]
fn add_interest_scenario() {
    let mut m = ContextMap::new(8);
    let f = |len_sq: f32| len_sq * 2.0;
    let g = |len_sq: f32| -len_sq * 2.0;
    for (x, y, curve) in [(2.0f32, 0.1f32, f as fn(f32) -> f32), (-3.0, -1.0, f), (0.0, 2.0, g)] {
        let i = m.angle_to_index(steps(x, y, 8));
        m.set(i, key(curve(x * x + y * y)));
    }
    assert_eq!(m.weights[0], key(8.02));
    assert_eq!(m.weights[4], key(20.0));
    assert_eq!(m.weights[2], key(-8.0));
    let (i, w) = m.max_slot();
    assert_eq!(i, 4);
    let (x, y) = slot_dir(i, 8);
    assert!((x + 1.0).abs() < 0.0001 && y.abs() < 0.0001);
    let (vx, vy) = (x * unkey(w), y * unkey(w));
    assert!((vx * vx + vy * vy).sqrt() > 1.0);
}

#[test]
fn masked_interest_drops_dangerous_slot() {
    let mut ai = ContextMapAI::new(8);
    ai.dangers.set(0, key(1.0));
    ai.interests.set(0, key(1.0));
    ai.interests.set(2, key(0.5));
    let masked = ai.masked_interests(0);
    assert_eq!(masked.weights[0], 0);
    assert_eq!(masked.weights[2], key(0.5));
    let (mut dx, mut dy) = (0.0f32, 0.0f32);
    for (i, w) in masked.weights.iter().enumerate() {
        let (x, y) = slot_dir(i, 8);
        dx += x * unkey(*w);
        dy += y * unkey(*w);
    }
    assert!(dx.abs() < 1e-6 && dy > 0.0);
}

#[test]
fn clear_zeroes_both_maps() {
    let mut ai = ContextMapAI::new(4);
    ai.interests.set(1, key(2.0));
    ai.dangers.set(3, key(-2.0));
    ai.clear();
    assert_eq!(ai.interests.weights, vec![0; 4]);
    assert_eq!(ai.dangers.weights, vec![0; 4]);
}

#[test]
fn house_map_markers() {
    assert_eq!(marker_for_tile(b'#'), Some(Marker::Wall));
    assert_eq!(marker_for_tile(b'o'), Some(Marker::Oven));
    assert_eq!(marker_for_tile(b'P'), Some(Marker::PlayerSpawn));
    assert_eq!(marker_for_tile(b'x'), None);
}

#[test]
fn marker_setups() {
    let wall = marker_setup(Marker::Wall);
    assert_eq!(wall.dress, Some(Dress::Bitpack(826, TileColor::Gray)));
    assert_eq!(wall.physics, Some(PhysicsKind::SolidTile));
    let door = marker_setup(Marker::Door);
    assert_eq!(door.dress, Some(Dress::Bitpack(438, TileColor::Gray)));
    assert_eq!(door.physics, None);
    assert!(marker_setup(Marker::PlayerSpawn).player_spawn);
    assert_eq!(marker_setup(Marker::Chair).physics, Some(PhysicsKind::DynamicBall));
    for _ in 0..20 {
        match marker_setup(Marker::RandomTree).dress {
            Some(Dress::Bitpack(i, TileColor::Leaf)) => assert!(TREE_SPRITES.contains(&i)),
            other => panic!("unexpected dress {:?}", other),
        }
    }
}
