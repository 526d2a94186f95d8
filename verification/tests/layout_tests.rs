use halo::allocator::{allocate_counts, subslot_angles, total_length};
use halo::angle::AngularSegment;
use halo::geometry::{calculate, from_angle, squish_scale};
use halo::segments::find_free_segments;
use halo::state::compute_slot_geometries;
use halo::slots::Slot;
use halo::trig::atan2_units;
use halo::{
    ANGLE_STEP, FULL_TURN, HALF_TURN, MENU_RADIUS_MPX, PADDING_DEN, PADDING_NUM, QUARTER_TURN,
    SCALE_CAP_MILLI, SLOT_RADIUS_MPX, SUBSLOT_ORBIT_MPX, SUBSLOT_RADIUS_MPX, SUBSLOT_SCALE_MILLI,
};

fn app(class: &str) -> halo::apps::AppInfo {
    halo::apps::AppInfo {
        name: class.to_string(),
        icon: String::new(),
        class: class.to_string(),
        command: class.to_string(),
    }
}

fn slots_with(populated: &[usize]) -> Vec<Slot> {
    let mut v = Vec::new();
    for i in 0..8 {
        if populated.contains(&i) {
            v.push(Slot { app: Some(app(&format!("app{}", i))) });
        } else {
            v.push(Slot { app: None });
        }
    }
    v
}

#[test]
fn test_squish_scale_values_and_monotone() {
    // One slot step of breathing room is scale one.
    assert_eq!(squish_scale(ANGLE_STEP as u64), 1000);
    // Two steps: the square root of two.
    assert_eq!(squish_scale(2 * ANGLE_STEP as u64), 1414);
    // The whole circle hits the cap.
    assert_eq!(squish_scale(FULL_TURN as u64), SCALE_CAP_MILLI);
    let mut prev = 0i64;
    for w in 0..64u64 {
        let s = squish_scale(w * (FULL_TURN as u64) / 64);
        assert!(s >= prev);
        assert!(s <= SCALE_CAP_MILLI);
        prev = s;
    }
}

#[test]
fn test_calculate_lone_slot() {
    let filled: Vec<usize> = vec![0];
    let g = calculate(0, &filled, 1000);
    assert_eq!(g.scale, SCALE_CAP_MILLI);
    assert_eq!(g.radius, SLOT_RADIUS_MPX * SCALE_CAP_MILLI / 1000);
    assert_eq!(g.orbit, MENU_RADIUS_MPX);
    assert_eq!(g.angle, -QUARTER_TURN);
}

#[test]
fn test_calculate_all_populated() {
    let filled: Vec<usize> = (0..8).collect();
    for i in 0..8 {
        let g = calculate(i, &filled, 1000);
        // One step on each side: scale one, no squish headroom.
        assert_eq!(g.scale, 1000);
        assert_eq!(g.radius, SLOT_RADIUS_MPX);
        assert_eq!(g.orbit, MENU_RADIUS_MPX);
    }
}

#[test]
fn test_calculate_scales_with_monitor() {
    let filled: Vec<usize> = vec![0];
    let g = calculate(0, &filled, 2000);
    assert_eq!(g.orbit, 2 * MENU_RADIUS_MPX);
    assert_eq!(g.radius, 2 * SLOT_RADIUS_MPX * SCALE_CAP_MILLI / 1000);
}

#[test]
fn test_from_angle_fixed_fractions() {
    let g = from_angle(1234, 1000);
    assert_eq!(g.angle, 1234);
    assert_eq!(g.orbit, SUBSLOT_ORBIT_MPX);
    assert_eq!(g.radius, SUBSLOT_RADIUS_MPX);
    assert_eq!(g.scale, SUBSLOT_SCALE_MILLI);
}

#[test]
fn test_free_segments_no_slots_is_full_circle() {
    let slots = slots_with(&[]);
    let geoms = compute_slot_geometries(&slots, 1000);
    let segs = find_free_segments(&geoms);
    assert_eq!(segs.len(), 1);
    assert_eq!(segs[0].start, -HALF_TURN);
    assert_eq!(segs[0].end, HALF_TURN);
    assert_eq!(total_length(&segs), FULL_TURN);
}

#[test]
fn test_free_segments_two_slots_disjoint_and_cover() {
    // North and South populated: their footprints block two symmetric arcs.
    let slots = slots_with(&[0, 4]);
    let geoms = compute_slot_geometries(&slots, 1000);
    let g0 = geoms[0].as_ref().unwrap();
    let h = atan2_units(g0.radius * PADDING_NUM, g0.orbit * PADDING_DEN);
    let segs = find_free_segments(&geoms);
    // Sorted, disjoint, well formed.
    for s in segs.iter() {
        assert!(-HALF_TURN <= s.start && s.start <= s.end && s.end <= HALF_TURN);
    }
    for w in segs.windows(2) {
        assert!(w[0].end <= w[1].start);
    }
    // The free length plus the two blocked footprints is the whole circle.
    assert_eq!(total_length(&segs), FULL_TURN - 4 * h);
    // The slot centers are inside no free segment.
    for s in segs.iter() {
        assert!(!(s.start <= -QUARTER_TURN && -QUARTER_TURN < s.end));
        assert!(!(s.start <= QUARTER_TURN && QUARTER_TURN < s.end));
    }
}

#[test]
fn test_allocator_exact_proportional() {
    let segs = vec![
        AngularSegment::new(0, 100),
        AngularSegment::new(150, 350),
        AngularSegment::new(400, 450),
    ];
    let counts = allocate_counts(&segs, 7);
    // Lengths 100, 200, 50 of 350 total: exact shares 2, 4, 1.
    assert_eq!(counts, vec![2, 4, 1]);
}

#[test]
fn test_allocator_remainder_tie_breaks_by_position() {
    let segs = vec![
        AngularSegment::new(0, 100),
        AngularSegment::new(100, 200),
        AngularSegment::new(200, 300),
    ];
    let counts = allocate_counts(&segs, 4);
    // Equal remainders: the earliest segment wins the leftover unit.
    assert_eq!(counts, vec![2, 1, 1]);
    let total: usize = counts.iter().sum();
    assert_eq!(total, 4);
}

#[test]
fn test_allocator_sum_exact_for_many_inputs() {
    let segs = vec![
        AngularSegment::new(-HALF_TURN, -HALF_TURN + 333),
        AngularSegment::new(0, 1000),
        AngularSegment::new(2000, 2777),
        AngularSegment::new(5000, 5001),
    ];
    let base = [333i64, 1000, 777, 1];
    let l: i64 = base.iter().sum();
    for k in 0..30usize {
        let counts = allocate_counts(&segs, k);
        let total: usize = counts.iter().sum();
        assert_eq!(total, k, "counts must sum to k exactly");
        for (i, &c) in counts.iter().enumerate() {
            let floor = (base[i] * k as i64 / l) as usize;
            assert!(c == floor || c == floor + 1);
        }
    }
}

#[test]
fn test_allocator_with_degenerate_segment() {
    // A zero-length fragment (a split point) draws no subslots.
    let segs = vec![AngularSegment::new(0, 0), AngularSegment::new(100, 200)];
    let counts = allocate_counts(&segs, 3);
    assert_eq!(counts, vec![0, 3]);
    let counts0 = allocate_counts(&segs, 0);
    assert_eq!(counts0, vec![0, 0]);
}

#[test]
fn test_subslot_angles_even_spacing() {
    let segs = vec![AngularSegment::new(0, 300)];
    let counts = vec![3usize];
    let angles = subslot_angles(&segs, &counts);
    assert_eq!(angles, vec![50, 150, 250]);
}

#[test]
fn test_subslot_angles_cross_segments() {
    let segs = vec![AngularSegment::new(-200, 0), AngularSegment::new(100, 200)];
    let counts = vec![2usize, 1usize];
    let angles = subslot_angles(&segs, &counts);
    assert_eq!(angles, vec![-150, -50, 150]);
}
