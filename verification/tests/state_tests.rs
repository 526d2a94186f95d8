use halo::apps::AppInfo;
use halo::direction::Direction;
use halo::slots::{Config, Slot, SlotConfig, SlotState};
use halo::state::{Point, State};
use halo::trig::atan2_units;
use halo::{
    HALF_TURN, OUTER_RADIUS_MPX, PADDING_DEN, PADDING_NUM, QUARTER_TURN, SUBSLOT_ORBIT_MPX,
    SUBSLOT_RADIUS_MPX, SUBSLOT_SCALE_MILLI,
};

fn app(class: &str) -> AppInfo {
    AppInfo {
        name: class.to_string(),
        icon: String::new(),
        class: class.to_string(),
        command: format!("run-{}", class),
    }
}

fn slots_with(populated: &[usize]) -> Vec<Slot> {
    let mut v = Vec::new();
    for i in 0..8 {
        if populated.contains(&i) {
            v.push(Slot { app: Some(app(&format!("app{}", i))) });
        } else {
            v.push(Slot { app: None });
        }
    }
    v
}

const CENTER: Point = Point { x: 500_000, y: 500_000 };

#[test]
fn test_cursor_at_center_is_dead_zone() {
    let mut st = State::new(slots_with(&[0, 1, 2, 3, 4, 5, 6, 7]), CENTER, Vec::new(), 1000);
    let act = st.update_cursor(CENTER);
    assert!(st.hover_index.is_none());
    assert!(!act.should_activate);
    assert!(!act.should_redraw);
    // Once something hovers, re-entering the dead zone asks for a repaint.
    let far = Point::new(CENTER.x, CENTER.y - 300_000);
    st.update_cursor(far);
    assert!(st.hover_index.is_some());
    let act2 = st.update_cursor(CENTER);
    assert!(st.hover_index.is_none());
    assert!(act2.should_redraw);
    assert!(!act2.should_activate);
}

#[test]
fn test_scenario_all_slots_cursor_north_activates() {
    // Every slot populated; the cursor twice the activation radius straight
    // up selects North and fires.
    let mut st = State::new(slots_with(&[0, 1, 2, 3, 4, 5, 6, 7]), CENTER, Vec::new(), 1000);
    let cursor = Point::new(CENTER.x, CENTER.y - 2 * OUTER_RADIUS_MPX);
    let act = st.update_cursor(cursor);
    assert_eq!(st.hover_index, Some(0));
    assert!(act.should_activate);
    assert!(act.should_redraw);
}

#[test]
fn test_scenario_dead_zone_boundary() {
    // Only North populated; the cursor just inside the dead-zone radius does
    // nothing, whatever its direction.
    let inner = 48_000i64;
    for (dx, dy) in [(1i64, 0i64), (0, 1), (-1, 0), (0, -1)] {
        let mut st = State::new(slots_with(&[0]), CENTER, Vec::new(), 1000);
        let cursor = Point::new(CENTER.x + dx * (inner - 1), CENTER.y + dy * (inner - 1));
        let act = st.update_cursor(cursor);
        assert!(st.hover_index.is_none());
        assert!(!act.should_activate);
        assert!(!act.should_redraw);
        // Exactly on the boundary is still the dead zone.
        let cursor2 = Point::new(CENTER.x + dx * inner, CENTER.y + dy * inner);
        let act2 = st.update_cursor(cursor2);
        assert!(st.hover_index.is_none());
        assert!(!act2.should_activate);
    }
}

#[test]
fn test_hover_without_activation_between_rings() {
    let mut st = State::new(slots_with(&[0, 4]), CENTER, Vec::new(), 1000);
    // Between the dead zone (48k) and the activation ring (128k): hover only.
    let cursor = Point::new(CENTER.x, CENTER.y + 100_000);
    let act = st.update_cursor(cursor);
    assert_eq!(st.hover_index, Some(4));
    assert!(act.should_redraw);
    assert!(!act.should_activate);
    // Moving within the same slot's sector changes nothing.
    let act2 = st.update_cursor(Point::new(CENTER.x + 5_000, CENTER.y + 100_000));
    assert_eq!(st.hover_index, Some(4));
    assert!(!act2.should_redraw);
}

#[test]
fn test_no_populated_slots_never_activates() {
    let mut st = State::new(slots_with(&[]), CENTER, Vec::new(), 1000);
    let act = st.update_cursor(Point::new(CENTER.x, CENTER.y - 900_000));
    assert!(st.hover_index.is_none());
    assert!(!act.should_activate);
    assert!(!act.should_redraw);
}

#[test]
fn test_nearest_is_angular_not_radial() {
    // Only East populated: a cursor mostly northward still hovers East, as
    // the choice is purely angular.
    let mut st = State::new(slots_with(&[2]), CENTER, Vec::new(), 1000);
    let cursor = Point::new(CENTER.x + 10_000, CENTER.y - 200_000);
    let act = st.update_cursor(cursor);
    assert_eq!(st.hover_index, Some(2));
    assert!(act.should_activate);
}

#[test]
fn test_scenario_two_slots_three_subslots() {
    // North and South populated, three unbound windows: the east arc and the
    // west arc (split at the seam) each receive at least one subslot, and all
    // three are placed.
    let mut st = State::new(slots_with(&[0, 4]), CENTER, Vec::new(), 1000);
    let clients = vec!["w1".to_string(), "w2".to_string(), "w3".to_string()];
    st.refresh(CENTER, Vec::new(), 1440, &clients);
    assert_eq!(st.subslots.len(), 3);
    let g = st.slot_geometries[0].as_ref().unwrap();
    let h = atan2_units(g.radius * PADDING_NUM, g.orbit * PADDING_DEN);
    let east_lo = -QUARTER_TURN + h;
    let east_hi = QUARTER_TURN - h;
    let mut east = 0usize;
    let mut west = 0usize;
    for sub in st.subslots.iter() {
        let a = sub.geometry.angle;
        if east_lo <= a && a < east_hi {
            east += 1;
        } else if a >= QUARTER_TURN + h || a < -QUARTER_TURN - h {
            west += 1;
        }
        assert_eq!(sub.geometry.orbit, SUBSLOT_ORBIT_MPX);
        assert_eq!(sub.geometry.radius, SUBSLOT_RADIUS_MPX);
        assert_eq!(sub.geometry.scale, SUBSLOT_SCALE_MILLI);
        assert!(-HALF_TURN < a && a <= HALF_TURN);
    }
    assert_eq!(east + west, 3);
    assert!(east >= 1);
    assert!(west >= 1);
    assert_eq!(st.subslots[0].key, 'a');
    assert_eq!(st.subslots[1].key, 's');
    assert_eq!(st.subslots[2].key, 'd');
}

#[test]
fn test_refresh_updates_scale_hover_and_classes() {
    let mut st = State::new(slots_with(&[0]), CENTER, Vec::new(), 1000);
    st.update_cursor(Point::new(CENTER.x, CENTER.y - 100_000));
    assert!(st.hover_index.is_some());
    let new_center = Point::new(600_000, 400_000);
    st.refresh(new_center, vec!["app0".to_string()], 2880, &Vec::new());
    assert!(st.hover_index.is_none());
    assert_eq!(st.scale_factor, 2000);
    assert_eq!(st.center, new_center);
    assert_eq!(st.active_classes, vec!["app0".to_string()]);
    assert!(st.slot_geometries[0].is_some());
    for i in 1..8 {
        assert!(st.slot_geometries[i].is_none());
    }
    // The geometry scaled with the monitor.
    assert_eq!(st.slot_geometries[0].as_ref().unwrap().orbit, 240_000);
}

#[test]
fn test_refresh_excludes_bound_classes_case_insensitive() {
    let mut st = State::new(slots_with(&[0]), CENTER, Vec::new(), 1000);
    // "APP0" matches the bound class "app0" ignoring case and is excluded.
    let clients = vec!["APP0".to_string(), "term".to_string()];
    st.refresh(CENTER, Vec::new(), 1440, &clients);
    assert_eq!(st.subslots.len(), 1);
    assert_eq!(st.subslots[0].class, "term");
}

#[test]
fn test_subslot_capacity_cutoff() {
    let mut st = State::new(slots_with(&[]), CENTER, Vec::new(), 1000);
    let clients: Vec<String> = (0..15).map(|i| format!("win{}", i)).collect();
    st.refresh(CENTER, Vec::new(), 1440, &clients);
    // Only as many subslots as the hotkey pool holds.
    assert_eq!(st.subslots.len(), 12);
    let keys: Vec<char> = st.subslots.iter().map(|s| s.key).collect();
    assert_eq!(keys, vec!['a', 's', 'd', 'f', 'q', 'w', 'e', 'r', 'z', 'x', 'c', 'v']);
    assert_eq!(st.subslots[0].class, "win0");
    assert_eq!(st.subslots[11].class, "win11");
}

#[test]
fn test_crowded_circle_frees_whole_ring() {
    // All eight slots populated: their footprints cover (nearly) the whole
    // circle, so the partitioner falls back to the full circle and the
    // subslots are still placed.
    let mut st = State::new(slots_with(&[0, 1, 2, 3, 4, 5, 6, 7]), CENTER, Vec::new(), 1000);
    let clients = vec!["x1".to_string(), "x2".to_string()];
    st.refresh(CENTER, Vec::new(), 1440, &clients);
    assert_eq!(st.subslots.len(), 2);
    for sub in st.subslots.iter() {
        assert!(-HALF_TURN < sub.geometry.angle && sub.geometry.angle <= HALF_TURN);
    }
}

#[test]
fn test_reload_scenario() {
    // First configuration: North bound to alpha, East to beta.
    let cfg1 = Config {
        slots: vec![
            SlotConfig { direction: Some(Direction::North), app: Some(app("alpha")) },
            SlotConfig { direction: Some(Direction::East), app: Some(app("beta")) },
            SlotConfig { direction: None, app: Some(app("ignored")) },
        ],
    };
    let slots1 = State::init_slots(&cfg1);
    assert_eq!(slots1.len(), 8);
    assert_eq!(slots1[0].app.as_ref().unwrap().class, "alpha");
    assert_eq!(slots1[2].app.as_ref().unwrap().class, "beta");
    for i in [1, 3, 4, 5, 6, 7] {
        assert!(slots1[i].app.is_none());
    }

    // Second configuration changes North and leaves East alone: the changed
    // direction is fully replaced, the unrelated one untouched.
    let cfg2 = Config {
        slots: vec![
            SlotConfig { direction: Some(Direction::North), app: Some(app("gamma")) },
            SlotConfig { direction: Some(Direction::East), app: Some(app("beta")) },
        ],
    };
    let slots2 = State::init_slots(&cfg2);
    assert_eq!(slots2[0].app.as_ref().unwrap().class, "gamma");
    assert_eq!(slots2[2].app.as_ref().unwrap().class, "beta");
    for i in [1, 3, 4, 5, 6, 7] {
        assert!(slots2[i].app.is_none());
    }
}

#[test]
fn test_init_slots_last_entry_wins() {
    let cfg = Config {
        slots: vec![
            SlotConfig { direction: Some(Direction::South), app: Some(app("first")) },
            SlotConfig { direction: Some(Direction::South), app: Some(app("second")) },
        ],
    };
    let slots = State::init_slots(&cfg);
    assert_eq!(slots[4].app.as_ref().unwrap().class, "second");
}

#[test]
fn test_init_slots_entry_without_app_clears() {
    let cfg = Config {
        slots: vec![
            SlotConfig { direction: Some(Direction::West), app: Some(app("thing")) },
            SlotConfig { direction: Some(Direction::West), app: None },
        ],
    };
    let slots = State::init_slots(&cfg);
    assert!(slots[6].app.is_none());
}

#[test]
fn test_get_hovered_app() {
    let mut st = State::new(slots_with(&[4]), CENTER, Vec::new(), 1000);
    assert!(st.get_hovered_app().is_none());
    st.update_cursor(Point::new(CENTER.x, CENTER.y + 100_000));
    let hovered = st.get_hovered_app().unwrap();
    assert_eq!(hovered.class, "app4");
}

#[test]
fn test_is_running_ignores_case() {
    let slot = Slot { app: Some(app("Firefox")) };
    // Matching goes through real Unicode lowercasing on both sides.
    assert!(slot.is_running(&vec!["FIREFOX".to_string()]));
    assert!(slot.is_running(&vec!["firefox".to_string()]));
    assert!(!slot.is_running(&vec!["chrome".to_string()]));
    assert!(!slot.is_running(&Vec::new()));
    let empty = Slot { app: None };
    assert!(!empty.is_running(&vec!["firefox".to_string()]));
}

#[test]
fn test_is_broken() {
    let mut a = app("x");
    a.command = String::new();
    let broken = Slot { app: Some(a) };
    assert!(broken.is_broken());
    let fine = Slot { app: Some(app("x")) };
    assert!(!fine.is_broken());
    let empty = Slot { app: None };
    assert!(!empty.is_broken());
}

#[test]
fn test_slot_state_priority() {
    let mut broken_app = app("x");
    broken_app.command = String::new();
    let broken = Slot { app: Some(broken_app) };
    let running = Slot { app: Some(app("x")) };
    let active = vec!["x".to_string()];
    // Broken outranks hovered; hovered outranks running; running outranks idle.
    assert_eq!(SlotState::resolve(&broken, true, &active), SlotState::Broken);
    assert_eq!(SlotState::resolve(&running, true, &active), SlotState::Hovered);
    assert_eq!(SlotState::resolve(&running, false, &active), SlotState::Running);
    assert_eq!(SlotState::resolve(&running, false, &Vec::new()), SlotState::Idle);
}
