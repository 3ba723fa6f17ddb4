use pimostat::controller::update;

fn apply(on: &mut bool, temperature: f32, target: f32, hysteresis: f32) {
    update(on, temperature > target, temperature < target - hysteresis);
}

#[test]
fn update_switches_off_above_target() {
    let mut on = true;
    update(&mut on, true, false);
    assert!(!on);
    let mut on = false;
    update(&mut on, true, true);
    assert!(!on);
}

#[test]
fn update_switches_on_below_band() {
    let mut on = false;
    update(&mut on, false, true);
    assert!(on);
}

#[test]
fn update_keeps_state_inside_band() {
    let mut on = true;
    update(&mut on, false, false);
    assert!(on);
    let mut on = false;
    update(&mut on, false, false);
    assert!(!on);
}

#[test]
fn update_is_idempotent() {
    for start in [false, true] {
        for above in [false, true] {
            for below in [false, true] {
                let mut once = start;
                update(&mut once, above, below);
                let mut twice = once;
                update(&mut twice, above, below);
                assert_eq!(once, twice);
            }
        }
    }
}

#[test]
fn update_forgets_outside_band() {
    for (above, below) in [(true, false), (false, true), (true, true)] {
        let mut a = false;
        let mut b = true;
        update(&mut a, above, below);
        update(&mut b, above, below);
        assert_eq!(a, b);
    }
}

#[test]
fn update_sequence_of_readings() {
    // Target 20 degrees, hysteresis 2: cold, hot, cold, hot, warm, cold.
    let readings = [15.123f32, 25.123, 15.123, 25.123, 19.123, 15.123];
    let mut on = false;
    let mut states = Vec::new();
    for t in readings {
        apply(&mut on, t, 20.0, 2.0);
        states.push(on);
    }
    assert_eq!(states, vec![true, false, true, false, false, true]);
}
