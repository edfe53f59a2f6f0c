use arcade_control::heat::{Heat, HEAT_MAX};

#[test]
fn heat_starts_cold() {
    assert_eq!(Heat::new().amount(), 0);
    assert_eq!(HEAT_MAX, 1000);
}

#[test]
fn inc_adds_the_value() {
    let mut heat = Heat::new();
    heat.inc(200);
    assert_eq!(heat.amount(), 200);
    heat.inc(200);
    assert_eq!(heat.amount(), 400);
    heat.inc(-150);
    assert_eq!(heat.amount(), 250);
    heat.inc(0);
    assert_eq!(heat.amount(), 250);
}

#[test]
fn inc_clamps_at_the_top() {
    let mut heat = Heat::new();
    for _ in 0..4 {
        heat.inc(200);
    }
    assert_eq!(heat.amount(), 800);
    heat.inc(200);
    assert_eq!(heat.amount(), 1000);
    heat.inc(200);
    assert_eq!(heat.amount(), 1000);
    heat.inc(1);
    assert_eq!(heat.amount(), 1000);
}

#[test]
fn inc_clamps_at_the_bottom() {
    let mut heat = Heat::new();
    heat.inc(-1);
    assert_eq!(heat.amount(), 0);
    heat.inc(200);
    heat.inc(-1000);
    assert_eq!(heat.amount(), 0);
    heat.inc(999);
    heat.inc(-1000);
    assert_eq!(heat.amount(), 0);
}

#[test]
fn inc_takes_the_largest_values() {
    let mut heat = Heat::new();
    heat.inc(i32::MAX);
    assert_eq!(heat.amount(), 1000);
    heat.inc(i32::MAX);
    assert_eq!(heat.amount(), 1000);
    heat.inc(i32::MIN);
    assert_eq!(heat.amount(), 0);
    heat.inc(i32::MIN);
    assert_eq!(heat.amount(), 0);
}

#[test]
fn heat_never_leaves_its_bounds() {
    let deltas = [
        200, 200, -1000, 5000, -1, -999, 1, i32::MAX, -500, i32::MIN, 1000, 1, -1, 0, 333, 333,
        333, 333, -2000,
    ];
    let mut heat = Heat::new();
    for delta in deltas {
        heat.inc(delta);
        assert!(0 <= heat.amount() && heat.amount() <= HEAT_MAX);
    }
    assert_eq!(heat.amount(), 0);
}

#[test]
fn a_copy_of_heat_is_independent() {
    let mut heat = Heat::new();
    heat.inc(300);
    let copy = heat;
    heat.inc(300);
    assert_eq!(heat.amount(), 600);
    assert_eq!(copy.amount(), 300);
}
