use software_renderer::animation::rotation_at;

fn steps() -> Vec<((i32, i32), (f32, f32))> {
    vec![((0, 4), (0.04, 0.0)), ((4, 5), (0.0, 0.0)), ((5, 9), (0.0, 0.04)), ((8, 20), (0.5, 0.5))]
}

#[test]
fn rate_of_the_step_holding_the_time() {
    assert_eq!(rotation_at(&steps(), 0, 30, (9.0, 9.0)), (0.04, 0.0));
    assert_eq!(rotation_at(&steps(), 3, 30, (9.0, 9.0)), (0.04, 0.0));
    assert_eq!(rotation_at(&steps(), 4, 30, (9.0, 9.0)), (0.0, 0.0));
    assert_eq!(rotation_at(&steps(), 8, 30, (9.0, 9.0)), (0.0, 0.04));
    assert_eq!(rotation_at(&steps(), 12, 30, (9.0, 9.0)), (0.5, 0.5));
}

#[test]
fn time_wraps_around_the_duration_and_gaps_are_idle() {
    assert_eq!(rotation_at(&steps(), 33, 30, (9.0, 9.0)), (0.04, 0.0));
    assert_eq!(rotation_at(&steps(), 25, 30, (9.0, 9.0)), (9.0, 9.0));
    assert_eq!(rotation_at(&Vec::new(), 1, 30, 7u8), 7u8);
}
