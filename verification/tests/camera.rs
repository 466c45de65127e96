use sich_engine::camera::pan_direction;
use sich_engine::world::camera::{zoom_preset_steps, MAX_ZOOM_PRESET, MIN_ZOOM_PRESET};

#[test]
fn single_keys_pan_along_diagonals() {
    assert_eq!(pan_direction(true, false, false, false), (-1, -1));
    assert_eq!(pan_direction(false, true, false, false), (1, 1));
    assert_eq!(pan_direction(false, false, true, false), (-1, 1));
    assert_eq!(pan_direction(false, false, false, true), (1, -1));
}

#[test]
fn no_key_means_no_pan() {
    assert_eq!(pan_direction(false, false, false, false), (0, 0));
}

#[test]
fn opposite_keys_cancel() {
    assert_eq!(pan_direction(true, true, false, false), (0, 0));
    assert_eq!(pan_direction(false, false, true, true), (0, 0));
    assert_eq!(pan_direction(true, true, true, false), pan_direction(false, false, true, false));
}

#[test]
fn two_keys_add_up() {
    assert_eq!(pan_direction(true, false, true, false), (-2, 0));
    assert_eq!(pan_direction(false, true, false, true), (2, 0));
    assert_eq!(pan_direction(true, false, false, true), (0, -2));
}

#[test]
fn zoom_steps_count_from_the_closest_preset() {
    assert_eq!(zoom_preset_steps(MIN_ZOOM_PRESET), 0);
    assert_eq!(zoom_preset_steps(MAX_ZOOM_PRESET), 11);
    assert_eq!(zoom_preset_steps(5), 4);
}

#[test]
fn zoom_steps_never_negative() {
    assert_eq!(zoom_preset_steps(0), 0);
    assert_eq!(zoom_preset_steps(-100), 0);
    assert_eq!(zoom_preset_steps(i32::MIN + 1), 0);
    assert_eq!(zoom_preset_steps(i32::MAX), i32::MAX - 1);
}

#[test]
fn zoom_steps_are_monotonic() {
    let mut prev = zoom_preset_steps(-5);
    for p in -4..20 {
        let s = zoom_preset_steps(p);
        assert!(s >= prev);
        prev = s;
    }
}
