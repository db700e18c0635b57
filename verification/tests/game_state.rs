use voxel_flight_simulator::flat::{MAXIMUM_GOAL_DEPTH, MINIMUM_GOAL_DEPTH};
use voxel_flight_simulator::game::{portal_points, HoldOrToggle, Keyboard, Options, Overlay, Run};

// A run starts only when a starting action arrives, and never restarts.
#[test]
fn run_starts_once() {
    let mut run = Run::default();
    assert!(run.start.is_none());
    run.ensure_running_if(false);
    assert!(run.start.is_none());
    run.ensure_running_if(true);
    assert!(run.start.is_some());
    let started = run.start;
    run.ensure_running_if(false);
    assert_eq!(run.start, started);
    run.ensure_running_if(true);
    assert_eq!(run.start, started);
    assert_eq!(run.level, 0);
    assert_eq!(run.points, 0);
}

// Portal scoring: one more than the depth beyond the minimum, with a
// bonus point at the deepest reachable level.
#[test]
fn portal_points_formula() {
    assert_eq!(MINIMUM_GOAL_DEPTH, 6);
    assert_eq!(MAXIMUM_GOAL_DEPTH, 14);
    assert_eq!(portal_points(5), 0);
    assert_eq!(portal_points(6), 1);
    assert_eq!(portal_points(10), 5);
    assert_eq!(portal_points(13), 8);
    assert_eq!(portal_points(14), 10);
}

#[test]
fn camera_boost_activation() {
    assert!(!HoldOrToggle::Hold.active());
    assert!(!HoldOrToggle::Toggle(false).active());
    assert!(HoldOrToggle::Toggle(true).active());
}

#[test]
fn overlay_holds_its_state() {
    let overlay = Overlay {
        is_options_visible: true,
        is_help_visible: false,
        last_cursor_movement: std::time::Instant::now(),
        seed_string: String::from("42"),
    };
    assert!(overlay.is_options_visible);
    assert!(!overlay.is_help_visible);
    assert_eq!(overlay.seed_string, "42");
}

#[test]
fn default_options_and_keyboard() {
    let options = Options::default();
    assert_eq!(options.camera_boost, HoldOrToggle::Hold);
    assert!(!options.hotas_mode);
    assert!(options.invert_y);
    let keyboard = Keyboard::default();
    assert!(!keyboard.up && !keyboard.down && !keyboard.left && !keyboard.right);
    assert!(!keyboard.space && !keyboard.a && !keyboard.d);
}
