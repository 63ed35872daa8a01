use raytracer::{FrameAction, FrameInput, Viewer};

fn input(open: bool, escape: bool, keys: [bool; 4]) -> FrameInput {
    FrameInput { window_open: open, escape_down: escape, orbit_down: keys }
}

#[test]
fn first_frame_draws_the_scene() {
    let mut v = Viewer::new();
    assert!(v.camera_moved);
    match v.step(&input(true, false, [false; 4])) {
        FrameAction::Draw { orbit, render } => {
            assert_eq!(orbit, [false; 4]);
            assert!(render);
        }
        FrameAction::Quit => panic!("viewer quit while the window is open"),
    }
    assert!(!v.camera_moved);
}

#[test]
fn idle_frame_does_not_redraw() {
    let mut v = Viewer::new();
    v.step(&input(true, false, [false; 4]));
    match v.step(&input(true, false, [false; 4])) {
        FrameAction::Draw { render, .. } => assert!(!render),
        FrameAction::Quit => panic!("viewer quit while the window is open"),
    }
}

#[test]
fn held_arrow_key_orbits_and_redraws() {
    let mut v = Viewer::new();
    v.step(&input(true, false, [false; 4]));
    match v.step(&input(true, false, [false, false, true, false])) {
        FrameAction::Draw { orbit, render } => {
            assert_eq!(orbit, [false, false, true, false]);
            assert!(render);
        }
        FrameAction::Quit => panic!("viewer quit while the window is open"),
    }
    assert!(!v.camera_moved);
}

#[test]
fn escape_or_closed_window_quits() {
    let mut v = Viewer::new();
    assert!(matches!(v.step(&input(true, true, [true; 4])), FrameAction::Quit));
    assert!(v.camera_moved);
    assert!(matches!(v.step(&input(false, false, [false; 4])), FrameAction::Quit));
}
