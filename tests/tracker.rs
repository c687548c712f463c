use i3_dim::tracker::{FocusTracker, StartError};

#[test]
fn focus_change_from_two_to_five() {
    let mut tracker = FocusTracker { current: 2 };
    let cmds = tracker.focus_changed(5, 0.3f32, 1.0f32);
    assert_eq!(cmds, vec![(2, 0.3f32), (5, 1.0f32)]);
    assert_eq!(tracker, FocusTracker { current: 5 });
}

#[test]
fn successive_focus_changes() {
    let mut tracker = FocusTracker { current: 100 };
    assert_eq!(tracker.focus_changed(200, 1u8, 9u8), vec![(100, 1u8), (200, 9u8)]);
    assert_eq!(tracker.focus_changed(300, 1u8, 9u8), vec![(200, 1u8), (300, 9u8)]);
    assert_eq!(tracker.current, 300);
}

#[test]
fn focus_change_to_same_window() {
    let mut tracker = FocusTracker { current: 4 };
    assert_eq!(tracker.focus_changed(4, 0.3f32, 1.0f32), vec![(4, 0.3f32), (4, 1.0f32)]);
    assert_eq!(tracker.current, 4);
}

#[test]
fn start_with_focus() {
    assert_eq!(FocusTracker::start(Some(9)), Ok(FocusTracker { current: 9 }));
}

#[test]
fn start_without_focus_fails() {
    assert_eq!(FocusTracker::start(None), Err(StartError::NoFocusedWindow));
}
