//! The jump history.

use termpdf::geometry::ViewportOffset;
use termpdf::history::{DocumentPosition, JumpHistory, JUMP_HISTORY_CAPACITY};

fn at(page: usize) -> DocumentPosition {
    DocumentPosition { page, scale: 1000, viewport: ViewportOffset { x: 0, y: 0 } }
}

#[test]
fn history_starts_empty() {
    let mut history = JumpHistory::new();
    assert_eq!(history.back_len(), 0);
    assert_eq!(history.forward_len(), 0);
    assert_eq!(history.last_known(), None);
    assert_eq!(history.jump_backward(at(3)), None);
    assert_eq!(history.jump_forward(at(3)), None);
    history.record_initial(at(3));
    assert_eq!(history.last_known(), Some(at(3)));
    assert_eq!(history.back_len(), 0);
    let other = JumpHistory::default();
    assert_eq!(other.back_len(), 0);
}

#[test]
fn navigation_in_place_records_nothing() {
    let mut history = JumpHistory::new();
    history.record_navigation(at(1), at(1));
    assert_eq!(history.back_len(), 0);
    assert_eq!(history.last_known(), None);
    history.record_current(at(9));
    assert_eq!(history.back_len(), 0);
    assert_eq!(history.forward_len(), 0);
    assert_eq!(history.last_known(), Some(at(9)));
}

#[test]
fn navigation_pushes_once_and_clears_forward() {
    let mut history = JumpHistory::new();
    history.record_navigation(at(0), at(12));
    history.record_navigation(at(0), at(20));
    assert_eq!(history.back_len(), 1);
    assert_eq!(history.last_known(), Some(at(20)));
    assert_eq!(history.jump_backward(at(20)), Some(at(0)));
    assert_eq!(history.forward_len(), 1);
    history.record_navigation(at(0), at(5));
    assert_eq!(history.forward_len(), 0);
    assert_eq!(history.back_len(), 1);
}

#[test]
fn jump_backward_skips_entries_equal_to_the_current_position() {
    let mut history = JumpHistory::new();
    history.record_navigation(at(1), at(2));
    history.record_navigation(at(2), at(3));
    assert_eq!(history.back_len(), 2);
    assert_eq!(history.jump_backward(at(2)), Some(at(1)));
    assert_eq!(history.back_len(), 0);
    assert_eq!(history.forward_len(), 1);
    assert_eq!(history.last_known(), Some(at(1)));
}

#[test]
fn jump_backward_that_finds_nothing_still_drops_the_skipped() {
    let mut history = JumpHistory::new();
    history.record_navigation(at(4), at(5));
    assert_eq!(history.jump_backward(at(4)), None);
    assert_eq!(history.back_len(), 0);
    assert_eq!(history.forward_len(), 0);
    assert_eq!(history.last_known(), Some(at(5)));
}

#[test]
fn jump_back_then_forward_returns() {
    let mut history = JumpHistory::new();
    history.record_navigation(at(0), at(12));
    history.record_navigation(at(12), at(25));
    let landed = history.jump_backward(at(25)).unwrap();
    assert_eq!(landed, at(12));
    assert_eq!(history.jump_forward(landed), Some(at(25)));
    let landed = history.jump_backward(at(25)).unwrap();
    let earlier = history.jump_backward(landed).unwrap();
    assert_eq!(earlier, at(0));
    assert_eq!(history.jump_forward(earlier), Some(at(12)));
    assert_eq!(history.jump_forward(at(12)), Some(at(25)));
    assert_eq!(history.jump_forward(at(25)), None);
}

#[test]
fn positions_differ_by_scale_and_viewport_too() {
    let mut history = JumpHistory::new();
    let zoomed = DocumentPosition { page: 1, scale: 2000, viewport: ViewportOffset { x: 5, y: 0 } };
    history.record_navigation(at(1), zoomed);
    assert_eq!(history.back_len(), 1);
    assert_eq!(history.jump_backward(zoomed), Some(at(1)));
    assert_eq!(history.jump_forward(at(1)), Some(zoomed));
}

#[test]
fn stacks_drop_their_oldest_entries_beyond_the_capacity() {
    let mut history = JumpHistory::new();
    for page in 0..200 {
        history.record_navigation(at(page), at(page + 1));
    }
    assert_eq!(JUMP_HISTORY_CAPACITY, 128);
    assert_eq!(history.back_len(), 128);
    let mut current = at(200);
    let mut steps = 0;
    while let Some(landed) = history.jump_backward(current) {
        current = landed;
        steps += 1;
    }
    assert_eq!(steps, 128);
    assert_eq!(current, at(72));
    assert_eq!(history.forward_len(), 128);
}
