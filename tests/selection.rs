use wingshot::geometry::Rect;
use wingshot::selection::{Event, ExitState, Point, Selector};

fn p(x: i32, y: i32) -> Point {
    Point { x, y }
}

fn drag(from: Point, to: Point) -> ExitState {
    let mut s = Selector::new();
    s.handle_all(&vec![Event::PointerDown(from), Event::PointerMove(to), Event::PointerUp])
}

#[test]
fn drag_up_left_is_normalised() {
    let want = ExitState::ExitWithSelection(Rect { x: 100, y: 100, width: 200, height: 200 });
    assert_eq!(drag(p(300, 300), p(100, 100)), want);
    assert_eq!(drag(p(100, 100), p(300, 300)), want);
}

#[test]
fn drag_mixed_directions() {
    let want = ExitState::ExitWithSelection(Rect { x: 10, y: 20, width: 40, height: 60 });
    assert_eq!(drag(p(50, 20), p(10, 80)), want);
}

#[test]
fn drag_across_whole_range_fits() {
    let got = drag(p(i32::MIN, i32::MAX), p(i32::MAX, i32::MIN));
    let full = (i32::MAX as i64) - (i32::MIN as i64);
    assert_eq!(got, ExitState::ExitWithSelection(Rect { x: i32::MIN as i64, y: i32::MIN as i64, width: full, height: full }));
}

#[test]
fn last_motion_wins() {
    let mut s = Selector::new();
    let es = vec![
        Event::PointerDown(p(0, 0)),
        Event::PointerMove(p(500, 500)),
        Event::PointerMove(p(20, 30)),
        Event::PointerUp,
    ];
    assert_eq!(s.handle_all(&es), ExitState::ExitWithSelection(Rect { x: 0, y: 0, width: 20, height: 30 }));
}

#[test]
fn cancel_mid_drag_exits_only() {
    let mut s = Selector::new();
    let es = vec![Event::PointerDown(p(10, 10)), Event::PointerMove(p(400, 300)), Event::Cancel, Event::PointerUp];
    assert_eq!(s.handle_all(&es), ExitState::ExitOnly);
    assert!(s.is_done());
}

#[test]
fn cancel_when_idle_exits_only() {
    let mut s = Selector::new();
    s.handle(Event::Cancel);
    assert_eq!(s.exit, ExitState::ExitOnly);
}

#[test]
fn release_without_press_is_ignored() {
    let mut s = Selector::new();
    s.handle(Event::PointerUp);
    s.handle(Event::PointerMove(p(5, 5)));
    assert_eq!(s.exit, ExitState::Pending);
    assert!(!s.is_done());
    assert_eq!(s.anchor, None);
}

#[test]
fn click_without_motion_gives_empty_selection() {
    let mut s = Selector::new();
    let es = vec![Event::PointerDown(p(7, 9)), Event::PointerUp];
    assert_eq!(s.handle_all(&es), ExitState::ExitWithSelection(Rect { x: 7, y: 9, width: 0, height: 0 }));
}

#[test]
fn events_after_exit_are_ignored() {
    let mut s = Selector::new();
    let es = vec![Event::PointerDown(p(1, 1)), Event::PointerUp, Event::Cancel, Event::PointerDown(p(9, 9))];
    assert_eq!(s.handle_all(&es), ExitState::ExitWithSelection(Rect { x: 1, y: 1, width: 0, height: 0 }));
}

#[test]
fn second_press_keeps_anchor() {
    let mut s = Selector::new();
    let es = vec![
        Event::PointerDown(p(100, 100)),
        Event::PointerDown(p(0, 0)),
        Event::PointerMove(p(150, 120)),
        Event::PointerUp,
    ];
    assert_eq!(s.handle_all(&es), ExitState::ExitWithSelection(Rect { x: 100, y: 100, width: 50, height: 20 }));
}
