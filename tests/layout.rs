use wingshot::geometry::Rect;
use wingshot::layout::{Layout, LayoutError, OutputGeometry};

fn output(size: Option<(i32, i32)>, pos: Option<(i32, i32)>) -> OutputGeometry {
    OutputGeometry { logical_size: size, logical_position: pos }
}

#[test]
fn no_outputs_is_rejected() {
    assert_eq!(Layout::from_outputs(&vec![]).unwrap_err(), LayoutError::NoMonitors);
}

#[test]
fn two_monitors_span_both() {
    let outs = vec![
        output(Some((1920, 1080)), Some((0, 0))),
        output(Some((1920, 1080)), Some((1920, 0))),
    ];
    let l = Layout::from_outputs(&outs).unwrap();
    assert_eq!(l.rects, vec![
        Rect { x: 0, y: 0, width: 1920, height: 1080 },
        Rect { x: 1920, y: 0, width: 1920, height: 1080 },
    ]);
    assert_eq!(l.area, Rect { x: 0, y: 0, width: 3840, height: 1080 });
}

#[test]
fn single_monitor_area_is_its_rect() {
    let l = Layout::from_outputs(&vec![output(Some((800, 600)), Some((-800, 40)))]).unwrap();
    assert_eq!(l.area, Rect { x: -800, y: 40, width: 800, height: 600 });
}

#[test]
fn missing_size_names_the_output() {
    let outs = vec![output(Some((10, 10)), Some((0, 0))), output(None, Some((10, 0)))];
    assert_eq!(Layout::from_outputs(&outs).unwrap_err(), LayoutError::MissingSize { output: 1 });
}

#[test]
fn missing_position_names_the_output() {
    let outs = vec![output(Some((10, 10)), None), output(None, None)];
    assert_eq!(Layout::from_outputs(&outs).unwrap_err(), LayoutError::MissingPosition { output: 0 });
}

#[test]
fn size_is_checked_before_position() {
    let outs = vec![output(None, None)];
    assert_eq!(Layout::from_outputs(&outs).unwrap_err(), LayoutError::MissingSize { output: 0 });
}

#[test]
fn negative_size_is_rejected() {
    let outs = vec![output(Some((10, 10)), Some((0, 0))), output(Some((10, -1)), Some((0, 0)))];
    assert_eq!(Layout::from_outputs(&outs).unwrap_err(), LayoutError::InvalidSize { output: 1 });
}

#[test]
fn zero_width_area_is_rejected() {
    let outs = vec![output(Some((0, 100)), Some((5, 0))), output(Some((0, 50)), Some((5, 200)))];
    assert_eq!(Layout::from_outputs(&outs).unwrap_err(), LayoutError::EmptyArea);
}

#[test]
fn extreme_positions_are_held() {
    let outs = vec![
        output(Some((i32::MAX, i32::MAX)), Some((i32::MAX, i32::MAX))),
        output(Some((1, 1)), Some((i32::MIN, i32::MIN))),
    ];
    let l = Layout::from_outputs(&outs).unwrap();
    let w = 2 * (i32::MAX as i64) - (i32::MIN as i64);
    assert_eq!(l.area, Rect { x: i32::MIN as i64, y: i32::MIN as i64, width: w, height: w });
}
