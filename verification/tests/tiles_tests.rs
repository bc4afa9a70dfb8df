use zeroengine::tiles::{stroke_cells, StrokeStep, TileStroke};

#[test]
fn a_stroke_covers_the_dragged_rectangle_row_by_row() {
    assert_eq!(stroke_cells((2, 5), (0, 4)), vec![(0, 4), (1, 4), (2, 4), (0, 5), (1, 5), (2, 5)]);
    assert_eq!(stroke_cells((0, 4), (2, 5)), stroke_cells((2, 5), (0, 4)));
    assert_eq!(stroke_cells((-1, -1), (-1, -1)), vec![(-1, -1)]);
}

#[test]
fn a_stroke_at_the_edge_of_the_cell_range_does_not_overflow() {
    assert_eq!(stroke_cells((i32::MAX, i32::MAX), (i32::MAX - 1, i32::MAX)), vec![(i32::MAX - 1, i32::MAX), (i32::MAX, i32::MAX)]);
}

#[test]
fn a_stroke_keeps_its_start_cell_until_release() {
    let mut stroke = TileStroke::new();
    assert_eq!(
        stroke.update(true, true, false, Some((1, 1))),
        StrokeStep::Cells { begin_edit: true, cells: vec![(1, 1)] }
    );
    assert_eq!(
        stroke.update(true, true, true, Some((2, 1))),
        StrokeStep::Cells { begin_edit: false, cells: vec![(1, 1), (2, 1)] }
    );
    assert_eq!(stroke.update(true, true, true, None), StrokeStep::Idle);
    assert_eq!(stroke.start_cell, Some((1, 1)));
    assert_eq!(stroke.update(true, false, true, Some((5, 5))), StrokeStep::Released { finish_edit: true });
    assert_eq!(stroke.start_cell, None);
    assert_eq!(stroke.update(true, false, false, None), StrokeStep::Released { finish_edit: false });
}

#[test]
fn losing_the_brush_drops_the_stroke_without_finishing_the_edit() {
    let mut stroke = TileStroke::new();
    stroke.update(true, true, false, Some((0, 0)));
    assert_eq!(stroke.update(false, true, true, Some((3, 3))), StrokeStep::Idle);
    assert_eq!(stroke.start_cell, None);
}
