use texture_atlas::rect_solver::{Rect, Solver, SolverError};

/// Padded boxes of two placed rects, for overlap checks.
fn padded_box(r: &Rect<u32>, pads: [u32; 2]) -> (u32, u32, u32, u32) {
    (
        r.pos[0] - pads[0],
        r.pos[1] - pads[1],
        r.size[0] + 2 * pads[0],
        r.size[1] + 2 * pads[1],
    )
}

fn boxes_overlap(a: (u32, u32, u32, u32), b: (u32, u32, u32, u32)) -> bool {
    !(a.0 + a.2 <= b.0 || b.0 + b.2 <= a.0 || a.1 + a.3 <= b.1 || b.1 + b.3 <= a.1)
}

#[test]
fn test_two_rects_power_of_two_canvas() {
    // Two 10x10 rects with padding (1,1): total padded area 2 * 12 * 12 = 288,
    // so the first canvas candidate is 32 and both rects must be placed.
    let solver = Solver::with_params(64, [1, 1], true);
    let mut rects = vec![Rect::new(0u32, 10, 10), Rect::new(1u32, 10, 10)];
    let dims = solver.solve(&mut rects).unwrap();
    assert_eq!(dims, [32, 32]);
    for r in rects.iter() {
        assert!(r.pos[0] >= 1 && r.pos[1] >= 1);
        assert!(r.pos[0] + r.size[0] + 1 <= 32);
        assert!(r.pos[1] + r.size[1] + 1 <= 32);
    }
    let a = padded_box(&rects[0], [1, 1]);
    let b = padded_box(&rects[1], [1, 1]);
    assert!(!boxes_overlap(a, b));
}

#[test]
fn test_image_too_big_leaves_rects_unchanged() {
    let solver = Solver::with_params(64, [1, 1], true);
    let mut rects = vec![Rect::new(0u32, 100, 10), Rect::new(1u32, 10, 10)];
    let err = solver.solve(&mut rects).unwrap_err();
    assert_eq!(err, SolverError::ImageIsTooBig);
    assert_eq!(rects[0].pos, [0, 0]);
    assert_eq!(rects[1].pos, [0, 0]);
    assert_eq!(rects[0].size, [100, 10]);
    assert!(!rects[0].rotated && !rects[1].rotated);
}

#[test]
fn test_area_too_big() {
    // Two 8x8 rects with no padding cannot cover 128 on an 8x8 canvas.
    let solver = Solver::with_params(8, [0, 0], true);
    let mut rects = vec![Rect::new(0u32, 8, 8), Rect::new(1u32, 8, 8)];
    let err = solver.solve(&mut rects).unwrap_err();
    assert_eq!(err, SolverError::AreaIsTooBig);
    assert_eq!(rects[0].pos, [0, 0]);
    assert_eq!(rects[1].pos, [0, 0]);
}

#[test]
fn test_cannot_fit_on_one_page() {
    // Total padded area 13 fits a 4x4 canvas, but first-fit placement cannot
    // pack a 3x3 and a 2x2 onto it, and 4 is the largest allowed dimension.
    let solver = Solver::with_params(4, [0, 0], false);
    let mut rects = vec![Rect::new(0u32, 3, 3), Rect::new(1u32, 2, 2)];
    let err = solver.solve(&mut rects).unwrap_err();
    assert_eq!(err, SolverError::CannotFitOnOnePage(0));
}

#[test]
fn test_single_rect_smallest_canvas() {
    // One 10x10 rect without padding: area 100, so the canvas starts at 16.
    let solver = Solver::with_params(64, [0, 0], true);
    let mut rects = vec![Rect::new(0u32, 10, 10)];
    let dims = solver.solve(&mut rects).unwrap();
    assert_eq!(dims, [16, 16]);
    assert_eq!(rects[0].pos, [0, 0]);
    assert_eq!(rects[0].size, [10, 10]);
    assert!(!rects[0].rotated);
}

#[test]
fn test_empty_input_gives_unit_canvas() {
    let solver = Solver::with_params(64, [2, 2], true);
    let mut rects: Vec<Rect<u32>> = Vec::new();
    let dims = solver.solve(&mut rects).unwrap();
    assert_eq!(dims, [1, 1]);
}

#[test]
fn test_no_rotation_when_disallowed() {
    let solver = Solver::with_params(64, [0, 0], false);
    let mut rects = vec![
        Rect::new(0u32, 12, 3),
        Rect::new(1u32, 3, 12),
        Rect::new(2u32, 6, 6),
    ];
    let dims = solver.solve(&mut rects).unwrap();
    assert!(dims[0] == dims[1]);
    for r in rects.iter() {
        assert!(!r.rotated);
        assert!(r.pos[0] + r.size[0] <= dims[0]);
        assert!(r.pos[1] + r.size[1] <= dims[1]);
    }
    for i in 0..rects.len() {
        for j in (i + 1)..rects.len() {
            let a = padded_box(&rects[i], [0, 0]);
            let b = padded_box(&rects[j], [0, 0]);
            assert!(!boxes_overlap(a, b));
        }
    }
}

#[test]
fn test_keys_kept_in_input_order() {
    let solver = Solver::with_params(64, [1, 1], true);
    let mut rects = vec![
        Rect::new(7u32, 4, 9),
        Rect::new(8u32, 9, 4),
        Rect::new(9u32, 2, 2),
    ];
    solver.solve(&mut rects).unwrap();
    let keys: Vec<u32> = rects.iter().map(|r| r.key).collect();
    assert_eq!(keys, vec![7, 8, 9]);
}

#[test]
fn test_candidates_capped_at_max_dims() {
    // Total padded area 12 passes the pre-checks, but the only candidate
    // dimensions within max_dims == 5 are 1, 2 and 4, and first-fit cannot
    // pack these three rects onto a 4x4 canvas: the solver reports failure
    // instead of growing past the bounds.
    let solver = Solver::with_params(5, [0, 0], false);
    let mut rects = vec![
        Rect::new(0u32, 1, 3),
        Rect::new(1u32, 1, 3),
        Rect::new(2u32, 3, 2),
    ];
    let err = solver.solve(&mut rects).unwrap_err();
    assert_eq!(err, SolverError::CannotFitOnOnePage(0));
}

#[test]
fn test_first_fit_reference_layout() {
    // The same three rects on bounds of 8: area 12 starts the search at 4,
    // which fails, and 8 succeeds with the first-fit reference placement.
    let solver = Solver::with_params(8, [0, 0], false);
    let mut rects = vec![
        Rect::new(0u32, 1, 3),
        Rect::new(1u32, 1, 3),
        Rect::new(2u32, 3, 2),
    ];
    let dims = solver.solve(&mut rects).unwrap();
    assert_eq!(dims, [8, 8]);
    assert_eq!(rects[0].pos, [0, 0]);
    assert_eq!(rects[1].pos, [0, 3]);
    assert_eq!(rects[2].pos, [1, 0]);
    assert!(rects.iter().all(|r| !r.rotated));
}
