use chip8::window::{
    fit_scale, initial_window_size, render_frame, render_square, FrameColors, Position, Size,
};

#[test]
fn size_accessors() {
    let mut s = Size::new(3, 4);
    assert_eq!((3, 4), s.get());
    s.set(5, 6);
    assert_eq!((5, 6), s.get());
}

#[test]
fn position_from_coords_and_index() {
    let p = Position::from_coords(3, 2, 10);
    assert_eq!(23, p.index);
    let q = Position::from_index(p.index, 10);
    assert_eq!((3, 2), (q.x, q.y));
    assert_eq!(10, q.get_screen_width());
}

#[test]
fn position_scale_and_padding() {
    let p = Position::from_coords(3, 2, 10).scale(4);
    assert_eq!((12, 8, 40), (p.x, p.y, p.get_screen_width()));
    assert_eq!(40 * 8 + 12, p.index);
    let q = p.add_padding(5, 7);
    assert_eq!((17, 15, 50), (q.x, q.y, q.get_screen_width()));
    assert_eq!(50 * 15 + 17, q.index);
}

#[test]
fn window_sizes() {
    let s = initial_window_size(Size::new(64, 32));
    assert_eq!((1280, 640), s.get());
    let s = initial_window_size(Size::new(usize::MAX / 10, 1));
    assert_eq!((usize::MAX, 20), s.get());
    assert_eq!(10, fit_scale(Size::new(650, 900), Size::new(64, 32)));
    assert_eq!(3, fit_scale(Size::new(650, 100), Size::new(64, 32)));
    assert_eq!(0, fit_scale(Size::new(10, 100), Size::new(64, 32)));
}

#[test]
fn square_painting() {
    let mut buf = vec![0u32; 20];
    render_square(Position::from_coords(1, 1, 5), Size::new(2, 3), 7, &mut buf);
    let expected = vec![
        0, 0, 0, 0, 0, //
        0, 7, 7, 0, 0, //
        0, 7, 7, 0, 0, //
        0, 7, 7, 0, 0,
    ];
    assert_eq!(expected, buf);
}

#[test]
fn frame_painting_with_margins() {
    // A 2 x 1 screen, scaled twice, in a 6 x 4 window: one column and one
    // row of margin on each side.
    let colors = FrameColors { active: 1, inactive: 2, border: 9 };
    let mut buf = vec![0u32; 24];
    render_frame(&mut buf, &[true, false], Size::new(2, 1), Size::new(6, 4), 2, colors);
    let expected = vec![
        9, 9, 9, 9, 9, 9, //
        9, 1, 1, 2, 2, 9, //
        9, 1, 1, 2, 2, 9, //
        9, 9, 9, 9, 9, 9,
    ];
    assert_eq!(expected, buf);
}

#[test]
fn frame_painting_without_margins() {
    let colors = FrameColors { active: 1, inactive: 0, border: 9 };
    let mut buf = vec![5u32; 4];
    render_frame(&mut buf, &[false, true, true, false], Size::new(2, 2), Size::new(2, 2), 1, colors);
    assert_eq!(vec![0, 1, 1, 0], buf);
}

#[test]
fn frame_painting_with_odd_leftover_width_uses_narrower_rows() {
    // 5 - 2 * 2 leaves one column: no margin is painted, and the squares are
    // laid out in rows four pixels wide.
    let colors = FrameColors { active: 1, inactive: 2, border: 9 };
    let mut buf = vec![0u32; 10];
    render_frame(&mut buf, &[true, false], Size::new(2, 1), Size::new(5, 2), 2, colors);
    assert_eq!(vec![1, 1, 2, 2, 1, 1, 2, 2, 0, 0], buf);
}

#[test]
fn frame_painting_with_odd_leftover_height_keeps_a_row() {
    // 4 - 1 leaves three rows: one margin row above, one below, and the row
    // between the screen and the bottom margin keeps what it held.
    let colors = FrameColors { active: 1, inactive: 2, border: 9 };
    let mut buf = vec![0u32; 8];
    render_frame(&mut buf, &[true, false], Size::new(2, 1), Size::new(2, 4), 1, colors);
    assert_eq!(vec![9, 9, 1, 2, 0, 0, 9, 9], buf);
}
