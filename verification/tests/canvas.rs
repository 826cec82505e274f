use figby::canvas::{CanvasBuffer, CanvasCell, CanvasWidget, Color};
use figby::keys::KeyCode;

#[test]
fn buffer_starts_blank_and_sets_in_bounds() {
    let mut b = CanvasBuffer::new(3, 2);
    assert_eq!(b.width(), 3);
    assert_eq!(b.height(), 2);
    assert_eq!(*b.get(2, 1).unwrap(), CanvasCell::blank());
    assert!(b.get(3, 0).is_none());
    let c = CanvasCell { ch: 'x', fg: Some(Color::Red), bg: None, height: Some(3) };
    b.set(1, 1, c);
    b.set(9, 9, c);
    assert_eq!(*b.get(1, 1).unwrap(), c);
    let d = b.duplicate();
    assert_eq!(*d.get(1, 1).unwrap(), c);
    assert_eq!(*d.get(0, 0).unwrap(), CanvasCell::default());
}

#[test]
fn widget_moves_and_clamps() {
    let mut w = CanvasWidget::new(3, 2);
    w.move_left();
    w.move_up();
    assert_eq!(w.cursor(), (0, 0));
    w.move_right();
    w.move_right();
    w.move_right();
    w.move_down();
    w.move_down();
    assert_eq!(w.cursor(), (2, 1));
    w.set_cursor(100, 0);
    assert_eq!(w.cursor(), (2, 0));
    let z = CanvasWidget::new(0, 0);
    assert_eq!(z.buffer.width(), 1);
}

#[test]
fn zoom_doubles_and_halves_within_limits() {
    let mut w = CanvasWidget::new(4, 4);
    for _ in 0..5 {
        w.zoom_in();
    }
    assert_eq!(w.zoom_level(), 8);
    w.zoom_out();
    assert_eq!(w.zoom_level(), 4);
    for _ in 0..5 {
        w.zoom_out();
    }
    assert_eq!(w.zoom_level(), 1);
    w.toggle_grid();
    assert!(w.show_grid());
}

#[test]
fn view_follows_cursor() {
    let mut w = CanvasWidget::new(50, 50);
    w.set_cursor(20, 30);
    w.ensure_cursor_visible(10, 10);
    assert_eq!(w.scroll_offset(), (11, 21));
    w.set_cursor(5, 5);
    w.ensure_cursor_visible(10, 10);
    assert_eq!(w.scroll_offset(), (5, 5));
    w.ensure_cursor_visible(0, 10);
    assert_eq!(w.scroll_offset(), (5, 5));
}

#[test]
fn keys_drive_the_widget() {
    let mut w = CanvasWidget::new(10, 10);
    assert!(w.handle_key(KeyCode::Right, 4, 4));
    assert!(w.handle_key(KeyCode::Char('+'), 4, 4));
    assert_eq!(w.zoom_level(), 2);
    assert_eq!(w.cursor(), (1, 0));
    assert!(w.handle_key(KeyCode::Right, 4, 4));
    assert!(w.handle_key(KeyCode::Right, 4, 4));
    assert_eq!(w.scroll_offset(), (2, 0));
    assert!(w.handle_key(KeyCode::Char('G'), 4, 4));
    assert!(w.show_grid());
    assert!(!w.handle_key(KeyCode::Char('x'), 4, 4));
}

#[test]
fn buffer_get_mut_writes_through() {
    let mut b = CanvasBuffer::new(3, 2);
    if let Some(c) = b.get_mut(1, 1) {
        c.ch = 'Q';
        c.fg = Some(Color::Red);
    }
    assert_eq!(b.get(1, 1).map(|c| c.ch), Some('Q'));
    assert_eq!(b.get(1, 1).and_then(|c| c.fg), Some(Color::Red));
    assert_eq!(b.get(0, 1).map(|c| c.ch), Some(' '));
    assert!(b.get_mut(3, 0).is_none());
    assert!(b.get_mut(0, 2).is_none());
}
