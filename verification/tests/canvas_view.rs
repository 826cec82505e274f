use figby::canvas::{CanvasCell, CanvasWidget, Color, TextOverlay};
use figby::canvas_view::TermCell;

fn blank(w: usize, h: usize) -> Vec<Vec<TermCell>> {
    let t = TermCell { ch: ' ', fg: None, bg: None, dim: false, bold: false, reversed: false };
    vec![vec![t; w]; h]
}

fn chars(f: &[Vec<TermCell>]) -> Vec<String> {
    f.iter().map(|r| r.iter().map(|c| c.ch).collect()).collect()
}

#[test]
fn render_draws_cells_and_cursor() {
    let mut w = CanvasWidget::new(3, 2);
    w.buffer.set(0, 0, CanvasCell { ch: 'a', fg: Some(Color::Red), ..CanvasCell::default() });
    w.buffer.set(2, 1, CanvasCell { ch: 'z', ..CanvasCell::default() });
    let out = w.render(blank(4, 2), 4, 2, Color::Yellow, Color::Cyan);
    assert_eq!(chars(&out), vec!["a   ", "  z "]);
    assert_eq!(out[0][0].fg, Some(Color::Red));
    assert!(out[0][0].reversed);
    assert!(!out[0][1].reversed);
    assert!(!out[1][2].reversed);
}

#[test]
fn render_zoomed_grid() {
    let mut w = CanvasWidget::new(3, 2);
    w.buffer.set(0, 0, CanvasCell { ch: 'a', ..CanvasCell::default() });
    w.zoom_in();
    w.toggle_grid();
    let out = w.render(blank(4, 4), 4, 4, Color::Yellow, Color::Cyan);
    assert_eq!(chars(&out), vec!["aa│ ", "aa│ ", "──┼─", "  │ "]);
    assert!(out[2][0].dim);
    assert!(out[0][0].reversed && out[1][1].reversed);
    assert!(!out[0][2].reversed);
}

#[test]
fn render_outline_vertices_and_overlay() {
    let mut w = CanvasWidget::new(4, 2);
    w.set_cursor(3, 1);
    w.selection_perimeter = Some(vec![(1, 0), (0, 0)]);
    w.polygon_vertices = vec![(3, 0)];
    w.text_overlays = vec![TextOverlay {
        x: 1,
        y: 1,
        rows: vec!["AB".to_string()],
        color: Some(Color::Blue),
        scale: 1,
        rotation: 0,
    }];
    let out = w.render(blank(4, 2), 4, 2, Color::Yellow, Color::Cyan);
    assert_eq!(chars(&out), vec!["▒  +", " AB "]);
    assert_eq!(out[0][0].fg, Some(Color::Yellow));
    assert!(out[0][1].bold);
    assert_eq!(out[0][3].fg, Some(Color::Yellow));
    assert_eq!(out[1][1].fg, Some(Color::Blue));
    assert!(out[1][3].reversed);
    let mut turned = CanvasWidget::new(4, 4);
    turned.text_overlays = vec![TextOverlay {
        x: 0,
        y: 0,
        rows: vec!["AB".to_string()],
        color: None,
        scale: 1,
        rotation: 90,
    }];
    let out = turned.render(blank(2, 2), 2, 2, Color::Yellow, Color::Cyan);
    assert_eq!(chars(&out), vec!["A ", "  "]);
    turned.text_overlays[0].rotation = 270;
    let out = turned.render(blank(2, 2), 2, 2, Color::Yellow, Color::Cyan);
    assert_eq!(chars(&out), vec!["A ", "B "]);
    turned.text_overlays[0].rotation = 180;
    turned.text_overlays[0].scale = 2;
    let out = turned.render(blank(4, 2), 4, 2, Color::Yellow, Color::Cyan);
    assert_eq!(chars(&out), vec!["BBAA", "BBAA"]);
}
