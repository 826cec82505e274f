use figby::brush::{BrushShape, BrushState};


#[test]
fn test_brush_default_shape() {
    let brush = BrushState::new();
    assert_eq!(brush.shape, BrushShape::Square);
}

#[test]
fn test_brush_default_size() {
    let brush = BrushState::new();
    assert_eq!(brush.size, 3);
}

#[test]
fn test_brush_cycle_shape() {
    let mut brush = BrushState::new();
    assert_eq!(brush.shape, BrushShape::Square);
    brush.cycle_shape();
    assert_eq!(brush.shape, BrushShape::Circle);
    brush.cycle_shape();
    assert_eq!(brush.shape, BrushShape::SprayPaint);
    brush.cycle_shape();
    assert_eq!(brush.shape, BrushShape::Custom);
    brush.cycle_shape();
    assert_eq!(brush.shape, BrushShape::Square);
}

#[test]
fn test_brush_size_clamp() {
    let mut brush = BrushState::new();
    brush.set_size(0);
    assert_eq!(brush.size, 1);
    brush.set_size(21);
    assert_eq!(brush.size, 20);
}

#[test]
fn test_brush_size_up_down() {
    let mut brush = BrushState::new();
    brush.size_down();
    assert_eq!(brush.size, 2);
    brush.size_up();
    assert_eq!(brush.size, 3);
    brush.size_up();
    assert_eq!(brush.size, 4);
}

#[test]
fn test_brush_size_up_max_boundary() {
    let mut brush = BrushState::new();
    brush.set_size(20);
    brush.size_up();
    assert_eq!(brush.size, 20);
}

#[test]
fn test_brush_size_down_min_boundary() {
    let mut brush = BrushState::new();
    brush.set_size(1);
    brush.size_down();
    assert_eq!(brush.size, 1);
}

#[test]
fn test_brush_preview_square() {
    let mut brush = BrushState::new();
    brush.set_size(3);
    let preview = brush.render_preview(5);
    assert_eq!(preview.len(), 3);
    for row in &preview {
        assert_eq!(row.len(), 3);
        assert!(row.chars().all(|c| c == '@'));
    }
}

#[test]
fn test_brush_preview_circle() {
    let brush = BrushState {
        shape: BrushShape::Circle,
        size: 5,
        ch: '\u{2588}',
        density: 35,
    };
    let preview = brush.render_preview(10);
    assert_eq!(preview.len(), 5);
    for row in &preview {
        assert_eq!(row.len(), 5);
    }
    let center = 2;
    assert_eq!(preview[center].as_bytes()[center] as char, '@');
}

#[test]
fn test_brush_preview_spray() {
    let brush = BrushState {
        shape: BrushShape::SprayPaint,
        size: 5,
        ch: '\u{2588}',
        density: 35,
    };
    let preview = brush.render_preview(10);
    assert_eq!(preview.len(), 5);
    for row in &preview {
        assert_eq!(row.len(), 5);
    }
    let has_dot = preview.iter().any(|r| r.contains('@'));
    let has_space = preview.iter().any(|r| r.contains(' '));
    assert!(has_dot, "spray preview should have some dots");
    assert!(has_space, "spray preview should have some spaces");
}

#[test]
fn test_brush_preview_spray_deterministic() {
    let a = BrushState {
        shape: BrushShape::SprayPaint,
        size: 7,
        ch: '\u{2588}',
        density: 35,
    };
    let b = BrushState {
        shape: BrushShape::SprayPaint,
        size: 7,
        ch: '\u{2588}',
        density: 35,
    };
    assert_eq!(a.render_preview(10), b.render_preview(10));
}

#[test]
fn test_brush_preview_custom() {
    let brush = BrushState {
        shape: BrushShape::Custom,
        size: 5,
        ch: '\u{2588}',
        density: 35,
    };
    let preview = brush.render_preview(10);
    assert_eq!(preview.len(), 5);
    assert_eq!(preview[2].as_bytes()[2] as char, '+');
}

#[test]
fn test_brush_preview_respects_max_size() {
    let mut brush = BrushState::new();
    brush.set_size(10);
    let preview = brush.render_preview(5);
    assert_eq!(preview.len(), 5);
    for row in &preview {
        assert_eq!(row.len(), 5);
    }
}

#[test]
fn test_brush_preview_size_zero() {
    let brush = BrushState {
        shape: BrushShape::Square,
        size: 0,
        ch: '\u{2588}',
        density: 35,
    };
    let preview = brush.render_preview(5);
    assert!(!preview.is_empty());
}

#[test]
fn test_brush_preview_all_shapes_size_one() {
    for shape in BrushShape::all().iter() {
        let brush = BrushState {
            shape: *shape,
            size: 1,
            ch: '\u{2588}',
            density: 35,
        };
        let preview = brush.render_preview(5);
        assert_eq!(preview.len(), 1);
        assert_eq!(preview[0].len(), 1);
    }
}

#[test]
fn test_mini_preview_size_5() {
    let brush = BrushState {
        shape: BrushShape::Square,
        size: 5,
        ch: '\u{2588}',
        density: 35,
    };
    let preview = brush.render_mini_preview();
    assert_eq!(preview.len(), 5);
    for row in &preview {
        assert_eq!(row.chars().count(), 5);
    }
    assert!(preview.iter().all(|r| r.chars().all(|c| c == '\u{2588}')));
}

#[test]
fn test_mini_preview_shape_cycle() {
    let mut brush = BrushState {
        shape: BrushShape::Square,
        size: 3,
        ch: '#',
        density: 35,
    };
    let mut outputs = std::collections::HashSet::new();
    for _ in 0..4 {
        let preview = brush.render_mini_preview();
        outputs.insert(preview.join("\n"));
        brush.cycle_shape();
    }
    assert_eq!(outputs.len(), 4);
}

#[test]
fn circle_preview_leaves_corners_out() {
    let brush = BrushState { shape: BrushShape::Circle, size: 3, ch: '#', density: 35 };
    assert_eq!(brush.render_preview(10), vec![" @ ", "@@@", " @ "]);
}

#[test]
fn test_mini_preview_resize_1_to_20() {
    for size in 1..=20 {
        for shape in BrushShape::all().iter() {
            let brush = BrushState {
                shape: *shape,
                size,
                ch: '#',
                density: 35,
            };
            let preview = brush.render_mini_preview();
            assert_eq!(preview.len(), 5, "size={size} shape={:?}", shape);
            for row in &preview {
                assert_eq!(row.len(), 5, "size={size} shape={:?}", shape);
            }
        }
    }
}

#[test]
fn test_mini_preview_uses_brush_char() {
    let brush = BrushState {
        shape: BrushShape::Square,
        size: 3,
        ch: '#',
        density: 35,
    };
    let preview = brush.render_mini_preview();
    for row in &preview {
        for c in row.chars() {
            if c != ' ' {
                assert_eq!(c, '#');
            }
        }
    }
}

#[test]
fn test_mini_preview_center_small_size() {
    let brush = BrushState {
        shape: BrushShape::Square,
        size: 1,
        ch: '#',
        density: 35,
    };
    let preview = brush.render_mini_preview();
    assert_eq!(preview.len(), 5);
    assert_eq!(preview[2].chars().nth(2), Some('#'));
    for (y, row) in preview.iter().enumerate() {
        for (x, c) in row.chars().enumerate() {
            if y != 2 || x != 2 {
                assert_eq!(c, ' ');
            }
        }
    }
}

// Further cases.

#[test]
fn brush_shape_names_and_cycle() {
    assert_eq!(BrushShape::Square.name(), "Square");
    assert_eq!(BrushShape::Custom.cycle(), BrushShape::Square);
    assert_eq!(BrushShape::all().len(), 4);
}

#[test]
fn density_clamps() {
    let mut brush = BrushState::new();
    brush.set_density(0);
    assert_eq!(brush.density, 1);
    brush.density_down();
    assert_eq!(brush.density, 1);
    brush.set_density(200);
    assert_eq!(brush.density, 100);
    brush.density_up();
    assert_eq!(brush.density, 100);
}

#[test]
fn circle_preview_corners_empty() {
    let brush = BrushState {
        shape: BrushShape::Circle,
        size: 5,
        ch: '#',
        density: 35,
    };
    let preview = brush.render_preview(10);
    assert_eq!(preview[0].as_bytes()[0] as char, ' ');
    assert_eq!(preview[2], "@@@@@");
}

#[test]
fn circle_preview_fills_inscribed_circle() {
    let small = BrushState { shape: BrushShape::Circle, size: 2, ch: '#', density: 35 };
    assert_eq!(small.render_preview(10), vec!["@@", "@@"]);
    let four = BrushState { shape: BrushShape::Circle, size: 4, ch: '#', density: 35 };
    assert_eq!(four.render_preview(10), vec![" @@ ", "@@@@", "@@@@", " @@ "]);
    let five = BrushState { shape: BrushShape::Circle, size: 5, ch: '#', density: 35 };
    assert_eq!(five.render_preview(10), vec![" @@@ ", "@@@@@", "@@@@@", "@@@@@", " @@@ "]);
}
