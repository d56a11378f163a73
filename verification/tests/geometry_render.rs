use scene_engine::geom::{Line, Rect, Zone};
use scene_engine::sprite::{render_plan, Color, RenderError, RenderOp, Sprite, SpriteSheet};

#[test]
fn rect_zone_triggers_on_entering() {
    let zone = Zone::Rect(Rect { x: 10, y: 10, w: 10, h: 10 });
    let outside = Rect { x: 0, y: 10, w: 5, h: 5 };
    let inside = Rect { x: 8, y: 10, w: 5, h: 5 };
    assert!(zone.sprite_triggered(outside, inside));
}

#[test]
fn rect_zone_does_not_retrigger_while_inside() {
    let zone = Zone::Rect(Rect { x: 10, y: 10, w: 10, h: 10 });
    let a = Rect { x: 12, y: 12, w: 2, h: 2 };
    let b = Rect { x: 13, y: 13, w: 2, h: 2 };
    assert!(!zone.sprite_triggered(a, b));
}

#[test]
fn rect_zone_ignores_movement_that_stays_outside() {
    let zone = Zone::Rect(Rect { x: 10, y: 10, w: 10, h: 10 });
    let a = Rect { x: 0, y: 0, w: 2, h: 2 };
    let b = Rect { x: 4, y: 0, w: 2, h: 2 };
    assert!(!zone.sprite_triggered(a, b));
}

#[test]
fn line_zone_triggers_when_center_path_crosses() {
    let zone = Zone::Line(Line((10, 0), (10, 20)));
    // Centers sweep from (2, 10) to (18, 10), crossing x = 10.
    let start = Rect { x: 0, y: 8, w: 4, h: 4 };
    let end = Rect { x: 16, y: 8, w: 4, h: 4 };
    assert!(zone.sprite_triggered(start, end));
}

#[test]
fn line_zone_ignores_path_that_stops_short() {
    let zone = Zone::Line(Line((10, 0), (10, 20)));
    // Centers sweep from (2, 10) to (8, 10), never reaching x = 10.
    let start = Rect { x: 0, y: 8, w: 4, h: 4 };
    let end = Rect { x: 6, y: 8, w: 4, h: 4 };
    assert!(!zone.sprite_triggered(start, end));
}

#[test]
fn line_zone_boundary_contact_counts() {
    let zone = Zone::Line(Line((10, 0), (10, 20)));
    // The path's far endpoint lands exactly on the line.
    let start = Rect { x: 0, y: 8, w: 4, h: 4 };
    let end = Rect { x: 8, y: 8, w: 4, h: 4 };
    assert!(zone.sprite_triggered(start, end));
}

#[test]
fn line_zone_ignores_parallel_path() {
    let zone = Zone::Line(Line((10, 0), (10, 20)));
    // Vertical sweep along x = 4, parallel to the zone line.
    let start = Rect { x: 2, y: 0, w: 4, h: 4 };
    let end = Rect { x: 2, y: 10, w: 4, h: 4 };
    assert!(!zone.sprite_triggered(start, end));
}

#[test]
fn spritesheet_get_finds_registered_sprite() {
    let src = Rect { x: 0, y: 0, w: 16, h: 16 };
    let sheet = SpriteSheet::new(0u8, vec![("hero".to_string(), src)]);
    assert_eq!(sheet.get("hero".to_string()), Some(&src));
    assert_eq!(sheet.get("ghost".to_string()), None);
}

#[test]
fn render_plan_lists_operations_in_sprite_order() {
    let src = Rect { x: 0, y: 0, w: 16, h: 16 };
    let sheet = SpriteSheet::new(0u8, vec![("hero".to_string(), src)]);
    let dst = Rect { x: 32, y: 48, w: 16, h: 16 };
    let box_rect = Rect { x: 0, y: 0, w: 8, h: 8 };
    let color = Color { r: 255, g: 0, b: 0, a: 255 };
    let sprites = vec![
        Sprite::Texture { rect: dst, sprite: "hero".to_string() },
        Sprite::Rect { rect: box_rect, color },
    ];
    let ops = render_plan(&sprites, &sheet).unwrap();
    assert_eq!(
        ops,
        vec![
            RenderOp::Copy { src, dst },
            RenderOp::Fill { rect: box_rect, color },
        ]
    );
}

#[test]
fn render_plan_reports_first_missing_sprite() {
    let sheet: SpriteSheet<u8> = SpriteSheet::new(0u8, vec![]);
    let dst = Rect { x: 0, y: 0, w: 16, h: 16 };
    let sprites = vec![Sprite::Texture { rect: dst, sprite: "ghost".to_string() }];
    assert_eq!(
        render_plan(&sprites, &sheet),
        Err(RenderError::MissingSprite("ghost".to_string()))
    );
}
