use graviplex::{ColorBits, Lifetime, Sprite, SpriteShape, Transform, Vec2Bits, Velocity};

fn v(x: f32, y: f32) -> Vec2Bits {
    Vec2Bits::new(x.to_bits(), y.to_bits())
}

fn rgb(r: f32, g: f32, b: f32) -> ColorBits {
    ColorBits::rgba(r.to_bits(), g.to_bits(), b.to_bits(), 1.0f32.to_bits())
}

fn red() -> ColorBits {
    rgb(1.0, 0.0, 0.0)
}

fn blue() -> ColorBits {
    rgb(0.0, 0.0, 1.0)
}

#[test]
fn test_transform_builders() {
    let t = Transform::from_xy(10.0f32.to_bits(), 20.0f32.to_bits())
        .with_rotation(1.0f32.to_bits())
        .with_uniform_scale(2.0f32.to_bits());

    assert_eq!(t.position, v(10.0, 20.0));
    assert_eq!(t.rotation_bits, 1.0f32.to_bits());
    assert_eq!(t.scale, v(2.0, 2.0));
}

#[test]
fn test_sprite_shapes() {
    let circle = Sprite::circle(50.0f32.to_bits(), red());
    assert!(matches!(circle.shape, SpriteShape::Circle { radius_bits } if radius_bits == 50.0f32.to_bits()));

    let rect = Sprite::rect(100.0f32.to_bits(), 50.0f32.to_bits(), blue());
    assert!(matches!(rect.shape, SpriteShape::Rect { .. }));
}

#[test]
fn test_sprite_texture_shape() {
    let texture_sprite = Sprite::texture("player", v(64.0, 64.0), ColorBits::white());

    assert!(matches!(texture_sprite.shape, SpriteShape::Texture { region_name: "player", .. }));
    assert_eq!(texture_sprite.color, ColorBits::white());
    assert_eq!(texture_sprite.z_order, 0);
}

#[test]
fn test_sprite_texture_with_tint() {
    let tinted = Sprite::texture("enemy", v(32.0, 32.0), red());

    assert_eq!(tinted.color, red());
    if let SpriteShape::Texture { region_name, size } = tinted.shape {
        assert_eq!(region_name, "enemy");
        assert_eq!(size, v(32.0, 32.0));
    } else {
        panic!("Expected Texture shape");
    }
}

#[test]
fn test_sprite_texture_with_z_order() {
    let sprite = Sprite::texture("bullet", v(8.0, 8.0), rgb(1.0, 1.0, 0.0)).with_z_order(100);

    assert_eq!(sprite.z_order, 100);
}

#[test]
fn test_sprite_shape_all_variants() {
    let shapes = vec![
        SpriteShape::Circle { radius_bits: 10.0f32.to_bits() },
        SpriteShape::Rect { size: v(20.0, 30.0) },
        SpriteShape::Line { end_offset: v(50.0, 0.0) },
        SpriteShape::Texture { region_name: "test", size: v(32.0, 32.0) },
    ];

    assert_eq!(shapes.len(), 4);

    let f = f32::from_bits;
    for shape in shapes {
        match shape {
            SpriteShape::Circle { radius_bits } => assert!(f(radius_bits) > 0.0),
            SpriteShape::Rect { size } => assert!(f(size.x_bits) > 0.0 && f(size.y_bits) > 0.0),
            SpriteShape::Line { end_offset } => {
                let (x, y) = (f(end_offset.x_bits), f(end_offset.y_bits));
                assert!((x * x + y * y).sqrt() > 0.0)
            }
            SpriteShape::Texture { region_name, size } => {
                assert!(!region_name.is_empty());
                assert!(f(size.x_bits) > 0.0 && f(size.y_bits) > 0.0);
            }
        }
    }
}

#[test]
fn test_sprite_shape_partial_eq() {
    let shape1 = SpriteShape::Circle { radius_bits: 10.0f32.to_bits() };
    let shape2 = SpriteShape::Circle { radius_bits: 10.0f32.to_bits() };
    let shape3 = SpriteShape::Circle { radius_bits: 20.0f32.to_bits() };

    assert_eq!(shape1, shape2);
    assert_ne!(shape1, shape3);

    let tex1 = SpriteShape::Texture { region_name: "player", size: v(32.0, 32.0) };
    let tex2 = SpriteShape::Texture { region_name: "player", size: v(32.0, 32.0) };
    let tex3 = SpriteShape::Texture { region_name: "enemy", size: v(32.0, 32.0) };

    assert_eq!(tex1, tex2);
    assert_ne!(tex1, tex3);
}

#[test]
fn component_defaults_and_builders() {
    let t = Transform::default();
    assert_eq!(t.position, v(0.0, 0.0));
    assert_eq!(t.scale, v(1.0, 1.0));
    assert_eq!(t.rotation_bits, 0.0f32.to_bits());
    let t = Transform::from_position(v(1.0, 2.0)).with_scale(v(3.0, 4.0));
    assert_eq!(t.scale, v(3.0, 4.0));
    assert_eq!(Velocity::new(1.0f32.to_bits(), 2.0f32.to_bits()), Velocity::from(v(1.0, 2.0)));
    assert_eq!(Velocity::default().0, v(0.0, 0.0));
    let s = Sprite::default();
    assert_eq!(s.shape, SpriteShape::Circle { radius_bits: 10.0f32.to_bits() });
    assert_eq!(s.color, ColorBits::white());
    let s = Sprite::line(v(5.0, 0.0), red()).with_color(blue());
    assert_eq!(s.color, blue());
    assert_eq!(Lifetime::new(2.0f32.to_bits()).0, 2.0f32.to_bits());
}
