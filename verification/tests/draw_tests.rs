use vectorcade::{
    rect_wire, rot2, scale2, scale2_uniform, translate2, Button, DrawCmd, FontStyleId, Rgba,
    Stroke, Vec2Fx, FX_ONE,
};

#[test]
fn rect_wire_is_closed_polyline_over_corners() {
    let cmd = rect_wire(
        Vec2Fx::new(-FX_ONE / 2, -FX_ONE / 2),
        Vec2Fx::new(FX_ONE / 2, FX_ONE / 2),
        Stroke::new(Rgba::green(), 2 * FX_ONE),
    );
    match cmd {
        DrawCmd::Polyline { pts, closed, stroke } => {
            assert!(closed);
            assert_eq!(stroke.color, Rgba::green());
            assert_eq!(pts.len(), 4);
            assert_eq!(pts[0], Vec2Fx::new(-FX_ONE / 2, -FX_ONE / 2));
            assert_eq!(pts[1], Vec2Fx::new(FX_ONE / 2, -FX_ONE / 2));
            assert_eq!(pts[2], Vec2Fx::new(FX_ONE / 2, FX_ONE / 2));
            assert_eq!(pts[3], Vec2Fx::new(-FX_ONE / 2, FX_ONE / 2));
        },
        _ => panic!("expected a polyline"),
    }
}

#[test]
fn stroke_constructors() {
    let s = Stroke::new(Rgba::white(), FX_ONE);
    assert_eq!(s.glow, 0);
    let g = Stroke::with_glow(Rgba::white(), FX_ONE, FX_ONE / 2);
    assert_eq!(g.glow, FX_ONE / 2);
    let d = Stroke::default();
    assert_eq!(d.color, Rgba::white());
    assert_eq!(d.width_px, FX_ONE);
    assert_eq!(d.glow, 0);
}

#[test]
fn color_constructors_and_lerp() {
    let c = Rgba::rgb(FX_ONE, 0, 0);
    assert_eq!(c, Rgba(FX_ONE, 0, 0, FX_ONE));
    assert_eq!(c.with_a(FX_ONE / 2), Rgba(FX_ONE, 0, 0, FX_ONE / 2));
    let mixed = Rgba::black().lerp(Rgba::white(), FX_ONE / 2);
    assert_eq!(mixed, Rgba(FX_ONE / 2, FX_ONE / 2, FX_ONE / 2, FX_ONE));
    assert_eq!(Rgba::default(), Rgba::white());
}

#[test]
fn transform_builders_lay_out_matrices() {
    // A quarter turn: sin one, cos zero.
    let r = rot2(FX_ONE, 0);
    assert_eq!(r.cols, [0, FX_ONE, 0, -FX_ONE, 0, 0, 0, 0, FX_ONE]);
    let t = translate2(Vec2Fx::new(3, 4));
    assert_eq!(t.cols, [FX_ONE, 0, 0, 0, FX_ONE, 0, 3, 4, FX_ONE]);
    let s = scale2(Vec2Fx::new(2 * FX_ONE, 3 * FX_ONE));
    assert_eq!(s.cols, [2 * FX_ONE, 0, 0, 0, 3 * FX_ONE, 0, 0, 0, FX_ONE]);
    let u = scale2_uniform(2 * FX_ONE);
    assert_eq!(u.cols, [2 * FX_ONE, 0, 0, 0, 2 * FX_ONE, 0, 0, 0, FX_ONE]);
}

#[test]
fn button_up_is_fully_released() {
    let b = Button::up();
    assert!(!b.is_down && !b.went_down && !b.went_up);
}

#[test]
fn font_style_default_is_zero() {
    assert_eq!(FontStyleId::default_style(), FontStyleId(0));
}

#[test]
fn draw_commands_carry_their_data() {
    let line = DrawCmd::Line(vectorcade::Line2 {
        a: Vec2Fx::new(0, 0),
        b: Vec2Fx::new(FX_ONE, FX_ONE),
        stroke: Stroke::default(),
    });
    assert!(matches!(line, DrawCmd::Line(_)));
    let text = DrawCmd::Text {
        pos: Vec2Fx::new(0, 0),
        text: String::from("READY"),
        size_px: 8 * FX_ONE,
        color: Rgba::green(),
        style: FontStyleId(1),
    };
    match text {
        DrawCmd::Text { text, style, .. } => {
            assert_eq!(text, "READY");
            assert_eq!(style, FontStyleId(1));
        },
        _ => panic!("expected text"),
    }
}
