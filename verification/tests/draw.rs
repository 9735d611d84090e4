use evilwm::config::ConfigError;
use evilwm::draw::{draw_command_from_shape, parse_draw_commands, DrawCommand, DrawHookValue, DrawShape};
use evilwm::hooks::DrawSpace;
use evilwm::number::{Double, Single};

fn d(v: f64) -> Double {
    Double(v.to_bits())
}

fn s(v: f32) -> Single {
    Single(v.to_bits())
}

fn shape(kind: &str) -> DrawShape {
    DrawShape {
        kind: kind.into(),
        space: None,
        x: d(1.0),
        y: d(2.0),
        w: d(30.0),
        h: d(40.0),
        color: [s(1.0), s(0.5), s(0.0), s(1.0)],
        width: None,
        outer: None,
    }
}

fn message(r: Result<DrawCommand, ConfigError>) -> String {
    match r {
        Err(ConfigError::Validation(m)) => m,
        other => panic!("expected a validation error, got {other:?}"),
    }
}

#[test]
fn rect_shapes_become_commands() {
    assert_eq!(
        draw_command_from_shape(&shape("rect")),
        Ok(DrawCommand::Rect { space: DrawSpace::World, x: d(1.0), y: d(2.0), w: d(30.0), h: d(40.0), color: [s(1.0), s(0.5), s(0.0), s(1.0)] })
    );
    let mut screen = shape("stroke_rect");
    screen.space = Some("screen".into());
    screen.width = Some(d(2.0));
    assert_eq!(
        draw_command_from_shape(&screen),
        Ok(DrawCommand::StrokeRect {
            space: DrawSpace::Screen,
            x: d(1.0),
            y: d(2.0),
            w: d(30.0),
            h: d(40.0),
            width: d(2.0),
            outer: d(0.0),
            color: [s(1.0), s(0.5), s(0.0), s(1.0)],
        })
    );
}

#[test]
fn shape_checks_come_in_order() {
    let mut bad = shape("circle");
    assert_eq!(message(draw_command_from_shape(&bad)), "unsupported draw command kind: circle");
    bad.color[3] = s(1.5);
    assert_eq!(message(draw_command_from_shape(&bad)), "draw colors must use normalized rgba values in the range 0..1");
    bad.color[3] = s(f32::NAN);
    assert_eq!(message(draw_command_from_shape(&bad)), "draw colors must use normalized rgba values in the range 0..1");
    bad.h = d(0.0);
    assert_eq!(message(draw_command_from_shape(&bad)), "draw shapes require positive width and height");
    bad.space = Some("paper".into());
    assert_eq!(message(draw_command_from_shape(&bad)), "unsupported draw space: paper");

    let mut stroke = shape("stroke_rect");
    stroke.color[0] = s(-0.0);
    assert_eq!(message(draw_command_from_shape(&stroke)), "stroke_rect requires width > 0");
    stroke.width = Some(d(1.0));
    stroke.outer = Some(d(-1.0));
    assert_eq!(message(draw_command_from_shape(&stroke)), "stroke_rect outer must be >= 0");
}

#[test]
fn draw_hook_values_give_command_lists() {
    assert_eq!(parse_draw_commands(&DrawHookValue::Nothing), Ok(Vec::new()));
    assert_eq!(parse_draw_commands(&DrawHookValue::One(shape("rect"))).map(|v| v.len()), Ok(1));
    assert_eq!(
        parse_draw_commands(&DrawHookValue::Shapes(vec![shape("rect"), shape("oval"), shape("blob")])),
        Err(ConfigError::Validation("unsupported draw command kind: oval".into()))
    );
    assert_eq!(parse_draw_commands(&DrawHookValue::Shapes(vec![shape("rect"), shape("rect")])).map(|v| v.len()), Ok(2));
    assert_eq!(
        parse_draw_commands(&DrawHookValue::Other),
        Err(ConfigError::Validation(
            "draw hook must return nil, a shape table, a sequence of shape tables, or { shapes = { ... } }".into()
        ))
    );
}
