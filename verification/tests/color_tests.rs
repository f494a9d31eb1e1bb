use theme_fader::color::{lerp_color, Color, ColorParseError, UNIT};

fn parse(s: &str) -> Color {
    Color::from_str(s).expect("color should parse")
}

#[test]
fn parse_rrggbb_red() {
    let c = parse("#ff0000");
    assert_eq!(c.rgba.r, 65535);
    assert_eq!(c.rgba.g, 0);
    assert_eq!(c.rgba.b, 0);
    assert_eq!(c.rgba.a, UNIT);
    assert_eq!(c.hsla.h, 0);
    assert_eq!(c.hsla.s, 65535);
    assert_eq!(c.hsla.l, 32767);
    assert_eq!(c.hsla.a, UNIT);
}

#[test]
fn parse_rrggbb_green_and_blue() {
    let g = parse("#00ff00");
    assert_eq!((g.rgba.r, g.rgba.g, g.rgba.b), (0, 65535, 0));
    assert_eq!((g.hsla.h, g.hsla.s, g.hsla.l), (21845, 65535, 32767));
    let b = parse("#0000ff");
    assert_eq!((b.rgba.r, b.rgba.g, b.rgba.b), (0, 0, 65535));
    assert_eq!((b.hsla.h, b.hsla.s, b.hsla.l), (43690, 65535, 32767));
}

#[test]
fn parse_rrggbbaa() {
    let c = parse("#11223344");
    assert_eq!(c.rgba.r, 0x11 * 257);
    assert_eq!(c.rgba.g, 0x22 * 257);
    assert_eq!(c.rgba.b, 0x33 * 257);
    assert_eq!(c.rgba.a, 0x44 * 257);
    assert_eq!((c.hsla.h, c.hsla.s, c.hsla.l), (38228, 32767, 8738));
    assert_eq!(c.hsla.a, 0x44 * 257);
}

#[test]
fn parse_is_case_insensitive() {
    assert_eq!(parse("#FF0000"), parse("#ff0000"));
    assert_eq!(parse("#AbCdEf"), parse("#abcdef"));
}

#[test]
fn parse_missing_alpha_means_opaque() {
    let c = parse("#336699");
    assert_eq!(c.rgba.a, UNIT);
    assert_eq!(c.hsla.a, UNIT);
}

#[test]
fn parse_rejects_malformed_text() {
    for bad in ["", "#", "ff0000", "#ff000", "#ff00001", "#gg0000", "#ff00zz", "#ff0000 ", "# f0000", "#ff00000000"] {
        assert_eq!(Color::from_str(bad), Err(ColorParseError::InvalidColorFormat), "input {:?}", bad);
    }
}

#[test]
fn lerp_with_itself_changes_nothing() {
    let a = parse("#12ab56");
    for t in [-10i64, 0, 1, 32768, 65535, 70000] {
        let r = lerp_color(a, a, t);
        assert_eq!(r.hsla, a.hsla);
    }
    // A color built by interpolation is returned back whole.
    let c = lerp_color(a, parse("#00ff00"), 9999);
    assert_eq!(lerp_color(c, c, 500), c);
}

#[test]
fn lerp_endpoints_give_endpoints() {
    let a = parse("#ff0000");
    let b = parse("#00ff00");
    assert_eq!(lerp_color(a, b, 0).hsla, a.hsla);
    assert_eq!(lerp_color(a, b, UNIT as i64).hsla, b.hsla);
    // Colors already in interpolated form come back whole at the endpoints.
    let c = lerp_color(a, b, 11111);
    let d = lerp_color(b, a, 22222);
    assert_eq!(lerp_color(c, d, 0), c);
    assert_eq!(lerp_color(c, d, UNIT as i64), d);
}

#[test]
fn lerp_clamps_instead_of_extrapolating() {
    let a = parse("#ff0000");
    let b = parse("#0000ff");
    assert_eq!(lerp_color(a, b, -100), lerp_color(a, b, 0));
    assert_eq!(lerp_color(a, b, i64::MIN), lerp_color(a, b, 0));
    assert_eq!(lerp_color(a, b, 70000), lerp_color(a, b, UNIT as i64));
    assert_eq!(lerp_color(a, b, i64::MAX), lerp_color(a, b, UNIT as i64));
}

#[test]
fn lerp_midpoint_exact_value() {
    let a = parse("#ff0000");
    let b = parse("#00ff00");
    let r = lerp_color(a, b, 32768);
    assert_eq!((r.hsla.h, r.hsla.s, r.hsla.l, r.hsla.a), (10922, 65535, 32767, 65535));
    // The channel form is recomputed from the interpolated values.
    assert_eq!((r.rgba.r, r.rgba.g, r.rgba.b, r.rgba.a), (65534, 65531, 0, 65535));
}

#[test]
fn default_color_is_opaque_magenta() {
    let c = Color::default();
    assert_eq!((c.rgba.r, c.rgba.g, c.rgba.b, c.rgba.a), (65535, 0, 65535, 65535));
    assert_eq!((c.hsla.h, c.hsla.s, c.hsla.l, c.hsla.a), (54612, 65535, 32767, 65535));
}
