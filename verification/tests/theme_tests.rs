use theme_fader::color::{Color, UNIT};
use theme_fader::theme::{insert_hex_colors, lerp_theme, InterpolatableTheme, Theme};

fn color(s: &str) -> Color {
    Color::from_str(s).expect("color should parse")
}

fn theme_of(pairs: &[(&str, &str)]) -> InterpolatableTheme {
    let mut t = InterpolatableTheme::new();
    for (k, v) in pairs {
        t.insert(k.to_string(), color(v));
    }
    t
}

#[test]
fn get_finds_inserted_keys_and_nothing_else() {
    let t = theme_of(&[("editor.background", "#112233"), ("text", "#ffffff")]);
    assert_eq!(t.get(&"editor.background".to_string()), Some(color("#112233")));
    assert_eq!(t.get(&"text".to_string()), Some(color("#ffffff")));
    assert_eq!(t.get(&"surface.background".to_string()), None);
    assert_eq!(t.get(&"".to_string()), None);
}

#[test]
fn insert_replaces_an_existing_key() {
    let mut t = theme_of(&[("text", "#000000")]);
    t.insert("text".to_string(), color("#ffffff"));
    assert_eq!(t.get(&"text".to_string()), Some(color("#ffffff")));
    assert_eq!(t.entries.len(), 1);
}

#[test]
fn lerp_theme_keeps_exactly_the_first_themes_keys() {
    let a = theme_of(&[("shared", "#ff0000"), ("only.a", "#00ff00")]);
    let b = theme_of(&[("shared", "#0000ff"), ("only.b", "#ffffff")]);
    let r = lerp_theme(&a, &b, 32768);
    // Every key of `a` is present; no key absent from `a` appears.
    assert!(r.get(&"shared".to_string()).is_some());
    assert!(r.get(&"only.a".to_string()).is_some());
    assert_eq!(r.get(&"only.b".to_string()), None);
}

#[test]
fn lerp_theme_interpolates_shared_and_copies_unshared() {
    let a = theme_of(&[("shared", "#ff0000"), ("only.a", "#00ff00")]);
    let b = theme_of(&[("shared", "#0000ff")]);
    let r = lerp_theme(&a, &b, UNIT as i64);
    // At the far endpoint a shared key reaches b's color (in the
    // hue/saturation/lightness form, which interpolation works in).
    assert_eq!(
        r.get(&"shared".to_string()).unwrap().hsla,
        color("#0000ff").hsla
    );
    // A key only in `a` is copied unchanged.
    assert_eq!(r.get(&"only.a".to_string()), Some(color("#00ff00")));
}

#[test]
fn malformed_color_text_skips_only_that_key() {
    let mut t = InterpolatableTheme::new();
    let pairs = vec![
        ("good.one".to_string(), "#ff0000".to_string()),
        ("bad".to_string(), "not a color".to_string()),
        ("good.two".to_string(), "#00ff0080".to_string()),
    ];
    insert_hex_colors(&mut t, &pairs);
    assert_eq!(t.get(&"good.one".to_string()), Some(color("#ff0000")));
    assert_eq!(t.get(&"bad".to_string()), None);
    assert_eq!(t.get(&"good.two".to_string()), Some(color("#00ff0080")));
    assert_eq!(t.entries.len(), 2);
}

#[test]
fn clone_keeps_the_mapping_and_the_name() {
    let t = Theme {
        name: "Dawn".to_string(),
        interpolatable_theme: theme_of(&[("text", "#abcdef")]),
    };
    let c = t.clone();
    assert_eq!(c.name, "Dawn");
    assert_eq!(
        c.interpolatable_theme.get(&"text".to_string()),
        Some(color("#abcdef"))
    );
}
