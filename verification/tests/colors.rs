use niri_waybar_windowlist::colors::{
    checked_parse_border_colors, indicator_color_for, parse_border_colors, parse_hex_color,
    BorderColors, IndicatorColor, Rgb,
};

fn red(c: Rgb) -> f64 {
    c.r as f64 / 255.0
}

#[test]
fn parses_gradient_config() {
    let config = r##"
layout {
    border {
        active-gradient angle=130 from="#3e999f" relative-to="workspace-view" to="#4271ae"
        urgent-gradient angle=130 from="#c82829" relative-to="workspace-view" to="#f5871f"
    }
}
"##;
    let colors = parse_border_colors(config);
    match colors.active {
        IndicatorColor::Gradient { from, to } => {
            assert!((red(from) - 0x3e as f64 / 255.0).abs() < 0.01);
            assert!((red(to) - 0x42 as f64 / 255.0).abs() < 0.01);
        }
        IndicatorColor::Solid(_) => panic!("expected gradient"),
    }
    match colors.urgent {
        IndicatorColor::Gradient { from, to } => {
            assert!((red(from) - 0xc8 as f64 / 255.0).abs() < 0.01);
            assert!((red(to) - 0xf5 as f64 / 255.0).abs() < 0.01);
        }
        IndicatorColor::Solid(_) => panic!("expected gradient"),
    }
}

#[test]
fn parse_hex() {
    let color = parse_hex_color("#4271ae").unwrap();
    assert!((color.r as f64 / 255.0 - 0x42 as f64 / 255.0).abs() < 0.001);
    assert!((color.g as f64 / 255.0 - 0x71 as f64 / 255.0).abs() < 0.001);
    assert!((color.b as f64 / 255.0 - 0xae as f64 / 255.0).abs() < 0.001);
}

#[test]
fn hex_color_edge_cases() {
    assert!(parse_hex_color("4271ae").is_none());
    assert!(parse_hex_color("#4271a").is_none());
    assert!(parse_hex_color("#4271aeff").is_none());
    assert!(parse_hex_color("#42g1ae").is_none());
    assert!(parse_hex_color("#ABCDEF") == Some(Rgb { r: 0xab, g: 0xcd, b: 0xef }));
    // `u8::from_str_radix` takes a leading plus sign.
    assert!(parse_hex_color("#+f+f+f") == Some(Rgb { r: 15, g: 15, b: 15 }));
    // A two-byte character that fills one pair reads as no digit.
    assert!(parse_hex_color("#ééff").is_none());
}

#[test]
fn solid_colors_and_focus_ring_fallback() {
    let config = r##"
layout {
    focus-ring {
        active-color "#112233"
    }
}
"##;
    let colors = parse_border_colors(config);
    assert!(colors.active == IndicatorColor::Solid(Rgb { r: 0x11, g: 0x22, b: 0x33 }));
    assert!(colors.urgent == IndicatorColor::Solid(Rgb { r: 0x9b, g: 0, b: 0 }));
}

#[test]
fn one_gradient_end_is_a_solid_color() {
    let config = r##"
layout {
    border {
        active-gradient from="#010203"
        urgent-color "#0a0b0c"
    }
}
"##;
    let colors = parse_border_colors(config);
    assert!(colors.active == IndicatorColor::Solid(Rgb { r: 1, g: 2, b: 3 }));
    assert!(colors.urgent == IndicatorColor::Solid(Rgb { r: 10, g: 11, b: 12 }));
}

#[test]
fn defaults_without_a_layout_section() {
    let colors = parse_border_colors("layout { gaps 8; }");
    assert!(
        colors
            == BorderColors {
                active: IndicatorColor::Solid(Rgb { r: 0x7f, g: 0xc8, b: 0xff }),
                urgent: IndicatorColor::Solid(Rgb { r: 0x9b, g: 0, b: 0 }),
            }
    );
}

#[test]
fn checked_parse_refuses_what_would_panic() {
    assert!(checked_parse_border_colors("layout {").is_none());
    // The cut after the fourth byte falls inside the euro sign.
    let config = "layout { border { active-color \"#ffa€\"; } }";
    assert!(checked_parse_border_colors(config).is_none());
    let fine = checked_parse_border_colors("layout { border { active-color \"#000000\"; } }");
    assert!(fine.unwrap().active == IndicatorColor::Solid(Rgb { r: 0, g: 0, b: 0 }));
}

#[test]
fn indicator_prefers_focus_over_urgency() {
    let colors = BorderColors {
        active: IndicatorColor::Solid(Rgb { r: 1, g: 1, b: 1 }),
        urgent: IndicatorColor::Solid(Rgb { r: 2, g: 2, b: 2 }),
    };
    assert!(indicator_color_for(&colors, true, true) == Some(colors.active));
    assert!(indicator_color_for(&colors, false, true) == Some(colors.urgent));
    assert!(indicator_color_for(&colors, false, false).is_none());
}
