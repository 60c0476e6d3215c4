use style_table::{
    alpha_text, color_to_argb, px_text, px_to_pt, str_alpha_to_hex, str_to_hex, style_to_props,
    value_to_hex, Align, Fill, Font, Measures, Style,
};

fn scaled_alpha(text: &str) -> Option<u32> {
    text.parse::<f32>().ok().map(|v| (v * 255f32) as u32)
}

fn points(text: &str) -> Option<String> {
    text.parse::<f32>().ok().map(|v| (v * 0.75).to_string())
}

fn measures_of(style: &Style) -> Measures {
    let texts = style.numeric_texts();
    Measures {
        background_alpha: texts.background_alpha.and_then(|t| scaled_alpha(&t)),
        color_alpha: texts.color_alpha.and_then(|t| scaled_alpha(&t)),
        font_points: texts.font_pixels.and_then(|t| points(&t)),
    }
}

fn argb(color: &str) -> Option<String> {
    let alpha = alpha_text(color).and_then(|t| scaled_alpha(&t));
    color_to_argb(color, alpha)
}

fn pt(size: &str) -> Option<String> {
    let evaluated = px_text(size).and_then(|t| points(&t));
    px_to_pt(size, evaluated)
}

fn style_of(pairs: &[(&str, &str)]) -> Style {
    let mut style = Style::new();
    for (key, value) in pairs {
        style.insert(String::from(*key), String::from(*value));
    }
    style
}

#[test]
fn style_to_props_test() {
    let mut styles = Style::new();
    styles.insert(String::from("background"), String::from("#FF0000"));
    styles.insert(String::from("color"), String::from("#FFFF00"));
    styles.insert(String::from("fontWeight"), String::from("bold"));
    styles.insert(String::from("fontStyle"), String::from("italic"));
    styles.insert(String::from("textDecoration"), String::from("underline"));
    styles.insert(String::from("textAlign"), String::from("left"));
    styles.insert(String::from("fontSize"), String::from("24px"));

    let measures = measures_of(&styles);
    let (font, maybe_fill, maybe_align) = style_to_props(&styles, &measures);
    assert_eq!(font.size, Some(String::from("18")));
    assert_eq!(font.color, Some(String::from("FFFFFF00")));
    assert_eq!(font.bold, true);
    assert_eq!(font.italic, true);
    assert_eq!(font.underline, true);
    assert_eq!(maybe_fill.unwrap().color, Some(String::from("FFFF0000")));
    assert_eq!(
        maybe_align,
        vec![Align { direction: String::from("horizontal"), alignment: String::from("left") }]
    );
}

#[test]
fn str_to_hex_test() {
    assert_eq!(str_to_hex("255"), Some(String::from("FF")));
    assert_eq!(str_alpha_to_hex(scaled_alpha("0.5")), Some(String::from("7F")));
}

#[test]
fn color_to_argb_test() {
    assert_eq!(argb("rgba(255, 255, 255, 1)"), Some(String::from("FFFFFFFF")));
    assert_eq!(argb("rgb(254,254,254)"), Some(String::from("FFFEFEFE")));
}

#[test]
fn hex_colour_keeps_its_digits() {
    assert_eq!(argb("#FF0000"), Some(String::from("FFFF0000")));
    assert_eq!(argb("#a1b2c3"), Some(String::from("FFa1b2c3")));
    assert_eq!(color_to_argb("#FF0000", Some(0)), Some(String::from("FFFF0000")));
}

#[test]
fn hex_colour_needs_seven_characters() {
    assert_eq!(argb("#FF000"), None);
    assert_eq!(argb("#FF00000"), None);
    assert_eq!(argb("FF00000"), None);
    assert_eq!(argb("#"), None);
    assert_eq!(argb(""), None);
}

#[test]
fn rgba_with_full_alpha() {
    assert_eq!(argb("rgba(255,255,255,1)"), Some(String::from("FFFFFFFF")));
}

#[test]
fn rgba_puts_alpha_first() {
    assert_eq!(argb("rgba(1, 2, 3, 0.5)"), Some(String::from("7F010203")));
    assert_eq!(argb("rgba(16,32,48,0)"), Some(String::from("00102030")));
}

#[test]
fn rgba_takes_the_alpha_it_is_given() {
    assert_eq!(color_to_argb("rgba(1,2,3,0.5)", Some(10)), Some(String::from("0A010203")));
    assert_eq!(color_to_argb("rgba(1,2,3,0.5)", Some(255)), Some(String::from("FF010203")));
    assert_eq!(color_to_argb("rgba(1,2,3,0.5)", Some(256)), None);
    assert_eq!(color_to_argb("rgba(1,2,3,0.5)", None), None);
}

#[test]
fn rgb_ignores_the_alpha_it_is_given() {
    assert_eq!(color_to_argb("rgb(1,2,3)", Some(10)), Some(String::from("FF010203")));
    assert_eq!(color_to_argb("rgb(1,2,3)", None), Some(String::from("FF010203")));
}

#[test]
fn not_a_colour() {
    assert_eq!(argb("not-a-color"), None);
    assert_eq!(argb("red"), None);
    assert_eq!(argb("rgb"), None);
    assert_eq!(argb("rgb()"), None);
    assert_eq!(argb("rgba()"), None);
    assert_eq!(argb("rgb(1,2,3"), None);
    assert_eq!(argb("RGB(1,2,3)"), None);
    assert_eq!(argb(" rgb(1,2,3)"), None);
}

#[test]
fn channels_must_be_within_range() {
    assert_eq!(argb("rgb(256,0,0)"), None);
    assert_eq!(argb("rgb(0,1000,0)"), None);
    assert_eq!(argb("rgb(0,0,99999999999999999999)"), None);
    assert_eq!(argb("rgb(-1,0,0)"), None);
    assert_eq!(argb("rgb(1.5,0,0)"), None);
    assert_eq!(argb("rgb(,0,0)"), None);
    assert_eq!(argb("rgb(a,0,0)"), None);
    assert_eq!(argb("rgba(0,0,256,1)"), None);
}

#[test]
fn alpha_must_be_within_range() {
    assert_eq!(argb("rgba(0,0,0,2)"), None);
    assert_eq!(argb("rgba(0,0,0,x)"), None);
    assert_eq!(argb("rgba(0,0,0,)"), None);
}

#[test]
fn too_few_arguments() {
    assert_eq!(argb("rgb(1,2)"), None);
    assert_eq!(argb("rgba(1,2,3)"), None);
}

#[test]
fn further_arguments_are_passed_over() {
    assert_eq!(argb("rgb(1,2,3,4)"), Some(String::from("FF010203")));
    assert_eq!(argb("rgb(1,2,3,junk)"), Some(String::from("FF010203")));
    assert_eq!(argb("rgba(1,2,3,1,junk)"), Some(String::from("FF010203")));
}

#[test]
fn arguments_are_trimmed() {
    assert_eq!(argb("rgb( 10 ,\t20\n, 30 )"), Some(String::from("FF0A141E")));
    assert_eq!(argb("rgb(\u{3000}1\u{a0},2,3)"), Some(String::from("FF010203")));
    assert_eq!(argb("rgb(1 0,2,3)"), None);
}

#[test]
fn short_rgb_call() {
    assert_eq!(argb("rgb(0,0,0)"), Some(String::from("FF000000")));
    assert_eq!(argb("rgb(1,2,3)"), Some(String::from("FF010203")));
}

#[test]
fn plus_sign_and_leading_zeros() {
    assert_eq!(str_to_hex("+7"), Some(String::from("07")));
    assert_eq!(str_to_hex("007"), Some(String::from("07")));
    assert_eq!(str_to_hex("0000000000000000000000255"), Some(String::from("FF")));
    assert_eq!(str_to_hex("+"), None);
    assert_eq!(str_to_hex("++1"), None);
    assert_eq!(str_to_hex("-0"), None);
    assert_eq!(str_to_hex(""), None);
    assert_eq!(str_to_hex(" 1"), None);
    assert_eq!(str_to_hex("1 "), None);
    assert_eq!(str_to_hex("\u{661}"), None);
}

#[test]
fn str_to_hex_agrees_with_the_standard_parser() {
    let mut inputs: Vec<String> = Vec::new();
    for v in 0u32..=300 {
        inputs.push(v.to_string());
        inputs.push(format!("+{}", v));
        inputs.push(format!("0{}", v));
        inputs.push(format!("-{}", v));
        inputs.push(format!("{}x", v));
    }
    for s in ["4294967295", "4294967296", "", "+", "-", "1e2", "0x10", "١٢"] {
        inputs.push(String::from(s));
    }
    for s in inputs {
        let expected = match s.parse::<u32>() {
            Ok(v) if v <= 255 => Some(format!("{:02X}", v)),
            _ => None,
        };
        assert_eq!(str_to_hex(&s), expected, "input {:?}", s);
    }
}

#[test]
fn value_to_hex_pads_and_refuses() {
    assert_eq!(value_to_hex(0), Some(String::from("00")));
    assert_eq!(value_to_hex(7), Some(String::from("07")));
    assert_eq!(value_to_hex(15), Some(String::from("0F")));
    assert_eq!(value_to_hex(16), Some(String::from("10")));
    assert_eq!(value_to_hex(171), Some(String::from("AB")));
    assert_eq!(value_to_hex(255), Some(String::from("FF")));
    assert_eq!(value_to_hex(256), None);
    assert_eq!(value_to_hex(u32::MAX), None);
}

#[test]
fn value_to_hex_agrees_with_the_standard_formatter() {
    for v in 0u32..=1000 {
        let text = format!("{:X}", v);
        let expected = match text.len() {
            1 => Some(String::from("0") + &text),
            2 => Some(text),
            _ => None,
        };
        assert_eq!(value_to_hex(v), expected);
    }
}

#[test]
fn str_alpha_to_hex_cases() {
    assert_eq!(str_alpha_to_hex(Some(127)), Some(String::from("7F")));
    assert_eq!(str_alpha_to_hex(Some(0)), Some(String::from("00")));
    assert_eq!(str_alpha_to_hex(Some(300)), None);
    assert_eq!(str_alpha_to_hex(None), None);
    assert_eq!(str_alpha_to_hex(scaled_alpha("1")), Some(String::from("FF")));
    assert_eq!(str_alpha_to_hex(scaled_alpha("abc")), None);
}

#[test]
fn alpha_text_is_the_fourth_argument() {
    assert_eq!(alpha_text("rgba(255, 255, 255, 1)"), Some(String::from("1")));
    assert_eq!(alpha_text("rgba(1,2,3, 0.25 ,9)"), Some(String::from("0.25")));
    assert_eq!(alpha_text("rgba(x,y,z,)"), Some(String::from("")));
    assert_eq!(alpha_text("rgba(1,2,3)"), None);
    assert_eq!(alpha_text("rgb(1,2,3,4)"), None);
    assert_eq!(alpha_text("#FF0000"), None);
    assert_eq!(alpha_text(""), None);
}

#[test]
fn px_to_pt_scenarios() {
    assert_eq!(pt("24px"), Some(String::from("18")));
    assert_eq!(pt("10pt"), None);
}

#[test]
fn px_to_pt_more() {
    assert_eq!(pt("10px"), Some(String::from("7.5")));
    assert_eq!(pt("0px"), Some(String::from("0")));
    assert_eq!(pt("px"), None);
    assert_eq!(pt("x"), None);
    assert_eq!(pt(""), None);
    assert_eq!(pt("12 px"), None);
    assert_eq!(pt("12PX"), None);
    assert_eq!(pt("€"), None);
}

#[test]
fn px_to_pt_hands_on_what_it_is_given() {
    assert_eq!(px_to_pt("24px", Some(String::from("18"))), Some(String::from("18")));
    assert_eq!(px_to_pt("24px", None), None);
    assert_eq!(px_to_pt("24pt", Some(String::from("18"))), None);
    assert_eq!(px_to_pt("p", Some(String::from("18"))), None);
}

#[test]
fn px_text_cuts_the_suffix() {
    assert_eq!(px_text("24px"), Some(String::from("24")));
    assert_eq!(px_text("1.5e1px"), Some(String::from("1.5e1")));
    assert_eq!(px_text("px"), Some(String::from("")));
    assert_eq!(px_text("ñpx"), Some(String::from("ñ")));
    assert_eq!(px_text("24"), None);
    assert_eq!(px_text("24xp"), None);
}

#[test]
fn empty_declaration_gives_the_default_font() {
    let style = Style::new();
    let (font, fill, aligns) = style_to_props(&style, &Measures::none());
    assert_eq!(font, Font::new());
    assert_eq!(fill, None);
    assert!(aligns.is_empty());
}

#[test]
fn default_font_fields() {
    let font = Font::new();
    assert_eq!(font.size, None);
    assert_eq!(font.color, None);
    assert!(!font.bold && !font.italic && !font.underline && !font.strike);
}

#[test]
fn fill_new_keeps_its_arguments() {
    let fill = Fill::new(Some(String::from("FFFF0000")), "solid");
    assert_eq!(fill.pattern_type, "solid");
    assert_eq!(fill.color, Some(String::from("FFFF0000")));
    let none = Fill::new(None, "none");
    assert_eq!(none.pattern_type, "none");
    assert_eq!(none.color, None);
}

#[test]
fn end_to_end_declaration() {
    let style = style_of(&[
        ("background", "#FF0000"),
        ("color", "#FFFF00"),
        ("fontWeight", "bold"),
        ("fontStyle", "italic"),
        ("textDecoration", "underline"),
        ("textAlign", "left"),
        ("fontSize", "24px"),
    ]);
    let (font, fill, aligns) = style_to_props(&style, &measures_of(&style));
    assert_eq!(
        font,
        Font {
            size: Some(String::from("18")),
            color: Some(String::from("FFFFFF00")),
            bold: true,
            italic: true,
            underline: true,
            strike: false,
        }
    );
    assert_eq!(
        fill,
        Some(Fill { pattern_type: String::from("solid"), color: Some(String::from("FFFF0000")) })
    );
    assert_eq!(
        aligns,
        vec![Align { direction: String::from("horizontal"), alignment: String::from("left") }]
    );
}

#[test]
fn unreadable_values_leave_fields_unset() {
    let style = style_of(&[
        ("background", "nope"),
        ("color", "rgb(1,2)"),
        ("fontWeight", "bolder"),
        ("fontStyle", "oblique"),
        ("textDecoration", "overline"),
        ("fontSize", "12pt"),
    ]);
    let (font, fill, aligns) = style_to_props(&style, &measures_of(&style));
    assert_eq!(font, Font::new());
    assert_eq!(fill, None);
    assert!(aligns.is_empty());
}

#[test]
fn unknown_properties_are_passed_over() {
    let style = style_of(&[("border", "1px"), ("Color", "#000000"), ("format", "0.00")]);
    let (font, fill, aligns) = style_to_props(&style, &measures_of(&style));
    assert_eq!(font, Font::new());
    assert_eq!(fill, None);
    assert!(aligns.is_empty());
}

#[test]
fn text_decoration_sets_both_switches() {
    let style = style_of(&[("textDecoration", "underline line-through")]);
    let (font, _, _) = style_to_props(&style, &Measures::none());
    assert!(font.underline);
    assert!(font.strike);
    let style = style_of(&[("textDecoration", "xline-throughx")]);
    let (font, _, _) = style_to_props(&style, &Measures::none());
    assert!(!font.underline);
    assert!(font.strike);
}

#[test]
fn horizontal_alignment_comes_first() {
    let style = style_of(&[("verticalAlign", "top"), ("textAlign", "center")]);
    let (_, _, aligns) = style_to_props(&style, &Measures::none());
    assert_eq!(
        aligns,
        vec![
            Align { direction: String::from("horizontal"), alignment: String::from("center") },
            Align { direction: String::from("vertical"), alignment: String::from("top") },
        ]
    );
}

#[test]
fn vertical_alignment_alone() {
    let style = style_of(&[("verticalAlign", "middle")]);
    let (_, _, aligns) = style_to_props(&style, &Measures::none());
    assert_eq!(
        aligns,
        vec![Align { direction: String::from("vertical"), alignment: String::from("middle") }]
    );
}

#[test]
fn measures_decide_alpha_and_size() {
    let style = style_of(&[
        ("background", "rgba(1,2,3,0.5)"),
        ("color", "rgba(4,5,6,1)"),
        ("fontSize", "10px"),
    ]);
    let measures = Measures {
        background_alpha: Some(1),
        color_alpha: Some(2),
        font_points: Some(String::from("nine")),
    };
    let (font, fill, _) = style_to_props(&style, &measures);
    assert_eq!(font.color, Some(String::from("02040506")));
    assert_eq!(font.size, Some(String::from("nine")));
    assert_eq!(fill.unwrap().color, Some(String::from("01010203")));
    let (font, fill, _) = style_to_props(&style, &Measures::none());
    assert_eq!(font.color, None);
    assert_eq!(font.size, None);
    assert_eq!(fill, None);
}

#[test]
fn numeric_texts_of_a_declaration() {
    let style = style_of(&[
        ("background", "rgba(1,2,3, 0.5 )"),
        ("color", "#000000"),
        ("fontSize", "12.5px"),
    ]);
    let texts = style.numeric_texts();
    assert_eq!(texts.background_alpha, Some(String::from("0.5")));
    assert_eq!(texts.color_alpha, None);
    assert_eq!(texts.font_pixels, Some(String::from("12.5")));
    let texts = Style::new().numeric_texts();
    assert_eq!(texts.background_alpha, None);
    assert_eq!(texts.color_alpha, None);
    assert_eq!(texts.font_pixels, None);
}

#[test]
fn insert_replaces_a_value() {
    let mut style = Style::new();
    assert_eq!(style.get("color"), None);
    style.insert(String::from("color"), String::from("#000000"));
    style.insert(String::from("color"), String::from("#FFFFFF"));
    assert_eq!(style.get("color"), Some(&String::from("#FFFFFF")));
    assert_eq!(style.get("colour"), None);
}

fn read_by_the_standard_library(color: &str) -> Option<String> {
    fn channel(s: &str) -> Option<String> {
        s.parse::<u32>().ok().filter(|v| *v <= 255).map(|v| format!("{:02X}", v))
    }
    fn alpha(s: &str) -> Option<String> {
        scaled_alpha(s).filter(|v| *v <= 255).map(|v| format!("{:02X}", v))
    }
    fn arguments<'a>(color: &'a str, opening: &str) -> Option<Vec<&'a str>> {
        let body = color.strip_prefix(opening)?.strip_suffix(")")?;
        Some(body.split(",").map(|s| s.trim()).collect())
    }
    if color.chars().count() == 7 && color.starts_with('#') {
        return Some(format!("FF{}", &color[1..]));
    }
    if let Some(parts) = arguments(color, "rgba(") {
        if parts.len() < 4 {
            return None;
        }
        let (a, r, g, b) =
            (alpha(parts[3])?, channel(parts[0])?, channel(parts[1])?, channel(parts[2])?);
        return Some(format!("{}{}{}{}", a, r, g, b));
    }
    if let Some(parts) = arguments(color, "rgb(") {
        if parts.len() < 3 {
            return None;
        }
        let (r, g, b) = (channel(parts[0])?, channel(parts[1])?, channel(parts[2])?);
        return Some(format!("FF{}{}{}", r, g, b));
    }
    None
}

#[test]
fn colours_agree_with_a_reading_by_the_standard_library() {
    let channels = ["0", "7", "255", "256", " 12 ", "+1", "", "x", "1.5", "-1", "\t09\n"];
    let alphas = ["1", "0.5", "0", "2", "", "x", "1e-1", " .5 ", "-1", "inf", "NaN", "1.0039", "0.999"];
    let mut inputs: Vec<String> = Vec::new();
    for r in channels {
        for g in channels {
            for b in ["0", "255", "300", " 1", "z"] {
                inputs.push(format!("rgb({},{},{})", r, g, b));
                inputs.push(format!("rgb({},{},{},{})", r, g, b, g));
                inputs.push(format!("rgb({},{}", r, g));
                for a in alphas {
                    inputs.push(format!("rgba({},{},{},{})", r, g, b, a));
                }
                inputs.push(format!("rgba({},{},{})", r, g, b));
                inputs.push(format!("rgba({},{},{},1,{})", r, g, b, r));
            }
        }
    }
    for s in [
        "", "#", "#123456", "#12345", "#1234567", "#ñ12345", "#ñ1234", "1234567", "rgb", "rgb(",
        "rgb()", "rgb)", "rgba", "rgba(", "rgba()", "rgba(,,,)", "rgb(,,)", "rgb(1,2,3))",
        "rgb((1,2,3)", "xrgb(1,2,3)", "rgb (1,2,3)", "Rgb(1,2,3)", "rgb(1,2,3) ", "rgba(1,2,3,1)x",
        "rgba(1;2;3;1)", "hsl(1,2,3)", "red", "not-a-color", "rgb(١,٢,٣)",
    ] {
        inputs.push(String::from(s));
    }
    for s in inputs {
        assert_eq!(argb(&s), read_by_the_standard_library(&s), "input {:?}", s);
    }
}

#[test]
fn px_text_agrees_with_the_standard_suffix_test() {
    for s in ["", "p", "x", "px", "1px", "1 px", "1pxx", "pxpx", "1PX", "1pX", "ñpx", "1p€", "€", "1.5px "] {
        assert_eq!(px_text(s), s.strip_suffix("px").map(String::from), "input {:?}", s);
        let evaluated = s.strip_suffix("px").and_then(points);
        assert_eq!(pt(s), evaluated, "input {:?}", s);
    }
}

#[test]
fn a_read_colour_has_eight_characters() {
    for s in ["#abcdef", "#ñandú!", "rgb(1,2,3)", "rgba(1,2,3,0.5)", "rgba(255,255,255,1)"] {
        let colour = argb(s).unwrap();
        assert_eq!(colour.chars().count(), 8, "input {:?}", s);
    }
}
