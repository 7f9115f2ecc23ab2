use wireproto::style::{Ansi, ChatFormatting, Style, TextColor};

fn default_style() -> Style {
    Style {
        color: Some(TextColor {
            value: 16777215,
            name: Some("WHITE".to_string()),
        }),
        bold: None,
        italic: None,
        underlined: None,
        strikethrough: None,
        obfuscated: None,
        reset: false,
    }
}

#[test]
fn text_color_named_colors() {
    assert_eq!(TextColor::parse("red".to_string()).unwrap().value, 16733525);
}

#[test]
fn text_color_hex_colors() {
    assert_eq!(
        TextColor::parse("#a1b2c3".to_string()).unwrap().value,
        10597059
    );
}

#[test]
fn ansi_difference_should_reset() {
    let style_a = Style {
        bold: Some(true),
        italic: Some(true),
        ..Style::default()
    };
    let style_b = Style {
        bold: Some(false),
        ..Style::default()
    };
    let ansi_difference = style_a.compare_ansi(&style_b, &Style::default());
    assert_eq!(
        ansi_difference,
        format!(
            "{reset}{italic}",
            reset = Ansi::RESET,
            italic = Ansi::ITALIC
        )
    )
}

#[test]
fn ansi_difference_shouldnt_reset() {
    let style_a = Style {
        bold: Some(true),
        ..Style::default()
    };
    let style_b = Style {
        italic: Some(true),
        ..Style::default()
    };
    let ansi_difference = style_a.compare_ansi(&style_b, &Style::default());
    assert_eq!(ansi_difference, Ansi::ITALIC)
}

#[test]
fn ansi_difference_explicit_reset() {
    let style_a = Style {
        bold: Some(true),
        ..Style::empty()
    };
    let style_b = Style {
        italic: Some(true),
        reset: true,
        ..Style::empty()
    };
    let ansi_difference = style_a.compare_ansi(&style_b, &default_style());
    assert_eq!(
        ansi_difference,
        format!(
            "{reset}{italic}{white}",
            reset = Ansi::RESET,
            white = Ansi::rgb(ChatFormatting::White.color().unwrap()),
            italic = Ansi::ITALIC
        )
    )
}

#[test]
fn test_from_code() {
    assert_eq!(
        ChatFormatting::from_code('a').unwrap(),
        ChatFormatting::Green
    );
}

#[test]
fn test_apply_formatting() {
    let mut style = Style::default();
    style.apply_formatting(&ChatFormatting::Bold);
    style.apply_formatting(&ChatFormatting::Red);
    assert_eq!(style.color, Some(TextColor::from_rgb(16733525)));
}

#[test]
fn formatting_names_and_codes() {
    assert_eq!(ChatFormatting::DarkPurple.name(), "DARK_PURPLE");
    assert_eq!(ChatFormatting::Reset.code(), 'r');
    assert!(ChatFormatting::Obfuscated.is_format());
    assert!(!ChatFormatting::Gold.is_format());
    assert_eq!(ChatFormatting::Gold.color(), Some(16755200));
    assert_eq!(ChatFormatting::Bold.color(), None);
    assert_eq!(ChatFormatting::from_code('?'), None);
}

#[test]
fn text_color_parse_rejects() {
    assert_eq!(TextColor::parse("#xyz".to_string()), None);
    assert_eq!(TextColor::parse("#".to_string()), None);
    assert_eq!(TextColor::parse("chartreuse".to_string()), None);
    // case folding reaches the named colors
    assert_eq!(
        TextColor::parse("Dark_Blue".to_string()).unwrap().value,
        170
    );
}

#[test]
fn format_value_pads_to_six_digits() {
    let c = TextColor::from_rgb(170);
    assert_eq!(c.format_value(), "#0000AA");
    assert_eq!(c.serialize(), "#0000AA");
    let named = TextColor {
        value: 170,
        name: Some("DARK_BLUE".to_string()),
    };
    assert_eq!(named.serialize(), "dark_blue");
}

#[test]
fn style_merge_and_empty() {
    let a = Style {
        bold: Some(true),
        ..Style::default()
    };
    let b = Style {
        italic: Some(false),
        ..Style::default()
    };
    let m = a.merged_with(&b);
    assert_eq!(m.bold, Some(true));
    assert_eq!(m.italic, Some(false));
    assert!(Style::empty().is_empty());
    assert!(!a.is_empty());
}

#[test]
fn html_style_rendering() {
    let s = Style {
        color: Some(TextColor::from_rgb(0xA1B2C3)),
        bold: Some(true),
        underlined: Some(false),
        ..Style::default()
    };
    assert_eq!(
        s.get_html_style(),
        "color:#A1B2C3;font-weight:bold;text-decoration:none;"
    );
}

#[test]
fn ansi_rgb_decimal_parts() {
    assert_eq!(Ansi::rgb(0x010203), "\u{1b}[38;2;1;2;3m");
    assert_eq!(Ansi::rgb(16733525), "\u{1b}[38;2;255;85;85m");
}
