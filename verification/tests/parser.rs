use reset_chance::component::reset_chance::{Component, Settings};
use reset_chance::layout::parser::reset_chance::{settings, Parsing};
use reset_chance::layout::parser::{
    color, gradient_kind, parse_bool, text_equals, Element, GradientBuilder, GradientKind,
    ParseError,
};
use reset_chance::settings::{Color, Gradient};

fn element(name: &str, text: &str) -> Element {
    Element { name: String::from(name), text: String::from(text) }
}

fn parse(children: &[(&str, &str)]) -> (Result<(), ParseError>, Settings) {
    let children: Vec<Element> = children.iter().map(|(name, text)| element(name, text)).collect();
    let mut component = Component::new();
    let result = settings(&children, &mut component);
    (result, *component.settings())
}

const RED: Color = Color { red: 255, green: 0, blue: 0, alpha: 255 };
const GREEN: Color = Color { red: 0, green: 255, blue: 0, alpha: 255 };

#[test]
fn texts_are_equal_when_their_bytes_are() {
    assert!(text_equals("", ""));
    assert!(text_equals("TextColor", "TextColor"));
    assert!(!text_equals("TextColor", "TextColor2"));
    assert!(!text_equals("TextColor", "textColor"));
    assert!(!text_equals("a", ""));
    assert!(text_equals("Größe", "Größe"));
    assert!(!text_equals("Größe", "Grösse"));
}

#[test]
fn booleans() {
    assert_eq!(parse_bool("True"), Ok(true));
    assert_eq!(parse_bool("False"), Ok(false));
    assert_eq!(parse_bool("true"), Err(ParseError::Bool));
    assert_eq!(parse_bool("TRUE"), Err(ParseError::Bool));
    assert_eq!(parse_bool(""), Err(ParseError::Bool));
    assert_eq!(parse_bool(" True"), Err(ParseError::Bool));
    assert_eq!(parse_bool("1"), Err(ParseError::Bool));
}

#[test]
fn colors_are_alpha_red_green_blue() {
    assert_eq!(color("FFFF0000"), Ok(RED));
    assert_eq!(color("ff00ff00"), Ok(GREEN));
    assert_eq!(color("80102030"), Ok(Color { red: 0x10, green: 0x20, blue: 0x30, alpha: 0x80 }));
    assert_eq!(color("00000000"), Ok(Color::transparent()));
    assert_eq!(color("FFFFFFFF"), Ok(Color { red: 255, green: 255, blue: 255, alpha: 255 }));
    assert_eq!(color("aBcDeF09"), Ok(Color { red: 0xcd, green: 0xef, blue: 0x09, alpha: 0xab }));
}

#[test]
fn colors_agree_with_the_standard_reading_of_hexadecimal() {
    let texts = [
        "0", "F", "12", "abc", "FF0000", "+FF", "+0", "000000000FF0000", "100000000", "FFFFFFFFF",
        "", "+", "-1", "++1", "1+", "G", "12 ", " 12", "0x12", "FFFF00G0", "ÿ", "1é", "+é",
        "00000000000000000000000000000001", "123456789", "99999999", "ffffffff", "+ffffffff",
    ];
    for text in texts {
        let expected = match u32::from_str_radix(text, 16) {
            Ok(argb) => {
                let [alpha, red, green, blue] = argb.to_be_bytes();
                Ok(Color { red, green, blue, alpha })
            }
            Err(_) => Err(ParseError::Color),
        };
        assert_eq!(color(text), expected, "{:?}", text);
    }
}

#[test]
fn kinds_of_gradient() {
    assert_eq!(gradient_kind("Plain"), Ok(GradientKind::Plain));
    assert_eq!(gradient_kind("Vertical"), Ok(GradientKind::Vertical));
    assert_eq!(gradient_kind("Horizontal"), Ok(GradientKind::Horizontal));
    assert_eq!(gradient_kind("Transparent"), Err(ParseError::GradientKind));
    assert_eq!(gradient_kind("plain"), Err(ParseError::GradientKind));
    assert_eq!(gradient_kind(""), Err(ParseError::GradientKind));
}

#[test]
fn builder_starts_transparent() {
    let builder = GradientBuilder::new();
    assert_eq!(builder.kind, GradientKind::Transparent);
    assert_eq!(builder.first, Color::transparent());
    assert_eq!(builder.second, Color::transparent());
    assert_eq!(builder.build(), Gradient::Transparent);
}

#[test]
fn builder_takes_only_the_elements_of_the_background() {
    let mut builder = GradientBuilder::new();
    assert_eq!(builder.parse_background(&element("TextColor", "FFFF0000")), Ok(false));
    assert_eq!(builder, GradientBuilder::new());
    assert_eq!(builder.parse_background(&element("BackgroundColor", "FFFF0000")), Ok(true));
    assert_eq!(builder.parse_background(&element("BackgroundColor2", "FF00FF00")), Ok(true));
    assert_eq!(builder.build(), Gradient::Transparent);
    assert_eq!(builder.parse_background(&element("BackgroundGradient", "Vertical")), Ok(true));
    assert_eq!(builder.build(), Gradient::Vertical(RED, GREEN));
    assert_eq!(builder.parse_background(&element("BackgroundGradient", "Horizontal")), Ok(true));
    assert_eq!(builder.build(), Gradient::Horizontal(RED, GREEN));
    assert_eq!(builder.parse_background(&element("BackgroundGradient", "Plain")), Ok(true));
    assert_eq!(builder.build(), Gradient::Plain(RED));
}

#[test]
fn builder_keeps_its_state_on_an_error() {
    let mut builder = GradientBuilder::new();
    assert_eq!(builder.parse_background(&element("BackgroundColor", "FFFF0000")), Ok(true));
    let before = builder;
    assert_eq!(
        builder.parse_background(&element("BackgroundColor", "red")),
        Err(ParseError::Color)
    );
    assert_eq!(
        builder.parse_background(&element("BackgroundColor2", "")),
        Err(ParseError::Color)
    );
    assert_eq!(
        builder.parse_background(&element("BackgroundGradient", "Diagonal")),
        Err(ParseError::GradientKind)
    );
    assert_eq!(builder, before);
}

#[test]
fn plain_background_of_the_transparent_color_is_transparent() {
    let (result, parsed) =
        parse(&[("BackgroundColor", "00000000"), ("BackgroundGradient", "Plain")]);
    assert_eq!(result, Ok(()));
    assert_eq!(parsed.background, Gradient::Transparent);
    let (result, parsed) =
        parse(&[("BackgroundColor", "00FFFFFF"), ("BackgroundGradient", "Plain")]);
    assert_eq!(result, Ok(()));
    assert_eq!(
        parsed.background,
        Gradient::Plain(Color { red: 255, green: 255, blue: 255, alpha: 0 })
    );
}

#[test]
fn no_elements_give_a_transparent_background_and_no_colors() {
    let (result, parsed) = parse(&[]);
    assert_eq!(result, Ok(()));
    let mut expected = Settings::default();
    expected.background = Gradient::Transparent;
    assert_eq!(parsed, expected);
}

#[test]
fn label_color_without_override_is_taken_from_the_layout() {
    let (result, parsed) = parse(&[("TextColor", "FFFF0000")]);
    assert_eq!(result, Ok(()));
    assert_eq!(parsed.label_color, None);
}

#[test]
fn label_color_with_override_off_is_taken_from_the_layout() {
    let (result, parsed) = parse(&[("TextColor", "FFFF0000"), ("OverrideTextColor", "False")]);
    assert_eq!(result, Ok(()));
    assert_eq!(parsed.label_color, None);
    let (result, parsed) = parse(&[("OverrideTextColor", "False"), ("TextColor", "FFFF0000")]);
    assert_eq!(result, Ok(()));
    assert_eq!(parsed.label_color, None);
}

#[test]
fn label_color_with_override_on_is_the_color_read() {
    let (result, parsed) = parse(&[("TextColor", "FFFF0000"), ("OverrideTextColor", "True")]);
    assert_eq!(result, Ok(()));
    assert_eq!(parsed.label_color, Some(RED));
    assert_eq!(parsed.value_color, None);
    let (result, parsed) = parse(&[("OverrideTextColor", "True"), ("TextColor", "FFFF0000")]);
    assert_eq!(result, Ok(()));
    assert_eq!(parsed.label_color, Some(RED));
}

#[test]
fn value_color_goes_by_its_own_override() {
    let (result, parsed) = parse(&[
        ("TextColor", "FFFF0000"),
        ("OverrideTextColor", "True"),
        ("ChanceColor", "FF00FF00"),
    ]);
    assert_eq!(result, Ok(()));
    assert_eq!(parsed.label_color, Some(RED));
    assert_eq!(parsed.value_color, None);
    let (result, parsed) = parse(&[
        ("TextColor", "FFFF0000"),
        ("ChanceColor", "FF00FF00"),
        ("OverrideChanceColor", "True"),
    ]);
    assert_eq!(result, Ok(()));
    assert_eq!(parsed.label_color, None);
    assert_eq!(parsed.value_color, Some(GREEN));
}

#[test]
fn override_without_a_color_keeps_the_color_of_the_component() {
    let children = vec![element("OverrideTextColor", "True")];
    let mut before = Settings::default();
    before.label_color = Some(GREEN);
    before.value_color = Some(GREEN);
    let mut component = Component::with_settings(before);
    assert_eq!(settings(&children, &mut component), Ok(()));
    assert_eq!(component.settings().label_color, Some(GREEN));
    assert_eq!(component.settings().value_color, None);
}

#[test]
fn the_last_element_of_a_name_counts() {
    let (result, parsed) = parse(&[
        ("OverrideTextColor", "True"),
        ("TextColor", "FFFF0000"),
        ("TextColor", "FF00FF00"),
        ("Display2Rows", "True"),
        ("Display2Rows", "False"),
        ("Display2Rows", "True"),
    ]);
    assert_eq!(result, Ok(()));
    assert_eq!(parsed.label_color, Some(GREEN));
    assert!(parsed.display_two_rows);
}

#[test]
fn a_whole_settings_element() {
    let (result, parsed) = parse(&[
        ("Version", "1.0"),
        ("TextColor", "FFFF0000"),
        ("OverrideTextColor", "True"),
        ("ChanceColor", "FF00FF00"),
        ("OverrideChanceColor", "True"),
        ("BackgroundColor", "FFFF0000"),
        ("BackgroundColor2", "FF00FF00"),
        ("BackgroundGradient", "Horizontal"),
        ("Display2Rows", "True"),
        ("ChanceMode", "Reset"),
        ("Accuracy", "Tenths"),
        ("Basis", "Everything"),
    ]);
    assert_eq!(result, Ok(()));
    let expected = Settings {
        background: Gradient::Horizontal(RED, GREEN),
        display_two_rows: true,
        label_color: Some(RED),
        value_color: Some(GREEN),
        show_successes: false,
        show_attempt_details: false,
    };
    assert_eq!(parsed, expected);
}

#[test]
fn unknown_elements_are_passed_over() {
    let (result, parsed) = parse(&[
        ("ChanceMode", "not a mode"),
        ("Accuracy", ""),
        ("BasisSubsetSplits", "\u{fffd}"),
        ("textcolor", "not a color"),
        ("", ""),
    ]);
    assert_eq!(result, Ok(()));
    let mut expected = Settings::default();
    expected.background = Gradient::Transparent;
    assert_eq!(parsed, expected);
}

#[test]
fn show_settings_are_not_in_the_file() {
    let children = vec![element("ShowSuccesses", "False"), element("Display2Rows", "True")];
    let mut before = Settings::default();
    before.show_successes = true;
    before.show_attempt_details = true;
    let mut component = Component::with_settings(before);
    assert_eq!(settings(&children, &mut component), Ok(()));
    assert!(component.settings().show_successes);
    assert!(component.settings().show_attempt_details);
    assert!(component.settings().display_two_rows);
}

#[test]
fn an_error_stops_the_reading() {
    let (result, parsed) = parse(&[
        ("Display2Rows", "True"),
        ("TextColor", "FFFF0000"),
        ("OverrideTextColor", "yes"),
        ("ChanceColor", "FF00FF00"),
        ("BackgroundGradient", "Plain"),
    ]);
    assert_eq!(result, Err(ParseError::Bool));
    let mut expected = Settings::default();
    expected.display_two_rows = true;
    expected.label_color = Some(RED);
    assert_eq!(parsed, expected);
}

#[test]
fn each_error_has_an_input() {
    assert_eq!(parse(&[("Display2Rows", "2")]).0, Err(ParseError::Bool));
    assert_eq!(parse(&[("OverrideChanceColor", "")]).0, Err(ParseError::Bool));
    assert_eq!(parse(&[("TextColor", "red")]).0, Err(ParseError::Color));
    assert_eq!(parse(&[("ChanceColor", "1FFFFFFFF")]).0, Err(ParseError::Color));
    assert_eq!(parse(&[("BackgroundColor", "#FFFFFF")]).0, Err(ParseError::Color));
    assert_eq!(parse(&[("BackgroundColor2", "")]).0, Err(ParseError::Color));
    assert_eq!(parse(&[("BackgroundGradient", "Radial")]).0, Err(ParseError::GradientKind));
}

#[test]
fn parsing_step_by_step() {
    let mut parsing = Parsing::start(Settings::default());
    assert!(!parsing.override_label);
    assert!(!parsing.override_value);
    assert_eq!(parsing.parse(&element("TextColor", "FFFF0000")), Ok(()));
    assert_eq!(parsing.settings.label_color, Some(RED));
    assert_eq!(parsing.finish().label_color, None);
    assert_eq!(parsing.parse(&element("OverrideTextColor", "True")), Ok(()));
    assert!(parsing.override_label);
    assert_eq!(parsing.finish().label_color, Some(RED));
    assert_eq!(parsing.parse(&element("OverrideTextColor", "maybe")), Err(ParseError::Bool));
    assert!(parsing.override_label);
    assert_eq!(parsing.finish().background, Gradient::Transparent);
}
