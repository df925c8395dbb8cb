//! Style sheets and the cascade.

use accessibility_rs::dom::document::Document;
use accessibility_rs::dom::selector::CssSelector;
use accessibility_rs::engine::audit::auditor::Auditor;
use accessibility_rs::engine::styles::cascade::{
    apply_one, style_for_element_ref, ComputedValues, MAX_LENGTH,
};
use accessibility_rs::engine::styles::declaration_block::{
    parse_value, property_by_name, split_words, Declaration, DeclarationBlock, Property, Specified,
};
use accessibility_rs::engine::styles::rules::{CssRule, Parser, RulesParser};
use accessibility_rs::engine::styles::scan::{find_char, is_word, trim_range};
use accessibility_rs::engine::styles::specificity::{specificity, Specificity};
use accessibility_rs::engine::styles::style_set::StyleSet;
use accessibility_rs::engine::styles::values::{
    parse_color, parse_dimension, parse_display, parse_float, parse_number, parse_position, Color,
    Dimension, Display, Float, Keyword, LengthOrPercentageOrAuto, Position, Rgba,
};

fn chars(s: &str) -> Vec<char> {
    s.chars().collect()
}

#[test]
fn numbers_are_read_in_thousandths() {
    for (text, value) in [
        ("0", Some(0)),
        ("1", Some(1000)),
        ("1.5", Some(1500)),
        ("-0.25", Some(-250)),
        ("+3", Some(3000)),
        (".5", Some(500)),
        ("-.5", Some(-500)),
        ("1.23456", Some(1234)),
        ("0.001", Some(1)),
        ("0.0009", Some(0)),
        ("123456789", Some(123_456_789_000)),
        ("1234567890", None),
        ("", None),
        ("-", None),
        (".", None),
        ("5.", None),
        ("1e3", None),
        ("1,5", None),
        ("1.5.2", None),
        (" 1", None),
    ] {
        assert_eq!(parse_number(&chars(text)), value, "{:?}", text);
    }
}

#[test]
fn dimensions_need_a_unit() {
    for (text, value) in [
        ("12px", Some(Dimension::Px(12_000))),
        ("12PX", Some(Dimension::Px(12_000))),
        ("1.5em", Some(Dimension::Em(1_500))),
        ("50%", Some(Dimension::Percent(50_000))),
        ("-4px", Some(Dimension::Px(-4_000))),
        ("0", Some(Dimension::Px(0))),
        ("0.0", Some(Dimension::Px(0))),
        ("12", None),
        ("12pt", None),
        ("px", None),
        ("1 px", None),
        ("", None),
    ] {
        assert_eq!(parse_dimension(&chars(text)), value, "{:?}", text);
    }
}

fn rgb(red: u8, green: u8, blue: u8) -> Option<Color> {
    Some(Color::Rgba(Rgba { red, green, blue, alpha: 255 }))
}

#[test]
fn colours_are_names_or_hexadecimal() {
    for (text, value) in [
        ("black", rgb(0, 0, 0)),
        ("White", rgb(255, 255, 255)),
        ("RED", rgb(255, 0, 0)),
        ("green", rgb(0, 128, 0)),
        ("grey", rgb(128, 128, 128)),
        ("orange", rgb(255, 165, 0)),
        ("#fff", rgb(255, 255, 255)),
        ("#1a2", rgb(0x11, 0xaa, 0x22)),
        ("#1A2b3C", rgb(0x1a, 0x2b, 0x3c)),
        ("#000000", rgb(0, 0, 0)),
        ("currentColor", Some(Color::CurrentColor)),
        (
            "transparent",
            Some(Color::Rgba(Rgba { red: 0, green: 0, blue: 0, alpha: 0 })),
        ),
        ("#ff", None),
        ("#ggg", None),
        ("#12345", None),
        ("reddish", None),
        ("", None),
        ("rgb(1,2,3)", None),
    ] {
        assert_eq!(parse_color(&chars(text)), value, "{:?}", text);
    }
}

#[test]
fn scanning() {
    let s = chars("ab:cd:e");
    assert_eq!(find_char(&s, ':', 0), 2);
    assert_eq!(find_char(&s, ':', 2), 2);
    assert_eq!(find_char(&s, ':', 3), 5);
    assert_eq!(find_char(&s, ':', 6), 7);
    assert_eq!(find_char(&s, 'x', 0), 7);
    let s = chars("  a b \t");
    assert_eq!(trim_range(&s, 0, 7), chars("a b"));
    assert_eq!(trim_range(&s, 3, 7), chars("b"));
    assert_eq!(trim_range(&s, 5, 7), chars(""));
    assert_eq!(trim_range(&s, 2, 3), chars("a"));
    assert!(is_word(&chars("AuTo"), "auto"));
    assert!(!is_word(&chars("auto "), "auto"));
    assert_eq!(
        split_words(&chars(" 1px  2em\t3% ")),
        vec![chars("1px"), chars("2em"), chars("3%")]
    );
    assert!(split_words(&chars("  ")).is_empty());
}

fn d(property: Property, value: Specified, important: bool) -> Declaration {
    Declaration { property, value, important }
}

fn px(milli: i64) -> Specified {
    Specified::Dimension(Dimension::Px(milli))
}

#[test]
fn declarations_are_read_piece_by_piece() {
    let block = DeclarationBlock::parse(
        " color : red ; Font-Size:2em ! IMPORTANT; bogus: 1px; width; margin: 1px 2px;;padding:0 auto; height: auto; background: #fff !important; color: nonsense; border-width: thin 0 thick",
    );
    assert_eq!(
        block.declarations,
        vec![
            d(
                Property::Color,
                Specified::Color(Color::Rgba(Rgba { red: 255, green: 0, blue: 0, alpha: 255 })),
                false
            ),
            d(Property::FontSize, Specified::Dimension(Dimension::Em(2_000)), true),
            d(Property::MarginTop, px(1_000), false),
            d(Property::MarginRight, px(2_000), false),
            d(Property::MarginBottom, px(1_000), false),
            d(Property::MarginLeft, px(2_000), false),
            d(Property::Height, Specified::Auto, false),
            d(
                Property::BackgroundColor,
                Specified::Color(Color::Rgba(Rgba {
                    red: 255,
                    green: 255,
                    blue: 255,
                    alpha: 255
                })),
                true
            ),
            d(Property::BorderTopWidth, px(1_000), false),
            d(Property::BorderRightWidth, px(0), false),
            d(Property::BorderBottomWidth, px(5_000), false),
            d(Property::BorderLeftWidth, px(0), false),
        ]
    );
    assert!(DeclarationBlock::parse("").declarations.is_empty());
    assert!(DeclarationBlock::parse("margin: 1px 2px 3px 4px 5px").declarations.is_empty());
    let four = DeclarationBlock::parse("margin: 1px 2px 3px 4px").declarations;
    assert_eq!(
        four.iter().map(|x| x.value).collect::<Vec<_>>(),
        vec![px(1_000), px(2_000), px(3_000), px(4_000)]
    );
    assert_eq!(property_by_name(&chars("BACKGROUND-color")), Some(Property::BackgroundColor));
    assert_eq!(property_by_name(&chars("display")), Some(Property::Display));
    assert_eq!(property_by_name(&chars("border-color")), None);
    assert_eq!(parse_value(Property::Width, &chars("inherit")), Some(Specified::Inherit));
    assert_eq!(parse_value(Property::PaddingTop, &chars("auto")), None);
    assert_eq!(parse_value(Property::Color, &chars("initial")), Some(Specified::Initial));
    assert_eq!(parse_value(Property::BorderTopWidth, &chars("medium")), Some(px(3_000)));
    assert!(Property::FontSize.is_early());
    assert!(!Property::Color.is_early());
}

fn counts(selector: &str) -> (usize, usize, usize) {
    let Specificity { ids, classes, types } = specificity(&chars(selector));
    (ids, classes, types)
}

#[test]
fn specificity_counts_ids_classes_and_types() {
    assert_eq!(counts("p"), (0, 0, 1));
    assert_eq!(counts("*"), (0, 0, 0));
    assert_eq!(counts("#a .b c"), (1, 1, 1));
    assert_eq!(counts("ul > li + li"), (0, 0, 3));
    assert_eq!(counts("a:hover::before"), (0, 1, 2));
    assert_eq!(counts("input[type=text].wide#q"), (1, 2, 1));
    assert_eq!(counts("[title='#a.b c']"), (0, 1, 0));
    assert_eq!(counts(""), (0, 0, 0));
    let low = specificity(&chars("p.a.b.c"));
    let high = specificity(&chars("#x"));
    assert!(low.le(&high));
    assert!(!high.le(&low));
    assert!(low.le(&low));
    assert!(specificity(&chars("p")).le(&specificity(&chars("p q"))));
}

#[test]
fn rules_are_read_and_what_cannot_be_read_is_left_out() {
    let rules = RulesParser::parse_stylesheet(
        "p, .a > b { color: red } @media print { x { } } 5bad { color: blue } #z{margin:0}\n q { width: 1px",
    );
    let shapes: Vec<(usize, usize)> = rules
        .iter()
        .map(|rule| match rule {
            CssRule::StyleRule { selectors, block } => (selectors.len(), block.declarations.len()),
        })
        .collect();
    assert_eq!(shapes, vec![(2, 1), (1, 4), (1, 1)]);
    assert!(RulesParser::parse_stylesheet("").is_empty());
    assert!(RulesParser::parse_stylesheet("p").is_empty());
    assert!(RulesParser::parse_stylesheet("p, { color: red }").is_empty());
    assert!(Parser::parse_selectors(&chars("a, b")).is_ok());
    assert!(Parser::parse_selectors(&chars("a, ")).is_err());
    assert!(RulesParser::parse_prelude(&chars("a >")).is_err());
}

#[test]
fn style_set_keeps_the_order_of_the_cascade() {
    let mut set = StyleSet::new();
    set.add_stylesheet("#a { width: 1px } p { width: 2px } .c, q { width: 3px }");
    set.add_stylesheet("p { width: 4px } * { width: 5px }");
    let widths: Vec<Specified> = set
        .entries
        .iter()
        .map(|e| set.blocks[e.block].declarations[0].value)
        .collect();
    assert_eq!(
        widths,
        vec![px(5_000), px(2_000), px(3_000), px(4_000), px(3_000), px(1_000)]
    );
    assert_eq!(set.sheets.len(), 2);
}

fn style(html: &str, css: &str, selector: &str) -> ComputedValues {
    let document = Document::parse_document(html);
    let auditor = Auditor::new(&document, css, None, "en");
    let found = document.select(&CssSelector::parse(selector).ok().unwrap());
    style_for_element_ref(&found[0], &auditor.author, &document)
}

const BLACK: Rgba = Rgba { red: 0, green: 0, blue: 0, alpha: 255 };
const RED: Rgba = Rgba { red: 255, green: 0, blue: 0, alpha: 255 };
const BLUE: Rgba = Rgba { red: 0, green: 0, blue: 255, alpha: 255 };

#[test]
fn properties_start_with_their_initial_values() {
    let s = style("<p>x</p>", "", "p");
    assert_eq!(s, ComputedValues::initial());
    assert_eq!(s.font_size, 16_000);
    assert_eq!(s.color, BLACK);
    assert_eq!(
        s.background_color,
        Color::Rgba(Rgba { red: 0, green: 0, blue: 0, alpha: 0 })
    );
    assert_eq!(s.width, LengthOrPercentageOrAuto::Auto);
    assert_eq!(s.margin_left, LengthOrPercentageOrAuto::Length(0));
    assert_eq!(s.border_top_width, LengthOrPercentageOrAuto::Length(3_000));
}

#[test]
fn inherited_properties_come_from_the_parent_and_others_do_not() {
    let css = "body { color: red; font-size: 20px; width: 100px; background: blue }";
    let s = style("<body><div><p>x</p></div>", css, "p");
    assert_eq!(s.color, RED);
    assert_eq!(s.font_size, 20_000);
    assert_eq!(s.width, LengthOrPercentageOrAuto::Auto);
    assert_eq!(
        s.background_color,
        Color::Rgba(Rgba { red: 0, green: 0, blue: 0, alpha: 0 })
    );
    let s = style(
        "<body><div><p>x</p></div>",
        "body { width: 100px; background: blue } div { width: inherit } p { width: inherit; background: inherit; color: initial }",
        "p",
    );
    assert_eq!(s.width, LengthOrPercentageOrAuto::Length(100_000));
    assert_eq!(
        s.background_color,
        Color::Rgba(Rgba { red: 0, green: 0, blue: 0, alpha: 0 })
    );
}

#[test]
fn font_size_is_settled_before_lengths_in_em() {
    let css = "p { width: 2em; font-size: 1.5em; margin: 10% -0.5em } body { font-size: 10px }";
    let s = style("<body><p>x</p>", css, "p");
    assert_eq!(s.font_size, 15_000);
    assert_eq!(s.width, LengthOrPercentageOrAuto::Length(30_000));
    assert_eq!(s.margin_top, LengthOrPercentageOrAuto::Percentage(10_000));
    assert_eq!(s.margin_right, LengthOrPercentageOrAuto::Length(-7_500));
    let s = style("<body><p>x</p>", "body { font-size: 10px } p { font-size: 150% }", "p");
    assert_eq!(s.font_size, 15_000);
    let s = style("<body><p>x</p>", "p { font-size: -2px }", "p");
    assert_eq!(s.font_size, 16_000);
    let s = style("<p>x</p>", "p { font-size: 999999999px; width: 999999999em }", "p");
    assert_eq!(s.font_size, 999_999_999_000);
    assert_eq!(s.width, LengthOrPercentageOrAuto::Length(MAX_LENGTH));
}

#[test]
fn specific_rules_win_then_later_rules_and_important_wins_over_all() {
    let html = r#"<p id="x" class="c" style="height: 7px; width: 7px">x</p>"#;
    let s = style(html, "#x { color: red } p.c { color: blue } p { color: black }", "p");
    assert_eq!(s.color, RED);
    let s = style(html, "p { color: red } p { color: blue }", "p");
    assert_eq!(s.color, BLUE);
    let s = style(html, "p { color: red !important } #x { color: blue }", "p");
    assert_eq!(s.color, RED);
    let s = style(html, "#x { height: 1px; width: 2px !important }", "p");
    assert_eq!(s.height, LengthOrPercentageOrAuto::Length(7_000));
    assert_eq!(s.width, LengthOrPercentageOrAuto::Length(2_000));
    let s = style(
        r#"<p style="width: 7px !important">x</p>"#,
        "p { width: 2px !important }",
        "p",
    );
    assert_eq!(s.width, LengthOrPercentageOrAuto::Length(7_000));
    let s = style(html, "div { color: red }", "p");
    assert_eq!(s.color, BLACK);
}

#[test]
fn one_declaration_changes_one_property() {
    let start = ComputedValues::initial();
    let up = ComputedValues { padding_left: LengthOrPercentageOrAuto::Length(9), ..start };
    let after = apply_one(start, d(Property::PaddingLeft, px(4_000), false), None);
    assert_eq!(
        after,
        ComputedValues { padding_left: LengthOrPercentageOrAuto::Length(4_000), ..start }
    );
    let after = apply_one(start, d(Property::PaddingLeft, Specified::Inherit, false), Some(up));
    assert_eq!(after.padding_left, LengthOrPercentageOrAuto::Length(9));
    let after = apply_one(up, d(Property::PaddingLeft, Specified::Initial, false), Some(up));
    assert_eq!(after.padding_left, LengthOrPercentageOrAuto::Length(0));
    let after = apply_one(
        start,
        d(Property::Color, Specified::Color(Color::CurrentColor), false),
        Some(ComputedValues { color: RED, ..start }),
    );
    assert_eq!(after.color, RED);
    let after = apply_one(start, d(Property::Width, Specified::Color(Color::CurrentColor), false), None);
    assert_eq!(after, start);
}

#[test]
fn words_place_an_element() {
    assert_eq!(parse_display(&chars("None")), Some(Display::Absent));
    assert_eq!(parse_display(&chars("inline-block")), Some(Display::InlineBlock));
    assert_eq!(parse_display(&chars("table")), None);
    assert_eq!(parse_position(&chars("absolute")), Some(Position::Absolute));
    assert_eq!(parse_position(&chars("sticky")), None);
    assert_eq!(parse_float(&chars("left")), Some(Float::Left));
    assert_eq!(parse_float(&chars("none")), Some(Float::Neither));
    assert_eq!(
        parse_value(Property::Display, &chars("flex")),
        Some(Specified::Keyword(Keyword::Display(Display::Flex)))
    );
    assert_eq!(parse_value(Property::Display, &chars("left")), None);
    assert_eq!(parse_value(Property::Float, &chars("inherit")), Some(Specified::Inherit));
    let s = style(
        "<body><p>x</p>",
        "body { display: block; position: relative; top: 5px } p { display: none; float: right; position: inherit; left: 10%; top: inherit; bottom: bogus }",
        "p",
    );
    assert_eq!(s.display, Display::Absent);
    assert_eq!(s.float, Float::Right);
    assert_eq!(s.position, Position::Relative);
    assert_eq!(s.left, LengthOrPercentageOrAuto::Percentage(10_000));
    assert_eq!(s.top, LengthOrPercentageOrAuto::Length(5_000));
    assert_eq!(s.bottom, LengthOrPercentageOrAuto::Auto);
    assert_eq!(s.right, LengthOrPercentageOrAuto::Auto);
    let s = style("<body><p>x</p>", "body { display: block; float: left }", "p");
    assert_eq!(s.display, Display::Inline);
    assert_eq!(s.float, Float::Neither);
    assert_eq!(s.position, Position::Static);
}
