use tishlang_floem::color::{expand_hex3, parse_color, Color, CssColor};
use tishlang_floem::decl::{parse_inline_style_string, FlexDir};
use tishlang_floem::style::{
    apply_declarations, declarations_panic, merge_scroll_host_style_from_props,
    merge_style_from_props, parse_px_pct, parse_px_pct_auto, Align, DisplayMode, FlexWrapMode,
    Justify, Length, Number, Style, StyleOp, Weight,
};
use tishlang_floem::value::{ObjectMap, Value};

fn ops(css: &str) -> Vec<StyleOp<String>> {
    let decls = parse_inline_style_string(css);
    assert!(!declarations_panic(&decls));
    apply_declarations(Style { ops: vec![] }, &decls).ops
}

fn s(x: &str) -> String {
    x.to_string()
}

fn chars(x: &str) -> Vec<char> {
    x.chars().collect()
}

#[test]
fn display_values() {
    assert_eq!(ops("display: None"), vec![StyleOp::Display(DisplayMode::Hidden)]);
    assert_eq!(ops("display: flex"), vec![StyleOp::Display(DisplayMode::Flex)]);
    assert_eq!(
        ops("display: block"),
        vec![StyleOp::Display(DisplayMode::Flex), StyleOp::FlexDirection(FlexDir::Column)]
    );
    assert_eq!(
        ops("display: inline-block"),
        vec![]
    );
    assert_eq!(
        ops("display: inlineblock"),
        vec![StyleOp::Display(DisplayMode::Flex), StyleOp::FlexDirection(FlexDir::Row)]
    );
    assert_eq!(ops("display: grid"), vec![]);
}

#[test]
fn flex_direction_wrap_justify_align() {
    assert_eq!(ops("flex-direction: Row Reverse"), vec![StyleOp::FlexDirection(FlexDir::RowReverse)]);
    assert_eq!(ops("flex-wrap: WRAP"), vec![StyleOp::FlexWrap(FlexWrapMode::Wrap)]);
    assert_eq!(ops("flex-wrap: nowrap"), vec![StyleOp::FlexWrap(FlexWrapMode::NoWrap)]);
    assert_eq!(ops("justify-content: space-between"), vec![StyleOp::JustifyContent(Justify::SpaceBetween)]);
    assert_eq!(ops("justify-content: flex-start"), vec![StyleOp::JustifyContent(Justify::FlexStart)]);
    assert_eq!(ops("align-items: center"), vec![StyleOp::AlignItems(Align::Center)]);
    assert_eq!(ops("align-self: end"), vec![StyleOp::AlignSelf(Align::FlexEnd)]);
    assert_eq!(ops("align-items: middle"), vec![]);
}

#[test]
fn lengths() {
    assert_eq!(parse_px_pct(&chars(" 50 % ")), Length::Pct(s("50")));
    assert_eq!(parse_px_pct(&chars("12px")), Length::Px(s("12")));
    assert_eq!(parse_px_pct(&chars("7")), Length::Px(s("7")));
    assert_eq!(parse_px_pct(&chars("auto")), Length::Px(s("auto")));
    assert_eq!(parse_px_pct_auto(&chars(" AUTO")), Length::Auto);
    assert_eq!(parse_px_pct_auto(&chars("3.5px")), Length::Px(s("3.5")));
}

#[test]
fn spacing_and_sizing() {
    assert_eq!(
        ops("gap: 8px"),
        vec![StyleOp::RowGap(Length::Px(s("8"))), StyleOp::ColGap(Length::Px(s("8")))]
    );
    assert_eq!(ops("padding-left: 10%"), vec![StyleOp::PaddingLeft(Length::Pct(s("10")))]);
    assert_eq!(ops("margin: auto"), vec![StyleOp::Margin(Length::Auto)]);
    assert_eq!(ops("width: 100%"), vec![StyleOp::Width(Length::Pct(s("100")))]);
    assert_eq!(ops("max-height: 40px"), vec![StyleOp::MaxHeight(Length::Px(s("40")))]);
}

#[test]
fn flex_shorthand() {
    assert_eq!(ops("flex: 1"), vec![StyleOp::FlexUnit(s("1"))]);
    assert_eq!(
        ops("flex: none"),
        vec![StyleOp::FlexGrow(Number::Text(s("0"))), StyleOp::FlexShrink(Number::Text(s("0")))]
    );
    assert_eq!(
        ops("flex: 2 3 10px"),
        vec![
            StyleOp::FlexGrow(Number::TextOr(s("2"), s("0"))),
            StyleOp::FlexShrink(Number::TextOr(s("3"), s("1"))),
            StyleOp::FlexBasis(Length::Px(s("10"))),
        ]
    );
    assert_eq!(ops("flex-grow: 2"), vec![StyleOp::FlexGrow(Number::Text(s("2")))]);
    assert_eq!(ops("flex-basis: auto"), vec![StyleOp::FlexBasis(Length::Auto)]);
}

#[test]
fn borders_colors_fonts() {
    assert_eq!(ops("border: none"), vec![StyleOp::Border(s("0"))]);
    assert_eq!(ops("border: 2px solid red"), vec![StyleOp::Border(s("2"))]);
    assert_eq!(ops("border: 10% solid"), vec![]);
    assert_eq!(ops("border-right: 3pxpx solid"), vec![StyleOp::BorderRight(s("3"))]);
    assert_eq!(ops("border-radius: 4px"), vec![StyleOp::BorderRadius(Length::Px(s("4")))]);
    assert_eq!(ops("background: #fff"), vec![StyleOp::Background(Color::Rgb8(255, 255, 255))]);
    assert_eq!(ops("background-color: Grey"), vec![StyleOp::Background(Color::Css(CssColor::Gray))]);
    assert_eq!(ops("color: red"), vec![StyleOp::TextColor(Color::Css(CssColor::Red))]);
    assert_eq!(ops("color: rebeccapurple"), vec![]);
    assert_eq!(ops("border-color: #00000080"), vec![StyleOp::BorderColor(Color::Rgba8(0, 0, 0, 128))]);
    assert_eq!(ops("font-size: 14px"), vec![StyleOp::FontSize(s("14"))]);
    assert_eq!(ops("font-weight: 700"), vec![StyleOp::FontWeight(Weight::Bold)]);
    assert_eq!(ops("font-weight: Normal"), vec![StyleOp::FontWeight(Weight::Normal)]);
    assert_eq!(ops("font-family: Menlo, monospace"), vec![StyleOp::FontFamily(s("Menlo, monospace"))]);
    assert_eq!(ops("font-family:   "), vec![]);
    assert_eq!(ops("unknown: 1"), vec![]);
}

#[test]
fn apply_appends_in_order() {
    let first = apply_declarations(Style { ops: vec![StyleOp::WidthFull] }, &parse_inline_style_string("color: red"));
    let both = apply_declarations(first.clone(), &parse_inline_style_string("flex-grow: 1"));
    let mut all = parse_inline_style_string("color: red");
    all.extend(parse_inline_style_string("flex-grow: 1"));
    let at_once = apply_declarations(Style { ops: vec![StyleOp::WidthFull] }, &all);
    assert_eq!(both, at_once);
    assert_eq!(both.ops.len(), 3);
}

#[test]
fn display_none_law_example() {
    let o = ops("color: red; display: none; width: 1px");
    assert!(o.contains(&StyleOp::Display(DisplayMode::Hidden)));
}

#[test]
fn colors() {
    assert_eq!(parse_color(" transparent "), Some(Color::Css(CssColor::Transparent)));
    assert_eq!(parse_color("#ABC"), Some(Color::Rgb8(0xaa, 0xbb, 0xcc)));
    assert_eq!(parse_color("#abc"), parse_color("#aabbcc"));
    assert_eq!(parse_color("# 102030 "), Some(Color::Rgb8(0x10, 0x20, 0x30)));
    assert_eq!(parse_color("#11223344"), Some(Color::Rgba8(0x11, 0x22, 0x33, 0x44)));
    assert_eq!(parse_color("#+f+f+f"), Some(Color::Rgb8(15, 15, 15)));
    assert_eq!(parse_color("#ggg"), None);
    assert_eq!(parse_color("#12345"), None);
    assert_eq!(parse_color("BLACK"), Some(Color::Css(CssColor::Black)));
    assert_eq!(parse_color("white"), Some(Color::Css(CssColor::White)));
    assert_eq!(parse_color("green"), Some(Color::Css(CssColor::Green)));
    assert_eq!(parse_color("blue"), Some(Color::Css(CssColor::Blue)));
    assert_eq!(parse_color(""), None);
}

#[test]
fn hex3_expansion() {
    assert_eq!(expand_hex3("f0a"), Some((255, 0, 170)));
    assert_eq!(expand_hex3("f0"), None);
    assert_eq!(expand_hex3("xyz"), None);
    assert_eq!(expand_hex3("+ab"), None);
}

#[test]
fn colors_that_would_panic_are_reported() {
    assert!(declarations_panic(&[(s("color"), s("#é1"))]));
    assert!(!declarations_panic(&[(s("color"), s("#zé"))]));
    assert!(declarations_panic(&[(s("background"), s("#aé123"))]));
    assert!(!declarations_panic(&[(s("width"), s("#é1"))]));
    assert_eq!(ops("color: #zé"), vec![]);
}

#[test]
fn merge_from_props() {
    let mut props = ObjectMap::new();
    props.insert(s("style"), Value::Str(s("overflow: auto; height: 100%")));
    let base = Style { ops: vec![StyleOp::WidthFull] };
    let merged = merge_style_from_props(base.clone(), &props);
    assert_eq!(merged.ops, vec![StyleOp::WidthFull, StyleOp::Height(Length::Pct(s("100")))]);
    let host = merge_scroll_host_style_from_props(base.clone(), &props);
    assert_eq!(host.ops, vec![StyleOp::WidthFull, StyleOp::Height(Length::Pct(s("100")))]);
    let none = merge_style_from_props(base.clone(), &ObjectMap::new());
    assert_eq!(none, base);
}

#[test]
fn style_object_and_inline_string_style_alike() {
    let mut obj = ObjectMap::new();
    obj.insert(s("display"), Value::Str(s("flex")));
    obj.insert(s("flexDirection"), Value::Str(s(" row ")));
    obj.insert(s("onClick"), Value::Function);
    obj.insert(s("padding"), Value::Number(tishlang_floem::value::NumberValue {
        bits: 8.0f64.to_bits(),
        style_text: s("8"),
    }));
    let mut with_object = ObjectMap::new();
    with_object.insert(s("style"), Value::Object(obj));
    let mut with_string = ObjectMap::new();
    with_string.insert(
        s("style"),
        Value::Str(s(";display:flex;flexDirection: row ;padding:8")),
    );
    let base = Style { ops: vec![] };
    let a = merge_style_from_props(base.clone(), &with_object);
    let b = merge_style_from_props(base, &with_string);
    assert_eq!(a, b);
    assert_eq!(
        a.ops,
        vec![
            StyleOp::Display(DisplayMode::Flex),
            StyleOp::FlexDirection(FlexDir::Row),
            StyleOp::Padding(Length::Px(s("8"))),
        ]
    );
}

#[test]
fn hex3_digits_give_the_doubled_color() {
    assert_eq!(parse_color("#AbC"), Some(Color::Rgb8(0xaa, 0xbb, 0xcc)));
    assert_eq!(parse_color("#AAbbCC"), parse_color("#AbC"));
    assert_eq!(parse_color("#09f"), Some(Color::Rgb8(0x00, 0x99, 0xff)));
}

#[test]
fn declarations_apply_in_turn() {
    let a = parse_inline_style_string("width: 10px; color: red");
    let b = parse_inline_style_string("width: 20px");
    let both: Vec<(String, String)> = a.iter().chain(b.iter()).cloned().collect();
    let base = Style { ops: vec![StyleOp::WidthFull] };
    let at_once = apply_declarations(base.clone(), &both);
    let in_turn = apply_declarations(apply_declarations(base, &a), &b);
    assert_eq!(at_once, in_turn);
    assert_eq!(at_once.ops.last(), Some(&StyleOp::Width(Length::Px(s("20")))));
}

#[test]
fn unknown_keys_leave_the_style_unchanged() {
    let decls = vec![
        (s("flex-grow"), s("1")),
        (s("FontSize"), s("3")),
        (s("overflow"), s("auto")),
        (s("zindex"), s("2")),
    ];
    assert!(!declarations_panic(&decls));
    let base = Style { ops: vec![StyleOp::WidthFull] };
    assert_eq!(apply_declarations(base.clone(), &decls), base);
    assert_eq!(apply_declarations(base.clone(), &[]), base);
}
