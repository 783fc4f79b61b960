use tishlang_floem::color::{Color, CssColor};
use tishlang_floem::controls::{
    caption_style, radio_group_update, select_style, slider_look, slider_style, texteditor_style,
    value_label_style,
    apply_stack_style, checkbox_label, list_item_unwraps, richtext_colors, richtext_sample,
    stack_style, text_input_initial,
    text_input_placeholder, tooltip_text,
};
use tishlang_floem::decl::FlexDir;
use tishlang_floem::element::{
    element_body_style, heading_style, html_element_layout, list_stack_style, scroll_body_style,
    scroll_host_style, scroll_wrapper_style, text_style, ElementLayout,
};
use tishlang_floem::numeric::{decimal_chars, parse_i32};
use tishlang_floem::props::{
    merge_inherited_appearance, props_bool, props_f64, props_fn, props_string, resolve_appearance,
    scroll_root_from_props, theme_provider_resolved_value,
};
use tishlang_floem::style::{Align, DisplayMode, Length, Number, Style, StyleOp};
use tishlang_floem::value::{NumberValue, ObjectMap, Value};
use tishlang_floem::vnode::{
    button_caption, collect_visible_text, component_plan, default_direction, dropdown_options,
    effective_dark_from_appearance, heading_level_from_tag, html_input_kind, html_themed_surface,
    input_type_normalized, intrinsic_for_tag, list_marker, location_fragment, palette_for_dark,
    radio_value, select_items, theme_palette_for_vnode, view_kind, window_scroll_point,
    HtmlThemedSurface, InputKind, Intrinsic, ViewKind,
};

fn s(x: &str) -> String {
    x.to_string()
}

fn num(n: f64) -> Value {
    Value::Number(NumberValue { bits: n.to_bits(), style_text: format!("{}", n) })
}

fn props(pairs: Vec<(&str, Value)>) -> ObjectMap {
    let mut m = ObjectMap::new();
    for (k, v) in pairs {
        m.insert(s(k), v);
    }
    m
}

fn vnode(tag: &str, p: ObjectMap, children: Vec<Value>) -> Value {
    Value::Object(props(vec![
        ("tag", Value::Str(s(tag))),
        ("props", Value::Object(p)),
        ("children", Value::Array(children)),
    ]))
}

#[test]
fn object_map_insert_replaces_in_place() {
    let mut m = ObjectMap::new();
    m.insert(s("a"), Value::Bool(true));
    m.insert(s("b"), Value::Null);
    m.insert(s("a"), Value::Str(s("x")));
    assert_eq!(m.len(), 2);
    assert_eq!(m.entry(0).0, "a");
    assert!(matches!(m.get("a"), Some(Value::Str(v)) if v == "x"));
    assert!(m.get("c").is_none());
}

#[test]
fn props_lookup_first_matching_key() {
    let p = props(vec![("title", Value::Str(s("T"))), ("label", num(3.0))]);
    assert_eq!(props_string(&p, &["label", "title"]), Some(s("T")));
    assert_eq!(props_string(&p, &["label"]), None);
    assert_eq!(props_f64(&p, &["title", "label"], 0), 3.0f64.to_bits());
    assert_eq!(props_f64(&p, &["nope"], 7), 7);
}

#[test]
fn props_bool_numbers_and_flags() {
    let p = props(vec![("a", num(0.0)), ("b", num(-0.0)), ("c", num(f64::NAN)), ("d", Value::Bool(true))]);
    assert!(!props_bool(&p, &["a"]));
    assert!(!props_bool(&p, &["b"]));
    assert!(props_bool(&p, &["c"]));
    assert!(props_bool(&p, &["x", "d"]));
    assert!(!props_bool(&p, &["x"]));
}

#[test]
fn appearance_resolution() {
    assert_eq!(resolve_appearance(&ObjectMap::new()), "system");
    assert_eq!(resolve_appearance(&props(vec![("theme", Value::Str(s("dark")))])), "dark");
    assert_eq!(theme_provider_resolved_value(&props(vec![("value", Value::Str(s("light")))])), "light");
    assert_eq!(theme_provider_resolved_value(&ObjectMap::new()), "system");
}

#[test]
fn inherited_appearance_is_copied_when_missing() {
    let p = props(vec![("appearance", num(1.0)), ("x", Value::Null)]);
    let merged = merge_inherited_appearance(p, Some("dark"));
    assert_eq!(resolve_appearance(&merged), "dark");
    assert_eq!(merged.len(), 2);
    let own = props(vec![("theme", Value::Str(s("light")))]);
    let merged = merge_inherited_appearance(own, Some("dark"));
    assert_eq!(resolve_appearance(&merged), "light");
    let merged = merge_inherited_appearance(ObjectMap::new(), None);
    assert_eq!(merged.len(), 0);
}

#[test]
fn scroll_root_flag() {
    assert!(scroll_root_from_props(&props(vec![("scrollRoot", Value::Bool(true))])));
    assert!(scroll_root_from_props(&props(vec![("data-scroll-root", Value::Str(s(" TRUE ")))])));
    assert!(!scroll_root_from_props(&props(vec![("scroll-root", Value::Str(s("yes")))])));
    assert!(!scroll_root_from_props(&ObjectMap::new()));
}

#[test]
fn visible_text_of_children() {
    let text = vnode("text", ObjectMap::new(), vec![Value::Str(s("b")), Value::Array(vec![Value::Str(s("c"))])]);
    let other = vnode("div", ObjectMap::new(), vec![Value::Str(s("hidden"))]);
    let children = vec![Value::Str(s("a")), text, other, num(1.0), Value::Array(vec![Value::Str(s("d"))])];
    assert_eq!(collect_visible_text(&children), "abcd");
}

#[test]
fn button_captions() {
    assert_eq!(button_caption(&[Value::Str(s("Go"))], &ObjectMap::new()), "Go");
    assert_eq!(button_caption(&[], &props(vec![("title", Value::Str(s("T")))])), "T");
    assert_eq!(button_caption(&[], &ObjectMap::new()), "Button");
}

#[test]
fn theme_palette() {
    assert_eq!(palette_for_dark(false).panel, Color::Css(CssColor::White));
    assert_eq!(palette_for_dark(true).bg, Color::Rgb8(0x1e, 0x22, 0x2a));
    assert!(!effective_dark_from_appearance("light", Some(true)));
    assert!(effective_dark_from_appearance("dark", Some(false)));
    assert!(effective_dark_from_appearance("system", Some(true)));
    assert!(!effective_dark_from_appearance("system", None));
    let p = props(vec![("appearance", Value::Str(s("dark")))]);
    assert_eq!(theme_palette_for_vnode(&p, None), palette_for_dark(true));
}

#[test]
fn tags() {
    assert_eq!(intrinsic_for_tag("v-stack"), Some(Intrinsic::VStack));
    assert_eq!(intrinsic_for_tag("switch"), Some(Intrinsic::Toggle));
    assert_eq!(intrinsic_for_tag("richtext"), Some(Intrinsic::Richtext));
    assert_eq!(intrinsic_for_tag("Button"), None);
    assert_eq!(heading_level_from_tag("h3"), Some(3));
    assert_eq!(heading_level_from_tag("title"), Some(1));
    assert_eq!(heading_level_from_tag("heading"), Some(2));
    assert_eq!(heading_level_from_tag("h7"), None);
}

#[test]
fn input_kinds() {
    let p = props(vec![("type", Value::Str(s("  Radio ")))]);
    assert_eq!(input_type_normalized(&p), "radio");
    assert_eq!(html_input_kind(&p), InputKind::Radio);
    assert_eq!(html_input_kind(&props(vec![("type", Value::Str(s("range")))])), InputKind::Range);
    assert_eq!(html_input_kind(&props(vec![("type", Value::Str(s("CHECKBOX")))])), InputKind::Checkbox);
    assert_eq!(html_input_kind(&ObjectMap::new()), InputKind::Text);
}

#[test]
fn integers() {
    let c = |x: &str| x.chars().collect::<Vec<char>>();
    assert_eq!(parse_i32(&c("42")), Some(42));
    assert_eq!(parse_i32(&c("+7")), Some(7));
    assert_eq!(parse_i32(&c("-2147483648")), Some(i32::MIN));
    assert_eq!(parse_i32(&c("2147483647")), Some(i32::MAX));
    assert_eq!(parse_i32(&c("2147483648")), None);
    assert_eq!(parse_i32(&c("99999999999999999999")), None);
    assert_eq!(parse_i32(&c("")), None);
    assert_eq!(parse_i32(&c("-")), None);
    assert_eq!(parse_i32(&c("1a")), None);
    assert_eq!(parse_i32(&c(" 1")), None);
    assert_eq!(decimal_chars(0), vec!['0']);
    assert_eq!(decimal_chars(1207), vec!['1', '2', '0', '7']);
}

#[test]
fn select_options() {
    let opt = |v: &str| vnode("option", props(vec![("value", Value::Str(s(v)))]), vec![]);
    let children = vec![opt("3"), opt("x"), Value::Str(s("t")), vnode("div", ObjectMap::new(), vec![]), opt("-5")];
    assert_eq!(dropdown_options(&children), vec![3, -5]);
    assert_eq!(select_items(&children), vec![3, -5]);
    assert_eq!(select_items(&[]), vec![1, 2, 3]);
    assert_eq!(radio_value(&props(vec![("value", Value::Str(s("12")))])), 12);
    assert_eq!(radio_value(&props(vec![("value", Value::Str(s("z")))])), 0);
}

#[test]
fn themed_surfaces() {
    assert_eq!(html_themed_surface("ASIDE", &ObjectMap::new()), Some(HtmlThemedSurface::Sidebar));
    let p = props(vec![("className", Value::Str(s("big  Card")))]);
    assert_eq!(html_themed_surface("section", &p), Some(HtmlThemedSurface::Panel));
    let p = props(vec![("class", Value::Str(s("cardish")))]);
    assert_eq!(html_themed_surface("article", &p), None);
    assert_eq!(html_themed_surface("section", &ObjectMap::new()), None);
    assert_eq!(html_themed_surface("div", &props(vec![("class", Value::Str(s("panel")))])), None);
}

#[test]
fn directions_and_markers() {
    assert_eq!(default_direction("SPAN"), FlexDir::Row);
    assert_eq!(default_direction("nav"), FlexDir::Row);
    assert_eq!(default_direction("div"), FlexDir::Column);
    assert_eq!(list_marker(true, 0), "1. ");
    assert_eq!(list_marker(true, 9), "10. ");
    assert_eq!(list_marker(false, 4), "• ");
}

#[test]
fn location_and_scroll_arguments() {
    assert_eq!(location_fragment(&[Value::Str(s("page#  intro "))]), Some(s("intro")));
    assert_eq!(location_fragment(&[Value::Str(s("page#"))]), None);
    assert_eq!(location_fragment(&[Value::Str(s("page"))]), None);
    assert_eq!(location_fragment(&[num(1.0)]), None);
    assert_eq!(location_fragment(&[]), None);
    assert_eq!(window_scroll_point(&[num(3.0), num(4.0)]), Some((3.0f64.to_bits(), 4.0f64.to_bits())));
    assert_eq!(window_scroll_point(&[num(9.0)]), Some((0, 9.0f64.to_bits())));
    let o = Value::Object(props(vec![("top", num(5.0))]));
    assert_eq!(window_scroll_point(&[o]), Some((0, 5.0f64.to_bits())));
    assert_eq!(window_scroll_point(&[Value::Null]), None);
    assert_eq!(window_scroll_point(&[]), None);
}

#[test]
fn value_kinds() {
    let frag = "__tish_ui_Fragment__";
    assert_eq!(view_kind(&Value::Str(s("  "))), ViewKind::EmptyLabel);
    assert_eq!(view_kind(&Value::Str(s(" x "))), ViewKind::Label);
    assert_eq!(view_kind(&Value::Null), ViewKind::EmptyLabel);
    assert_eq!(view_kind(&vnode(frag, ObjectMap::new(), vec![])), ViewKind::Fragment);
    assert_eq!(view_kind(&vnode("Fragment", ObjectMap::new(), vec![])), ViewKind::UnknownTag);
    assert_eq!(view_kind(&vnode("text", ObjectMap::new(), vec![])), ViewKind::TextVnode);
    assert_eq!(view_kind(&vnode("fieldset", ObjectMap::new(), vec![])), ViewKind::Html);
    assert_eq!(view_kind(&vnode("select", ObjectMap::new(), vec![])), ViewKind::Select);
    assert_eq!(view_kind(&vnode("input", ObjectMap::new(), vec![])), ViewKind::Input);
    assert_eq!(view_kind(&vnode("h2", ObjectMap::new(), vec![])), ViewKind::Heading(2));
    assert_eq!(view_kind(&vnode("box", ObjectMap::new(), vec![])), ViewKind::Intrinsic(Intrinsic::Container));
    assert_eq!(view_kind(&vnode("marquee", ObjectMap::new(), vec![])), ViewKind::UnknownTag);
    assert_eq!(view_kind(&Value::Object(props(vec![("tag", num(1.0))]))), ViewKind::BadTag);
    assert_eq!(view_kind(&Value::Array(vec![])), ViewKind::NoChildren);
    assert_eq!(view_kind(&Value::Array(vec![Value::Null])), ViewKind::SingleChild);
    assert_eq!(view_kind(&Value::Array(vec![Value::Null, Value::Null])), ViewKind::StackedChildren);
}

fn styled(css: &str) -> ObjectMap {
    props(vec![("style", Value::Str(s(css)))])
}

#[test]
fn element_layouts() {
    assert_eq!(html_element_layout("div", &styled("display:none; overflow:auto")), ElementLayout::Hidden);
    assert_eq!(html_element_layout("OL", &ObjectMap::new()), ElementLayout::List { ordered: true });
    assert_eq!(html_element_layout("ul", &ObjectMap::new()), ElementLayout::List { ordered: false });
    assert_eq!(html_element_layout("div", &styled("overflow-y: scroll")), ElementLayout::Scroll);
    assert_eq!(html_element_layout("span", &styled("overflow-y: scroll")), ElementLayout::Plain);
    assert_eq!(html_element_layout("p", &ObjectMap::new()), ElementLayout::Plain);
}

#[test]
fn element_styles() {
    let aside = element_body_style("aside", &styled("height: 100%"), Some(false));
    let pal = palette_for_dark(false);
    assert_eq!(aside.ops[0], StyleOp::Display(DisplayMode::Flex));
    assert_eq!(aside.ops[1], StyleOp::HeightFull);
    assert!(aside.ops.contains(&StyleOp::Background(pal.sidebar)));
    assert_eq!(aside.ops[aside.ops.len() - 2], StyleOp::HeightFull);
    assert_eq!(aside.ops[aside.ops.len() - 1], StyleOp::WidthFull);

    let span = element_body_style("span", &ObjectMap::new(), None);
    assert_eq!(span.ops, vec![StyleOp::Display(DisplayMode::Flex)]);
    let div = element_body_style("div", &styled("flex-grow: 1"), None);
    assert_eq!(
        div.ops,
        vec![StyleOp::Display(DisplayMode::Flex), StyleOp::FlexGrow(Number::Text(s("1")))]
    );
    let div = element_body_style("div", &styled("min-width: 0"), None);
    assert_eq!(div.ops.last(), Some(&StyleOp::WidthFull));
}

#[test]
fn list_and_scroll_styles() {
    let list = list_stack_style(&styled("color: red"));
    assert_eq!(
        list.ops,
        vec![
            StyleOp::Display(DisplayMode::Flex),
            StyleOp::FlexDirection(FlexDir::Column),
            StyleOp::TextColor(Color::Css(CssColor::Red)),
            StyleOp::WidthFull,
            StyleOp::TextColor(Color::Css(CssColor::Red)),
        ]
    );
    let body = scroll_body_style(&styled("overflow: auto; width: 50%; gap: 2px"), false);
    assert_eq!(
        body.ops,
        vec![
            StyleOp::Display(DisplayMode::Flex),
            StyleOp::RowGap(Length::Px(s("2"))),
            StyleOp::ColGap(Length::Px(s("2"))),
            StyleOp::WidthFull,
        ]
    );
    let fill_body = scroll_body_style(&styled("width: 50%"), true);
    assert!(fill_body.ops.contains(&StyleOp::WidthFull));
    let wrap = scroll_wrapper_style(&ObjectMap::new(), false);
    assert_eq!(wrap.ops.last(), Some(&StyleOp::MinHeight(Length::PxBits(120.0f64.to_bits()))));
    let wrap = scroll_wrapper_style(&props(vec![("minHeight", num(40.0))]), false);
    assert_eq!(wrap.ops.last(), Some(&StyleOp::MinHeight(Length::PxBits(40.0f64.to_bits()))));
    let host = scroll_host_style(&styled("overflow: auto; height: 100%"), true);
    assert_eq!(host.ops[host.ops.len() - 2], StyleOp::Height(Length::Pct(s("100"))));
    assert_eq!(host.ops.last(), Some(&StyleOp::Height(Length::Auto)));
    let host = scroll_host_style(&ObjectMap::new(), false);
    assert_eq!(host.ops[3], StyleOp::Height(Length::Px(s("220"))));
}

#[test]
fn heading_and_text_styles() {
    let h = heading_style(0, &ObjectMap::new(), None);
    assert_eq!(h.ops[0], StyleOp::FontSize(s("22")));
    let h = heading_style(9, &ObjectMap::new(), None);
    assert_eq!(h.ops[0], StyleOp::FontSize(s("13")));
    let t = text_style(&props(vec![("size", Value::Str(s("Small")))]));
    assert_eq!(t.ops, vec![StyleOp::FontSize(s("12")), StyleOp::TextColor(Color::Css(CssColor::Gray))]);
    let t = text_style(&ObjectMap::new());
    assert_eq!(t.ops, vec![StyleOp::FontSize(s("14")), StyleOp::LineHeight(s("1.35"))]);
}

#[test]
fn control_texts_and_stacks() {
    assert_eq!(checkbox_label(&[]), "Checkbox");
    assert_eq!(checkbox_label(&[Value::Str(s("Agree"))]), "Agree");
    assert_eq!(tooltip_text(&ObjectMap::new()), "Tooltip");
    assert_eq!(tooltip_text(&props(vec![("label", Value::Str(s("L")))])), "L");
    assert_eq!(text_input_initial(&props(vec![("default", Value::Str(s("d")))])), "d");
    assert_eq!(text_input_placeholder(&ObjectMap::new()), "");
    let li = vnode("LI", ObjectMap::new(), vec![]);
    assert!(list_item_unwraps(&li));
    assert!(!list_item_unwraps(&Value::Str(s("li"))));
    let sized = apply_stack_style(
        Style { ops: vec![] },
        &props(vec![("width", num(200.0)), ("maxWidth", num(-1.0)), ("flexGrow", num(2.0)), ("fillHeight", Value::Bool(true))]),
    );
    assert_eq!(
        sized.ops,
        vec![
            StyleOp::Width(Length::PxBits(200.0f64.to_bits())),
            StyleOp::FlexGrowBits(2.0f64.to_bits()),
            StyleOp::FlexBasis(Length::Px(s("0"))),
            StyleOp::MinWidth(Length::Px(s("0"))),
            StyleOp::MinHeight(Length::Px(s("0"))),
            StyleOp::HeightFull,
            StyleOp::MinHeight(Length::Px(s("0"))),
        ]
    );
    let h = stack_style(true, &ObjectMap::new());
    assert_eq!(h.ops, vec![StyleOp::WidthFull, StyleOp::AlignItems(Align::Stretch), StyleOp::JustifyStart]);
    let nan_width = apply_stack_style(Style { ops: vec![] }, &props(vec![("width", num(f64::NAN))]));
    assert!(nan_width.ops.is_empty());
}

#[test]
fn props_fn_picks_first_key_holding_a_function() {
    let p = props(vec![
        ("onclick", Value::Str(s("not a callback"))),
        ("onTap", Value::Function),
        ("ontap", Value::Function),
    ]);
    let keys = ["onClick", "onclick", "onTap", "ontap"];
    assert_eq!(props_fn(&p, &keys), Some(2));
    assert_eq!(props_fn(&props(vec![("onClick", Value::Null)]), &keys), None);
}

#[test]
fn richtext_colors_follow_dark_mode() {
    assert_eq!(richtext_colors(Some(true)).highlight, Color::Rgb8(0x7d, 0xae, 0xff));
    assert_eq!(richtext_colors(Some(false)).base, Color::Rgb8(0x33, 0x36, 0x3f));
    assert_eq!(richtext_colors(None), richtext_colors(Some(false)));
}

#[test]
fn component_plan_moves_children_out_of_props() {
    let call = Value::Object(props(vec![
        ("title", Value::Str(s("t"))),
        ("children", Value::Array(vec![Value::Str(s("a"))])),
        ("onClick", Value::Function),
    ]));
    let plan = component_plan(&[call]).unwrap();
    assert_eq!(plan.props, vec![0, 2]);
    assert_eq!(plan.children, Some(1));
    let no_array = Value::Object(props(vec![("children", Value::Str(s("x")))]));
    let plan = component_plan(&[no_array]).unwrap();
    assert!(plan.props.is_empty());
    assert_eq!(plan.children, None);
    assert!(component_plan(&[Value::Null]).is_none());
    assert!(component_plan(&[]).is_none());
}

#[test]
fn richtext_sample_highlights_the_word() {
    let (text, span) = richtext_sample();
    assert_eq!(text, "Rich text with a highlighted span.");
    assert_eq!(span, Some((17, 28)));
    let (a, b) = span.unwrap();
    assert_eq!(&text[a..b], "highlighted");
}

#[test]
fn control_chrome_styles() {
    assert_eq!(
        caption_style().ops,
        vec![StyleOp::FontSize(s("12")), StyleOp::TextColor(Color::Css(CssColor::Gray))]
    );
    let dark = props(vec![("appearance", Value::Str(s("dark")))]);
    let ed = texteditor_style(&dark, None);
    assert_eq!(ed.ops[4], StyleOp::BorderColor(Color::Rgb8(0x3a, 0x40, 0x4d)));
    assert_eq!(ed.ops[1], StyleOp::MaxWidth(Length::Px(s("640"))));
    let sel = select_style(&ObjectMap::new(), Some(true));
    assert_eq!(sel.ops[2], StyleOp::TextColor(Color::Rgb8(0xe6, 0xe8, 0xef)));
    assert_eq!(slider_style().ops[4], StyleOp::MarginVert(Length::Px(s("6"))));
    let look = slider_look();
    assert_eq!(look.accent, Color::Rgb8(59, 130, 246));
    assert_eq!(look.radius_pct, "4");
    assert_eq!(
        value_label_style(Some("light"), Some(true)).ops[1],
        StyleOp::TextColor(Color::Rgb8(0x22, 0x24, 0x2d))
    );
    assert_eq!(
        value_label_style(None, Some(true)).ops[1],
        StyleOp::TextColor(Color::Rgb8(0xe6, 0xe8, 0xef))
    );
}

#[test]
fn radio_group_selection() {
    assert_eq!(radio_group_update(3, true), Some(3));
    assert_eq!(radio_group_update(3, false), None);
}
