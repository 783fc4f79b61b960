use tishlang_floem::decl::{
    decls_for_scrollable_div_inner, decls_without_overflow, direction_from_decls, display_is_none,
    is_overflow_style_key, is_scroll_host_outer_key, norm_key, overflow_enables_scroll,
    overflow_value_is_scroll, parse_inline_style_string, scroll_fill_grow_texts,
    style_declarations_from_props, style_object_pairs, FlexDir,
};
use tishlang_floem::value::{NumberValue, ObjectMap, Value};

fn d(k: &str, v: &str) -> (String, String) {
    (k.to_string(), v.to_string())
}

fn num(n: f64, text: &str) -> Value {
    Value::Number(NumberValue { bits: n.to_bits(), style_text: text.to_string() })
}

#[test]
fn inline_style_splits_and_normalizes() {
    let r = parse_inline_style_string("display:flex; flex-direction: row");
    assert_eq!(r, vec![d("display", "flex"), d("flexdirection", "row")]);
}

#[test]
fn inline_style_skips_empty_and_keyless_parts() {
    let r = parse_inline_style_string("  ; ;Margin-Top : 4px ;; novalue ; : x ; - : y");
    assert_eq!(r, vec![d("margintop", "4px")]);
}

#[test]
fn inline_style_value_keeps_later_colons() {
    let r = parse_inline_style_string("background: url(a:b) ");
    assert_eq!(r, vec![d("background", "url(a:b)")]);
}

#[test]
fn inline_style_empty_string_gives_nothing() {
    assert!(parse_inline_style_string("").is_empty());
    assert!(parse_inline_style_string("   ").is_empty());
}

#[test]
fn inline_style_concat_law_example() {
    let a = "color: red; width: 10px";
    let b = "height : 5px";
    let joined = format!("{};{}", a, b);
    let mut expect = parse_inline_style_string(a);
    expect.extend(parse_inline_style_string(b));
    assert_eq!(parse_inline_style_string(&joined), expect);
}

#[test]
fn norm_key_drops_space_and_dashes() {
    assert_eq!(norm_key(" Flex - Direction\t"), "flexdirection");
    assert_eq!(norm_key("MIN-height"), "minheight");
    assert_eq!(norm_key(&norm_key("Over-Flow-X")), norm_key("Over-Flow-X"));
}

#[test]
fn overflow_keys() {
    assert!(is_overflow_style_key("overflow"));
    assert!(is_overflow_style_key("overflowx"));
    assert!(is_overflow_style_key("overflowy"));
    assert!(!is_overflow_style_key("overflow-y"));
    assert!(!is_overflow_style_key("Overflow"));
}

#[test]
fn outer_keys() {
    for k in [
        "width", "height", "minwidth", "minheight", "maxwidth", "maxheight", "flex", "flexgrow",
        "flexshrink", "flexbasis", "margin", "margintop", "marginright", "marginbottom",
        "marginleft",
    ] {
        assert!(is_scroll_host_outer_key(k), "{}", k);
    }
    assert!(!is_scroll_host_outer_key("padding"));
    assert!(!is_scroll_host_outer_key("gap"));
}

#[test]
fn overflow_values() {
    assert!(overflow_value_is_scroll(" Auto "));
    assert!(overflow_value_is_scroll("SCROLL"));
    assert!(overflow_value_is_scroll("overlay"));
    assert!(!overflow_value_is_scroll("hidden"));
    assert!(!overflow_value_is_scroll("visible"));
}

#[test]
fn overflow_enables_scroll_examples() {
    let decls = parse_inline_style_string("overflow-y: auto; padding: 4px");
    assert!(overflow_enables_scroll(&decls));
    let decls = parse_inline_style_string("overflow: hidden; overflow-x: visible");
    assert!(!overflow_enables_scroll(&decls));
    assert!(!overflow_enables_scroll(&[]));
}

#[test]
fn scrollable_inner_keeps_inner_keys_only() {
    let decls = parse_inline_style_string(
        "overflow: auto; width: 100%; flex: 1; gap: 8px; padding: 2px; margin: 0; border: 1px solid red",
    );
    let inner = decls_for_scrollable_div_inner(&decls);
    assert_eq!(inner, vec![d("gap", "8px"), d("padding", "2px"), d("border", "1px solid red")]);
    assert!(!overflow_enables_scroll(&inner));
    assert_eq!(decls_for_scrollable_div_inner(&inner), inner);
}

#[test]
fn without_overflow_drops_only_overflow() {
    let decls = parse_inline_style_string("overflow-x: scroll; width: 100%; overflow: auto");
    assert_eq!(decls_without_overflow(&decls), vec![d("width", "100%")]);
}

#[test]
fn display_none_detection() {
    assert!(display_is_none(&parse_inline_style_string("display: NONE ")));
    assert!(!display_is_none(&parse_inline_style_string("display: flex")));
    assert!(!display_is_none(&[d("display", "no ne")]));
}

#[test]
fn direction_last_recognized_wins() {
    let decls = vec![
        d("flexdirection", "Row"),
        d("flexdirection", "bogus"),
        d("flexdirection", "column reverse"),
    ];
    assert_eq!(direction_from_decls(&decls, FlexDir::Row), FlexDir::ColumnReverse);
    assert_eq!(direction_from_decls(&[], FlexDir::Column), FlexDir::Column);
    assert_eq!(direction_from_decls(&[d("flexdirection", "x")], FlexDir::Row), FlexDir::Row);
}

#[test]
fn grow_texts() {
    let decls = parse_inline_style_string("flex: 1 0 auto; flex-grow: 2; flex: none; flex: ; width: 3");
    assert_eq!(scroll_fill_grow_texts(&decls), vec!["1".to_string(), "2".to_string()]);
}

#[test]
fn style_object_entries_become_declarations() {
    let mut style = ObjectMap::new();
    style.insert("flexDirection".to_string(), Value::Str("row".to_string()));
    style.insert("flex".to_string(), num(1.0, "1"));
    style.insert("wrap".to_string(), Value::Bool(true));
    style.insert("ignored".to_string(), Value::Null);
    let r = style_object_pairs(&style);
    assert_eq!(r, vec![d("flexdirection", "row"), d("flex", "1"), d("wrap", "true")]);
}

#[test]
fn style_prop_string_or_object() {
    let mut props = ObjectMap::new();
    props.insert("style".to_string(), Value::Str("color: red".to_string()));
    assert_eq!(style_declarations_from_props(&props), vec![d("color", "red")]);

    let mut obj = ObjectMap::new();
    obj.insert("minHeight".to_string(), num(0.5, "0.5"));
    let mut props = ObjectMap::new();
    props.insert("style".to_string(), Value::Object(obj));
    assert_eq!(style_declarations_from_props(&props), vec![d("minheight", "0.5")]);

    let mut props = ObjectMap::new();
    props.insert("style".to_string(), num(3.0, "3"));
    assert!(style_declarations_from_props(&props).is_empty());
    assert!(style_declarations_from_props(&ObjectMap::new()).is_empty());
}


#[test]
fn grow_texts_of_joined_lists_join() {
    let a = vec![d("flex", "1 1 0"), d("width", "10px")];
    let b = vec![d("flexgrow", " 0 "), d("flex", "none")];
    let both: Vec<(String, String)> = a.iter().chain(b.iter()).cloned().collect();
    let mut joined = scroll_fill_grow_texts(&a);
    joined.extend(scroll_fill_grow_texts(&b));
    assert_eq!(scroll_fill_grow_texts(&both), joined);
    assert_eq!(joined, vec!["1".to_string(), "0".to_string()]);
}
