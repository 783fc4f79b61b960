//! Reading vnodes: their visible text, tags, and the choices the host makes from props
//! (theme palette, input kind, list markers, dropdown items).

use vstd::prelude::*;
use crate::color::{Color, CssColor};
use crate::numeric::{decimal_chars, decimal_spec, i32_spec, parse_i32};
use crate::props::{appearance_spec, props_string, props_string_spec, resolve_appearance};
use crate::decl::FlexDir;
use crate::text::{
    chars_of, eq_lit, lower_seq, split_once, split_once_chars, split_whitespace_chars,
    string_from_chars, to_lower, trim, trim_chars, words,
};
use crate::value::{
    key_index, keys_distinct, lemma_get_decreases, lemma_key_index, visible_text, visible_text_of,
    ObjectMap, Value,
};

verus! {

fn visible_text_chars(children: &[Value]) -> (r: Vec<char>)
    ensures
        r@ == visible_text(children@),
    decreases children@,
{
    let mut out: Vec<char> = Vec::new();
    let mut i: usize = 0;
    while i < children.len()
        invariant
            i <= children@.len(),
            out@ == visible_text(children@.take(i as int)),
        decreases children.len() - i,
    {
        assert(children@.take(i + 1).drop_last() =~= children@.take(i as int));
        assert(decreases_to!(children@ => children@[i as int]));
        let mut t = visible_text_of_chars(&children[i]);
        out.append(&mut t);
        i += 1;
    }
    assert(children@.take(children@.len() as int) =~= children@);
    out
}

fn visible_text_of_chars(v: &Value) -> (r: Vec<char>)
    ensures
        r@ == visible_text_of(*v),
    decreases *v,
{
    match v {
        Value::Str(s) => chars_of(s.as_str()),
        Value::Array(a) => {
            assert(decreases_to!(*v => a@));
            visible_text_chars(a.as_slice())
        },
        Value::Object(o) => {
            let is_text = match o.get("tag") {
                Some(Value::Str(t)) => {
                    let tc = chars_of(t.as_str());
                    eq_lit(&tc, "text")
                },
                _ => false,
            };
            if is_text {
                proof {
                    lemma_get_decreases(*o, "children"@);
                }
                match o.get("children") {
                    Some(Value::Array(a)) => {
                        assert(decreases_to!(*v => a@));
                        visible_text_chars(a.as_slice())
                    },
                    _ => Vec::new(),
                }
            } else {
                Vec::new()
            }
        },
        _ => Vec::new(),
    }
}

/// The visible text of vnode children: strings, nested arrays, and the children of `text`
/// vnodes, concatenated.
pub fn collect_visible_text(children: &[Value]) -> (r: String)
    ensures
        r@ == visible_text(children@),
{
    let t = visible_text_chars(children);
    string_from_chars(&t)
}


/// Colors of the host chrome for one appearance.
#[derive(Clone, Copy, PartialEq, Eq, Debug)]
pub struct ThemePalette {
    pub bg: Color,
    pub fg: Color,
    pub border: Color,
    pub panel: Color,
    pub sidebar: Color,
}

pub open spec fn palette_spec(dark: bool) -> ThemePalette {
    if dark {
        ThemePalette {
            bg: Color::Rgb8(0x1e, 0x22, 0x2a),
            fg: Color::Rgb8(0xe6, 0xe8, 0xef),
            border: Color::Rgb8(0x3a, 0x40, 0x4d),
            panel: Color::Rgb8(0x25, 0x2a, 0x34),
            sidebar: Color::Rgb8(0x17, 0x1a, 0x21),
        }
    } else {
        ThemePalette {
            bg: Color::Rgb8(0xf6, 0xf7, 0xfb),
            fg: Color::Rgb8(0x22, 0x24, 0x2d),
            border: Color::Rgb8(0xd4, 0xd7, 0xe3),
            panel: Color::Css(CssColor::White),
            sidebar: Color::Rgb8(0xef, 0xf0, 0xf6),
        }
    }
}

/// `light` is light, `dark` is dark, anything else follows the OS hint (light without one).
pub open spec fn dark_spec(appearance: Seq<char>, os_dark: Option<bool>) -> bool {
    if appearance == "light"@ {
        false
    } else if appearance == "dark"@ {
        true
    } else {
        match os_dark {
            Some(d) => d,
            None => false,
        }
    }
}

/// The chrome palette for light or dark.
pub fn palette_for_dark(dark: bool) -> (r: ThemePalette)
    ensures
        r == palette_spec(dark),
{
    if dark {
        ThemePalette {
            bg: Color::Rgb8(0x1e, 0x22, 0x2a),
            fg: Color::Rgb8(0xe6, 0xe8, 0xef),
            border: Color::Rgb8(0x3a, 0x40, 0x4d),
            panel: Color::Rgb8(0x25, 0x2a, 0x34),
            sidebar: Color::Rgb8(0x17, 0x1a, 0x21),
        }
    } else {
        ThemePalette {
            bg: Color::Rgb8(0xf6, 0xf7, 0xfb),
            fg: Color::Rgb8(0x22, 0x24, 0x2d),
            border: Color::Rgb8(0xd4, 0xd7, 0xe3),
            panel: Color::Css(CssColor::White),
            sidebar: Color::Rgb8(0xef, 0xf0, 0xf6),
        }
    }
}

/// Whether an appearance renders dark, given the OS dark-mode hint.
pub fn effective_dark_from_appearance(appearance: &str, os_dark: Option<bool>) -> (r: bool)
    ensures
        r == dark_spec(appearance@, os_dark),
{
    let a = chars_of(appearance);
    if eq_lit(&a, "light") {
        false
    } else if eq_lit(&a, "dark") {
        true
    } else {
        match os_dark {
            Some(d) => d,
            None => false,
        }
    }
}

/// Resolved palette for a vnode (honours `ThemeProvider` / `appearance` on the vnode).
pub fn theme_palette_for_vnode(props: &ObjectMap, os_dark: Option<bool>) -> (r: ThemePalette)
    ensures
        r == palette_spec(dark_spec(appearance_spec(*props), os_dark)),
{
    let a = resolve_appearance(props);
    palette_for_dark(effective_dark_from_appearance(a.as_str(), os_dark))
}

/// The platform controls that tags name.
#[derive(Clone, Copy, PartialEq, Eq, Debug)]
pub enum Intrinsic {
    VStack,
    HStack,
    Button,
    Divider,
    Caption,
    TextInput,
    Checkbox,
    Toggle,
    Container,
    ThemeProvider,
    Texteditor,
    Tooltip,
    Svgview,
    Imgdemo,
    Clip,
    Tabpanel,
    Richtext,
}

pub open spec fn intrinsic_spec(t: Seq<char>) -> Option<Intrinsic> {
    if t == "vstack"@ || t == "v-stack"@ || t == "column"@ {
        Some(Intrinsic::VStack)
    } else if t == "hstack"@ || t == "h-stack"@ || t == "row"@ {
        Some(Intrinsic::HStack)
    } else if t == "button"@ {
        Some(Intrinsic::Button)
    } else if t == "divider"@ || t == "separator"@ {
        Some(Intrinsic::Divider)
    } else if t == "caption"@ || t == "subtitle"@ {
        Some(Intrinsic::Caption)
    } else if t == "textinput"@ || t == "text-input"@ {
        Some(Intrinsic::TextInput)
    } else if t == "checkbox"@ {
        Some(Intrinsic::Checkbox)
    } else if t == "toggle"@ || t == "switch"@ {
        Some(Intrinsic::Toggle)
    } else if t == "container"@ || t == "box"@ {
        Some(Intrinsic::Container)
    } else if t == "themeprovider"@ {
        Some(Intrinsic::ThemeProvider)
    } else if t == "texteditor"@ || t == "codeeditor"@ {
        Some(Intrinsic::Texteditor)
    } else if t == "tooltip"@ {
        Some(Intrinsic::Tooltip)
    } else if t == "svgview"@ || t == "svg"@ {
        Some(Intrinsic::Svgview)
    } else if t == "imgdemo"@ {
        Some(Intrinsic::Imgdemo)
    } else if t == "clip"@ {
        Some(Intrinsic::Clip)
    } else if t == "tabpanel"@ {
        Some(Intrinsic::Tabpanel)
    } else if t == "richtext"@ {
        Some(Intrinsic::Richtext)
    } else {
        None
    }
}

/// The intrinsic control a (case-sensitive) tag names.
pub fn intrinsic_for_tag(tag: &str) -> (r: Option<Intrinsic>)
    ensures
        r == intrinsic_spec(tag@),
{
    let t = chars_of(tag);
    if eq_lit(&t, "vstack") || eq_lit(&t, "v-stack") || eq_lit(&t, "column") {
        Some(Intrinsic::VStack)
    } else if eq_lit(&t, "hstack") || eq_lit(&t, "h-stack") || eq_lit(&t, "row") {
        Some(Intrinsic::HStack)
    } else if eq_lit(&t, "button") {
        Some(Intrinsic::Button)
    } else if eq_lit(&t, "divider") || eq_lit(&t, "separator") {
        Some(Intrinsic::Divider)
    } else if eq_lit(&t, "caption") || eq_lit(&t, "subtitle") {
        Some(Intrinsic::Caption)
    } else if eq_lit(&t, "textinput") || eq_lit(&t, "text-input") {
        Some(Intrinsic::TextInput)
    } else if eq_lit(&t, "checkbox") {
        Some(Intrinsic::Checkbox)
    } else if eq_lit(&t, "toggle") || eq_lit(&t, "switch") {
        Some(Intrinsic::Toggle)
    } else if eq_lit(&t, "container") || eq_lit(&t, "box") {
        Some(Intrinsic::Container)
    } else if eq_lit(&t, "themeprovider") {
        Some(Intrinsic::ThemeProvider)
    } else if eq_lit(&t, "texteditor") || eq_lit(&t, "codeeditor") {
        Some(Intrinsic::Texteditor)
    } else if eq_lit(&t, "tooltip") {
        Some(Intrinsic::Tooltip)
    } else if eq_lit(&t, "svgview") || eq_lit(&t, "svg") {
        Some(Intrinsic::Svgview)
    } else if eq_lit(&t, "imgdemo") {
        Some(Intrinsic::Imgdemo)
    } else if eq_lit(&t, "clip") {
        Some(Intrinsic::Clip)
    } else if eq_lit(&t, "tabpanel") {
        Some(Intrinsic::Tabpanel)
    } else if eq_lit(&t, "richtext") {
        Some(Intrinsic::Richtext)
    } else {
        None
    }
}

pub open spec fn heading_spec(t: Seq<char>) -> Option<u8> {
    if t == "h1"@ {
        Some(1)
    } else if t == "h2"@ {
        Some(2)
    } else if t == "h3"@ {
        Some(3)
    } else if t == "h4"@ {
        Some(4)
    } else if t == "h5"@ {
        Some(5)
    } else if t == "h6"@ {
        Some(6)
    } else if t == "title"@ {
        Some(1)
    } else if t == "heading"@ {
        Some(2)
    } else {
        None
    }
}

/// `h1`…`h6`, plus legacy `title` (level 1) and `heading` (level 2).
pub fn heading_level_from_tag(tag: &str) -> (r: Option<u8>)
    ensures
        r == heading_spec(tag@),
{
    let t = chars_of(tag);
    if eq_lit(&t, "h1") {
        Some(1)
    } else if eq_lit(&t, "h2") {
        Some(2)
    } else if eq_lit(&t, "h3") {
        Some(3)
    } else if eq_lit(&t, "h4") {
        Some(4)
    } else if eq_lit(&t, "h5") {
        Some(5)
    } else if eq_lit(&t, "h6") {
        Some(6)
    } else if eq_lit(&t, "title") {
        Some(1)
    } else if eq_lit(&t, "heading") {
        Some(2)
    } else {
        None
    }
}

/// The kinds of `<input>`.
#[derive(Clone, Copy, PartialEq, Eq, Debug)]
pub enum InputKind {
    Radio,
    Range,
    Checkbox,
    Text,
}

/// `type`, trimmed and ASCII lower-cased (empty when missing).
pub open spec fn input_type_spec(props: ObjectMap) -> Seq<char> {
    match props_string_spec(props, seq!["type"]) {
        Some(s) => lower_seq(trim(s)),
        None => Seq::empty(),
    }
}

pub open spec fn input_kind_spec(props: ObjectMap) -> InputKind {
    let t = input_type_spec(props);
    if t == "radio"@ {
        InputKind::Radio
    } else if t == "range"@ {
        InputKind::Range
    } else if t == "checkbox"@ {
        InputKind::Checkbox
    } else {
        InputKind::Text
    }
}

/// The `type` prop of an `<input>`, trimmed and ASCII lower-cased.
pub fn input_type_normalized(props: &ObjectMap) -> (r: String)
    ensures
        r@ == input_type_spec(*props),
{
    let keys: [&str; 1] = ["type"];
    assert(keys@ =~= seq!["type"]);
    match props_string(props, &keys) {
        Some(s) => {
            let c = chars_of(s.as_str());
            let t = trim_chars(&c);
            let l = to_lower(&t);
            string_from_chars(&l)
        },
        None => {
            let e: Vec<char> = Vec::new();
            string_from_chars(&e)
        },
    }
}

/// Which control an `<input>` becomes: radio, range, checkbox, else a text field.
pub fn html_input_kind(props: &ObjectMap) -> (r: InputKind)
    ensures
        r == input_kind_spec(*props),
{
    let t = input_type_normalized(props);
    let c = chars_of(t.as_str());
    if eq_lit(&c, "radio") {
        InputKind::Radio
    } else if eq_lit(&c, "range") {
        InputKind::Range
    } else if eq_lit(&c, "checkbox") {
        InputKind::Checkbox
    } else {
        InputKind::Text
    }
}

/// A button's caption: its visible text, else `label` / `title` / `text`, else `Button`.
pub open spec fn caption_spec(children: Seq<Value>, props: ObjectMap) -> Seq<char> {
    let t = visible_text(children);
    if t.len() > 0 {
        t
    } else {
        match props_string_spec(props, seq!["label", "title", "text"]) {
            Some(s) => s,
            None => "Button"@,
        }
    }
}

/// The caption of a `button`.
pub fn button_caption(children: &[Value], props: &ObjectMap) -> (r: String)
    ensures
        r@ == caption_spec(children@, *props),
{
    let t = collect_visible_text(children);
    if !t.as_str().is_empty() {
        return t;
    }
    let keys: [&str; 3] = ["label", "title", "text"];
    assert(keys@ =~= seq!["label", "title", "text"]);
    match props_string(props, &keys) {
        Some(s) => s,
        None => string_from_chars(&chars_of("Button")),
    }
}


/// The number an `<option>` vnode carries in its `value` prop.
pub open spec fn option_value(c: Value) -> Option<i32> {
    match c {
        Value::Object(o) => match o.get_spec("tag"@) {
            Some(Value::Str(t)) => if t@ == "option"@ {
                match o.get_spec("props"@) {
                    Some(Value::Object(p)) => match props_string_spec(p, seq!["value"]) {
                        Some(s) => i32_spec(s),
                        None => None,
                    },
                    _ => None,
                }
            } else {
                None
            },
            _ => None,
        },
        _ => None,
    }
}

pub open spec fn option_values(vs: Seq<Value>) -> Seq<i32>
    decreases vs.len(),
{
    if vs.len() == 0 {
        Seq::empty()
    } else {
        match option_value(vs.last()) {
            Some(v) => option_values(vs.drop_last()).push(v),
            None => option_values(vs.drop_last()),
        }
    }
}

fn option_value_of(c: &Value) -> (r: Option<i32>)
    ensures
        r == option_value(*c),
{
    match c {
        Value::Object(o) => match o.get("tag") {
            Some(Value::Str(t)) => {
                let tc = chars_of(t.as_str());
                if eq_lit(&tc, "option") {
                    match o.get("props") {
                        Some(Value::Object(p)) => {
                            let keys: [&str; 1] = ["value"];
                            assert(keys@ =~= seq!["value"]);
                            match props_string(p, &keys) {
                                Some(s) => parse_i32(&chars_of(s.as_str())),
                                None => None,
                            }
                        },
                        _ => None,
                    }
                } else {
                    None
                }
            },
            _ => None,
        },
        _ => None,
    }
}

/// The integer values of the `<option>` children of a `<select>`, in order.
pub fn dropdown_options(children: &[Value]) -> (r: Vec<i32>)
    ensures
        r@ == option_values(children@),
{
    let mut out: Vec<i32> = Vec::new();
    let mut i: usize = 0;
    while i < children.len()
        invariant
            i <= children@.len(),
            out@ == option_values(children@.take(i as int)),
        decreases children.len() - i,
    {
        assert(children@.take(i + 1).drop_last() =~= children@.take(i as int));
        match option_value_of(&children[i]) {
            Some(v) => {
                out.push(v);
            },
            None => {},
        }
        i += 1;
    }
    assert(children@.take(children@.len() as int) =~= children@);
    out
}

/// The dropdown items of a `<select>`: its option values, or `1, 2, 3` when there are none.
pub fn select_items(children: &[Value]) -> (r: Vec<i32>)
    ensures
        r@ == (if option_values(children@).len() == 0 {
            seq![1i32, 2i32, 3i32]
        } else {
            option_values(children@)
        }),
{
    let opts = dropdown_options(children);
    if opts.len() == 0 {
        let mut v: Vec<i32> = Vec::new();
        v.push(1);
        v.push(2);
        v.push(3);
        assert(v@ =~= seq![1i32, 2i32, 3i32]);
        v
    } else {
        opts
    }
}

pub open spec fn radio_value_spec(props: ObjectMap) -> i32 {
    match props_string_spec(props, seq!["value"]) {
        Some(s) => match i32_spec(s) {
            Some(v) => v,
            None => 0,
        },
        None => 0,
    }
}

/// The integer a radio button stands for: its `value` prop, else 0.
pub fn radio_value(props: &ObjectMap) -> (r: i32)
    ensures
        r == radio_value_spec(*props),
{
    let keys: [&str; 1] = ["value"];
    assert(keys@ =~= seq!["value"]);
    match props_string(props, &keys) {
        Some(s) => match parse_i32(&chars_of(s.as_str())) {
            Some(v) => v,
            None => 0,
        },
        None => 0,
    }
}

/// Chrome that some HTML elements get from the theme.
#[derive(Clone, Copy, PartialEq, Eq, Debug)]
pub enum HtmlThemedSurface {
    Panel,
    Sidebar,
}

/// A class list naming `panel` or `card` (any ASCII case).
pub open spec fn class_has_panel(cls: Seq<char>) -> bool {
    exists|i: int|
        0 <= i < words(cls).len() && (#[trigger] lower_seq(words(cls)[i]) == "panel"@ || lower_seq(
            words(cls)[i],
        ) == "card"@)
}

/// `<aside>` is sidebar chrome; `<section>` / `<article>` whose `class` / `className` names
/// `panel` or `card` is panel chrome.
pub open spec fn surface_spec(tag: Seq<char>, props: ObjectMap) -> Option<HtmlThemedSurface> {
    let t = lower_seq(tag);
    if t == "aside"@ {
        Some(HtmlThemedSurface::Sidebar)
    } else if t == "section"@ || t == "article"@ {
        match props_string_spec(props, seq!["class", "className"]) {
            Some(cls) => if class_has_panel(cls) {
                Some(HtmlThemedSurface::Panel)
            } else {
                None
            },
            None => None,
        }
    } else {
        None
    }
}

/// The themed chrome of an HTML element, if any.
pub fn html_themed_surface(tag: &str, props: &ObjectMap) -> (r: Option<HtmlThemedSurface>)
    ensures
        r == surface_spec(tag@, *props),
{
    let t = to_lower(&chars_of(tag));
    if eq_lit(&t, "aside") {
        return Some(HtmlThemedSurface::Sidebar);
    }
    if eq_lit(&t, "section") || eq_lit(&t, "article") {
        let keys: [&str; 2] = ["class", "className"];
        assert(keys@ =~= seq!["class", "className"]);
        let cls = match props_string(props, &keys) {
            Some(c) => c,
            None => {
                return None;
            },
        };
        let cc = chars_of(cls.as_str());
        let ws = split_whitespace_chars(&cc);
        let ghost wv = ws@.map_values(|x: Vec<char>| x@);
        assert(wv == words(cc@));
        let mut i: usize = 0;
        while i < ws.len()
            invariant
                i <= ws@.len(),
                wv == ws@.map_values(|x: Vec<char>| x@),
                wv == words(cc@),
                cc@ == cls@,
                props_string_spec(*props, seq!["class", "className"]) == Some(cls@),
                t@ == lower_seq(tag@),
                t@ != "aside"@,
                t@ == "section"@ || t@ == "article"@,
                forall|j: int|
                    0 <= j < i ==> !(#[trigger] lower_seq(words(cc@)[j]) == "panel"@ || lower_seq(
                        words(cc@)[j],
                    ) == "card"@),
            decreases ws.len() - i,
        {
            let w = to_lower(&ws[i]);
            assert(ws@[i as int]@ == wv[i as int]);
            if eq_lit(&w, "panel") || eq_lit(&w, "card") {
                assert(lower_seq(words(cc@)[i as int]) == "panel"@ || lower_seq(words(cc@)[i as int])
                    == "card"@);
                assert(class_has_panel(cls@));
                return Some(HtmlThemedSurface::Panel);
            }
            i += 1;
        }
        return None;
    }
    None
}

pub open spec fn default_direction_spec(tag: Seq<char>) -> FlexDir {
    let t = lower_seq(tag);
    if t == "span"@ || t == "label"@ || t == "nav"@ {
        FlexDir::Row
    } else {
        FlexDir::Column
    }
}

/// `span`, `label` and `nav` lay out in a row; other HTML elements in a column.
pub fn default_direction(tag: &str) -> (r: FlexDir)
    ensures
        r == default_direction_spec(tag@),
{
    let t = to_lower(&chars_of(tag));
    if eq_lit(&t, "span") || eq_lit(&t, "label") || eq_lit(&t, "nav") {
        FlexDir::Row
    } else {
        FlexDir::Column
    }
}

pub open spec fn list_marker_spec(ordered: bool, idx: nat) -> Seq<char> {
    if ordered {
        decimal_spec(idx + 1) + ". "@
    } else {
        "• "@
    }
}

/// The marker of list row `idx`: `1. `, `2. `, … for `<ol>`, a bullet for `<ul>`.
pub fn list_marker(ordered: bool, idx: usize) -> (r: String)
    requires
        idx < usize::MAX,
    ensures
        r@ == list_marker_spec(ordered, idx as nat),
{
    if ordered {
        let mut d = decimal_chars(idx + 1);
        let mut tail = chars_of(". ");
        d.append(&mut tail);
        string_from_chars(&d)
    } else {
        string_from_chars(&chars_of("• "))
    }
}

/// `location.assign(url)`: the element id after `#` (trimmed), when there is a non-empty
/// fragment.
pub open spec fn fragment_spec(args: Seq<Value>) -> Option<Seq<char>> {
    if args.len() >= 1 {
        match args[0] {
            Value::Str(s) => match split_once(s@, '#') {
                Some((_, frag)) => if frag.len() > 0 {
                    Some(trim(frag))
                } else {
                    None
                },
                None => None,
            },
            _ => None,
        }
    } else {
        None
    }
}

/// The element id that `location.assign(url)` scrolls into view.
pub fn location_fragment(args: &[Value]) -> (r: Option<String>)
    ensures
        match r {
            Some(s) => fragment_spec(args@) == Some(s@),
            None => fragment_spec(args@) is None,
        },
{
    if args.len() == 0 {
        return None;
    }
    match &args[0] {
        Value::Str(s) => {
            let c = chars_of(s.as_str());
            match split_once_chars(&c, '#') {
                Some((_, frag)) => {
                    if frag.len() > 0 {
                        Some(string_from_chars(&trim_chars(&frag)))
                    } else {
                        None
                    }
                },
                None => None,
            }
        },
        _ => None,
    }
}

pub open spec fn number_or_zero(v: Option<Value>) -> u64 {
    match v {
        Some(Value::Number(n)) => n.bits,
        _ => 0,
    }
}

/// `window.scrollTo`: `(x, y)`, `({ left, top })` or `(y)`, as `f64` bits (missing parts 0).
pub open spec fn scroll_point_spec(args: Seq<Value>) -> Option<(u64, u64)> {
    if args.len() == 2 {
        Some((number_or_zero(Some(args[0])), number_or_zero(Some(args[1]))))
    } else if args.len() == 1 {
        match args[0] {
            Value::Object(o) => Some(
                (number_or_zero(o.get_spec("left"@)), number_or_zero(o.get_spec("top"@))),
            ),
            Value::Number(n) => Some((0, n.bits)),
            _ => None,
        }
    } else {
        None
    }
}

fn number_bits_or_zero(v: Option<&Value>) -> (r: u64)
    ensures
        r == number_or_zero(
            match v {
                Some(x) => Some(*x),
                None => None,
            },
        ),
{
    match v {
        Some(Value::Number(n)) => n.bits,
        _ => 0,
    }
}

/// The scroll position `window.scrollTo` asks for, as `f64` bits.
pub fn window_scroll_point(args: &[Value]) -> (r: Option<(u64, u64)>)
    ensures
        r == scroll_point_spec(args@),
{
    if args.len() == 2 {
        Some((number_bits_or_zero(Some(&args[0])), number_bits_or_zero(Some(&args[1]))))
    } else if args.len() == 1 {
        match &args[0] {
            Value::Object(o) => Some(
                (number_bits_or_zero(o.get("left")), number_bits_or_zero(o.get("top"))),
            ),
            Value::Number(n) => Some((0, n.bits)),
            _ => None,
        }
    } else {
        None
    }
}

/// How a value renders.
#[derive(Clone, Copy, PartialEq, Eq, Debug)]
pub enum ViewKind {
    /// A string with text after trimming: a label of the trimmed text.
    Label,
    /// An empty label: blank strings, `null` and values the host ignores.
    EmptyLabel,
    /// A fragment: its children stacked.
    Fragment,
    /// A `text` vnode.
    TextVnode,
    /// `div`, `span`, `p` and the other HTML-like elements.
    Html,
    Select,
    Input,
    Heading(u8),
    Intrinsic(Intrinsic),
    /// A tag the host does not know: its name over its children.
    UnknownTag,
    /// An object whose `tag` is not a string.
    BadTag,
    /// An empty array: nothing.
    NoChildren,
    /// A one-element array: that element.
    SingleChild,
    /// A longer array: its elements stacked.
    StackedChildren,
}

pub open spec fn is_html_tag(t: Seq<char>) -> bool {
    ||| t == "div"@
    ||| t == "span"@
    ||| t == "p"@
    ||| t == "section"@
    ||| t == "article"@
    ||| t == "aside"@
    ||| t == "nav"@
    ||| t == "ul"@
    ||| t == "ol"@
    ||| t == "li"@
    ||| t == "label"@
    ||| t == "fieldset"@
}

pub open spec fn tag_kind_spec(t: Seq<char>) -> ViewKind {
    if t == "text"@ {
        ViewKind::TextVnode
    } else if is_html_tag(t) {
        ViewKind::Html
    } else if t == "select"@ {
        ViewKind::Select
    } else if t == "input"@ {
        ViewKind::Input
    } else {
        match heading_spec(t) {
            Some(l) => ViewKind::Heading(l),
            None => match intrinsic_spec(t) {
                Some(k) => ViewKind::Intrinsic(k),
                None => ViewKind::UnknownTag,
            },
        }
    }
}

/// How a value renders, `fragment_tag` being the tag of fragments.
pub open spec fn view_kind_spec(v: Value, fragment_tag: Seq<char>) -> ViewKind {
    match v {
        Value::Str(s) => if trim(s@).len() == 0 {
            ViewKind::EmptyLabel
        } else {
            ViewKind::Label
        },
        Value::Object(o) => match o.get_spec("tag"@) {
            Some(Value::Str(t)) => if t@ == fragment_tag {
                ViewKind::Fragment
            } else {
                tag_kind_spec(t@)
            },
            _ => ViewKind::BadTag,
        },
        Value::Array(a) => if a@.len() == 0 {
            ViewKind::NoChildren
        } else if a@.len() == 1 {
            ViewKind::SingleChild
        } else {
            ViewKind::StackedChildren
        },
        _ => ViewKind::EmptyLabel,
    }
}

fn is_html_tag_chars(t: &[char]) -> (r: bool)
    ensures
        r == is_html_tag(t@),
{
    eq_lit(t, "div") || eq_lit(t, "span") || eq_lit(t, "p") || eq_lit(t, "section") || eq_lit(
        t,
        "article",
    ) || eq_lit(t, "aside") || eq_lit(t, "nav") || eq_lit(t, "ul") || eq_lit(t, "ol") || eq_lit(
        t,
        "li",
    ) || eq_lit(t, "label") || eq_lit(t, "fieldset")
}

/// How a tag renders (fragments aside).
pub fn tag_kind(tag: &str) -> (r: ViewKind)
    ensures
        r == tag_kind_spec(tag@),
{
    let t = chars_of(tag);
    if eq_lit(&t, "text") {
        ViewKind::TextVnode
    } else if is_html_tag_chars(&t) {
        ViewKind::Html
    } else if eq_lit(&t, "select") {
        ViewKind::Select
    } else if eq_lit(&t, "input") {
        ViewKind::Input
    } else {
        match heading_level_from_tag(tag) {
            Some(l) => ViewKind::Heading(l),
            None => match intrinsic_for_tag(tag) {
                Some(k) => ViewKind::Intrinsic(k),
                None => ViewKind::UnknownTag,
            },
        }
    }
}

/// The tag that marks fragment vnodes: `tishlang_ui::FRAGMENT_SENTINEL`.
pub open spec fn fragment_sentinel() -> Seq<char> {
    "__tish_ui_Fragment__"@
}

/// The UI runtime's fragment tag.
///
/// Trusted: returns the constant `tishlang_ui::FRAGMENT_SENTINEL`; the contract claims the value
/// that the crate's source gives it, `"__tish_ui_Fragment__"`.
#[verifier::external_body]
fn fragment_tag() -> (r: &'static str)
    ensures
        r@ == fragment_sentinel(),
{
    tishlang_ui::FRAGMENT_SENTINEL
}

/// How a value renders; fragments are the vnodes tagged with the UI runtime's fragment tag.
pub fn view_kind(v: &Value) -> (r: ViewKind)
    ensures
        r == view_kind_spec(*v, fragment_sentinel()),
{
    let fragment_tag = fragment_tag();
    match v {
        Value::Str(s) => {
            let t = trim_chars(&chars_of(s.as_str()));
            if t.len() == 0 {
                ViewKind::EmptyLabel
            } else {
                ViewKind::Label
            }
        },
        Value::Object(o) => match o.get("tag") {
            Some(Value::Str(t)) => {
                let tc = chars_of(t.as_str());
                let fc = chars_of(fragment_tag);
                if crate::text::chars_eq(&tc, &fc) {
                    ViewKind::Fragment
                } else {
                    tag_kind(t.as_str())
                }
            },
            _ => ViewKind::BadTag,
        },
        Value::Array(a) => {
            if a.len() == 0 {
                ViewKind::NoChildren
            } else if a.len() == 1 {
                ViewKind::SingleChild
            } else {
                ViewKind::StackedChildren
            }
        },
        _ => ViewKind::EmptyLabel,
    }
}

/// How a component call `(props)` becomes the vnode `{ tag, props, children }`: the positions
/// of the props entries that stay props (all but `children`), and the position of a
/// `children` entry that holds an array.
#[derive(Clone, PartialEq, Eq, Debug)]
pub struct ComponentPlan {
    pub props: Vec<usize>,
    pub children: Option<usize>,
}

/// Positions of the entries whose key is not `children`, in order.
pub open spec fn kept_positions(e: Seq<(String, Value)>) -> Seq<usize>
    decreases e.len(),
{
    if e.len() == 0 {
        Seq::empty()
    } else if e.last().0@ == "children"@ {
        kept_positions(e.drop_last())
    } else {
        kept_positions(e.drop_last()).push((e.len() - 1) as usize)
    }
}

/// Position of the `children` entry when it holds an array.
pub open spec fn children_position(e: Seq<(String, Value)>) -> Option<usize> {
    match key_index(e, "children"@) {
        Some(i) => if e[i].1 is Array {
            Some(i as usize)
        } else {
            None
        },
        None => None,
    }
}

/// The plan of a component call: `None` unless the first argument is an object.
pub open spec fn component_plan_spec(args: Seq<Value>) -> Option<(Seq<usize>, Option<usize>)> {
    if args.len() >= 1 {
        match args[0] {
            Value::Object(o) => Some(
                (kept_positions(o.entries_seq()), children_position(o.entries_seq())),
            ),
            _ => None,
        }
    } else {
        None
    }
}

proof fn lemma_key_index_take(e: Seq<(String, Value)>, k: Seq<char>, i: int)
    requires
        0 <= i < e.len(),
    ensures
        key_index(e.take(i + 1), k) == match key_index(e.take(i), k) {
            Some(j) => Some(j),
            None => if e[i].0@ == k {
                Some(i)
            } else {
                None
            },
        },
{
    let a = e.take(i);
    let b = e.take(i + 1);
    lemma_key_index(a, k);
    lemma_key_index(b, k);
    assert forall|j: int| 0 <= j < i implies b[j] == a[j] by {}
    assert(b[i] == e[i]);
    match key_index(b, k) {
        Some(x) => {
            match key_index(a, k) {
                Some(y) => {
                    if x < y {
                        assert(b[x] == a[x]);
                    } else if y < x {
                        assert(b[y] == a[y]);
                    }
                },
                None => {
                    if x < i {
                        assert(b[x] == a[x]);
                    }
                },
            }
        },
        None => {
            match key_index(a, k) {
                Some(y) => {
                    assert(b[y] == a[y]);
                },
                None => {},
            }
        },
    }
}

/// What a component call makes of its props: which entries stay props and where the children
/// come from; `None` unless the first argument is an object.
pub fn component_plan(args: &[Value]) -> (r: Option<ComponentPlan>)
    ensures
        match component_plan_spec(args@) {
            Some((kept, ch)) => r matches Some(p) && p.props@ == kept && p.children == ch,
            None => r is None,
        },
{
    if args.len() == 0 {
        return None;
    }
    let o = match &args[0] {
        Value::Object(o) => o,
        _ => {
            return None;
        },
    };
    let ghost e = o.entries_seq();
    let n = o.len();
    let mut props: Vec<usize> = Vec::new();
    let mut children: Option<usize> = None;
    let mut i: usize = 0;
    while i < n
        invariant
            n == e.len(),
            e == o.entries_seq(),
            keys_distinct(e),
            i <= n,
            props@ == kept_positions(e.take(i as int)),
            children == match key_index(e.take(i as int), "children"@) {
                Some(j) => if e[j].1 is Array {
                    Some(j as usize)
                } else {
                    None
                },
                None => None,
            },
            match key_index(e.take(i as int), "children"@) {
                Some(j) => 0 <= j < i,
                None => true,
            },
        decreases n - i,
    {
        proof {
            lemma_key_index_take(e, "children"@, i as int);
            lemma_key_index(e.take(i as int), "children"@);
            assert(e.take(i + 1).drop_last() =~= e.take(i as int));
            assert(e.take(i + 1).last() == e[i as int]);
        }
        let entry = o.entry(i);
        let k = chars_of(entry.0.as_str());
        if eq_lit(&k, "children") {
            if let Value::Array(_) = &entry.1 {
                children = Some(i);
            }
        } else {
            props.push(i);
        }
        i += 1;
    }
    assert(e.take(n as int) =~= e);
    Some(ComponentPlan { props, children })
}

} // verus!
