//! Styles and texts of the platform controls: stacks, buttons, dividers, containers, text
//! inputs, checkboxes and tooltips.

use vstd::prelude::*;
use crate::color::{Color, CssColor};
use crate::decl::style_decls_spec;
use crate::element::{push_op, style_of};
use crate::props::{
    appearance_spec, props_bool, props_bool_spec, props_f64, props_number_spec, props_string,
    props_string_spec,
};
use crate::style::{
    decls_ops, decls_panic, lit, merge_style_from_props, Align, Length, Number, Style, StyleOp,
};
use crate::text::{chars_of, contains_seq, find_lit, first_at, string_from_chars};
use crate::color::{byte_len, byte_offset};
use crate::value::{visible_text, ObjectMap, Value};
use crate::vnode::{
    collect_visible_text, dark_spec, effective_dark_from_appearance, palette_for_dark, palette_spec,
    theme_palette_for_vnode, ThemePalette,
};
use crate::props::resolve_appearance;

verus! {

/// An `f64` bit pattern of a number greater than zero (positive, finite or infinite, not NaN).
pub open spec fn bits_positive(b: u64) -> bool {
    0 < b && b <= 0x7ff0_0000_0000_0000
}

pub open spec fn stack_size_ops(props: ObjectMap) -> Seq<StyleOp<Seq<char>>> {
    let w = props_number_spec(props, seq!["width", "widthPx"], 0);
    let mw = props_number_spec(props, seq!["maxWidth", "max_width"], 0);
    let fg = props_number_spec(props, seq!["flexGrow", "flex_grow"], 0);
    let mh = props_number_spec(props, seq!["minHeight", "min_height"], 0);
    (if bits_positive(w) {
        seq![StyleOp::Width(Length::PxBits(w))]
    } else {
        Seq::empty()
    }) + (if bits_positive(mw) {
        seq![StyleOp::MaxWidth(Length::PxBits(mw))]
    } else {
        Seq::empty()
    }) + (if bits_positive(fg) {
        seq![
            StyleOp::FlexGrowBits(fg),
            StyleOp::FlexBasis(Length::Px("0"@)),
            StyleOp::MinWidth(Length::Px("0"@)),
            StyleOp::MinHeight(Length::Px("0"@)),
        ]
    } else {
        Seq::empty()
    }) + (if bits_positive(mh) {
        seq![StyleOp::MinHeight(Length::PxBits(mh))]
    } else {
        Seq::empty()
    }) + (if props_bool_spec(props, seq!["fillHeight", "fill_height"]) {
        seq![StyleOp::HeightFull, StyleOp::MinHeight(Length::Px("0"@))]
    } else {
        Seq::empty()
    })
}

fn positive(b: u64) -> (r: bool)
    ensures
        r == bits_positive(b),
{
    0 < b && b <= 0x7ff0_0000_0000_0000u64
}

/// Sizing props of a stack: `width`, `maxWidth`, `flexGrow` (with basis and minimums 0),
/// `minHeight` when greater than zero, and `fillHeight`.
pub fn apply_stack_style(s: Style, props: &ObjectMap) -> (r: Style)
    ensures
        r@ == s@ + stack_size_ops(*props),
{
    let mut s = s;
    let ghost s0 = s@;
    let k1: [&str; 2] = ["width", "widthPx"];
    assert(k1@ =~= seq!["width", "widthPx"]);
    let w = props_f64(props, &k1, 0);
    if positive(w) {
        push_op(&mut s, StyleOp::Width(Length::PxBits(w)));
    }
    let k2: [&str; 2] = ["maxWidth", "max_width"];
    assert(k2@ =~= seq!["maxWidth", "max_width"]);
    let mw = props_f64(props, &k2, 0);
    if positive(mw) {
        push_op(&mut s, StyleOp::MaxWidth(Length::PxBits(mw)));
    }
    let k3: [&str; 2] = ["flexGrow", "flex_grow"];
    assert(k3@ =~= seq!["flexGrow", "flex_grow"]);
    let fg = props_f64(props, &k3, 0);
    if positive(fg) {
        push_op(&mut s, StyleOp::FlexGrowBits(fg));
        push_op(&mut s, StyleOp::FlexBasis(Length::Px(lit("0"))));
        push_op(&mut s, StyleOp::MinWidth(Length::Px(lit("0"))));
        push_op(&mut s, StyleOp::MinHeight(Length::Px(lit("0"))));
    }
    let k4: [&str; 2] = ["minHeight", "min_height"];
    assert(k4@ =~= seq!["minHeight", "min_height"]);
    let mh = props_f64(props, &k4, 0);
    if positive(mh) {
        push_op(&mut s, StyleOp::MinHeight(Length::PxBits(mh)));
    }
    let k5: [&str; 2] = ["fillHeight", "fill_height"];
    assert(k5@ =~= seq!["fillHeight", "fill_height"]);
    if props_bool(props, &k5) {
        push_op(&mut s, StyleOp::HeightFull);
        push_op(&mut s, StyleOp::MinHeight(Length::Px(lit("0"))));
    }
    assert(s@ =~= s0 + stack_size_ops(*props));
    s
}

pub open spec fn stack_ops(horizontal: bool, props: ObjectMap) -> Seq<StyleOp<Seq<char>>> {
    (if horizontal {
        seq![StyleOp::WidthFull, StyleOp::AlignItems(Align::Stretch), StyleOp::JustifyStart]
    } else {
        seq![StyleOp::WidthFull, StyleOp::ItemsStart, StyleOp::JustifyStart]
    }) + stack_size_ops(props) + decls_ops(style_decls_spec(props))
}

/// Style of a `vstack` / `hstack`: full width from the start (an `hstack` stretches its
/// children), the sizing props, then the `style` prop.
pub fn stack_style(horizontal: bool, props: &ObjectMap) -> (r: Style)
    requires
        !decls_panic(style_decls_spec(*props)),
    ensures
        r@ == stack_ops(horizontal, *props),
{
    let mut s = style_of(Vec::new());
    push_op(&mut s, StyleOp::WidthFull);
    if horizontal {
        push_op(&mut s, StyleOp::AlignItems(Align::Stretch));
    } else {
        push_op(&mut s, StyleOp::ItemsStart);
    }
    push_op(&mut s, StyleOp::JustifyStart);
    let s = apply_stack_style(s, props);
    let s = merge_style_from_props(s, props);
    assert(s@ =~= stack_ops(horizontal, *props));
    s
}

pub open spec fn button_label_ops(props: ObjectMap, os_dark: Option<bool>) -> Seq<StyleOp<Seq<char>>> {
    let pal = palette_spec(dark_spec(appearance_spec(props), os_dark));
    seq![StyleOp::FontSize("14"@), StyleOp::FontBold, StyleOp::TextColor(pal.fg)] + decls_ops(
        style_decls_spec(props),
    )
}

/// Style of a button's label: 14 px bold in the theme's text color, then the `style` prop.
pub fn button_label_style(props: &ObjectMap, os_dark: Option<bool>) -> (r: Style)
    requires
        !decls_panic(style_decls_spec(*props)),
    ensures
        r@ == button_label_ops(*props, os_dark),
{
    let pal = theme_palette_for_vnode(props, os_dark);
    let mut s = style_of(Vec::new());
    push_op(&mut s, StyleOp::FontSize(lit("14")));
    push_op(&mut s, StyleOp::FontBold);
    push_op(&mut s, StyleOp::TextColor(pal.fg));
    let s = merge_style_from_props(s, props);
    assert(s@ =~= button_label_ops(*props, os_dark));
    s
}

pub open spec fn divider_ops(props: ObjectMap, os_dark: Option<bool>) -> Seq<StyleOp<Seq<char>>> {
    let c = if dark_spec(appearance_spec(props), os_dark) {
        Color::Rgb8(0x45, 0x4d, 0x5c)
    } else {
        Color::Rgb8(200, 200, 210)
    };
    seq![StyleOp::Height(Length::Px("1"@)), StyleOp::WidthFull, StyleOp::Background(c)] + decls_ops(
        style_decls_spec(props),
    )
}

/// Style of a divider: a full-width 1 px line, darker in dark mode, then the `style` prop.
pub fn divider_style(props: &ObjectMap, os_dark: Option<bool>) -> (r: Style)
    requires
        !decls_panic(style_decls_spec(*props)),
    ensures
        r@ == divider_ops(*props, os_dark),
{
    let a = resolve_appearance(props);
    let dark = effective_dark_from_appearance(a.as_str(), os_dark);
    let c = if dark {
        Color::Rgb8(0x45, 0x4d, 0x5c)
    } else {
        Color::Rgb8(200, 200, 210)
    };
    let mut s = style_of(Vec::new());
    push_op(&mut s, StyleOp::Height(Length::Px(lit("1"))));
    push_op(&mut s, StyleOp::WidthFull);
    push_op(&mut s, StyleOp::Background(c));
    let s = merge_style_from_props(s, props);
    assert(s@ =~= divider_ops(*props, os_dark));
    s
}

pub open spec fn text_input_ops(props: ObjectMap, os_dark: Option<bool>) -> Seq<StyleOp<Seq<char>>> {
    let p = palette_spec(dark_spec(appearance_spec(props), os_dark));
    seq![
        StyleOp::WidthFull,
        StyleOp::MaxWidth(Length::Px("400"@)),
        StyleOp::PaddingHoriz(Length::Px("12"@)),
        StyleOp::PaddingVert(Length::Px("8"@)),
        StyleOp::Border("1"@),
        StyleOp::BorderColor(p.border),
        StyleOp::BorderRadius(Length::Px("6"@)),
        StyleOp::Background(p.bg),
        StyleOp::TextColor(p.fg),
    ] + decls_ops(style_decls_spec(props))
}

/// Style of a text field: full width up to 400 px, padded, with a rounded border in the theme's
/// colors, then the `style` prop.
pub fn text_input_style(props: &ObjectMap, os_dark: Option<bool>) -> (r: Style)
    requires
        !decls_panic(style_decls_spec(*props)),
    ensures
        r@ == text_input_ops(*props, os_dark),
{
    let a = resolve_appearance(props);
    let p = palette_for_dark(effective_dark_from_appearance(a.as_str(), os_dark));
    let mut s = style_of(Vec::new());
    push_op(&mut s, StyleOp::WidthFull);
    push_op(&mut s, StyleOp::MaxWidth(Length::Px(lit("400"))));
    push_op(&mut s, StyleOp::PaddingHoriz(Length::Px(lit("12"))));
    push_op(&mut s, StyleOp::PaddingVert(Length::Px(lit("8"))));
    push_op(&mut s, StyleOp::Border(lit("1")));
    push_op(&mut s, StyleOp::BorderColor(p.border));
    push_op(&mut s, StyleOp::BorderRadius(Length::Px(lit("6"))));
    push_op(&mut s, StyleOp::Background(p.bg));
    push_op(&mut s, StyleOp::TextColor(p.fg));
    let s = merge_style_from_props(s, props);
    assert(s@ =~= text_input_ops(*props, os_dark));
    s
}

pub open spec fn container_ops(props: ObjectMap) -> Seq<StyleOp<Seq<char>>> {
    seq![StyleOp::WidthFull] + decls_ops(style_decls_spec(props))
}

/// Style of a `container`: full width, then the `style` prop.
pub fn container_style(props: &ObjectMap) -> (r: Style)
    requires
        !decls_panic(style_decls_spec(*props)),
    ensures
        r@ == container_ops(*props),
{
    let mut s = style_of(Vec::new());
    push_op(&mut s, StyleOp::WidthFull);
    let s = merge_style_from_props(s, props);
    assert(s@ =~= container_ops(*props));
    s
}

/// The first string of `keys`, else `fallback`.
pub open spec fn string_or(props: ObjectMap, keys: Seq<&str>, fallback: Seq<char>) -> Seq<char> {
    match props_string_spec(props, keys) {
        Some(s) => s,
        None => fallback,
    }
}

/// The initial text of a text field: `value` / `defaultValue` / `default`, else empty.
pub fn text_input_initial(props: &ObjectMap) -> (r: String)
    ensures
        r@ == string_or(*props, seq!["value", "defaultValue", "default"], Seq::empty()),
{
    let keys: [&str; 3] = ["value", "defaultValue", "default"];
    assert(keys@ =~= seq!["value", "defaultValue", "default"]);
    match props_string(props, &keys) {
        Some(s) => s,
        None => string_from_chars(&Vec::new()),
    }
}

/// The placeholder of a text field: `placeholder` / `hint`, else empty (none shown).
pub fn text_input_placeholder(props: &ObjectMap) -> (r: String)
    ensures
        r@ == string_or(*props, seq!["placeholder", "hint"], Seq::empty()),
{
    let keys: [&str; 2] = ["placeholder", "hint"];
    assert(keys@ =~= seq!["placeholder", "hint"]);
    match props_string(props, &keys) {
        Some(s) => s,
        None => string_from_chars(&Vec::new()),
    }
}

/// The label of a `checkbox`: its visible text, else `Checkbox`.
pub fn checkbox_label(children: &[Value]) -> (r: String)
    ensures
        r@ == (if visible_text(children@).len() == 0 {
            "Checkbox"@
        } else {
            visible_text(children@)
        }),
{
    let t = collect_visible_text(children);
    if t.as_str().is_empty() {
        string_from_chars(&chars_of("Checkbox"))
    } else {
        t
    }
}

/// The text of a `tooltip`: `tip` / `title` / `label`, else `Tooltip`.
pub fn tooltip_text(props: &ObjectMap) -> (r: String)
    ensures
        r@ == string_or(*props, seq!["tip", "title", "label"], "Tooltip"@),
{
    let keys: [&str; 3] = ["tip", "title", "label"];
    assert(keys@ =~= seq!["tip", "title", "label"]);
    match props_string(props, &keys) {
        Some(s) => s,
        None => string_from_chars(&chars_of("Tooltip")),
    }
}

/// A list row's body: the children of an `li` vnode (tag in any ASCII case), else the row
/// value itself.
pub open spec fn unwraps_li(c: Value) -> bool {
    c matches Value::Object(o) && (o.get_spec("tag"@) matches Some(Value::Str(t))
        && crate::text::eq_ic(t@, "li"@))
}

/// Whether a list row is an `li` whose children become the row.
pub fn list_item_unwraps(c: &Value) -> (r: bool)
    ensures
        r == unwraps_li(*c),
{
    match c {
        Value::Object(o) => match o.get("tag") {
            Some(Value::Str(t)) => crate::text::eq_ic_lit(&chars_of(t.as_str()), "li"),
            _ => false,
        },
        _ => false,
    }
}

/// The colors of the rich-text sample: body text and the highlighted span.
#[derive(Clone, Copy, PartialEq, Eq, Debug)]
pub struct RichTextColors {
    pub base: Color,
    pub highlight: Color,
}

pub open spec fn richtext_colors_spec(os_dark: Option<bool>) -> RichTextColors {
    let dark = match os_dark {
        Some(d) => d,
        None => false,
    };
    if dark {
        RichTextColors { base: Color::Rgb8(0xc0, 0xc6, 0xd4), highlight: Color::Rgb8(0x7d, 0xae, 0xff) }
    } else {
        RichTextColors { base: Color::Rgb8(0x33, 0x36, 0x3f), highlight: Color::Rgb8(0x1d, 0x4e, 0xd8) }
    }
}

/// The rich-text sample's colors follow the window's dark mode (light until it is known).
pub fn richtext_colors(os_dark: Option<bool>) -> (r: RichTextColors)
    ensures
        r == richtext_colors_spec(os_dark),
{
    let dark = match os_dark {
        Some(d) => d,
        None => false,
    };
    if dark {
        RichTextColors { base: Color::Rgb8(0xc0, 0xc6, 0xd4), highlight: Color::Rgb8(0x7d, 0xae, 0xff) }
    } else {
        RichTextColors { base: Color::Rgb8(0x33, 0x36, 0x3f), highlight: Color::Rgb8(0x1d, 0x4e, 0xd8) }
    }
}

/// The text of the rich-text sample.
pub open spec fn richtext_sample_text() -> Seq<char> {
    "Rich text with a highlighted span."@
}

/// The word of the sample that is highlighted.
pub open spec fn richtext_highlight_word() -> Seq<char> {
    "highlighted"@
}

/// The rich-text sample: its text, and the byte range of the first occurrence of the highlighted
/// word in it (what `str::find` and the word's length give), if the word occurs.
pub fn richtext_sample() -> (r: (&'static str, Option<(usize, usize)>))
    ensures
        r.0@ == richtext_sample_text(),
        match r.1 {
            Some((a, b)) => exists|i: int|
                first_at(richtext_sample_text(), richtext_highlight_word(), i) && a == byte_len(
                    richtext_sample_text().take(i),
                ) && b == byte_len(richtext_sample_text().take(i + richtext_highlight_word().len())),
            None => !contains_seq(richtext_sample_text(), richtext_highlight_word()),
        },
{
    let text = "Rich text with a highlighted span.";
    let word = "highlighted";
    let c = chars_of(text);
    let w = chars_of(word);
    proof {
        reveal_strlit("Rich text with a highlighted span.");
    }
    match find_lit(&c, word) {
        Some(i) => {
            assert(first_at(richtext_sample_text(), richtext_highlight_word(), i as int));
            let a = byte_offset(&c, i);
            let b = byte_offset(&c, i + w.len());
            (text, Some((a, b)))
        },
        None => (text, None),
    }
}

fn empty_style() -> (r: Style)
    ensures
        r@ == Seq::<StyleOp<Seq<char>>>::empty(),
{
    let r = style_of(Vec::new());
    assert(r@ =~= Seq::<StyleOp<Seq<char>>>::empty());
    r
}

/// Style of a `caption`: 12 px gray text.
pub fn caption_style() -> (r: Style)
    ensures
        r@ == seq![StyleOp::FontSize("12"@), StyleOp::TextColor(Color::Css(CssColor::Gray))],
{
    let mut s = empty_style();
    push_op(&mut s, StyleOp::FontSize(lit("12")));
    push_op(&mut s, StyleOp::TextColor(Color::Css(CssColor::Gray)));
    s
}

/// Style of the name label over the children of a tag the host does not know: 11 px gray.
pub fn unknown_tag_label_style() -> (r: Style)
    ensures
        r@ == seq![StyleOp::FontSize("11"@), StyleOp::TextColor(Color::Css(CssColor::Gray))],
{
    let mut s = empty_style();
    push_op(&mut s, StyleOp::FontSize(lit("11")));
    push_op(&mut s, StyleOp::TextColor(Color::Css(CssColor::Gray)));
    s
}

/// The palette for an inherited appearance (`system` when none is inherited).
pub open spec fn inherited_palette(appearance: Option<Seq<char>>, os_dark: Option<bool>) -> ThemePalette {
    palette_spec(
        dark_spec(
            match appearance {
                Some(a) => a,
                None => "system"@,
            },
            os_dark,
        ),
    )
}

/// Style of a string child: 14 px in the text color of the appearance it inherits.
pub fn value_label_style(appearance: Option<&str>, os_dark: Option<bool>) -> (r: Style)
    ensures
        r@ == seq![
            StyleOp::FontSize("14"@),
            StyleOp::TextColor(
                inherited_palette(
                    match appearance {
                        Some(a) => Some(a@),
                        None => None,
                    },
                    os_dark,
                ).fg,
            ),
        ],
{
    let a = match appearance {
        Some(a) => a,
        None => "system",
    };
    proof {
        reveal_strlit("system");
    }
    let p = palette_for_dark(effective_dark_from_appearance(a, os_dark));
    let mut s = empty_style();
    push_op(&mut s, StyleOp::FontSize(lit("14")));
    push_op(&mut s, StyleOp::TextColor(p.fg));
    s
}

/// Style of stacked children: full width, from the start on both axes.
pub fn stacked_children_style() -> (r: Style)
    ensures
        r@ == seq![StyleOp::<Seq<char>>::WidthFull, StyleOp::ItemsStart, StyleOp::JustifyStart],
{
    let mut s = empty_style();
    push_op(&mut s, StyleOp::WidthFull);
    push_op(&mut s, StyleOp::ItemsStart);
    push_op(&mut s, StyleOp::JustifyStart);
    s
}

/// Style of a hidden placeholder (`display: none`, an inactive tab panel).
pub fn hidden_style() -> (r: Style)
    ensures
        r@ == seq![StyleOp::<Seq<char>>::Hide],
{
    let mut s = empty_style();
    push_op(&mut s, StyleOp::Hide);
    s
}

/// Style of the full-width container that carries an element id for scrolling into view.
pub fn anchor_style() -> (r: Style)
    ensures
        r@ == seq![StyleOp::<Seq<char>>::WidthFull],
{
    let mut s = empty_style();
    push_op(&mut s, StyleOp::WidthFull);
    s
}

/// Style of a list row's marker: at least 22 px wide.
pub fn list_marker_style() -> (r: Style)
    ensures
        r@ == seq![StyleOp::MinWidth(Length::Px("22"@))],
{
    let mut s = empty_style();
    push_op(&mut s, StyleOp::MinWidth(Length::Px(lit("22"))));
    s
}

/// Style of a list row: marker and body aligned at the top.
pub fn list_row_style() -> (r: Style)
    ensures
        r@ == seq![StyleOp::<Seq<char>>::ItemsStart],
{
    let mut s = empty_style();
    push_op(&mut s, StyleOp::ItemsStart);
    s
}

/// Style of a `ThemeProvider`: a column that fills its parent.
pub fn theme_provider_style() -> (r: Style)
    ensures
        r@ == seq![StyleOp::<Seq<char>>::SizeFull, StyleOp::FlexCol],
{
    let mut s = empty_style();
    push_op(&mut s, StyleOp::SizeFull);
    push_op(&mut s, StyleOp::FlexCol);
    s
}

/// Style of the stack of several children under a `ThemeProvider`: it fills the provider.
pub fn theme_provider_stack_style() -> (r: Style)
    ensures
        r@ == seq![StyleOp::<Seq<char>>::SizeFull],
{
    let mut s = empty_style();
    push_op(&mut s, StyleOp::SizeFull);
    s
}

/// Style of a `<select>` dropdown: full width up to 240 px, in the theme's text color.
pub fn select_style(props: &ObjectMap, os_dark: Option<bool>) -> (r: Style)
    ensures
        r@ == seq![
            StyleOp::WidthFull,
            StyleOp::MaxWidth(Length::Px("240"@)),
            StyleOp::TextColor(palette_spec(dark_spec(appearance_spec(*props), os_dark)).fg),
        ],
{
    let a = resolve_appearance(props);
    let p = palette_for_dark(effective_dark_from_appearance(a.as_str(), os_dark));
    let mut s = empty_style();
    push_op(&mut s, StyleOp::WidthFull);
    push_op(&mut s, StyleOp::MaxWidth(Length::Px(lit("240"))));
    push_op(&mut s, StyleOp::TextColor(p.fg));
    s
}

/// Style of a `texteditor`: full width up to 640 px, at least 200 px high, with a rounded
/// border in the theme's border color.
pub fn texteditor_style(props: &ObjectMap, os_dark: Option<bool>) -> (r: Style)
    ensures
        r@ == seq![
            StyleOp::WidthFull,
            StyleOp::MaxWidth(Length::Px("640"@)),
            StyleOp::MinHeight(Length::Px("200"@)),
            StyleOp::Border("1"@),
            StyleOp::BorderColor(palette_spec(dark_spec(appearance_spec(*props), os_dark)).border),
            StyleOp::BorderRadius(Length::Px("8"@)),
        ],
{
    let a = resolve_appearance(props);
    let p = palette_for_dark(effective_dark_from_appearance(a.as_str(), os_dark));
    let mut s = empty_style();
    push_op(&mut s, StyleOp::WidthFull);
    push_op(&mut s, StyleOp::MaxWidth(Length::Px(lit("640"))));
    push_op(&mut s, StyleOp::MinHeight(Length::Px(lit("200"))));
    push_op(&mut s, StyleOp::Border(lit("1")));
    push_op(&mut s, StyleOp::BorderColor(p.border));
    push_op(&mut s, StyleOp::BorderRadius(Length::Px(lit("8"))));
    s
}

/// Style of a tooltip's text: padded 8 px, 13 px text.
pub fn tooltip_label_style() -> (r: Style)
    ensures
        r@ == seq![StyleOp::Padding(Length::Px("8"@)), StyleOp::FontSize("13"@)],
{
    let mut s = empty_style();
    push_op(&mut s, StyleOp::Padding(Length::Px(lit("8"))));
    push_op(&mut s, StyleOp::FontSize(lit("13")));
    s
}

/// Style of the content inside a `clip`, and of an active tab panel's body padding: 8 px.
pub fn clip_content_style() -> (r: Style)
    ensures
        r@ == seq![StyleOp::Padding(Length::Px("8"@))],
{
    let mut s = empty_style();
    push_op(&mut s, StyleOp::Padding(Length::Px(lit("8"))));
    s
}

/// Style of a `clip`: full width up to 320 px, 48 px high, with a 1 px border.
pub fn clip_style() -> (r: Style)
    ensures
        r@ == seq![
            StyleOp::WidthFull,
            StyleOp::MaxWidth(Length::Px("320"@)),
            StyleOp::Height(Length::Px("48"@)),
            StyleOp::Border("1"@),
        ],
{
    let mut s = empty_style();
    push_op(&mut s, StyleOp::WidthFull);
    push_op(&mut s, StyleOp::MaxWidth(Length::Px(lit("320"))));
    push_op(&mut s, StyleOp::Height(Length::Px(lit("48"))));
    push_op(&mut s, StyleOp::Border(lit("1")));
    s
}

/// Style of an active tab panel: full width, padded 8 px.
pub fn tabpanel_style() -> (r: Style)
    ensures
        r@ == seq![StyleOp::WidthFull, StyleOp::Padding(Length::Px("8"@))],
{
    let mut s = empty_style();
    push_op(&mut s, StyleOp::WidthFull);
    push_op(&mut s, StyleOp::Padding(Length::Px(lit("8"))));
    s
}

/// Style of the rich-text sample: 6 px above it.
pub fn richtext_style() -> (r: Style)
    ensures
        r@ == seq![StyleOp::MarginTop(Length::Px("6"@))],
{
    let mut s = empty_style();
    push_op(&mut s, StyleOp::MarginTop(Length::Px(lit("6"))));
    s
}

/// Style of a range slider: it grows from a zero basis, 120 to 420 px wide, with 6 px above
/// and below.
pub fn slider_style() -> (r: Style)
    ensures
        r@ == seq![
            StyleOp::FlexGrow(Number::Text("1"@)),
            StyleOp::FlexBasis(Length::Px("0"@)),
            StyleOp::MinWidth(Length::Px("120"@)),
            StyleOp::MaxWidth(Length::Px("420"@)),
            StyleOp::MarginVert(Length::Px("6"@)),
        ],
{
    let mut s = empty_style();
    push_op(&mut s, StyleOp::FlexGrow(Number::Text(lit("1"))));
    push_op(&mut s, StyleOp::FlexBasis(Length::Px(lit("0"))));
    push_op(&mut s, StyleOp::MinWidth(Length::Px(lit("120"))));
    push_op(&mut s, StyleOp::MaxWidth(Length::Px(lit("420"))));
    push_op(&mut s, StyleOp::MarginVert(Length::Px(lit("6"))));
    s
}

/// The look of a range slider's bar: its track and accent colors, and the corner radius of
/// both as a percentage.
#[derive(Clone, PartialEq, Eq, Debug)]
pub struct SliderLook {
    pub bar: Color,
    pub accent: Color,
    pub radius_pct: String,
}

/// A light gray track, a blue accent, corners rounded by 4 %.
pub fn slider_look() -> (r: SliderLook)
    ensures
        r.bar == Color::Rgb8(220, 225, 235),
        r.accent == Color::Rgb8(59, 130, 246),
        r.radius_pct@ == "4"@,
{
    SliderLook { bar: Color::Rgb8(220, 225, 235), accent: Color::Rgb8(59, 130, 246), radius_pct: lit("4") }
}

/// The new selection of a radio group when a button for `value` joins it: a checked button
/// selects its value; an unchecked one leaves the selection as it is.
pub fn radio_group_update(value: i32, checked: bool) -> (r: Option<i32>)
    ensures
        checked ==> r == Some(value),
        !checked ==> r is None,
{
    if checked {
        Some(value)
    } else {
        None
    }
}

} // verus!
