//! The layout decisions and styles of HTML-like elements (`div`, `span`, `ul`, …), headings,
//! `text` vnodes and scroll viewports.

use vstd::prelude::*;
use crate::color::{Color, CssColor};
use crate::decl::{
    decl_enables_scroll, decl_is_display_none, decls_for_scrollable_div_inner, decls_view,
    display_is_none, inner_decls, overflow_enables_scroll, style_declarations_from_props,
    style_decls_spec, without_overflow, FlexDir,
};
use crate::props::{appearance_spec, props_f64, props_number_spec, props_string, props_string_spec};
use crate::style::{
    apply_declarations, decl_panics, decls_ops, decls_panic, lit,
    merge_scroll_host_style_from_props, merge_style_from_props, op_view, ops_view, Align,
    DisplayMode, Length, Number, Style, StyleOp,
};
use crate::text::{
    chars_of, contains_lit, contains_seq, eq_lit, lower_seq, to_lower, trim, trim_chars,
};
use crate::value::ObjectMap;
use crate::vnode::{
    dark_spec, html_themed_surface, palette_spec, surface_spec, theme_palette_for_vnode,
    HtmlThemedSurface, ThemePalette,
};

verus! {

pub open spec fn key_is_sizing(k: Seq<char>) -> bool {
    k == "width"@ || k == "flex"@ || k == "flexgrow"@ || k == "minwidth"@ || k == "maxwidth"@
}

pub open spec fn key_is_width(k: Seq<char>) -> bool {
    k == "width"@ || k == "flex"@ || k == "flexgrow"@
}

/// Some declaration sets a width, a flex shorthand, flex-grow, min-width or max-width.
pub open spec fn sizing_from_style(d: Seq<(Seq<char>, Seq<char>)>) -> bool {
    exists|i: int| 0 <= i < d.len() && #[trigger] key_is_sizing(d[i].0)
}

/// Some declaration sets a width, a flex shorthand or flex-grow (min/max widths are flex
/// resets, not widths).
pub open spec fn explicit_width(d: Seq<(Seq<char>, Seq<char>)>) -> bool {
    exists|i: int| 0 <= i < d.len() && #[trigger] key_is_width(d[i].0)
}

/// Some `height` declaration is a percentage.
pub open spec fn percent_height(d: Seq<(Seq<char>, Seq<char>)>) -> bool {
    exists|i: int| 0 <= i < d.len() && d[i].0 == "height"@ && contains_seq(trim(#[trigger] d[i].1), "%"@)
}

/// The four ways an HTML-like element is laid out.
#[derive(Clone, Copy, PartialEq, Eq, Debug)]
pub enum ElementLayout {
    /// `display: none`: an empty, hidden container.
    Hidden,
    /// `ul` / `ol`: one row per child with a marker.
    List { ordered: bool },
    /// A `div` whose `overflow` scrolls: a scroll viewport around the stacked children.
    Scroll,
    /// The children stacked in the element's direction.
    Plain,
}

pub open spec fn layout_spec(tag: Seq<char>, props: ObjectMap) -> ElementLayout {
    let d = style_decls_spec(props);
    let t = lower_seq(tag);
    if exists|i: int| 0 <= i < d.len() && #[trigger] decl_is_display_none(d[i]) {
        ElementLayout::Hidden
    } else if t == "ul"@ || t == "ol"@ {
        ElementLayout::List { ordered: t == "ol"@ }
    } else if t == "div"@ && exists|i: int| 0 <= i < d.len() && #[trigger] decl_enables_scroll(d[i]) {
        ElementLayout::Scroll
    } else {
        ElementLayout::Plain
    }
}

/// How an HTML-like element is laid out.
pub fn html_element_layout(tag: &str, props: &ObjectMap) -> (r: ElementLayout)
    ensures
        r == layout_spec(tag@, *props),
{
    let decls = style_declarations_from_props(props);
    if display_is_none(&decls) {
        return ElementLayout::Hidden;
    }
    let t = to_lower(&chars_of(tag));
    if eq_lit(&t, "ul") || eq_lit(&t, "ol") {
        return ElementLayout::List { ordered: eq_lit(&t, "ol") };
    }
    if eq_lit(&t, "div") && overflow_enables_scroll(&decls) {
        return ElementLayout::Scroll;
    }
    ElementLayout::Plain
}

fn any_key(decls: &[(String, String)], which: u8) -> (r: bool)
    requires
        which < 2,
    ensures
        which == 0 ==> r == sizing_from_style(decls_view(decls@)),
        which == 1 ==> r == explicit_width(decls_view(decls@)),
{
    let ghost d = decls_view(decls@);
    let mut i: usize = 0;
    while i < decls.len()
        invariant
            i <= decls@.len(),
            which < 2,
            d == decls_view(decls@),
            which == 0 ==> forall|j: int| 0 <= j < i ==> !#[trigger] key_is_sizing(d[j].0),
            which == 1 ==> forall|j: int| 0 <= j < i ==> !#[trigger] key_is_width(d[j].0),
        decreases decls.len() - i,
    {
        let k = chars_of(decls[i].0.as_str());
        assert(d[i as int].0 == k@);
        let w = eq_lit(&k, "width") || eq_lit(&k, "flex") || eq_lit(&k, "flexgrow");
        let hit = if which == 0 {
            w || eq_lit(&k, "minwidth") || eq_lit(&k, "maxwidth")
        } else {
            w
        };
        if hit {
            assert(which == 0 ==> key_is_sizing(d[i as int].0));
            assert(which == 1 ==> key_is_width(d[i as int].0));
            return true;
        }
        i += 1;
    }
    false
}

fn any_percent_height(decls: &[(String, String)]) -> (r: bool)
    ensures
        r == percent_height(decls_view(decls@)),
{
    let ghost d = decls_view(decls@);
    let mut i: usize = 0;
    while i < decls.len()
        invariant
            i <= decls@.len(),
            d == decls_view(decls@),
            forall|j: int| 0 <= j < i ==> !(d[j].0 == "height"@ && contains_seq(trim(#[trigger] d[j].1), "%"@)),
        decreases decls.len() - i,
    {
        let k = chars_of(decls[i].0.as_str());
        let v = chars_of(decls[i].1.as_str());
        assert(d[i as int] == (k@, v@));
        if eq_lit(&k, "height") && contains_lit(&trim_chars(&v), "%") {
            assert(d[i as int].0 == "height"@ && contains_seq(trim(d[i as int].1), "%"@));
            return true;
        }
        i += 1;
    }
    false
}

pub(crate) fn push_op(s: &mut Style, o: StyleOp<String>)
    ensures
        final(s)@ == old(s)@.push(op_view(o)),
{
    s.ops.push(o);
    assert(ops_view(s.ops@) =~= old(s)@.push(op_view(o)));
}

pub(crate) fn style_of(ops: Vec<StyleOp<String>>) -> (r: Style)
    ensures
        r@ == ops_view(ops@),
{
    Style { ops }
}

pub open spec fn list_stack_ops(d: Seq<(Seq<char>, Seq<char>)>) -> Seq<StyleOp<Seq<char>>> {
    seq![StyleOp::Display(DisplayMode::Flex), StyleOp::FlexDirection(FlexDir::Column)] + decls_ops(d)
        + (if sizing_from_style(d) {
        Seq::empty()
    } else {
        seq![StyleOp::WidthFull]
    }) + decls_ops(d)
}

/// Style of the stack of a `ul` / `ol`: a flex column, the declarations, full width unless
/// they size the list, then the `style` prop merged once more.
pub fn list_stack_style(props: &ObjectMap) -> (r: Style)
    requires
        !decls_panic(style_decls_spec(*props)),
    ensures
        r@ == list_stack_ops(style_decls_spec(*props)),
{
    let decls = style_declarations_from_props(props);
    let mut s = style_of(Vec::new());
    push_op(&mut s, StyleOp::Display(DisplayMode::Flex));
    push_op(&mut s, StyleOp::FlexDirection(FlexDir::Column));
    let mut s = apply_declarations(s, &decls);
    if !any_key(&decls, 0) {
        push_op(&mut s, StyleOp::WidthFull);
    }
    let r = merge_style_from_props(s, props);
    assert(r@ =~= list_stack_ops(style_decls_spec(*props)));
    r
}

pub open spec fn panel_ops(p: ThemePalette) -> Seq<StyleOp<Seq<char>>> {
    seq![
        StyleOp::Padding(Length::Px("16"@)),
        StyleOp::MarginBottom(Length::Px("14"@)),
        StyleOp::Border("1"@),
        StyleOp::BorderColor(p.border),
        StyleOp::BorderRadius(Length::Px("10"@)),
        StyleOp::Background(p.panel),
        StyleOp::TextColor(p.fg),
    ]
}

pub open spec fn sidebar_ops(p: ThemePalette) -> Seq<StyleOp<Seq<char>>> {
    seq![
        StyleOp::HeightFull,
        StyleOp::MinHeight(Length::Px("0"@)),
        StyleOp::FlexShrink(Number::Text("0"@)),
        StyleOp::FlexCol,
        StyleOp::AlignItems(Align::Stretch),
        StyleOp::Padding(Length::Px("0"@)),
        StyleOp::BorderRight("1"@),
        StyleOp::BorderColor(p.border),
        StyleOp::Background(p.sidebar),
        StyleOp::TextColor(p.fg),
    ]
}

/// Panel chrome: padding, bottom margin, a rounded border and the panel colors.
pub fn themed_panel_surface(s: Style, p: ThemePalette) -> (r: Style)
    ensures
        r@ == s@ + panel_ops(p),
{
    let mut s = s;
    push_op(&mut s, StyleOp::Padding(Length::Px(lit("16"))));
    push_op(&mut s, StyleOp::MarginBottom(Length::Px(lit("14"))));
    push_op(&mut s, StyleOp::Border(lit("1")));
    push_op(&mut s, StyleOp::BorderColor(p.border));
    push_op(&mut s, StyleOp::BorderRadius(Length::Px(lit("10"))));
    push_op(&mut s, StyleOp::Background(p.panel));
    push_op(&mut s, StyleOp::TextColor(p.fg));
    s
}

/// Sidebar chrome: full height, a non-shrinking column, a right border and the sidebar colors.
pub fn themed_sidebar_surface(s: Style, p: ThemePalette) -> (r: Style)
    ensures
        r@ == s@ + sidebar_ops(p),
{
    let mut s = s;
    push_op(&mut s, StyleOp::HeightFull);
    push_op(&mut s, StyleOp::MinHeight(Length::Px(lit("0"))));
    push_op(&mut s, StyleOp::FlexShrink(Number::Text(lit("0"))));
    push_op(&mut s, StyleOp::FlexCol);
    push_op(&mut s, StyleOp::AlignItems(Align::Stretch));
    push_op(&mut s, StyleOp::Padding(Length::Px(lit("0"))));
    push_op(&mut s, StyleOp::BorderRight(lit("1")));
    push_op(&mut s, StyleOp::BorderColor(p.border));
    push_op(&mut s, StyleOp::Background(p.sidebar));
    push_op(&mut s, StyleOp::TextColor(p.fg));
    s
}


pub open spec fn element_body_ops(tag: Seq<char>, props: ObjectMap, os_dark: Option<bool>) -> Seq<StyleOp<Seq<char>>> {
    let d = style_decls_spec(props);
    let t = lower_seq(tag);
    let pal = palette_spec(dark_spec(appearance_spec(props), os_dark));
    let surf = match surface_spec(t, props) {
        Some(HtmlThemedSurface::Panel) => panel_ops(pal),
        Some(HtmlThemedSurface::Sidebar) => sidebar_ops(pal),
        None => Seq::empty(),
    };
    seq![StyleOp::Display(DisplayMode::Flex)] + surf + decls_ops(d) + (if t == "aside"@
        && percent_height(d) {
        seq![StyleOp::HeightFull]
    } else {
        Seq::empty()
    }) + (if t != "span"@ && !explicit_width(d) {
        seq![StyleOp::WidthFull]
    } else {
        Seq::empty()
    })
}

/// Style of a plain HTML-like element: flex, its themed chrome, the declarations, full height
/// for an `aside` with a percentage height, and full width unless it is a `span` or the
/// declarations give a width.
pub fn element_body_style(tag: &str, props: &ObjectMap, os_dark: Option<bool>) -> (r: Style)
    requires
        !decls_panic(style_decls_spec(*props)),
    ensures
        r@ == element_body_ops(tag@, *props, os_dark),
{
    let decls = style_declarations_from_props(props);
    let tl = to_lower(&chars_of(tag));
    let tl_s = crate::style::str_of(&tl);
    let mut s = style_of(Vec::new());
    push_op(&mut s, StyleOp::Display(DisplayMode::Flex));
    let ghost s0 = s@;
    let s = match html_themed_surface(tl_s.as_str(), props) {
        Some(surf) => {
            let pal = theme_palette_for_vnode(props, os_dark);
            match surf {
                HtmlThemedSurface::Panel => themed_panel_surface(s, pal),
                HtmlThemedSurface::Sidebar => themed_sidebar_surface(s, pal),
            }
        },
        None => {
            assert(s@ =~= s0 + Seq::<StyleOp<Seq<char>>>::empty());
            s
        },
    };
    let mut s = apply_declarations(s, &decls);
    let ghost s1 = s@;
    if eq_lit(&tl, "aside") && any_percent_height(&decls) {
        push_op(&mut s, StyleOp::HeightFull);
    } else {
        assert(s@ =~= s1 + Seq::<StyleOp<Seq<char>>>::empty());
    }
    let ghost s2 = s@;
    if !eq_lit(&tl, "span") && !any_key(&decls, 1) {
        push_op(&mut s, StyleOp::WidthFull);
    } else {
        assert(s@ =~= s2 + Seq::<StyleOp<Seq<char>>>::empty());
    }
    assert(s@ =~= element_body_ops(tag@, *props, os_dark));
    s
}

/// Dropping entries keeps a list free of panicking colors.
pub proof fn lemma_inner_panics(d: Seq<(Seq<char>, Seq<char>)>)
    requires
        !decls_panic(d),
    ensures
        !decls_panic(inner_decls(d)),
    decreases d.len(),
{
    if d.len() > 0 {
        assert(!decls_panic(d.drop_last())) by {
            if decls_panic(d.drop_last()) {
                let i = choose|i: int| 0 <= i < d.drop_last().len() && #[trigger] decl_panics(d.drop_last()[i]);
                assert(decl_panics(d[i]));
            }
        }
        lemma_inner_panics(d.drop_last());
        let w = inner_decls(d.drop_last());
        if inner_decls(d) != w {
            assert(inner_decls(d) == w.push(d.last()));
            assert(!decl_panics(d[d.len() - 1]));
            if decls_panic(inner_decls(d)) {
                let i = choose|i: int| 0 <= i < inner_decls(d).len() && #[trigger] decl_panics(inner_decls(d)[i]);
                if i < w.len() {
                    assert(inner_decls(d)[i] == w[i]);
                }
            }
        }
    }
}

pub open spec fn scroll_body_ops(props: ObjectMap, fill: bool) -> Seq<StyleOp<Seq<char>>> {
    let inner = inner_decls(style_decls_spec(props));
    seq![StyleOp::Display(DisplayMode::Flex)] + decls_ops(inner) + (if !explicit_width(inner) || fill {
        seq![StyleOp::WidthFull]
    } else {
        Seq::empty()
    }) + (if fill {
        seq![StyleOp::FlexGrow(Number::Text("0"@)), StyleOp::FlexShrink(Number::Text("0"@))]
    } else {
        Seq::empty()
    })
}

/// Style of the content stack inside a scrolling `div`: flex, the declarations that stay
/// inside, full width unless they give one (always in fill mode), and no grow or shrink in
/// fill mode.
pub fn scroll_body_style(props: &ObjectMap, fill: bool) -> (r: Style)
    requires
        !decls_panic(style_decls_spec(*props)),
    ensures
        r@ == scroll_body_ops(*props, fill),
{
    let decls = style_declarations_from_props(props);
    let inner = decls_for_scrollable_div_inner(&decls);
    proof {
        lemma_inner_panics(decls_view(decls@));
    }
    let mut s = style_of(Vec::new());
    push_op(&mut s, StyleOp::Display(DisplayMode::Flex));
    let mut s = apply_declarations(s, &inner);
    let ghost s1 = s@;
    if !any_key(&inner, 1) || fill {
        push_op(&mut s, StyleOp::WidthFull);
    } else {
        assert(s@ =~= s1 + Seq::<StyleOp<Seq<char>>>::empty());
    }
    let ghost s2 = s@;
    if fill {
        push_op(&mut s, StyleOp::FlexGrow(Number::Text(lit("0"))));
        push_op(&mut s, StyleOp::FlexShrink(Number::Text(lit("0"))));
    } else {
        assert(s@ =~= s2 + Seq::<StyleOp<Seq<char>>>::empty());
    }
    assert(s@ =~= scroll_body_ops(*props, fill));
    s
}

/// `120.0` as `f64` bits: the default minimum height of a scroll region.
pub open spec fn default_min_height_bits() -> u64 {
    0x405E_0000_0000_0000
}

pub open spec fn scroll_wrapper_ops(props: ObjectMap, fill: bool) -> Seq<StyleOp<Seq<char>>> {
    seq![StyleOp::WidthFull, StyleOp::Display(DisplayMode::Flex), StyleOp::FlexCol] + (if fill {
        seq![StyleOp::AlignItems(Align::Stretch)]
    } else {
        seq![StyleOp::ItemsStart]
    }) + (if fill {
        seq![
            StyleOp::MinHeight(Length::Px("0"@)),
            StyleOp::FlexGrow(Number::Text("0"@)),
            StyleOp::FlexShrink(Number::Text("0"@)),
        ]
    } else {
        seq![
            StyleOp::MinHeight(
                Length::PxBits(
                    props_number_spec(props, seq!["minHeight", "min_height"], default_min_height_bits()),
                ),
            ),
        ]
    })
}

/// Style of the container between a scroll viewport and its content: a full-width column,
/// stretched and not growing in fill mode, else starting at the top with a minimum height
/// (`minHeight` / `min_height`, default 120).
pub fn scroll_wrapper_style(props: &ObjectMap, fill: bool) -> (r: Style)
    ensures
        r@ == scroll_wrapper_ops(*props, fill),
{
    let mut s = style_of(Vec::new());
    push_op(&mut s, StyleOp::WidthFull);
    push_op(&mut s, StyleOp::Display(DisplayMode::Flex));
    push_op(&mut s, StyleOp::FlexCol);
    if fill {
        push_op(&mut s, StyleOp::AlignItems(Align::Stretch));
        push_op(&mut s, StyleOp::MinHeight(Length::Px(lit("0"))));
        push_op(&mut s, StyleOp::FlexGrow(Number::Text(lit("0"))));
        push_op(&mut s, StyleOp::FlexShrink(Number::Text(lit("0"))));
    } else {
        push_op(&mut s, StyleOp::ItemsStart);
        let keys: [&str; 2] = ["minHeight", "min_height"];
        assert(keys@ =~= seq!["minHeight", "min_height"]);
        let b = props_f64(props, &keys, 0x405E_0000_0000_0000u64);
        push_op(&mut s, StyleOp::MinHeight(Length::PxBits(b)));
    }
    assert(s@ =~= scroll_wrapper_ops(*props, fill));
    s
}

pub open spec fn scroll_host_ops(props: ObjectMap, fill: bool) -> Seq<StyleOp<Seq<char>>> {
    let d = style_decls_spec(props);
    seq![StyleOp::WidthFull, StyleOp::FlexCol] + if fill {
        seq![
            StyleOp::AlignItems(Align::Stretch),
            StyleOp::FlexBasis(Length::Px("0"@)),
            StyleOp::MinWidth(Length::Px("0"@)),
            StyleOp::MinHeight(Length::Px("0"@)),
            StyleOp::FlexGrow(Number::Text("1"@)),
            StyleOp::FlexShrink(Number::Text("1"@)),
            StyleOp::Border("0"@),
        ] + decls_ops(without_overflow(d)) + seq![StyleOp::Height(Length::Auto)]
    } else {
        seq![
            StyleOp::ItemsStart,
            StyleOp::Height(Length::Px("220"@)),
            StyleOp::Border("1"@),
            StyleOp::BorderColor(Color::Rgb8(210, 210, 220)),
        ] + decls_ops(d)
    }
}

/// Style of a scroll viewport. In fill mode it grows into its flex parent, takes the
/// declarations except `overflow`, and keeps `height: auto`; otherwise it is a 220 px bordered
/// box with the declarations merged.
pub fn scroll_host_style(props: &ObjectMap, fill: bool) -> (r: Style)
    requires
        !decls_panic(style_decls_spec(*props)),
    ensures
        r@ == scroll_host_ops(*props, fill),
{
    let mut s = style_of(Vec::new());
    push_op(&mut s, StyleOp::WidthFull);
    push_op(&mut s, StyleOp::FlexCol);
    if fill {
        push_op(&mut s, StyleOp::AlignItems(Align::Stretch));
        push_op(&mut s, StyleOp::FlexBasis(Length::Px(lit("0"))));
        push_op(&mut s, StyleOp::MinWidth(Length::Px(lit("0"))));
        push_op(&mut s, StyleOp::MinHeight(Length::Px(lit("0"))));
        push_op(&mut s, StyleOp::FlexGrow(Number::Text(lit("1"))));
        push_op(&mut s, StyleOp::FlexShrink(Number::Text(lit("1"))));
        push_op(&mut s, StyleOp::Border(lit("0")));
        let mut s = merge_scroll_host_style_from_props(s, props);
        push_op(&mut s, StyleOp::Height(Length::Auto));
        assert(s@ =~= scroll_host_ops(*props, fill));
        s
    } else {
        push_op(&mut s, StyleOp::ItemsStart);
        push_op(&mut s, StyleOp::Height(Length::Px(lit("220"))));
        push_op(&mut s, StyleOp::Border(lit("1")));
        push_op(&mut s, StyleOp::BorderColor(Color::Rgb8(210, 210, 220)));
        let s = merge_style_from_props(s, props);
        assert(s@ =~= scroll_host_ops(*props, fill));
        s
    }
}

/// Font size of a heading level (levels outside 1–6 clamped).
pub open spec fn heading_size(level: u8) -> Seq<char> {
    let l = if level < 1 {
        1
    } else if level > 6 {
        6
    } else {
        level
    };
    if l == 1 {
        "22"@
    } else if l == 2 {
        "18"@
    } else if l == 3 {
        "16"@
    } else if l == 4 {
        "15"@
    } else if l == 5 {
        "14"@
    } else {
        "13"@
    }
}

pub open spec fn heading_ops(level: u8, props: ObjectMap, os_dark: Option<bool>) -> Seq<StyleOp<Seq<char>>> {
    let pal = palette_spec(dark_spec(appearance_spec(props), os_dark));
    seq![
        StyleOp::FontSize(heading_size(level)),
        StyleOp::FontBold,
        StyleOp::LineHeight("1.25"@),
        StyleOp::WidthFull,
        StyleOp::TextColor(pal.fg),
    ] + decls_ops(style_decls_spec(props))
}

/// Style of a heading: a bold, full-width label sized by level in the theme's text color,
/// with the `style` prop merged.
pub fn heading_style(level: u8, props: &ObjectMap, os_dark: Option<bool>) -> (r: Style)
    requires
        !decls_panic(style_decls_spec(*props)),
    ensures
        r@ == heading_ops(level, *props, os_dark),
{
    let l: u8 = if level < 1 {
        1
    } else if level > 6 {
        6
    } else {
        level
    };
    let size = if l == 1 {
        lit("22")
    } else if l == 2 {
        lit("18")
    } else if l == 3 {
        lit("16")
    } else if l == 4 {
        lit("15")
    } else if l == 5 {
        lit("14")
    } else {
        lit("13")
    };
    let pal = theme_palette_for_vnode(props, os_dark);
    let mut s = style_of(Vec::new());
    push_op(&mut s, StyleOp::FontSize(size));
    push_op(&mut s, StyleOp::FontBold);
    push_op(&mut s, StyleOp::LineHeight(lit("1.25")));
    push_op(&mut s, StyleOp::WidthFull);
    push_op(&mut s, StyleOp::TextColor(pal.fg));
    let s = merge_style_from_props(s, props);
    assert(s@ =~= heading_ops(level, *props, os_dark));
    s
}

pub open spec fn text_ops(props: ObjectMap) -> Seq<StyleOp<Seq<char>>> {
    let variant = match props_string_spec(props, seq!["variant", "size"]) {
        Some(v) => lower_seq(v),
        None => Seq::empty(),
    };
    (if variant == "caption"@ || variant == "small"@ || variant == "subtitle"@ {
        seq![StyleOp::FontSize("12"@), StyleOp::TextColor(Color::Css(CssColor::Gray))]
    } else {
        seq![StyleOp::FontSize("14"@), StyleOp::LineHeight("1.35"@)]
    }) + decls_ops(style_decls_spec(props))
}

/// Style of a `text` vnode: small gray for the `caption` / `small` / `subtitle` variants
/// (`variant` or `size`), body text otherwise, with the `style` prop merged.
pub fn text_style(props: &ObjectMap) -> (r: Style)
    requires
        !decls_panic(style_decls_spec(*props)),
    ensures
        r@ == text_ops(*props),
{
    let keys: [&str; 2] = ["variant", "size"];
    assert(keys@ =~= seq!["variant", "size"]);
    let variant: Vec<char> = match props_string(props, &keys) {
        Some(v) => to_lower(&chars_of(v.as_str())),
        None => Vec::new(),
    };
    let mut s = style_of(Vec::new());
    if eq_lit(&variant, "caption") || eq_lit(&variant, "small") || eq_lit(&variant, "subtitle") {
        push_op(&mut s, StyleOp::FontSize(lit("12")));
        push_op(&mut s, StyleOp::TextColor(Color::Css(CssColor::Gray)));
    } else {
        push_op(&mut s, StyleOp::FontSize(lit("14")));
        push_op(&mut s, StyleOp::LineHeight(lit("1.35")));
    }
    let s = merge_style_from_props(s, props);
    assert(s@ =~= text_ops(*props));
    s
}

} // verus!
