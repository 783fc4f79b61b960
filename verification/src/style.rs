//! A style as the sequence of builder calls that make it, and how declarations turn into calls.
//!
//! Numbers stay as the text the declaration gave: a call whose number text does not parse (as
//! `f32` for grow, shrink, border-right and font size; as `f64` for lengths and borders) is not
//! made, which is what the parse failures in the declarations do.

use vstd::prelude::*;
use crate::color::{color_outcome, color_spec, Color, Outcome};
use crate::decl::{decls_view, direction_value, style_decls_spec, without_overflow, FlexDir};
use crate::decl::{decls_without_overflow, direction_of_value, style_declarations_from_props};
use crate::text::{
    chars_of, contains_lit, contains_seq, eq_ic, eq_ic_lit, eq_lit, lower_seq, remove_char,
    remove_char_chars, split_whitespace_chars, string_from_chars, strip_suffix, strip_suffix_lit,
    sub_chars, to_lower, trim, trim_chars, trim_end_matches, trim_end_matches_lit, words,
};
use crate::value::ObjectMap;

verus! {

#[derive(Clone, Copy, PartialEq, Eq, Debug)]
/// `display`: `Hidden` is taffy's `Display::None`.
pub enum DisplayMode {
    Hidden,
    Flex,
}

#[derive(Clone, Copy, PartialEq, Eq, Debug)]
pub enum FlexWrapMode {
    Wrap,
    NoWrap,
}

#[derive(Clone, Copy, PartialEq, Eq, Debug)]
pub enum Justify {
    FlexStart,
    Center,
    FlexEnd,
    SpaceBetween,
    SpaceAround,
    SpaceEvenly,
}

#[derive(Clone, Copy, PartialEq, Eq, Debug)]
pub enum Align {
    Stretch,
    FlexStart,
    Center,
    FlexEnd,
    Baseline,
}

#[derive(Clone, Copy, PartialEq, Eq, Debug)]
pub enum Weight {
    Bold,
    Normal,
}

/// A length: pixels or percent given as number text, or `auto`.
#[derive(Clone, PartialEq, Eq, Debug)]
pub enum Length<S> {
    Px(S),
    Pct(S),
    Auto,
    /// Pixels given as the bit pattern of an `f64`.
    PxBits(u64),
}

/// A number given as text; `TextOr(t, d)` takes `d` when `t` does not parse.
#[derive(Clone, PartialEq, Eq, Debug)]
pub enum Number<S> {
    Text(S),
    TextOr(S, S),
}

/// One style builder call.
#[derive(Clone, PartialEq, Eq, Debug)]
pub enum StyleOp<S> {
    Display(DisplayMode),
    FlexDirection(FlexDir),
    FlexWrap(FlexWrapMode),
    JustifyContent(Justify),
    AlignItems(Align),
    AlignSelf(Align),
    RowGap(Length<S>),
    ColGap(Length<S>),
    Padding(Length<S>),
    PaddingTop(Length<S>),
    PaddingRight(Length<S>),
    PaddingBottom(Length<S>),
    PaddingLeft(Length<S>),
    Margin(Length<S>),
    MarginTop(Length<S>),
    MarginRight(Length<S>),
    MarginBottom(Length<S>),
    MarginLeft(Length<S>),
    Width(Length<S>),
    Height(Length<S>),
    MinWidth(Length<S>),
    MinHeight(Length<S>),
    MaxWidth(Length<S>),
    MaxHeight(Length<S>),
    FlexGrow(Number<S>),
    FlexShrink(Number<S>),
    FlexBasis(Length<S>),
    /// `flex: g`: when `g` parses as `f32`, grow `g`, shrink 1 and basis 0 px.
    FlexUnit(S),
    BorderColor(Color),
    BorderRight(S),
    BorderRadius(Length<S>),
    Border(S),
    Background(Color),
    TextColor(Color),
    FontSize(S),
    FontWeight(Weight),
    FontFamily(S),
    FontBold,
    LineHeight(S),
    WidthFull,
    HeightFull,
    FlexCol,
    ItemsStart,
    JustifyStart,
    PaddingHoriz(Length<S>),
    PaddingVert(Length<S>),
    /// Flex grow given as the bit pattern of an `f64` (narrowed to `f32`).
    FlexGrowBits(u64),
    MarginVert(Length<S>),
    /// Full width and full height.
    SizeFull,
    /// Hidden (the builder's `hide`).
    Hide,
}

/// A style: the builder calls applied to a default style, in order.
#[derive(Clone, PartialEq, Eq, Debug)]
pub struct Style {
    pub ops: Vec<StyleOp<String>>,
}

pub open spec fn length_view(l: Length<String>) -> Length<Seq<char>> {
    match l {
        Length::Px(s) => Length::Px(s@),
        Length::Pct(s) => Length::Pct(s@),
        Length::Auto => Length::Auto,
        Length::PxBits(b) => Length::PxBits(b),
    }
}

pub open spec fn number_view(n: Number<String>) -> Number<Seq<char>> {
    match n {
        Number::Text(s) => Number::Text(s@),
        Number::TextOr(s, d) => Number::TextOr(s@, d@),
    }
}

pub open spec fn op_view(o: StyleOp<String>) -> StyleOp<Seq<char>> {
    match o {
        StyleOp::Display(x) => StyleOp::Display(x),
        StyleOp::FlexDirection(x) => StyleOp::FlexDirection(x),
        StyleOp::FlexWrap(x) => StyleOp::FlexWrap(x),
        StyleOp::JustifyContent(x) => StyleOp::JustifyContent(x),
        StyleOp::AlignItems(x) => StyleOp::AlignItems(x),
        StyleOp::AlignSelf(x) => StyleOp::AlignSelf(x),
        StyleOp::RowGap(l) => StyleOp::RowGap(length_view(l)),
        StyleOp::ColGap(l) => StyleOp::ColGap(length_view(l)),
        StyleOp::Padding(l) => StyleOp::Padding(length_view(l)),
        StyleOp::PaddingTop(l) => StyleOp::PaddingTop(length_view(l)),
        StyleOp::PaddingRight(l) => StyleOp::PaddingRight(length_view(l)),
        StyleOp::PaddingBottom(l) => StyleOp::PaddingBottom(length_view(l)),
        StyleOp::PaddingLeft(l) => StyleOp::PaddingLeft(length_view(l)),
        StyleOp::Margin(l) => StyleOp::Margin(length_view(l)),
        StyleOp::MarginTop(l) => StyleOp::MarginTop(length_view(l)),
        StyleOp::MarginRight(l) => StyleOp::MarginRight(length_view(l)),
        StyleOp::MarginBottom(l) => StyleOp::MarginBottom(length_view(l)),
        StyleOp::MarginLeft(l) => StyleOp::MarginLeft(length_view(l)),
        StyleOp::Width(l) => StyleOp::Width(length_view(l)),
        StyleOp::Height(l) => StyleOp::Height(length_view(l)),
        StyleOp::MinWidth(l) => StyleOp::MinWidth(length_view(l)),
        StyleOp::MinHeight(l) => StyleOp::MinHeight(length_view(l)),
        StyleOp::MaxWidth(l) => StyleOp::MaxWidth(length_view(l)),
        StyleOp::MaxHeight(l) => StyleOp::MaxHeight(length_view(l)),
        StyleOp::FlexGrow(n) => StyleOp::FlexGrow(number_view(n)),
        StyleOp::FlexShrink(n) => StyleOp::FlexShrink(number_view(n)),
        StyleOp::FlexBasis(l) => StyleOp::FlexBasis(length_view(l)),
        StyleOp::FlexUnit(s) => StyleOp::FlexUnit(s@),
        StyleOp::BorderColor(c) => StyleOp::BorderColor(c),
        StyleOp::BorderRight(s) => StyleOp::BorderRight(s@),
        StyleOp::BorderRadius(l) => StyleOp::BorderRadius(length_view(l)),
        StyleOp::Border(s) => StyleOp::Border(s@),
        StyleOp::Background(c) => StyleOp::Background(c),
        StyleOp::TextColor(c) => StyleOp::TextColor(c),
        StyleOp::FontSize(s) => StyleOp::FontSize(s@),
        StyleOp::FontWeight(w) => StyleOp::FontWeight(w),
        StyleOp::FontFamily(s) => StyleOp::FontFamily(s@),
        StyleOp::FontBold => StyleOp::FontBold,
        StyleOp::LineHeight(s) => StyleOp::LineHeight(s@),
        StyleOp::WidthFull => StyleOp::WidthFull,
        StyleOp::HeightFull => StyleOp::HeightFull,
        StyleOp::FlexCol => StyleOp::FlexCol,
        StyleOp::ItemsStart => StyleOp::ItemsStart,
        StyleOp::JustifyStart => StyleOp::JustifyStart,
        StyleOp::PaddingHoriz(l) => StyleOp::PaddingHoriz(length_view(l)),
        StyleOp::PaddingVert(l) => StyleOp::PaddingVert(length_view(l)),
        StyleOp::FlexGrowBits(b) => StyleOp::FlexGrowBits(b),
        StyleOp::MarginVert(l) => StyleOp::MarginVert(length_view(l)),
        StyleOp::SizeFull => StyleOp::SizeFull,
        StyleOp::Hide => StyleOp::Hide,
    }
}

pub open spec fn ops_view(ops: Seq<StyleOp<String>>) -> Seq<StyleOp<Seq<char>>> {
    ops.map_values(|o: StyleOp<String>| op_view(o))
}

impl View for Style {
    type V = Seq<StyleOp<Seq<char>>>;

    open spec fn view(&self) -> Seq<StyleOp<Seq<char>>> {
        ops_view(self.ops@)
    }
}

/// `parse_px_pct`: `N%`, `Npx` or a bare `N` (the number text trimmed).
pub open spec fn px_pct_spec(v: Seq<char>) -> Length<Seq<char>> {
    let t = trim(v);
    match strip_suffix(t, "%"@) {
        Some(p) => Length::Pct(trim(p)),
        None => match strip_suffix(t, "px"@) {
            Some(p) => Length::Px(trim(p)),
            None => Length::Px(t),
        },
    }
}

/// `parse_px_pct_auto`: `auto` (any ASCII case), else as `parse_px_pct`.
pub open spec fn px_pct_auto_spec(v: Seq<char>) -> Length<Seq<char>> {
    if eq_ic(trim(v), "auto"@) {
        Length::Auto
    } else {
        px_pct_spec(v)
    }
}

/// A keyword with ASCII case, spaces and `-` ignored.
pub open spec fn ident_norm(v: Seq<char>) -> Seq<char> {
    remove_char(remove_char(lower_seq(v), ' '), '-')
}

pub open spec fn display_ops(vl: Seq<char>) -> Seq<StyleOp<Seq<char>>> {
    if vl == "none"@ {
        seq![StyleOp::Display(DisplayMode::Hidden)]
    } else if vl == "flex"@ {
        seq![StyleOp::Display(DisplayMode::Flex)]
    } else if vl == "block"@ || vl == "flow"@ || vl == "flowroot"@ {
        seq![StyleOp::Display(DisplayMode::Flex), StyleOp::FlexDirection(FlexDir::Column)]
    } else if vl == "inline"@ || vl == "inlineblock"@ {
        seq![StyleOp::Display(DisplayMode::Flex), StyleOp::FlexDirection(FlexDir::Row)]
    } else {
        Seq::empty()
    }
}

pub open spec fn justify_value(vl: Seq<char>) -> Option<Justify> {
    if vl == "flexstart"@ || vl == "start"@ {
        Some(Justify::FlexStart)
    } else if vl == "center"@ {
        Some(Justify::Center)
    } else if vl == "flexend"@ || vl == "end"@ {
        Some(Justify::FlexEnd)
    } else if vl == "spacebetween"@ {
        Some(Justify::SpaceBetween)
    } else if vl == "spacearound"@ {
        Some(Justify::SpaceAround)
    } else if vl == "spaceevenly"@ {
        Some(Justify::SpaceEvenly)
    } else {
        None
    }
}

pub open spec fn align_value(vl: Seq<char>) -> Option<Align> {
    if vl == "stretch"@ {
        Some(Align::Stretch)
    } else if vl == "flexstart"@ || vl == "start"@ {
        Some(Align::FlexStart)
    } else if vl == "center"@ {
        Some(Align::Center)
    } else if vl == "flexend"@ || vl == "end"@ {
        Some(Align::FlexEnd)
    } else if vl == "baseline"@ {
        Some(Align::Baseline)
    } else {
        None
    }
}

pub open spec fn flex_ops(v: Seq<char>) -> Seq<StyleOp<Seq<char>>> {
    let vn = trim(v);
    if eq_ic(vn, "none"@) {
        seq![StyleOp::FlexGrow(Number::Text("0"@)), StyleOp::FlexShrink(Number::Text("0"@))]
    } else {
        let parts = words(vn);
        if parts.len() == 1 {
            seq![StyleOp::FlexUnit(parts[0])]
        } else {
            let g = if parts.len() >= 1 {
                Number::TextOr(parts[0], "0"@)
            } else {
                Number::Text("0"@)
            };
            let sh = if parts.len() >= 2 {
                Number::TextOr(parts[1], "1"@)
            } else {
                Number::Text("1"@)
            };
            let base = seq![StyleOp::FlexGrow(g), StyleOp::FlexShrink(sh)];
            if parts.len() >= 3 {
                base.push(StyleOp::FlexBasis(px_pct_auto_spec(trim(parts[2]))))
            } else {
                base
            }
        }
    }
}

pub open spec fn color_op(v: Seq<char>, mk: spec_fn(Color) -> StyleOp<Seq<char>>) -> Seq<StyleOp<Seq<char>>> {
    match color_spec(v) {
        Outcome::Returns(Some(c)) => seq![mk(c)],
        _ => Seq::empty(),
    }
}

pub open spec fn border_ops(v: Seq<char>) -> Seq<StyleOp<Seq<char>>> {
    if contains_seq(lower_seq(v), "none"@) {
        seq![StyleOp::Border("0"@)]
    } else if words(v).len() >= 1 {
        match px_pct_spec(words(v)[0]) {
            Length::Px(t) => seq![StyleOp::Border(t)],
            _ => Seq::empty(),
        }
    } else {
        Seq::empty()
    }
}

/// The builder calls of one declaration (value trimmed first).
pub open spec fn decl_ops(k: Seq<char>, val: Seq<char>) -> Seq<StyleOp<Seq<char>>> {
    let v = trim(val);
    if k == "display"@ {
        display_ops(lower_seq(v))
    } else if k == "flexdirection"@ {
        match direction_value(v) {
            Some(d) => seq![StyleOp::FlexDirection(d)],
            None => Seq::empty(),
        }
    } else if k == "flexwrap"@ {
        if lower_seq(v) == "wrap"@ {
            seq![StyleOp::FlexWrap(FlexWrapMode::Wrap)]
        } else if lower_seq(v) == "nowrap"@ {
            seq![StyleOp::FlexWrap(FlexWrapMode::NoWrap)]
        } else {
            Seq::empty()
        }
    } else if k == "justifycontent"@ {
        match justify_value(ident_norm(v)) {
            Some(j) => seq![StyleOp::JustifyContent(j)],
            None => Seq::empty(),
        }
    } else if k == "alignitems"@ {
        match align_value(ident_norm(v)) {
            Some(a) => seq![StyleOp::AlignItems(a)],
            None => Seq::empty(),
        }
    } else if k == "gap"@ {
        seq![StyleOp::RowGap(px_pct_spec(v)), StyleOp::ColGap(px_pct_spec(v))]
    } else if k == "rowgap"@ {
        seq![StyleOp::RowGap(px_pct_spec(v))]
    } else if k == "columngap"@ {
        seq![StyleOp::ColGap(px_pct_spec(v))]
    } else if k == "padding"@ {
        seq![StyleOp::Padding(px_pct_spec(v))]
    } else if k == "paddingtop"@ {
        seq![StyleOp::PaddingTop(px_pct_spec(v))]
    } else if k == "paddingright"@ {
        seq![StyleOp::PaddingRight(px_pct_spec(v))]
    } else if k == "paddingbottom"@ {
        seq![StyleOp::PaddingBottom(px_pct_spec(v))]
    } else if k == "paddingleft"@ {
        seq![StyleOp::PaddingLeft(px_pct_spec(v))]
    } else if k == "margin"@ {
        seq![StyleOp::Margin(px_pct_auto_spec(v))]
    } else if k == "margintop"@ {
        seq![StyleOp::MarginTop(px_pct_auto_spec(v))]
    } else if k == "marginright"@ {
        seq![StyleOp::MarginRight(px_pct_auto_spec(v))]
    } else if k == "marginbottom"@ {
        seq![StyleOp::MarginBottom(px_pct_auto_spec(v))]
    } else if k == "marginleft"@ {
        seq![StyleOp::MarginLeft(px_pct_auto_spec(v))]
    } else if k == "width"@ {
        seq![StyleOp::Width(px_pct_auto_spec(v))]
    } else if k == "height"@ {
        seq![StyleOp::Height(px_pct_auto_spec(v))]
    } else if k == "minwidth"@ {
        seq![StyleOp::MinWidth(px_pct_auto_spec(v))]
    } else if k == "minheight"@ {
        seq![StyleOp::MinHeight(px_pct_auto_spec(v))]
    } else if k == "maxwidth"@ {
        seq![StyleOp::MaxWidth(px_pct_auto_spec(v))]
    } else if k == "maxheight"@ {
        seq![StyleOp::MaxHeight(px_pct_auto_spec(v))]
    } else if k == "flex"@ {
        flex_ops(v)
    } else if k == "flexbasis"@ {
        seq![StyleOp::FlexBasis(px_pct_auto_spec(v))]
    } else if k == "flexgrow"@ {
        seq![StyleOp::FlexGrow(Number::Text(v))]
    } else if k == "flexshrink"@ {
        seq![StyleOp::FlexShrink(Number::Text(v))]
    } else if k == "alignself"@ {
        match align_value(ident_norm(v)) {
            Some(a) => seq![StyleOp::AlignSelf(a)],
            None => Seq::empty(),
        }
    } else if k == "bordercolor"@ {
        color_op(v, |c: Color| StyleOp::BorderColor(c))
    } else if k == "borderright"@ {
        if words(v).len() >= 1 {
            seq![StyleOp::BorderRight(trim(trim_end_matches(words(v)[0], "px"@)))]
        } else {
            Seq::empty()
        }
    } else if k == "borderradius"@ {
        seq![StyleOp::BorderRadius(px_pct_spec(v))]
    } else if k == "border"@ {
        border_ops(v)
    } else if k == "background"@ || k == "backgroundcolor"@ {
        color_op(v, |c: Color| StyleOp::Background(c))
    } else if k == "color"@ {
        color_op(v, |c: Color| StyleOp::TextColor(c))
    } else if k == "fontsize"@ {
        seq![StyleOp::FontSize(trim(trim_end_matches(v, "px"@)))]
    } else if k == "fontweight"@ {
        if lower_seq(v) == "bold"@ || lower_seq(v) == "700"@ {
            seq![StyleOp::FontWeight(Weight::Bold)]
        } else if lower_seq(v) == "normal"@ || lower_seq(v) == "400"@ {
            seq![StyleOp::FontWeight(Weight::Normal)]
        } else {
            Seq::empty()
        }
    } else if k == "fontfamily"@ {
        if v.len() > 0 {
            seq![StyleOp::FontFamily(v)]
        } else {
            Seq::empty()
        }
    } else {
        Seq::empty()
    }
}

/// A declaration whose color value would make the color parser panic.
pub open spec fn decl_panics(d: (Seq<char>, Seq<char>)) -> bool {
    (d.0 == "bordercolor"@ || d.0 == "background"@ || d.0 == "backgroundcolor"@ || d.0
        == "color"@) && color_spec(trim(d.1)) == Outcome::<Option<Color>>::Panics
}

pub open spec fn decls_panic(d: Seq<(Seq<char>, Seq<char>)>) -> bool {
    exists|i: int| 0 <= i < d.len() && #[trigger] decl_panics(d[i])
}

/// The builder calls of a declaration list, in order.
pub open spec fn decls_ops(d: Seq<(Seq<char>, Seq<char>)>) -> Seq<StyleOp<Seq<char>>>
    decreases d.len(),
{
    if d.len() == 0 {
        Seq::empty()
    } else {
        decls_ops(d.drop_last()) + decl_ops(d.last().0, d.last().1)
    }
}

pub(crate) fn lit(s: &str) -> (r: String)
    ensures
        r@ == s@,
{
    string_from_chars(&chars_of(s))
}

pub(crate) fn str_of(v: &[char]) -> (r: String)
    ensures
        r@ == v@,
{
    string_from_chars(v)
}

/// `parse_px_pct`.
pub fn parse_px_pct(v: &[char]) -> (r: Length<String>)
    ensures
        length_view(r) == px_pct_spec(v@),
{
    let t = trim_chars(v);
    match strip_suffix_lit(&t, "%") {
        Some(p) => Length::Pct(str_of(&trim_chars(&p))),
        None => match strip_suffix_lit(&t, "px") {
            Some(p) => Length::Px(str_of(&trim_chars(&p))),
            None => Length::Px(str_of(&t)),
        },
    }
}

/// `parse_px_pct_auto`.
pub fn parse_px_pct_auto(v: &[char]) -> (r: Length<String>)
    ensures
        length_view(r) == px_pct_auto_spec(v@),
{
    let t = trim_chars(v);
    if eq_ic_lit(&t, "auto") {
        Length::Auto
    } else {
        parse_px_pct(v)
    }
}

fn ident_norm_of(v: &[char]) -> (r: Vec<char>)
    ensures
        r@ == ident_norm(v@),
{
    let l = to_lower(v);
    let a = remove_char_chars(&l, ' ');
    remove_char_chars(&a, '-')
}

pub(crate) fn one(o: StyleOp<String>) -> (r: Vec<StyleOp<String>>)
    ensures
        ops_view(r@) == seq![op_view(o)],
{
    let mut r: Vec<StyleOp<String>> = Vec::new();
    r.push(o);
    assert(ops_view(r@) =~= seq![op_view(o)]);
    r
}

fn two(a: StyleOp<String>, b: StyleOp<String>) -> (r: Vec<StyleOp<String>>)
    ensures
        ops_view(r@) == seq![op_view(a), op_view(b)],
{
    let mut r: Vec<StyleOp<String>> = Vec::new();
    r.push(a);
    r.push(b);
    assert(ops_view(r@) =~= seq![op_view(a), op_view(b)]);
    r
}

pub(crate) fn none_ops() -> (r: Vec<StyleOp<String>>)
    ensures
        ops_view(r@) == Seq::<StyleOp<Seq<char>>>::empty(),
{
    let r: Vec<StyleOp<String>> = Vec::new();
    assert(ops_view(r@) =~= Seq::<StyleOp<Seq<char>>>::empty());
    r
}

fn display_ops_of(vl: &[char]) -> (r: Vec<StyleOp<String>>)
    ensures
        ops_view(r@) == display_ops(vl@),
{
    if eq_lit(vl, "none") {
        one(StyleOp::Display(DisplayMode::Hidden))
    } else if eq_lit(vl, "flex") {
        one(StyleOp::Display(DisplayMode::Flex))
    } else if eq_lit(vl, "block") || eq_lit(vl, "flow") || eq_lit(vl, "flowroot") {
        two(StyleOp::Display(DisplayMode::Flex), StyleOp::FlexDirection(FlexDir::Column))
    } else if eq_lit(vl, "inline") || eq_lit(vl, "inlineblock") {
        two(StyleOp::Display(DisplayMode::Flex), StyleOp::FlexDirection(FlexDir::Row))
    } else {
        none_ops()
    }
}

fn justify_of(vl: &[char]) -> (r: Option<Justify>)
    ensures
        r == justify_value(vl@),
{
    if eq_lit(vl, "flexstart") || eq_lit(vl, "start") {
        Some(Justify::FlexStart)
    } else if eq_lit(vl, "center") {
        Some(Justify::Center)
    } else if eq_lit(vl, "flexend") || eq_lit(vl, "end") {
        Some(Justify::FlexEnd)
    } else if eq_lit(vl, "spacebetween") {
        Some(Justify::SpaceBetween)
    } else if eq_lit(vl, "spacearound") {
        Some(Justify::SpaceAround)
    } else if eq_lit(vl, "spaceevenly") {
        Some(Justify::SpaceEvenly)
    } else {
        None
    }
}

fn align_of(vl: &[char]) -> (r: Option<Align>)
    ensures
        r == align_value(vl@),
{
    if eq_lit(vl, "stretch") {
        Some(Align::Stretch)
    } else if eq_lit(vl, "flexstart") || eq_lit(vl, "start") {
        Some(Align::FlexStart)
    } else if eq_lit(vl, "center") {
        Some(Align::Center)
    } else if eq_lit(vl, "flexend") || eq_lit(vl, "end") {
        Some(Align::FlexEnd)
    } else if eq_lit(vl, "baseline") {
        Some(Align::Baseline)
    } else {
        None
    }
}

fn word_at(parts: &Vec<Vec<char>>, i: usize) -> (r: Vec<char>)
    requires
        i < parts@.len(),
    ensures
        r@ == parts@[i as int]@,
{
    sub_chars(&parts[i], 0, parts[i].len())
}

fn flex_ops_of(v: &[char]) -> (r: Vec<StyleOp<String>>)
    ensures
        ops_view(r@) == flex_ops(v@),
{
    let vn = trim_chars(v);
    if eq_ic_lit(&vn, "none") {
        return two(
            StyleOp::FlexGrow(Number::Text(lit("0"))),
            StyleOp::FlexShrink(Number::Text(lit("0"))),
        );
    }
    let parts = split_whitespace_chars(&vn);
    let ghost pv = parts@.map_values(|x: Vec<char>| x@);
    assert(pv == words(vn@));
    if parts.len() == 1 {
        let p0 = word_at(&parts, 0);
        assert(p0@ == pv[0]);
        return one(StyleOp::FlexUnit(str_of(&p0)));
    }
    let g = if parts.len() >= 1 {
        let p0 = word_at(&parts, 0);
        assert(p0@ == pv[0]);
        Number::TextOr(str_of(&p0), lit("0"))
    } else {
        Number::Text(lit("0"))
    };
    let sh = if parts.len() >= 2 {
        let p1 = word_at(&parts, 1);
        assert(p1@ == pv[1]);
        Number::TextOr(str_of(&p1), lit("1"))
    } else {
        Number::Text(lit("1"))
    };
    let mut r = two(StyleOp::FlexGrow(g), StyleOp::FlexShrink(sh));
    if parts.len() >= 3 {
        let p2 = word_at(&parts, 2);
        assert(p2@ == pv[2]);
        let b = parse_px_pct_auto(&trim_chars(&p2));
        let ghost before = r@;
        r.push(StyleOp::FlexBasis(b));
        assert(ops_view(r@) =~= ops_view(before).push(op_view(StyleOp::FlexBasis(b))));
    }
    r
}

fn border_ops_of(v: &[char]) -> (r: Vec<StyleOp<String>>)
    ensures
        ops_view(r@) == border_ops(v@),
{
    let l = to_lower(v);
    if contains_lit(&l, "none") {
        return one(StyleOp::Border(lit("0")));
    }
    let parts = split_whitespace_chars(v);
    let ghost pv = parts@.map_values(|x: Vec<char>| x@);
    assert(pv == words(v@));
    if parts.len() >= 1 {
        let p0 = word_at(&parts, 0);
        assert(p0@ == pv[0]);
        match parse_px_pct(&p0) {
            Length::Px(t) => one(StyleOp::Border(t)),
            _ => none_ops(),
        }
    } else {
        none_ops()
    }
}

fn color_ops_of(v: &[char], which: u8) -> (r: Vec<StyleOp<String>>)
    requires
        which < 3,
        color_spec(v@) != Outcome::<Option<Color>>::Panics,
    ensures
        ops_view(r@) == color_op(
            v@,
            if which == 0 {
                |c: Color| StyleOp::BorderColor(c)
            } else if which == 1 {
                |c: Color| StyleOp::Background(c)
            } else {
                |c: Color| StyleOp::TextColor(c)
            },
        ),
{
    match color_outcome(v) {
        Outcome::Returns(Some(c)) => {
            if which == 0 {
                one(StyleOp::BorderColor(c))
            } else if which == 1 {
                one(StyleOp::Background(c))
            } else {
                one(StyleOp::TextColor(c))
            }
        },
        _ => none_ops(),
    }
}

fn decl_ops_of(k: &[char], val: &[char]) -> (r: Vec<StyleOp<String>>)
    requires
        !decl_panics((k@, val@)),
    ensures
        ops_view(r@) == decl_ops(k@, val@),
{
    let v = trim_chars(val);
    if eq_lit(k, "display") {
        display_ops_of(&to_lower(&v))
    } else if eq_lit(k, "flexdirection") {
        match direction_of_value(&v) {
            Some(d) => one(StyleOp::FlexDirection(d)),
            None => none_ops(),
        }
    } else if eq_lit(k, "flexwrap") {
        let vl = to_lower(&v);
        if eq_lit(&vl, "wrap") {
            one(StyleOp::FlexWrap(FlexWrapMode::Wrap))
        } else if eq_lit(&vl, "nowrap") {
            one(StyleOp::FlexWrap(FlexWrapMode::NoWrap))
        } else {
            none_ops()
        }
    } else if eq_lit(k, "justifycontent") {
        match justify_of(&ident_norm_of(&v)) {
            Some(j) => one(StyleOp::JustifyContent(j)),
            None => none_ops(),
        }
    } else if eq_lit(k, "alignitems") {
        match align_of(&ident_norm_of(&v)) {
            Some(a) => one(StyleOp::AlignItems(a)),
            None => none_ops(),
        }
    } else if eq_lit(k, "gap") {
        two(StyleOp::RowGap(parse_px_pct(&v)), StyleOp::ColGap(parse_px_pct(&v)))
    } else if eq_lit(k, "rowgap") {
        one(StyleOp::RowGap(parse_px_pct(&v)))
    } else if eq_lit(k, "columngap") {
        one(StyleOp::ColGap(parse_px_pct(&v)))
    } else if eq_lit(k, "padding") {
        one(StyleOp::Padding(parse_px_pct(&v)))
    } else if eq_lit(k, "paddingtop") {
        one(StyleOp::PaddingTop(parse_px_pct(&v)))
    } else if eq_lit(k, "paddingright") {
        one(StyleOp::PaddingRight(parse_px_pct(&v)))
    } else if eq_lit(k, "paddingbottom") {
        one(StyleOp::PaddingBottom(parse_px_pct(&v)))
    } else if eq_lit(k, "paddingleft") {
        one(StyleOp::PaddingLeft(parse_px_pct(&v)))
    } else if eq_lit(k, "margin") {
        one(StyleOp::Margin(parse_px_pct_auto(&v)))
    } else if eq_lit(k, "margintop") {
        one(StyleOp::MarginTop(parse_px_pct_auto(&v)))
    } else if eq_lit(k, "marginright") {
        one(StyleOp::MarginRight(parse_px_pct_auto(&v)))
    } else if eq_lit(k, "marginbottom") {
        one(StyleOp::MarginBottom(parse_px_pct_auto(&v)))
    } else if eq_lit(k, "marginleft") {
        one(StyleOp::MarginLeft(parse_px_pct_auto(&v)))
    } else if eq_lit(k, "width") {
        one(StyleOp::Width(parse_px_pct_auto(&v)))
    } else if eq_lit(k, "height") {
        one(StyleOp::Height(parse_px_pct_auto(&v)))
    } else if eq_lit(k, "minwidth") {
        one(StyleOp::MinWidth(parse_px_pct_auto(&v)))
    } else if eq_lit(k, "minheight") {
        one(StyleOp::MinHeight(parse_px_pct_auto(&v)))
    } else if eq_lit(k, "maxwidth") {
        one(StyleOp::MaxWidth(parse_px_pct_auto(&v)))
    } else if eq_lit(k, "maxheight") {
        one(StyleOp::MaxHeight(parse_px_pct_auto(&v)))
    } else if eq_lit(k, "flex") {
        flex_ops_of(&v)
    } else if eq_lit(k, "flexbasis") {
        one(StyleOp::FlexBasis(parse_px_pct_auto(&v)))
    } else if eq_lit(k, "flexgrow") {
        one(StyleOp::FlexGrow(Number::Text(str_of(&v))))
    } else if eq_lit(k, "flexshrink") {
        one(StyleOp::FlexShrink(Number::Text(str_of(&v))))
    } else if eq_lit(k, "alignself") {
        match align_of(&ident_norm_of(&v)) {
            Some(a) => one(StyleOp::AlignSelf(a)),
            None => none_ops(),
        }
    } else if eq_lit(k, "bordercolor") {
        color_ops_of(&v, 0)
    } else if eq_lit(k, "borderright") {
        let parts = split_whitespace_chars(&v);
        let ghost pv = parts@.map_values(|x: Vec<char>| x@);
        assert(pv == words(v@));
        if parts.len() >= 1 {
            let p0 = word_at(&parts, 0);
            assert(p0@ == pv[0]);
            proof {
                reveal_strlit("px");
            }
            let t = trim_end_matches_lit(&p0, "px");
            one(StyleOp::BorderRight(str_of(&trim_chars(&t))))
        } else {
            none_ops()
        }
    } else if eq_lit(k, "borderradius") {
        one(StyleOp::BorderRadius(parse_px_pct(&v)))
    } else if eq_lit(k, "border") {
        border_ops_of(&v)
    } else if eq_lit(k, "background") || eq_lit(k, "backgroundcolor") {
        color_ops_of(&v, 1)
    } else if eq_lit(k, "color") {
        color_ops_of(&v, 2)
    } else if eq_lit(k, "fontsize") {
        proof {
            reveal_strlit("px");
        }
        let t = trim_end_matches_lit(&v, "px");
        one(StyleOp::FontSize(str_of(&trim_chars(&t))))
    } else if eq_lit(k, "fontweight") {
        let vl = to_lower(&v);
        if eq_lit(&vl, "bold") || eq_lit(&vl, "700") {
            one(StyleOp::FontWeight(Weight::Bold))
        } else if eq_lit(&vl, "normal") || eq_lit(&vl, "400") {
            one(StyleOp::FontWeight(Weight::Normal))
        } else {
            none_ops()
        }
    } else if eq_lit(k, "fontfamily") {
        if v.len() > 0 {
            one(StyleOp::FontFamily(str_of(&v)))
        } else {
            none_ops()
        }
    } else {
        none_ops()
    }
}

/// Apply parsed declarations to a style: the calls of each declaration appended in order.
pub fn apply_declarations(s: Style, decls: &[(String, String)]) -> (r: Style)
    requires
        !decls_panic(decls_view(decls@)),
    ensures
        r@ == s@ + decls_ops(decls_view(decls@)),
{
    let mut ops = s.ops;
    let mut i: usize = 0;
    let ghost d = decls_view(decls@);
    assert(ops_view(ops@) =~= s@ + decls_ops(d.take(0)));
    while i < decls.len()
        invariant
            i <= decls@.len(),
            d == decls_view(decls@),
            !decls_panic(d),
            ops_view(ops@) == s@ + decls_ops(d.take(i as int)),
        decreases decls.len() - i,
    {
        let k = chars_of(decls[i].0.as_str());
        let v = chars_of(decls[i].1.as_str());
        assert(d[i as int] == (k@, v@));
        assert(!decl_panics(d[i as int]));
        let mut more = decl_ops_of(&k, &v);
        let ghost before = ops@;
        let ghost mv = more@;
        ops.append(&mut more);
        assert(d.take(i + 1).drop_last() =~= d.take(i as int));
        assert(d.take(i + 1).last() == d[i as int]);
        assert(ops_view(ops@) =~= ops_view(before) + ops_view(mv));
        assert(s@ + decls_ops(d.take(i + 1)) =~= s@ + decls_ops(d.take(i as int)) + decl_ops(k@, v@));
        i += 1;
    }
    assert(d.take(decls@.len() as int) =~= d);
    Style { ops }
}


/// Some declaration's color value would make the color parser panic.
pub fn declarations_panic(decls: &[(String, String)]) -> (r: bool)
    ensures
        r == decls_panic(decls_view(decls@)),
{
    let mut i: usize = 0;
    let ghost d = decls_view(decls@);
    while i < decls.len()
        invariant
            i <= decls@.len(),
            d == decls_view(decls@),
            forall|j: int| 0 <= j < i ==> !#[trigger] decl_panics(d[j]),
        decreases decls.len() - i,
    {
        let k = chars_of(decls[i].0.as_str());
        let v = chars_of(decls[i].1.as_str());
        assert(d[i as int] == (k@, v@));
        if eq_lit(&k, "bordercolor") || eq_lit(&k, "background") || eq_lit(&k, "backgroundcolor")
            || eq_lit(&k, "color") {
            let t = trim_chars(&v);
            match color_outcome(&t) {
                Outcome::Panics => {
                    assert(decl_panics(d[i as int]));
                    return true;
                },
                _ => {},
            }
        }
        i += 1;
    }
    false
}

/// Merge `style` prop (string or object) into an existing style.
pub fn merge_style_from_props(s: Style, props: &ObjectMap) -> (r: Style)
    requires
        !decls_panic(style_decls_spec(*props)),
    ensures
        r@ == s@ + decls_ops(style_decls_spec(*props)),
{
    let decls = style_declarations_from_props(props);
    if decls.len() == 0 {
        assert(decls_ops(decls_view(decls@)) =~= Seq::<StyleOp<Seq<char>>>::empty());
        assert(s@ + Seq::<StyleOp<Seq<char>>>::empty() =~= s@);
        return s;
    }
    apply_declarations(s, &decls)
}

/// Merge `style` onto the scroll host: every declaration except `overflow`, `overflow-x` and
/// `overflow-y` (the host implements scrolling).
pub fn merge_scroll_host_style_from_props(s: Style, props: &ObjectMap) -> (r: Style)
    requires
        !decls_panic(style_decls_spec(*props)),
    ensures
        r@ == s@ + decls_ops(without_overflow(style_decls_spec(*props))),
{
    let decls = style_declarations_from_props(props);
    let filtered = decls_without_overflow(&decls);
    proof {
        lemma_without_overflow_panics(decls_view(decls@));
    }
    if filtered.len() == 0 {
        assert(decls_ops(decls_view(filtered@)) =~= Seq::<StyleOp<Seq<char>>>::empty());
        assert(s@ + Seq::<StyleOp<Seq<char>>>::empty() =~= s@);
        return s;
    }
    apply_declarations(s, &filtered)
}

/// Dropping the `overflow` declarations keeps a list free of panicking colors.
pub proof fn lemma_without_overflow_panics(d: Seq<(Seq<char>, Seq<char>)>)
    requires
        !decls_panic(d),
    ensures
        !decls_panic(without_overflow(d)),
    decreases d.len(),
{
    if d.len() > 0 {
        assert(!decls_panic(d.drop_last())) by {
            if decls_panic(d.drop_last()) {
                let i = choose|i: int| 0 <= i < d.drop_last().len() && #[trigger] decl_panics(d.drop_last()[i]);
                assert(decl_panics(d[i]));
            }
        }
        lemma_without_overflow_panics(d.drop_last());
        let w = without_overflow(d.drop_last());
        if without_overflow(d) != w {
            assert(without_overflow(d) == w.push(d.last()));
            assert(!decl_panics(d[d.len() - 1]));
            if decls_panic(without_overflow(d)) {
                let i = choose|i: int| 0 <= i < without_overflow(d).len() && #[trigger] decl_panics(without_overflow(d)[i]);
                if i < w.len() {
                    assert(without_overflow(d)[i] == w[i]);
                }
            }
        }
    }
}

} // verus!
