//! Style declarations: `(normalized key, raw value)` pairs read from a `style` string, and the
//! rules that look at them (scroll overflow, host sizing keys, `display: none`, direction).

use vstd::prelude::*;
use crate::value::{ObjectMap, Value};
use crate::text::{
    chars_of, eq_ic, eq_ic_lit, eq_lit, is_whitespace, is_ws, lemma_split_char_nonempty, lower,
    lower_char, lower_seq, remove_char, remove_char_chars, split_char, split_once,
    split_once_chars, split_whitespace_chars, string_from_chars, sub_chars, to_lower, trim,
    trim_chars, words,
};

verus! {

/// Declarations as character sequences.
pub open spec fn decls_view(d: Seq<(String, String)>) -> Seq<(Seq<char>, Seq<char>)> {
    d.map_values(|p: (String, String)| (p.0@, p.1@))
}

/// A key with white space and `-` removed and ASCII letters lower-cased.
pub open spec fn norm_key_spec(s: Seq<char>) -> Seq<char>
    decreases s.len(),
{
    if s.len() == 0 {
        s
    } else if is_ws(s.last()) || s.last() == '-' {
        norm_key_spec(s.drop_last())
    } else {
        norm_key_spec(s.drop_last()).push(lower(s.last()))
    }
}

/// One `;`-separated piece of an inline style: trimmed, split at its first `:`, kept when the
/// normalized key is not empty.
pub open spec fn decl_of_part(part: Seq<char>) -> Seq<(Seq<char>, Seq<char>)> {
    let p = trim(part);
    if p.len() == 0 {
        Seq::empty()
    } else {
        match split_once(p, ':') {
            Some((k, v)) => {
                let nk = norm_key_spec(k);
                if nk.len() == 0 {
                    Seq::empty()
                } else {
                    seq![(nk, trim(v))]
                }
            },
            None => Seq::empty(),
        }
    }
}

/// The declarations of a list of pieces, in order.
pub open spec fn decls_of_parts(parts: Seq<Seq<char>>) -> Seq<(Seq<char>, Seq<char>)>
    decreases parts.len(),
{
    if parts.len() == 0 {
        Seq::empty()
    } else {
        decls_of_parts(parts.drop_last()) + decl_of_part(parts.last())
    }
}

/// The declarations of an inline style string.
pub open spec fn inline_style_decls(css: Seq<char>) -> Seq<(Seq<char>, Seq<char>)> {
    decls_of_parts(split_char(css, ';'))
}

pub open spec fn is_overflow_key(k: Seq<char>) -> bool {
    k == "overflow"@ || k == "overflowx"@ || k == "overflowy"@
}

pub open spec fn is_outer_key(k: Seq<char>) -> bool {
    ||| k == "width"@
    ||| k == "height"@
    ||| k == "minwidth"@
    ||| k == "minheight"@
    ||| k == "maxwidth"@
    ||| k == "maxheight"@
    ||| k == "flex"@
    ||| k == "flexgrow"@
    ||| k == "flexshrink"@
    ||| k == "flexbasis"@
    ||| k == "margin"@
    ||| k == "margintop"@
    ||| k == "marginright"@
    ||| k == "marginbottom"@
    ||| k == "marginleft"@
}

/// `auto`, `scroll` or `overlay`, ignoring surrounding white space and ASCII case.
pub open spec fn overflow_value_scrolls(v: Seq<char>) -> bool {
    let t = lower_seq(trim(v));
    t == "auto"@ || t == "scroll"@ || t == "overlay"@
}

pub open spec fn decl_enables_scroll(d: (Seq<char>, Seq<char>)) -> bool {
    is_overflow_key(d.0) && overflow_value_scrolls(d.1)
}

/// Declarations kept on the inner stack of a scrolling `div`.
pub open spec fn inner_decls(d: Seq<(Seq<char>, Seq<char>)>) -> Seq<(Seq<char>, Seq<char>)>
    decreases d.len(),
{
    if d.len() == 0 {
        d
    } else if !is_overflow_key(d.last().0) && !is_outer_key(d.last().0) {
        inner_decls(d.drop_last()).push(d.last())
    } else {
        inner_decls(d.drop_last())
    }
}

/// Declarations without the `overflow` keys.
pub open spec fn without_overflow(d: Seq<(Seq<char>, Seq<char>)>) -> Seq<(Seq<char>, Seq<char>)>
    decreases d.len(),
{
    if d.len() == 0 {
        d
    } else if !is_overflow_key(d.last().0) {
        without_overflow(d.drop_last()).push(d.last())
    } else {
        without_overflow(d.drop_last())
    }
}

pub open spec fn decl_is_display_none(d: (Seq<char>, Seq<char>)) -> bool {
    d.0 == "display"@ && eq_ic(trim(d.1), "none"@)
}

/// Flex direction in the taffy sense.
#[derive(Clone, Copy, PartialEq, Eq, Debug)]
pub enum FlexDir {
    Row,
    Column,
    RowReverse,
    ColumnReverse,
}

/// The direction a `flex-direction` value names, spaces removed and ASCII case ignored.
pub open spec fn direction_value(v: Seq<char>) -> Option<FlexDir> {
    let t = remove_char(lower_seq(v), ' ');
    if t == "row"@ {
        Some(FlexDir::Row)
    } else if t == "column"@ {
        Some(FlexDir::Column)
    } else if t == "rowreverse"@ {
        Some(FlexDir::RowReverse)
    } else if t == "columnreverse"@ {
        Some(FlexDir::ColumnReverse)
    } else {
        None
    }
}

/// The last recognised `flex-direction`, else `fallback`.
pub open spec fn direction_spec(d: Seq<(Seq<char>, Seq<char>)>, fallback: FlexDir) -> FlexDir
    decreases d.len(),
{
    if d.len() == 0 {
        fallback
    } else {
        let prev = direction_spec(d.drop_last(), fallback);
        if d.last().0 == "flexdirection"@ {
            match direction_value(d.last().1) {
                Some(x) => x,
                None => prev,
            }
        } else {
            prev
        }
    }
}

/// The text whose `f32` value decides whether one declaration makes an element grow:
/// the value of `flex-grow`, or the first word of a `flex` shorthand other than `none`.
pub open spec fn grow_text(d: (Seq<char>, Seq<char>)) -> Option<Seq<char>> {
    let v = trim(d.1);
    if d.0 == "flexgrow"@ {
        Some(v)
    } else if d.0 == "flex"@ {
        if eq_ic(v, "none"@) {
            None
        } else if words(v).len() >= 1 {
            Some(words(v)[0])
        } else {
            None
        }
    } else {
        None
    }
}

pub open spec fn grow_texts(d: Seq<(Seq<char>, Seq<char>)>) -> Seq<Seq<char>>
    decreases d.len(),
{
    if d.len() == 0 {
        Seq::empty()
    } else {
        match grow_text(d.last()) {
            Some(t) => grow_texts(d.drop_last()).push(t),
            None => grow_texts(d.drop_last()),
        }
    }
}

/// `norm_key`: white space and `-` dropped, ASCII lower-cased.
pub fn norm_key(s: &str) -> (r: String)
    ensures
        r@ == norm_key_spec(s@),
{
    let v = chars_of(s);
    let k = norm_key_chars(&v);
    string_from_chars(&k)
}

fn norm_key_chars(s: &[char]) -> (r: Vec<char>)
    ensures
        r@ == norm_key_spec(s@),
{
    let mut r: Vec<char> = Vec::new();
    let mut i: usize = 0;
    while i < s.len()
        invariant
            i <= s@.len(),
            r@ == norm_key_spec(s@.take(i as int)),
        decreases s.len() - i,
    {
        assert(s@.take(i + 1).drop_last() =~= s@.take(i as int));
        let c = s[i];
        if !is_whitespace(c) && c != '-' {
            let l = lower_char(c);
            r.push(l);
        }
        i += 1;
    }
    assert(s@.take(s@.len() as int) =~= s@);
    r
}

fn decl_from_part(part: &[char]) -> (r: Option<(String, String)>)
    ensures
        match r {
            Some(p) => decl_of_part(part@) == seq![(p.0@, p.1@)],
            None => decl_of_part(part@) == Seq::<(Seq<char>, Seq<char>)>::empty(),
        },
{
    let p = trim_chars(part);
    if p.len() == 0 {
        return None;
    }
    match split_once_chars(&p, ':') {
        Some((k, v)) => {
            let nk = norm_key_chars(&k);
            if nk.len() == 0 {
                None
            } else {
                let tv = trim_chars(&v);
                Some((string_from_chars(&nk), string_from_chars(&tv)))
            }
        },
        None => None,
    }
}

/// Split `display:flex; flex-direction: row` into normalized keys and raw values.
pub fn parse_inline_style_string(css: &str) -> (r: Vec<(String, String)>)
    ensures
        decls_view(r@) == inline_style_decls(css@),
{
    let s = chars_of(css);
    let mut out: Vec<(String, String)> = Vec::new();
    let mut cur: Vec<char> = Vec::new();
    let mut i: usize = 0;
    proof {
        lemma_split_char_nonempty(s@.take(0), ';');
        assert(split_char(s@.take(0), ';') =~= seq![Seq::<char>::empty()]);
        assert(decls_view(out@) =~= decls_of_parts(split_char(s@.take(0), ';').drop_last()));
    }
    while i < s.len()
        invariant
            i <= s@.len(),
            split_char(s@.take(i as int), ';').len() >= 1,
            decls_view(out@) == decls_of_parts(split_char(s@.take(i as int), ';').drop_last()),
            cur@ == split_char(s@.take(i as int), ';').last(),
        decreases s.len() - i,
    {
        let c = s[i];
        let ghost t = s@.take(i + 1);
        let ghost p = split_char(s@.take(i as int), ';');
        assert(t.drop_last() =~= s@.take(i as int));
        if c == ';' {
            let d = decl_from_part(&cur);
            match d {
                Some(pair) => {
                    out.push(pair);
                },
                None => {},
            }
            cur = Vec::new();
            assert(split_char(t, ';') == p.push(Seq::<char>::empty()));
            assert(split_char(t, ';').drop_last() =~= p);
            assert(decls_view(out@) =~= decls_of_parts(p));
        } else {
            cur.push(c);
            assert(split_char(t, ';').drop_last() =~= p.drop_last());
            assert(cur@ =~= split_char(t, ';').last());
        }
        i += 1;
    }
    assert(s@.take(s@.len() as int) =~= s@);
    let ghost p = split_char(s@, ';');
    let d = decl_from_part(&cur);
    match d {
        Some(pair) => {
            out.push(pair);
        },
        None => {},
    }
    assert(decls_view(out@) =~= decls_of_parts(p));
    out
}

/// `overflow` / `overflow-x` / `overflow-y` (normalized).
pub fn is_overflow_style_key(k: &str) -> (r: bool)
    ensures
        r == is_overflow_key(k@),
{
    let v = chars_of(k);
    overflow_key_chars(&v)
}

fn overflow_key_chars(k: &[char]) -> (r: bool)
    ensures
        r == is_overflow_key(k@),
{
    eq_lit(k, "overflow") || eq_lit(k, "overflowx") || eq_lit(k, "overflowy")
}

/// Sizing and margin that belong on the scroll **viewport**; inner stack keeps flex, gap, padding, borders, etc.
pub fn is_scroll_host_outer_key(k: &str) -> (r: bool)
    ensures
        r == is_outer_key(k@),
{
    let v = chars_of(k);
    outer_key_chars(&v)
}

fn outer_key_chars(k: &[char]) -> (r: bool)
    ensures
        r == is_outer_key(k@),
{
    eq_lit(k, "width") || eq_lit(k, "height") || eq_lit(k, "minwidth") || eq_lit(k, "minheight")
        || eq_lit(k, "maxwidth") || eq_lit(k, "maxheight") || eq_lit(k, "flex") || eq_lit(
        k,
        "flexgrow",
    ) || eq_lit(k, "flexshrink") || eq_lit(k, "flexbasis") || eq_lit(k, "margin") || eq_lit(
        k,
        "margintop",
    ) || eq_lit(k, "marginright") || eq_lit(k, "marginbottom") || eq_lit(k, "marginleft")
}

/// `auto`, `scroll` or `overlay` (trimmed, any ASCII case).
pub fn overflow_value_is_scroll(v: &str) -> (r: bool)
    ensures
        r == overflow_value_scrolls(v@),
{
    let c = chars_of(v);
    let t = trim_chars(&c);
    let l = to_lower(&t);
    eq_lit(&l, "auto") || eq_lit(&l, "scroll") || eq_lit(&l, "overlay")
}

/// `overflow` / `overflow-x` / `overflow-y` of `auto`, `scroll`, or `overlay` → use a scroll viewport (CSS semantics).
pub fn overflow_enables_scroll(decls: &[(String, String)]) -> (r: bool)
    ensures
        r == exists|i: int| 0 <= i < decls@.len() && #[trigger] decl_enables_scroll(decls_view(decls@)[i]),
{
    let mut i: usize = 0;
    while i < decls.len()
        invariant
            i <= decls@.len(),
            forall|j: int| 0 <= j < i ==> !#[trigger] decl_enables_scroll(decls_view(decls@)[j]),
        decreases decls.len() - i,
    {
        let k = decls[i].0.as_str();
        let v = decls[i].1.as_str();
        if is_overflow_style_key(k) && overflow_value_is_scroll(v) {
            assert(decl_enables_scroll(decls_view(decls@)[i as int]));
            return true;
        }
        i += 1;
    }
    false
}

/// Declarations that stay on the inner stack of a scrolling `div`: neither `overflow` keys nor
/// the viewport's sizing and margin keys.
pub fn decls_for_scrollable_div_inner(decls: &[(String, String)]) -> (r: Vec<(String, String)>)
    ensures
        decls_view(r@) == inner_decls(decls_view(decls@)),
{
    let mut r: Vec<(String, String)> = Vec::new();
    let mut i: usize = 0;
    while i < decls.len()
        invariant
            i <= decls@.len(),
            decls_view(r@) == inner_decls(decls_view(decls@.take(i as int))),
        decreases decls.len() - i,
    {
        assert(decls_view(decls@.take(i + 1)).drop_last() =~= decls_view(decls@.take(i as int)));
        let k = decls[i].0.as_str();
        if !is_overflow_style_key(k) && !is_scroll_host_outer_key(k) {
            let pair = (decls[i].0.clone(), decls[i].1.clone());
            r.push(pair);
            assert(decls_view(r@) =~= inner_decls(decls_view(decls@.take(i + 1))));
        }
        i += 1;
    }
    assert(decls@.take(decls@.len() as int) =~= decls@);
    r
}

/// The declarations without `overflow`, `overflow-x` and `overflow-y`.
pub fn decls_without_overflow(decls: &[(String, String)]) -> (r: Vec<(String, String)>)
    ensures
        decls_view(r@) == without_overflow(decls_view(decls@)),
{
    let mut r: Vec<(String, String)> = Vec::new();
    let mut i: usize = 0;
    while i < decls.len()
        invariant
            i <= decls@.len(),
            decls_view(r@) == without_overflow(decls_view(decls@.take(i as int))),
        decreases decls.len() - i,
    {
        assert(decls_view(decls@.take(i + 1)).drop_last() =~= decls_view(decls@.take(i as int)));
        let k = decls[i].0.as_str();
        if !is_overflow_style_key(k) {
            let pair = (decls[i].0.clone(), decls[i].1.clone());
            r.push(pair);
            assert(decls_view(r@) =~= without_overflow(decls_view(decls@.take(i + 1))));
        }
        i += 1;
    }
    assert(decls@.take(decls@.len() as int) =~= decls@);
    r
}

/// Some declaration is `display: none`.
pub fn display_is_none(decls: &[(String, String)]) -> (r: bool)
    ensures
        r == exists|i: int| 0 <= i < decls@.len() && #[trigger] decl_is_display_none(decls_view(decls@)[i]),
{
    let mut i: usize = 0;
    while i < decls.len()
        invariant
            i <= decls@.len(),
            forall|j: int| 0 <= j < i ==> !#[trigger] decl_is_display_none(decls_view(decls@)[j]),
        decreases decls.len() - i,
    {
        let k = chars_of(decls[i].0.as_str());
        let v = chars_of(decls[i].1.as_str());
        let tv = trim_chars(&v);
        if eq_lit(&k, "display") && eq_ic_lit(&tv, "none") {
            assert(decl_is_display_none(decls_view(decls@)[i as int]));
            return true;
        }
        i += 1;
    }
    false
}

/// The direction a `flex-direction` value names.
pub(crate) fn direction_of_value(v: &[char]) -> (r: Option<FlexDir>)
    ensures
        r == direction_value(v@),
{
    let l = to_lower(v);
    let t = remove_char_chars(&l, ' ');
    if eq_lit(&t, "row") {
        Some(FlexDir::Row)
    } else if eq_lit(&t, "column") {
        Some(FlexDir::Column)
    } else if eq_lit(&t, "rowreverse") {
        Some(FlexDir::RowReverse)
    } else if eq_lit(&t, "columnreverse") {
        Some(FlexDir::ColumnReverse)
    } else {
        None
    }
}

/// The direction of the last recognised `flex-direction` declaration, else `fallback`.
pub fn direction_from_decls(decls: &[(String, String)], fallback: FlexDir) -> (r: FlexDir)
    ensures
        r == direction_spec(decls_view(decls@), fallback),
{
    let mut d = fallback;
    let mut i: usize = 0;
    while i < decls.len()
        invariant
            i <= decls@.len(),
            d == direction_spec(decls_view(decls@.take(i as int)), fallback),
        decreases decls.len() - i,
    {
        assert(decls_view(decls@.take(i + 1)).drop_last() =~= decls_view(decls@.take(i as int)));
        let k = chars_of(decls[i].0.as_str());
        if eq_lit(&k, "flexdirection") {
            let v = chars_of(decls[i].1.as_str());
            match direction_of_value(&v) {
                Some(x) => {
                    d = x;
                },
                None => {},
            }
        }
        i += 1;
    }
    assert(decls@.take(decls@.len() as int) =~= decls@);
    d
}

fn grow_text_of(k: &[char], val: &[char]) -> (r: Option<Vec<char>>)
    ensures
        match r {
            Some(t) => grow_text((k@, val@)) == Some(t@),
            None => grow_text((k@, val@)) is None,
        },
{
    let v = trim_chars(val);
    if eq_lit(k, "flexgrow") {
        Some(v)
    } else if eq_lit(k, "flex") {
        if eq_ic_lit(&v, "none") {
            None
        } else {
            let parts = split_whitespace_chars(&v);
            if parts.len() >= 1 {
                assert(parts@.map_values(|x: Vec<char>| x@)[0] == parts@[0]@);
                let first = sub_chars(&parts[0], 0, parts[0].len());
                assert(first@ =~= parts@[0]@);
                Some(first)
            } else {
                None
            }
        }
    } else {
        None
    }
}

/// The texts whose `f32` values decide whether the declarations make a scroll region fill its
/// parent: the region fills when one of them parses to a number greater than zero.
pub fn scroll_fill_grow_texts(decls: &[(String, String)]) -> (r: Vec<String>)
    ensures
        r@.map_values(|s: String| s@) == grow_texts(decls_view(decls@)),
{
    let mut r: Vec<String> = Vec::new();
    let mut i: usize = 0;
    while i < decls.len()
        invariant
            i <= decls@.len(),
            r@.map_values(|s: String| s@) == grow_texts(decls_view(decls@.take(i as int))),
        decreases decls.len() - i,
    {
        assert(decls_view(decls@.take(i + 1)).drop_last() =~= decls_view(decls@.take(i as int)));
        let k = chars_of(decls[i].0.as_str());
        let v = chars_of(decls[i].1.as_str());
        match grow_text_of(&k, &v) {
            Some(t) => {
                r.push(string_from_chars(&t));
                assert(r@.map_values(|s: String| s@) =~= grow_texts(decls_view(decls@.take(i + 1))));
            },
            None => {},
        }
        i += 1;
    }
    assert(decls@.take(decls@.len() as int) =~= decls@);
    r
}


/// The declarations of a style object: each string, number or boolean entry under its
/// normalized key; other values are skipped.
pub open spec fn style_object_decls(e: Seq<(String, Value)>) -> Seq<(Seq<char>, Seq<char>)>
    decreases e.len(),
{
    if e.len() == 0 {
        Seq::empty()
    } else {
        let prev = style_object_decls(e.drop_last());
        let k = norm_key_spec(e.last().0@);
        match e.last().1 {
            Value::Str(s) => prev.push((k, s@)),
            Value::Number(n) => prev.push((k, n.style_text@)),
            Value::Bool(b) => prev.push((k, if b { "true"@ } else { "false"@ })),
            _ => prev,
        }
    }
}

/// The declarations of the `style` prop: a string is parsed as inline style, an object read
/// entry by entry; anything else gives none.
pub open spec fn style_decls_spec(props: ObjectMap) -> Seq<(Seq<char>, Seq<char>)> {
    match props.get_spec("style"@) {
        Some(Value::Str(s)) => inline_style_decls(s@),
        Some(Value::Object(o)) => style_object_decls(o.entries_seq()),
        _ => Seq::empty(),
    }
}

/// The declarations of a style object, in its iteration order.
pub fn style_object_pairs(map: &ObjectMap) -> (r: Vec<(String, String)>)
    ensures
        decls_view(r@) == style_object_decls(map.entries_seq()),
{
    let n = map.len();
    let mut out: Vec<(String, String)> = Vec::new();
    let mut i: usize = 0;
    while i < n
        invariant
            i <= n == map.entries_seq().len(),
            decls_view(out@) == style_object_decls(map.entries_seq().take(i as int)),
        decreases n - i,
    {
        let ghost e = map.entries_seq();
        assert(e.take(i + 1).drop_last() =~= e.take(i as int));
        let entry = map.entry(i);
        let key = norm_key(entry.0.as_str());
        match &entry.1 {
            Value::Str(s) => {
                let v = string_from_chars(&chars_of(s.as_str()));
                out.push((key, v));
            },
            Value::Number(num) => {
                let v = string_from_chars(&chars_of(num.style_text.as_str()));
                out.push((key, v));
            },
            Value::Bool(b) => {
                let v = if *b {
                    string_from_chars(&chars_of("true"))
                } else {
                    string_from_chars(&chars_of("false"))
                };
                out.push((key, v));
            },
            _ => {},
        }
        assert(decls_view(out@) =~= style_object_decls(e.take(i + 1)));
        i += 1;
    }
    assert(map.entries_seq().take(n as int) =~= map.entries_seq());
    out
}

/// Declarations from `style` prop: either a string or an object (React-like `{ display: "flex" }`).
pub fn style_declarations_from_props(props: &ObjectMap) -> (r: Vec<(String, String)>)
    ensures
        decls_view(r@) == style_decls_spec(*props),
{
    match props.get("style") {
        Some(Value::Str(s)) => parse_inline_style_string(s.as_str()),
        Some(Value::Object(o)) => style_object_pairs(o),
        _ => {
            let r: Vec<(String, String)> = Vec::new();
            assert(decls_view(r@) =~= Seq::<(Seq<char>, Seq<char>)>::empty());
            r
        },
    }
}

} // verus!
