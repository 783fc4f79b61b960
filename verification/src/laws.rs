//! Properties that hold across the library's functions.

use vstd::prelude::*;
use crate::decl::{
    decl_enables_scroll, decl_is_display_none, decl_of_part, decls_of_parts, inline_style_decls,
    inner_decls, is_outer_key, is_overflow_key, norm_key_spec, style_decls_spec, without_overflow,
};
use crate::style::{decl_ops, decl_panics, decls_ops, decls_panic, DisplayMode, StyleOp};
use crate::color::{
    all_hex, boundary_at, byte_len, byte_slice, color_spec, expand_hex3_spec, hex6_spec, hex8_spec,
    hex_digit_value, hex_u8, hex_value, is_boundary, is_hex_digit, lemma_byte_len_strict,
    lemma_byte_len_take_step, named_color, Color, Outcome,
};
use crate::decl::{decls_view, grow_text, grow_texts, style_object_decls};
use crate::props::{appearance_keys, appearance_spec, is_str_insertion, props_string_spec};
use crate::value::{entry_get, is_insertion, key_index, lemma_key_index, ObjectMap, Value};
use crate::text::{is_ws, lower, lower_seq, split_char, trim, trim_end, trim_start};
use crate::element::{explicit_width, key_is_width, scroll_body_ops, scroll_host_ops};
use crate::style::Length;

verus! {

/// A normalized key: no white space, no `-`, no ASCII capital letter.
pub open spec fn is_normalized_key(k: Seq<char>) -> bool {
    forall|i: int| 0 <= i < k.len() ==> !is_ws(#[trigger] k[i]) && k[i] != '-' && !('A' <= k[i] && k[i] <= 'Z')
}

proof fn lemma_lower_props(c: char)
    ensures
        !('A' <= lower(c) && lower(c) <= 'Z'),
        lower(c) == '-' <==> c == '-',
        is_ws(lower(c)) <==> is_ws(c),
        !('A' <= c && c <= 'Z') ==> lower(c) == c,
{
}

proof fn lemma_norm_key_normalized(s: Seq<char>)
    ensures
        is_normalized_key(norm_key_spec(s)),
    decreases s.len(),
{
    if s.len() > 0 {
        lemma_norm_key_normalized(s.drop_last());
        lemma_lower_props(s.last());
        let p = norm_key_spec(s.drop_last());
        if !(is_ws(s.last()) || s.last() == '-') {
            assert forall|i: int| 0 <= i < p.push(lower(s.last())).len() implies !is_ws(
                #[trigger] p.push(lower(s.last()))[i],
            ) && p.push(lower(s.last()))[i] != '-' && !('A' <= p.push(lower(s.last()))[i]
                && p.push(lower(s.last()))[i] <= 'Z') by {
                if i < p.len() {
                    assert(p.push(lower(s.last()))[i] == p[i]);
                }
            }
        }
    }
}

proof fn lemma_norm_key_fixes_normalized(k: Seq<char>)
    requires
        is_normalized_key(k),
    ensures
        norm_key_spec(k) == k,
    decreases k.len(),
{
    if k.len() > 0 {
        assert(is_normalized_key(k.drop_last())) by {
            assert forall|i: int| 0 <= i < k.drop_last().len() implies !is_ws(#[trigger] k.drop_last()[i])
                && k.drop_last()[i] != '-' && !('A' <= k.drop_last()[i] && k.drop_last()[i] <= 'Z') by {
                assert(k.drop_last()[i] == k[i]);
            }
        }
        lemma_norm_key_fixes_normalized(k.drop_last());
        let c = k[k.len() - 1];
        lemma_lower_props(c);
        assert(k.drop_last().push(k.last()) =~= k);
    }
}

/// Normalizing a key twice is normalizing it once.
pub proof fn law_norm_key_idempotent(s: Seq<char>)
    ensures
        norm_key_spec(norm_key_spec(s)) == norm_key_spec(s),
{
    lemma_norm_key_normalized(s);
    lemma_norm_key_fixes_normalized(norm_key_spec(s));
}

proof fn lemma_trim_start_props(s: Seq<char>)
    ensures
        trim_start(s).len() > 0 ==> !is_ws(trim_start(s)[0]),
        trim_start(s).len() <= s.len(),
        trim_start(s) == s.skip(s.len() - trim_start(s).len()),
    decreases s.len(),
{
    if s.len() > 0 && is_ws(s[0]) {
        lemma_trim_start_props(s.drop_first());
        assert(s.drop_first().skip(s.drop_first().len() - trim_start(s).len()) =~= s.skip(
            s.len() - trim_start(s).len(),
        ));
    } else {
        assert(s.skip(0) =~= s);
    }
}

proof fn lemma_trim_end_props(s: Seq<char>)
    ensures
        trim_end(s).len() > 0 ==> !is_ws(trim_end(s).last()),
        trim_end(s).len() <= s.len(),
        trim_end(s) == s.take(trim_end(s).len() as int),
    decreases s.len(),
{
    if s.len() > 0 && is_ws(s.last()) {
        lemma_trim_end_props(s.drop_last());
        assert(s.drop_last().take(trim_end(s).len() as int) =~= s.take(trim_end(s).len() as int));
    } else {
        assert(s.take(s.len() as int) =~= s);
    }
}

/// The result of `trim` neither starts nor ends with white space.
pub proof fn lemma_trim_ends(s: Seq<char>)
    ensures
        trim(s).len() > 0 ==> !is_ws(trim(s)[0]) && !is_ws(trim(s).last()),
{
    let t = trim_start(s);
    lemma_trim_start_props(s);
    lemma_trim_end_props(t);
    if trim(s).len() > 0 {
        assert(trim(s)[0] == t[0]);
    }
}

proof fn lemma_trim_fixes(s: Seq<char>)
    requires
        s.len() > 0 ==> !is_ws(s[0]) && !is_ws(s.last()),
    ensures
        trim(s) == s,
{
}

/// Trimming twice is trimming once.
pub proof fn law_trim_idempotent(s: Seq<char>)
    ensures
        trim(trim(s)) == trim(s),
{
    lemma_trim_ends(s);
    lemma_trim_fixes(trim(s));
}

/// Every declaration an inline style string gives has a non-empty normalized key and a value
/// without surrounding white space.
pub proof fn law_inline_decls_normalized(css: Seq<char>)
    ensures
        forall|i: int|
            0 <= i < inline_style_decls(css).len() ==> {
                let d = #[trigger] inline_style_decls(css)[i];
                &&& d.0.len() > 0
                &&& is_normalized_key(d.0)
                &&& trim(d.1) == d.1
            },
{
    lemma_parts_normalized(split_char(css, ';'));
}

proof fn lemma_parts_normalized(parts: Seq<Seq<char>>)
    ensures
        forall|i: int|
            0 <= i < decls_of_parts(parts).len() ==> {
                let d = #[trigger] decls_of_parts(parts)[i];
                &&& d.0.len() > 0
                &&& is_normalized_key(d.0)
                &&& trim(d.1) == d.1
            },
    decreases parts.len(),
{
    if parts.len() > 0 {
        lemma_parts_normalized(parts.drop_last());
        let prev = decls_of_parts(parts.drop_last());
        let last = decl_of_part(parts.last());
        assert forall|i: int| 0 <= i < decls_of_parts(parts).len() implies {
            let d = #[trigger] decls_of_parts(parts)[i];
            &&& d.0.len() > 0
            &&& is_normalized_key(d.0)
            &&& trim(d.1) == d.1
        } by {
            if i < prev.len() {
                assert(decls_of_parts(parts)[i] == prev[i]);
            } else {
                let p = trim(parts.last());
                match crate::text::split_once(p, ':') {
                    Some((k, v)) => {
                        lemma_norm_key_normalized(k);
                        law_trim_idempotent(v);
                    },
                    None => {},
                }
            }
        }
    }
}

proof fn lemma_split_char_concat(a: Seq<char>, b: Seq<char>, d: char)
    ensures
        split_char(a + seq![d] + b, d) == split_char(a, d) + split_char(b, d),
    decreases b.len(),
{
    if b.len() == 0 {
        assert(a + seq![d] + b =~= a.push(d));
        assert((a.push(d)).drop_last() =~= a);
        crate::text::lemma_split_char_nonempty(a, d);
    } else {
        lemma_split_char_concat(a, b.drop_last(), d);
        crate::text::lemma_split_char_nonempty(b.drop_last(), d);
        crate::text::lemma_split_char_nonempty(a, d);
        let x = a + seq![d] + b;
        assert(x.drop_last() =~= a + seq![d] + b.drop_last());
        assert(x.last() == b.last());
        let sa = split_char(a, d);
        let sb = split_char(b.drop_last(), d);
        if b.last() == d {
            assert((sa + sb).push(Seq::<char>::empty()) =~= sa + sb.push(Seq::<char>::empty()));
        } else {
            assert((sa + sb).update((sa + sb).len() - 1, (sa + sb).last().push(b.last())) =~= sa
                + sb.update(sb.len() - 1, sb.last().push(b.last())));
        }
    }
}

proof fn lemma_decls_of_parts_concat(p: Seq<Seq<char>>, q: Seq<Seq<char>>)
    ensures
        decls_of_parts(p + q) == decls_of_parts(p) + decls_of_parts(q),
    decreases q.len(),
{
    if q.len() == 0 {
        assert(p + q =~= p);
        assert(decls_of_parts(p) + decls_of_parts(q) =~= decls_of_parts(p));
    } else {
        lemma_decls_of_parts_concat(p, q.drop_last());
        assert((p + q).drop_last() =~= p + q.drop_last());
        assert((p + q).last() == q.last());
        assert(decls_of_parts(p + q) =~= decls_of_parts(p) + decls_of_parts(q));
    }
}

/// An inline style joined with `;` declares what its two sides declare, in order.
pub proof fn law_inline_style_concat(a: Seq<char>, b: Seq<char>)
    ensures
        inline_style_decls(a + seq![';'] + b) == inline_style_decls(a) + inline_style_decls(b),
{
    lemma_split_char_concat(a, b, ';');
    lemma_decls_of_parts_concat(split_char(a, ';'), split_char(b, ';'));
}

/// Applying two declaration lists one after the other applies their concatenation.
pub proof fn law_apply_declarations_concat(
    d1: Seq<(Seq<char>, Seq<char>)>,
    d2: Seq<(Seq<char>, Seq<char>)>,
)
    ensures
        decls_ops(d1 + d2) == decls_ops(d1) + decls_ops(d2),
    decreases d2.len(),
{
    if d2.len() == 0 {
        assert(d1 + d2 =~= d1);
        assert(decls_ops(d1) + decls_ops(d2) =~= decls_ops(d1));
    } else {
        law_apply_declarations_concat(d1, d2.drop_last());
        assert((d1 + d2).drop_last() =~= d1 + d2.drop_last());
        assert((d1 + d2).last() == d2.last());
        assert(decls_ops(d1 + d2) =~= decls_ops(d1) + decls_ops(d2));
    }
}

/// No `overflow` key is one that makes style calls.
proof fn lemma_overflow_keys_make_no_calls(k: Seq<char>, v: Seq<char>)
    requires
        is_overflow_key(k),
    ensures
        decl_ops(k, v) == Seq::<StyleOp<Seq<char>>>::empty(),
{
    reveal_strlit("overflow");
    reveal_strlit("overflowx");
    reveal_strlit("overflowy");
    reveal_strlit("display");
    reveal_strlit("flexdirection");
    reveal_strlit("flexwrap");
    reveal_strlit("justifycontent");
    reveal_strlit("alignitems");
    reveal_strlit("gap");
    reveal_strlit("rowgap");
    reveal_strlit("columngap");
    reveal_strlit("padding");
    reveal_strlit("paddingtop");
    reveal_strlit("paddingright");
    reveal_strlit("paddingbottom");
    reveal_strlit("paddingleft");
    reveal_strlit("margin");
    reveal_strlit("margintop");
    reveal_strlit("marginright");
    reveal_strlit("marginbottom");
    reveal_strlit("marginleft");
    reveal_strlit("width");
    reveal_strlit("height");
    reveal_strlit("minwidth");
    reveal_strlit("minheight");
    reveal_strlit("maxwidth");
    reveal_strlit("maxheight");
    reveal_strlit("flex");
    reveal_strlit("flexbasis");
    reveal_strlit("flexgrow");
    reveal_strlit("flexshrink");
    reveal_strlit("alignself");
    reveal_strlit("bordercolor");
    reveal_strlit("borderright");
    reveal_strlit("borderradius");
    reveal_strlit("border");
    reveal_strlit("background");
    reveal_strlit("backgroundcolor");
    reveal_strlit("color");
    reveal_strlit("fontsize");
    reveal_strlit("fontweight");
    reveal_strlit("fontfamily");
    assert(k.len() > 0 && k[0] == 'o');
}

/// `overflow`, `overflow-x` and `overflow-y` make no style call, so leaving them out of a
/// declaration list applies the same calls.
pub proof fn law_overflow_keys_make_no_calls(d: Seq<(Seq<char>, Seq<char>)>)
    ensures
        decls_ops(without_overflow(d)) == decls_ops(d),
    decreases d.len(),
{
    if d.len() > 0 {
        law_overflow_keys_make_no_calls(d.drop_last());
        let k = d.last().0;
        if is_overflow_key(k) {
            lemma_overflow_keys_make_no_calls(k, d.last().1);
            assert(decls_ops(d) =~= decls_ops(d.drop_last()));
        } else {
            let w = without_overflow(d.drop_last()).push(d.last());
            assert(w.drop_last() =~= without_overflow(d.drop_last()));
        }
    }
}

/// The scroll host's merge of the `style` prop, which leaves out the `overflow` keys, makes the
/// same calls as the ordinary merge.
pub proof fn law_scroll_host_merge_is_merge(props: ObjectMap)
    ensures
        decls_ops(without_overflow(style_decls_spec(props))) == decls_ops(style_decls_spec(props)),
{
    law_overflow_keys_make_no_calls(style_decls_spec(props));
}

/// Applying `a ++ b` to a style is applying `a`, then `b` to the result: declarations apply one
/// at a time, left to right (so of a repeated key the last one's calls come last). When `a ++ b`
/// applies without a panicking color, so do `a` and `b`.
pub proof fn law_apply_declarations_in_turn(
    s: Seq<StyleOp<Seq<char>>>,
    a: Seq<(String, String)>,
    b: Seq<(String, String)>,
)
    ensures
        decls_view(a + b) == decls_view(a) + decls_view(b),
        !decls_panic(decls_view(a + b)) ==> !decls_panic(decls_view(a)) && !decls_panic(
            decls_view(b),
        ),
        s + decls_ops(decls_view(a + b)) == (s + decls_ops(decls_view(a))) + decls_ops(
            decls_view(b),
        ),
{
    let (va, vb) = (decls_view(a), decls_view(b));
    assert(decls_view(a + b) =~= va + vb);
    law_apply_declarations_concat(va, vb);
    if !decls_panic(va + vb) {
        assert forall|i: int| 0 <= i < va.len() implies !#[trigger] decl_panics(va[i]) by {
            assert((va + vb)[i] == va[i]);
        }
        assert forall|i: int| 0 <= i < vb.len() implies !#[trigger] decl_panics(vb[i]) by {
            assert((va + vb)[va.len() + i] == vb[i]);
        }
    }
}

/// The keys that declarations act on (normalized: lower case, no `-`, no white space).
pub open spec fn is_style_key(k: Seq<char>) -> bool {
    ||| k == "display"@
    ||| k == "flexdirection"@
    ||| k == "flexwrap"@
    ||| k == "justifycontent"@
    ||| k == "alignitems"@
    ||| k == "gap"@
    ||| k == "rowgap"@
    ||| k == "columngap"@
    ||| k == "padding"@
    ||| k == "paddingtop"@
    ||| k == "paddingright"@
    ||| k == "paddingbottom"@
    ||| k == "paddingleft"@
    ||| k == "margin"@
    ||| k == "margintop"@
    ||| k == "marginright"@
    ||| k == "marginbottom"@
    ||| k == "marginleft"@
    ||| k == "width"@
    ||| k == "height"@
    ||| k == "minwidth"@
    ||| k == "minheight"@
    ||| k == "maxwidth"@
    ||| k == "maxheight"@
    ||| k == "flex"@
    ||| k == "flexbasis"@
    ||| k == "flexgrow"@
    ||| k == "flexshrink"@
    ||| k == "alignself"@
    ||| k == "bordercolor"@
    ||| k == "borderright"@
    ||| k == "borderradius"@
    ||| k == "border"@
    ||| k == "background"@
    ||| k == "backgroundcolor"@
    ||| k == "color"@
    ||| k == "fontsize"@
    ||| k == "fontweight"@
    ||| k == "fontfamily"@
}

/// Declarations whose keys are none of the supported ones (unknown properties, keys that are
/// not normalized such as `flex-grow`, and the `overflow` keys) make no style calls: applying
/// them leaves a style as it was.
pub proof fn law_unknown_keys_make_no_calls(d: Seq<(Seq<char>, Seq<char>)>)
    requires
        forall|i: int| 0 <= i < d.len() ==> !is_style_key(#[trigger] d[i].0),
    ensures
        decls_ops(d) == Seq::<StyleOp<Seq<char>>>::empty(),
    decreases d.len(),
{
    if d.len() > 0 {
        assert forall|i: int| 0 <= i < d.drop_last().len() implies !is_style_key(
            #[trigger] d.drop_last()[i].0,
        ) by {
            assert(d.drop_last()[i] == d[i]);
        }
        law_unknown_keys_make_no_calls(d.drop_last());
        assert(!is_style_key(d[d.len() - 1].0));
        assert(decl_ops(d.last().0, d.last().1) =~= Seq::<StyleOp<Seq<char>>>::empty());
        assert(decls_ops(d) =~= Seq::<StyleOp<Seq<char>>>::empty());
    }
}

/// The grow texts of joined declaration lists are those of each list, joined: whether a scroll
/// region fills its parent is whether either list has a positive grow text, in any order.
pub proof fn law_grow_texts_concat(
    d1: Seq<(Seq<char>, Seq<char>)>,
    d2: Seq<(Seq<char>, Seq<char>)>,
)
    ensures
        grow_texts(d1 + d2) == grow_texts(d1) + grow_texts(d2),
    decreases d2.len(),
{
    if d2.len() == 0 {
        assert(d1 + d2 =~= d1);
        assert(grow_texts(d1) + grow_texts(d2) =~= grow_texts(d1));
    } else {
        law_grow_texts_concat(d1, d2.drop_last());
        assert((d1 + d2).drop_last() =~= d1 + d2.drop_last());
        assert((d1 + d2).last() == d2.last());
        match grow_text(d2.last()) {
            Some(t) => {
                assert(grow_texts(d1 + d2) =~= grow_texts(d1) + grow_texts(d2));
            },
            None => {},
        }
    }
}

/// A list with a `display: none` declaration hides the element when applied.
pub proof fn law_display_none_hides(d: Seq<(Seq<char>, Seq<char>)>, i: int)
    requires
        0 <= i < d.len(),
        decl_is_display_none(d[i]),
    ensures
        decls_ops(d).contains(StyleOp::<Seq<char>>::Display(DisplayMode::Hidden)),
    decreases d.len(),
{
    reveal_strlit("none");
    if i == d.len() - 1 {
        let v = trim(d.last().1);
        assert(lower_seq("none"@) =~= "none"@);
        assert(lower_seq(v) == "none"@);
        let ops = decl_ops(d.last().0, d.last().1);
        assert(ops == seq![StyleOp::<Seq<char>>::Display(DisplayMode::Hidden)]);
        let all = decls_ops(d.drop_last()) + ops;
        assert(all[decls_ops(d.drop_last()).len() as int] == StyleOp::<Seq<char>>::Display(DisplayMode::Hidden));
    } else {
        assert(d.drop_last()[i] == d[i]);
        law_display_none_hides(d.drop_last(), i);
        let prev = decls_ops(d.drop_last());
        let j = choose|j: int| 0 <= j < prev.len() && prev[j] == StyleOp::<Seq<char>>::Display(DisplayMode::Hidden);
        assert((prev + decl_ops(d.last().0, d.last().1))[j] == prev[j]);
    }
}

/// The declarations kept inside a scrolling `div` name neither `overflow` keys nor the
/// viewport's sizing and margin keys, so they never make the inner stack scroll; filtering
/// them again changes nothing.
pub proof fn law_inner_decls(d: Seq<(Seq<char>, Seq<char>)>)
    ensures
        forall|i: int|
            0 <= i < inner_decls(d).len() ==> !is_overflow_key(#[trigger] inner_decls(d)[i].0)
                && !is_outer_key(inner_decls(d)[i].0),
        forall|i: int| 0 <= i < inner_decls(d).len() ==> !#[trigger] decl_enables_scroll(inner_decls(d)[i]),
        inner_decls(inner_decls(d)) == inner_decls(d),
    decreases d.len(),
{
    if d.len() > 0 {
        law_inner_decls(d.drop_last());
        let w = inner_decls(d.drop_last());
        if !is_overflow_key(d.last().0) && !is_outer_key(d.last().0) {
            assert(inner_decls(d) == w.push(d.last()));
            assert(w.push(d.last()).drop_last() =~= w);
            assert forall|i: int| 0 <= i < inner_decls(d).len() implies !is_overflow_key(
                #[trigger] inner_decls(d)[i].0,
            ) && !is_outer_key(inner_decls(d)[i].0) by {
                if i < w.len() {
                    assert(inner_decls(d)[i] == w[i]);
                }
            }
        }
    }
}


proof fn lemma_str_insertion_get(
    old: Seq<(String, Value)>,
    new: Seq<(String, Value)>,
    k: Seq<char>,
    sv: Seq<char>,
    k2: Seq<char>,
)
    requires
        is_str_insertion(old, new, k, sv),
    ensures
        k2 == k ==> (entry_get(new, k2) matches Some(Value::Str(s)) && s@ == sv),
        k2 != k ==> entry_get(new, k2) == entry_get(old, k2),
{
    lemma_key_index(old, k);
    lemma_key_index(new, k2);
    lemma_key_index(old, k2);
    if k2 == k {
        match key_index(old, k) {
            Some(i) => {
                match key_index(new, k2) {
                    Some(x) => {
                        if x < i {
                            assert(new[x] == old[x]);
                        } else if x > i {
                            assert(new[i].0@ == k2);
                        }
                    },
                    None => {
                        assert(new[i].0@ == k2);
                    },
                }
            },
            None => {
                let last = new.len() - 1;
                match key_index(new, k2) {
                    Some(x) => {
                        if x < last {
                            assert(new[x] == old[x]);
                        }
                    },
                    None => {
                        assert(new[last].0@ == k2);
                    },
                }
            },
        }
    } else {
        let changed: int = match key_index(old, k) {
            Some(i) => i,
            None => new.len() - 1,
        };
        assert(new[changed].0@ == k);
        match key_index(new, k2) {
            Some(x) => {
                assert(x != changed);
                assert(new[x] == old[x]);
                match key_index(old, k2) {
                    Some(y) => {
                        if y < x {
                            assert(y != changed);
                            assert(new[y] == old[y]);
                        }
                    },
                    None => {},
                }
            },
            None => {
                match key_index(old, k2) {
                    Some(y) => {
                        assert(y != changed);
                        assert(new[y] == old[y]);
                    },
                    None => {},
                }
            },
        }
    }
}

/// A read after a write: after `insert(k, v)` the map gives `v` for `k`, and every other key
/// keeps its value.
pub proof fn law_get_after_insert(old: ObjectMap, new: ObjectMap, k: Seq<char>, v: Value, k2: Seq<char>)
    requires
        is_insertion(old.entries_seq(), new.entries_seq(), k, v),
    ensures
        new.get_spec(k) == Some(v),
        k2 != k ==> new.get_spec(k2) == old.get_spec(k2),
{
    let o = old.entries_seq();
    let n = new.entries_seq();
    lemma_key_index(o, k);
    lemma_key_index(n, k);
    lemma_key_index(o, k2);
    lemma_key_index(n, k2);
    let changed: int = match key_index(o, k) {
        Some(i) => i,
        None => n.len() - 1,
    };
    assert(n[changed].0@ == k && n[changed].1 == v);
    match key_index(n, k) {
        Some(x) => {
            if x < changed {
                assert(n[x] == o[x]);
            }
        },
        None => {},
    }
    if k2 != k {
        match key_index(n, k2) {
            Some(x) => {
                assert(x != changed);
                assert(n[x] == o[x]);
                match key_index(o, k2) {
                    Some(y) => {
                        if y < x {
                            assert(y != changed);
                            assert(n[y] == o[y]);
                        }
                    },
                    None => {},
                }
            },
            None => {
                match key_index(o, k2) {
                    Some(y) => {
                        assert(y != changed);
                        assert(n[y] == o[y]);
                    },
                    None => {},
                }
            },
        }
    }
}

/// Props that inherit an appearance, having none of their own, resolve to it; every other
/// key keeps its value.
pub proof fn law_inherited_appearance(props: ObjectMap, merged: ObjectMap, inn: Seq<char>)
    requires
        props_string_spec(props, appearance_keys()) is None,
        is_str_insertion(props.entries_seq(), merged.entries_seq(), "appearance"@, inn),
    ensures
        appearance_spec(merged) == inn,
        forall|k: Seq<char>| k != "appearance"@ ==> #[trigger] merged.get_spec(k) == props.get_spec(k),
{
    lemma_str_insertion_get(props.entries_seq(), merged.entries_seq(), "appearance"@, inn, "appearance"@);
    assert(appearance_keys()[0]@ == "appearance"@);
    assert forall|k: Seq<char>| k != "appearance"@ implies #[trigger] merged.get_spec(k) == props.get_spec(k) by {
        lemma_str_insertion_get(props.entries_seq(), merged.entries_seq(), "appearance"@, inn, k);
    }
}


/// Every declaration of a style object has a normalized key.
pub proof fn law_style_object_keys_normalized(e: Seq<(String, Value)>)
    ensures
        forall|i: int| 0 <= i < style_object_decls(e).len() ==> is_normalized_key(#[trigger] style_object_decls(e)[i].0),
    decreases e.len(),
{
    if e.len() > 0 {
        law_style_object_keys_normalized(e.drop_last());
        lemma_norm_key_normalized(e.last().0@);
        let prev = style_object_decls(e.drop_last());
        assert forall|i: int| 0 <= i < style_object_decls(e).len() implies is_normalized_key(
            #[trigger] style_object_decls(e)[i].0,
        ) by {
            if i < prev.len() {
                assert(style_object_decls(e)[i] == prev[i]);
            }
        }
    }
}

pub open spec fn is_ascii_char(c: char) -> bool {
    (c as u32) < 0x80
}

proof fn lemma_ascii_take_len(s: Seq<char>, k: int)
    requires
        0 <= k <= s.len(),
        forall|i: int| 0 <= i < s.len() ==> is_ascii_char(#[trigger] s[i]),
    ensures
        byte_len(s.take(k)) == k,
    decreases k,
{
    if k > 0 {
        lemma_ascii_take_len(s, k - 1);
        lemma_byte_len_take_step(s, k - 1);
        assert(is_ascii_char(s[k - 1]));
    } else {
        assert(s.take(0) =~= Seq::<char>::empty());
    }
}

proof fn lemma_ascii_boundary(s: Seq<char>, p: int)
    requires
        0 <= p <= s.len(),
        forall|i: int| 0 <= i < s.len() ==> is_ascii_char(#[trigger] s[i]),
    ensures
        is_boundary(s, p),
        boundary_at(s, p) == p,
{
    lemma_ascii_take_len(s, p);
    assert(is_boundary(s, p));
    let c = boundary_at(s, p);
    if c < p {
        lemma_byte_len_strict(s, c, p);
    } else if c > p {
        lemma_byte_len_strict(s, p, c);
    }
}

proof fn lemma_ascii_slice(s: Seq<char>, a: int, b: int)
    requires
        0 <= a <= b <= s.len(),
        forall|i: int| 0 <= i < s.len() ==> is_ascii_char(#[trigger] s[i]),
    ensures
        byte_slice(s, a, b) == Some(s.subrange(a, b)),
{
    lemma_ascii_boundary(s, a);
    lemma_ascii_boundary(s, b);
}

/// The color that three doubled digit pairs give, when each pair parses.
pub open spec fn doubled_rgb(a: char, b: char, c: char) -> Option<Color> {
    match (hex_u8(seq![a, a]), hex_u8(seq![b, b]), hex_u8(seq![c, c])) {
        (Some(r), Some(g), Some(bl)) => Some(Color::Rgb8(r, g, bl)),
        _ => None,
    }
}

#[verifier::rlimit(40)]
proof fn lemma_hex3_digits(a: char, b: char, c: char)
    requires
        is_ascii_char(a) && is_ascii_char(b) && is_ascii_char(c),
    ensures
        match expand_hex3_spec(seq![a, b, c]) {
            Outcome::Returns(Some((r, g, bl))) => doubled_rgb(a, b, c) == Some(Color::Rgb8(r, g, bl)),
            Outcome::Returns(None) => doubled_rgb(a, b, c) is None,
            Outcome::Panics => false,
        },
{
    let h3 = seq![a, b, c];
    lemma_ascii_take_len(h3, 3);
    assert(h3.take(3) =~= h3);
    lemma_ascii_slice(h3, 0, 1);
    lemma_ascii_slice(h3, 1, 2);
    lemma_ascii_slice(h3, 2, 3);
    assert(h3.subrange(0, 1) + h3.subrange(0, 1) =~= seq![a, a]);
    assert(h3.subrange(1, 2) + h3.subrange(1, 2) =~= seq![b, b]);
    assert(h3.subrange(2, 3) + h3.subrange(2, 3) =~= seq![c, c]);
}

proof fn lemma_hex6_digits(a: char, b: char, c: char)
    requires
        is_ascii_char(a) && is_ascii_char(b) && is_ascii_char(c),
    ensures
        hex6_spec(seq![a, a, b, b, c, c]) == Outcome::Returns(doubled_rgb(a, b, c)),
{
    let h6 = seq![a, a, b, b, c, c];
    lemma_ascii_slice(h6, 0, 2);
    lemma_ascii_slice(h6, 2, 4);
    lemma_ascii_slice(h6, 4, 6);
    assert(h6.subrange(0, 2) =~= seq![a, a]);
    assert(h6.subrange(2, 4) =~= seq![b, b]);
    assert(h6.subrange(4, 6) =~= seq![c, c]);
}

proof fn lemma_hash_prefix(v: Seq<char>, h: Seq<char>)
    requires
        v.len() >= 2,
        v.len() != 11,
        v[0] == '#',
        v.drop_first() == h,
        trim(v) == v,
        trim(h) == h,
    ensures
        color_spec(v) == (if byte_len(h) == 3 {
            match expand_hex3_spec(h) {
                Outcome::Panics => Outcome::Panics,
                Outcome::Returns(None) => Outcome::Returns(None),
                Outcome::Returns(Some((r, g, b))) => Outcome::Returns(Some(Color::Rgb8(r, g, b))),
            }
        } else if byte_len(h) == 6 {
            hex6_spec(h)
        } else if byte_len(h) == 8 {
            hex8_spec(h)
        } else {
            Outcome::Returns(named_color(v))
        }),
{
    reveal_strlit("transparent");
    assert(lower_seq(v).len() != lower_seq("transparent"@).len());
}

/// `#rgb` is the color `#rrggbb`: a three-digit hex color doubles each digit (for any
/// ASCII characters other than white space, whether or not they are hex digits).
pub proof fn law_hex3_is_doubled_hex6(a: char, b: char, c: char)
    requires
        is_ascii_char(a) && is_ascii_char(b) && is_ascii_char(c),
        !is_ws(a) && !is_ws(b) && !is_ws(c),
    ensures
        color_spec(seq!['#', a, b, c]) == color_spec(seq!['#', a, a, b, b, c, c]),
{
    let v3 = seq!['#', a, b, c];
    let v6 = seq!['#', a, a, b, b, c, c];
    let h3 = seq![a, b, c];
    let h6 = seq![a, a, b, b, c, c];
    assert(v3.drop_first() =~= h3);
    assert(v6.drop_first() =~= h6);
    lemma_trim_fixes(v3);
    lemma_trim_fixes(v6);
    lemma_trim_fixes(h3);
    lemma_trim_fixes(h6);
    lemma_ascii_take_len(h3, 3);
    lemma_ascii_take_len(h6, 6);
    assert(h3.take(3) =~= h3);
    assert(h6.take(6) =~= h6);
    lemma_hash_prefix(v3, h3);
    lemma_hash_prefix(v6, h6);
    lemma_hex3_digits(a, b, c);
    lemma_hex6_digits(a, b, c);
}

/// Two equal hex digits read as one byte: `hh` is `17 * h`.
proof fn lemma_doubled_digit(a: char)
    requires
        is_hex_digit(a),
    ensures
        hex_u8(seq![a, a]) == Some((17 * hex_digit_value(a)) as u8),
        17 * hex_digit_value(a) <= 255,
{
    let d = seq![a, a];
    assert(d[0] != '+');
    assert(all_hex(d));
    assert(d.drop_last() =~= seq![a]);
    assert(seq![a].drop_last() =~= Seq::<char>::empty());
    assert(hex_value(Seq::<char>::empty()) == 0);
    assert(hex_value(seq![a]) == hex_digit_value(a));
    assert(hex_value(d) == hex_digit_value(a) * 16 + hex_digit_value(a));
}

/// `#rgb` with three hex digits (either case) is a color, the one `#rrggbb` gives: each channel
/// is its digit doubled, `17 * d`.
pub proof fn law_hex3_digits_give_color(a: char, b: char, c: char)
    requires
        is_hex_digit(a) && is_hex_digit(b) && is_hex_digit(c),
    ensures
        color_spec(seq!['#', a, b, c]) == Outcome::Returns(
            Some(
                Color::Rgb8(
                    (17 * hex_digit_value(a)) as u8,
                    (17 * hex_digit_value(b)) as u8,
                    (17 * hex_digit_value(c)) as u8,
                ),
            ),
        ),
        color_spec(seq!['#', a, a, b, b, c, c]) == color_spec(seq!['#', a, b, c]),
{
    lemma_doubled_digit(a);
    lemma_doubled_digit(b);
    lemma_doubled_digit(c);
    law_hex3_is_doubled_hex6(a, b, c);
    lemma_hex6_digits(a, b, c);
    let h6 = seq![a, a, b, b, c, c];
    let v6 = seq!['#', a, a, b, b, c, c];
    assert(v6.drop_first() =~= h6);
    lemma_trim_fixes(v6);
    lemma_trim_fixes(h6);
    lemma_ascii_take_len(h6, 6);
    assert(h6.take(6) =~= h6);
    lemma_hash_prefix(v6, h6);
}

/// In fill mode a scroll viewport's last call sets `height: auto`, so an authored percentage
/// height cannot collapse it.
pub proof fn law_fill_scroll_host_height_auto(props: ObjectMap)
    ensures
        scroll_host_ops(props, true).last() == StyleOp::<Seq<char>>::Height(Length::Auto),
{
}

/// In fill mode the content of a scroll region always takes the full width, so percentage
/// widths inside it resolve.
pub proof fn law_fill_scroll_body_full_width(props: ObjectMap)
    ensures
        scroll_body_ops(props, true).contains(StyleOp::<Seq<char>>::WidthFull),
{
    let ops = scroll_body_ops(props, true);
    let pre = seq![StyleOp::<Seq<char>>::Display(DisplayMode::Flex)] + decls_ops(
        crate::decl::inner_decls(crate::decl::style_decls_spec(props)),
    );
    assert(ops[pre.len() as int] == StyleOp::<Seq<char>>::WidthFull);
}

/// `min-width` and `max-width` are flex resets, not widths: adding one never makes an element
/// give up its full width.
pub proof fn law_min_max_width_are_not_widths(
    d: Seq<(Seq<char>, Seq<char>)>,
    k: Seq<char>,
    v: Seq<char>,
)
    requires
        k == "minwidth"@ || k == "maxwidth"@,
    ensures
        explicit_width(d.push((k, v))) == explicit_width(d),
{
    reveal_strlit("minwidth");
    reveal_strlit("maxwidth");
    reveal_strlit("width");
    reveal_strlit("flex");
    reveal_strlit("flexgrow");
    assert(!key_is_width(k)) by {
        assert(k.len() == 8);
        assert(k[0] == 'm');
    }
    let e = d.push((k, v));
    if explicit_width(d) {
        let i = choose|i: int| 0 <= i < d.len() && #[trigger] key_is_width(d[i].0);
        assert(e[i] == d[i]);
    }
    if explicit_width(e) {
        let i = choose|i: int| 0 <= i < e.len() && #[trigger] key_is_width(e[i].0);
        assert(i < d.len());
        assert(e[i] == d[i]);
    }
}

/// An explicit `light` or `dark` appearance wins over whatever the OS reports.
pub proof fn law_explicit_appearance_ignores_os(a: Seq<char>, os1: Option<bool>, os2: Option<bool>)
    requires
        a == "light"@ || a == "dark"@,
    ensures
        crate::vnode::dark_spec(a, os1) == crate::vnode::dark_spec(a, os2),
        crate::vnode::dark_spec(a, os1) == (a == "dark"@),
{
    reveal_strlit("light");
    reveal_strlit("dark");
    assert("light"@ != "dark"@) by {
        assert("light"@.len() != "dark"@.len());
    }
}

} // verus!
