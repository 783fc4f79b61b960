//! The two forms of the `style` prop, an inline string and an object, style an element alike.

use vstd::prelude::*;
use crate::decl::{
    decl_of_part, decls_of_parts, inline_style_decls, norm_key_spec, style_object_decls,
};
use crate::laws::{law_apply_declarations_concat, law_inline_style_concat, law_trim_idempotent};
use crate::style::{decl_ops, decls_ops, StyleOp};
use crate::text::{find_char, is_ws, split_char, split_once, trim, trim_end, trim_start};
use crate::value::Value;

verus! {

/// The text a style object gives an entry's value: strings as they are, numbers by their style
/// text, booleans as `true` / `false`; other values give none.
pub open spec fn entry_text(v: Value) -> Option<Seq<char>> {
    match v {
        Value::Str(s) => Some(s@),
        Value::Number(n) => Some(n.style_text@),
        Value::Bool(b) => Some(if b { "true"@ } else { "false"@ }),
        _ => None,
    }
}

/// The inline style that lists a style object's entries as `key:value`, each after a `;`.
pub open spec fn inline_of(e: Seq<(String, Value)>) -> Seq<char>
    decreases e.len(),
{
    if e.len() == 0 {
        Seq::empty()
    } else {
        match entry_text(e.last().1) {
            Some(t) => inline_of(e.drop_last()) + seq![';'] + e.last().0@ + seq![':'] + t,
            None => inline_of(e.drop_last()),
        }
    }
}

/// Entries that an inline style can list: no key holds `:` or `;`, no value text holds `;`.
pub open spec fn listable(e: Seq<(String, Value)>) -> bool {
    forall|i: int|
        0 <= i < e.len() ==> !(#[trigger] e[i]).0@.contains(':') && !e[i].0@.contains(';') && match entry_text(
            e[i].1,
        ) {
            Some(t) => !t.contains(';'),
            None => true,
        }
}

proof fn lemma_trim_start_concat(a: Seq<char>, b: Seq<char>)
    ensures
        trim_start(a + b) == if trim_start(a).len() > 0 {
            trim_start(a) + b
        } else {
            trim_start(b)
        },
    decreases a.len(),
{
    if a.len() == 0 {
        assert(a + b =~= b);
    } else {
        assert((a + b)[0] == a[0]);
        if is_ws(a[0]) {
            assert((a + b).drop_first() =~= a.drop_first() + b);
            lemma_trim_start_concat(a.drop_first(), b);
        }
    }
}

proof fn lemma_trim_end_concat(a: Seq<char>, b: Seq<char>)
    ensures
        trim_end(a + b) == if trim_end(b).len() > 0 {
            a + trim_end(b)
        } else {
            trim_end(a)
        },
    decreases b.len(),
{
    if b.len() == 0 {
        assert(a + b =~= a);
    } else {
        assert((a + b).last() == b.last());
        if is_ws(b.last()) {
            assert((a + b).drop_last() =~= a + b.drop_last());
            lemma_trim_end_concat(a, b.drop_last());
        }
    }
}

proof fn lemma_trim_commute(v: Seq<char>)
    ensures
        trim_start(trim_end(v)) == trim_end(trim_start(v)),
    decreases v.len(),
{
    if v.len() > 0 {
        let w = v.drop_last();
        let c = seq![v.last()];
        assert(w + c =~= v);
        lemma_trim_start_concat(w, c);
        assert(c.drop_first() =~= Seq::<char>::empty());
        assert(trim_start(Seq::<char>::empty()) =~= Seq::<char>::empty());
        assert(trim_end(Seq::<char>::empty()) =~= Seq::<char>::empty());
        assert((trim_start(w) + c).last() == v.last());
        assert((trim_start(w) + c).drop_last() =~= trim_start(w));
        if is_ws(v.last()) {
            lemma_trim_commute(w);
            assert(trim_start(c) =~= Seq::<char>::empty());
        } else {
            assert(trim_start(c) =~= c);
        }
    }
}

/// Trimming the end first does not change what `trim` gives.
proof fn lemma_trim_of_trim_end(v: Seq<char>)
    ensures
        trim(trim_end(v)) == trim(v),
{
    lemma_trim_commute(v);
    lemma_trim_end_idempotent(trim_start(v));
}

proof fn lemma_trim_end_idempotent(v: Seq<char>)
    ensures
        trim_end(trim_end(v)) == trim_end(v),
    decreases v.len(),
{
    if v.len() > 0 && is_ws(v.last()) {
        lemma_trim_end_idempotent(v.drop_last());
    }
}

proof fn lemma_find_char_after(a: Seq<char>, d: char, b: Seq<char>)
    requires
        !a.contains(d),
    ensures
        find_char(a + seq![d] + b, d) == Some(a.len() as int),
    decreases a.len(),
{
    let s = a + seq![d] + b;
    if a.len() == 0 {
        assert(s[0] == d);
    } else {
        assert(s[0] == a[0]);
        assert(s.drop_first() =~= a.drop_first() + seq![d] + b);
        assert(!a.drop_first().contains(d)) by {
            if a.drop_first().contains(d) {
                let j = choose|j: int| 0 <= j < a.drop_first().len() && a.drop_first()[j] == d;
                assert(a[j + 1] == d);
            }
        }
        lemma_find_char_after(a.drop_first(), d, b);
    }
}

proof fn lemma_norm_key_concat(a: Seq<char>, b: Seq<char>)
    ensures
        norm_key_spec(a + b) == norm_key_spec(a) + norm_key_spec(b),
    decreases b.len(),
{
    if b.len() == 0 {
        assert(a + b =~= a);
        assert(norm_key_spec(a) + norm_key_spec(b) =~= norm_key_spec(a));
    } else {
        assert((a + b).drop_last() =~= a + b.drop_last());
        assert((a + b).last() == b.last());
        lemma_norm_key_concat(a, b.drop_last());
        assert(norm_key_spec(a) + norm_key_spec(b.drop_last()).push(crate::text::lower(b.last()))
            =~= (norm_key_spec(a) + norm_key_spec(b.drop_last())).push(crate::text::lower(b.last())));
    }
}

/// Leading white space does not change a normalized key.
proof fn lemma_norm_key_trim_start(k: Seq<char>)
    ensures
        norm_key_spec(trim_start(k)) == norm_key_spec(k),
    decreases k.len(),
{
    if k.len() > 0 && is_ws(k[0]) {
        let h = seq![k[0]];
        assert(h + k.drop_first() =~= k);
        lemma_norm_key_concat(h, k.drop_first());
        assert(h.drop_last() =~= Seq::<char>::empty());
        assert(h.last() == k[0]);
        assert(norm_key_spec(Seq::<char>::empty()) =~= Seq::<char>::empty());
        assert(norm_key_spec(h) =~= Seq::<char>::empty());
        assert(norm_key_spec(h) + norm_key_spec(k.drop_first()) =~= norm_key_spec(k.drop_first()));
        lemma_norm_key_trim_start(k.drop_first());
    }
}

proof fn lemma_suffix_lacks(k: Seq<char>, j: int, d: char)
    requires
        !k.contains(d),
        0 <= j <= k.len(),
    ensures
        !k.skip(j).contains(d),
{
    if k.skip(j).contains(d) {
        let i = choose|i: int| 0 <= i < k.skip(j).len() && k.skip(j)[i] == d;
        assert(k[i + j] == d);
    }
}

/// No known property has an empty name.
proof fn lemma_empty_key_makes_no_calls(v: Seq<char>)
    ensures
        decl_ops(Seq::<char>::empty(), v) == Seq::<StyleOp<Seq<char>>>::empty(),
{
    reveal_strlit("display");
    reveal_strlit("flexdirection");
    reveal_strlit("flexwrap");
    reveal_strlit("justifycontent");
    reveal_strlit("alignitems");
    reveal_strlit("gap");
    reveal_strlit("rowgap");
    reveal_strlit("columngap");
    reveal_strlit("padding");
    reveal_strlit("paddingtop");
    reveal_strlit("paddingright");
    reveal_strlit("paddingbottom");
    reveal_strlit("paddingleft");
    reveal_strlit("margin");
    reveal_strlit("margintop");
    reveal_strlit("marginright");
    reveal_strlit("marginbottom");
    reveal_strlit("marginleft");
    reveal_strlit("width");
    reveal_strlit("height");
    reveal_strlit("minwidth");
    reveal_strlit("minheight");
    reveal_strlit("maxwidth");
    reveal_strlit("maxheight");
    reveal_strlit("flex");
    reveal_strlit("flexbasis");
    reveal_strlit("flexgrow");
    reveal_strlit("flexshrink");
    reveal_strlit("alignself");
    reveal_strlit("bordercolor");
    reveal_strlit("borderright");
    reveal_strlit("borderradius");
    reveal_strlit("border");
    reveal_strlit("background");
    reveal_strlit("backgroundcolor");
    reveal_strlit("color");
    reveal_strlit("fontsize");
    reveal_strlit("fontweight");
    reveal_strlit("fontfamily");
    assert("display"@.len() > 0);
    assert("flexdirection"@.len() > 0);
    assert("flexwrap"@.len() > 0);
    assert("justifycontent"@.len() > 0);
    assert("alignitems"@.len() > 0);
    assert("gap"@.len() > 0);
    assert("rowgap"@.len() > 0);
    assert("columngap"@.len() > 0);
    assert("padding"@.len() > 0);
    assert("paddingtop"@.len() > 0);
    assert("paddingright"@.len() > 0);
    assert("paddingbottom"@.len() > 0);
    assert("paddingleft"@.len() > 0);
    assert("margin"@.len() > 0);
    assert("margintop"@.len() > 0);
    assert("marginright"@.len() > 0);
    assert("marginbottom"@.len() > 0);
    assert("marginleft"@.len() > 0);
    assert("width"@.len() > 0);
    assert("height"@.len() > 0);
    assert("minwidth"@.len() > 0);
    assert("minheight"@.len() > 0);
    assert("maxwidth"@.len() > 0);
    assert("maxheight"@.len() > 0);
    assert("flex"@.len() > 0);
    assert("flexbasis"@.len() > 0);
    assert("flexgrow"@.len() > 0);
    assert("flexshrink"@.len() > 0);
    assert("alignself"@.len() > 0);
    assert("bordercolor"@.len() > 0);
    assert("borderright"@.len() > 0);
    assert("borderradius"@.len() > 0);
    assert("border"@.len() > 0);
    assert("background"@.len() > 0);
    assert("backgroundcolor"@.len() > 0);
    assert("color"@.len() > 0);
    assert("fontsize"@.len() > 0);
    assert("fontweight"@.len() > 0);
    assert("fontfamily"@.len() > 0);
}

proof fn lemma_single_decl_ops(k: Seq<char>, v: Seq<char>)
    ensures
        decls_ops(seq![(k, v)]) == decl_ops(k, v),
{
    let d = seq![(k, v)];
    assert(d.drop_last() =~= Seq::<(Seq<char>, Seq<char>)>::empty());
    assert(decls_ops(Seq::<(Seq<char>, Seq<char>)>::empty()) =~= Seq::<StyleOp<Seq<char>>>::empty());
    assert(d.last() == (k, v));
    assert(Seq::<StyleOp<Seq<char>>>::empty() + decl_ops(k, v) =~= decl_ops(k, v));
}

/// The value's own trimming makes a trimmed value apply as the value.
proof fn lemma_decl_ops_trim(k: Seq<char>, v: Seq<char>)
    ensures
        decl_ops(k, trim(v)) == decl_ops(k, v),
{
    law_trim_idempotent(v);
}

/// One `key:value` piece makes the calls of the object entry with that key and value.
proof fn lemma_piece_calls(k: Seq<char>, v: Seq<char>)
    requires
        !k.contains(':'),
    ensures
        decls_ops(decl_of_part(k + seq![':'] + v)) == decl_ops(norm_key_spec(k), v),
{
    let c = seq![':'];
    let part = k + c + v;
    let tk = trim_start(k);
    lemma_norm_key_trim_start(k);
    lemma_trim_of_trim_end(v);
    lemma_decl_ops_trim(norm_key_spec(k), v);
    lemma_trim_start_concat(k, c + v);
    assert(part =~= k + (c + v));
    assert(trim_start(c + v) =~= c + v);
    let ts = if tk.len() > 0 {
        tk + (c + v)
    } else {
        c + v
    };
    assert(trim_start(part) == ts);
    let key = if tk.len() > 0 {
        tk
    } else {
        Seq::<char>::empty()
    };
    assert(ts =~= key + c + v);
    lemma_trim_end_concat(key + c, v);
    assert(trim_end(key + c) =~= key + c);
    let p = key + c + trim_end(v);
    assert(trim(part) =~= p);
    assert(!key.contains(':')) by {
        crate::style_forms::lemma_trim_start_suffix(k);
        lemma_suffix_lacks(k, k.len() - tk.len(), ':');
    }
    lemma_find_char_after(key, ':', trim_end(v));
    assert(p.take(key.len() as int) =~= key);
    assert(p.skip(key.len() as int + 1) =~= trim_end(v));
    assert(split_once(p, ':') == Some((key, trim_end(v))));
    assert(norm_key_spec(key) == norm_key_spec(k)) by {
        if tk.len() == 0 {
            assert(norm_key_spec(key) =~= Seq::<char>::empty());
        }
    }
    if norm_key_spec(k).len() == 0 {
        assert(norm_key_spec(k) =~= Seq::<char>::empty());
        lemma_empty_key_makes_no_calls(v);
        assert(decl_of_part(part) =~= Seq::<(Seq<char>, Seq<char>)>::empty());
        assert(decls_ops(decl_of_part(part)) =~= Seq::<StyleOp<Seq<char>>>::empty());
    } else {
        assert(decl_of_part(part) == seq![(norm_key_spec(k), trim(trim_end(v)))]);
        lemma_single_decl_ops(norm_key_spec(k), trim(v));
    }
}

proof fn lemma_trim_start_suffix(k: Seq<char>)
    ensures
        trim_start(k).len() <= k.len(),
        trim_start(k) == k.skip(k.len() - trim_start(k).len()),
    decreases k.len(),
{
    if k.len() > 0 && is_ws(k[0]) {
        lemma_trim_start_suffix(k.drop_first());
        assert(k.drop_first().skip(k.drop_first().len() - trim_start(k).len()) =~= k.skip(
            k.len() - trim_start(k).len(),
        ));
    } else {
        assert(k.skip(0) =~= k);
    }
}

proof fn lemma_split_without_delim(b: Seq<char>, d: char)
    requires
        !b.contains(d),
    ensures
        split_char(b, d) == seq![b],
    decreases b.len(),
{
    if b.len() > 0 {
        assert(!b.drop_last().contains(d)) by {
            if b.drop_last().contains(d) {
                let j = choose|j: int| 0 <= j < b.drop_last().len() && b.drop_last()[j] == d;
                assert(b[j] == d);
            }
        }
        lemma_split_without_delim(b.drop_last(), d);
        assert(b.last() != d) by {
            assert(b[b.len() - 1] == b.last());
        }
        assert(b.drop_last().push(b.last()) =~= b);
        let init = split_char(b.drop_last(), d);
        assert(init.len() == 1 && init.last() == b.drop_last());
        assert(init.update(0, b.drop_last().push(b.last())) =~= seq![b]);
    } else {
        assert(b =~= Seq::<char>::empty());
    }
}

proof fn lemma_concat_lacks(a: Seq<char>, b: Seq<char>, d: char)
    requires
        !a.contains(d),
        !b.contains(d),
    ensures
        !(a + b).contains(d),
{
    if (a + b).contains(d) {
        let j = choose|j: int| 0 <= j < (a + b).len() && (a + b)[j] == d;
        if j < a.len() {
            assert(a[j] == d);
        } else {
            assert(b[j - a.len()] == d);
        }
    }
}

/// A style object and the inline style that lists its entries as `key:value` joined by `;`
/// make the same style calls, so JSX may give `style` in either form.
pub proof fn law_style_object_matches_inline(e: Seq<(String, Value)>)
    requires
        listable(e),
    ensures
        decls_ops(inline_style_decls(inline_of(e))) == decls_ops(style_object_decls(e)),
    decreases e.len(),
{
    if e.len() == 0 {
        assert(split_char(Seq::<char>::empty(), ';') == seq![Seq::<char>::empty()]);
        assert(decls_of_parts(seq![Seq::<char>::empty()]).len() == 0) by {
            assert(seq![Seq::<char>::empty()].drop_last() =~= Seq::<Seq<char>>::empty());
            assert(decls_of_parts(Seq::<Seq<char>>::empty()) =~= Seq::<(Seq<char>, Seq<char>)>::empty());
            assert(trim(Seq::<char>::empty()) =~= Seq::<char>::empty());
        }
        assert(inline_style_decls(inline_of(e)) =~= Seq::<(Seq<char>, Seq<char>)>::empty());
    } else {
        let prev = e.drop_last();
        assert(listable(prev)) by {
            assert forall|i: int| 0 <= i < prev.len() implies !(#[trigger] prev[i]).0@.contains(':')
                && !prev[i].0@.contains(';') && match entry_text(prev[i].1) {
                Some(t) => !t.contains(';'),
                None => true,
            } by {
                assert(prev[i] == e[i]);
            }
        }
        law_style_object_matches_inline(prev);
        let last = e[e.len() - 1];
        assert(last == e.last());
        let k = last.0@;
        let nk = norm_key_spec(k);
        match entry_text(last.1) {
            Some(t) => {
                let a = inline_of(prev);
                let b = k + seq![':'] + t;
                assert(inline_of(e) =~= a + seq![';'] + b);
                law_inline_style_concat(a, b);
                assert(!seq![':'].contains(';'));
                lemma_concat_lacks(k, seq![':'], ';');
                lemma_concat_lacks(k + seq![':'], t, ';');
                lemma_split_without_delim(b, ';');
                assert(seq![b].drop_last() =~= Seq::<Seq<char>>::empty());
                assert(decls_of_parts(Seq::<Seq<char>>::empty()) =~= Seq::<(Seq<char>, Seq<char>)>::empty());
                assert(seq![b].last() == b);
                assert(decls_of_parts(seq![b]) =~= decl_of_part(b));
                law_apply_declarations_concat(inline_style_decls(a), decl_of_part(b));
                lemma_piece_calls(k, t);
                let od = style_object_decls(e);
                assert(od == style_object_decls(prev).push((nk, t)));
                assert(od.drop_last() =~= style_object_decls(prev));
            },
            None => {
                assert(style_object_decls(e) == style_object_decls(prev));
            },
        }
    }
}

} // verus!
