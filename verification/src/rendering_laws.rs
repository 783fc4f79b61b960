//! What the host makes of tags and declarations, stated over all inputs: which tags stack
//! horizontally, which elements get panel chrome, which `overflow` declarations scroll, when a
//! `flex` shorthand grows, and which direction a `flex-direction` value names.

use vstd::prelude::*;
use crate::decl::{
    decl_enables_scroll, decl_is_display_none, direction_spec, grow_text, grow_texts,
    style_decls_spec, FlexDir,
};
use crate::element::{layout_spec, ElementLayout};
use crate::props::props_string_spec;
use crate::style::{decl_ops, StyleOp};
use crate::text::{eq_ic, is_ws, lower_seq, remove_char, trim, trim_end, trim_start, words};
use crate::value::ObjectMap;
use crate::vnode::{intrinsic_spec, surface_spec, HtmlThemedSurface, Intrinsic};

verus! {

/// `hstack`, `h-stack` and `row` are exactly the tags that lay their children out in a row, and
/// `vstack`, `v-stack` and `column` exactly those that stack them in a column.
pub proof fn law_stack_tags(t: Seq<char>)
    ensures
        intrinsic_spec(t) == Some(Intrinsic::HStack) <==> (t == "hstack"@ || t == "h-stack"@ || t == "row"@),
        intrinsic_spec(t) == Some(Intrinsic::VStack) <==> (t == "vstack"@ || t == "v-stack"@ || t == "column"@),
{
    reveal_strlit("hstack");
    reveal_strlit("h-stack");
    reveal_strlit("row");
    reveal_strlit("vstack");
    reveal_strlit("v-stack");
    reveal_strlit("column");
    assert("hstack"@[0] != "vstack"@[0]);
    assert("hstack"@ != "v-stack"@ && "hstack"@ != "column"@);
    assert("h-stack"@ != "vstack"@ && "h-stack"@ != "v-stack"@ && "h-stack"@ != "column"@) by {
        assert("h-stack"@[0] != "v-stack"@[0]);
    }
    assert("row"@.len() == 3);
    assert("vstack"@.len() == 6);
    assert("v-stack"@.len() == 7);
    assert("column"@.len() == 6);
    assert("row"@ != "vstack"@ && "row"@ != "v-stack"@ && "row"@ != "column"@);
}

proof fn lemma_lower_idem(s: Seq<char>)
    ensures
        lower_seq(lower_seq(s)) == lower_seq(s),
{
    assert(lower_seq(lower_seq(s)) =~= lower_seq(s));
}

/// A class list in which some word is `panel` or `card` (any ASCII case).
pub open spec fn names_panel_or_card(cls: Seq<char>) -> bool {
    exists|i: int|
        0 <= i < words(cls).len() && (#[trigger] lower_seq(words(cls)[i]) == "panel"@ || lower_seq(
            words(cls)[i],
        ) == "card"@)
}

/// `<article>` and `<section>` (any ASCII case) get the same chrome: panel chrome exactly when
/// `class` / `className` has the word `panel` or `card`, and none without a class string.
/// The tag's case does not matter.
pub proof fn law_article_is_section(tag: Seq<char>, props: ObjectMap)
    requires
        lower_seq(tag) == "section"@ || lower_seq(tag) == "article"@,
    ensures
        surface_spec(tag, props) == surface_spec("section"@, props),
        surface_spec("article"@, props) == surface_spec("section"@, props),
        surface_spec(tag, props) == surface_spec(lower_seq(tag), props),
        match props_string_spec(props, seq!["class", "className"]) {
            Some(cls) => (surface_spec(tag, props) == Some(HtmlThemedSurface::Panel)) == names_panel_or_card(cls)
                && (surface_spec(tag, props) is None) == !names_panel_or_card(cls),
            None => surface_spec(tag, props) is None,
        },
{
    reveal_strlit("section");
    reveal_strlit("article");
    reveal_strlit("aside");
    lemma_lower_idem(tag);
    assert(lower_seq("section"@) =~= "section"@);
    assert(lower_seq("article"@) =~= "article"@);
    assert("section"@ != "aside"@);
    assert("article"@ != "aside"@);
}

/// An `overflow`, `overflow-x` or `overflow-y` declaration whose value is `auto`, `scroll` or
/// `overlay` (trimmed, any ASCII case) makes a `div` scroll; no other key does.
pub proof fn law_overflow_axes_scroll(k: Seq<char>, v: Seq<char>)
    ensures
        (k == "overflow"@ || k == "overflowx"@ || k == "overflowy"@) && (lower_seq(trim(v)) == "auto"@
            || lower_seq(trim(v)) == "scroll"@ || lower_seq(trim(v)) == "overlay"@) ==> decl_enables_scroll((k, v)),
        decl_enables_scroll((k, v)) ==> k == "overflow"@ || k == "overflowx"@ || k == "overflowy"@,
        decl_enables_scroll(("overflowx"@, v)) == decl_enables_scroll(("overflowy"@, v)),
        decl_enables_scroll(("overflowx"@, v)) == decl_enables_scroll(("overflow"@, v)),
{
}

/// A `div` (any ASCII case) with a scrolling `overflow` declaration is laid out as a scroll
/// region, unless it is hidden by `display: none`.
pub proof fn law_scrolling_div(tag: Seq<char>, props: ObjectMap, i: int)
    requires
        lower_seq(tag) == "div"@,
        0 <= i < style_decls_spec(props).len(),
        decl_enables_scroll(style_decls_spec(props)[i]),
    ensures
        layout_spec(tag, props) == ElementLayout::Scroll || layout_spec(tag, props) == ElementLayout::Hidden,
        !(exists|j: int| 0 <= j < style_decls_spec(props).len() && #[trigger] decl_is_display_none(style_decls_spec(props)[j]))
            ==> layout_spec(tag, props) == ElementLayout::Scroll,
{
    reveal_strlit("div");
    reveal_strlit("ul");
    reveal_strlit("ol");
    assert("div"@.len() == 3);
    assert("ul"@.len() == 2);
    assert("ol"@.len() == 2);
    assert("div"@ != "ul"@ && "div"@ != "ol"@);
}

proof fn lemma_words_of_word(w: Seq<char>)
    requires
        w.len() > 0,
        forall|i: int| 0 <= i < w.len() ==> !is_ws(#[trigger] w[i]),
    ensures
        words(w) == seq![w],
    decreases w.len(),
{
    let c = w.last();
    assert(!is_ws(w[w.len() - 1]));
    if w.len() == 1 {
        assert(w.drop_last() =~= Seq::<char>::empty());
        assert(words(Seq::<char>::empty()) =~= Seq::<Seq<char>>::empty());
        assert(seq![c] =~= w);
        assert(Seq::<Seq<char>>::empty().push(seq![c]) =~= seq![w]);
    } else {
        let p = w.drop_last();
        assert forall|i: int| 0 <= i < p.len() implies !is_ws(#[trigger] p[i]) by {
            assert(p[i] == w[i]);
        }
        lemma_words_of_word(p);
        assert(!is_ws(w[w.len() - 2]));
        assert(p.push(c) =~= w);
        assert(seq![p].update(0, p.push(c)) =~= seq![w]);
    }
}

/// A one-word `flex` shorthand other than `none` (such as `flex: 1`) gives that word as the
/// text that decides whether a scroll region grows; `flex-grow` gives its trimmed value.
pub proof fn law_flex_word_grows(w: Seq<char>, v: Seq<char>)
    requires
        w.len() > 0,
        forall|i: int| 0 <= i < w.len() ==> !is_ws(#[trigger] w[i]),
        !eq_ic(w, "none"@),
    ensures
        grow_text(("flex"@, w)) == Some(w),
        grow_texts(seq![("flex"@, w)]) == seq![w],
        grow_text(("flexgrow"@, v)) == Some(trim(v)),
{
    reveal_strlit("flex");
    reveal_strlit("flexgrow");
    assert("flex"@.len() == 4);
    assert("flexgrow"@.len() == 8);
    assert("flex"@ != "flexgrow"@);
    assert(!is_ws(w[0]) && !is_ws(w[w.len() - 1]));
    assert(trim_start(w) == w);
    assert(trim_end(w) == w);
    lemma_words_of_word(w);
    let d = seq![("flex"@, w)];
    assert(d.drop_last() =~= Seq::<(Seq<char>, Seq<char>)>::empty());
    assert(grow_texts(Seq::<(Seq<char>, Seq<char>)>::empty()) =~= Seq::<Seq<char>>::empty());
    assert(d.last() == ("flex"@, w));
    assert(Seq::<Seq<char>>::empty().push(w) =~= seq![w]);
}

/// The keyword of a `flex-direction` value: ASCII case and spaces ignored.
pub open spec fn direction_keyword(v: Seq<char>) -> Seq<char> {
    remove_char(lower_seq(v), ' ')
}

/// A `flex-direction` declaration sets the direction its keyword names: `row`, `column`,
/// `row-reverse` written `rowreverse`, and `columnreverse`, four different directions. The last
/// such declaration wins over the fallback and every earlier one, and applying it makes the one
/// matching call.
pub proof fn law_flex_direction_keywords(
    d: Seq<(Seq<char>, Seq<char>)>,
    f: FlexDir,
    v: Seq<char>,
)
    ensures
        direction_keyword(v) == "row"@ ==> direction_spec(d.push(("flexdirection"@, v)), f) == FlexDir::Row,
        direction_keyword(v) == "column"@ ==> direction_spec(d.push(("flexdirection"@, v)), f) == FlexDir::Column,
        direction_keyword(v) == "rowreverse"@ ==> direction_spec(d.push(("flexdirection"@, v)), f) == FlexDir::RowReverse,
        direction_keyword(v) == "columnreverse"@ ==> direction_spec(d.push(("flexdirection"@, v)), f) == FlexDir::ColumnReverse,
        direction_keyword(trim(v)) == "column"@ ==> decl_ops("flexdirection"@, v) == seq![StyleOp::<Seq<char>>::FlexDirection(FlexDir::Column)],
        direction_keyword(trim(v)) == "row"@ ==> decl_ops("flexdirection"@, v) == seq![StyleOp::<Seq<char>>::FlexDirection(FlexDir::Row)],
{
    reveal_strlit("row");
    reveal_strlit("column");
    reveal_strlit("rowreverse");
    reveal_strlit("columnreverse");
    reveal_strlit("flexdirection");
    reveal_strlit("display");
    assert("row"@.len() == 3);
    assert("column"@.len() == 6);
    assert("rowreverse"@.len() == 10);
    assert("columnreverse"@.len() == 13);
    assert("flexdirection"@.len() == 13);
    assert("display"@.len() == 7);
    assert("row"@ != "column"@ && "row"@ != "rowreverse"@ && "row"@ != "columnreverse"@);
    assert("column"@ != "rowreverse"@ && "column"@ != "columnreverse"@);
    assert("rowreverse"@ != "columnreverse"@);
    assert("flexdirection"@ != "display"@);
    let e = d.push(("flexdirection"@, v));
    assert(e.drop_last() =~= d);
    assert(e.last() == ("flexdirection"@, v));
}

} // verus!
