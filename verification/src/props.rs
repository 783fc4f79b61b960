//! Reading vnode props: the first of several keys that holds a string, number or flag, and the
//! appearance (`light` / `dark` / `system`) that a subtree inherits.

use vstd::prelude::*;
use crate::text::{chars_of, eq_ic, eq_ic_lit, string_from_chars, trim, trim_chars};
use crate::value::{key_index, ObjectMap, Value};

verus! {

/// The string under the first of `keys` that holds a string.
pub open spec fn props_string_spec(m: ObjectMap, keys: Seq<&str>) -> Option<Seq<char>>
    decreases keys.len(),
{
    if keys.len() == 0 {
        None
    } else {
        match m.get_spec(keys[0]@) {
            Some(Value::Str(s)) => Some(s@),
            _ => props_string_spec(m, keys.drop_first()),
        }
    }
}

/// The number (as `f64` bits) under the first of `keys` that holds a number, else `default`.
pub open spec fn props_number_spec(m: ObjectMap, keys: Seq<&str>, default: u64) -> u64
    decreases keys.len(),
{
    if keys.len() == 0 {
        default
    } else {
        match m.get_spec(keys[0]@) {
            Some(Value::Number(n)) => n.bits,
            _ => props_number_spec(m, keys.drop_first(), default),
        }
    }
}

/// An `f64` bit pattern that is not `+0.0` or `-0.0` (so `n != 0.0`, NaN included).
pub open spec fn bits_nonzero(bits: u64) -> bool {
    bits & 0x7fff_ffff_ffff_ffffu64 != 0
}

/// The flag under the first of `keys` that holds a boolean or a number (non-zero is true),
/// else `false`.
pub open spec fn props_bool_spec(m: ObjectMap, keys: Seq<&str>) -> bool
    decreases keys.len(),
{
    if keys.len() == 0 {
        false
    } else {
        match m.get_spec(keys[0]@) {
            Some(Value::Bool(b)) => b,
            Some(Value::Number(n)) => bits_nonzero(n.bits),
            _ => props_bool_spec(m, keys.drop_first()),
        }
    }
}

pub open spec fn appearance_keys() -> Seq<&'static str> {
    seq!["appearance", "theme"]
}

/// `appearance` / `theme`, else `system`.
pub open spec fn appearance_spec(m: ObjectMap) -> Seq<char> {
    match props_string_spec(m, appearance_keys()) {
        Some(s) => s,
        None => "system"@,
    }
}

/// `appearance` / `theme`, else a string `value`, else `system`.
pub open spec fn theme_provider_value_spec(m: ObjectMap) -> Seq<char> {
    match props_string_spec(m, appearance_keys()) {
        Some(s) => s,
        None => match m.get_spec("value"@) {
            Some(Value::Str(s)) => s@,
            _ => "system"@,
        },
    }
}

/// `new` is `old` with the string `sv` stored under `k`, as `HashMap::insert` stores it.
pub open spec fn is_str_insertion(
    old: Seq<(String, Value)>,
    new: Seq<(String, Value)>,
    k: Seq<char>,
    sv: Seq<char>,
) -> bool {
    match key_index(old, k) {
        Some(i) => new.len() == old.len() && new[i].0@ == k && (new[i].1 matches Value::Str(s)
            && s@ == sv) && (forall|j: int| 0 <= j < old.len() && j != i ==> new[j] == old[j]),
        None => new.len() == old.len() + 1 && new.last().0@ == k && (new.last().1 matches Value::Str(
            s,
        ) && s@ == sv) && (forall|j: int| 0 <= j < old.len() ==> new[j] == old[j]),
    }
}

pub open spec fn scroll_root_keys() -> Seq<&'static str> {
    seq!["data-scroll-root", "dataScrollRoot", "scrollRoot", "scroll-root"]
}

/// One of the keys holds the string `true` (trimmed, any ASCII case).
pub open spec fn some_key_says_true(m: ObjectMap, keys: Seq<&str>) -> bool {
    exists|i: int|
        0 <= i < keys.len() && (#[trigger] m.get_spec(keys[i]@) matches Some(Value::Str(s)) && eq_ic(
            trim(s@),
            "true"@,
        ))
}

/// The string under the first of `keys` that holds a string.
pub fn props_string(props: &ObjectMap, keys: &[&str]) -> (r: Option<String>)
    ensures
        match r {
            Some(s) => props_string_spec(*props, keys@) == Some(s@),
            None => props_string_spec(*props, keys@) is None,
        },
{
    let mut i: usize = 0;
    assert(keys@.skip(0) =~= keys@);
    while i < keys.len()
        invariant
            i <= keys@.len(),
            props_string_spec(*props, keys@) == props_string_spec(*props, keys@.skip(i as int)),
        decreases keys.len() - i,
    {
        assert(keys@.skip(i as int).drop_first() =~= keys@.skip(i + 1));
        match props.get(keys[i]) {
            Some(Value::Str(s)) => {
                let c = chars_of(s.as_str());
                return Some(string_from_chars(&c));
            },
            _ => {},
        }
        i += 1;
    }
    None
}

/// The number under the first of `keys` that holds a number, as `f64` bits; else `default`.
pub fn props_f64(props: &ObjectMap, keys: &[&str], default: u64) -> (r: u64)
    ensures
        r == props_number_spec(*props, keys@, default),
{
    let mut i: usize = 0;
    assert(keys@.skip(0) =~= keys@);
    while i < keys.len()
        invariant
            i <= keys@.len(),
            props_number_spec(*props, keys@, default) == props_number_spec(
                *props,
                keys@.skip(i as int),
                default,
            ),
        decreases keys.len() - i,
    {
        assert(keys@.skip(i as int).drop_first() =~= keys@.skip(i + 1));
        match props.get(keys[i]) {
            Some(Value::Number(n)) => {
                return n.bits;
            },
            _ => {},
        }
        i += 1;
    }
    default
}

/// The position in `keys` of the first key that holds a function.
pub open spec fn props_fn_spec(m: ObjectMap, keys: Seq<&str>) -> Option<int>
    decreases keys.len(),
{
    if keys.len() == 0 {
        None
    } else {
        match m.get_spec(keys[0]@) {
            Some(Value::Function) => Some(0),
            _ => match props_fn_spec(m, keys.drop_first()) {
                Some(i) => Some(i + 1),
                None => None,
            },
        }
    }
}

/// Which of `keys` names the callback: the position of the first one that holds a function.
pub fn props_fn(props: &ObjectMap, keys: &[&str]) -> (r: Option<usize>)
    ensures
        match r {
            Some(i) => props_fn_spec(*props, keys@) == Some(i as int),
            None => props_fn_spec(*props, keys@) is None,
        },
{
    let mut i: usize = 0;
    assert(keys@.skip(0) =~= keys@);
    while i < keys.len()
        invariant
            i <= keys@.len(),
            props_fn_spec(*props, keys@) == match props_fn_spec(*props, keys@.skip(i as int)) {
                Some(k) => Some(k + i),
                None => None,
            },
        decreases keys.len() - i,
    {
        assert(keys@.skip(i as int).drop_first() =~= keys@.skip(i + 1));
        match props.get(keys[i]) {
            Some(Value::Function) => {
                return Some(i);
            },
            _ => {},
        }
        i += 1;
    }
    None
}

/// The flag under the first of `keys` that holds a boolean or number; else `false`.
pub fn props_bool(props: &ObjectMap, keys: &[&str]) -> (r: bool)
    ensures
        r == props_bool_spec(*props, keys@),
{
    let mut i: usize = 0;
    assert(keys@.skip(0) =~= keys@);
    while i < keys.len()
        invariant
            i <= keys@.len(),
            props_bool_spec(*props, keys@) == props_bool_spec(*props, keys@.skip(i as int)),
        decreases keys.len() - i,
    {
        assert(keys@.skip(i as int).drop_first() =~= keys@.skip(i + 1));
        match props.get(keys[i]) {
            Some(Value::Bool(b)) => {
                return *b;
            },
            Some(Value::Number(n)) => {
                return n.bits & 0x7fff_ffff_ffff_ffffu64 != 0;
            },
            _ => {},
        }
        i += 1;
    }
    false
}

/// `appearance` / `theme` on the vnode (including values merged from an ancestor
/// `ThemeProvider`), else `"system"`.
pub fn resolve_appearance(props: &ObjectMap) -> (r: String)
    ensures
        r@ == appearance_spec(*props),
{
    let keys: [&str; 2] = ["appearance", "theme"];
    assert(keys@ =~= appearance_keys());
    match props_string(props, &keys) {
        Some(s) => s,
        None => string_from_chars(&chars_of("system")),
    }
}

/// The appearance a `ThemeProvider` hands down: `appearance` / `theme`, else `value`, else
/// `"system"`.
pub fn theme_provider_resolved_value(props: &ObjectMap) -> (r: String)
    ensures
        r@ == theme_provider_value_spec(*props),
{
    let keys: [&str; 2] = ["appearance", "theme"];
    assert(keys@ =~= appearance_keys());
    match props_string(props, &keys) {
        Some(s) => s,
        None => match props.get("value") {
            Some(Value::Str(s)) => string_from_chars(&chars_of(s.as_str())),
            _ => string_from_chars(&chars_of("system")),
        },
    }
}

/// When a subtree is under `ThemeProvider`, the resolved appearance is copied onto descendant
/// vnode props that name none themselves.
pub fn merge_inherited_appearance(props: ObjectMap, inherited: Option<&str>) -> (r: ObjectMap)
    ensures
        match inherited {
            Some(inn) => if props_string_spec(props, appearance_keys()) is None {
                is_str_insertion(props.entries_seq(), r.entries_seq(), "appearance"@, inn@)
            } else {
                r.entries_seq() == props.entries_seq()
            },
            None => r.entries_seq() == props.entries_seq(),
        },
{
    let mut props = props;
    match inherited {
        Some(inn) => {
            let keys: [&str; 2] = ["appearance", "theme"];
            assert(keys@ =~= appearance_keys());
            if props_string(&props, &keys).is_none() {
                let key = string_from_chars(&chars_of("appearance"));
                let val = Value::Str(string_from_chars(&chars_of(inn)));
                let ghost before = props.entries_seq();
                props.insert(key, val);
            }
            props
        },
        None => props,
    }
}

/// `data-scroll-root` (or its spellings) is a true flag or the string `true`.
pub fn scroll_root_from_props(props: &ObjectMap) -> (r: bool)
    ensures
        r == (props_bool_spec(*props, scroll_root_keys()) || some_key_says_true(
            *props,
            scroll_root_keys(),
        )),
{
    let keys: [&str; 4] = ["data-scroll-root", "dataScrollRoot", "scrollRoot", "scroll-root"];
    assert(keys@ =~= scroll_root_keys());
    if props_bool(props, &keys) {
        return true;
    }
    let mut i: usize = 0;
    while i < 4
        invariant
            i <= 4,
            keys@ == scroll_root_keys(),
            forall|j: int|
                0 <= j < i ==> !(#[trigger] props.get_spec(keys@[j]@) matches Some(Value::Str(s))
                    && eq_ic(trim(s@), "true"@)),
        decreases 4 - i,
    {
        match props.get(keys[i]) {
            Some(Value::Str(s)) => {
                let c = chars_of(s.as_str());
                let t = trim_chars(&c);
                if eq_ic_lit(&t, "true") {
                    assert(props.get_spec(keys@[i as int]@) matches Some(Value::Str(s2)) && eq_ic(
                        trim(s2@),
                        "true"@,
                    ));
                    return true;
                }
            },
            _ => {},
        }
        i += 1;
    }
    false
}

} // verus!
