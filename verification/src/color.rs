//! CSS color values: `transparent`, `#rgb`, `#rrggbb`, `#rrggbbaa` and a few names.
//!
//! Hex digits are read from byte ranges of the UTF-8 text, as string slicing does; a range that
//! does not fall on character boundaries is a panic, which the contracts rule out by `requires`.

use vstd::prelude::*;
use crate::text::{
    chars_of, eq_ic, eq_ic_lit, eq_lit, lower_seq, strip_prefix_char, sub_chars, to_lower, trim,
    trim_chars,
};

verus! {

/// The CSS named colors this host knows.
#[derive(Clone, Copy, PartialEq, Eq, Debug)]
pub enum CssColor {
    Transparent,
    Black,
    White,
    Red,
    Green,
    Blue,
    Gray,
}

/// A color: a CSS palette constant, or 8-bit channels (alpha 255 for `Rgb8`).
#[derive(Clone, Copy, PartialEq, Eq, Debug)]
pub enum Color {
    Css(CssColor),
    Rgb8(u8, u8, u8),
    Rgba8(u8, u8, u8, u8),
}

/// What a parse does: panic, or return a value.
#[derive(Clone, Copy, PartialEq, Eq, Debug)]
pub enum Outcome<T> {
    Panics,
    Returns(T),
}

/// Number of UTF-8 bytes of a character.
pub open spec fn utf8_width(c: char) -> nat {
    let u = c as u32;
    if u < 0x80 {
        1
    } else if u < 0x800 {
        2
    } else if u < 0x10000 {
        3
    } else {
        4
    }
}

/// Number of UTF-8 bytes of a character sequence (`str::len`).
pub open spec fn byte_len(s: Seq<char>) -> nat
    decreases s.len(),
{
    if s.len() == 0 {
        0
    } else {
        byte_len(s.drop_last()) + utf8_width(s.last())
    }
}

/// Byte offset `p` is a character boundary of `s`.
pub open spec fn is_boundary(s: Seq<char>, p: int) -> bool {
    exists|k: int| 0 <= k <= s.len() && #[trigger] byte_len(s.take(k)) == p
}

/// The character index at byte offset `p`.
pub open spec fn boundary_at(s: Seq<char>, p: int) -> int {
    choose|k: int| 0 <= k <= s.len() && #[trigger] byte_len(s.take(k)) == p
}

/// `&s[a..b]` by byte offsets; `None` where the slice would panic.
pub open spec fn byte_slice(s: Seq<char>, a: int, b: int) -> Option<Seq<char>> {
    if is_boundary(s, a) && is_boundary(s, b) {
        Some(s.subrange(boundary_at(s, a), boundary_at(s, b)))
    } else {
        None
    }
}

pub open spec fn is_hex_digit(c: char) -> bool {
    ('0' <= c && c <= '9') || ('a' <= c && c <= 'f') || ('A' <= c && c <= 'F')
}

pub open spec fn hex_digit_value(c: char) -> nat {
    if '0' <= c && c <= '9' {
        (c as u32 - '0' as u32) as nat
    } else if 'a' <= c && c <= 'f' {
        (c as u32 - 'a' as u32 + 10) as nat
    } else {
        (c as u32 - 'A' as u32 + 10) as nat
    }
}

pub open spec fn all_hex(s: Seq<char>) -> bool {
    forall|i: int| 0 <= i < s.len() ==> is_hex_digit(#[trigger] s[i])
}

pub open spec fn hex_value(s: Seq<char>) -> nat
    decreases s.len(),
{
    if s.len() == 0 {
        0
    } else {
        hex_value(s.drop_last()) * 16 + hex_digit_value(s.last())
    }
}

/// `u8::from_str_radix(s, 16)`: an optional `+` and then hex digits, at most 255.
pub open spec fn hex_u8(s: Seq<char>) -> Option<u8> {
    let ds = if s.len() > 0 && s[0] == '+' {
        s.drop_first()
    } else {
        s
    };
    if ds.len() > 0 && all_hex(ds) && hex_value(ds) <= 255 {
        Some(hex_value(ds) as u8)
    } else {
        None
    }
}

/// `expand_hex3`: `rgb` with each digit doubled.
pub open spec fn expand_hex3_spec(h: Seq<char>) -> Outcome<Option<(u8, u8, u8)>> {
    if byte_len(h) != 3 {
        Outcome::Returns(None)
    } else {
        match byte_slice(h, 0, 1) {
            None => Outcome::Panics,
            Some(a) => match hex_u8(a + a) {
                None => Outcome::Returns(None),
                Some(r) => match byte_slice(h, 1, 2) {
                    None => Outcome::Panics,
                    Some(b) => match hex_u8(b + b) {
                        None => Outcome::Returns(None),
                        Some(g) => match byte_slice(h, 2, 3) {
                            None => Outcome::Panics,
                            Some(c) => match hex_u8(c + c) {
                                None => Outcome::Returns(None),
                                Some(bb) => Outcome::Returns(Some((r, g, bb))),
                            },
                        },
                    },
                },
            },
        }
    }
}

/// Two hex digits read from bytes `a..a+2` of `h`.
pub open spec fn hex_pair_at(h: Seq<char>, a: int) -> Outcome<Option<u8>> {
    match byte_slice(h, a, a + 2) {
        None => Outcome::Panics,
        Some(p) => Outcome::Returns(hex_u8(p)),
    }
}

/// `#rrggbb` (after the `#`).
pub open spec fn hex6_spec(h: Seq<char>) -> Outcome<Option<Color>> {
    match hex_pair_at(h, 0) {
        Outcome::Panics => Outcome::Panics,
        Outcome::Returns(None) => Outcome::Returns(None),
        Outcome::Returns(Some(r)) => match hex_pair_at(h, 2) {
            Outcome::Panics => Outcome::Panics,
            Outcome::Returns(None) => Outcome::Returns(None),
            Outcome::Returns(Some(g)) => match hex_pair_at(h, 4) {
                Outcome::Panics => Outcome::Panics,
                Outcome::Returns(None) => Outcome::Returns(None),
                Outcome::Returns(Some(b)) => Outcome::Returns(Some(Color::Rgb8(r, g, b))),
            },
        },
    }
}

/// `#rrggbbaa` (after the `#`).
pub open spec fn hex8_spec(h: Seq<char>) -> Outcome<Option<Color>> {
    match hex_pair_at(h, 0) {
        Outcome::Panics => Outcome::Panics,
        Outcome::Returns(None) => Outcome::Returns(None),
        Outcome::Returns(Some(r)) => match hex_pair_at(h, 2) {
            Outcome::Panics => Outcome::Panics,
            Outcome::Returns(None) => Outcome::Returns(None),
            Outcome::Returns(Some(g)) => match hex_pair_at(h, 4) {
                Outcome::Panics => Outcome::Panics,
                Outcome::Returns(None) => Outcome::Returns(None),
                Outcome::Returns(Some(b)) => match hex_pair_at(h, 6) {
                    Outcome::Panics => Outcome::Panics,
                    Outcome::Returns(None) => Outcome::Returns(None),
                    Outcome::Returns(Some(a)) => Outcome::Returns(Some(Color::Rgba8(r, g, b, a))),
                },
            },
        },
    }
}

/// A color name, compared in lower case.
pub open spec fn named_color(v: Seq<char>) -> Option<Color> {
    let l = lower_seq(v);
    if l == "black"@ {
        Some(Color::Css(CssColor::Black))
    } else if l == "white"@ {
        Some(Color::Css(CssColor::White))
    } else if l == "red"@ {
        Some(Color::Css(CssColor::Red))
    } else if l == "green"@ {
        Some(Color::Css(CssColor::Green))
    } else if l == "blue"@ {
        Some(Color::Css(CssColor::Blue))
    } else if l == "gray"@ || l == "grey"@ {
        Some(Color::Css(CssColor::Gray))
    } else {
        None
    }
}

/// What `parse_color` does with a value.
pub open spec fn color_spec(value: Seq<char>) -> Outcome<Option<Color>> {
    let v = trim(value);
    if eq_ic(v, "transparent"@) {
        Outcome::Returns(Some(Color::Css(CssColor::Transparent)))
    } else {
        let hex_part: Outcome<Option<Color>> = match strip_prefix_char(v, '#') {
            Some(h0) => {
                let h = trim(h0);
                if byte_len(h) == 3 {
                    match expand_hex3_spec(h) {
                        Outcome::Panics => Outcome::Panics,
                        Outcome::Returns(None) => Outcome::Returns(None),
                        Outcome::Returns(Some((r, g, b))) => Outcome::Returns(
                            Some(Color::Rgb8(r, g, b)),
                        ),
                    }
                } else if byte_len(h) == 6 {
                    hex6_spec(h)
                } else if byte_len(h) == 8 {
                    hex8_spec(h)
                } else {
                    Outcome::Returns(named_color(v))
                }
            },
            None => Outcome::Returns(named_color(v)),
        };
        hex_part
    }
}

pub proof fn lemma_byte_len_take_step(s: Seq<char>, k: int)
    requires
        0 <= k < s.len(),
    ensures
        byte_len(s.take(k + 1)) == byte_len(s.take(k)) + utf8_width(s[k]),
{
    assert(s.take(k + 1).drop_last() =~= s.take(k));
}

pub proof fn lemma_byte_len_strict(s: Seq<char>, k1: int, k2: int)
    requires
        0 <= k1 < k2 <= s.len(),
    ensures
        byte_len(s.take(k1)) < byte_len(s.take(k2)),
    decreases k2 - k1,
{
    lemma_byte_len_take_step(s, k2 - 1);
    if k1 < k2 - 1 {
        lemma_byte_len_strict(s, k1, k2 - 1);
    }
}

fn char_width(c: char) -> (r: usize)
    ensures
        r == utf8_width(c),
        1 <= r <= 4,
{
    let u = c as u32;
    if u < 0x80 {
        1
    } else if u < 0x800 {
        2
    } else if u < 0x10000 {
        3
    } else {
        4
    }
}

/// The byte offset of character position `k` (`byte_len` of the first `k` characters).
pub(crate) fn byte_offset(s: &[char], k: usize) -> (r: usize)
    requires
        k <= s@.len() <= 1000,
    ensures
        r == byte_len(s@.take(k as int)),
{
    let mut i: usize = 0;
    let mut off: usize = 0;
    while i < k
        invariant
            i <= k <= s@.len() <= 1000,
            off == byte_len(s@.take(i as int)),
            off <= 4 * i,
        decreases k - i,
    {
        proof {
            lemma_byte_len_take_step(s@, i as int);
        }
        off = off + char_width(s[i]);
        i += 1;
    }
    off
}

/// `byte_len(s)` when it is at most `cap`.
fn byte_len_up_to(s: &[char], cap: usize) -> (r: Option<usize>)
    requires
        cap < 1000,
    ensures
        match r {
            Some(n) => n == byte_len(s@) && n <= cap,
            None => byte_len(s@) > cap,
        },
{
    let mut k: usize = 0;
    let mut off: usize = 0;
    while k < s.len()
        invariant
            k <= s@.len(),
            off == byte_len(s@.take(k as int)),
            off <= cap,
            cap < 1000,
        decreases s.len() - k,
    {
        proof {
            lemma_byte_len_take_step(s@, k as int);
        }
        let w = char_width(s[k]);
        off = off + w;
        k += 1;
        if off > cap {
            if k < s.len() {
                proof {
                    lemma_byte_len_strict(s@, k as int, s@.len() as int);
                }
            }
            assert(s@.take(s@.len() as int) =~= s@);
            return None;
        }
    }
    assert(s@.take(s@.len() as int) =~= s@);
    Some(off)
}

/// The character index at byte offset `p`, when `p` is a boundary.
fn boundary_of(s: &[char], p: usize) -> (r: Option<usize>)
    requires
        p < 1000,
    ensures
        match r {
            Some(k) => is_boundary(s@, p as int) && k == boundary_at(s@, p as int),
            None => !is_boundary(s@, p as int),
        },
{
    let mut k: usize = 0;
    let mut off: usize = 0;
    while k < s.len() && off < p
        invariant
            k <= s@.len(),
            off == byte_len(s@.take(k as int)),
            off < p + 4,
            p < 1000,
            k > 0 ==> byte_len(s@.take(k - 1)) < p,
        decreases s.len() - k,
    {
        proof {
            lemma_byte_len_take_step(s@, k as int);
        }
        let w = char_width(s[k]);
        off = off + w;
        k += 1;
    }
    if off == p {
        proof {
            assert(byte_len(s@.take(k as int)) == p);
            let c = boundary_at(s@, p as int);
            if c < k {
                lemma_byte_len_strict(s@, c, k as int);
            } else if c > k {
                lemma_byte_len_strict(s@, k as int, c);
            }
        }
        Some(k)
    } else {
        proof {
            if is_boundary(s@, p as int) {
                let c = boundary_at(s@, p as int);
                if c < k {
                    if k > 0 {
                        // the offset before the last step was below p
                        if c < k - 1 {
                            lemma_byte_len_strict(s@, c, k - 1);
                        }
                        lemma_byte_len_take_step(s@, k - 1);
                    }
                } else if c > k {
                    lemma_byte_len_strict(s@, k as int, c);
                }
                assert(false);
            }
        }
        None
    }
}

fn byte_slice_chars(s: &[char], a: usize, b: usize) -> (r: Option<Vec<char>>)
    requires
        a <= b < 1000,
    ensures
        match r {
            Some(v) => byte_slice(s@, a as int, b as int) == Some(v@),
            None => byte_slice(s@, a as int, b as int) is None,
        },
{
    match boundary_of(s, a) {
        None => None,
        Some(ka) => match boundary_of(s, b) {
            None => None,
            Some(kb) => {
                proof {
                    if ka > kb {
                        lemma_byte_len_strict(s@, kb as int, ka as int);
                    }
                }
                Some(sub_chars(s, ka, kb))
            },
        },
    }
}

fn hex_digit(c: char) -> (r: Option<u8>)
    ensures
        match r {
            Some(d) => is_hex_digit(c) && d == hex_digit_value(c),
            None => !is_hex_digit(c),
        },
{
    let u = c as u32;
    if '0' <= c && c <= '9' {
        Some((u - 48) as u8)
    } else if 'a' <= c && c <= 'f' {
        Some((u - 87) as u8)
    } else if 'A' <= c && c <= 'F' {
        Some((u - 55) as u8)
    } else {
        None
    }
}

/// `u8::from_str_radix(s, 16)` for texts of at most two characters.
fn hex_u8_chars(s: &[char]) -> (r: Option<u8>)
    requires
        s@.len() <= 2,
    ensures
        r == hex_u8(s@),
{
    let start: usize = if s.len() > 0 && s[0] == '+' {
        1
    } else {
        0
    };
    let ghost ds = if s@.len() > 0 && s@[0] == '+' {
        s@.drop_first()
    } else {
        s@
    };
    assert(ds =~= s@.subrange(start as int, s@.len() as int));
    if start == s.len() {
        return None;
    }
    let mut acc: u32 = 0;
    let mut i = start;
    while i < s.len()
        invariant
            start <= i <= s@.len() <= 2,
            ds =~= s@.subrange(start as int, s@.len() as int),
            ds == (if s@.len() > 0 && s@[0] == '+' {
                s@.drop_first()
            } else {
                s@
            }),
            all_hex(s@.subrange(start as int, i as int)),
            acc == hex_value(s@.subrange(start as int, i as int)),
            acc < 256,
            i == start ==> acc == 0,
            i == start + 1 ==> acc < 16,
        decreases s.len() - i,
    {
        let ghost pre = s@.subrange(start as int, i as int);
        assert(s@.subrange(start as int, i + 1).drop_last() =~= pre);
        match hex_digit(s[i]) {
            None => {
                assert(ds[i - start] == s@[i as int]);
                assert(!is_hex_digit(ds[i - start]));
                assert(!all_hex(ds));
                return None;
            },
            Some(d) => {
                assert(i == start || i == start + 1);
                assert(d < 16);
                acc = acc * 16 + d as u32;
                assert(all_hex(s@.subrange(start as int, i + 1))) by {
                    assert forall|j: int| 0 <= j < s@.subrange(start as int, i + 1).len() implies is_hex_digit(
                        #[trigger] s@.subrange(start as int, i + 1)[j],
                    ) by {
                        if j < pre.len() {
                            assert(s@.subrange(start as int, i + 1)[j] == pre[j]);
                        }
                    }
                }
            },
        }
        i += 1;
    }
    assert(s@.subrange(start as int, i as int) =~= ds);
    Some(acc as u8)
}

/// Doubling one character: `format!("{}{}", c, c)`.
fn doubled(a: &[char]) -> (r: Vec<char>)
    ensures
        r@ == a@ + a@,
{
    let mut r = sub_chars(a, 0, a.len());
    let mut i: usize = 0;
    assert(r@ =~= a@);
    while i < a.len()
        invariant
            i <= a@.len(),
            r@ =~= a@ + a@.take(i as int),
        decreases a.len() - i,
    {
        r.push(a[i]);
        i += 1;
        assert(r@ =~= a@ + a@.take(i as int));
    }
    assert(a@.take(a@.len() as int) =~= a@);
    r
}

/// `rgb` shorthand with each digit doubled (`"f0a"` → `(255, 0, 170)`).
pub fn expand_hex3(h: &str) -> (r: Option<(u8, u8, u8)>)
    requires
        expand_hex3_spec(h@) != Outcome::<Option<(u8, u8, u8)>>::Panics,
    ensures
        expand_hex3_spec(h@) == Outcome::Returns(r),
{
    let v = chars_of(h);
    match expand_hex3_outcome(&v) {
        Outcome::Returns(r) => r,
        Outcome::Panics => None,
    }
}

fn expand_hex3_outcome(h: &[char]) -> (r: Outcome<Option<(u8, u8, u8)>>)
    ensures
        r == expand_hex3_spec(h@),
{
    match byte_len_up_to(h, 3) {
        Some(n) => {
            if n != 3 {
                return Outcome::Returns(None);
            }
        },
        None => {
            return Outcome::Returns(None);
        },
    }
    let a = match byte_slice_chars(h, 0, 1) {
        Some(x) => x,
        None => {
            return Outcome::Panics;
        },
    };
    proof {
        lemma_single_byte_slice(h@, 0);
    }
    let r = match hex_u8_chars(&doubled(&a)) {
        Some(x) => x,
        None => {
            return Outcome::Returns(None);
        },
    };
    let b = match byte_slice_chars(h, 1, 2) {
        Some(x) => x,
        None => {
            return Outcome::Panics;
        },
    };
    proof {
        lemma_single_byte_slice(h@, 1);
    }
    let g = match hex_u8_chars(&doubled(&b)) {
        Some(x) => x,
        None => {
            return Outcome::Returns(None);
        },
    };
    let c = match byte_slice_chars(h, 2, 3) {
        Some(x) => x,
        None => {
            return Outcome::Panics;
        },
    };
    proof {
        lemma_single_byte_slice(h@, 2);
    }
    let bl = match hex_u8_chars(&doubled(&c)) {
        Some(x) => x,
        None => {
            return Outcome::Returns(None);
        },
    };
    Outcome::Returns(Some((r, g, bl)))
}

/// A one-byte slice holds at most one character.
proof fn lemma_single_byte_slice(s: Seq<char>, a: int)
    requires
        a >= 0,
        byte_slice(s, a, a + 1) is Some,
    ensures
        byte_slice(s, a, a + 1)->0.len() <= 1,
{
    let ka = boundary_at(s, a);
    let kb = boundary_at(s, a + 1);
    if kb > ka + 1 {
        lemma_byte_len_take_step(s, ka);
        lemma_byte_len_strict(s, ka + 1, kb);
        assert(utf8_width(s[ka]) >= 1);
    }
    if kb < ka {
        lemma_byte_len_strict(s, kb, ka);
    }
}

/// A two-byte slice holds at most two characters.
proof fn lemma_two_byte_slice(s: Seq<char>, a: int)
    requires
        a >= 0,
        byte_slice(s, a, a + 2) is Some,
    ensures
        byte_slice(s, a, a + 2)->0.len() <= 2,
{
    let ka = boundary_at(s, a);
    let kb = boundary_at(s, a + 2);
    if kb > ka + 2 {
        lemma_byte_len_take_step(s, ka);
        lemma_byte_len_take_step(s, ka + 1);
        lemma_byte_len_strict(s, ka + 2, kb);
    }
    if kb < ka {
        lemma_byte_len_strict(s, kb, ka);
    }
}

fn hex_pair(h: &[char], a: usize) -> (r: Outcome<Option<u8>>)
    requires
        a <= 6,
    ensures
        r == hex_pair_at(h@, a as int),
{
    match byte_slice_chars(h, a, a + 2) {
        Some(p) => {
            proof {
                lemma_two_byte_slice(h@, a as int);
            }
            Outcome::Returns(hex_u8_chars(&p))
        },
        None => Outcome::Panics,
    }
}

fn named_color_of(v: &[char]) -> (r: Option<Color>)
    ensures
        r == named_color(v@),
{
    let l = to_lower(v);
    if eq_lit(&l, "black") {
        Some(Color::Css(CssColor::Black))
    } else if eq_lit(&l, "white") {
        Some(Color::Css(CssColor::White))
    } else if eq_lit(&l, "red") {
        Some(Color::Css(CssColor::Red))
    } else if eq_lit(&l, "green") {
        Some(Color::Css(CssColor::Green))
    } else if eq_lit(&l, "blue") {
        Some(Color::Css(CssColor::Blue))
    } else if eq_lit(&l, "gray") || eq_lit(&l, "grey") {
        Some(Color::Css(CssColor::Gray))
    } else {
        None
    }
}

/// `transparent`, `#rgb`, `#rrggbb`, `#rrggbbaa`, or a named color.
pub fn parse_color(value: &str) -> (r: Option<Color>)
    requires
        color_spec(value@) != Outcome::<Option<Color>>::Panics,
    ensures
        color_spec(value@) == Outcome::Returns(r),
{
    let c = chars_of(value);
    match color_outcome(&c) {
        Outcome::Returns(r) => r,
        Outcome::Panics => None,
    }
}

/// What parsing `value` as a color does: panic, or give the color (if any).
pub fn color_outcome(value: &[char]) -> (r: Outcome<Option<Color>>)
    ensures
        r == color_spec(value@),
{
    let v = trim_chars(value);
    if eq_ic_lit(&v, "transparent") {
        return Outcome::Returns(Some(Color::Css(CssColor::Transparent)));
    }
    if v.len() > 0 && v[0] == '#' {
        let rest = sub_chars(&v, 1, v.len());
        assert(rest@ =~= v@.drop_first());
        let h = trim_chars(&rest);
        match byte_len_up_to(&h, 8) {
            Some(n) => {
                if n == 3 {
                    return match expand_hex3_outcome(&h) {
                        Outcome::Panics => Outcome::Panics,
                        Outcome::Returns(Some((r, g, b))) => Outcome::Returns(
                            Some(Color::Rgb8(r, g, b)),
                        ),
                        Outcome::Returns(None) => Outcome::Returns(None),
                    };
                } else if n == 6 || n == 8 {
                    let r = match hex_pair(&h, 0) {
                        Outcome::Returns(Some(x)) => x,
                        Outcome::Returns(None) => {
                            return Outcome::Returns(None);
                        },
                        Outcome::Panics => {
                            return Outcome::Panics;
                        },
                    };
                    let g = match hex_pair(&h, 2) {
                        Outcome::Returns(Some(x)) => x,
                        Outcome::Returns(None) => {
                            return Outcome::Returns(None);
                        },
                        Outcome::Panics => {
                            return Outcome::Panics;
                        },
                    };
                    let b = match hex_pair(&h, 4) {
                        Outcome::Returns(Some(x)) => x,
                        Outcome::Returns(None) => {
                            return Outcome::Returns(None);
                        },
                        Outcome::Panics => {
                            return Outcome::Panics;
                        },
                    };
                    if n == 6 {
                        return Outcome::Returns(Some(Color::Rgb8(r, g, b)));
                    }
                    let a = match hex_pair(&h, 6) {
                        Outcome::Returns(Some(x)) => x,
                        Outcome::Returns(None) => {
                            return Outcome::Returns(None);
                        },
                        Outcome::Panics => {
                            return Outcome::Panics;
                        },
                    };
                    return Outcome::Returns(Some(Color::Rgba8(r, g, b, a)));
                }
            },
            None => {},
        }
    }
    Outcome::Returns(named_color_of(&v))
}

} // verus!
