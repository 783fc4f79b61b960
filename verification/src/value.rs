//! The script values that the host reads: vnode props, style objects and children.
//!
//! Numbers are held as the IEEE-754 bit pattern of the `f64`, together with the text the number
//! takes as a style value; maps keep their entries in iteration order, each key once.

use vstd::prelude::*;

verus! {

/// A script number: its `f64` bit pattern and its text as a style value (`1` for an integral
/// number, the shortest round-trip decimal otherwise).
#[derive(Clone, PartialEq, Debug)]
pub struct NumberValue {
    pub bits: u64,
    pub style_text: String,
}

/// A script value as far as the host reads it.
#[derive(Debug)]
pub enum Value {
    Number(NumberValue),
    Str(String),
    Bool(bool),
    Null,
    Array(Vec<Value>),
    Object(ObjectMap),
    /// A callable; the host only needs to know that one is there.
    Function,
    /// Symbols, promises and other values the host ignores.
    Other,
}

/// A string-keyed map of values, in iteration order, each key once.
#[derive(Debug)]
pub struct ObjectMap {
    entries: Vec<(String, Value)>,
}

/// The value stored under `k`.
pub open spec fn entry_get(e: Seq<(String, Value)>, k: Seq<char>) -> Option<Value>
    decreases e.len(),
{
    if e.len() == 0 {
        None
    } else if e[0].0@ == k {
        Some(e[0].1)
    } else {
        entry_get(e.drop_first(), k)
    }
}

/// The position of key `k`.
pub open spec fn key_index(e: Seq<(String, Value)>, k: Seq<char>) -> Option<int>
    decreases e.len(),
{
    if e.len() == 0 {
        None
    } else if e[0].0@ == k {
        Some(0)
    } else {
        match key_index(e.drop_first(), k) {
            Some(i) => Some(i + 1),
            None => None,
        }
    }
}

pub open spec fn keys_distinct(e: Seq<(String, Value)>) -> bool {
    forall|i: int, j: int| 0 <= i < j < e.len() ==> e[i].0@ != e[j].0@
}

/// `new` is what inserting `(k, v)` into `old` gives: the value replaced in place when `k` is
/// there, else the entry appended.
pub open spec fn is_insertion(
    old: Seq<(String, Value)>,
    new: Seq<(String, Value)>,
    k: Seq<char>,
    v: Value,
) -> bool {
    match key_index(old, k) {
        Some(i) => new.len() == old.len() && new[i].0@ == k && new[i].1 == v && (forall|j: int|
            0 <= j < old.len() && j != i ==> new[j] == old[j]),
        None => new.len() == old.len() + 1 && new.last().0@ == k && new.last().1 == v && (forall|
            j: int,
        |
            0 <= j < old.len() ==> new[j] == old[j]),
    }
}

pub proof fn lemma_key_index(e: Seq<(String, Value)>, k: Seq<char>)
    ensures
        match key_index(e, k) {
            Some(i) => 0 <= i < e.len() && e[i].0@ == k && (forall|j: int|
                0 <= j < i ==> e[j].0@ != k) && entry_get(e, k) == Some(e[i].1),
            None => (forall|j: int| 0 <= j < e.len() ==> e[j].0@ != k) && entry_get(e, k) is None,
        },
    decreases e.len(),
{
    if e.len() > 0 && e[0].0@ != k {
        lemma_key_index(e.drop_first(), k);
        match key_index(e.drop_first(), k) {
            Some(i) => {
                assert forall|j: int| 0 <= j < i + 1 implies e[j].0@ != k by {
                    if j > 0 {
                        assert(e[j] == e.drop_first()[j - 1]);
                    }
                }
            },
            None => {
                assert forall|j: int| 0 <= j < e.len() implies e[j].0@ != k by {
                    if j > 0 {
                        assert(e[j] == e.drop_first()[j - 1]);
                    }
                }
            },
        }
    }
}

impl ObjectMap {
    #[verifier::type_invariant]
    spec fn inv(self) -> bool {
        keys_distinct(self.entries@)
    }

    /// The entries in iteration order.
    pub closed spec fn entries_seq(self) -> Seq<(String, Value)> {
        self.entries@
    }

    /// The value under `k`.
    pub open spec fn get_spec(self, k: Seq<char>) -> Option<Value> {
        entry_get(self.entries_seq(), k)
    }

    pub fn new() -> (r: ObjectMap)
        ensures
            r.entries_seq().len() == 0,
    {
        ObjectMap { entries: Vec::new() }
    }

    pub fn len(&self) -> (r: usize)
        ensures
            r == self.entries_seq().len(),
            keys_distinct(self.entries_seq()),
    {
        proof {
            use_type_invariant(self);
        }
        self.entries.len()
    }

    /// The `i`-th entry in iteration order.
    pub fn entry(&self, i: usize) -> (r: &(String, Value))
        requires
            i < self.entries_seq().len(),
        ensures
            *r == self.entries_seq()[i as int],
    {
        &self.entries[i]
    }

    fn index_of(&self, k: &str) -> (r: Option<usize>)
        ensures
            match r {
                Some(i) => key_index(self.entries_seq(), k@) == Some(i as int),
                None => key_index(self.entries_seq(), k@) is None,
            },
    {
        proof {
            lemma_key_index(self.entries@, k@);
        }
        let kc = crate::text::chars_of(k);
        let mut i: usize = 0;
        while i < self.entries.len()
            invariant
                i <= self.entries@.len(),
                kc@ == k@,
                forall|j: int| 0 <= j < i ==> self.entries@[j].0@ != k@,
                match key_index(self.entries@, k@) {
                    Some(x) => 0 <= x < self.entries@.len() && self.entries@[x].0@ == k@ && (forall|
                        j: int,
                    |
                        0 <= j < x ==> self.entries@[j].0@ != k@),
                    None => forall|j: int| 0 <= j < self.entries@.len() ==> self.entries@[j].0@ != k@,
                },
            decreases self.entries.len() - i,
        {
            let ek = crate::text::chars_of(self.entries[i].0.as_str());
            if crate::text::chars_eq(&ek, &kc) {
                return Some(i);
            }
            i += 1;
        }
        None
    }

    /// The value under `k` (`HashMap::get`).
    pub fn get(&self, k: &str) -> (r: Option<&Value>)
        ensures
            match r {
                Some(v) => self.get_spec(k@) == Some(*v),
                None => self.get_spec(k@) is None,
            },
    {
        proof {
            lemma_key_index(self.entries@, k@);
        }
        match self.index_of(k) {
            Some(i) => Some(&self.entries[i].1),
            None => None,
        }
    }

    /// `HashMap::insert`: replaces the value of an existing key in place, else appends.
    pub fn insert(&mut self, k: String, v: Value)
        ensures
            is_insertion(old(self).entries_seq(), final(self).entries_seq(), k@, v),
    {
        proof {
            use_type_invariant(&*self);
            lemma_key_index(self.entries@, k@);
        }
        match self.index_of(k.as_str()) {
            Some(i) => {
                let mut entries: Vec<(String, Value)> = Vec::new();
                std::mem::swap(&mut entries, &mut self.entries);
                let old_key = entries[i].0.clone();
                let ghost before = entries@;
                entries.set(i, (old_key, v));
                proof {
                    assert forall|a: int, b: int|
                        0 <= a < b < entries@.len() implies entries@[a].0@ != entries@[b].0@ by {
                        if a != i && b != i {
                            assert(entries@[a] == before[a]);
                        }
                    }
                }
                self.entries = entries;
            },
            None => {
                let mut entries: Vec<(String, Value)> = Vec::new();
                std::mem::swap(&mut entries, &mut self.entries);
                entries.push((k, v));
                self.entries = entries;
            },
        }
    }
}


/// Text of a `"text"` vnode.
pub open spec fn is_text_tag(o: ObjectMap) -> bool {
    o.get_spec("tag"@) matches Some(Value::Str(t)) && t@ == "text"@
}

/// A value held by an object is smaller than the object.
pub proof fn lemma_get_decreases(o: ObjectMap, k: Seq<char>)
    ensures
        o.get_spec(k) matches Some(v) ==> decreases_to!(Value::Object(o) => v),
{
    lemma_key_index(o.entries@, k);
    match key_index(o.entries@, k) {
        Some(i) => {
            let e = o.entries;
            let v = Value::Object(o);
            assert(decreases_to!(v => v->Object_0));
            assert(decreases_to!(o => e));
            assert(decreases_to!(e => e@));
            assert(decreases_to!(e@ => e@[i]));
            assert(decreases_to!(e@[i] => e@[i].1));
            assert(decreases_to!(Value::Object(o) => o.entries@[i].1));
        },
        None => {},
    }
}

/// The visible text of values: strings, arrays of them, and the children of `text` vnodes.
pub open spec fn visible_text(vs: Seq<Value>) -> Seq<char>
    decreases vs,
{
    if vs.len() == 0 {
        Seq::empty()
    } else {
        visible_text(vs.drop_last()) + visible_text_of(vs.last())
    }
}

pub open spec fn visible_text_of(v: Value) -> Seq<char>
    decreases v,
{
    match v {
        Value::Str(s) => s@,
        Value::Array(a) => visible_text(a@),
        Value::Object(o) => if is_text_tag(o) {
            match o.get_spec("children"@) {
                Some(Value::Array(a)) => {
                    proof {
                        lemma_get_decreases(o, "children"@);
                    }
                    visible_text(a@)
                },
                _ => Seq::empty(),
            }
        } else {
            Seq::empty()
        },
        _ => Seq::empty(),
    }
}

} // verus!
