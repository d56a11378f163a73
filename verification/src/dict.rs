//! The dynamic value model used for prop passing between scenes.
//!
//! A `Dict` maps string keys to `DictValue`s: a closed tagged union of an
//! absence marker, strings, characters, the fixed-width integers, raw float
//! bit patterns, ordered arrays, and nested dictionaries. Values are not
//! type-checked on insertion; readers pattern-match and treat a mismatch as
//! absence. Keys are compared by their character content and insertion order
//! is not significant: the abstract model of a `Dict` is a `Map` from key
//! characters to values.

use vstd::prelude::*;

verus! {

broadcast use vstd::std_specs::vec::axiom_vec_index_decreases;

/// Marker capability for an embedding's own value types: implementing it
/// documents that a type is meant to travel through dictionaries once encoded
/// into the closed union below. The engine never inspects such values.
pub trait IsDictValue {}

/// One dynamically typed value. Floating-point payloads are carried as their
/// raw IEEE 754 bit patterns (`F32Bits`, `F64Bits`), so the core stays free of
/// float arithmetic; an embedding converts at its boundary.
#[derive(PartialEq, Debug)]
pub enum DictValue {
    Null,
    Str(String),
    Char(char),
    U8(u8),
    I8(i8),
    U16(u16),
    I16(i16),
    U32(u32),
    I32(i32),
    U64(u64),
    I64(i64),
    U128(u128),
    I128(i128),
    F32Bits(u32),
    F64Bits(u64),
    Array(Vec<DictValue>),
    Dict(Dict),
}

/// A mapping from string keys to `DictValue`s, stored as an entry list. The
/// operations below keep keys unique; the abstract model does not depend on
/// it (`kv_view` lets the earliest entry win).
#[derive(PartialEq, Debug)]
pub struct Dict {
    pub entries: Vec<(String, DictValue)>,
}

/// The abstract content of an entry list: a map where, should a key ever be
/// repeated, the earliest entry wins. The operations below never produce
/// duplicate keys, but the model does not depend on that.
pub open spec fn kv_view<V>(s: Seq<(String, V)>) -> Map<Seq<char>, V>
    decreases s.len(),
{
    if s.len() == 0 {
        Map::empty()
    } else {
        kv_view(s.drop_first()).insert(s[0].0@, s[0].1)
    }
}

impl View for Dict {
    type V = Map<Seq<char>, DictValue>;

    open spec fn view(&self) -> Map<Seq<char>, DictValue> {
        kv_view(self.entries@)
    }
}

/// Structural equality of two values: equal tags and payloads, with strings
/// compared by characters, arrays element by element, and dictionaries entry
/// by entry. `Clone` produces a value in this relation with its source.
pub open spec fn dv_eq(a: DictValue, b: DictValue) -> bool
    decreases a,
{
    match (a, b) {
        (DictValue::Null, DictValue::Null) => true,
        (DictValue::Str(x), DictValue::Str(y)) => x@ == y@,
        (DictValue::Char(x), DictValue::Char(y)) => x == y,
        (DictValue::U8(x), DictValue::U8(y)) => x == y,
        (DictValue::I8(x), DictValue::I8(y)) => x == y,
        (DictValue::U16(x), DictValue::U16(y)) => x == y,
        (DictValue::I16(x), DictValue::I16(y)) => x == y,
        (DictValue::U32(x), DictValue::U32(y)) => x == y,
        (DictValue::I32(x), DictValue::I32(y)) => x == y,
        (DictValue::U64(x), DictValue::U64(y)) => x == y,
        (DictValue::I64(x), DictValue::I64(y)) => x == y,
        (DictValue::U128(x), DictValue::U128(y)) => x == y,
        (DictValue::I128(x), DictValue::I128(y)) => x == y,
        (DictValue::F32Bits(x), DictValue::F32Bits(y)) => x == y,
        (DictValue::F64Bits(x), DictValue::F64Bits(y)) => x == y,
        (DictValue::Array(x), DictValue::Array(y)) => x@.len() == y@.len()
            && (forall|i: int| 0 <= i < x@.len() ==> dv_eq(#[trigger] x@[i], y@[i])),
        (DictValue::Dict(x), DictValue::Dict(y)) => dict_entries_eq(x, y),
        _ => false,
    }
}

/// Two entry lists that agree key by key and, up to `dv_eq`, value by value
/// have abstract maps with the same keys and `dv_eq`-related values.
pub proof fn lemma_kv_view_pointwise(s1: Seq<(String, DictValue)>, s2: Seq<(String, DictValue)>)
    requires
        s1.len() == s2.len(),
        forall|i: int|
            0 <= i < s1.len() ==> (#[trigger] s1[i]).0@ == s2[i].0@ && dv_eq(s1[i].1, s2[i].1),
    ensures
        kv_view(s1).dom() == kv_view(s2).dom(),
        forall|k: Seq<char>|
            #[trigger] kv_view(s1).contains_key(k) ==> dv_eq(kv_view(s1)[k], kv_view(s2)[k]),
    decreases s1.len(),
{
    if s1.len() > 0 {
        assert forall|i: int|
            0 <= i < s1.drop_first().len() implies (#[trigger] s1.drop_first()[i]).0@
            == s2.drop_first()[i].0@ && dv_eq(s1.drop_first()[i].1, s2.drop_first()[i].1) by {
            assert(s1[i + 1].0@ == s2[i + 1].0@ && dv_eq(s1[i + 1].1, s2[i + 1].1));
        }
        lemma_kv_view_pointwise(s1.drop_first(), s2.drop_first());
        assert(s1[0].0@ == s2[0].0@ && dv_eq(s1[0].1, s2[0].1));
        assert(kv_view(s1).dom() =~= kv_view(s2).dom());
    }
}

/// A dictionary and its entry-by-entry equal — a clone, say — have abstract
/// maps with the same keys, and `dv_eq`-related values at every key.
pub proof fn lemma_dict_entries_eq_view(a: Dict, b: Dict)
    requires
        dict_entries_eq(a, b),
    ensures
        a@.dom() == b@.dom(),
        forall|k: Seq<char>| #[trigger] a@.contains_key(k) ==> dv_eq(a@[k], b@[k]),
{
    lemma_kv_view_pointwise(a.entries@, b.entries@);
}

/// Entry-by-entry structural equality of two dictionaries.
pub open spec fn dict_entries_eq(a: Dict, b: Dict) -> bool
    decreases a,
{
    a.entries@.len() == b.entries@.len() && (forall|i: int|
        0 <= i < a.entries@.len() ==> (#[trigger] a.entries@[i]).0@ == b.entries@[i].0@
            && dv_eq(a.entries@[i].1, b.entries@[i].1))
}

impl Dict {
    pub fn new() -> (d: Dict)
        ensures
            d@ == Map::<Seq<char>, DictValue>::empty(),
    {
        Dict { entries: Vec::new() }
    }

    /// Looks a key up; `None` means the key is absent.
    pub fn get(&self, key: &String) -> (r: Option<&DictValue>)
        ensures
            match r {
                Some(v) => self@.contains_key(key@) && *v == self@[key@],
                None => !self@.contains_key(key@),
            },
    {
        let ghost full = self.entries@;
        let n = self.entries.len();
        proof {
            assert(full.subrange(0, n as int) =~= full);
        }
        let mut i: usize = 0;
        while i < n
            invariant
                n == self.entries@.len(),
                full == self.entries@,
                i <= n,
                kv_view(full).contains_key(key@) == kv_view(full.subrange(i as int, n as int))
                    .contains_key(key@),
                kv_view(full).contains_key(key@) ==> kv_view(full)[key@] == kv_view(
                    full.subrange(i as int, n as int),
                )[key@],
            decreases n - i,
        {
            let ghost suffix = full.subrange(i as int, n as int);
            proof {
                assert(suffix.drop_first() =~= full.subrange(i + 1, n as int));
                assert(suffix[0] == full[i as int]);
            }
            if self.entries[i].0.eq(key) {
                proof {
                    assert(kv_view(suffix)[key@] == full[i as int].1);
                }
                return Some(&self.entries[i].1);
            }
            i = i + 1;
        }
        proof {
            assert(full.subrange(n as int, n as int) =~= Seq::<(String, DictValue)>::empty());
        }
        None
    }

    /// Binds `key` to `value`, overwriting any previous binding.
    pub fn insert(&mut self, key: String, value: DictValue)
        ensures
            final(self)@ == old(self)@.insert(key@, value),
    {
        let n = self.entries.len();
        let mut i: usize = 0;
        while i < n
            invariant
                n == self.entries@.len(),
                i <= n,
                self.entries@ == old(self).entries@,
                forall|j: int| 0 <= j < i ==> (#[trigger] self.entries@[j]).0@ != key@,
            decreases n - i,
        {
            if self.entries[i].0.eq(&key) {
                let ghost pre = self.entries@;
                self.entries.set(i, (key, value));
                proof {
                    lemma_kv_update_first(pre, i as int, self.entries@[i as int]);
                }
                return ;
            }
            i = i + 1;
        }
        let ghost pre = self.entries@;
        self.entries.push((key, value));
        proof {
            lemma_kv_push_absent(pre, self.entries@.last());
        }
    }

    /// Removes every binding of `key`; afterwards the key is absent.
    pub fn remove(&mut self, key: &String)
        ensures
            final(self)@ == old(self)@.remove(key@),
    {
        let ghost orig = self.entries@;
        let mut i: usize = 0;
        while i < self.entries.len()
            invariant
                i <= self.entries@.len(),
                kv_view(self.entries@).remove(key@) == kv_view(orig).remove(key@),
                forall|j: int| 0 <= j < i ==> (#[trigger] self.entries@[j]).0@ != key@,
            decreases self.entries@.len() - i,
        {
            if self.entries[i].0.eq(key) {
                let ghost pre = self.entries@;
                let _ = self.entries.remove(i);
                proof {
                    lemma_kv_remove_entry(pre, i as int, key@);
                    assert(forall|j: int|
                        0 <= j < i ==> (#[trigger] self.entries@[j]).0@ != key@);
                }
            } else {
                i = i + 1;
            }
        }
        proof {
            lemma_kv_absent(self.entries@, key@);
            assert(kv_view(self.entries@) =~= kv_view(self.entries@).remove(key@));
        }
    }
}

/// If no entry carries `k`, the view has no binding for `k`.
proof fn lemma_kv_absent(s: Seq<(String, DictValue)>, k: Seq<char>)
    requires
        forall|i: int| 0 <= i < s.len() ==> (#[trigger] s[i]).0@ != k,
    ensures
        !kv_view(s).contains_key(k),
    decreases s.len(),
{
    if s.len() > 0 {
        assert(s[0].0@ != k);
        lemma_kv_absent(s.drop_first(), k);
    }
}

/// Replacing the earliest entry for a key rebinds exactly that key.
proof fn lemma_kv_update_first(
    s: Seq<(String, DictValue)>,
    i: int,
    pair: (String, DictValue),
)
    requires
        0 <= i < s.len(),
        s[i].0@ == pair.0@,
        forall|j: int| 0 <= j < i ==> (#[trigger] s[j]).0@ != pair.0@,
    ensures
        kv_view(s.update(i, pair)) == kv_view(s).insert(pair.0@, pair.1),
    decreases i,
{
    let t = s.update(i, pair);
    if i == 0 {
        assert(t.drop_first() =~= s.drop_first());
        assert(kv_view(t) == kv_view(s.drop_first()).insert(pair.0@, pair.1));
        assert(kv_view(s.drop_first()).insert(s[0].0@, s[0].1).insert(pair.0@, pair.1)
            =~= kv_view(s.drop_first()).insert(pair.0@, pair.1));
    } else {
        assert(t.drop_first() =~= s.drop_first().update(i - 1, pair));
        lemma_kv_update_first(s.drop_first(), i - 1, pair);
        assert(t[0] == s[0]);
        assert(kv_view(t) == kv_view(s.drop_first()).insert(pair.0@, pair.1).insert(
            s[0].0@,
            s[0].1,
        ));
        assert(s[0].0@ != pair.0@);
        assert(kv_view(s.drop_first()).insert(pair.0@, pair.1).insert(s[0].0@, s[0].1)
            =~= kv_view(s.drop_first()).insert(s[0].0@, s[0].1).insert(pair.0@, pair.1));
    }
}

/// Appending an entry for a key no other entry carries binds exactly that key.
proof fn lemma_kv_push_absent(s: Seq<(String, DictValue)>, pair: (String, DictValue))
    requires
        forall|i: int| 0 <= i < s.len() ==> (#[trigger] s[i]).0@ != pair.0@,
    ensures
        kv_view(s.push(pair)) == kv_view(s).insert(pair.0@, pair.1),
    decreases s.len(),
{
    let t = s.push(pair);
    if s.len() == 0 {
        assert(t.drop_first() =~= Seq::<(String, DictValue)>::empty());
        assert(t[0] == pair);
        assert(kv_view(t.drop_first()) =~= kv_view(s));
        assert(kv_view(t) =~= kv_view(s).insert(pair.0@, pair.1));
    } else {
        assert(t.drop_first() =~= s.drop_first().push(pair));
        lemma_kv_push_absent(s.drop_first(), pair);
        assert(t[0] == s[0]);
        assert(s[0].0@ != pair.0@);
        assert(kv_view(s.drop_first()).insert(pair.0@, pair.1).insert(s[0].0@, s[0].1)
            =~= kv_view(s.drop_first()).insert(s[0].0@, s[0].1).insert(pair.0@, pair.1));
    }
}

/// Dropping an entry for key `k` leaves every other key's binding alone.
proof fn lemma_kv_remove_entry(s: Seq<(String, DictValue)>, i: int, k: Seq<char>)
    requires
        0 <= i < s.len(),
        s[i].0@ == k,
    ensures
        kv_view(s.remove(i)).remove(k) == kv_view(s).remove(k),
    decreases i,
{
    let t = s.remove(i);
    if i == 0 {
        assert(t =~= s.drop_first());
        assert(kv_view(s).remove(k) =~= kv_view(s.drop_first()).remove(k));
    } else {
        assert(t.drop_first() =~= s.drop_first().remove(i - 1));
        lemma_kv_remove_entry(s.drop_first(), i - 1, k);
        assert(t[0] == s[0]);
        assert(kv_view(t) == kv_view(s.drop_first().remove(i - 1)).insert(s[0].0@, s[0].1));
        if s[0].0@ == k {
            assert(kv_view(t).remove(k) =~= kv_view(s.drop_first().remove(i - 1)).remove(k));
            assert(kv_view(s).remove(k) =~= kv_view(s.drop_first()).remove(k));
        } else {
            assert(kv_view(t).remove(k) =~= kv_view(s.drop_first().remove(i - 1)).remove(
                k,
            ).insert(s[0].0@, s[0].1));
            assert(kv_view(s).remove(k) =~= kv_view(s.drop_first()).remove(k).insert(
                s[0].0@,
                s[0].1,
            ));
        }
    }
}

impl Clone for DictValue {
    /// Produces a structurally equal value: same tag, characters, elements
    /// and entries.
    fn clone(&self) -> (r: Self)
        ensures
            dv_eq(r, *self),
        decreases *self,
    {
        match self {
            DictValue::Null => DictValue::Null,
            DictValue::Str(x) => DictValue::Str(x.clone()),
            DictValue::Char(x) => DictValue::Char(*x),
            DictValue::U8(x) => DictValue::U8(*x),
            DictValue::I8(x) => DictValue::I8(*x),
            DictValue::U16(x) => DictValue::U16(*x),
            DictValue::I16(x) => DictValue::I16(*x),
            DictValue::U32(x) => DictValue::U32(*x),
            DictValue::I32(x) => DictValue::I32(*x),
            DictValue::U64(x) => DictValue::U64(*x),
            DictValue::I64(x) => DictValue::I64(*x),
            DictValue::U128(x) => DictValue::U128(*x),
            DictValue::I128(x) => DictValue::I128(*x),
            DictValue::F32Bits(x) => DictValue::F32Bits(*x),
            DictValue::F64Bits(x) => DictValue::F64Bits(*x),
            DictValue::Array(items) => {
                let mut out: Vec<DictValue> = Vec::new();
                let n = items.len();
                let mut i: usize = 0;
                while i < n
                    invariant
                        n == items@.len(),
                        i <= n,
                        out@.len() == i,
                        forall|j: int| 0 <= j < i ==> dv_eq(#[trigger] out@[j], items@[j]),
                        *self == DictValue::Array(*items),
                    decreases n - i,
                {
                    proof {
                        assert(decreases_to!(*self => (*self)->Array_0));
                        assert((*self)->Array_0 == *items);
                        assert(decreases_to!(*self => items@[i as int]));
                    }
                    out.push(items[i].clone());
                    i = i + 1;
                }
                DictValue::Array(out)
            },
            DictValue::Dict(d) => DictValue::Dict(d.clone()),
        }
    }
}

impl Clone for Dict {
    /// Produces a dictionary with structurally equal entries in the same
    /// order; in particular the clone's abstract map has the same keys.
    fn clone(&self) -> (r: Self)
        ensures
            dict_entries_eq(r, *self),
        decreases *self,
    {
        let mut out: Vec<(String, DictValue)> = Vec::new();
        let n = self.entries.len();
        let mut i: usize = 0;
        while i < n
            invariant
                n == self.entries@.len(),
                i <= n,
                out@.len() == i,
                forall|j: int| 0 <= j < i ==> (#[trigger] out@[j]).0@ == self.entries@[j].0@
                    && dv_eq(out@[j].1, self.entries@[j].1),
            decreases n - i,
        {
            proof {
                assert(decreases_to!(*self => self.entries@[i as int]));
                assert(decreases_to!(self.entries@[i as int] => self.entries@[i as int].1));
            }
            let pair = (self.entries[i].0.clone(), self.entries[i].1.clone());
            out.push(pair);
            i = i + 1;
        }
        Dict { entries: out }
    }
}

} // verus!
