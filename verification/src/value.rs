//! The tagged value model of render-context data: numbers, text, booleans,
//! sequences and mappings, with safe dotted-path lookup that yields `Absent`
//! (never a failure) when a segment is missing or type-mismatched.

use vstd::prelude::*;

use crate::text::{chars_of_str, chars_views, dec_str, u64_to_chars};

verus! {

broadcast use vstd::std_specs::vec::axiom_vec_decreases_to_view, vstd::seq::axiom_seq_index_decreases;

/// Mathematical model of a context value.
pub ghost enum GVal {
    Absent,
    Bool(bool),
    Num(u64),
    Text(Seq<char>),
    List(Seq<GVal>),
    Dict(Seq<(Seq<char>, GVal)>),
}

/// A context value: what a template's paths resolve to and what helper
/// arguments evaluate to. Counts and dimensions are non-negative integers.
pub enum TplValue {
    Absent,
    Bool(bool),
    Num(u64),
    Text(String),
    List(Vec<TplValue>),
    Dict(Vec<(String, TplValue)>),
}

impl DeepView for TplValue {
    type V = GVal;

    open spec fn deep_view(&self) -> GVal
        decreases self,
    {
        match self {
            TplValue::Absent => GVal::Absent,
            TplValue::Bool(b) => GVal::Bool(*b),
            TplValue::Num(n) => GVal::Num(*n),
            TplValue::Text(s) => GVal::Text(s@),
            TplValue::List(items) => GVal::List(list_view(items)),
            TplValue::Dict(entries) => GVal::Dict(dict_view(entries)),
        }
    }
}

/// The models of the elements of a value list.
pub open spec fn list_view(items: &Vec<TplValue>) -> Seq<GVal>
    decreases items,
{
    Seq::new(
        items@.len(),
        |i: int|
            if 0 <= i < items@.len() {
                items@[i].deep_view()
            } else {
                GVal::Absent
            },
    )
}

/// The models of the entries of a value mapping.
pub open spec fn dict_view(entries: &Vec<(String, TplValue)>) -> Seq<(Seq<char>, GVal)>
    decreases entries,
{
    Seq::new(
        entries@.len(),
        |i: int|
            if 0 <= i < entries@.len() {
                (entries@[i].0@, entries@[i].1.deep_view())
            } else {
                (Seq::empty(), GVal::Absent)
            },
    )
}

/// First entry of `entries` whose key is `key`, if any.
pub open spec fn dict_get(entries: Seq<(Seq<char>, GVal)>, key: Seq<char>) -> Option<GVal>
    decreases entries.len(),
{
    if entries.len() == 0 {
        None
    } else if entries[0].0 == key {
        Some(entries[0].1)
    } else {
        dict_get(entries.drop_first(), key)
    }
}

/// Resolution of a dotted path against a value: each segment is looked up in
/// the current mapping; a missing key, or a segment applied to anything but a
/// mapping, resolves to `Absent`.
pub open spec fn lookup_spec(v: GVal, path: Seq<Seq<char>>) -> GVal
    decreases path.len(),
{
    if path.len() == 0 {
        v
    } else {
        match v {
            GVal::Dict(entries) => match dict_get(entries, path[0]) {
                Some(child) => lookup_spec(child, path.drop_first()),
                None => GVal::Absent,
            },
            _ => GVal::Absent,
        }
    }
}

/// How a value reads as plain text: numbers in decimal, booleans as
/// `true`/`false`, text as itself; `Absent`, sequences and mappings read as
/// empty text (sequences are given to `join` to be spelled out).
pub open spec fn scalar_text(v: GVal) -> Seq<char> {
    match v {
        GVal::Absent => Seq::empty(),
        GVal::Bool(b) => if b {
            "true"@
        } else {
            "false"@
        },
        GVal::Num(n) => dec_str(n as nat),
        GVal::Text(s) => s,
        GVal::List(_) => Seq::empty(),
        GVal::Dict(_) => Seq::empty(),
    }
}

/// Whether key `key` (a character vector) equals string `s`.
fn key_eq(key: &Vec<char>, s: &String) -> (r: bool)
    ensures
        r == (key@ == s@),
{
    crate::text::chars_eq_str(key, s.as_str())
}

impl TplValue {
    /// Looks one segment up in a mapping; `None` when the value is not a
    /// mapping or the key is missing.
    fn get_entry<'a>(&'a self, key: &Vec<char>) -> (r: Option<&'a TplValue>)
        ensures
            match self.deep_view() {
                GVal::Dict(entries) => match dict_get(entries, key@) {
                    Some(g) => r matches Some(x) && x.deep_view() == g,
                    None => r is None,
                },
                _ => r is None,
            },
    {
        match self {
            TplValue::Dict(entries) => {
                let ghost gentries = dict_view(entries);
                proof {
                    assert(self.deep_view() == GVal::Dict(gentries));
                    assert(gentries.skip(0) =~= gentries);
                }
                let n = entries.len();
                let mut i: usize = 0;
                while i < n
                    invariant
                        n == entries@.len(),
                        i <= n,
                        gentries == dict_view(entries),
                        self.deep_view() == GVal::Dict(gentries),
                        dict_get(gentries, key@) == dict_get(gentries.skip(i as int), key@),
                    decreases n - i,
                {
                    proof {
                        assert(gentries.skip(i as int)[0] == gentries[i as int]);
                        assert(gentries.skip(i as int).drop_first() =~= gentries.skip(i + 1));
                    }
                    if key_eq(key, &entries[i].0) {
                        return Some(&entries[i].1);
                    }
                    i = i + 1;
                }
                proof {
                    assert(gentries.skip(n as int) =~= Seq::empty());
                }
                None
            },
            _ => None,
        }
    }

    /// Resolves a dotted path, as `lookup_spec` says; `None` stands for
    /// `Absent`.
    pub fn lookup<'a>(&'a self, path: &Vec<Vec<char>>, from: usize) -> (r: Option<&'a TplValue>)
        requires
            from <= path@.len(),
        ensures
            (match r {
                Some(x) => x.deep_view(),
                None => GVal::Absent,
            }) == lookup_spec(self.deep_view(), chars_views(path@).skip(from as int)),
        decreases path@.len() - from,
    {
        if from == path.len() {
            proof {
                assert(chars_views(path@).skip(from as int) =~= Seq::<Seq<char>>::empty());
            }
            Some(self)
        } else {
            proof {
                assert(chars_views(path@).skip(from as int)[0] == chars_views(path@)[from as int]);
                assert(chars_views(path@)[from as int] == path@[from as int]@);
                assert(chars_views(path@).skip(from as int).drop_first() =~= chars_views(
                    path@,
                ).skip(from + 1));
            }
            match self.get_entry(&path[from]) {
                Some(child) => child.lookup(path, from + 1),
                None => None,
            }
        }
    }

    /// A structural copy of this value, with the same model.
    pub fn deep_clone(&self) -> (r: TplValue)
        ensures
            r.deep_view() == self.deep_view(),
        decreases self,
    {
        match self {
            TplValue::Absent => TplValue::Absent,
            TplValue::Bool(b) => TplValue::Bool(*b),
            TplValue::Num(n) => TplValue::Num(*n),
            TplValue::Text(s) => TplValue::Text(s.clone()),
            TplValue::List(items) => {
                let n = items.len();
                let mut out: Vec<TplValue> = Vec::new();
                let mut i: usize = 0;
                while i < n
                    invariant
                        *self == TplValue::List(*items),
                        n == items@.len(),
                        i <= n,
                        out@.len() == i,
                        forall|j: int| 0 <= j < i ==> out@[j].deep_view() == list_view(items)[j],
                    decreases n - i,
                {
                    proof {
                        assert(*self == TplValue::List(*items));
                        assert(decreases_to!(*self => self->List_0));
                        assert(decreases_to!(*items => items@));
                        assert(decreases_to!(items@ => items@[i as int]));
                    }
                    out.push(items[i].deep_clone());
                    i = i + 1;
                }
                proof {
                    assert(list_view(&out) =~= list_view(items));
                }
                TplValue::List(out)
            },
            TplValue::Dict(entries) => {
                let n = entries.len();
                let mut out: Vec<(String, TplValue)> = Vec::new();
                let mut i: usize = 0;
                while i < n
                    invariant
                        *self == TplValue::Dict(*entries),
                        n == entries@.len(),
                        i <= n,
                        out@.len() == i,
                        forall|j: int|
                            0 <= j < i ==> (out@[j].0@, out@[j].1.deep_view()) == dict_view(
                                entries,
                            )[j],
                    decreases n - i,
                {
                    proof {
                        assert(*self == TplValue::Dict(*entries));
                        assert(decreases_to!(*self => self->Dict_0));
                        assert(decreases_to!(*entries => entries@));
                        assert(decreases_to!(entries@ => entries@[i as int]));
                        assert(decreases_to!(entries@[i as int] => entries@[i as int].1));
                    }
                    let key = entries[i].0.clone();
                    let val = entries[i].1.deep_clone();
                    out.push((key, val));
                    i = i + 1;
                }
                proof {
                    assert(dict_view(&out) =~= dict_view(entries));
                }
                TplValue::Dict(out)
            },
        }
    }

    /// The plain-text reading of this value, as `scalar_text` says.
    pub fn to_text_chars(&self) -> (r: Vec<char>)
        ensures
            r@ == scalar_text(self.deep_view()),
    {
        match self {
            TplValue::Absent => Vec::new(),
            TplValue::Bool(b) => {
                if *b {
                    chars_of_str("true")
                } else {
                    chars_of_str("false")
                }
            },
            TplValue::Num(n) => u64_to_chars(*n),
            TplValue::Text(s) => chars_of_str(s.as_str()),
            TplValue::List(_) => Vec::new(),
            TplValue::Dict(_) => Vec::new(),
        }
    }
}

} // verus!
