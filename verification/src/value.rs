//! A JSON-like document model.
//!
//! Metadata documents on identity records are semi-structured values:
//! null, booleans, numbers, strings, arrays, and key/value objects.  The
//! executable type `JsonValue` carries them through the engine; the ghost
//! type `SpecJson` is its mathematical view, and every contract in the
//! library speaks of that view.

use vstd::prelude::*;
use vstd::string::StringExecFns;

verus! {

/// The mathematical model of a document: what a `JsonValue` denotes.
#[verifier::ext_equal]
pub enum SpecJson {
    Null,
    Bool(bool),
    Num(u64),
    Str(Seq<char>),
    Arr(Seq<SpecJson>),
    Obj(Seq<(Seq<char>, SpecJson)>),
}

/// Looks a key up among object entries; the first match wins.
pub open spec fn spec_obj_get(entries: Seq<(Seq<char>, SpecJson)>, key: Seq<char>) -> Option<
    SpecJson,
>
    decreases entries.len(),
{
    if entries.len() == 0 {
        None
    } else if entries[0].0 == key {
        Some(entries[0].1)
    } else {
        spec_obj_get(entries.drop_first(), key)
    }
}

impl SpecJson {
    /// The value under `key`, when this document is an object that has it.
    pub open spec fn get(self, key: Seq<char>) -> Option<SpecJson> {
        match self {
            SpecJson::Obj(entries) => spec_obj_get(entries, key),
            _ => None,
        }
    }
}

/// A semi-structured document, as read from or written to an identity
/// record's metadata.
#[derive(Debug)]
pub enum JsonValue {
    Null,
    Bool(bool),
    Num(u64),
    Str(String),
    Arr(Vec<JsonValue>),
    Obj(Vec<(String, JsonValue)>),
}

/// The view of an array's elements.
pub open spec fn arr_view(items: Seq<JsonValue>) -> Seq<SpecJson>
    decreases items,
{
    if items.len() == 0 {
        Seq::empty()
    } else {
        arr_view(items.drop_last()).push(json_view(items.last()))
    }
}

/// The view of an object's entries.
pub open spec fn obj_view(entries: Seq<(String, JsonValue)>) -> Seq<(Seq<char>, SpecJson)>
    decreases entries,
{
    if entries.len() == 0 {
        Seq::empty()
    } else {
        obj_view(entries.drop_last()).push(
            (entries.last().0@, json_view(entries.last().1)),
        )
    }
}

/// The document a `JsonValue` denotes.
pub open spec fn json_view(v: JsonValue) -> SpecJson
    decreases v,
{
    match v {
        JsonValue::Null => SpecJson::Null,
        JsonValue::Bool(b) => SpecJson::Bool(b),
        JsonValue::Num(n) => SpecJson::Num(n),
        JsonValue::Str(s) => SpecJson::Str(s@),
        JsonValue::Arr(items) => SpecJson::Arr(arr_view(items@)),
        JsonValue::Obj(entries) => SpecJson::Obj(obj_view(entries@)),
    }
}

impl View for JsonValue {
    type V = SpecJson;

    open spec fn view(&self) -> SpecJson {
        json_view(*self)
    }
}

/// `arr_view` is the element-wise view.
pub proof fn lemma_arr_view(items: Seq<JsonValue>)
    ensures
        arr_view(items).len() == items.len(),
        forall|i: int| 0 <= i < items.len() ==> arr_view(items)[i] == json_view(#[trigger] items[i]),
    decreases items,
{
    if items.len() > 0 {
        lemma_arr_view(items.drop_last());
        assert forall|i: int| 0 <= i < items.len() implies arr_view(items)[i] == json_view(
            #[trigger] items[i],
        ) by {
            if i < items.len() - 1 {
                assert(items.drop_last()[i] == items[i]);
            } else {
                assert(items.last() == items[i]);
            }
        }
    }
}

/// `obj_view` is the entry-wise view.
pub proof fn lemma_obj_view(entries: Seq<(String, JsonValue)>)
    ensures
        obj_view(entries).len() == entries.len(),
        forall|i: int| 0 <= i < entries.len() ==> obj_view(entries)[i] == (
            (#[trigger] entries[i]).0@,
            json_view(entries[i].1),
        ),
    decreases entries,
{
    if entries.len() > 0 {
        lemma_obj_view(entries.drop_last());
        assert forall|i: int| 0 <= i < entries.len() implies obj_view(entries)[i] == (
            (#[trigger] entries[i]).0@,
            json_view(entries[i].1),
        ) by {
            if i < entries.len() - 1 {
                assert(entries.drop_last()[i] == entries[i]);
            } else {
                assert(entries.last() == entries[i]);
            }
        }
    }
}

/// String equality, stated over the views.
pub fn string_eq(a: &String, b: &String) -> (r: bool)
    ensures
        r == (a@ == b@),
{
    *a == *b
}

/// String / string-slice equality, stated over the views.
pub fn str_eq(a: &String, b: &str) -> (r: bool)
    ensures
        r == (a@ == b@),
{
    string_eq(a, &b.to_owned())
}

/// String-slice equality, stated over the views.
pub fn str_eq_str(a: &str, b: &str) -> (r: bool)
    ensures
        r == (a@ == b@),
{
    string_eq(&a.to_owned(), &b.to_owned())
}

/// Skipping entries whose keys all miss leaves the lookup unchanged.
pub proof fn lemma_obj_get_skip(entries: Seq<(Seq<char>, SpecJson)>, key: Seq<char>, i: int)
    requires
        0 <= i <= entries.len(),
        forall|j: int| 0 <= j < i ==> (#[trigger] entries[j]).0 != key,
    ensures
        spec_obj_get(entries, key) == spec_obj_get(entries.skip(i), key),
    decreases i,
{
    if i > 0 {
        lemma_obj_get_skip(entries.drop_first(), key, i - 1);
        assert(entries.drop_first().skip(i - 1) =~= entries.skip(i));
    } else {
        assert(entries.skip(0) =~= entries);
    }
}

/// The string under `key`, when the document is an object whose value
/// under `key` is a string.
pub open spec fn str_field(v: SpecJson, key: Seq<char>) -> Option<Seq<char>> {
    match v.get(key) {
        Some(n) => match n {
            SpecJson::Str(s) => Some(s),
            _ => None,
        },
        None => None,
    }
}

impl JsonValue {
    /// The value under `key`, when this document is an object that has it.
    ///
    /// `None` both for a non-object document and for a missing key, as
    /// the view-level `get` is.
    pub fn get<'a>(&'a self, key: &str) -> (r: Option<&'a JsonValue>)
        ensures
            match r {
                Some(v) => self@.get(key@) == Some(v@),
                None => self@.get(key@) is None,
            },
    {
        match self {
            JsonValue::Obj(entries) => {
                proof {
                    lemma_obj_view(entries@);
                }
                let k = key.to_owned();
                let ghost spec_entries = obj_view(entries@);
                let mut i: usize = 0;
                while i < entries.len()
                    invariant
                        *self == JsonValue::Obj(*entries),
                        0 <= i <= entries@.len(),
                        k@ == key@,
                        spec_entries == obj_view(entries@),
                        spec_entries.len() == entries@.len(),
                        forall|j: int|
                            0 <= j < entries@.len() ==> spec_entries[j] == (
                                (#[trigger] entries@[j]).0@,
                                json_view(entries@[j].1),
                            ),
                        forall|j: int| 0 <= j < i ==> (#[trigger] spec_entries[j]).0 != key@,
                    decreases entries@.len() - i,
                {
                    let pair = &entries[i];
                    if string_eq(&pair.0, &k) {
                        proof {
                            lemma_obj_get_skip(spec_entries, key@, i as int);
                            assert(spec_entries.skip(i as int)[0] == spec_entries[i as int]);
                            assert(spec_entries[i as int].0 == key@);
                            assert(spec_obj_get(spec_entries, key@) == Some(
                                spec_entries[i as int].1,
                            ));
                            assert(self@ == SpecJson::Obj(spec_entries));
                        }
                        return Some(&pair.1);
                    }
                    i += 1;
                }
                proof {
                    lemma_obj_get_skip(spec_entries, key@, entries@.len() as int);
                }
                None
            },
            _ => None,
        }
    }

    /// The string under `key`, when this document has one there.
    pub fn get_str_field(&self, key: &str) -> (r: Option<String>)
        ensures
            match r {
                Some(s) => str_field(self@, key@) == Some(s@),
                None => str_field(self@, key@) is None,
            },
    {
        match self.get(key) {
            Some(nv) => match nv {
                JsonValue::Str(s) => Some(s.clone()),
                _ => {
                    proof {
                        match *nv {
                            JsonValue::Null => {},
                            JsonValue::Bool(_) => {},
                            JsonValue::Num(_) => {},
                            JsonValue::Str(_) => {
                                assert(false);
                            },
                            JsonValue::Arr(_) => {},
                            JsonValue::Obj(_) => {},
                        }
                    }
                    None
                },
            },
            None => None,
        }
    }

    /// A structural copy; the copy denotes the same document.
    pub fn duplicate(&self) -> (r: JsonValue)
        ensures
            r@ == self@,
        decreases *self,
    {
        match self {
            JsonValue::Null => JsonValue::Null,
            JsonValue::Bool(b) => JsonValue::Bool(*b),
            JsonValue::Num(n) => JsonValue::Num(*n),
            JsonValue::Str(s) => JsonValue::Str(s.clone()),
            JsonValue::Arr(items) => {
                let mut out: Vec<JsonValue> = Vec::new();
                let mut i: usize = 0;
                while i < items.len()
                    invariant
                        *self == JsonValue::Arr(*items),
                        0 <= i <= items@.len(),
                        out@.len() == i,
                        forall|j: int|
                            0 <= j < i ==> json_view(#[trigger] out@[j]) == json_view(items@[j]),
                    decreases items@.len() - i,
                {
                    proof {
                        let whole = *self;
                        assert(decreases_to!(whole => whole->Arr_0));
                        assert(whole->Arr_0 == *items);
                        assert(decreases_to!(*items => items@));
                        assert(decreases_to!(items@ => items@[i as int]));
                        assert(decreases_to!(*self => items@[i as int]));
                    }
                    let e = items[i].duplicate();
                    out.push(e);
                    i += 1;
                }
                proof {
                    lemma_arr_view(out@);
                    lemma_arr_view(items@);
                    assert forall|j: int| 0 <= j < out@.len() implies arr_view(out@)[j]
                        == arr_view(items@)[j] by {
                        assert(json_view(out@[j]) == json_view(items@[j]));
                    }
                    assert(arr_view(out@) =~= arr_view(items@));
                }
                JsonValue::Arr(out)
            },
            JsonValue::Obj(entries) => {
                let mut out: Vec<(String, JsonValue)> = Vec::new();
                let mut i: usize = 0;
                while i < entries.len()
                    invariant
                        *self == JsonValue::Obj(*entries),
                        0 <= i <= entries@.len(),
                        out@.len() == i,
                        forall|j: int|
                            0 <= j < i ==> (#[trigger] out@[j]).0@ == entries@[j].0@ && json_view(
                                out@[j].1,
                            ) == json_view(entries@[j].1),
                    decreases entries@.len() - i,
                {
                    proof {
                        let whole = *self;
                        assert(decreases_to!(whole => whole->Obj_0));
                        assert(whole->Obj_0 == *entries);
                        assert(decreases_to!(*entries => entries@));
                        assert(decreases_to!(entries@ => entries@[i as int]));
                        assert(decreases_to!(entries@[i as int] => entries@[i as int].1));
                        assert(decreases_to!(*self => entries@[i as int].1));
                    }
                    let pair = &entries[i];
                    let e = (pair.0.clone(), pair.1.duplicate());
                    out.push(e);
                    i += 1;
                }
                proof {
                    lemma_obj_view(out@);
                    lemma_obj_view(entries@);
                    assert forall|j: int| 0 <= j < out@.len() implies obj_view(out@)[j]
                        == obj_view(entries@)[j] by {
                        assert((out@[j]).0@ == entries@[j].0@);
                        assert(json_view(out@[j].1) == json_view(entries@[j].1));
                    }
                    assert(obj_view(out@) =~= obj_view(entries@));
                }
                JsonValue::Obj(out)
            },
        }
    }
}

} // verus!
