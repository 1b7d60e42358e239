//! The metadata codec.
//!
//! Membership is encoded inconsistently across identity records: the
//! same logical field may be a key/value object (the keys are the
//! members), a bare array of string or numeric ids, or null.  The codec
//! turns any accepted shape into a canonical membership collection and
//! rejects every other shape, naming the offending key.

use vstd::prelude::*;
use vstd::string::StringExecFns;

use crate::delta::spec_merge;
use crate::error::SyncError;
use crate::membership::{spec_map_insert, MembershipMap, MembershipSet};
use crate::numeral::{spec_decimal, u64_to_string};
use crate::value::{json_view, lemma_arr_view, lemma_obj_view, JsonValue, SpecJson};

verus! {

/// Whether one document element can stand for a membership id.
pub open spec fn is_id(v: SpecJson) -> bool {
    v is Str || v is Num
}

/// The id an element stands for: a string id itself, a numeric id in
/// decimal.
pub open spec fn id_of(v: SpecJson) -> Seq<char> {
    match v {
        SpecJson::Str(s) => s,
        SpecJson::Num(n) => spec_decimal(n as nat),
        _ => Seq::empty(),
    }
}

/// The shapes `normalize` accepts: an object (keys are the members), an
/// array of ids, or null (empty membership, not an error).
pub open spec fn normalizable(v: SpecJson) -> bool {
    match v {
        SpecJson::Obj(_) => true,
        SpecJson::Null => true,
        SpecJson::Arr(items) => forall|i: int| 0 <= i < items.len() ==> is_id(#[trigger] items[i]),
        _ => false,
    }
}

/// The ids a document encodes, in document order, duplicates kept.
pub open spec fn raw_ids(v: SpecJson) -> Seq<Seq<char>> {
    match v {
        SpecJson::Obj(entries) => entries.map_values(|e: (Seq<char>, SpecJson)| e.0),
        SpecJson::Arr(items) => items.map_values(|x: SpecJson| id_of(x)),
        _ => Seq::empty(),
    }
}

/// The membership a document encodes: its ids, first occurrence kept.
pub open spec fn spec_normalize(v: SpecJson) -> Seq<Seq<char>> {
    spec_merge(Seq::empty(), raw_ids(v))
}

/// The normalized membership holds exactly the encoded ids.
pub proof fn lemma_normalize_members(v: SpecJson)
    ensures
        forall|x: Seq<char>| #[trigger]
            spec_normalize(v).contains(x) <==> raw_ids(v).contains(x),
{
    crate::delta::lemma_merge_elements(Seq::empty(), raw_ids(v));
    assert forall|x: Seq<char>| !Seq::<Seq<char>>::empty().contains(x) by {}
}

/// Encoding-shape transparency: an object and an array that encode the
/// same ids — the object under its keys, the array under its elements,
/// in any order and multiplicity — normalize to the same membership set.
pub proof fn lemma_shape_transparency(o: SpecJson, a: SpecJson)
    requires
        o is Obj,
        a is Arr,
        raw_ids(o).to_set() == raw_ids(a).to_set(),
    ensures
        spec_normalize(o).to_set() == spec_normalize(a).to_set(),
{
    lemma_normalize_members(o);
    lemma_normalize_members(a);
    assert forall|x: Seq<char>| #[trigger]
        spec_normalize(o).to_set().contains(x) <==> spec_normalize(a).to_set().contains(x) by {
        assert(raw_ids(o).to_set().contains(x) == raw_ids(o).contains(x));
        assert(raw_ids(a).to_set().contains(x) == raw_ids(a).contains(x));
        assert(spec_normalize(o).to_set().contains(x) == spec_normalize(o).contains(x));
        assert(spec_normalize(a).to_set().contains(x) == spec_normalize(a).contains(x));
    }
    assert(spec_normalize(o).to_set() =~= spec_normalize(a).to_set());
}

/// Adds every id the document encodes to `set`.  On a shape the codec
/// refuses, the error names `key` and the set is no further changed.
pub fn add_ids(set: &mut MembershipSet, v: &JsonValue, key: &str) -> (r: Result<(), SyncError>)
    requires
        old(set).inv(),
    ensures
        final(set).inv(),
        match r {
            Ok(_) => normalizable(v@) && final(set)@ == spec_merge(old(set)@, raw_ids(v@)),
            Err(e) => !normalizable(v@) && (e matches SyncError::Shape(k) && k@ == key@) && exists|
                k: int,
            |
                0 <= k <= raw_ids(v@).len() && final(set)@ == spec_merge(
                    old(set)@,
                    #[trigger] raw_ids(v@).take(k),
                ),
        },
{
    match v {
        JsonValue::Null => {
            proof {
                assert(raw_ids(v@) =~= Seq::<Seq<char>>::empty());
            }
            Ok(())
        },
        JsonValue::Obj(entries) => {
            proof {
                lemma_obj_view(entries@);
            }
            let ghost oe = crate::value::obj_view(entries@);
            let ghost s0 = set@;
            let mut i: usize = 0;
            while i < entries.len()
                invariant
                    set.inv(),
                    0 <= i <= entries@.len(),
                    oe == crate::value::obj_view(entries@),
                    oe.len() == entries@.len(),
                    forall|j: int|
                        0 <= j < entries@.len() ==> oe[j] == (
                            (#[trigger] entries@[j]).0@,
                            json_view(entries@[j].1),
                        ),
                    set@ == spec_merge(s0, oe.map_values(|e: (Seq<char>, SpecJson)| e.0).take(
                        i as int,
                    )),
                decreases entries@.len() - i,
            {
                let pair = &entries[i];
                set.insert(pair.0.clone());
                proof {
                    let keys = oe.map_values(|e: (Seq<char>, SpecJson)| e.0);
                    assert(keys.take(i + 1).drop_last() =~= keys.take(i as int));
                    assert(keys.take(i + 1).last() == oe[i as int].0);
                }
                i += 1;
            }
            proof {
                let keys = oe.map_values(|e: (Seq<char>, SpecJson)| e.0);
                assert(keys.take(entries@.len() as int) =~= keys);
                assert(v@ == SpecJson::Obj(oe));
            }
            Ok(())
        },
        JsonValue::Arr(items) => {
            proof {
                lemma_arr_view(items@);
            }
            let ghost ia = crate::value::arr_view(items@);
            let ghost s0 = set@;
            let mut i: usize = 0;
            while i < items.len()
                invariant
                    set.inv(),
                    v@ == SpecJson::Arr(ia),
                    0 <= i <= items@.len(),
                    ia == crate::value::arr_view(items@),
                    ia.len() == items@.len(),
                    forall|j: int| 0 <= j < items@.len() ==> ia[j] == json_view(#[trigger] items@[j]),
                    forall|j: int| 0 <= j < i ==> is_id(#[trigger] ia[j]),
                    set@ == spec_merge(s0, ia.map_values(|x: SpecJson| id_of(x)).take(i as int)),
                    s0 == old(set)@,
                decreases items@.len() - i,
            {
                let id: String = match &items[i] {
                    JsonValue::Str(s) => s.clone(),
                    JsonValue::Num(n) => u64_to_string(*n),
                    _ => {
                        proof {
                            match items@[i as int] {
                                JsonValue::Null => {},
                                JsonValue::Bool(_) => {},
                                JsonValue::Num(_) => {
                                    assert(false);
                                },
                                JsonValue::Str(_) => {
                                    assert(false);
                                },
                                JsonValue::Arr(_) => {},
                                JsonValue::Obj(_) => {},
                            }
                            assert(!is_id(ia[i as int]));
                            assert(!normalizable(v@)) by {
                                if normalizable(v@) {
                                    assert(v@ == SpecJson::Arr(ia));
                                    assert(v@->Arr_0 == ia);
                                    assert(is_id(v@->Arr_0[i as int]));
                                    assert(false);
                                }
                            }
                            let ids = ia.map_values(|x: SpecJson| id_of(x));
                            assert(raw_ids(v@) == ids);
                            assert(set@ == spec_merge(old(set)@, raw_ids(v@).take(i as int)));
                        }
                        return Err(SyncError::Shape(key.to_owned()));
                    },
                };
                set.insert(id);
                proof {
                    let ids = ia.map_values(|x: SpecJson| id_of(x));
                    assert(ids.take(i + 1).drop_last() =~= ids.take(i as int));
                    assert(ids.take(i + 1).last() == id_of(ia[i as int]));
                }
                i += 1;
            }
            proof {
                let ids = ia.map_values(|x: SpecJson| id_of(x));
                assert(ids.take(items@.len() as int) =~= ids);
                assert(v@ == SpecJson::Arr(ia));
            }
            Ok(())
        },
        _ => {
            proof {
                match *v {
                    JsonValue::Null => {
                        assert(false);
                    },
                    JsonValue::Bool(_) => {},
                    JsonValue::Num(_) => {},
                    JsonValue::Str(_) => {},
                    JsonValue::Arr(_) => {
                        assert(false);
                    },
                    JsonValue::Obj(_) => {
                        assert(false);
                    },
                }
                assert(!normalizable(v@));
                assert(raw_ids(v@).take(0) =~= Seq::<Seq<char>>::empty());
                assert(set@ == spec_merge(old(set)@, raw_ids(v@).take(0)));
            }
            Err(SyncError::Shape(key.to_owned()))
        },
    }
}

/// The display name an entry exposes: the value of its `"name"` field,
/// when the entry is an object and that value is a string.
pub open spec fn entry_name(v: SpecJson) -> Option<Seq<char>> {
    crate::value::str_field(v, "name"@)
}

/// Whether an entry exposes a display name.
pub open spec fn name_ok(e: (Seq<char>, SpecJson)) -> bool {
    entry_name(e.1) is Some
}

/// The id-to-name map that a sequence of entries builds, later entries
/// replacing earlier bindings of the same id.
pub open spec fn spec_named_map(entries: Seq<(Seq<char>, SpecJson)>) -> Seq<
    (Seq<char>, Seq<char>),
>
    decreases entries.len(),
{
    if entries.len() == 0 {
        Seq::empty()
    } else {
        let nm = match entry_name(entries.last().1) {
            Some(s) => s,
            None => Seq::empty(),
        };
        spec_map_insert(spec_named_map(entries.drop_last()), entries.last().0, nm)
    }
}

/// Extracts the id-to-display-name map under `key`: each entry's value
/// must be an object exposing a string `"name"` field.  A missing key
/// is the empty map; a non-object value under `key` is an error naming
/// `key`; an entry without a proper name is an error naming that
/// entry's id.
pub fn extract_named(v: &JsonValue, key: &str) -> (r: Result<MembershipMap, SyncError>)
    ensures
        match r {
            Ok(m) => {
                &&& m.inv()
                &&& match v@.get(key@) {
                    None => m@ == Seq::<(Seq<char>, Seq<char>)>::empty(),
                    Some(d) => d is Obj && (forall|k: int|
                        0 <= k < d->Obj_0.len() ==> name_ok(#[trigger] d->Obj_0[k])) && m@
                        == spec_named_map(d->Obj_0),
                }
            },
            Err(e) => e matches SyncError::Shape(bk) && match v@.get(key@) {
                None => false,
                Some(d) => {
                    if !(d is Obj) {
                        bk@ == key@
                    } else {
                        exists|k: int|
                            0 <= k < d->Obj_0.len() && !name_ok(#[trigger] d->Obj_0[k]) && bk@
                                == d->Obj_0[k].0 && (forall|j: int|
                                0 <= j < k ==> name_ok(#[trigger] d->Obj_0[j]))
                    }
                },
            },
        },
{
    let mut m = MembershipMap::new();
    let data = match v.get(key) {
        Some(d) => d,
        None => {
            return Ok(m);
        },
    };
    match data {
        JsonValue::Obj(entries) => {
            proof {
                lemma_obj_view(entries@);
            }
            let ghost oe = crate::value::obj_view(entries@);
            let mut i: usize = 0;
            while i < entries.len()
                invariant
                    m.inv(),
                    data@ == SpecJson::Obj(oe),
                    v@.get(key@) == Some(data@),
                    0 <= i <= entries@.len(),
                    oe == crate::value::obj_view(entries@),
                    oe.len() == entries@.len(),
                    forall|j: int|
                        0 <= j < entries@.len() ==> oe[j] == (
                            (#[trigger] entries@[j]).0@,
                            json_view(entries@[j].1),
                        ),
                    forall|j: int| 0 <= j < i ==> name_ok(#[trigger] oe[j]),
                    m@ == spec_named_map(oe.take(i as int)),
                decreases entries@.len() - i,
            {
                let pair = &entries[i];
                let name = match pair.1.get_str_field("name") {
                    Some(s) => s,
                    None => {
                        proof {
                            let d = v@.get(key@)->Some_0;
                            assert(d->Obj_0 == oe);
                            assert(oe[i as int].1 == json_view(entries@[i as int].1));
                            assert(!name_ok(oe[i as int]));
                            assert(0 <= i < d->Obj_0.len() && !name_ok(d->Obj_0[i as int])
                                && pair.0@ == d->Obj_0[i as int].0 && (forall|j: int|
                                0 <= j < i ==> name_ok(#[trigger] d->Obj_0[j])));
                        }
                        return Err(SyncError::Shape(pair.0.clone()));
                    },
                };
                m.insert(pair.0.clone(), name);
                proof {
                    assert(oe.take(i + 1).drop_last() =~= oe.take(i as int));
                    assert(oe.take(i + 1).last() == oe[i as int]);
                }
                i += 1;
            }
            proof {
                assert(oe.take(entries@.len() as int) =~= oe);
            }
            Ok(m)
        },
        _ => {
            proof {
                match *data {
                    JsonValue::Null => {},
                    JsonValue::Bool(_) => {},
                    JsonValue::Num(_) => {},
                    JsonValue::Str(_) => {},
                    JsonValue::Arr(_) => {},
                    JsonValue::Obj(_) => {
                        assert(false);
                    },
                }
            }
            Err(SyncError::Shape(key.to_owned()))
        },
    }
}

/// The nested project list of a group or organisation entry, under
/// `"project"` or, failing that, `"projects"`.
pub open spec fn entry_project(v: SpecJson) -> Option<SpecJson> {
    match v.get("project"@) {
        Some(p) => Some(p),
        None => v.get("projects"@),
    }
}

/// Whether an entry's nested project list, if any, has an accepted
/// shape.
pub open spec fn entry_project_ok(e: (Seq<char>, SpecJson)) -> bool {
    match entry_project(e.1) {
        Some(p) => normalizable(p),
        None => true,
    }
}

/// The project ids one entry nests.
pub open spec fn entry_pids(e: (Seq<char>, SpecJson)) -> Seq<Seq<char>> {
    match entry_project(e.1) {
        Some(p) => raw_ids(p),
        None => Seq::empty(),
    }
}

/// The project ids a sequence of entries nests, in order.
pub open spec fn entries_pids(entries: Seq<(Seq<char>, SpecJson)>) -> Seq<Seq<char>>
    decreases entries.len(),
{
    if entries.len() == 0 {
        Seq::empty()
    } else {
        entries_pids(entries.drop_last()) + entry_pids(entries.last())
    }
}

/// The nested project list of one entry, when it has one.
fn get_project<'a>(v: &'a JsonValue) -> (r: Option<&'a JsonValue>)
    ensures
        match r {
            Some(p) => entry_project(v@) == Some(p@),
            None => entry_project(v@) is None,
        },
{
    match v.get("project") {
        Some(p) => Some(p),
        None => v.get("projects"),
    }
}

/// Folds the project ids nested in every entry of `data` into `set`.
/// `data` must be an object (one entry per group or organisation); each
/// entry's nested project list, where present, must have a shape the
/// codec accepts, else the error names that entry's id.
pub fn extract_projects(set: &mut MembershipSet, data: &JsonValue, key: &str) -> (r: Result<
    (),
    SyncError,
>)
    requires
        old(set).inv(),
    ensures
        final(set).inv(),
        match r {
            Ok(_) => {
                &&& data@ is Obj
                &&& forall|k: int|
                    0 <= k < data@->Obj_0.len() ==> entry_project_ok(#[trigger] data@->Obj_0[k])
                &&& final(set)@ == spec_merge(old(set)@, entries_pids(data@->Obj_0))
            },
            Err(e) => e matches SyncError::Shape(bk) && (exists|p: Seq<Seq<char>>|
                final(set)@ == spec_merge(old(set)@, p)) && {
                if !(data@ is Obj) {
                    bk@ == key@
                } else {
                    exists|k: int|
                        0 <= k < data@->Obj_0.len() && !entry_project_ok(
                            #[trigger] data@->Obj_0[k],
                        ) && bk@ == data@->Obj_0[k].0 && (forall|j: int|
                            0 <= j < k ==> entry_project_ok(#[trigger] data@->Obj_0[j]))
                }
            },
        },
{
    match data {
        JsonValue::Obj(entries) => {
            proof {
                lemma_obj_view(entries@);
            }
            let ghost oe = crate::value::obj_view(entries@);
            let ghost s0 = set@;
            let mut i: usize = 0;
            while i < entries.len()
                invariant
                    set.inv(),
                    s0 == old(set)@,
                    data@ == SpecJson::Obj(oe),
                    0 <= i <= entries@.len(),
                    oe == crate::value::obj_view(entries@),
                    oe.len() == entries@.len(),
                    forall|j: int|
                        0 <= j < entries@.len() ==> oe[j] == (
                            (#[trigger] entries@[j]).0@,
                            json_view(entries@[j].1),
                        ),
                    forall|j: int| 0 <= j < i ==> entry_project_ok(#[trigger] oe[j]),
                    set@ == spec_merge(s0, entries_pids(oe.take(i as int))),
                decreases entries@.len() - i,
            {
                let pair = &entries[i];
                let ghost before = set@;
                if let Some(p) = get_project(&pair.1) {
                    match add_ids(set, p, pair.0.as_str()) {
                        Ok(_) => {
                            proof {
                                crate::delta::lemma_merge_concat(
                                    s0,
                                    entries_pids(oe.take(i as int)),
                                    raw_ids(p@),
                                );
                                assert(oe.take(i + 1).drop_last() =~= oe.take(i as int));
                                assert(oe.take(i + 1).last() == oe[i as int]);
                                assert(entry_pids(oe[i as int]) == raw_ids(p@));
                            }
                        },
                        Err(e) => {
                            proof {
                                assert(oe[i as int].1 == json_view(entries@[i as int].1));
                                assert(!entry_project_ok(oe[i as int]));
                                assert(data@->Obj_0 == oe);
                                assert(0 <= i < data@->Obj_0.len() && !entry_project_ok(
                                    data@->Obj_0[i as int],
                                ) && pair.0@ == data@->Obj_0[i as int].0 && (forall|j: int|
                                    0 <= j < i ==> entry_project_ok(#[trigger] data@->Obj_0[j])));
                                let kk = choose|kk: int|
                                    0 <= kk <= raw_ids(p@).len() && set@ == spec_merge(
                                        before,
                                        #[trigger] raw_ids(p@).take(kk),
                                    );
                                crate::delta::lemma_merge_concat(
                                    s0,
                                    entries_pids(oe.take(i as int)),
                                    raw_ids(p@).take(kk),
                                );
                                assert(set@ == spec_merge(
                                    s0,
                                    entries_pids(oe.take(i as int)) + raw_ids(p@).take(kk),
                                ));
                            }
                            return Err(e);
                        },
                    }
                } else {
                    proof {
                        assert(entry_pids(oe[i as int]) =~= Seq::<Seq<char>>::empty());
                        assert(oe.take(i + 1).drop_last() =~= oe.take(i as int));
                        assert(oe.take(i + 1).last() == oe[i as int]);
                        assert(entries_pids(oe.take(i + 1)) =~= entries_pids(oe.take(i as int))
                            + entry_pids(oe[i as int]));
                        assert(entries_pids(oe.take(i + 1)) =~= entries_pids(oe.take(i as int)));
                    }
                }
                i += 1;
            }
            proof {
                assert(oe.take(entries@.len() as int) =~= oe);
            }
            Ok(())
        },
        _ => {
            proof {
                match *data {
                    JsonValue::Null => {},
                    JsonValue::Bool(_) => {},
                    JsonValue::Num(_) => {},
                    JsonValue::Str(_) => {},
                    JsonValue::Arr(_) => {},
                    JsonValue::Obj(_) => {
                        assert(false);
                    },
                }
                assert(set@ == spec_merge(old(set)@, Seq::<Seq<char>>::empty()));
            }
            Err(SyncError::Shape(key.to_owned()))
        },
    }
}

/// Normalizes one metadata document into a membership set, tolerating
/// both the object- and the array-shaped encoding; null is the empty
/// membership.  Any other shape is an error naming `key`.
pub fn normalize(v: &JsonValue, key: &str) -> (r: Result<MembershipSet, SyncError>)
    ensures
        match r {
            Ok(ms) => normalizable(v@) && ms.inv() && ms@ == spec_normalize(v@),
            Err(e) => !normalizable(v@) && (e matches SyncError::Shape(k) && k@ == key@),
        },
{
    let mut set = MembershipSet::new();
    match add_ids(&mut set, v, key) {
        Ok(_) => Ok(set),
        Err(e) => Err(e),
    }
}

} // verus!
