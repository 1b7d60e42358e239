//! The listing controllers: what an identity belongs to, read from its
//! active metadata document.

use vstd::prelude::*;

use crate::codec::{
    add_ids, entries_pids, entry_project_ok, extract_named, extract_projects, name_ok,
    normalizable, raw_ids, spec_named_map,
};
use crate::delta::{lemma_merge_concat, spec_merge};
use crate::error::SyncError;
use crate::identity::{select_document, Identity};
use crate::membership::{MembershipMap, MembershipSet};
use crate::namespace::Namespace;
use crate::value::SpecJson;

verus! {

/// The project ids a document lists directly under `"project"`.
pub open spec fn doc_project_ids(d: SpecJson) -> Seq<Seq<char>> {
    match d.get("project"@) {
        Some(p) => raw_ids(p),
        None => Seq::empty(),
    }
}

/// Whether the direct `"project"` field, if any, has an accepted shape.
pub open spec fn doc_project_ok(d: SpecJson) -> bool {
    match d.get("project"@) {
        Some(p) => normalizable(p),
        None => true,
    }
}

/// The project ids nested in the entries under `key` (a group or
/// organisation map).
pub open spec fn doc_nested_ids(d: SpecJson, key: Seq<char>) -> Seq<Seq<char>> {
    match d.get(key) {
        Some(g) => if g is Obj {
            entries_pids(g->Obj_0)
        } else {
            Seq::empty()
        },
        None => Seq::empty(),
    }
}

/// Whether the map under `key`, if any, is an object whose entries all
/// nest acceptable project lists.
pub open spec fn doc_nested_ok(d: SpecJson, key: Seq<char>) -> bool {
    match d.get(key) {
        Some(g) => g is Obj && (forall|k: int|
            0 <= k < g->Obj_0.len() ==> entry_project_ok(#[trigger] g->Obj_0[k])),
        None => true,
    }
}

/// Every project id a document lists: its own, then those nested in
/// its groups, then those nested in its organisations.
pub open spec fn doc_all_pids(d: SpecJson) -> Seq<Seq<char>> {
    doc_project_ids(d) + doc_nested_ids(d, "group"@) + doc_nested_ids(d, "organisation"@)
}

/// Whether every listed encoding has an accepted shape.
pub open spec fn doc_pids_ok(d: SpecJson) -> bool {
    doc_project_ok(d) && doc_nested_ok(d, "group"@) && doc_nested_ok(d, "organisation"@)
}

/// Lists every project the identity belongs to in the selected
/// namespace: the direct memberships and those reached through its
/// groups and organisations, deduplicated, first occurrence first.
pub fn list_project_controller(identity: &Identity, ns: Namespace) -> (r: Result<
    MembershipSet,
    SyncError,
>)
    ensures
        match r {
            Ok(ms) => {
                &&& identity@.document(ns) matches Some(d) && doc_pids_ok(d) && ms@ == spec_merge(
                    Seq::empty(),
                    doc_all_pids(d),
                )
                &&& ms.inv()
            },
            Err(e) => match identity@.document(ns) {
                None => e is NoMetadata,
                Some(d) => e is Shape && !doc_pids_ok(d),
            },
        },
{
    let doc = match select_document(identity, ns) {
        Ok(d) => d,
        Err(e) => {
            return Err(e);
        },
    };
    let ghost d = doc@;
    let mut set = MembershipSet::new();
    if let Some(p) = doc.get("project") {
        match add_ids(&mut set, p, "project") {
            Ok(_) => {},
            Err(e) => {
                return Err(e);
            },
        }
    }
    proof {
        assert(set@ == spec_merge(Seq::empty(), doc_project_ids(d)));
    }
    let ghost after_project = set@;
    if let Some(g) = doc.get("group") {
        match extract_projects(&mut set, g, "group") {
            Ok(_) => {
                proof {
                    lemma_merge_concat(Seq::empty(), doc_project_ids(d), entries_pids(g@->Obj_0));
                }
            },
            Err(e) => {
                return Err(e);
            },
        }
    }
    proof {
        if d.get("group"@) is None {
            assert(doc_project_ids(d) + doc_nested_ids(d, "group"@) =~= doc_project_ids(d));
        }
        assert(set@ == spec_merge(Seq::empty(), doc_project_ids(d) + doc_nested_ids(d, "group"@)));
    }
    if let Some(o) = doc.get("organisation") {
        match extract_projects(&mut set, o, "organisation") {
            Ok(_) => {
                proof {
                    lemma_merge_concat(
                        Seq::empty(),
                        doc_project_ids(d) + doc_nested_ids(d, "group"@),
                        entries_pids(o@->Obj_0),
                    );
                }
            },
            Err(e) => {
                return Err(e);
            },
        }
    }
    proof {
        if d.get("organisation"@) is None {
            assert(doc_project_ids(d) + doc_nested_ids(d, "group"@) + doc_nested_ids(
                d,
                "organisation"@,
            ) =~= doc_project_ids(d) + doc_nested_ids(d, "group"@));
        }
        assert(set@ == spec_merge(Seq::empty(), doc_all_pids(d)));
    }
    Ok(set)
}

/// Lists the groups or organisations (`data_type`) of the identity in
/// the selected namespace, as an id-to-display-name map.  A missing
/// key is the empty map, not an error.
pub fn list_controller(identity: &Identity, data_type: &str, ns: Namespace) -> (r: Result<
    MembershipMap,
    SyncError,
>)
    ensures
        match r {
            Ok(m) => {
                &&& identity@.document(ns) matches Some(d) && match d.get(data_type@) {
                    None => m@ == Seq::<(Seq<char>, Seq<char>)>::empty(),
                    Some(g) => g is Obj && (forall|k: int|
                        0 <= k < g->Obj_0.len() ==> name_ok(#[trigger] g->Obj_0[k])) && m@
                        == spec_named_map(g->Obj_0),
                }
                &&& m.inv()
            },
            Err(e) => match identity@.document(ns) {
                None => e is NoMetadata,
                Some(d) => e is Shape && match d.get(data_type@) {
                    None => false,
                    Some(g) => !(g is Obj) || exists|k: int|
                        0 <= k < g->Obj_0.len() && !name_ok(#[trigger] g->Obj_0[k]),
                },
            },
        },
{
    let doc = match select_document(identity, ns) {
        Ok(d) => d,
        Err(e) => {
            return Err(e);
        },
    };
    extract_named(doc, data_type)
}

} // verus!
