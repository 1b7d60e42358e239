//! The cascading synchronizations.
//!
//! Updating a group or an organisation changes what its members are
//! entitled to, so the change is propagated to every affected
//! identity.  This module computes the full list of propagation
//! requests a cascade owes — reading the existing membership through
//! the codec, merging the delta, and pairing each affected user with
//! its payload.  Sending the requests, and reporting the outcome, is
//! transport work outside the library.

use vstd::prelude::*;
use vstd::string::StringExecFns;

use crate::codec::{normalizable, normalize, spec_normalize};
use crate::delta::{merge_project, resolve_default_group, spec_default_group, spec_merge, strs_view};
use crate::error::SyncError;
use crate::fanout::{reqs_view, PropagationRequest, SpecRequest};
use crate::identity::{select_document, Identity};
use crate::membership::{spec_map_insert, MembershipMap, MembershipSet};
use crate::namespace::{Mode, Namespace};
use crate::value::{json_view, lemma_arr_view, lemma_obj_view, obj_view, JsonValue, SpecJson};

verus! {

/// Which cascade runs: propagating role values to users, or new
/// project ids to a group's membership lists.
#[derive(Debug)]
pub enum SyncMode {
    User(Vec<(String, JsonValue)>),
    Project(Vec<String>),
}

/// The membership ids already present under a document's `"project"`
/// key; absence is the empty membership.
pub open spec fn spec_old_projects(d: SpecJson) -> Seq<Seq<char>> {
    match d.get("project"@) {
        Some(p) => spec_normalize(p),
        None => Seq::empty(),
    }
}

/// Whether the `"project"` key, if present, has an accepted shape.
pub open spec fn old_projects_ok(d: SpecJson) -> bool {
    match d.get("project"@) {
        Some(p) => normalizable(p),
        None => true,
    }
}

/// The project ids already present in a metadata document, through
/// the codec: object keys or array elements, deduplicated; a missing
/// or null `"project"` key is the empty membership.
pub fn extract_old_project(doc: &JsonValue) -> (r: Result<
    crate::membership::MembershipSet,
    SyncError,
>)
    ensures
        match r {
            Ok(ms) => old_projects_ok(doc@) && ms.inv() && ms@ == spec_old_projects(doc@),
            Err(e) => !old_projects_ok(doc@) && (e matches SyncError::Shape(k) && k@
                == "project"@),
        },
{
    match doc.get("project") {
        Some(p) => normalize(p, "project"),
        None => {
            let ms = crate::membership::MembershipSet::new();
            Ok(ms)
        },
    }
}

/// A sync target's value: its array of roles as encoded, any other
/// shape read as the empty array.
pub open spec fn sync_val(v: SpecJson) -> SpecJson {
    if v is Arr {
        v
    } else {
        SpecJson::Arr(Seq::empty())
    }
}

/// The identities needing synchronization under `key`, paired with
/// their role arrays: the entries of the object under `key`, in
/// order; a missing key or another shape means none.
pub open spec fn spec_sync_entries(d: SpecJson, key: Seq<char>) -> Seq<(Seq<char>, SpecJson)> {
    match d.get(key) {
        Some(m) => if m is Obj {
            m->Obj_0.map_values(|e: (Seq<char>, SpecJson)| (e.0, sync_val(e.1)))
        } else {
            Seq::empty()
        },
        None => Seq::empty(),
    }
}

/// Extracts the ids needing synchronization under `sync_type`, each
/// with its role array.
pub fn extract_sync_id(doc: &JsonValue, sync_type: &str) -> (r: Vec<(String, JsonValue)>)
    ensures
        obj_view(r@) == spec_sync_entries(doc@, sync_type@),
{
    let mut out: Vec<(String, JsonValue)> = Vec::new();
    let data = match doc.get(sync_type) {
        Some(d) => d,
        None => {
            proof {
                lemma_obj_view(out@);
                assert(obj_view(out@) =~= spec_sync_entries(doc@, sync_type@));
            }
            return out;
        },
    };
    match data {
        JsonValue::Obj(entries) => {
            proof {
                lemma_obj_view(entries@);
            }
            let ghost oe = obj_view(entries@);
            let ghost target = spec_sync_entries(doc@, sync_type@);
            proof {
                assert(data@ is Obj);
                assert(data@->Obj_0 == oe);
                assert(target == oe.map_values(|e: (Seq<char>, SpecJson)| (e.0, sync_val(e.1))));
            }
            let mut i: usize = 0;
            while i < entries.len()
                invariant
                    0 <= i <= entries@.len(),
                    oe == obj_view(entries@),
                    oe.len() == entries@.len(),
                    forall|j: int|
                        0 <= j < entries@.len() ==> oe[j] == (
                            (#[trigger] entries@[j]).0@,
                            json_view(entries@[j].1),
                        ),
                    target == oe.map_values(|e: (Seq<char>, SpecJson)| (e.0, sync_val(e.1))),
                    obj_view(out@) == target.take(i as int),
                decreases entries@.len() - i,
            {
                let pair = &entries[i];
                let val = match &pair.1 {
                    JsonValue::Arr(_) => pair.1.duplicate(),
                    _ => {
                        proof {
                            match pair.1 {
                                JsonValue::Null => {},
                                JsonValue::Bool(_) => {},
                                JsonValue::Num(_) => {},
                                JsonValue::Str(_) => {},
                                JsonValue::Arr(_) => {
                                    assert(false);
                                },
                                JsonValue::Obj(_) => {},
                            }
                        }
                        JsonValue::Arr(Vec::new())
                    },
                };
                proof {
                    assert(crate::value::arr_view(Seq::<JsonValue>::empty())
                        =~= Seq::<SpecJson>::empty());
                    assert(val@ == sync_val(oe[i as int].1));
                }
                let ghost before = out@;
                let e = (pair.0.clone(), val);
                out.push(e);
                proof {
                    lemma_obj_view(before);
                    lemma_obj_view(out@);
                    assert(out@.drop_last() =~= before);
                    assert(obj_view(out@) =~= obj_view(before).push(
                        (oe[i as int].0, sync_val(oe[i as int].1)),
                    ));
                    assert(obj_view(out@) =~= target.take(i + 1));
                }
                i += 1;
            }
            proof {
                assert(target.take(target.len() as int) =~= target);
            }
            out
        },
        _ => {
            proof {
                match *data {
                    JsonValue::Null => {},
                    JsonValue::Bool(_) => {},
                    JsonValue::Num(_) => {},
                    JsonValue::Str(_) => {},
                    JsonValue::Arr(_) => {},
                    JsonValue::Obj(_) => {
                        assert(false);
                    },
                }
                lemma_obj_view(out@);
                assert(obj_view(out@) =~= spec_sync_entries(doc@, sync_type@));
            }
            out
        },
    }
}

/// The document each affected user receives: the group's display
/// name, its full project list, and the user's role.
pub open spec fn spec_group_payload(name: SpecJson, projects: Seq<Seq<char>>, role: SpecJson)
    -> SpecJson {
    SpecJson::Obj(
        seq![
            ("name"@, name),
            ("project"@, SpecJson::Arr(projects.map_values(|p: Seq<char>| SpecJson::Str(p)))),
            ("role"@, role),
        ],
    )
}

/// Builds the payload document for one affected user.
pub fn group_payload(name: &JsonValue, projects: &MembershipSet, role: JsonValue) -> (r: JsonValue)
    ensures
        r@ == spec_group_payload(name@, projects@, role@),
{
    let ghost role_v = role@;
    let ghost pstrs = projects@.map_values(|p: Seq<char>| SpecJson::Str(p));
    let mut items: Vec<JsonValue> = Vec::new();
    let mut i: usize = 0;
    while i < projects.ids.len()
        invariant
            0 <= i <= projects.ids@.len(),
            pstrs == projects@.map_values(|p: Seq<char>| SpecJson::Str(p)),
            pstrs.len() == projects.ids@.len(),
            crate::value::arr_view(items@) == pstrs.take(i as int),
        decreases projects.ids@.len() - i,
    {
        let ghost before = items@;
        items.push(JsonValue::Str(projects.ids[i].clone()));
        proof {
            lemma_arr_view(before);
            lemma_arr_view(items@);
            assert(items@.drop_last() =~= before);
            assert(crate::value::arr_view(items@) =~= crate::value::arr_view(before).push(
                SpecJson::Str(projects@[i as int]),
            ));
            assert(pstrs[i as int] == SpecJson::Str(projects@[i as int]));
            assert(crate::value::arr_view(items@) =~= pstrs.take(i + 1));
        }
        i += 1;
    }
    proof {
        assert(pstrs.take(pstrs.len() as int) =~= pstrs);
    }
    let mut entries: Vec<(String, JsonValue)> = Vec::new();
    entries.push(("name".to_owned(), name.duplicate()));
    entries.push(("project".to_owned(), JsonValue::Arr(items)));
    entries.push(("role".to_owned(), role));
    proof {
        lemma_obj_view(entries@);
        assert(entries@.len() == 3);
        assert(entries@[0].0@ == "name"@);
        assert(json_view(entries@[0].1) == name@);
        assert(entries@[1].0@ == "project"@);
        assert(json_view(entries@[1].1) == SpecJson::Arr(pstrs));
        assert(entries@[2].0@ == "role"@);
        assert(json_view(entries@[2].1) == role_v);
        assert(obj_view(entries@) =~= seq![
            ("name"@, name@),
            ("project"@, SpecJson::Arr(pstrs)),
            ("role"@, role_v),
        ]);
    }
    JsonValue::Obj(entries)
}

/// Whether every entry of a flat group map carries its display name
/// as a plain string.
pub open spec fn flat_named_ok(entries: Seq<(Seq<char>, SpecJson)>) -> bool {
    forall|k: int| 0 <= k < entries.len() ==> (#[trigger] entries[k]).1 is Str
}

/// The id-to-name map a flat group object builds, later entries
/// replacing earlier bindings of the same id.
pub open spec fn spec_flat_map(entries: Seq<(Seq<char>, SpecJson)>) -> Seq<(Seq<char>, Seq<char>)>
    decreases entries.len(),
{
    if entries.len() == 0 {
        Seq::empty()
    } else {
        let nm = match entries.last().1 {
            SpecJson::Str(s) => s,
            _ => Seq::empty(),
        };
        spec_map_insert(spec_flat_map(entries.drop_last()), entries.last().0, nm)
    }
}

/// Reads a flat group map — each entry's value is the group's display
/// name, as a plain string.  A non-object is an error naming `key`; a
/// non-string name is an error naming that entry's id.
fn extract_flat_named(data: &JsonValue, key: &str) -> (r: Result<MembershipMap, SyncError>)
    ensures
        match r {
            Ok(m) => {
                &&& data@ is Obj && flat_named_ok(data@->Obj_0) && m@ == spec_flat_map(
                    data@->Obj_0,
                )
                &&& m.inv()
            },
            Err(e) => e matches SyncError::Shape(bk) && {
                if !(data@ is Obj) {
                    bk@ == key@
                } else {
                    exists|k: int|
                        0 <= k < data@->Obj_0.len() && !((#[trigger] data@->Obj_0[k]).1 is Str)
                            && bk@ == data@->Obj_0[k].0
                }
            },
        },
{
    match data {
        JsonValue::Obj(entries) => {
            proof {
                lemma_obj_view(entries@);
            }
            let ghost oe = obj_view(entries@);
            let mut m = MembershipMap::new();
            let mut i: usize = 0;
            while i < entries.len()
                invariant
                    m.inv(),
                    data@ == SpecJson::Obj(oe),
                    0 <= i <= entries@.len(),
                    oe == obj_view(entries@),
                    oe.len() == entries@.len(),
                    forall|j: int|
                        0 <= j < entries@.len() ==> oe[j] == (
                            (#[trigger] entries@[j]).0@,
                            json_view(entries@[j].1),
                        ),
                    forall|j: int| 0 <= j < i ==> (#[trigger] oe[j]).1 is Str,
                    m@ == spec_flat_map(oe.take(i as int)),
                decreases entries@.len() - i,
            {
                let pair = &entries[i];
                let name = match &pair.1 {
                    JsonValue::Str(s) => s.clone(),
                    _ => {
                        proof {
                            match pair.1 {
                                JsonValue::Null => {},
                                JsonValue::Bool(_) => {},
                                JsonValue::Num(_) => {},
                                JsonValue::Str(_) => {
                                    assert(false);
                                },
                                JsonValue::Arr(_) => {},
                                JsonValue::Obj(_) => {},
                            }
                            assert(!(oe[i as int].1 is Str));
                            assert(data@->Obj_0 == oe);
                            assert(0 <= i < data@->Obj_0.len() && !(data@->Obj_0[i as int].1
                                is Str) && pair.0@ == data@->Obj_0[i as int].0);
                        }
                        return Err(SyncError::Shape(pair.0.clone()));
                    },
                };
                m.insert(pair.0.clone(), name);
                proof {
                    assert(oe.take(i + 1).drop_last() =~= oe.take(i as int));
                    assert(oe.take(i + 1).last() == oe[i as int]);
                }
                i += 1;
            }
            proof {
                assert(oe.take(entries@.len() as int) =~= oe);
            }
            Ok(m)
        },
        _ => {
            proof {
                match *data {
                    JsonValue::Null => {},
                    JsonValue::Bool(_) => {},
                    JsonValue::Num(_) => {},
                    JsonValue::Str(_) => {},
                    JsonValue::Arr(_) => {},
                    JsonValue::Obj(_) => {
                        assert(false);
                    },
                }
            }
            Err(SyncError::Shape(key.to_owned()))
        },
    }
}

/// The requests a group cascade owes: one per target user, carrying
/// the group payload under the group's own id.
pub open spec fn spec_group_requests(
    targets: Seq<(Seq<char>, SpecJson)>,
    gid: Seq<char>,
    name: SpecJson,
    projects: Seq<Seq<char>>,
    mode: Mode,
) -> Seq<SpecRequest> {
    targets.map_values(
        |t: (Seq<char>, SpecJson)|
            SpecRequest {
                target_id: t.0,
                permission_type: "group"@,
                resource_id: gid,
                value: spec_group_payload(name, projects, t.1),
                mode,
            },
    )
}

/// Builds the group-cascade requests, one per target.
fn group_requests(
    targets: &Vec<(String, JsonValue)>,
    gid: &String,
    name: &JsonValue,
    projects: &MembershipSet,
    mode: Mode,
) -> (r: Vec<PropagationRequest>)
    ensures
        reqs_view(r@) == spec_group_requests(obj_view(targets@), gid@, name@, projects@, mode),
{
    proof {
        lemma_obj_view(targets@);
    }
    let ghost spec_targets = obj_view(targets@);
    let ghost goal = spec_group_requests(spec_targets, gid@, name@, projects@, mode);
    let mut out: Vec<PropagationRequest> = Vec::new();
    let mut i: usize = 0;
    while i < targets.len()
        invariant
            0 <= i <= targets@.len(),
            spec_targets == obj_view(targets@),
            spec_targets.len() == targets@.len(),
            forall|j: int|
                0 <= j < targets@.len() ==> spec_targets[j] == (
                    (#[trigger] targets@[j]).0@,
                    json_view(targets@[j].1),
                ),
            goal == spec_group_requests(spec_targets, gid@, name@, projects@, mode),
            goal.len() == spec_targets.len(),
            reqs_view(out@) == goal.take(i as int),
        decreases targets@.len() - i,
    {
        let pair = &targets[i];
        let req = PropagationRequest {
            target_id: pair.0.clone(),
            permission_type: "group".to_owned(),
            resource_id: gid.clone(),
            value: group_payload(name, projects, pair.1.duplicate()),
            mode,
        };
        let ghost before = out@;
        out.push(req);
        proof {
            assert(reqs_view(out@) =~= reqs_view(before).push(out@.last()@));
            assert(out@.last()@ == goal[i as int]);
            assert(reqs_view(out@) =~= goal.take(i + 1));
        }
        i += 1;
    }
    proof {
        assert(goal.take(goal.len() as int) =~= goal);
    }
    out
}

/// Plans a cascading synchronization of one group or organisation
/// identity: reads its existing project memberships through the codec,
/// merges any new project ids in, and pairs every affected user with a
/// payload of the identity's name, its project list and the user's
/// role — one propagation request per user, tagged with the selected
/// namespace's mode.  Nothing is sent here and nothing is rolled back
/// later: the transport dispatches all of these and reports the first
/// failure.
pub fn sync_requests(identity: &Identity, ns: Namespace, mode: SyncMode) -> (r: Result<
    Vec<PropagationRequest>,
    SyncError,
>)
    ensures
        match r {
            Ok(reqs) => {
                &&& identity@.document(ns) matches Some(d) && old_projects_ok(d) && match mode {
                    SyncMode::Project(pids) => reqs_view(reqs@) == spec_group_requests(
                        spec_sync_entries(d, "user"@),
                        identity@.id,
                        identity@.traits->Some_0.get("name"@)->Some_0,
                        spec_merge(spec_old_projects(d), strs_view(pids@)),
                        ns.spec_mode(),
                    ),
                    SyncMode::User(data) => reqs_view(reqs@) == spec_group_requests(
                        obj_view(data@),
                        identity@.id,
                        identity@.traits->Some_0.get("name"@)->Some_0,
                        spec_old_projects(d),
                        ns.spec_mode(),
                    ),
                }
                &&& identity@.traits matches Some(t) && t.get("name"@) is Some
            },
            Err(e) => {
                ||| (identity@.document(ns) is None && e is NoMetadata)
                ||| (identity@.document(ns) matches Some(d) && !old_projects_ok(d) && (e matches
                    SyncError::Shape(k) && k@ == "project"@))
                ||| (identity@.document(ns) matches Some(d) && old_projects_ok(d)
                    && identity@.traits is None && e is NoMetadata)
                ||| (identity@.document(ns) matches Some(d) && old_projects_ok(d) && (
                identity@.traits matches Some(t) && (t.get("name"@) is None && (e matches
                SyncError::Shape(k) && k@ == "name"@))))
            },
        },
{
    let doc = match select_document(identity, ns) {
        Ok(d) => d,
        Err(e) => {
            return Err(e);
        },
    };
    let projects = match extract_old_project(doc) {
        Ok(p) => p,
        Err(e) => {
            return Err(e);
        },
    };
    let name: JsonValue = match &identity.traits {
        Some(t) => match t.get("name") {
            Some(n) => n.duplicate(),
            None => {
                return Err(SyncError::Shape("name".to_owned()));
            },
        },
        None => {
            return Err(SyncError::NoMetadata);
        },
    };
    match mode {
        SyncMode::Project(pids) => {
            let merged = merge_project(projects, &pids);
            let users = extract_sync_id(doc, "user");
            Ok(group_requests(&users, &identity.id, &name, &merged, ns.mode()))
        },
        SyncMode::User(data) => {
            Ok(group_requests(&data, &identity.id, &name, &projects, ns.mode()))
        },
    }
}

/// The requests an organisation cascade owes: each affected user's
/// role value, granted on the resolved default group, under the
/// metadata mode tag.
pub open spec fn spec_user_requests(targets: Seq<(Seq<char>, SpecJson)>, gid: Seq<char>) -> Seq<
    SpecRequest,
> {
    targets.map_values(
        |t: (Seq<char>, SpecJson)|
            SpecRequest {
                target_id: t.0,
                permission_type: "user"@,
                resource_id: gid,
                value: t.1,
                mode: Mode::Meta,
            },
    )
}

/// Plans the group memberships an organisation update cascades to its
/// users: the organisation's flat group map is read, the group whose
/// display name is `"default"` is resolved (an organisation without
/// one degrades to the empty group id rather than failing), and every
/// listed user is granted its role value on that group, tagged `Meta`.
pub fn sync_groups_requests(
    identity: &Identity,
    ns: Namespace,
    users: &Vec<(String, JsonValue)>,
) -> (r: Result<Vec<PropagationRequest>, SyncError>)
    ensures
        match r {
            Ok(reqs) => {
                &&& identity@.document(ns) matches Some(d) && d.get("group"@) matches Some(g) && g
                    is Obj && flat_named_ok(g->Obj_0) && reqs_view(reqs@) == spec_user_requests(
                    obj_view(users@),
                    spec_default_group(spec_flat_map(g->Obj_0)),
                )
            },
            Err(e) => {
                ||| (identity@.document(ns) is None && e is NoMetadata)
                ||| (identity@.document(ns) matches Some(d) && d.get("group"@) is None && (e
                    matches SyncError::Shape(k) && k@ == "group"@))
                ||| (identity@.document(ns) matches Some(d) && d.get("group"@) matches Some(g)
                    && !(g is Obj) && (e matches SyncError::Shape(k) && k@ == "group"@))
                ||| (identity@.document(ns) matches Some(d) && d.get("group"@) matches Some(g) && g
                    is Obj && !flat_named_ok(g->Obj_0) && e is Shape)
            },
        },
{
    let doc = match select_document(identity, ns) {
        Ok(d) => d,
        Err(e) => {
            return Err(e);
        },
    };
    let groups_val = match doc.get("group") {
        Some(g) => g,
        None => {
            return Err(SyncError::Shape("group".to_owned()));
        },
    };
    let flat = match extract_flat_named(groups_val, "group") {
        Ok(m) => m,
        Err(e) => {
            return Err(e);
        },
    };
    let gid = resolve_default_group(&flat);
    proof {
        lemma_obj_view(users@);
    }
    let ghost spec_targets = obj_view(users@);
    let ghost goal = spec_user_requests(spec_targets, gid@);
    let mut out: Vec<PropagationRequest> = Vec::new();
    let mut i: usize = 0;
    while i < users.len()
        invariant
            0 <= i <= users@.len(),
            spec_targets == obj_view(users@),
            spec_targets.len() == users@.len(),
            forall|j: int|
                0 <= j < users@.len() ==> spec_targets[j] == (
                    (#[trigger] users@[j]).0@,
                    json_view(users@[j].1),
                ),
            goal == spec_user_requests(spec_targets, gid@),
            goal.len() == spec_targets.len(),
            reqs_view(out@) == goal.take(i as int),
        decreases users@.len() - i,
    {
        let pair = &users[i];
        let req = PropagationRequest {
            target_id: pair.0.clone(),
            permission_type: "user".to_owned(),
            resource_id: gid.clone(),
            value: pair.1.duplicate(),
            mode: Mode::Meta,
        };
        let ghost before = out@;
        out.push(req);
        proof {
            assert(reqs_view(out@) =~= reqs_view(before).push(out@.last()@));
            assert(out@.last()@ == goal[i as int]);
            assert(reqs_view(out@) =~= goal.take(i + 1));
        }
        i += 1;
    }
    proof {
        assert(goal.take(goal.len() as int) =~= goal);
    }
    Ok(out)
}

} // verus!
