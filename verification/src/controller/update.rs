//! The update controller's decisions.
//!
//! A mutation batch is processed item by item: resolve the item's
//! identity (reusing the previous one when it matches — see the
//! resolver), build one propagation request per item, dispatch them
//! all, and reduce the outcomes through the fan-out executor.  The
//! remote calls run outside the library; every decision between them
//! is here.

use vstd::prelude::*;

use crate::fanout::{PropagationRequest, SpecRequest};
use crate::identity::IDType;
use crate::namespace::Namespace;
use crate::value::{JsonValue, SpecJson};

verus! {

/// One mutation item of a batch: whom it targets, what kind of
/// resource it grants, which resource, and the granted value.
#[derive(Debug)]
pub struct Data {
    pub id: IDType,
    pub ressource_type: String,
    pub ressource_id: String,
    pub value: JsonValue,
}

/// The propagation a mutation item owes once its identity is
/// resolved: the identity is the target, the item names the resource,
/// and the mode tag matches the selected namespace.
pub fn build_propagation(identity_id: &String, data: &Data, ns: Namespace) -> (r:
    PropagationRequest)
    ensures
        r@ == (SpecRequest {
            target_id: identity_id@,
            permission_type: data.ressource_type@,
            resource_id: data.ressource_id@,
            value: data.value@,
            mode: ns.spec_mode(),
        }),
{
    PropagationRequest {
        target_id: identity_id.clone(),
        permission_type: data.ressource_type.clone(),
        resource_id: data.ressource_id.clone(),
        value: data.value.duplicate(),
        mode: ns.mode(),
    }
}

/// The user mutations of a batch: for each item granting on a user,
/// the user's id and the granted value, in batch order.
pub open spec fn spec_collect_users(s: Seq<Data>) -> Seq<(Seq<char>, SpecJson)>
    decreases s.len(),
{
    if s.len() == 0 {
        Seq::empty()
    } else {
        let prev = spec_collect_users(s.drop_last());
        if s.last().ressource_type@ == "user"@ {
            prev.push((s.last().ressource_id@, s.last().value@))
        } else {
            prev
        }
    }
}

/// The project mutations of a batch: the resource ids of the items
/// granting on a project, in batch order.
pub open spec fn spec_collect_projects(s: Seq<Data>) -> Seq<Seq<char>>
    decreases s.len(),
{
    if s.len() == 0 {
        Seq::empty()
    } else {
        let prev = spec_collect_projects(s.drop_last());
        if s.last().ressource_type@ == "project"@ {
            prev.push(s.last().ressource_id@)
        } else {
            prev
        }
    }
}

/// The user mutations of a batch, for the cascading group sync.
pub fn collect_users(payload: &Vec<Data>) -> (r: Vec<(String, JsonValue)>)
    ensures
        crate::value::obj_view(r@) == spec_collect_users(payload@),
{
    let mut out: Vec<(String, JsonValue)> = Vec::new();
    let mut i: usize = 0;
    while i < payload.len()
        invariant
            0 <= i <= payload@.len(),
            crate::value::obj_view(out@) == spec_collect_users(payload@.take(i as int)),
        decreases payload@.len() - i,
    {
        let item = &payload[i];
        let ghost before = out@;
        if crate::value::str_eq(&item.ressource_type, "user") {
            let e = (item.ressource_id.clone(), item.value.duplicate());
            out.push(e);
            proof {
                crate::value::lemma_obj_view(before);
                crate::value::lemma_obj_view(out@);
                assert(out@.drop_last() =~= before);
                assert(crate::value::obj_view(out@) =~= crate::value::obj_view(before).push(
                    (item.ressource_id@, item.value@),
                ));
            }
        }
        proof {
            assert(payload@.take(i + 1).drop_last() =~= payload@.take(i as int));
            assert(payload@.take(i + 1).last() == payload@[i as int]);
        }
        i += 1;
    }
    proof {
        assert(payload@.take(payload@.len() as int) =~= payload@);
    }
    out
}

/// The project mutations of a batch, for the cascading project sync.
pub fn collect_projects(payload: &Vec<Data>) -> (r: Vec<String>)
    ensures
        crate::delta::strs_view(r@) == spec_collect_projects(payload@),
{
    let mut out: Vec<String> = Vec::new();
    let mut i: usize = 0;
    while i < payload.len()
        invariant
            0 <= i <= payload@.len(),
            crate::delta::strs_view(out@) == spec_collect_projects(payload@.take(i as int)),
        decreases payload@.len() - i,
    {
        let item = &payload[i];
        let ghost before = out@;
        if crate::value::str_eq(&item.ressource_type, "project") {
            out.push(item.ressource_id.clone());
            proof {
                assert(crate::delta::strs_view(out@) =~= crate::delta::strs_view(before).push(
                    item.ressource_id@,
                ));
            }
        }
        proof {
            assert(payload@.take(i + 1).drop_last() =~= payload@.take(i as int));
            assert(payload@.take(i + 1).last() == payload@[i as int]);
        }
        i += 1;
    }
    proof {
        assert(payload@.take(payload@.len() as int) =~= payload@);
    }
    out
}

} // verus!
