//! The fan-out executor.
//!
//! A batch of permission mutations is dispatched one call per request;
//! every call runs to completion whatever its siblings do, and the
//! batch result reports the first observed failure — collect-all,
//! report-one, never cancel-on-first-failure.  The transport loop that
//! carries real calls lives outside the library and reduces its
//! outcomes through `aggregate_outcomes`; `propagate` runs the same
//! executor, verified, against the in-memory permission service.

use vstd::prelude::*;
use vstd::string::StringExecFns;

use crate::namespace::Mode;
use crate::value::{JsonValue, SpecJson};

verus! {

/// What one propagation request denotes.
pub struct SpecRequest {
    pub target_id: Seq<char>,
    pub permission_type: Seq<char>,
    pub resource_id: Seq<char>,
    pub value: SpecJson,
    pub mode: Mode,
}

/// The unit sent to the permission service: who is granted what on
/// which resource, and under which mode tag the value is to be read.
#[derive(Debug)]
pub struct PropagationRequest {
    pub target_id: String,
    pub permission_type: String,
    pub resource_id: String,
    pub value: JsonValue,
    pub mode: Mode,
}

impl View for PropagationRequest {
    type V = SpecRequest;

    open spec fn view(&self) -> SpecRequest {
        SpecRequest {
            target_id: self.target_id@,
            permission_type: self.permission_type@,
            resource_id: self.resource_id@,
            value: self.value@,
            mode: self.mode,
        }
    }
}

impl PropagationRequest {
    /// A structural copy; the copy denotes the same request.
    pub fn duplicate(&self) -> (r: PropagationRequest)
        ensures
            r@ == self@,
    {
        PropagationRequest {
            target_id: self.target_id.clone(),
            permission_type: self.permission_type.clone(),
            resource_id: self.resource_id.clone(),
            value: self.value.duplicate(),
            mode: self.mode,
        }
    }
}

/// The view of a request list.
pub open spec fn reqs_view(s: Seq<PropagationRequest>) -> Seq<SpecRequest> {
    s.map_values(|r: PropagationRequest| r@)
}

/// Reduces the outcomes of a dispatched batch, in completion order:
/// success exactly when every call succeeded, else the first failure,
/// alone, is reported (the rest are collected but not returned).
pub fn aggregate_outcomes(outcomes: &Vec<Result<(), String>>) -> (r: Result<(), String>)
    ensures
        r is Ok <==> (forall|i: int| 0 <= i < outcomes@.len() ==> (#[trigger] outcomes@[i]) is Ok),
        r matches Err(m) ==> exists|k: int|
            0 <= k < outcomes@.len() && ((#[trigger] outcomes@[k]) matches Err(m0) && m@ == m0@)
                && (forall|j: int| 0 <= j < k ==> (#[trigger] outcomes@[j]) is Ok),
{
    let mut i: usize = 0;
    while i < outcomes.len()
        invariant
            0 <= i <= outcomes@.len(),
            forall|j: int| 0 <= j < i ==> (#[trigger] outcomes@[j]) is Ok,
        decreases outcomes@.len() - i,
    {
        match &outcomes[i] {
            Ok(_) => {},
            Err(m) => {
                return Err(m.clone());
            },
        }
        i += 1;
    }
    Ok(())
}

/// The in-memory permission service: it records every mutation that
/// reaches it and refuses exactly the mutations naming its one
/// configured failing resource.  Tests run the fan-out executor
/// against it.
#[derive(Debug)]
pub struct MyIam {
    pub log: Vec<PropagationRequest>,
    pub fail_resource: Option<String>,
}

/// Every mutation that has reached the service, in arrival order.
pub open spec fn iam_log(m: MyIam) -> Seq<SpecRequest> {
    reqs_view(m.log@)
}

impl MyIam {
    /// Whether this service refuses a request: exactly the requests
    /// naming the configured failing resource.
    pub open spec fn denies(self, req: SpecRequest) -> bool {
        match self.fail_resource {
            Some(f) => f@ == req.resource_id,
            None => false,
        }
    }

    /// A service that accepts everything.
    pub fn new() -> (r: MyIam)
        ensures
            iam_log(r) == Seq::<SpecRequest>::empty(),
            r.fail_resource is None,
    {
        let r = MyIam { log: Vec::new(), fail_resource: None };
        proof {
            assert(iam_log(r) =~= Seq::<SpecRequest>::empty());
        }
        r
    }

    /// A service that refuses every mutation naming `resource`.
    pub fn failing_on(resource: String) -> (r: MyIam)
        ensures
            iam_log(r) == Seq::<SpecRequest>::empty(),
            r.fail_resource == Some(resource),
    {
        let r = MyIam { log: Vec::new(), fail_resource: Some(resource) };
        proof {
            assert(iam_log(r) =~= Seq::<SpecRequest>::empty());
        }
        r
    }

    /// Grants a permission.  The request is recorded whatever the
    /// outcome; it is refused exactly when it names the failing
    /// resource.
    pub fn add_permission(&mut self, request: PropagationRequest) -> (r: Result<(), String>)
        ensures
            iam_log(*final(self)) == iam_log(*old(self)).push(request@),
            final(self).fail_resource == old(self).fail_resource,
            match r {
                Ok(_) => !old(self).denies(request@),
                Err(m) => old(self).denies(request@) && m@ == "permission denied: "@
                    + request@.resource_id,
            },
    {
        let denied: Option<String> = match &self.fail_resource {
            Some(f) => {
                if crate::value::string_eq(f, &request.resource_id) {
                    let mut m: String = "permission denied: ".to_owned();
                    m.append(request.resource_id.as_str());
                    Some(m)
                } else {
                    None
                }
            },
            None => None,
        };
        let ghost before = self.log@;
        self.log.push(request);
        proof {
            assert(reqs_view(self.log@) =~= reqs_view(before).push(self.log@.last()@));
        }
        match denied {
            Some(m) => Err(m),
            None => Ok(()),
        }
    }

    /// Revokes a permission; same recording and refusal behaviour as
    /// granting.
    pub fn remove_permission(&mut self, request: PropagationRequest) -> (r: Result<(), String>)
        ensures
            iam_log(*final(self)) == iam_log(*old(self)).push(request@),
            final(self).fail_resource == old(self).fail_resource,
            match r {
                Ok(_) => !old(self).denies(request@),
                Err(m) => old(self).denies(request@) && m@ == "permission denied: "@
                    + request@.resource_id,
            },
    {
        self.add_permission(request)
    }

    /// Replaces a permission; same recording and refusal behaviour as
    /// granting.
    pub fn replace_permission(&mut self, request: PropagationRequest) -> (r: Result<(), String>)
        ensures
            iam_log(*final(self)) == iam_log(*old(self)).push(request@),
            final(self).fail_resource == old(self).fail_resource,
            match r {
                Ok(_) => !old(self).denies(request@),
                Err(m) => old(self).denies(request@) && m@ == "permission denied: "@
                    + request@.resource_id,
            },
    {
        self.add_permission(request)
    }
}

/// The fan-out executor against the in-memory service: every request
/// of the batch reaches the service — a refusal never stops the batch
/// and nothing is rolled back — and the result is success exactly when
/// every call succeeded, else the first refusal's error.
pub fn propagate(service: &mut MyIam, requests: &Vec<PropagationRequest>) -> (r: Result<
    (),
    String,
>)
    ensures
        final(service).fail_resource == old(service).fail_resource,
        iam_log(*final(service)) == iam_log(*old(service)) + reqs_view(requests@),
        r is Ok <==> (forall|i: int|
            0 <= i < requests@.len() ==> !old(service).denies((#[trigger] requests@[i])@)),
        r matches Err(m) ==> exists|k: int|
            0 <= k < requests@.len() && old(service).denies((#[trigger] requests@[k])@) && m@
                == "permission denied: "@ + requests@[k]@.resource_id && (forall|j: int|
                0 <= j < k ==> !old(service).denies((#[trigger] requests@[j])@)),
{
    let mut firsterr: Option<String> = None;
    let mut i: usize = 0;
    while i < requests.len()
        invariant
            0 <= i <= requests@.len(),
            service.fail_resource == old(service).fail_resource,
            iam_log(*service) == iam_log(*old(service)) + reqs_view(requests@.take(i as int)),
            match firsterr {
                None => forall|j: int|
                    0 <= j < i ==> !old(service).denies((#[trigger] requests@[j])@),
                Some(m) => exists|k: int|
                    0 <= k < i && old(service).denies((#[trigger] requests@[k])@) && m@
                        == "permission denied: "@ + requests@[k]@.resource_id && (forall|j: int|
                        0 <= j < k ==> !old(service).denies((#[trigger] requests@[j])@)),
            },
        decreases requests@.len() - i,
    {
        let req = requests[i].duplicate();
        let ghost svc_before = *service;
        let outcome = service.add_permission(req);
        proof {
            assert(svc_before.denies(requests@[i as int]@) == old(service).denies(
                requests@[i as int]@,
            ));
            assert(reqs_view(requests@.take(i + 1)) =~= reqs_view(requests@.take(i as int)).push(
                requests@[i as int]@,
            ));
            assert(iam_log(*service) =~= iam_log(*old(service)) + reqs_view(
                requests@.take(i + 1),
            ));
        }
        match outcome {
            Ok(_) => {},
            Err(m) => {
                if firsterr.is_none() {
                    firsterr = Some(m);
                }
            },
        }
        i += 1;
    }
    proof {
        assert(requests@.take(requests@.len() as int) =~= requests@);
    }
    match firsterr {
        None => Ok(()),
        Some(m) => Err(m),
    }
}

} // verus!
