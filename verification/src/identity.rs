//! Identity records and the resolver's decisions.
//!
//! The directory is the system of record; the engine reads canonical
//! identity records from it.  What is verified here: which lookup a
//! mutation item calls for, that the first record of a credential
//! search wins, when a cached identity may be reused across a batch,
//! and which metadata document an operation selects.

use vstd::prelude::*;
use vstd::string::StringExecFns;

use crate::error::SyncError;
use crate::namespace::Namespace;
use crate::value::{str_field, string_eq, JsonValue, SpecJson};

verus! {

/// The view of an optional document.
pub open spec fn opt_view(o: Option<JsonValue>) -> Option<SpecJson> {
    match o {
        Some(v) => Some(v@),
        None => None,
    }
}

/// What an identity record denotes.
pub struct SpecIdentity {
    pub id: Seq<char>,
    pub traits: Option<SpecJson>,
    pub metadata_admin: Option<SpecJson>,
    pub metadata_public: Option<SpecJson>,
}

/// A canonical identity record, as the directory returns it: an opaque
/// id, the self-asserted traits, and the two administrative metadata
/// documents.  A document that is absent stays absent — absence is not
/// an empty document.
#[derive(Debug)]
pub struct Identity {
    pub id: String,
    pub traits: Option<JsonValue>,
    pub metadata_admin: Option<JsonValue>,
    pub metadata_public: Option<JsonValue>,
}

impl View for Identity {
    type V = SpecIdentity;

    open spec fn view(&self) -> SpecIdentity {
        SpecIdentity {
            id: self.id@,
            traits: opt_view(self.traits),
            metadata_admin: opt_view(self.metadata_admin),
            metadata_public: opt_view(self.metadata_public),
        }
    }
}

impl SpecIdentity {
    /// The metadata document the namespace selects.
    pub open spec fn document(self, ns: Namespace) -> Option<SpecJson> {
        match ns {
            Namespace::Admin => self.metadata_admin,
            Namespace::Public => self.metadata_public,
            Namespace::Trait => self.traits,
        }
    }

    /// The email this identity's traits assert, if any.
    pub open spec fn email(self) -> Option<Seq<char>> {
        match self.traits {
            Some(t) => str_field(t, "email"@),
            None => None,
        }
    }
}

/// Selects the active metadata document.  An absent document fails the
/// operation: absence is not treated as empty.
pub fn select_document<'a>(identity: &'a Identity, ns: Namespace) -> (r: Result<
    &'a JsonValue,
    SyncError,
>)
    ensures
        match r {
            Ok(d) => identity@.document(ns) == Some(d@),
            Err(e) => e is NoMetadata && identity@.document(ns) is None,
        },
{
    let doc = match ns {
        Namespace::Admin => &identity.metadata_admin,
        Namespace::Public => &identity.metadata_public,
        Namespace::Trait => &identity.traits,
    };
    match doc {
        Some(d) => Ok(d),
        None => Err(SyncError::NoMetadata),
    }
}

/// How a mutation item addresses its identity: by opaque id or by
/// email.
#[derive(Debug, Clone)]
pub enum IDType {
    ID(String),
    Email(String),
}

impl IDType {
    /// The credential as a plain string.
    pub fn id_string(&self) -> (r: &String)
        ensures
            match self {
                IDType::ID(u) => r@ == u@,
                IDType::Email(m) => r@ == m@,
            },
    {
        match self {
            IDType::ID(u) => u,
            IDType::Email(m) => m,
        }
    }
}

/// The directory path that looks an identity up by email: the
/// search-by-credential endpoint.
pub fn credential_query_path(email: &String) -> (r: String)
    ensures
        r@ == "/admin/identities?credentials_identifier="@ + email@,
{
    let mut s: String = "/admin/identities?credentials_identifier=".to_owned();
    s.append(email.as_str());
    s
}

/// The directory path that looks an identity up by opaque id.
pub fn identity_by_id_path(id: &String) -> (r: String)
    ensures
        r@ == "/admin/identities/"@ + id@,
{
    let mut s: String = "/admin/identities/".to_owned();
    s.append(id.as_str());
    s
}

/// The directory path a mutation item's credential calls for.
pub fn lookup_path(target: &IDType) -> (r: String)
    ensures
        match target {
            IDType::ID(u) => r@ == "/admin/identities/"@ + u@,
            IDType::Email(m) => r@ == "/admin/identities?credentials_identifier="@ + m@,
        },
{
    match target {
        IDType::ID(u) => identity_by_id_path(u),
        IDType::Email(m) => credential_query_path(m),
    }
}

/// Takes the first record a credential search returned; zero matches
/// is a not-found error naming the credential.  Any further records
/// are ignored.
pub fn first_identity(records: Vec<Identity>, credential: &String) -> (r: Result<
    Identity,
    SyncError,
>)
    ensures
        match r {
            Ok(ident) => records@.len() > 0 && ident == records@[0],
            Err(e) => records@.len() == 0 && (e matches SyncError::NotFound(c) && c@
                == credential@),
        },
{
    let mut records = records;
    if records.len() == 0 {
        Err(SyncError::NotFound(credential.clone()))
    } else {
        Ok(records.remove(0))
    }
}

/// Whether the cached identity of the previous mutation item fails to
/// match the next item's credential, so that the resolver must fetch
/// again.  A cached identity matches an id credential when its id is
/// that string, and an email credential when its traits assert that
/// email.
pub fn should_refetch(cached: &Identity, target: &IDType) -> (r: bool)
    ensures
        match target {
            IDType::ID(u) => r == (u@ != cached@.id),
            IDType::Email(m) => r == (cached@.email() != Some(m@)),
        },
{
    match target {
        IDType::ID(u) => !string_eq(u, &cached.id),
        IDType::Email(m) => match &cached.traits {
            Some(t) => match t.get_str_field("email") {
                Some(s) => !string_eq(&s, m),
                None => true,
            },
            None => true,
        },
    }
}

/// `should_refetch` over an optional cache: with nothing cached, the
/// resolver always fetches.
pub fn needs_fetch(cached: &Option<Identity>, target: &IDType) -> (r: bool)
    ensures
        match cached {
            None => r,
            Some(c) => match target {
                IDType::ID(u) => r == (u@ != c@.id),
                IDType::Email(m) => r == (c@.email() != Some(m@)),
            },
        },
{
    match cached {
        Some(c) => should_refetch(c, target),
        None => true,
    }
}

} // verus!
