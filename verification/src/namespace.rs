//! The namespace selector.
//!
//! An identity record carries up to three metadata documents —
//! administrator-only, publicly visible, and self-asserted traits — and
//! configuration selects which one is authoritative.  The selector is
//! validated once, at configuration load; everything downstream carries
//! the typed value.

use vstd::prelude::*;

use crate::error::SyncError;
use crate::value::str_eq_str;

verus! {

/// The metadata namespace an operation reads and writes.
#[derive(Clone, Copy, Debug, PartialEq, Eq, Structural)]
pub enum Namespace {
    Admin,
    Public,
    Trait,
}

/// The tag a propagation request carries, telling the permission
/// service how to interpret the value: one of the three namespaces, or
/// the metadata shorthand used by cascading group updates.
#[derive(Clone, Copy, Debug, PartialEq, Eq, Structural)]
pub enum Mode {
    Admin,
    Public,
    Trait,
    Meta,
}

impl Namespace {
    /// The propagation tag matching this namespace.
    pub open spec fn spec_mode(self) -> Mode {
        match self {
            Namespace::Admin => Mode::Admin,
            Namespace::Public => Mode::Public,
            Namespace::Trait => Mode::Trait,
        }
    }

    /// The propagation tag matching this namespace.
    pub fn mode(self) -> (r: Mode)
        ensures
            r == self.spec_mode(),
    {
        match self {
            Namespace::Admin => Mode::Admin,
            Namespace::Public => Mode::Public,
            Namespace::Trait => Mode::Trait,
        }
    }
}

/// Validates the configured namespace selector: exactly `"admin"`,
/// `"public"` or `"trait"`; anything else is a configuration error,
/// surfaced before any remote call is made.
pub fn parse_namespace(s: &str) -> (r: Result<Namespace, SyncError>)
    ensures
        match r {
            Ok(ns) => (s@ == "admin"@ && ns == Namespace::Admin) || (s@ == "public"@ && ns
                == Namespace::Public) || (s@ == "trait"@ && ns == Namespace::Trait),
            Err(e) => e is InvalidMode && s@ != "admin"@ && s@ != "public"@ && s@ != "trait"@,
        },
{
    if str_eq_str(s, "admin") {
        Ok(Namespace::Admin)
    } else if str_eq_str(s, "public") {
        Ok(Namespace::Public)
    } else if str_eq_str(s, "trait") {
        Ok(Namespace::Trait)
    } else {
        Err(SyncError::InvalidMode)
    }
}

} // verus!
