//! The error taxonomy of the reconciliation engine.

use vstd::prelude::*;
use vstd::string::StringExecFns;

verus! {

/// Why an operation failed.
///
/// - `InvalidMode`: the configured namespace selector is not one of the
///   recognized values; surfaced before any remote call.
/// - `NoMetadata`: the selected metadata document is absent from the
///   identity record; absence is not treated as an empty document.
/// - `NotFound`: the directory returned no identity for the given
///   credential or id.
/// - `Shape`: a metadata entry does not have the required JSON shape; the
///   offending key is carried along.
/// - `Remote`: a directory or permission-service call failed; the message
///   of the first observed failure is carried along.
#[derive(Debug, Clone)]
pub enum SyncError {
    InvalidMode,
    NoMetadata,
    NotFound(String),
    Shape(String),
    Remote(String),
}

impl SyncError {
    /// Which key a shape error blames, if any.
    pub open spec fn spec_shape_key(self) -> Option<Seq<char>> {
        match self {
            SyncError::Shape(k) => Some(k@),
            _ => None,
        }
    }

    /// The error's description, for logs and for the error sink.
    pub fn message(&self) -> (r: String)
        ensures
            match self {
                SyncError::InvalidMode => r@
                    == "invalid mode: the configured namespace must be admin, public or trait"@,
                SyncError::NoMetadata => r@ == "no metadata in this identity"@,
                SyncError::NotFound(c) => r@ == "no identity found for "@ + c@,
                SyncError::Shape(k) => r@ == "malformed metadata under key "@ + k@,
                SyncError::Remote(m) => r@ == "remote call failed: "@ + m@,
            },
    {
        match self {
            SyncError::InvalidMode => {
                "invalid mode: the configured namespace must be admin, public or trait".to_owned()
            },
            SyncError::NoMetadata => "no metadata in this identity".to_owned(),
            SyncError::NotFound(c) => {
                let mut s: String = "no identity found for ".to_owned();
                s.append(c.as_str());
                s
            },
            SyncError::Shape(k) => {
                let mut s: String = "malformed metadata under key ".to_owned();
                s.append(k.as_str());
                s
            },
            SyncError::Remote(m) => {
                let mut s: String = "remote call failed: ".to_owned();
                s.append(m.as_str());
                s
            },
        }
    }
}

} // verus!
