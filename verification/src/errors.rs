//! The error taxonomy shared by every operation of the service.

use vstd::prelude::*;

verus! {

/// Why an operation was refused or failed.
///
/// Transport-level failures of an external call are kept apart from
/// application-level rejections, so a caller can tell whether the remote
/// state is unknown (`ExternalCallFailed`: unsafe to blindly retry a
/// mutating call) or the call was a confirmed no-op (safe to retry once the
/// condition is fixed).
#[derive(Debug)]
pub enum Error {
    /// The caller is not the current admin.
    NotAuthorized,
    /// No admin has been registered yet.
    NotRegistered,
    /// An admin is already registered.
    AlreadyRegistered,
    /// The addressed record does not exist.
    NotFound,
    /// The anonymous identity may not perform this operation.
    NotAllowed,
    /// The caller already owns a token resource.
    AlreadyHasToken,
    /// The shared resource binary has not been installed yet.
    BinaryNotSet,
    /// Charging the provisioning fee failed; the workflow was aborted.
    FeeChargeFailed(String),
    /// Creating or initializing the new resource failed.
    CreationFailed(String),
    /// The ledger confirmed that the value transfer did not happen.
    TransferFailed(String),
    /// The external call itself failed; the remote state is unknown.
    ExternalCallFailed(u32, String),
    /// The request's values were rejected before any external call.
    ValidationError(String),
}

} // verus!
