//! The failures that the stores report.

use vstd::prelude::*;
use crate::hashing::encode_id;
use crate::rbac::EntityId;

verus! {

/// What went wrong.
#[derive(Clone, Copy, Debug, PartialEq, Eq, Structural)]
pub enum RbacErrorType {
    /// The entity exists already.
    EntityAlreadyExist,
    /// The entity does not exist.
    EntityDoesNotExist,
    /// The entity does not belong to the caller. The stores never report
    /// this: an entity of another owner is reported as not existing.
    EntityAuthorizationFailed,
    /// The entity is not enabled.
    EntityDisabled,
    /// The assignment exists already.
    AssignmentAlreadyExist,
    /// The assignment does not exist.
    AssignmentDoesNotExist,
    /// The name is longer than 64 bytes. The stores never report this: the
    /// length of a name is checked before they are called.
    NameExceedMaxChar,
}

/// A failure: its kind, and the encoded identifier that led to it.
#[derive(Clone, Debug, PartialEq, Eq)]
pub struct RbacError {
    pub typ: RbacErrorType,
    pub param: Vec<u8>,
}

/// A failure, with the identifier as a sequence of bytes.
pub struct RbacErrorView {
    pub typ: RbacErrorType,
    pub param: Seq<u8>,
}

impl View for RbacError {
    type V = RbacErrorView;

    open spec fn view(&self) -> RbacErrorView {
        RbacErrorView { typ: self.typ, param: self.param@ }
    }
}

/// The failure of kind `typ` that `id` led to.
pub open spec fn failure(typ: RbacErrorType, id: EntityId) -> RbacErrorView {
    RbacErrorView { typ, param: id@ }
}

/// A result with its value and its failure seen as views.
pub open spec fn result_view<T: View>(res: Result<T, RbacError>) -> Result<T::V, RbacErrorView> {
    match res {
        Ok(value) => Ok(value@),
        Err(e) => Err(e@),
    }
}

impl RbacError {
    /// The failing result of kind `typ` for the identifier `data`.
    pub fn err<T>(typ: RbacErrorType, data: &EntityId) -> (res: Result<T, RbacError>)
        ensures
            res matches Err(e) && e@ == failure(typ, *data),
    {
        let param = encode_id(data);
        Err(RbacError { typ, param })
    }
}

} // verus!
