use vstd::prelude::*;

verus! {

/// Errors of the indexer; each carries the text that describes its cause.
#[derive(Clone, Debug, PartialEq)]
pub enum AppError {
    DidDocNotFound(String),
    CountNotFound,
    DidDocNoData(String),
    DidDocNotValid(String),
    DbExecuteFailed(String),
    RunTimeError(String),
    MoleculeError(String),
    DagCborError(String),
    IncompatibleDidDoc(String),
    IncompatibleDid(String),
    DbCountError(String),
    CkbRpcError(String),
    HandleNotFound(String),
    CkbAddrNotFound(String),
}

/// The HTTP status that a read endpoint answers with for an error.
pub open spec fn status_of(e: AppError) -> u16 {
    match e {
        AppError::DidDocNotFound(_) => 404,
        AppError::HandleNotFound(_) => 404,
        AppError::CkbAddrNotFound(_) => 404,
        AppError::IncompatibleDid(_) => 400,
        AppError::DidDocNotValid(_) => 400,
        _ => 500,
    }
}

impl AppError {
    /// Status code of the HTTP answer that reports this error.
    pub fn status_code(&self) -> (r: u16)
        ensures
            r == status_of(*self),
    {
        match self {
            AppError::DidDocNotFound(_) => 404,
            AppError::HandleNotFound(_) => 404,
            AppError::CkbAddrNotFound(_) => 404,
            AppError::IncompatibleDid(_) => 400,
            AppError::DidDocNotValid(_) => 400,
            _ => 500,
        }
    }

    /// Whether the error is a per-output data error, which the follower logs
    /// and skips rather than counting against its retry budget.
    pub fn is_data_error(&self) -> (r: bool)
        ensures
            r == (self is MoleculeError || self is DagCborError || self is IncompatibleDidDoc),
    {
        match self {
            AppError::MoleculeError(_) => true,
            AppError::DagCborError(_) => true,
            AppError::IncompatibleDidDoc(_) => true,
            _ => false,
        }
    }
}

} // verus!
