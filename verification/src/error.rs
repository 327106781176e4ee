//! The ways a transaction can fail.

use crate::text::join;
use vstd::prelude::*;

verus! {

/// Why a transaction was not applied.
#[derive(Clone, Debug, PartialEq, Eq)]
pub enum ApplyError {
    /// A rule of the ledger is broken: the transaction is rejected.
    InvalidTransaction(String),
    /// Stored bytes cannot be read: the transaction fails.
    InternalError(String),
    /// The content of an address was needed and has not been handed to the
    /// state. The host loads the address and applies the transaction again.
    StateNotLoaded(String),
}

/// The mathematical value of an [`ApplyError`].
pub enum ApplyErrorModel {
    InvalidTransaction(Seq<char>),
    InternalError(Seq<char>),
    StateNotLoaded(Seq<char>),
}

impl DeepView for ApplyError {
    type V = ApplyErrorModel;

    open spec fn deep_view(&self) -> ApplyErrorModel {
        match self {
            ApplyError::InvalidTransaction(m) => ApplyErrorModel::InvalidTransaction(m@),
            ApplyError::InternalError(m) => ApplyErrorModel::InternalError(m@),
            ApplyError::StateNotLoaded(a) => ApplyErrorModel::StateNotLoaded(a@),
        }
    }
}

impl View for ApplyError {
    type V = ApplyErrorModel;

    open spec fn view(&self) -> ApplyErrorModel {
        self.deep_view()
    }
}

impl ApplyErrorModel {
    /// The message of an error; for a missing address, the address.
    pub open spec fn text(self) -> Seq<char> {
        match self {
            ApplyErrorModel::InvalidTransaction(m) => m,
            ApplyErrorModel::InternalError(m) => m,
            ApplyErrorModel::StateNotLoaded(a) => a,
        }
    }
}

impl ApplyError {
    /// The message of an error; for a missing address, the address.
    pub fn message(&self) -> (m: String)
        ensures
            m@ == self@.text(),
    {
        match self {
            ApplyError::InvalidTransaction(m) => m.clone(),
            ApplyError::InternalError(m) => m.clone(),
            ApplyError::StateNotLoaded(a) => a.clone(),
        }
    }
}

/// The model of a result: the model of its value, or of its error.
pub open spec fn outcome<T: DeepView>(r: Result<T, ApplyError>) -> Result<
    T::V,
    ApplyErrorModel,
> {
    match r {
        Ok(v) => Ok(v.deep_view()),
        Err(e) => Err(e.deep_view()),
    }
}

/// The rejection whose message is `head` followed by `tail`.
pub open spec fn rejection(head: Seq<char>, tail: Seq<char>) -> ApplyErrorModel {
    ApplyErrorModel::InvalidTransaction(head + tail)
}

/// Builds the rejection whose message is `head` followed by `tail`.
pub fn reject(head: &str, tail: &str) -> (e: ApplyError)
    ensures
        e@ == rejection(head@, tail@),
{
    ApplyError::InvalidTransaction(join(head, tail))
}

} // verus!
