//! Failures as they are reported to the caller.

use vstd::prelude::*;

use crate::json::{Json, JsonView};

verus! {

/// A failure with everything that its report holds.
pub struct ContractFailure {
    pub exit_code: u8,
    pub category: String,
    pub code: String,
    pub message: String,
    pub stage: String,
    pub delivery: String,
    pub retry: String,
    pub data: Json,
}

/// What a [`ContractFailure`] stands for.
#[verifier::ext_equal]
pub ghost struct FailureView {
    pub exit_code: u8,
    pub category: Seq<char>,
    pub code: Seq<char>,
    pub message: Seq<char>,
    pub stage: Seq<char>,
    pub delivery: Seq<char>,
    pub retry: Seq<char>,
    pub data: JsonView,
}

impl View for ContractFailure {
    type V = FailureView;

    open spec fn view(&self) -> FailureView {
        FailureView {
            exit_code: self.exit_code,
            category: self.category@,
            code: self.code@,
            message: self.message@,
            stage: self.stage@,
            delivery: self.delivery@,
            retry: self.retry@,
            data: self.data@,
        }
    }
}

/// A failure from its parts.
pub open spec fn failed(
    exit_code: u8,
    category: Seq<char>,
    code: Seq<char>,
    message: Seq<char>,
    stage: Seq<char>,
    delivery: Seq<char>,
    retry: Seq<char>,
    data: JsonView,
) -> FailureView {
    FailureView { exit_code, category, code, message, stage, delivery, retry, data }
}

/// A failure from its parts.
pub fn failure(
    exit_code: u8,
    category: &str,
    code: &str,
    message: &str,
    stage: &str,
    delivery: &str,
    retry: &str,
    data: Json,
) -> (r: ContractFailure)
    ensures
        r@ == failed(exit_code, category@, code@, message@, stage@, delivery@, retry@, data@),
{
    ContractFailure {
        exit_code,
        category: category.to_owned(),
        code: code.to_owned(),
        message: message.to_owned(),
        stage: stage.to_owned(),
        delivery: delivery.to_owned(),
        retry: retry.to_owned(),
        data,
    }
}

impl ContractFailure {
    /// A failure with the same view.
    pub fn copy(&self) -> (r: ContractFailure)
        ensures
            r@ == self@,
    {
        failure(
            self.exit_code,
            self.category.as_str(),
            self.code.as_str(),
            self.message.as_str(),
            self.stage.as_str(),
            self.delivery.as_str(),
            self.retry.as_str(),
            self.data.copy(),
        )
    }
}

/// The view of a result.
pub open spec fn result_view<T: View, E: View>(r: Result<T, E>) -> Result<T::V, E::V> {
    match r {
        Ok(t) => Ok(t@),
        Err(e) => Err(e@),
    }
}

} // verus!
