//! Limits that bound what a mutation may use.

use vstd::prelude::*;

verus! {

/// Limits on previews.
#[derive(Clone, Copy, Debug, PartialEq, Eq, Structural)]
pub struct PreviewSettings {
    pub max_count: u64,
    pub max_total_bytes: u64,
    pub max_document_text_bytes: u64,
    pub max_text_bytes: u64,
}

/// Limits on receipts.
#[derive(Clone, Copy, Debug, PartialEq, Eq, Structural)]
pub struct ReceiptSettings {
    pub max_count: u64,
}

/// Limits on mutations.
pub struct MutationSettings {
    pub application_lock_timeout: String,
    pub max_entries: u64,
    pub max_recursion_depth: u64,
    pub max_rollback_bytes: u64,
    pub max_staged_text_bytes: u64,
    pub max_preauthorized_callbacks: u64,
}

/// What [`MutationSettings`] stand for.
#[verifier::ext_equal]
pub ghost struct MutationView {
    pub application_lock_timeout: Seq<char>,
    pub max_entries: u64,
    pub max_recursion_depth: u64,
    pub max_rollback_bytes: u64,
    pub max_staged_text_bytes: u64,
    pub max_preauthorized_callbacks: u64,
}

impl View for MutationSettings {
    type V = MutationView;

    open spec fn view(&self) -> MutationView {
        MutationView {
            application_lock_timeout: self.application_lock_timeout@,
            max_entries: self.max_entries,
            max_recursion_depth: self.max_recursion_depth,
            max_rollback_bytes: self.max_rollback_bytes,
            max_staged_text_bytes: self.max_staged_text_bytes,
            max_preauthorized_callbacks: self.max_preauthorized_callbacks,
        }
    }
}

/// The limits that hold where nothing else is declared.
pub fn default_mutation_settings() -> (r: (PreviewSettings, ReceiptSettings, MutationSettings))
    ensures
        r.0 == default_previews(),
        r.1 == default_receipts(),
        r.2@ == default_mutations(),
{
    (
        PreviewSettings {
            max_count: 64,
            max_total_bytes: 268435456,
            max_document_text_bytes: 16777216,
            max_text_bytes: 67108864,
        },
        ReceiptSettings { max_count: 1024 },
        MutationSettings {
            application_lock_timeout: "30s".to_owned(),
            max_entries: 10000,
            max_recursion_depth: 64,
            max_rollback_bytes: 1073741824,
            max_staged_text_bytes: 67108864,
            max_preauthorized_callbacks: 64,
        },
    )
}

/// The limits on previews that hold where nothing else is declared.
pub open spec fn default_previews() -> PreviewSettings {
    PreviewSettings {
        max_count: 64,
        max_total_bytes: 268435456,
        max_document_text_bytes: 16777216,
        max_text_bytes: 67108864,
    }
}

/// The limits on receipts that hold where nothing else is declared.
pub open spec fn default_receipts() -> ReceiptSettings {
    ReceiptSettings { max_count: 1024 }
}

/// The limits on mutations that hold where nothing else is declared.
pub open spec fn default_mutations() -> MutationView {
    MutationView {
        application_lock_timeout: "30s"@,
        max_entries: 10000,
        max_recursion_depth: 64,
        max_rollback_bytes: 1073741824,
        max_staged_text_bytes: 67108864,
        max_preauthorized_callbacks: 64,
    }
}

/// The limits that hold where files are only looked at.
pub fn inspection_settings() -> (r: (PreviewSettings, MutationSettings))
    ensures
        r.0 == default_previews(),
        r.1@ == default_mutations(),
{
    let (previews, _, mutation) = default_mutation_settings();
    (previews, mutation)
}

} // verus!
