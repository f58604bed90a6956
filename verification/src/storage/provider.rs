//! The stamp that ties a store to the provider of its embeddings.

use vstd::prelude::*;

use crate::codec::{postcard_error_text, postcard_u64};
use crate::error::StorageError;
use crate::storage::store::{Plan, StoreOp, StoreView};

verus! {

/// Stamps a serialized provider identity and the moment of stamping, both in one
/// transaction, so neither is ever present without the other.
pub fn stamp_provider_identity(identity: Vec<u8>, now_ms: u64) -> (plan: Result<Plan, StorageError>)
    ensures
        plan matches Ok(p) && forall|s: StoreView| #[trigger]
            p.effect(s) == (StoreView {
                provider_identity: Some(identity@),
                provider_stamped_at: Some(crate::bytes::varint(now_ms as nat)),
                ..s
            }),
{
    match postcard_u64(now_ms) {
        Err(error) => {
            let text = postcard_error_text(error);
            Err(StorageError::serialization(text.as_str()))
        },
        Ok(stamped_at) => {
            let mut plan = Plan::new();
            plan.push(StoreOp::SetProviderIdentity(identity));
            plan.push(StoreOp::SetProviderStampedAt(stamped_at));
            Ok(plan)
        },
    }
}

/// Whether the store was ever stamped.
pub fn provider_identity_era_marker(stamped_at: &Option<Vec<u8>>) -> (yes: bool)
    ensures
        yes == (stamped_at is Some),
{
    stamped_at.is_some()
}

} // verus!
