//! The decision facade: what the policy engine is handed for one request.

use crate::schemas::EntitySet;
use crate::services::data::EntityStore;
use crate::services::data::validated;
use crate::services::policies::{PolicySnapshot, PolicyStore};
use crate::services::shared::{valid_policies, SharedEntityStore, SharedPolicyStore};
use vstd::prelude::*;

verus! {

/// One snapshot of each store. Each shows its store as it is at the call;
/// the two stores change independently of each other.
pub fn current_view(policies: &PolicyStore, entities: &EntityStore) -> (view: (
    PolicySnapshot,
    EntitySet,
))
    ensures
        view.0@ == policies@,
        view.1@ == entities@,
{
    (policies.snapshot_for_evaluation(), entities.get_all())
}

/// One snapshot of each shared store, each as one writer left its store:
/// no identifier twice, every text compiled, the entities validated.
pub fn current_shared_view(policies: &SharedPolicyStore, entities: &SharedEntityStore) -> (view: (
    PolicySnapshot,
    EntitySet,
))
    ensures
        valid_policies(view.0@),
        validated(view.1@),
{
    (policies.snapshot_for_evaluation(), entities.get_all())
}

} // verus!
