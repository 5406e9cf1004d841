//! The stores as many tasks share them: one handle per store, behind a
//! reader-writer lock. Writers exclude each other and every reader; a reader
//! sees the store as one writer left it, never a store in the middle of a
//! change. Texts are validated before the lock is taken.

use crate::schemas::{
    policy_views, unique_ids, EntitySet, EntitySetView, ParseError, Policy, PolicyView,
};
use crate::services::data::{replace_entities_spec, replace_outcome, validated, EntityStore};
use crate::services::policies::{
    all_compiled, batch_outcome, create_spec, delete_spec, get_one_spec, record_outcome,
    replace_all_spec, text_of, update_spec, PolicySnapshot, PolicyStore, PolicyStoreError,
};
use crate::services::validator::{
    all_compile, batch_verdict_of, entities_verdict_of, entity_count, honest_batch_verdict,
    honest_entities_verdict, honest_verdict, policy_compiles, validate_entities,
    validate_policy, validate_policy_set, verdict_of,
};
use vstd::prelude::*;
use vstd::rwlock::{RwLock, RwLockPredicate};

verus! {

/// What holds of the policy store whenever no writer is at work on it: no
/// identifier occurs twice and every text compiles.
pub struct ValidPolicies {}

impl RwLockPredicate<PolicyStore> for ValidPolicies {
    open spec fn inv(self, store: PolicyStore) -> bool {
        store.wf() && store.compiled()
    }
}

/// Whether `list` is what a shared policy store may hold between two
/// writers.
pub open spec fn valid_policies(list: Seq<PolicyView>) -> bool {
    unique_ids(list) && all_compiled(list)
}

/// The shared handle on the policy store.
pub struct SharedPolicyStore {
    lock: RwLock<PolicyStore, ValidPolicies>,
}

impl SharedPolicyStore {
    /// A handle on a store without records.
    pub fn new() -> (shared: SharedPolicyStore) {
        SharedPolicyStore { lock: RwLock::new(PolicyStore::new(), Ghost(ValidPolicies {  })) }
    }

    /// A copy of every record, as one writer left them: no identifier occurs
    /// twice and every text compiles.
    pub fn get_all(&self) -> (list: Vec<Policy>)
        ensures
            valid_policies(policy_views(list@)),
    {
        let handle = self.lock.acquire_read();
        let list = handle.borrow().get_all();
        handle.release_read();
        list
    }

    /// What the store holds at one instant, for the policy engine.
    pub fn snapshot_for_evaluation(&self) -> (snapshot: PolicySnapshot)
        ensures
            valid_policies(snapshot@),
    {
        let handle = self.lock.acquire_read();
        let snapshot = handle.borrow().snapshot_for_evaluation();
        handle.release_read();
        snapshot
    }

    /// A copy of the record `id`, or `NotFound`: the answer of the store as
    /// one writer left it.
    pub fn get_one(&self, id: &str) -> (outcome: Result<Policy, PolicyStoreError>)
        ensures
            exists|state: Seq<PolicyView>| #[trigger]
                valid_policies(state) && record_outcome(outcome) == get_one_spec(state, id@),
    {
        let handle = self.lock.acquire_read();
        let outcome = handle.borrow().get_one(id);
        proof {
            assert(valid_policies(handle.view()@));
        }
        handle.release_read();
        outcome
    }

    /// Creates a record. The text is validated first; then, under the lock,
    /// the store does as `PolicyStore::create_validated` says.
    pub fn create(&self, id: Option<String>, content: String) -> (outcome: Result<
        Policy,
        PolicyStoreError,
    >)
        ensures
            outcome matches Ok(policy) ==> policy_compiles(policy@.content),
            exists|before: Seq<PolicyView>, verdict: Result<(), Seq<char>>|
                {
                    &&& #[trigger] valid_policies(before)
                    &&& honest_verdict(content@, verdict)
                    &&& record_outcome(outcome) == (#[trigger] create_spec(
                        before,
                        text_of(id),
                        content@,
                        verdict,
                    )).1
                },
    {
        let verdict = validate_policy(content.as_str());
        let ghost seen = verdict_of(verdict);
        let (mut store, handle) = self.lock.acquire_write();
        let ghost before = store@;
        let outcome = store.create_validated(id, content, verdict);
        proof {
            assert(valid_policies(before));
            assert(record_outcome(outcome) == create_spec(before, text_of(id), content@, seen).1);
        }
        handle.release_write(store);
        outcome
    }

    /// Gives the record `id` a new text. The text is validated first; then,
    /// under the lock, the store does as `PolicyStore::update_validated`
    /// says.
    pub fn update(&self, id: &str, content: String) -> (outcome: Result<Policy, PolicyStoreError>)
        ensures
            outcome matches Ok(policy) ==> policy_compiles(policy@.content),
            exists|before: Seq<PolicyView>, verdict: Result<(), Seq<char>>|
                {
                    &&& #[trigger] valid_policies(before)
                    &&& honest_verdict(content@, verdict)
                    &&& record_outcome(outcome) == (#[trigger] update_spec(
                        before,
                        id@,
                        content@,
                        verdict,
                    )).1
                },
    {
        let verdict = validate_policy(content.as_str());
        let ghost seen = verdict_of(verdict);
        let (mut store, handle) = self.lock.acquire_write();
        let ghost before = store@;
        let outcome = store.update_validated(id, content, verdict);
        proof {
            assert(valid_policies(before));
            assert(record_outcome(outcome) == update_spec(before, id@, content@, seen).1);
        }
        handle.release_write(store);
        outcome
    }

    /// Removes the record `id` and hands it back, or fails with `NotFound`.
    pub fn delete(&self, id: &str) -> (outcome: Result<Policy, PolicyStoreError>)
        ensures
            exists|before: Seq<PolicyView>| #[trigger]
                valid_policies(before) && record_outcome(outcome) == delete_spec(before, id@).1,
    {
        let (mut store, handle) = self.lock.acquire_write();
        let ghost before = store@;
        let outcome = store.delete(id);
        proof {
            assert(valid_policies(before));
        }
        handle.release_write(store);
        outcome
    }

    /// Replaces all records by `list`. The batch is validated as a whole
    /// first; then, under the lock, the store does as
    /// `PolicyStore::replace_all_validated` says. What comes back does not
    /// depend on what the store held.
    pub fn replace_all(&self, list: Vec<Policy>) -> (outcome: Result<
        Vec<Policy>,
        PolicyStoreError,
    >)
        ensures
            outcome is Ok <==> (all_compile(list@) && unique_ids(policy_views(list@))),
            exists|before: Seq<PolicyView>, verdict: Result<(), (Seq<char>, Seq<char>)>|
                {
                    &&& #[trigger] valid_policies(before)
                    &&& honest_batch_verdict(list@, verdict)
                    &&& batch_outcome(outcome) == (#[trigger] replace_all_spec(
                        before,
                        policy_views(list@),
                        verdict,
                    )).1
                },
    {
        let verdict = validate_policy_set(&list);
        let ghost seen = batch_verdict_of(verdict);
        let (mut store, handle) = self.lock.acquire_write();
        let ghost before = store@;
        let outcome = store.replace_all_validated(list, verdict);
        proof {
            assert(valid_policies(before));
            assert(batch_outcome(outcome) == replace_all_spec(
                before,
                policy_views(list@),
                seen,
            ).1);
        }
        handle.release_write(store);
        outcome
    }
}

/// What holds of the entity store whenever no writer is at work on it: what
/// it holds has passed the validator.
pub struct ValidEntities {}

impl RwLockPredicate<EntityStore> for ValidEntities {
    open spec fn inv(self, store: EntityStore) -> bool {
        store.valid()
    }
}

/// The shared handle on the entity store.
pub struct SharedEntityStore {
    lock: RwLock<EntityStore, ValidEntities>,
}

impl SharedEntityStore {
    /// A handle on a store without entities.
    pub fn new() -> (shared: SharedEntityStore) {
        SharedEntityStore { lock: RwLock::new(EntityStore::new(), Ghost(ValidEntities {  })) }
    }

    /// A copy of the entity set, as one writer left it.
    pub fn get_all(&self) -> (set: EntitySet)
        ensures
            validated(set@),
    {
        let handle = self.lock.acquire_read();
        let set = handle.borrow().get_all();
        handle.release_read();
        set
    }

    /// Empties the store.
    pub fn clear(&self) {
        let (mut store, handle) = self.lock.acquire_write();
        store.clear();
        handle.release_write(store);
    }

    /// Replaces the entities by those of `document`. The document is
    /// validated first; then, under the lock, the store does as
    /// `EntityStore::replace_all_validated` says. What comes back does not
    /// depend on what the store held.
    pub fn replace_all(&self, document: &str) -> (outcome: Result<usize, ParseError>)
        ensures
            match outcome {
                Ok(count) => entity_count(document@) == Some(count as nat),
                Err(_) => entity_count(document@) is None,
            },
            exists|before: EntitySetView, verdict: Result<EntitySetView, Seq<char>>|
                {
                    &&& #[trigger] validated(before)
                    &&& honest_entities_verdict(document@, verdict)
                    &&& replace_outcome(outcome) == (#[trigger] replace_entities_spec(
                        before,
                        verdict,
                    )).1
                },
    {
        let verdict = validate_entities(document);
        let ghost seen = entities_verdict_of(verdict);
        let (mut store, handle) = self.lock.acquire_write();
        let ghost before = store@;
        let outcome = store.replace_all_validated(verdict);
        proof {
            assert(validated(before));
            assert(honest_entities_verdict(document@, seen));
            assert((store@, replace_outcome(outcome)) == replace_entities_spec(before, seen));
        }
        handle.release_write(store);
        outcome
    }
}

} // verus!
