//! The entity store: one entity set, replaced or cleared as a whole.

use crate::schemas::{no_entities, EntitySet, EntitySetView, ParseError};
use crate::services::validator::{
    entities_verdict_of, entity_count, honest_entities_verdict, validate_entities,
};
use vstd::prelude::*;

verus! {

/// Whether an entity set is one that the validator has let through: the
/// empty set, or a document with the number of entities that the policy
/// engine reads from it.
pub open spec fn validated(set: EntitySetView) -> bool {
    set == no_entities() || entity_count(set.document) == Some(set.size)
}

/// The outcome of replacing the entities as contracts see it: the number of
/// entities installed, or the reason of the refusal.
pub open spec fn replace_outcome(outcome: Result<usize, ParseError>) -> Result<nat, Seq<char>> {
    match outcome {
        Ok(count) => Ok(count as nat),
        Err(error) => Err(error.reason@),
    }
}

/// Replacing the entities of a store that holds `before`: a document that
/// was turned down changes nothing; one that was let through takes the
/// place of all that was there.
pub open spec fn replace_entities_spec(
    before: EntitySetView,
    verdict: Result<EntitySetView, Seq<char>>,
) -> (EntitySetView, Result<nat, Seq<char>>) {
    match verdict {
        Ok(set) => (set, Ok(set.size)),
        Err(reason) => (before, Err(reason)),
    }
}

/// The entities of the agent.
pub struct EntityStore {
    entities: EntitySet,
}

impl View for EntityStore {
    type V = EntitySetView;

    closed spec fn view(&self) -> EntitySetView {
        self.entities@
    }
}

impl EntityStore {
    /// Whether what the store holds has passed the validator.
    pub open spec fn valid(&self) -> bool {
        validated(self@)
    }

    /// A store without entities.
    pub fn new() -> (store: EntityStore)
        ensures
            store@ == no_entities(),
            store.valid(),
    {
        EntityStore { entities: EntitySet::empty() }
    }

    /// The number of entities.
    pub fn len(&self) -> (count: usize)
        ensures
            count == self@.size,
    {
        self.entities.size
    }

    /// A copy of the entity set.
    pub fn get_all(&self) -> (set: EntitySet)
        ensures
            set@ == self@,
    {
        self.entities.clone()
    }

    /// Empties the store.
    pub fn clear(&mut self)
        ensures
            final(self)@ == no_entities(),
            final(self).valid(),
    {
        self.entities = EntitySet::empty();
    }

    /// Installs what the validator made of an entity document, or leaves the
    /// store as it is where the validator turned the document down.
    pub fn replace_all_validated(&mut self, verdict: Result<EntitySet, ParseError>) -> (outcome:
        Result<usize, ParseError>)
        ensures
            (final(self)@, replace_outcome(outcome)) == replace_entities_spec(
                old(self)@,
                entities_verdict_of(verdict),
            ),
            old(self).valid() && (verdict matches Ok(set) ==> validated(set@))
                ==> final(self).valid(),
    {
        match verdict {
            Ok(set) => {
                let count: usize = set.size;
                self.entities = set;
                Ok(count)
            },
            Err(error) => Err(error),
        }
    }

    /// Replaces the entities by those of `document`: has the document
    /// validated, then goes on as `replace_all_validated` does with the
    /// verdict.
    pub fn replace_all(&mut self, document: &str) -> (outcome: Result<usize, ParseError>)
        ensures
            old(self).valid() ==> final(self).valid(),
            outcome is Ok <==> entity_count(document@) is Some,
            exists|verdict: Result<EntitySetView, Seq<char>>|
                honest_entities_verdict(document@, verdict) && (
                final(self)@,
                replace_outcome(outcome),
            ) == #[trigger] replace_entities_spec(old(self)@, verdict),
    {
        let verdict = validate_entities(document);
        let ghost seen = entities_verdict_of(verdict);
        let outcome = self.replace_all_validated(verdict);
        assert(honest_entities_verdict(document@, seen) && (self@, replace_outcome(outcome))
            == replace_entities_spec(old(self)@, seen));
        outcome
    }
}

} // verus!
