//! The record validator: policy texts and entity documents are handed to the
//! policy engine, which accepts or rejects them.

use crate::schemas::{
    EntitySet, EntitySetView, InvalidPolicy, ParseError, Policy, SyntaxError,
};
use vstd::prelude::*;

verus! {

/// Whether the policy engine's parser accepts `text` as one policy.
pub uninterp spec fn policy_compiles(text: Seq<char>) -> bool;

/// The number of entities that the policy engine reads from an entity
/// document, or `None` where it rejects the document.
pub uninterp spec fn entity_count(document: Seq<char>) -> Option<nat>;

/// Calls `cedar_policy::Policy::parse` with no identifier and drops the
/// compiled policy. Trusted: whether the call succeeds depends on the text
/// alone. Nothing is claimed of the wording of the error.
#[verifier::external_body]
fn parse_policy(text: &str) -> (outcome: Result<(), String>)
    ensures
        outcome.is_ok() == policy_compiles(text@),
{
    match cedar_policy::Policy::parse(None, text) {
        Ok(_) => Ok(()),
        Err(errors) => Err(errors.to_string()),
    }
}

/// Calls `cedar_policy::Entities::from_json_str` without a schema and counts
/// the entities it read. Trusted: whether the call succeeds, and how many
/// entities it yields, depend on the document alone. Nothing is claimed of the
/// wording of the error.
#[verifier::external_body]
fn parse_entities(document: &str) -> (outcome: Result<usize, String>)
    ensures
        match outcome {
            Ok(count) => entity_count(document@) == Some(count as nat),
            Err(_) => entity_count(document@).is_none(),
        },
{
    match cedar_policy::Entities::from_json_str(document, None) {
        Ok(entities) => Ok(entities.iter().count()),
        Err(error) => Err(error.to_string()),
    }
}

/// A verdict on one text as contracts see it: the reason where the text
/// was turned down.
pub open spec fn verdict_of(verdict: Result<(), SyntaxError>) -> Result<(), Seq<char>> {
    match verdict {
        Ok(_) => Ok(()),
        Err(error) => Err(error.reason@),
    }
}

/// Whether `verdict` is one that the validator gives on `text`: `Ok` exactly
/// when the text compiles, and else any reason.
pub open spec fn honest_verdict(text: Seq<char>, verdict: Result<(), Seq<char>>) -> bool {
    verdict is Ok == policy_compiles(text)
}

/// Checks one policy text. `Ok` exactly when the engine's parser accepts it.
pub fn validate_policy(text: &str) -> (verdict: Result<(), SyntaxError>)
    ensures
        honest_verdict(text@, verdict_of(verdict)),
{
    match parse_policy(text) {
        Ok(()) => Ok(()),
        Err(reason) => Err(SyntaxError { reason }),
    }
}

/// Whether every record of `list` compiles.
pub open spec fn all_compile(list: Seq<Policy>) -> bool {
    forall|i: int| 0 <= i < list.len() ==> policy_compiles(#[trigger] list[i].content@)
}

/// Whether `at` is the place of the first record of `list` that does not
/// compile.
pub open spec fn first_rejected(list: Seq<Policy>, at: int) -> bool {
    &&& 0 <= at < list.len()
    &&& !policy_compiles(list[at].content@)
    &&& forall|i: int| 0 <= i < at ==> policy_compiles(#[trigger] list[i].content@)
}

/// A verdict on a batch as contracts see it: the identifier and the reason
/// where a record was turned down.
pub open spec fn batch_verdict_of(verdict: Result<(), InvalidPolicy>) -> Result<
    (),
    (Seq<char>, Seq<char>),
> {
    match verdict {
        Ok(_) => Ok(()),
        Err(rejected) => Err((rejected.id@, rejected.reason@)),
    }
}

/// Whether `verdict` is one that the validator gives on `list`: `Ok` exactly
/// when every record compiles, and else the identifier of the first record
/// that does not, with any reason.
pub open spec fn honest_batch_verdict(
    list: Seq<Policy>,
    verdict: Result<(), (Seq<char>, Seq<char>)>,
) -> bool {
    match verdict {
        Ok(_) => all_compile(list),
        Err(rejected) => exists|at: int| #[trigger]
            first_rejected(list, at) && rejected.0 == list[at].id@,
    }
}

/// Checks a batch of records as a whole. `Ok` exactly when every record
/// compiles; otherwise the error names the first record that does not.
pub fn validate_policy_set(list: &Vec<Policy>) -> (verdict: Result<(), InvalidPolicy>)
    ensures
        verdict is Ok == all_compile(list@),
        honest_batch_verdict(list@, batch_verdict_of(verdict)),
{
    let mut i: usize = 0;
    while i < list.len()
        invariant
            i <= list@.len(),
            forall|k: int| 0 <= k < i ==> policy_compiles(#[trigger] list@[k].content@),
        decreases list@.len() - i,
    {
        match parse_policy(list[i].content.as_str()) {
            Ok(()) => {},
            Err(reason) => {
                assert(first_rejected(list@, i as int));
                return Err(InvalidPolicy { id: list[i].id.clone(), reason });
            },
        }
        i += 1;
    }
    Ok(())
}

/// A verdict on an entity document as contracts see it.
pub open spec fn entities_verdict_of(verdict: Result<EntitySet, ParseError>) -> Result<
    EntitySetView,
    Seq<char>,
> {
    match verdict {
        Ok(set) => Ok(set@),
        Err(error) => Err(error.reason@),
    }
}

/// Whether `verdict` is one that the validator gives on `document`: the
/// document with the number of its entities where the engine reads it, and
/// else any reason.
pub open spec fn honest_entities_verdict(
    document: Seq<char>,
    verdict: Result<EntitySetView, Seq<char>>,
) -> bool {
    match verdict {
        Ok(set) => set.document == document && entity_count(document) == Some(set.size),
        Err(_) => entity_count(document) is None,
    }
}

/// Checks an entity document. `Ok` exactly when the engine reads it; the set
/// then holds the document as it came and the number of entities read.
pub fn validate_entities(document: &str) -> (verdict: Result<EntitySet, ParseError>)
    ensures
        honest_entities_verdict(document@, entities_verdict_of(verdict)),
{
    match parse_entities(document) {
        Ok(size) => Ok(EntitySet { document: String::from_str(document), size }),
        Err(reason) => Err(ParseError { reason }),
    }
}

} // verus!
