//! The records that the stores hold and hand out.

use vstd::prelude::*;

verus! {

/// One authorization rule: its identifier and its source text.
#[derive(Debug, PartialEq, Eq)]
pub struct Policy {
    pub id: String,
    pub content: String,
}

/// A policy as contracts see it.
pub struct PolicyView {
    pub id: Seq<char>,
    pub content: Seq<char>,
}

impl View for Policy {
    type V = PolicyView;

    open spec fn view(&self) -> PolicyView {
        PolicyView { id: self.id@, content: self.content@ }
    }
}

impl Clone for Policy {
    fn clone(&self) -> (copy: Self)
        ensures
            copy == *self,
    {
        Policy { id: self.id.clone(), content: self.content.clone() }
    }
}

impl Policy {
    /// A record with the given identifier and source text.
    pub fn new(id: &str, content: &str) -> (policy: Policy)
        ensures
            policy@ == (PolicyView { id: id@, content: content@ }),
    {
        Policy { id: String::from_str(id), content: String::from_str(content) }
    }
}

/// The views of a list of policies, in order.
pub open spec fn policy_views(list: Seq<Policy>) -> Seq<PolicyView> {
    list.map_values(|policy: Policy| policy@)
}

/// Whether some record of `list` has the identifier `id`.
pub open spec fn has_id(list: Seq<PolicyView>, id: Seq<char>) -> bool {
    exists|i: int| 0 <= i < list.len() && #[trigger] list[i].id == id
}

/// The place of the first record of `list` that has the identifier `id`.
pub open spec fn position_of(list: Seq<PolicyView>, id: Seq<char>) -> int {
    choose|i: int|
        0 <= i < list.len() && #[trigger] list[i].id == id && forall|j: int|
            0 <= j < i ==> (#[trigger] list[j]).id != id
}

/// Whether no identifier occurs twice in `list`.
pub open spec fn unique_ids(list: Seq<PolicyView>) -> bool {
    forall|i: int, j: int|
        0 <= i < j < list.len() ==> (#[trigger] list[i]).id != (#[trigger] list[j]).id
}

/// The entities of the agent as one document, with the number of entities
/// that the policy engine reads from it.
#[derive(Debug, PartialEq, Eq)]
pub struct EntitySet {
    pub document: String,
    pub size: usize,
}

/// An entity set as contracts see it.
pub struct EntitySetView {
    pub document: Seq<char>,
    pub size: nat,
}

impl View for EntitySet {
    type V = EntitySetView;

    open spec fn view(&self) -> EntitySetView {
        EntitySetView { document: self.document@, size: self.size as nat }
    }
}

impl Clone for EntitySet {
    fn clone(&self) -> (copy: Self)
        ensures
            copy == *self,
    {
        EntitySet { document: self.document.clone(), size: self.size }
    }
}

/// The set without entities: an empty list.
pub open spec fn no_entities() -> EntitySetView {
    EntitySetView { document: "[]"@, size: 0 }
}

impl EntitySet {
    /// The set without entities.
    pub fn empty() -> (set: EntitySet)
        ensures
            set@ == no_entities(),
    {
        EntitySet { document: String::from_str("[]"), size: 0 }
    }

    /// The number of entities.
    pub fn len(&self) -> (count: usize)
        ensures
            count == self@.size,
    {
        self.size
    }
}

/// Why a policy text was turned down by the policy language's parser.
#[derive(Clone, Debug, PartialEq, Eq)]
pub struct SyntaxError {
    pub reason: String,
}

/// The record of a batch that the parser turned down, and why.
#[derive(Clone, Debug, PartialEq, Eq)]
pub struct InvalidPolicy {
    pub id: String,
    pub reason: String,
}

/// Why an entity document was turned down.
#[derive(Clone, Debug, PartialEq, Eq)]
pub struct ParseError {
    pub reason: String,
}

} // verus!
