//! The policy store: records keyed by a unique identifier, changed one at a
//! time or replaced as a whole, and never changed by a request that fails.

use crate::schemas::{
    has_id, policy_views, position_of, unique_ids, InvalidPolicy, Policy, PolicyView, SyntaxError,
};
use crate::services::identifiers::{
    find_id, generate_id, generated_id, lemma_generated_id_is_fresh,
};
use crate::services::validator::{
    all_compile, batch_verdict_of, honest_batch_verdict, honest_verdict, policy_compiles,
    validate_policy, validate_policy_set, verdict_of,
};
use vstd::prelude::*;

verus! {

/// Why a request to the policy store failed.
#[derive(Debug, PartialEq, Eq)]
pub enum PolicyStoreError {
    /// No record has the identifier.
    NotFound(String),
    /// A record with the identifier is already there.
    Conflict(String),
    /// The policy text does not compile: the identifier it came with, if
    /// any, and the parser's reason.
    InvalidPolicy(Option<String>, String),
    /// Two records of a batch share the identifier.
    DuplicateId(String),
}

/// A store error as contracts see it.
pub enum PolicyStoreErrorView {
    NotFound(Seq<char>),
    Conflict(Seq<char>),
    InvalidPolicy(Option<Seq<char>>, Seq<char>),
    DuplicateId(Seq<char>),
}

impl View for PolicyStoreError {
    type V = PolicyStoreErrorView;

    open spec fn view(&self) -> PolicyStoreErrorView {
        match self {
            PolicyStoreError::NotFound(id) => PolicyStoreErrorView::NotFound(id@),
            PolicyStoreError::Conflict(id) => PolicyStoreErrorView::Conflict(id@),
            PolicyStoreError::InvalidPolicy(id, reason) => PolicyStoreErrorView::InvalidPolicy(
                text_of(*id),
                reason@,
            ),
            PolicyStoreError::DuplicateId(id) => PolicyStoreErrorView::DuplicateId(id@),
        }
    }
}

impl PolicyStoreError {
    /// The text of the error as callers are shown it.
    pub open spec fn message(self) -> Seq<char> {
        match self {
            PolicyStoreError::NotFound(id) => "Policy not found: "@ + id@,
            PolicyStoreError::Conflict(id) => "Policy already exists: "@ + id@,
            PolicyStoreError::InvalidPolicy(id, reason) => match id {
                Some(id) => "Invalid policy "@ + id@ + ": "@ + reason@,
                None => "Invalid policy: "@ + reason@,
            },
            PolicyStoreError::DuplicateId(id) => "Duplicate policy id: "@ + id@,
        }
    }

    /// Renders the error for a caller or a log line.
    pub fn describe(&self) -> (text: String)
        ensures
            text@ == self.message(),
    {
        match self {
            PolicyStoreError::NotFound(id) => String::from_str("Policy not found: ").concat(
                id.as_str(),
            ),
            PolicyStoreError::Conflict(id) => String::from_str("Policy already exists: ").concat(
                id.as_str(),
            ),
            PolicyStoreError::InvalidPolicy(id, reason) => match id {
                Some(id) => String::from_str("Invalid policy ").concat(id.as_str()).concat(
                    ": ",
                ).concat(reason.as_str()),
                None => String::from_str("Invalid policy: ").concat(reason.as_str()),
            },
            PolicyStoreError::DuplicateId(id) => String::from_str("Duplicate policy id: ").concat(
                id.as_str(),
            ),
        }
    }
}

/// The characters of an optional string.
pub open spec fn text_of(text: Option<String>) -> Option<Seq<char>> {
    match text {
        Some(text) => Some(text@),
        None => None,
    }
}

/// The outcome of a request for one record as contracts see it.
pub open spec fn record_outcome(outcome: Result<Policy, PolicyStoreError>) -> Result<
    PolicyView,
    PolicyStoreErrorView,
> {
    match outcome {
        Ok(policy) => Ok(policy@),
        Err(error) => Err(error@),
    }
}

/// The outcome of a request for a batch as contracts see it.
pub open spec fn batch_outcome(outcome: Result<Vec<Policy>, PolicyStoreError>) -> Result<
    Seq<PolicyView>,
    PolicyStoreErrorView,
> {
    match outcome {
        Ok(list) => Ok(policy_views(list@)),
        Err(error) => Err(error@),
    }
}

/// Looking up `id` in a store that holds `list`.
pub open spec fn get_one_spec(list: Seq<PolicyView>, id: Seq<char>) -> Result<
    PolicyView,
    PolicyStoreErrorView,
> {
    if has_id(list, id) {
        Ok(list[position_of(list, id)])
    } else {
        Err(PolicyStoreErrorView::NotFound(id))
    }
}

/// Creating a record in a store that holds `before`: the store afterwards and
/// what the caller gets. An identifier in use is a conflict, whatever the
/// text; then a text that does not compile is refused; else the record joins
/// the store at the end, under the given identifier or a generated one.
pub open spec fn create_spec(
    before: Seq<PolicyView>,
    id: Option<Seq<char>>,
    content: Seq<char>,
    verdict: Result<(), Seq<char>>,
) -> (Seq<PolicyView>, Result<PolicyView, PolicyStoreErrorView>) {
    if id is Some && has_id(before, id->0) {
        (before, Err(PolicyStoreErrorView::Conflict(id->0)))
    } else if verdict is Err {
        (before, Err(PolicyStoreErrorView::InvalidPolicy(id, verdict->Err_0)))
    } else {
        let policy = PolicyView {
            id: if id is Some {
                id->0
            } else {
                generated_id(before)
            },
            content,
        };
        (before.push(policy), Ok(policy))
    }
}

/// Giving the record `id` a new text in a store that holds `before`. A
/// missing record comes first, then a text that does not compile; else the
/// record keeps its place and its identifier and takes the text.
pub open spec fn update_spec(
    before: Seq<PolicyView>,
    id: Seq<char>,
    content: Seq<char>,
    verdict: Result<(), Seq<char>>,
) -> (Seq<PolicyView>, Result<PolicyView, PolicyStoreErrorView>) {
    if !has_id(before, id) {
        (before, Err(PolicyStoreErrorView::NotFound(id)))
    } else if verdict is Err {
        (before, Err(PolicyStoreErrorView::InvalidPolicy(Some(id), verdict->Err_0)))
    } else {
        let policy = PolicyView { id, content };
        (before.update(position_of(before, id), policy), Ok(policy))
    }
}

/// Removing the record `id` from a store that holds `before`.
pub open spec fn delete_spec(before: Seq<PolicyView>, id: Seq<char>) -> (
    Seq<PolicyView>,
    Result<PolicyView, PolicyStoreErrorView>,
) {
    if has_id(before, id) {
        (before.remove(position_of(before, id)), Ok(before[position_of(before, id)]))
    } else {
        (before, Err(PolicyStoreErrorView::NotFound(id)))
    }
}

/// Whether `at` is the place of the first record of `list` whose identifier
/// an earlier record has too.
pub open spec fn is_first_duplicate(list: Seq<PolicyView>, at: int) -> bool {
    &&& 0 <= at < list.len()
    &&& unique_ids(list.take(at))
    &&& has_id(list.take(at), list[at].id)
}

/// The place of the first record of `list` that repeats an identifier.
pub open spec fn first_duplicate(list: Seq<PolicyView>) -> int {
    choose|at: int| is_first_duplicate(list, at)
}

/// Replacing all that a store holds by `list`. A record that does not compile
/// comes first, then an identifier that occurs twice; else the store holds
/// `list` and nothing else.
pub open spec fn replace_all_spec(
    before: Seq<PolicyView>,
    list: Seq<PolicyView>,
    verdict: Result<(), (Seq<char>, Seq<char>)>,
) -> (Seq<PolicyView>, Result<Seq<PolicyView>, PolicyStoreErrorView>) {
    if verdict is Err {
        (
            before,
            Err(PolicyStoreErrorView::InvalidPolicy(Some(verdict->Err_0.0), verdict->Err_0.1)),
        )
    } else if !unique_ids(list) {
        (before, Err(PolicyStoreErrorView::DuplicateId(list[first_duplicate(list)].id)))
    } else {
        (list, Ok(list))
    }
}

/// Whether every record of `list` holds a text that compiles.
pub open spec fn all_compiled(list: Seq<PolicyView>) -> bool {
    forall|i: int| 0 <= i < list.len() ==> policy_compiles(#[trigger] list[i].content)
}

/// Only one place is that of the first repeated identifier.
pub proof fn lemma_first_duplicate_is(list: Seq<PolicyView>, at: int)
    requires
        is_first_duplicate(list, at),
    ensures
        first_duplicate(list) == at,
        !unique_ids(list),
{
    let chosen = first_duplicate(list);
    assert(is_first_duplicate(list, chosen));
    let early = choose|i: int| 0 <= i < list.take(at).len() && #[trigger] list.take(at)[i].id
        == list[at].id;
    assert(list[early].id == list[at].id);
    if chosen < at {
        let i = choose|i: int|
            0 <= i < list.take(chosen).len() && #[trigger] list.take(chosen)[i].id
                == list[chosen].id;
        assert(list.take(at)[i].id == list.take(at)[chosen].id);
    }
    if at < chosen {
        assert(list.take(chosen)[early].id == list.take(chosen)[at].id);
    }
}

/// A record whose identifier no earlier record has stands at the place of
/// that identifier.
pub proof fn lemma_position_of(list: Seq<PolicyView>, at: int)
    requires
        0 <= at < list.len(),
        forall|j: int| 0 <= j < at ==> (#[trigger] list[j]).id != list[at].id,
    ensures
        has_id(list, list[at].id),
        position_of(list, list[at].id) == at,
{
    let id = list[at].id;
    assert(list[at].id == id);
    let chosen = position_of(list, id);
    assert(0 <= chosen < list.len() && list[chosen].id == id && forall|j: int|
        0 <= j < chosen ==> (#[trigger] list[j]).id != id);
    if at < chosen {
        assert(list[at].id != id);
    }
}

proof fn lemma_search_position(list: Seq<PolicyView>, id: Seq<char>, from: int)
    requires
        0 <= from <= list.len(),
        forall|j: int| 0 <= j < from ==> (#[trigger] list[j]).id != id,
        has_id(list, id),
    ensures
        exists|at: int|
            0 <= at < list.len() && #[trigger] list[at].id == id && forall|j: int|
                0 <= j < at ==> (#[trigger] list[j]).id != id,
    decreases list.len() - from,
{
    if from == list.len() {
        let i = choose|i: int| 0 <= i < list.len() && #[trigger] list[i].id == id;
        assert(list[i].id != id);
    } else if list[from].id != id {
        lemma_search_position(list, id, from + 1);
    }
}

/// Where a record of `list` has the identifier `id`, the place of `id` is
/// that of the first such record.
pub proof fn lemma_position_exists(list: Seq<PolicyView>, id: Seq<char>)
    requires
        has_id(list, id),
    ensures
        0 <= position_of(list, id) < list.len(),
        list[position_of(list, id)].id == id,
        forall|j: int| 0 <= j < position_of(list, id) ==> (#[trigger] list[j]).id != id,
{
    lemma_search_position(list, id, 0);
}

/// The place of the first record of `list` that repeats an identifier, if
/// there is one.
pub fn find_duplicate(list: &Vec<Policy>) -> (found: Option<usize>)
    ensures
        match found {
            Some(at) => is_first_duplicate(policy_views(list@), at as int),
            None => unique_ids(policy_views(list@)),
        },
{
    let ghost views = policy_views(list@);
    let mut j: usize = 0;
    while j < list.len()
        invariant
            j <= list@.len(),
            views == policy_views(list@),
            unique_ids(views.take(j as int)),
        decreases list@.len() - j,
    {
        match find_id(list, &list[j].id) {
            Some(at) => {
                if at < j {
                    assert(views.take(j as int)[at as int].id == views[j as int].id);
                    return Some(j);
                }
            },
            None => {},
        }
        assert(unique_ids(views.take(j + 1))) by {
            assert forall|a: int, b: int| 0 <= a < b < j + 1 implies (#[trigger] views.take(
                j + 1,
            )[a]).id != (#[trigger] views.take(j + 1)[b]).id by {
                if b < j {
                    assert(views.take(j as int)[a].id != views.take(j as int)[b].id);
                } else {
                    assert(list@[a].id@ != list@[j as int].id@);
                }
            }
        }
        j += 1;
    }
    assert(views.take(j as int) =~= views);
    None
}

/// A copy of a list of records.
pub fn copy_policies(list: &Vec<Policy>) -> (copy: Vec<Policy>)
    ensures
        copy@ == list@,
{
    let mut copy: Vec<Policy> = Vec::new();
    let mut i: usize = 0;
    while i < list.len()
        invariant
            i <= list@.len(),
            copy@ == list@.take(i as int),
        decreases list@.len() - i,
    {
        copy.push(list[i].clone());
        assert(copy@ =~= list@.take(i + 1));
        i += 1;
    }
    assert(list@.take(i as int) =~= list@);
    copy
}

/// What a store held at one instant, for the policy engine to decide on.
pub struct PolicySnapshot {
    policies: Vec<Policy>,
}

impl View for PolicySnapshot {
    type V = Seq<PolicyView>;

    closed spec fn view(&self) -> Seq<PolicyView> {
        policy_views(self.policies@)
    }
}

impl PolicySnapshot {
    /// The number of records in the snapshot.
    pub fn len(&self) -> (count: usize)
        ensures
            count == self@.len(),
    {
        self.policies.len()
    }

    /// The records of the snapshot, in the store's order.
    pub fn policies(&self) -> (list: &Vec<Policy>)
        ensures
            policy_views(list@) == self@,
    {
        &self.policies
    }
}

/// The policies of the agent. No two records share an identifier.
pub struct PolicyStore {
    policies: Vec<Policy>,
}

impl View for PolicyStore {
    type V = Seq<PolicyView>;

    closed spec fn view(&self) -> Seq<PolicyView> {
        policy_views(self.policies@)
    }
}

impl PolicyStore {
    /// The store's invariant: no identifier occurs twice.
    pub open spec fn wf(&self) -> bool {
        unique_ids(self@)
    }

    /// Whether every record that the store holds compiles.
    pub open spec fn compiled(&self) -> bool {
        all_compiled(self@)
    }

    /// A store without records.
    pub fn new() -> (store: PolicyStore)
        ensures
            store@ == Seq::<PolicyView>::empty(),
            store.wf(),
            store.compiled(),
    {
        let store = PolicyStore { policies: Vec::new() };
        assert(store@ =~= Seq::<PolicyView>::empty());
        store
    }

    /// The number of records.
    pub fn len(&self) -> (count: usize)
        ensures
            count == self@.len(),
    {
        self.policies.len()
    }

    /// A copy of every record, in the store's order.
    pub fn get_all(&self) -> (list: Vec<Policy>)
        ensures
            policy_views(list@) == self@,
    {
        copy_policies(&self.policies)
    }

    /// What the store holds now, as one value that later changes to the
    /// store do not touch.
    pub fn snapshot_for_evaluation(&self) -> (snapshot: PolicySnapshot)
        ensures
            snapshot@ == self@,
    {
        PolicySnapshot { policies: copy_policies(&self.policies) }
    }

    /// Where the first record with the identifier `id` stands, if there is
    /// one.
    fn locate(&self, id: &String) -> (found: Option<usize>)
        ensures
            match found {
                Some(at) => at < self.policies@.len() && has_id(self@, id@) && at == position_of(
                    self@,
                    id@,
                ),
                None => !has_id(self@, id@),
            },
    {
        let found = find_id(&self.policies, id);
        proof {
            match found {
                Some(at) => {
                    lemma_position_of(self@, at as int);
                },
                None => {
                    if has_id(self@, id@) {
                        let i = choose|i: int|
                            0 <= i < self@.len() && #[trigger] self@[i].id == id@;
                        assert(self.policies@[i].id@ == id@);
                    }
                },
            }
        }
        found
    }

    /// A copy of the record `id`, or `NotFound`.
    pub fn get_one(&self, id: &str) -> (outcome: Result<Policy, PolicyStoreError>)
        ensures
            record_outcome(outcome) == get_one_spec(self@, id@),
    {
        let key = String::from_str(id);
        match self.locate(&key) {
            Some(at) => Ok(self.policies[at].clone()),
            None => Err(PolicyStoreError::NotFound(key)),
        }
    }

    /// Creates a record from a text that the validator has seen, with the
    /// validator's verdict. The store is changed only where the outcome is
    /// `Ok`; it then holds the new record at the end.
    pub fn create_validated(
        &mut self,
        id: Option<String>,
        content: String,
        verdict: Result<(), SyntaxError>,
    ) -> (outcome: Result<Policy, PolicyStoreError>)
        ensures
            old(self).wf() ==> final(self).wf(),
            (final(self)@, record_outcome(outcome)) == create_spec(
                old(self)@,
                text_of(id),
                content@,
                verdict_of(verdict),
            ),
            old(self).compiled() && (verdict is Ok ==> policy_compiles(content@))
                ==> final(self).compiled(),
            outcome matches Ok(policy) ==> !has_id(old(self)@, policy@.id),
    {
        let ghost before = self@;
        if let Some(key) = &id {
            if self.locate(key).is_some() {
                return Err(PolicyStoreError::Conflict(key.clone()));
            }
        }
        match verdict {
            Err(error) => Err(PolicyStoreError::InvalidPolicy(id, error.reason)),
            Ok(()) => {
                let key = match id {
                    Some(key) => key,
                    None => {
                        proof {
                            lemma_generated_id_is_fresh(before);
                        }
                        generate_id(&self.policies)
                    },
                };
                let policy = Policy { id: key, content };
                let copy = policy.clone();
                self.policies.push(policy);
                proof {
                    assert(self@ =~= before.push(copy@));
                    if unique_ids(before) {
                        assert forall|i: int, j: int| 0 <= i < j < self@.len() implies (
                        #[trigger] self@[i]).id != (#[trigger] self@[j]).id by {
                            if j == before.len() {
                                assert(before[i].id == self@[i].id);
                            } else {
                                assert(before[i].id != before[j].id);
                            }
                        }
                    }
                    if old(self).compiled() && policy_compiles(content@) {
                        assert forall|i: int| 0 <= i < self@.len() implies policy_compiles(
                            #[trigger] self@[i].content,
                        ) by {
                            if i < before.len() {
                                assert(policy_compiles(before[i].content));
                            }
                        }
                    }
                }
                Ok(copy)
            },
        }
    }

    /// Creates a record: has the text validated, then goes on as
    /// `create_validated` does with the verdict.
    pub fn create(&mut self, id: Option<String>, content: String) -> (outcome: Result<
        Policy,
        PolicyStoreError,
    >)
        ensures
            old(self).wf() ==> final(self).wf(),
            old(self).compiled() ==> final(self).compiled(),
            outcome matches Ok(policy) ==> policy_compiles(policy@.content) && !has_id(
                old(self)@,
                policy@.id,
            ),
            exists|verdict: Result<(), Seq<char>>|
                honest_verdict(content@, verdict) && (final(self)@, record_outcome(outcome))
                    == #[trigger] create_spec(old(self)@, text_of(id), content@, verdict),
    {
        let verdict = validate_policy(content.as_str());
        let ghost seen = verdict_of(verdict);
        let outcome = self.create_validated(id, content, verdict);
        assert(honest_verdict(content@, seen) && (self@, record_outcome(outcome)) == create_spec(
            old(self)@,
            text_of(id),
            content@,
            seen,
        ));
        outcome
    }

    /// Gives the record `id` a text that the validator has seen, with the
    /// validator's verdict. The store is changed only where the outcome is
    /// `Ok`; the record then keeps its place and its identifier.
    pub fn update_validated(
        &mut self,
        id: &str,
        content: String,
        verdict: Result<(), SyntaxError>,
    ) -> (outcome: Result<Policy, PolicyStoreError>)
        ensures
            old(self).wf() ==> final(self).wf(),
            (final(self)@, record_outcome(outcome)) == update_spec(
                old(self)@,
                id@,
                content@,
                verdict_of(verdict),
            ),
            final(self)@.len() == old(self)@.len(),
            old(self).compiled() && (verdict is Ok ==> policy_compiles(content@))
                ==> final(self).compiled(),
    {
        let ghost before = self@;
        let key = String::from_str(id);
        match self.locate(&key) {
            None => Err(PolicyStoreError::NotFound(key)),
            Some(at) => {
                match verdict {
                    Err(error) => Err(PolicyStoreError::InvalidPolicy(Some(key), error.reason)),
                    Ok(()) => {
                        let policy = Policy { id: key, content };
                        let copy = policy.clone();
                        self.policies.set(at, policy);
                        proof {
                            assert(self@ =~= before.update(at as int, copy@));
                            if unique_ids(before) {
                                assert forall|i: int, j: int|
                                    0 <= i < j < self@.len() implies (#[trigger] self@[i]).id != (
                                #[trigger] self@[j]).id by {
                                    assert(before[i].id != before[j].id);
                                }
                            }
                            if old(self).compiled() && policy_compiles(content@) {
                                assert forall|i: int| 0 <= i < self@.len() implies policy_compiles(
                                    #[trigger] self@[i].content,
                                ) by {
                                    if i != at {
                                        assert(policy_compiles(before[i].content));
                                    }
                                }
                            }
                        }
                        Ok(copy)
                    },
                }
            },
        }
    }

    /// Gives the record `id` a new text: has the text validated, then goes on
    /// as `update_validated` does with the verdict.
    pub fn update(&mut self, id: &str, content: String) -> (outcome: Result<
        Policy,
        PolicyStoreError,
    >)
        ensures
            old(self).wf() ==> final(self).wf(),
            final(self)@.len() == old(self)@.len(),
            old(self).compiled() ==> final(self).compiled(),
            outcome matches Ok(policy) ==> policy_compiles(policy@.content),
            exists|verdict: Result<(), Seq<char>>|
                honest_verdict(content@, verdict) && (final(self)@, record_outcome(outcome))
                    == #[trigger] update_spec(old(self)@, id@, content@, verdict),
    {
        let verdict = validate_policy(content.as_str());
        let ghost seen = verdict_of(verdict);
        let outcome = self.update_validated(id, content, verdict);
        assert(honest_verdict(content@, seen) && (self@, record_outcome(outcome)) == update_spec(
            old(self)@,
            id@,
            content@,
            seen,
        ));
        outcome
    }

    /// Removes the record `id` and hands it back, or fails with `NotFound`
    /// and changes nothing.
    pub fn delete(&mut self, id: &str) -> (outcome: Result<Policy, PolicyStoreError>)
        ensures
            old(self).wf() ==> final(self).wf(),
            (final(self)@, record_outcome(outcome)) == delete_spec(old(self)@, id@),
            old(self).compiled() ==> final(self).compiled(),
    {
        let ghost before = self@;
        let key = String::from_str(id);
        match self.locate(&key) {
            None => Err(PolicyStoreError::NotFound(key)),
            Some(at) => {
                let policy = self.policies.remove(at);
                proof {
                    assert(self@ =~= before.remove(at as int));
                    if unique_ids(before) {
                        assert forall|i: int, j: int| 0 <= i < j < self@.len() implies (
                        #[trigger] self@[i]).id != (#[trigger] self@[j]).id by {
                            let a = if i < at { i } else { i + 1 };
                            let b = if j < at { j } else { j + 1 };
                            assert(before[a].id != before[b].id);
                        }
                    }
                    if old(self).compiled() {
                        assert forall|i: int| 0 <= i < self@.len() implies policy_compiles(
                            #[trigger] self@[i].content,
                        ) by {
                            let a = if i < at { i } else { i + 1 };
                            assert(policy_compiles(before[a].content));
                        }
                    }
                }
                Ok(policy)
            },
        }
    }

    /// Replaces all records by a batch that the validator has seen, with the
    /// validator's verdict on the batch. Either the store holds exactly
    /// `list` afterwards, or it is unchanged.
    pub fn replace_all_validated(
        &mut self,
        list: Vec<Policy>,
        verdict: Result<(), InvalidPolicy>,
    ) -> (outcome: Result<Vec<Policy>, PolicyStoreError>)
        ensures
            old(self).wf() ==> final(self).wf(),
            (final(self)@, batch_outcome(outcome)) == replace_all_spec(
                old(self)@,
                policy_views(list@),
                batch_verdict_of(verdict),
            ),
            old(self).compiled() && (verdict is Ok ==> all_compile(list@))
                ==> final(self).compiled(),
    {
        match verdict {
            Err(rejected) => Err(
                PolicyStoreError::InvalidPolicy(Some(rejected.id), rejected.reason),
            ),
            Ok(()) => {
                match find_duplicate(&list) {
                    Some(at) => {
                        proof {
                            lemma_first_duplicate_is(policy_views(list@), at as int);
                        }
                        Err(PolicyStoreError::DuplicateId(list[at].id.clone()))
                    },
                    None => {
                        let installed = copy_policies(&list);
                        self.policies = list;
                        proof {
                            if all_compile(list@) {
                                assert forall|i: int| 0 <= i < self@.len() implies policy_compiles(
                                    #[trigger] self@[i].content,
                                ) by {
                                    assert(policy_compiles(list@[i].content@));
                                }
                            }
                        }
                        Ok(installed)
                    },
                }
            },
        }
    }

    /// Replaces all records by `list`: has the batch validated as a whole,
    /// then goes on as `replace_all_validated` does with the verdict.
    pub fn replace_all(&mut self, list: Vec<Policy>) -> (outcome: Result<
        Vec<Policy>,
        PolicyStoreError,
    >)
        ensures
            old(self).wf() ==> final(self).wf(),
            old(self).compiled() ==> final(self).compiled(),
            outcome is Ok <==> (all_compile(list@) && unique_ids(policy_views(list@))),
            outcome is Err ==> final(self)@ == old(self)@,
            exists|verdict: Result<(), (Seq<char>, Seq<char>)>|
                honest_batch_verdict(list@, verdict) && (final(self)@, batch_outcome(outcome))
                    == #[trigger] replace_all_spec(old(self)@, policy_views(list@), verdict),
    {
        let verdict = validate_policy_set(&list);
        let ghost seen = batch_verdict_of(verdict);
        let outcome = self.replace_all_validated(list, verdict);
        assert(honest_batch_verdict(list@, seen) && (self@, batch_outcome(outcome))
            == replace_all_spec(old(self)@, policy_views(list@), seen));
        outcome
    }
}

} // verus!
