//! What holds of the policy store over several requests, proved of the
//! functions that say what each request does.

use crate::schemas::{has_id, position_of, unique_ids, PolicyView};
use crate::services::identifiers::{generated_id, lemma_generated_id_is_fresh};
use crate::services::policies::{
    all_compiled, create_spec, delete_spec, first_duplicate, is_first_duplicate,
    lemma_position_exists, lemma_position_of, replace_all_spec, update_spec,
    PolicyStoreErrorView,
};
use crate::services::validator::policy_compiles;
use vstd::prelude::*;

verus! {

/// A record that comes without an identifier gets one that no record of the
/// store has.
pub proof fn lemma_generated_id_unused(
    before: Seq<PolicyView>,
    content: Seq<char>,
    verdict: Result<(), Seq<char>>,
)
    ensures
        create_spec(before, None, content, verdict).1 matches Ok(policy) ==> !has_id(
            before,
            policy.id,
        ),
{
    lemma_generated_id_is_fresh(before);
}

/// Two records created one after the other, both without an identifier, get
/// different identifiers.
pub proof fn lemma_generated_ids_differ(
    before: Seq<PolicyView>,
    first: Seq<char>,
    first_verdict: Result<(), Seq<char>>,
    second: Seq<char>,
    second_verdict: Result<(), Seq<char>>,
)
    ensures
        ({
            let (between, one) = create_spec(before, None, first, first_verdict);
            let (after, two) = create_spec(between, None, second, second_verdict);
            one is Ok && two is Ok ==> one->Ok_0.id != two->Ok_0.id
        }),
{
    let (between, one) = create_spec(before, None, first, first_verdict);
    let (after, two) = create_spec(between, None, second, second_verdict);
    if one is Ok && two is Ok {
        lemma_generated_id_is_fresh(between);
        assert(between[before.len() as int].id == one->Ok_0.id);
        assert(has_id(between, one->Ok_0.id));
        assert(two->Ok_0.id == generated_id(between));
    }
}

/// Once a record has been created under an identifier, or was there before,
/// a second request to create one under it fails with `Conflict`, whatever
/// its text, and changes nothing: the store holds one record with that
/// identifier, and where the first request created it, it is that record.
pub proof fn lemma_second_create_conflicts(
    before: Seq<PolicyView>,
    id: Seq<char>,
    first: Seq<char>,
    first_verdict: Result<(), Seq<char>>,
    second: Seq<char>,
    second_verdict: Result<(), Seq<char>>,
)
    requires
        unique_ids(before),
        create_spec(before, Some(id), first, first_verdict).1 is Ok || has_id(before, id),
    ensures
        ({
            let (between, one) = create_spec(before, Some(id), first, first_verdict);
            let (after, two) = create_spec(between, Some(id), second, second_verdict);
            &&& two == Err::<PolicyView, PolicyStoreErrorView>(PolicyStoreErrorView::Conflict(id))
            &&& after == between
            &&& has_id(after, id)
            &&& one is Ok ==> after[position_of(after, id)] == (PolicyView { id, content: first })
            &&& forall|i: int|
                0 <= i < after.len() && (#[trigger] after[i]).id == id ==> i == position_of(
                    after,
                    id,
                )
        }),
{
    let (between, one) = create_spec(before, Some(id), first, first_verdict);
    if one is Ok {
        let last = before.len() as int;
        assert(between[last].id == id);
        lemma_position_of(between, last);
        assert forall|i: int| 0 <= i < between.len() && (#[trigger] between[i]).id == id implies i
            == last by {
            if i < last {
                assert(before[i].id == id);
            }
        }
    } else {
        lemma_position_exists(before, id);
        let at = position_of(before, id);
        assert forall|i: int| 0 <= i < before.len() && (#[trigger] before[i]).id == id implies i
            == at by {
            if i < at {
                assert(before[i].id != before[at].id);
            }
            if at < i {
                assert(before[at].id != before[i].id);
            }
        }
    }
}

/// A batch in which an identifier occurs twice is refused and the store is
/// left as it was. Where every record of the batch compiles, the error names
/// an identifier that two records of the batch have.
pub proof fn lemma_duplicate_batch_refused(
    before: Seq<PolicyView>,
    list: Seq<PolicyView>,
    verdict: Result<(), (Seq<char>, Seq<char>)>,
)
    requires
        !unique_ids(list),
    ensures
        replace_all_spec(before, list, verdict).0 == before,
        replace_all_spec(before, list, verdict).1 is Err,
        verdict is Ok ==> exists|i: int, j: int|
            0 <= i < j < list.len() && (#[trigger] list[i]).id == (#[trigger] list[j]).id
                && replace_all_spec(before, list, verdict).1 == Err::<
                Seq<PolicyView>,
                PolicyStoreErrorView,
            >(PolicyStoreErrorView::DuplicateId(list[j].id)),
{
    if verdict is Ok {
        assert(list.take(list.len() as int) =~= list);
        lemma_first_duplicate_exists(list, list.len() as int);
        let at = first_duplicate(list);
        assert(is_first_duplicate(list, at));
        let early = choose|i: int|
            0 <= i < list.take(at).len() && #[trigger] list.take(at)[i].id == list[at].id;
        assert(list[early].id == list[at].id);
    }
}

/// A list whose first `n` records repeat an identifier has a first record
/// that does so.
proof fn lemma_first_duplicate_exists(list: Seq<PolicyView>, n: int)
    requires
        0 <= n <= list.len(),
        !unique_ids(list.take(n)),
    ensures
        exists|at: int| is_first_duplicate(list, at),
    decreases n,
{
    if n == 0 {
        assert(unique_ids(list.take(0)));
    } else if unique_ids(list.take(n - 1)) {
        let (i, j) = choose|i: int, j: int|
            0 <= i < j < list.take(n).len() && (#[trigger] list.take(n)[i]).id == (
            #[trigger] list.take(n)[j]).id;
        if j < n - 1 {
            assert(list.take(n - 1)[i].id == list.take(n - 1)[j].id);
        }
        assert(list.take(n - 1)[i].id == list[n - 1].id);
        assert(is_first_duplicate(list, n - 1));
    } else {
        lemma_first_duplicate_exists(list, n - 1);
    }
}

/// A new text for a record that is not there fails with `NotFound`, and the
/// store is left as it was, with as many records as before.
pub proof fn lemma_update_of_missing(
    before: Seq<PolicyView>,
    id: Seq<char>,
    content: Seq<char>,
    verdict: Result<(), Seq<char>>,
)
    requires
        !has_id(before, id),
    ensures
        update_spec(before, id, content, verdict) == (
            before,
            Err::<PolicyView, PolicyStoreErrorView>(PolicyStoreErrorView::NotFound(id)),
        ),
        update_spec(before, id, content, verdict).0.len() == before.len(),
{
}

/// No request makes two records share an identifier: what a store holds
/// after any request, and so what any snapshot shows, has each identifier
/// once.
pub proof fn lemma_ids_stay_unique(
    before: Seq<PolicyView>,
    id: Seq<char>,
    given: Option<Seq<char>>,
    content: Seq<char>,
    verdict: Result<(), Seq<char>>,
    list: Seq<PolicyView>,
    batch_verdict: Result<(), (Seq<char>, Seq<char>)>,
)
    requires
        unique_ids(before),
    ensures
        unique_ids(create_spec(before, given, content, verdict).0),
        unique_ids(update_spec(before, id, content, verdict).0),
        unique_ids(delete_spec(before, id).0),
        unique_ids(replace_all_spec(before, list, batch_verdict).0),
{
    let created = create_spec(before, given, content, verdict).0;
    if created != before {
        lemma_generated_id_is_fresh(before);
        let last = before.len() as int;
        assert forall|i: int, j: int| 0 <= i < j < created.len() implies (#[trigger] created[i]).id
            != (#[trigger] created[j]).id by {
            if j == last {
                assert(before[i].id == created[i].id);
                assert(!has_id(before, created[last].id));
            } else {
                assert(before[i].id != before[j].id);
            }
        }
    }
    if has_id(before, id) {
        lemma_position_exists(before, id);
    }
    let updated = update_spec(before, id, content, verdict).0;
    if updated != before {
        let at = position_of(before, id);
        assert forall|i: int, j: int| 0 <= i < j < updated.len() implies (#[trigger] updated[i]).id
            != (#[trigger] updated[j]).id by {
            assert(before[i].id != before[j].id);
        }
    }
    let deleted = delete_spec(before, id).0;
    if deleted != before {
        let at = position_of(before, id);
        assert forall|i: int, j: int| 0 <= i < j < deleted.len() implies (#[trigger] deleted[i]).id
            != (#[trigger] deleted[j]).id by {
            let a = if i < at { i } else { i + 1 };
            let b = if j < at { j } else { j + 1 };
            assert(before[a].id != before[b].id);
        }
    }
}

/// A store whose texts all compile keeps to that under every request that
/// comes with an honest verdict, one that is `Ok` only for what compiles. So
/// whatever a snapshot hands to the policy engine compiles there again.
pub proof fn lemma_texts_stay_compiled(
    before: Seq<PolicyView>,
    id: Seq<char>,
    given: Option<Seq<char>>,
    content: Seq<char>,
    verdict: Result<(), Seq<char>>,
    list: Seq<PolicyView>,
    batch_verdict: Result<(), (Seq<char>, Seq<char>)>,
)
    requires
        all_compiled(before),
        verdict is Ok ==> policy_compiles(content),
        batch_verdict is Ok ==> all_compiled(list),
    ensures
        all_compiled(create_spec(before, given, content, verdict).0),
        all_compiled(update_spec(before, id, content, verdict).0),
        all_compiled(delete_spec(before, id).0),
        all_compiled(replace_all_spec(before, list, batch_verdict).0),
{
    let created = create_spec(before, given, content, verdict).0;
    assert forall|i: int| 0 <= i < created.len() implies policy_compiles(
        #[trigger] created[i].content,
    ) by {
        if i < before.len() {
            assert(policy_compiles(before[i].content));
        }
    }
    if has_id(before, id) {
        lemma_position_exists(before, id);
    }
    let updated = update_spec(before, id, content, verdict).0;
    assert forall|i: int| 0 <= i < updated.len() implies policy_compiles(
        #[trigger] updated[i].content,
    ) by {
        if updated != before && i == position_of(before, id) {
        } else {
            assert(policy_compiles(before[i].content));
        }
    }
    let deleted = delete_spec(before, id).0;
    assert forall|i: int| 0 <= i < deleted.len() implies policy_compiles(
        #[trigger] deleted[i].content,
    ) by {
        if deleted != before {
            let at = position_of(before, id);
            let a = if i < at { i } else { i + 1 };
            assert(policy_compiles(before[a].content));
        }
    }
}

} // verus!
