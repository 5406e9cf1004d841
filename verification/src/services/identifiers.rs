//! Identifiers that a store hands out when a caller supplies none: the word
//! `policy` followed by the least number, in decimal, that gives an identifier
//! not yet in use.

use crate::schemas::{has_id, policy_views, Policy, PolicyView};
use vstd::prelude::*;
use vstd::set_lib::lemma_len_subset;

verus! {

/// The character for a decimal digit.
pub open spec fn digit_char(d: nat) -> char {
    if d == 0 {
        '0'
    } else if d == 1 {
        '1'
    } else if d == 2 {
        '2'
    } else if d == 3 {
        '3'
    } else if d == 4 {
        '4'
    } else if d == 5 {
        '5'
    } else if d == 6 {
        '6'
    } else if d == 7 {
        '7'
    } else if d == 8 {
        '8'
    } else {
        '9'
    }
}

/// The digit that a character stands for; 0 for any other character.
pub open spec fn digit_value(c: char) -> nat {
    if c == '1' {
        1
    } else if c == '2' {
        2
    } else if c == '3' {
        3
    } else if c == '4' {
        4
    } else if c == '5' {
        5
    } else if c == '6' {
        6
    } else if c == '7' {
        7
    } else if c == '8' {
        8
    } else if c == '9' {
        9
    } else {
        0
    }
}

/// A number in decimal, without leading zeros.
pub open spec fn decimal(n: nat) -> Seq<char>
    decreases n,
{
    if n < 10 {
        seq![digit_char(n)]
    } else {
        decimal(n / 10).push(digit_char(n % 10))
    }
}

/// The number that a string of decimal digits stands for.
pub open spec fn decimal_value(text: Seq<char>) -> nat
    decreases text.len(),
{
    if text.len() == 0 {
        0
    } else {
        decimal_value(text.drop_last()) * 10 + digit_value(text.last())
    }
}

/// Reading a number back from its decimal form gives the number.
pub proof fn lemma_decimal_value(n: nat)
    ensures
        decimal_value(decimal(n)) == n,
    decreases n,
{
    if n < 10 {
        let text = seq![digit_char(n)];
        assert(text.drop_last() =~= Seq::<char>::empty());
        assert(text.last() == digit_char(n));
        assert(decimal_value(text.drop_last()) == 0);
    } else {
        lemma_decimal_value(n / 10);
        let text = decimal(n / 10).push(digit_char(n % 10));
        assert(text.drop_last() =~= decimal(n / 10));
        assert(text.last() == digit_char(n % 10));
    }
}

/// The `k`-th identifier that a store may hand out.
pub open spec fn candidate_id(k: nat) -> Seq<char> {
    "policy"@ + decimal(k)
}

/// Distinct numbers give distinct identifiers.
pub proof fn lemma_candidate_id_injective(a: nat, b: nat)
    requires
        candidate_id(a) == candidate_id(b),
    ensures
        a == b,
{
    let prefix = "policy"@;
    assert(candidate_id(a).subrange(prefix.len() as int, candidate_id(a).len() as int) =~= decimal(
        a,
    ));
    assert(candidate_id(b).subrange(prefix.len() as int, candidate_id(b).len() as int) =~= decimal(
        b,
    ));
    lemma_decimal_value(a);
    lemma_decimal_value(b);
}

/// Whether the `k`-th candidate is the first that no record of `list` has.
pub open spec fn is_first_unused(list: Seq<PolicyView>, k: nat) -> bool {
    &&& !has_id(list, candidate_id(k))
    &&& forall|j: nat| j < k ==> has_id(list, #[trigger] candidate_id(j))
}

/// The number of the first candidate that no record of `list` has.
pub open spec fn first_unused(list: Seq<PolicyView>) -> nat {
    choose|k: nat| is_first_unused(list, k)
}

/// The identifier that a store holding `list` hands out.
pub open spec fn generated_id(list: Seq<PolicyView>) -> Seq<char> {
    candidate_id(first_unused(list))
}

/// The first `n` candidates, as a set.
spec fn candidates(n: nat) -> Set<Seq<char>>
    decreases n,
{
    if n == 0 {
        Set::empty()
    } else {
        candidates((n - 1) as nat).insert(candidate_id((n - 1) as nat))
    }
}

proof fn lemma_candidates(n: nat)
    ensures
        candidates(n).finite(),
        candidates(n).len() == n,
        forall|id: Seq<char>| #[trigger]
            candidates(n).contains(id) ==> exists|k: nat| k < n && id == candidate_id(k),
    decreases n,
{
    if n > 0 {
        let m = (n - 1) as nat;
        lemma_candidates(m);
        if candidates(m).contains(candidate_id(m)) {
            let k = choose|k: nat| k < m && candidate_id(m) == candidate_id(k);
            lemma_candidate_id_injective(m, k);
        }
        assert forall|id: Seq<char>| #[trigger] candidates(n).contains(id) implies exists|k: nat|
            k < n && id == candidate_id(k) by {
            if id == candidate_id(m) {
                assert(m < n && id == candidate_id(m));
            } else {
                assert(candidates(m).contains(id));
                let k = choose|k: nat| k < m && id == candidate_id(k);
                assert(k < n && id == candidate_id(k));
            }
        }
    }
}

/// A list of records cannot hold more of the candidates than it has records.
pub proof fn lemma_candidates_in_use(list: Seq<PolicyView>, n: nat)
    requires
        forall|j: nat| j < n ==> has_id(list, #[trigger] candidate_id(j)),
    ensures
        n <= list.len(),
{
    let ids = list.map_values(|policy: PolicyView| policy.id);
    ids.lemma_cardinality_of_set();
    lemma_candidates(n);
    assert forall|id: Seq<char>| candidates(n).contains(id) implies ids.to_set().contains(id) by {
        let k = choose|k: nat| k < n && id == candidate_id(k);
        assert(has_id(list, candidate_id(k)));
        let i = choose|i: int| 0 <= i < list.len() && #[trigger] list[i].id == id;
        assert(ids[i] == id);
    }
    lemma_len_subset(candidates(n), ids.to_set());
}

/// Only one candidate is the first unused one.
pub proof fn lemma_first_unused_is(list: Seq<PolicyView>, k: nat)
    requires
        is_first_unused(list, k),
    ensures
        first_unused(list) == k,
{
    let chosen = first_unused(list);
    assert(is_first_unused(list, chosen));
    if chosen < k {
        assert(has_id(list, candidate_id(chosen)));
    }
    if k < chosen {
        assert(has_id(list, candidate_id(k)));
    }
}

proof fn lemma_search_first_unused(list: Seq<PolicyView>, k: nat)
    requires
        forall|j: nat| j < k ==> has_id(list, #[trigger] candidate_id(j)),
    ensures
        exists|m: nat| is_first_unused(list, m),
    decreases list.len() - k,
{
    if has_id(list, candidate_id(k)) {
        lemma_candidates_in_use(list, k + 1);
        lemma_search_first_unused(list, k + 1);
    } else {
        assert(is_first_unused(list, k));
    }
}

/// The identifier that a store hands out is one that none of its records has,
/// and every candidate before it is in use.
pub proof fn lemma_generated_id_is_fresh(list: Seq<PolicyView>)
    ensures
        is_first_unused(list, first_unused(list)),
        !has_id(list, generated_id(list)),
        first_unused(list) <= list.len(),
{
    lemma_search_first_unused(list, 0);
    lemma_candidates_in_use(list, first_unused(list));
}

fn digit_text(d: usize) -> (text: &'static str)
    requires
        d < 10,
    ensures
        text@ == seq![digit_char(d as nat)],
{
    proof {
        reveal_strlit("0");
        reveal_strlit("1");
        reveal_strlit("2");
        reveal_strlit("3");
        reveal_strlit("4");
        reveal_strlit("5");
        reveal_strlit("6");
        reveal_strlit("7");
        reveal_strlit("8");
        reveal_strlit("9");
    }
    let text: &'static str = match d {
        0 => "0",
        1 => "1",
        2 => "2",
        3 => "3",
        4 => "4",
        5 => "5",
        6 => "6",
        7 => "7",
        8 => "8",
        _ => "9",
    };
    assert(text@ =~= seq![digit_char(d as nat)]);
    text
}

/// Writes a number in decimal.
pub fn decimal_text(n: usize) -> (text: String)
    ensures
        text@ == decimal(n as nat),
    decreases n,
{
    if n < 10 {
        String::from_str(digit_text(n))
    } else {
        let text = decimal_text(n / 10).concat(digit_text(n % 10));
        assert(text@ =~= decimal(n as nat));
        text
    }
}

/// Whether a record of `list` has the identifier `id`, and where the first
/// such record stands.
pub fn find_id(list: &Vec<Policy>, id: &String) -> (found: Option<usize>)
    ensures
        match found {
            Some(at) => at < list@.len() && list@[at as int].id@ == id@ && forall|j: int|
                0 <= j < at ==> (#[trigger] list@[j]).id@ != id@,
            None => forall|j: int| 0 <= j < list@.len() ==> (#[trigger] list@[j]).id@ != id@,
        },
{
    let mut i: usize = 0;
    while i < list.len()
        invariant
            i <= list@.len(),
            forall|j: int| 0 <= j < i ==> (#[trigger] list@[j]).id@ != id@,
        decreases list@.len() - i,
    {
        if list[i].id == *id {
            return Some(i);
        }
        i += 1;
    }
    None
}

/// The identifier for a record that came without one: the first candidate
/// that no record of `list` has.
pub fn generate_id(list: &Vec<Policy>) -> (id: String)
    ensures
        id@ == generated_id(policy_views(list@)),
{
    let ghost views = policy_views(list@);
    let count: usize = list.len();
    let mut k: usize = 0;
    loop
        invariant
            k <= count == list@.len(),
            views == policy_views(list@),
            forall|j: nat| j < k ==> has_id(views, #[trigger] candidate_id(j)),
        decreases list@.len() - k,
    {
        let id = String::from_str("policy").concat(decimal_text(k).as_str());
        match find_id(list, &id) {
            None => {
                proof {
                    if has_id(views, id@) {
                        let i = choose|i: int|
                            0 <= i < views.len() && #[trigger] views[i].id == id@;
                        assert(list@[i].id@ == id@);
                    }
                    assert(id@ == candidate_id(k as nat));
                    lemma_first_unused_is(views, k as nat);
                }
                return id;
            },
            Some(at) => {
                proof {
                    assert(views[at as int].id == candidate_id(k as nat));
                    assert(has_id(views, candidate_id(k as nat)));
                    lemma_candidates_in_use(views, (k + 1) as nat);
                    assert(views.len() == list@.len());
                }
                k += 1;
            },
        }
    }
}

} // verus!
