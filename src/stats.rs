use std::collections::HashMap;
use vstd::prelude::*;

use crate::outcome::{
    add_op, code_count, duration_or, failure_count, fastest_of, lemma_counts_split,
    lemma_fold_permutation, lemma_ops_swappable, max_op, min_op, slowest_of, success_count,
    total_of, Outcome,
};

verus! {

broadcast use vstd::std_specs::hash::group_hash_axioms;

/// Summary of a run. Durations are in nanoseconds.
#[derive(Debug)]
pub struct Stats {
    pub slowest: u64,
    pub fastest: u64,
    pub average: u64,
    pub total: u128,
    /// Successful requests.
    pub count: u32,
    /// Failed requests.
    pub errors: u32,
    /// Occurrences of each status code among the successes.
    pub status_codes: HashMap<u16, u32>,
}

/// Mean duration of the successes, truncated; zero when there is none.
pub open spec fn average_of(s: Seq<Outcome>) -> nat {
    if success_count(s) > 0 {
        total_of(s) / success_count(s)
    } else {
        0
    }
}

/// `st` is the summary of the outcomes `s`.
pub open spec fn summarizes(st: Stats, s: Seq<Outcome>) -> bool {
    &&& st.count == success_count(s)
    &&& st.errors == failure_count(s)
    &&& st.total == total_of(s)
    &&& st.slowest == slowest_of(s)
    &&& st.fastest == fastest_of(s)
    &&& st.average == average_of(s)
    &&& forall|c: u16| #[trigger] st.status_codes@.contains_key(c) <==> code_count(s, c) > 0
    &&& forall|c: u16|
        st.status_codes@.contains_key(c) ==> #[trigger] st.status_codes@[c] == code_count(s, c)
}

proof fn lemma_code_count_bounded(s: Seq<Outcome>, c: u16)
    ensures
        code_count(s, c) <= s.len(),
    decreases s.len(),
{
    if s.len() > 0 {
        lemma_code_count_bounded(s.drop_last(), c);
    }
}

proof fn lemma_average_bounded(total: nat, count: nat, slowest: nat)
    requires
        count > 0,
        total <= count * slowest,
    ensures
        total / count <= slowest,
{
    assert(total / count <= slowest) by (nonlinear_arith)
        requires
            count > 0,
            total <= count * slowest,
    ;
}

/// Folds the outcomes of a run into its summary.
pub fn aggregate(outcomes: &Vec<Outcome>) -> (st: Stats)
    requires
        outcomes.len() <= u32::MAX,
    ensures
        summarizes(st, outcomes@),
        st.count + st.errors == outcomes.len(),
        st.count > 0 ==> st.average as nat == (st.total as nat) / (st.count as nat),
        st.count == 0 ==> st.average == 0,
{
    let mut count: u32 = 0;
    let mut errors: u32 = 0;
    let mut total: u128 = 0;
    let mut slowest: u64 = 0;
    let mut fastest: u64 = u64::MAX;
    let mut status_codes: HashMap<u16, u32> = HashMap::new();
    let n = outcomes.len();
    let mut i: usize = 0;
    while i < n
        invariant
            n == outcomes.len(),
            n <= u32::MAX,
            0 <= i <= n,
            count == success_count(outcomes@.subrange(0, i as int)),
            errors == failure_count(outcomes@.subrange(0, i as int)),
            total == total_of(outcomes@.subrange(0, i as int)),
            slowest == slowest_of(outcomes@.subrange(0, i as int)),
            fastest == fastest_of(outcomes@.subrange(0, i as int)),
            count + errors == i,
            total <= (count as nat) * (slowest as nat),
            forall|c: u16| #[trigger]
                status_codes@.contains_key(c) <==> code_count(
                    outcomes@.subrange(0, i as int),
                    c,
                ) > 0,
            forall|c: u16|
                status_codes@.contains_key(c) ==> #[trigger] status_codes@[c] == code_count(
                    outcomes@.subrange(0, i as int),
                    c,
                ),
        decreases n - i,
    {
        let ghost prev = outcomes@.subrange(0, i as int);
        let ghost next = outcomes@.subrange(0, i as int + 1);
        proof {
            assert(next.drop_last() =~= prev);
            assert(next.last() == outcomes@[i as int]);
            lemma_counts_split(prev);
        }
        match outcomes[i] {
            Outcome::Failure => {
                errors = errors + 1;
            },
            Outcome::Success { duration, status } => {
                proof {
                    assert(total + duration <= (count as nat + 1) * (if slowest >= duration {
                        slowest as nat
                    } else {
                        duration as nat
                    })) by (nonlinear_arith)
                        requires
                            total <= (count as nat) * (slowest as nat),
                    ;
                    assert((count as nat) * (slowest as nat) <= (n as nat) * (u64::MAX as nat))
                        by (nonlinear_arith)
                        requires
                            count <= n,
                            slowest <= u64::MAX,
                    ;
                    assert((n as nat) * (u64::MAX as nat) <= (u32::MAX as nat) * (u64::MAX as nat))
                        by (nonlinear_arith)
                        requires
                            n <= u32::MAX,
                    ;
                }
                count = count + 1;
                total = total + duration as u128;
                if duration > slowest {
                    slowest = duration;
                }
                if duration < fastest {
                    fastest = duration;
                }
                proof {
                    lemma_code_count_bounded(prev, status);
                }
                let seen: u32 = match status_codes.get(&status) {
                    Some(v) => *v,
                    None => 0,
                };
                status_codes.insert(status, seen + 1);
                assert forall|c: u16|
                    #[trigger] status_codes@.contains_key(c) <==> code_count(next, c) > 0 by {}
            },
        }
        i = i + 1;
    }
    proof {
        assert(outcomes@.subrange(0, n as int) =~= outcomes@);
        if count > 0 {
            lemma_average_bounded(total as nat, count as nat, slowest as nat);
        }
    }
    let average: u64 = if count > 0 {
        (total / count as u128) as u64
    } else {
        0
    };
    Stats { slowest, fastest, average, total, count, errors, status_codes }
}

/// The summary does not depend on the order in which the outcomes arrived: two
/// collections holding the same outcomes, each as often, have the same counts,
/// durations and status-code histogram.
pub proof fn lemma_summary_order_independent(s1: Seq<Outcome>, s2: Seq<Outcome>)
    requires
        s1.to_multiset() == s2.to_multiset(),
    ensures
        success_count(s1) == success_count(s2),
        failure_count(s1) == failure_count(s2),
        total_of(s1) == total_of(s2),
        slowest_of(s1) == slowest_of(s2),
        fastest_of(s1) == fastest_of(s2),
        average_of(s1) == average_of(s2),
        forall|c: u16| #[trigger] code_count(s1, c) == code_count(s2, c),
{
    lemma_ops_swappable();
    let one_if_success = |o: Outcome| if o is Success { 1nat } else { 0nat };
    let one_if_failure = |o: Outcome| if o is Failure { 1nat } else { 0nat };
    lemma_fold_permutation(s1, s2, 0, one_if_success, add_op());
    lemma_fold_permutation(s1, s2, 0, one_if_failure, add_op());
    lemma_fold_permutation(s1, s2, 0, |o: Outcome| duration_or(o, 0), add_op());
    lemma_fold_permutation(s1, s2, 0, |o: Outcome| duration_or(o, 0), max_op());
    lemma_fold_permutation(
        s1,
        s2,
        u64::MAX as nat,
        |o: Outcome| duration_or(o, u64::MAX as nat),
        min_op(),
    );
    assert forall|c: u16| #[trigger] code_count(s1, c) == code_count(s2, c) by {
        lemma_fold_permutation(
            s1,
            s2,
            0,
            |o: Outcome|
                match o {
                    Outcome::Success { status, .. } => if status == c { 1nat } else { 0nat },
                    Outcome::Failure => 0nat,
                },
            add_op(),
        );
    }
}

/// Two collections of the same outcomes, in any order, aggregate to equal summaries.
pub proof fn lemma_aggregate_order_independent(st1: Stats, st2: Stats, s1: Seq<Outcome>, s2: Seq<Outcome>)
    requires
        s1.to_multiset() == s2.to_multiset(),
        summarizes(st1, s1),
        summarizes(st2, s2),
    ensures
        st1.count == st2.count,
        st1.errors == st2.errors,
        st1.total == st2.total,
        st1.slowest == st2.slowest,
        st1.fastest == st2.fastest,
        st1.average == st2.average,
        st1.status_codes@ == st2.status_codes@,
{
    lemma_summary_order_independent(s1, s2);
    assert(st1.status_codes@ =~= st2.status_codes@);
}

} // verus!
