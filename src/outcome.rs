use vstd::prelude::*;

verus! {

/// What became of one request.
#[derive(Clone, Copy, Debug, PartialEq, Eq, Structural)]
pub enum Outcome {
    /// A response arrived: how long it took, in nanoseconds, and its status code.
    Success { duration: u64, status: u16 },
    /// The transport failed; no duration is measured for such a request.
    Failure,
}

/// Left fold of `f` over the outcomes with the binary operation `op`, starting at `base`.
pub open spec fn fold(
    s: Seq<Outcome>,
    base: nat,
    f: spec_fn(Outcome) -> nat,
    op: spec_fn(nat, nat) -> nat,
) -> nat
    decreases s.len(),
{
    if s.len() == 0 {
        base
    } else {
        op(fold(s.drop_last(), base, f, op), f(s.last()))
    }
}

/// Two right operands of `op` may be applied in either order.
pub open spec fn swappable(op: spec_fn(nat, nat) -> nat) -> bool {
    forall|a: nat, b: nat, c: nat| #[trigger] op(op(a, b), c) == op(op(a, c), b)
}

pub open spec fn add_op() -> spec_fn(nat, nat) -> nat {
    |a: nat, b: nat| a + b
}

pub open spec fn max_op() -> spec_fn(nat, nat) -> nat {
    |a: nat, b: nat| if a >= b { a } else { b }
}

pub open spec fn min_op() -> spec_fn(nat, nat) -> nat {
    |a: nat, b: nat| if a <= b { a } else { b }
}

/// Duration of a success; `absent` for a failure.
pub open spec fn duration_or(o: Outcome, absent: nat) -> nat {
    match o {
        Outcome::Success { duration, .. } => duration as nat,
        Outcome::Failure => absent,
    }
}

/// Number of successes.
pub open spec fn success_count(s: Seq<Outcome>) -> nat {
    fold(s, 0, |o: Outcome| if o is Success { 1nat } else { 0nat }, add_op())
}

/// Number of failures.
pub open spec fn failure_count(s: Seq<Outcome>) -> nat {
    fold(s, 0, |o: Outcome| if o is Failure { 1nat } else { 0nat }, add_op())
}

/// Sum of the durations of the successes.
pub open spec fn total_of(s: Seq<Outcome>) -> nat {
    fold(s, 0, |o: Outcome| duration_or(o, 0), add_op())
}

/// Longest duration of a success; zero when there is none.
pub open spec fn slowest_of(s: Seq<Outcome>) -> nat {
    fold(s, 0, |o: Outcome| duration_or(o, 0), max_op())
}

/// Shortest duration of a success; `u64::MAX` when there is none.
pub open spec fn fastest_of(s: Seq<Outcome>) -> nat {
    fold(s, u64::MAX as nat, |o: Outcome| duration_or(o, u64::MAX as nat), min_op())
}

/// Number of successes whose status code is `code`.
pub open spec fn code_count(s: Seq<Outcome>, code: u16) -> nat {
    fold(
        s,
        0,
        |o: Outcome|
            match o {
                Outcome::Success { status, .. } => if status == code { 1nat } else { 0nat },
                Outcome::Failure => 0nat,
            },
        add_op(),
    )
}

pub(crate) proof fn lemma_ops_swappable()
    ensures
        swappable(add_op()),
        swappable(max_op()),
        swappable(min_op()),
{
}

/// Every outcome is a success or a failure.
pub proof fn lemma_counts_split(s: Seq<Outcome>)
    ensures
        success_count(s) + failure_count(s) == s.len(),
    decreases s.len(),
{
    if s.len() > 0 {
        lemma_counts_split(s.drop_last());
    }
}

/// Taking one outcome out of the sequence and applying it last changes nothing.
proof fn lemma_fold_remove(
    s: Seq<Outcome>,
    base: nat,
    f: spec_fn(Outcome) -> nat,
    op: spec_fn(nat, nat) -> nat,
    i: int,
)
    requires
        swappable(op),
        0 <= i < s.len(),
    ensures
        fold(s, base, f, op) == op(fold(s.remove(i), base, f, op), f(s[i])),
    decreases s.len(),
{
    if i == s.len() - 1 {
        assert(s.remove(i) =~= s.drop_last());
    } else {
        lemma_fold_remove(s.drop_last(), base, f, op, i);
        assert(s.remove(i).drop_last() =~= s.drop_last().remove(i));
        assert(s.remove(i).last() == s.last());
        let r = fold(s.drop_last().remove(i), base, f, op);
        assert(op(op(r, f(s[i])), f(s.last())) == op(op(r, f(s.last())), f(s[i])));
    }
}

/// A fold with a swappable operation depends on the multiset of outcomes only.
pub proof fn lemma_fold_permutation(
    s1: Seq<Outcome>,
    s2: Seq<Outcome>,
    base: nat,
    f: spec_fn(Outcome) -> nat,
    op: spec_fn(nat, nat) -> nat,
)
    requires
        swappable(op),
        s1.to_multiset() == s2.to_multiset(),
    ensures
        fold(s1, base, f, op) == fold(s2, base, f, op),
    decreases s1.len(),
{
    broadcast use vstd::seq_lib::group_to_multiset_ensures;

    if s1.len() == 0 {
        assert(s2.to_multiset().len() == 0);
        assert(s2 =~= s1);
    } else {
        let x = s1.last();
        let rest = s1.drop_last();
        assert(s1 =~= rest.push(x));
        assert(s1.to_multiset() =~= rest.to_multiset().insert(x));
        assert(s2.to_multiset().count(x) > 0);
        assert(s2.contains(x));
        let j = choose|j: int| 0 <= j < s2.len() && s2[j] == x;
        lemma_fold_remove(s2, base, f, op, j);
        assert(s2.remove(j).to_multiset() =~= rest.to_multiset());
        lemma_fold_permutation(rest, s2.remove(j), base, f, op);
    }
}

} // verus!
