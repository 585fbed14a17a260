//! Adding up the bytes that Streams move.
//!
//! A Phase's Throughput is the sum of the bytes of all of its Streams, and a Stream's
//! count is the sum of the chunks it moved. Streams finish in whatever order the network
//! lets them, so the sum is shown not to depend on that order; and the first Stream that
//! fails ends the Phase with its error.
use vstd::prelude::*;
use vstd::seq_lib::{group_to_multiset_ensures, to_multiset_contains};

verus! {

/// The sum of a sequence of byte counts.
pub open spec fn total_of(parts: Seq<u64>) -> int
    decreases parts.len(),
{
    if parts.len() == 0 {
        0
    } else {
        total_of(parts.drop_last()) + parts.last()
    }
}

/// The sum of two sequences laid end to end is the sum of their sums.
pub proof fn lemma_total_of_concat(first: Seq<u64>, second: Seq<u64>)
    ensures
        total_of(first + second) == total_of(first) + total_of(second),
    decreases second.len(),
{
    if second.len() == 0 {
        assert(first + second =~= first);
    } else {
        lemma_total_of_concat(first, second.drop_last());
        assert((first + second).drop_last() =~= first + second.drop_last());
    }
}

/// Taking one count out of a sequence takes exactly that much off its sum.
pub proof fn lemma_total_of_remove(parts: Seq<u64>, i: int)
    requires
        0 <= i < parts.len(),
    ensures
        total_of(parts) == total_of(parts.remove(i)) + parts[i],
{
    let before = parts.take(i);
    let after = parts.skip(i + 1);
    assert(parts =~= (before + seq![parts[i]]) + after);
    assert(parts.remove(i) =~= before + after);
    lemma_total_of_concat(before + seq![parts[i]], after);
    lemma_total_of_concat(before, seq![parts[i]]);
    lemma_total_of_concat(before, after);
    assert((before + seq![parts[i]]).drop_last() =~= before);
    assert(seq![parts[i]].drop_last() =~= Seq::<u64>::empty());
}

/// The sum of byte counts does not depend on the order in which they arrive: two
/// sequences that hold the same counts have the same sum.
pub proof fn lemma_total_ignores_arrival_order(first: Seq<u64>, second: Seq<u64>)
    requires
        first.to_multiset() == second.to_multiset(),
    ensures
        total_of(first) == total_of(second),
    decreases first.len(),
{
    broadcast use group_to_multiset_ensures;
    broadcast use vstd::multiset::group_multiset_axioms;

    if first.len() == 0 {
        assert(second.to_multiset().len() == 0);
        assert(second =~= Seq::<u64>::empty());
    } else {
        let x: u64 = first.last();
        let rest = first.drop_last();
        assert(first =~= rest.push(x));
        assert(first.contains(x));
        to_multiset_contains(first, x);
        to_multiset_contains(second, x);
        let i: int = choose|i: int| 0 <= i < second.len() && second[i] == x;
        let others = second.remove(i);
        assert(rest.to_multiset() =~= first.to_multiset().remove(x));
        assert(others.to_multiset() =~= second.to_multiset().remove(x));
        lemma_total_ignores_arrival_order(rest, others);
        lemma_total_of_remove(second, i);
    }
}

/// What a Phase does after one of its Streams has been joined.
#[derive(Debug)]
pub enum JoinStep<E> {
    /// The Stream moved its bytes; wait for the next one.
    KeepJoining,
    /// The Stream failed: abort the Streams still running and end the Phase with this error.
    AbortAll(E),
}

/// A running sum of byte counts, which remembers (for the proofs) every count added.
pub struct ByteTally {
    total: u64,
    parts: Ghost<Seq<u64>>,
}

impl ByteTally {
    #[verifier::type_invariant]
    spec fn total_matches_parts(self) -> bool {
        self.total == total_of(self.parts@)
    }

    /// The counts added so far, in the order they were added.
    pub closed spec fn view(&self) -> Seq<u64> {
        self.parts@
    }

    /// A tally to which nothing has been added.
    pub fn new() -> (tally: Self)
        ensures
            tally.view() == Seq::<u64>::empty(),
    {
        ByteTally { total: 0, parts: Ghost(Seq::empty()) }
    }

    /// The sum of every count added so far.
    pub fn total(&self) -> (sum: u64)
        ensures
            sum == total_of(self.view()),
    {
        proof {
            use_type_invariant(self);
        }
        self.total
    }

    /// Adds `bytes` to the tally. The sum must stay within `u64`.
    pub fn add(&mut self, bytes: u64)
        requires
            total_of(old(self).view()) + bytes <= u64::MAX,
        ensures
            final(self).view() == old(self).view().push(bytes),
    {
        proof {
            use_type_invariant(&*self);
        }
        let ghost parts = self.parts@.push(bytes);
        proof {
            assert(parts.drop_last() =~= self.parts@);
        }
        *self = ByteTally { total: self.total + bytes, parts: Ghost(parts) };
    }

    /// Takes in what one joined Stream reported: its byte count is added, or its error
    /// ends the Phase and is handed back with the instruction to abort the rest.
    pub fn absorb<E>(&mut self, outcome: Result<u64, E>) -> (step: JoinStep<E>)
        requires
            outcome matches Ok(bytes) ==> total_of(old(self).view()) + bytes <= u64::MAX,
        ensures
            match outcome {
                Ok(bytes) => final(self).view() == old(self).view().push(bytes)
                    && step is KeepJoining,
                Err(error) => final(self).view() == old(self).view() && step == JoinStep::<
                    E,
                >::AbortAll(error),
            },
    {
        match outcome {
            Ok(bytes) => {
                self.add(bytes);
                JoinStep::KeepJoining
            },
            Err(error) => JoinStep::AbortAll(error),
        }
    }
}

} // verus!
