//! An ordered registry of event listeners, and the rule by which the
//! outcomes of one round of notifications are combined.

use vstd::prelude::*;

verus! {

/// Listeners in the order in which they were added.
pub struct EventDispatcher<L> {
    listeners: Vec<L>,
}

impl<L> View for EventDispatcher<L> {
    type V = Seq<L>;

    closed spec fn view(&self) -> Seq<L> {
        self.listeners@
    }
}

impl<L> EventDispatcher<L> {
    /// A dispatcher with no listeners.
    pub fn new() -> (r: Self)
        ensures
            r@ == Seq::<L>::empty(),
    {
        EventDispatcher { listeners: Vec::new() }
    }

    /// Adds a listener after all those already added.
    pub fn add_listener(&mut self, listener: L)
        ensures
            final(self)@ == old(self)@.push(listener),
    {
        self.listeners.push(listener);
    }

    /// The number of listeners.
    pub fn len(&self) -> (r: usize)
        ensures
            r == self@.len(),
    {
        self.listeners.len()
    }

    /// The listeners, in order, to be notified together.
    pub fn listeners_mut(&mut self) -> (r: &mut Vec<L>)
        ensures
            r@ == old(self)@,
            final(self)@ == final(r)@,
    {
        &mut self.listeners
    }
}

/// The outcome of a round of notifications whose results, in listener order,
/// are `results`: success when every listener succeeded, else the error of
/// the first listener that failed.
pub open spec fn round_outcome<E>(results: Seq<Result<(), E>>) -> Result<(), E>
    decreases results.len(),
{
    if results.len() == 0 {
        Ok(())
    } else {
        match results[0] {
            Err(e) => Err(e),
            Ok(_) => round_outcome(results.drop_first()),
        }
    }
}

/// When the first `i` results succeeded, the outcome is that of the rest.
proof fn lemma_round_outcome_skip<E>(results: Seq<Result<(), E>>, i: int)
    requires
        0 <= i <= results.len(),
        forall|k: int| 0 <= k < i ==> results[k] is Ok,
    ensures
        round_outcome(results) == round_outcome(results.subrange(i, results.len() as int)),
    decreases i,
{
    if i > 0 {
        let rest = results.drop_first();
        assert forall|k: int| 0 <= k < i - 1 implies rest[k] is Ok by {
            assert(rest[k] == results[k + 1]);
        }
        lemma_round_outcome_skip(rest, i - 1);
        assert(rest.subrange(i - 1, rest.len() as int) =~= results.subrange(
            i,
            results.len() as int,
        ));
    } else {
        assert(results.subrange(0, results.len() as int) =~= results);
    }
}

/// When every listener succeeded, the round succeeds.
pub proof fn lemma_round_outcome_all_ok<E>(results: Seq<Result<(), E>>)
    requires
        forall|k: int| 0 <= k < results.len() ==> #[trigger] results[k] is Ok,
    ensures
        round_outcome(results) == Ok::<(), E>(()),
    decreases results.len(),
{
    if results.len() > 0 {
        let rest = results.drop_first();
        assert(results[0] is Ok);
        assert forall|k: int| 0 <= k < rest.len() implies #[trigger] rest[k] is Ok by {
            assert(rest[k] == results[k + 1]);
        }
        lemma_round_outcome_all_ok(rest);
    }
}

/// When listener `i` is the first to fail, the round fails with its error.
pub proof fn lemma_round_outcome_first_error<E>(results: Seq<Result<(), E>>, i: int)
    requires
        0 <= i < results.len(),
        results[i] is Err,
        forall|k: int| 0 <= k < i ==> #[trigger] results[k] is Ok,
    ensures
        round_outcome(results) == results[i],
{
    lemma_round_outcome_skip(results, i);
    let rest = results.subrange(i, results.len() as int);
    assert(rest[0] == results[i]);
}

/// The round succeeds only when every listener succeeded.
pub proof fn lemma_round_outcome_ok_only_if_all_ok<E>(results: Seq<Result<(), E>>)
    requires
        round_outcome(results) is Ok,
    ensures
        forall|k: int| 0 <= k < results.len() ==> #[trigger] results[k] is Ok,
    decreases results.len(),
{
    if results.len() > 0 {
        let rest = results.drop_first();
        lemma_round_outcome_ok_only_if_all_ok(rest);
        assert forall|k: int| 0 <= k < results.len() implies #[trigger] results[k] is Ok by {
            if k > 0 {
                assert(results[k] == rest[k - 1]);
            }
        }
    }
}

/// A round whose last listener fails and whose others succeed fails with the
/// last listener's error.
pub proof fn lemma_round_outcome_last_error<E>(results: Seq<Result<(), E>>, e: E)
    requires
        results.len() > 0,
        results.last() == Err::<(), E>(e),
        forall|k: int| 0 <= k < results.len() - 1 ==> #[trigger] results[k] is Ok,
    ensures
        round_outcome(results) == Err::<(), E>(e),
{
    lemma_round_outcome_first_error(results, results.len() - 1);
}

/// Combines the results of one round of notifications, given in listener
/// order: `Ok` when all succeeded, else the first error.
pub fn trigger_result<E>(outcomes: Vec<Result<(), E>>) -> (r: Result<(), E>)
    ensures
        r == round_outcome(outcomes@),
        r is Ok <==> forall|k: int| 0 <= k < outcomes@.len() ==> #[trigger] outcomes@[k] is Ok,
        r is Err ==> exists|i: int|
            0 <= i < outcomes@.len() && outcomes@[i] == r && forall|k: int|
                0 <= k < i ==> #[trigger] outcomes@[k] is Ok,
{
    let ghost all = outcomes@;
    let mut results = outcomes;
    let n = results.len();
    let mut i: usize = 0;
    while i < n
        invariant
            n == results.len(),
            results@ == all,
            all == outcomes@,
            i <= n,
            forall|k: int| 0 <= k < i ==> all[k] is Ok,
        decreases n - i,
    {
        if results[i].is_err() {
            proof {
                lemma_round_outcome_first_error(all, i as int);
            }
            let failed = results.remove(i);
            assert(failed == all[i as int]);
            return failed;
        }
        i = i + 1;
    }
    proof {
        lemma_round_outcome_all_ok(all);
    }
    Ok(())
}


/// A listener that prints every event it receives, tagged as the first.
pub struct PrintListener1;

/// A listener that prints every event it receives, tagged as the second.
pub struct PrintListener2;

impl PrintListener1 {
    /// The line printed for an event carrying `data`.
    pub fn message(&self, data: &str) -> (r: String)
        ensures
            r@ == "PrintListener1 received data: "@ + data@,
    {
        let mut line = "PrintListener1 received data: ".to_owned();
        line.append(data);
        line
    }
}

impl PrintListener2 {
    /// The line printed for an event carrying `data`.
    pub fn message(&self, data: &str) -> (r: String)
        ensures
            r@ == "PrintListener2 received data: "@ + data@,
    {
        let mut line = "PrintListener2 received data: ".to_owned();
        line.append(data);
        line
    }
}

} // verus!
