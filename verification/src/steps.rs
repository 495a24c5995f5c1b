//! Work that is done step by step, each step by the caller, who says how it went.

use vstd::prelude::*;

verus! {

/// What is to be done next.
pub enum Next<S> {
    /// Run this step, and say how it went.
    Run(S),
    /// Nothing: all steps went well.
    Finished,
    /// Nothing: a step failed, and this is what to say of it.
    Failed(String),
}

/// What a [`Next`] stands for.
pub ghost enum NextView<S> {
    Run(S),
    Finished,
    Failed(Seq<char>),
}

impl<S> View for Next<S> {
    type V = NextView<S>;

    open spec fn view(&self) -> NextView<S> {
        match *self {
            Next::Run(step) => NextView::Run(step),
            Next::Finished => NextView::Finished,
            Next::Failed(text) => NextView::Failed(text@),
        }
    }
}

/// What a [`Next`] stands for tells the step, the end and the failure apart, and what they hold.
pub proof fn lemma_next_view<S>(next: Next<S>)
    ensures
        match next {
            Next::Run(step) => next@ == NextView::Run(step),
            Next::Finished => next@ is Finished,
            Next::Failed(text) => next@ == NextView::<S>::Failed(text@),
        },
{
}

/// How a step went: well, or not, with a reason.
pub type Outcome = Result<(), Seq<char>>;

/// Where a run stands after some outcomes. `advance` says what follows a step and its outcome;
/// outcomes after the end change nothing.
pub open spec fn run<S>(
    advance: spec_fn(S, Outcome) -> NextView<S>,
    first: S,
    outcomes: Seq<Outcome>,
) -> NextView<S>
    decreases outcomes.len(),
{
    if outcomes.len() == 0 {
        NextView::Run(first)
    } else {
        match run(advance, first, outcomes.drop_last()) {
            NextView::Run(step) => advance(step, outcomes.last()),
            end => end,
        }
    }
}

/// `advance` takes the steps of `plan` in their order, ends after the last, and ends at the first
/// that fails with the text that `failure` makes of the step and the reason.
pub open spec fn follows<S>(
    advance: spec_fn(S, Outcome) -> NextView<S>,
    plan: Seq<S>,
    failure: spec_fn(S, Seq<char>) -> Seq<char>,
) -> bool {
    &&& plan.len() > 0
    &&& forall|i: int|
        0 <= i < plan.len() ==> #[trigger] advance(plan[i], Ok(())) == if i + 1 < plan.len() {
            NextView::Run(plan[i + 1])
        } else {
            NextView::Finished
        }
    &&& forall|i: int, reason: Seq<char>|
        0 <= i < plan.len() ==> #[trigger] advance(plan[i], Err(reason)) == NextView::<S>::Failed(
            failure(plan[i], reason),
        )
}

/// The first `n` outcomes are all good.
pub open spec fn good(outcomes: Seq<Outcome>, n: int) -> bool {
    n <= outcomes.len() && forall|i: int| 0 <= i < n ==> outcomes[i] is Ok
}

/// The first outcome that is not good is the one at `k`.
pub open spec fn fails_at(outcomes: Seq<Outcome>, k: int) -> bool {
    0 <= k < outcomes.len() && good(outcomes, k) && outcomes[k] is Err
}

/// `end` is where the steps of a plan lead: all of them went well; or one failed, the first of
/// them, and it is told why; or those that were run went well, and the next one is waited for.
pub open spec fn planned<S>(
    plan: Seq<S>,
    failure: spec_fn(S, Seq<char>) -> Seq<char>,
    outcomes: Seq<Outcome>,
    end: NextView<S>,
) -> bool {
    match end {
        NextView::Finished => good(outcomes, plan.len() as int),
        NextView::Failed(text) => exists|k: int|
            0 <= k < plan.len() && #[trigger] fails_at(outcomes, k) && text == failure(
                plan[k],
                outcomes[k]->Err_0,
            ),
        NextView::Run(step) => {
            &&& outcomes.len() < plan.len()
            &&& good(outcomes, outcomes.len() as int)
            &&& step == plan[outcomes.len() as int]
        },
    }
}

/// A run that follows a plan ends where the steps of the plan lead.
pub proof fn lemma_run<S>(
    advance: spec_fn(S, Outcome) -> NextView<S>,
    plan: Seq<S>,
    failure: spec_fn(S, Seq<char>) -> Seq<char>,
    outcomes: Seq<Outcome>,
)
    requires
        follows(advance, plan, failure),
    ensures
        planned(plan, failure, outcomes, run(advance, plan[0], outcomes)),
        run(advance, plan[0], outcomes) is Finished <==> good(outcomes, plan.len() as int),
    decreases outcomes.len(),
{
    if outcomes.len() > 0 {
        let before = outcomes.drop_last();
        let last = outcomes.len() - 1;
        lemma_run(advance, plan, failure, before);
        assert(forall|i: int|
            #![trigger before[i]]
            #![trigger outcomes[i]]
            0 <= i < last ==> before[i] == outcomes[i]);
        match run(advance, plan[0], before) {
            NextView::Run(step) => {
                assert(good(outcomes, last));
                match outcomes.last() {
                    Ok(done) => {
                        assert(done == ());
                        assert(advance(plan[last], Ok(())) == advance(step, outcomes.last()));
                    },
                    Err(reason) => {
                        assert(fails_at(outcomes, last));
                        assert(advance(plan[last], Err(reason)) is Failed);
                    },
                }
            },
            NextView::Failed(text) => {
                let k = choose|k: int|
                    0 <= k < plan.len() && #[trigger] fails_at(before, k) && text == failure(
                        plan[k],
                        before[k]->Err_0,
                    );
                assert(fails_at(outcomes, k));
            },
            NextView::Finished => {},
        }
    }
}

}
