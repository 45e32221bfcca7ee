//! Checking a batch of prompts from the command line.
//!
//! Non-English prompts are rejected on the spot; English prompts go to the
//! classifier, which is loaded once, when the first English prompt needs
//! it. The batch fails when any prompt is rejected or judged an injection.
//! Loading and running the classifier are the caller's work: `CheckBatch`
//! says what to do next and takes back what came of it.
use vstd::prelude::*;

use crate::inputs::{collect_check_items, collected, items_view, ArgInput, CheckItem, InputError};
use crate::language::{english, is_english};
use crate::types::CheckResult;

verus! {

/// How a batch of checks ended.
#[derive(Debug, Clone, Copy, PartialEq, Eq, Structural)]
pub enum CheckBatchOutcome {
    /// Every prompt was English and judged safe.
    Passed,
    /// Some prompt was rejected or judged an injection.
    Failed,
}

/// What one prompt needs next.
#[derive(Debug)]
pub enum PromptStep {
    /// The answer is known without the classifier.
    Answer(CheckResult),
    /// The classifier has to be loaded first.
    LoadModel,
    /// The classifier has to judge the prompt.
    Classify,
}

/// The next step for one prompt: a rejection when its text is not English
/// (the classifier is not needed), else loading the classifier when it is
/// not loaded yet, else classification.
pub fn check_one_prompt(item: &CheckItem, model_loaded: bool) -> (s: PromptStep)
    ensures
        !english(item.text@) ==> (s matches PromptStep::Answer(r) && r.is_rejection()),
        english(item.text@) && !model_loaded ==> s is LoadModel,
        english(item.text@) && model_loaded ==> s is Classify,
{
    if !is_english(item.text.as_str()) {
        return PromptStep::Answer(CheckResult::rejected_non_english());
    }
    if !model_loaded {
        PromptStep::LoadModel
    } else {
        PromptStep::Classify
    }
}

/// Whether a result fails the batch.
pub open spec fn fails(r: CheckResult) -> bool {
    r.rejected || r.is_injection
}

/// `Failed` when some result is a rejection or an injection, else `Ok`.
pub open spec fn outcome_of(results: Seq<CheckResult>) -> CheckBatchOutcome {
    if exists|k: int| 0 <= k < results.len() && #[trigger] fails(results[k]) {
        CheckBatchOutcome::Failed
    } else {
        CheckBatchOutcome::Passed
    }
}

/// A batch fails as soon as one of its prompts was rejected or judged an
/// injection (the program then exits with status 1).
pub proof fn law_one_failure_fails_the_batch(results: Seq<CheckResult>, k: int)
    requires
        0 <= k < results.len(),
        results[k].rejected || results[k].is_injection,
    ensures
        outcome_of(results) == CheckBatchOutcome::Failed,
{
    assert(fails(results[k]));
}

/// A batch passes exactly when every prompt was accepted and judged safe.
pub proof fn law_batch_passes_when_all_safe(results: Seq<CheckResult>)
    ensures
        (outcome_of(results) == CheckBatchOutcome::Passed) <==> (forall|k: int|
            0 <= k < results.len() ==> !results[k].rejected && !results[k].is_injection),
{
    if outcome_of(results) == CheckBatchOutcome::Passed {
        assert forall|k: int| 0 <= k < results.len() implies !results[k].rejected
            && !results[k].is_injection by {
            assert(!fails(results[k]));
        }
    }
}

/// The outcome of a finished batch.
pub fn batch_outcome(results: &Vec<CheckResult>) -> (o: CheckBatchOutcome)
    ensures
        o == outcome_of(results@),
{
    let mut i: usize = 0;
    while i < results.len()
        invariant
            i <= results.len(),
            forall|k: int| 0 <= k < i ==> !#[trigger] fails(results@[k]),
        decreases results.len() - i,
    {
        if results[i].rejected || results[i].is_injection {
            assert(fails(results@[i as int]));
            return CheckBatchOutcome::Failed;
        }
        i = i + 1;
    }
    CheckBatchOutcome::Passed
}

/// What the caller does next for a batch.
#[derive(Debug, Clone, Copy, PartialEq, Eq, Structural)]
pub enum BatchAction {
    /// Load the classifier, then call `model_ready`.
    LoadModel,
    /// Have the classifier judge the prompt at this index, then `record`
    /// its result.
    Classify(usize),
    /// Every prompt has its result; the batch ended so.
    Finish(CheckBatchOutcome),
}

/// A batch of prompts under way: its items, the results of the first
/// ones, and whether the classifier is loaded.
pub struct CheckBatch {
    items: Vec<CheckItem>,
    results: Vec<CheckResult>,
    model_loaded: bool,
}

impl CheckBatch {
    /// At most one result per prompt, and the result of a non-English
    /// prompt is its rejection.
    pub closed spec fn well_formed(self) -> bool {
        &&& self.results@.len() <= self.items@.len()
        &&& forall|k: int|
            0 <= k < self.results@.len() && !english(#[trigger] self.items@[k].text@) ==> self.results@[k].is_rejection()
    }

    /// The prompts of the batch.
    pub closed spec fn items(self) -> Seq<CheckItem> {
        self.items@
    }

    /// The results so far, one per prompt from the first.
    pub closed spec fn results(self) -> Seq<CheckResult> {
        self.results@
    }

    /// Whether the classifier is loaded.
    pub closed spec fn model_loaded(self) -> bool {
        self.model_loaded
    }

    /// The prompt at `index`.
    pub fn item(&self, index: usize) -> (r: &CheckItem)
        requires
            index < self.items().len(),
        ensures
            *r == self.items()[index as int],
    {
        &self.items[index]
    }

    /// The number of prompts.
    pub fn len(&self) -> (n: usize)
        ensures
            n == self.items().len(),
    {
        self.items.len()
    }

    /// The results so far.
    pub fn results_so_far(&self) -> (r: &Vec<CheckResult>)
        ensures
            r@ == self.results(),
    {
        &self.results
    }

    /// Answers what it can without the classifier and says what the
    /// caller does next: the prompts from the first without a result are
    /// rejected while they are not English; at the first English one the
    /// classifier is loaded (when it is not) or asked; when every prompt has
    /// its result, the batch finishes with the outcome of the results.
    pub fn next_action(&mut self) -> (a: BatchAction)
        requires
            old(self).well_formed(),
        ensures
            final(self).well_formed(),
            final(self).items() == old(self).items(),
            final(self).model_loaded() == old(self).model_loaded(),
            old(self).results().len() <= final(self).results().len() <= final(self).items().len(),
            final(self).results().subrange(0, old(self).results().len() as int) == old(self).results(),
            forall|k: int|
                old(self).results().len() <= k < final(self).results().len() ==> !english(
                    #[trigger] final(self).items()[k].text@,
                ) && final(self).results()[k].is_rejection(),
            a matches BatchAction::Finish(o) ==> final(self).results().len() == final(self).items().len()
                && o == outcome_of(final(self).results()),
            a is LoadModel ==> final(self).results().len() < final(self).items().len() && english(
                final(self).items()[final(self).results().len() as int].text@,
            ) && !final(self).model_loaded(),
            a matches BatchAction::Classify(i) ==> i == final(self).results().len()
                && i < final(self).items().len() && english(final(self).items()[i as int].text@)
                && final(self).model_loaded(),
    {
        let ghost start = self.results@;
        let mut pending: Option<BatchAction> = None;
        while pending.is_none() && self.results.len() < self.items.len()
            invariant
                self.items@ == old(self).items@,
                self.model_loaded == old(self).model_loaded,
                start == old(self).results@,
                start.len() <= self.results@.len() <= self.items@.len(),
                self.results@.subrange(0, start.len() as int) == start,
                forall|k: int|
                    0 <= k < self.results@.len() && !english(#[trigger] self.items@[k].text@)
                        ==> self.results@[k].is_rejection(),
                forall|k: int|
                    start.len() <= k < self.results@.len() ==> !english(#[trigger] self.items@[k].text@)
                        && self.results@[k].is_rejection(),
                pending matches Some(p) ==> (p is LoadModel || p is Classify),
                pending is Some ==> self.results@.len() < self.items@.len() && english(
                    self.items@[self.results@.len() as int].text@,
                ),
                pending == Some(BatchAction::LoadModel) ==> !self.model_loaded,
                pending matches Some(BatchAction::Classify(i)) ==> i == self.results@.len()
                    && self.model_loaded,
            decreases self.items@.len() - self.results@.len(), if pending is None { 1int } else { 0int },
        {
            let i = self.results.len();
            match check_one_prompt(&self.items[i], self.model_loaded) {
                PromptStep::Answer(r) => {
                    let ghost before = self.results@;
                    self.results.push(r);
                    assert(self.results@.subrange(0, start.len() as int) =~= before.subrange(
                        0,
                        start.len() as int,
                    ));
                },
                PromptStep::LoadModel => {
                    pending = Some(BatchAction::LoadModel);
                },
                PromptStep::Classify => {
                    pending = Some(BatchAction::Classify(i));
                },
            }
        }
        match pending {
            Some(a) => a,
            None => BatchAction::Finish(batch_outcome(&self.results)),
        }
    }

    /// Notes that the classifier is loaded.
    pub fn model_ready(&mut self)
        requires
            old(self).well_formed(),
        ensures
            final(self).well_formed(),
            final(self).items() == old(self).items(),
            final(self).results() == old(self).results(),
            final(self).model_loaded(),
    {
        self.model_loaded = true;
    }

    /// Whether the next prompt without a result is English: it waits for
    /// the classifier.
    pub closed spec fn awaiting_classification(self) -> bool {
        self.results@.len() < self.items@.len() && english(self.items@[self.results@.len() as int].text@)
    }

    /// Records the classifier's result for the next prompt without one.
    pub fn record(&mut self, result: CheckResult)
        requires
            old(self).well_formed(),
            old(self).awaiting_classification(),
        ensures
            final(self).well_formed(),
            final(self).items() == old(self).items(),
            final(self).model_loaded() == old(self).model_loaded(),
            final(self).results() == old(self).results().push(result),
    {
        self.results.push(result);
    }
}

/// Starts checking the prompts of `args` (see `collect_check_items`): no
/// result yet and no classifier loaded, or the error of the arguments.
pub fn run_check_batch(args: &Vec<ArgInput>) -> (r: Result<CheckBatch, InputError>)
    ensures
        r is Ok <==> collected(args@) is Ok,
        r matches Ok(b) ==> collected(args@) == Ok::<Seq<(Seq<char>, Seq<char>)>, InputError>(
            items_view(b.items()),
        ) && b.results().len() == 0 && !b.model_loaded() && b.well_formed(),
        r matches Err(e) ==> collected(args@) == Err::<Seq<(Seq<char>, Seq<char>)>, InputError>(e),
{
    match collect_check_items(args) {
        Ok(items) => Ok(CheckBatch { items, results: Vec::new(), model_loaded: false }),
        Err(e) => Err(e),
    }
}

} // verus!
