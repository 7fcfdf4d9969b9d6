//! Access to the model: batches go to it one at a time, in order, and the one
//! shared model is only touched under its lock.

use std::sync::Mutex;
use std::sync::MutexGuard;
use std::sync::PoisonError;
use vstd::prelude::*;
use crate::error::PipelineError;
use crate::schema::{RawEntity, RawEntityView};

verus! {

/// `answer` is something that `predict` may return when it is called with
/// `model` and a batch whose sentences read `batch`.
pub open spec fn may_answer<M, F: Fn(&M, &[&str]) -> Option<Vec<Vec<RawEntity>>>>(
    model: &M,
    predict: &F,
    batch: Seq<Seq<char>>,
    answer: Option<Seq<Seq<RawEntityView>>>,
) -> bool {
    exists|b: &[&str], a: Option<Vec<Vec<RawEntity>>>|
        #[trigger] call_ensures(*predict, (model, b), a) && b.deep_view() == batch && a.deep_view()
            == answer
}

/// The answer holds exactly one entity list for each sentence of the batch.
pub open spec fn lines_up(batch: Seq<Seq<char>>, answer: Option<Seq<Seq<RawEntityView>>>) -> bool {
    answer matches Some(lists) && lists.len() == batch.len()
}

/// `answers` holds, batch by batch, answers that `predict` may have given
/// and that line up with their batches.
pub open spec fn all_answered<M, F: Fn(&M, &[&str]) -> Option<Vec<Vec<RawEntity>>>>(
    model: &M,
    predict: &F,
    batches: Seq<Seq<Seq<char>>>,
    answers: Seq<Seq<Seq<RawEntityView>>>,
) -> bool {
    &&& answers.len() == batches.len()
    &&& forall|k: int|
        0 <= k < batches.len() ==> (#[trigger] answers[k]).len() == batches[k].len() && may_answer(
            model,
            predict,
            batches[k],
            Some(answers[k]),
        )
}

/// What running the batches through `predict` may come to.
///
/// Success is the answers to all batches laid end to end, so one entity
/// list per sentence, in the order of the sentences. Failure names the
/// number of sentences in the batches before the one for which `predict`
/// gave no answer, or one that does not line up.
pub open spec fn gateway_outcome<M, F: Fn(&M, &[&str]) -> Option<Vec<Vec<RawEntity>>>>(
    model: &M,
    predict: &F,
    batches: Seq<Seq<Seq<char>>>,
    outcome: Result<Seq<Seq<RawEntityView>>, PipelineError>,
) -> bool {
    match outcome {
        Ok(entities) => exists|answers: Seq<Seq<Seq<RawEntityView>>>|
            #[trigger] all_answered(model, predict, batches, answers) && entities
                == answers.flatten(),
        Err(e) => exists|k: int, answer: Option<Seq<Seq<RawEntityView>>>|
            {
                &&& 0 <= k < batches.len()
                &&& #[trigger] may_answer(model, predict, batches[k], answer)
                &&& !lines_up(batches[k], answer)
                &&& e == PipelineError::Inference {
                    sentence: batches.take(k).flatten().len() as usize,
                }
            },
    }
}

/// The entity lists of a result, as mathematical values.
pub open spec fn entities_view(result: Result<Vec<Vec<RawEntity>>, PipelineError>) -> Result<
    Seq<Seq<RawEntityView>>,
    PipelineError,
> {
    match result {
        Ok(entities) => Ok(entities.deep_view()),
        Err(e) => Err(e),
    }
}

/// Hands the batches to `predict` one after the other, in order, and lays
/// the answers end to end.
///
/// Stops at the first batch for which `predict` returns `None` or an answer
/// that does not hold one entity list per sentence. With no batches there is
/// nothing to ask, and the result is the empty list.
pub fn predict_batches<M, F>(model: &M, batches: &Vec<&[&str]>, predict: &F) -> (result: Result<
    Vec<Vec<RawEntity>>,
    PipelineError,
>) where F: Fn(&M, &[&str]) -> Option<Vec<Vec<RawEntity>>>
    requires
        forall|k: int|
            0 <= k < batches.len() ==> call_requires(*predict, (model, #[trigger] batches[k])),
    ensures
        gateway_outcome(model, predict, batches.deep_view(), entities_view(result)),
        result matches Ok(entities) ==> entities.len() == batches.deep_view().flatten().len(),
{
    let ghost views = batches.deep_view();
    let ghost mut answers: Seq<Seq<Seq<RawEntityView>>> = Seq::empty();
    let mut entities: Vec<Vec<RawEntity>> = Vec::new();
    let mut k: usize = 0;
    while k < batches.len()
        invariant
            k <= batches.len(),
            views == batches.deep_view(),
            forall|j: int|
                0 <= j < batches.len() ==> call_requires(*predict, (model, #[trigger] batches[j])),
            all_answered(model, predict, views.take(k as int), answers),
            entities.deep_view() == answers.flatten(),
            entities.len() == views.take(k as int).flatten().len(),
        decreases batches.len() - k,
    {
        let batch: &[&str] = batches[k];
        let answer = predict(model, batch);
        proof {
            assert(may_answer(model, predict, views[k as int], answer.deep_view()));
        }
        let mut lists = match answer {
            Some(lists) => lists,
            None => {
                return Err(PipelineError::Inference { sentence: entities.len() });
            },
        };
        if lists.len() != batch.len() {
            return Err(PipelineError::Inference { sentence: entities.len() });
        }
        proof {
            let before = views.take(k as int);
            let ghost old_answers = answers;
            answers = answers.push(lists.deep_view());
            assert(views.take(k as int + 1) =~= before.push(views[k as int]));
            before.lemma_flatten_push(views[k as int]);
            old_answers.lemma_flatten_push(lists.deep_view());
            assert forall|j: int| 0 <= j < k + 1 implies (#[trigger] answers[j]).len()
                == views.take(k as int + 1)[j].len() && may_answer(
                model,
                predict,
                views.take(k as int + 1)[j],
                Some(answers[j]),
            ) by {}
        }
        entities.append(&mut lists);
        k = k + 1;
    }
    assert(views.take(k as int) =~= views);
    Ok(entities)
}

/// `std::sync::Mutex`, the guard of the one shared model. Nothing is known
/// of what it holds.
#[verifier::external_type_specification]
#[verifier::external_body]
#[verifier::reject_recursive_types(T)]
pub struct ExMutex<T: ?Sized>(Mutex<T>);

/// `std::sync::MutexGuard`, the proof of holding the lock. Dropping it
/// releases the lock.
#[verifier::external_type_specification]
#[verifier::external_body]
#[verifier::reject_recursive_types(T)]
pub struct ExMutexGuard<'a, T: ?Sized + 'a>(MutexGuard<'a, T>);

/// `Mutex::new`: puts the model behind a lock. Nothing is claimed of the
/// result.
#[verifier::external_body]
fn guard_model<M>(model: M) -> (lock: Mutex<M>) {
    Mutex::new(model)
}

/// `std::sync::PoisonError`, what `Mutex::lock` answers with after a thread
/// panicked while it held the lock. It carries the guard all the same.
#[verifier::external_type_specification]
#[verifier::external_body]
#[verifier::reject_recursive_types(T)]
pub struct ExPoisonError<T>(PoisonError<T>);

/// `Mutex::lock`: waits until no other thread holds the lock, and takes it.
/// Nothing is claimed of the result. The call must not be made by a thread
/// that holds the lock already.
#[verifier::external_body]
fn acquire<'a, M>(lock: &'a Mutex<M>) -> (taken: Result<
    MutexGuard<'a, M>,
    PoisonError<MutexGuard<'a, M>>,
>) {
    lock.lock()
}

/// `PoisonError::into_inner`: the guard that a poisoned lock still hands
/// out. Nothing is claimed of it.
#[verifier::external_body]
fn recover<'a, M>(poisoned: PoisonError<MutexGuard<'a, M>>) -> (guard: MutexGuard<'a, M>) {
    poisoned.into_inner()
}

/// `MutexGuard::deref`: the model that the held lock protects. Nothing is
/// claimed of it.
#[verifier::external_body]
fn guarded<'a, 'b, M>(guard: &'b MutexGuard<'a, M>) -> (model: &'b M) {
    &**guard
}

/// The one model of the process, behind its lock, and the batch size it is
/// to be fed with.
#[verifier::reject_recursive_types(M)]
pub struct AppState<M> {
    pub model: Mutex<M>,
    pub batch_size: usize,
}

/// What running the batches through `predict` under the lock may come to:
/// what it comes to with some model. Which model the lock protects is not
/// known here.
pub open spec fn locked_outcome<M, F: Fn(&M, &[&str]) -> Option<Vec<Vec<RawEntity>>>>(
    predict: &F,
    batches: Seq<Seq<Seq<char>>>,
    outcome: Result<Seq<Seq<RawEntityView>>, PipelineError>,
) -> bool {
    exists|model: &M| #[trigger] gateway_outcome(model, predict, batches, outcome)
}

impl<M> AppState<M> {
    /// Puts `model` behind its lock, to be fed in batches of `batch_size`.
    pub fn new(model: M, batch_size: usize) -> (state: Self)
        ensures
            state.batch_size == batch_size,
    {
        AppState { model: guard_model(model), batch_size }
    }

    /// Runs the batches through `predict` while holding the lock on the
    /// model, and holds it no longer than that: it is taken right before the
    /// first batch is handed over and given back right after the last
    /// answer, whether the batches succeed or not. `predict` must not ask
    /// for the lock itself.
    ///
    /// With no batches the lock is not touched.
    pub fn predict_batches<F>(&self, batches: &Vec<&[&str]>, predict: &F) -> (result: Result<
        Vec<Vec<RawEntity>>,
        PipelineError,
    >) where F: Fn(&M, &[&str]) -> Option<Vec<Vec<RawEntity>>>
        requires
            forall|model: &M, k: int|
                0 <= k < batches.len() ==> #[trigger] call_requires(
                    *predict,
                    (model, batches[k]),
                ),
        ensures
            locked_outcome::<M, F>(predict, batches.deep_view(), entities_view(result)),
            result matches Ok(entities) ==> entities.len() == batches.deep_view().flatten().len(),
    {
        if batches.len() == 0 {
            let entities: Vec<Vec<RawEntity>> = Vec::new();
            proof {
                let model: &M = arbitrary();
                let answers = Seq::<Seq<Seq<RawEntityView>>>::empty();
                assert(entities.deep_view() =~= answers.flatten());
                assert(all_answered(model, predict, batches.deep_view(), answers));
                assert(gateway_outcome(
                    model,
                    predict,
                    batches.deep_view(),
                    entities_view(Ok(entities)),
                ));
            }
            return Ok(entities);
        }
        // A lock left poisoned by a thread that panicked is taken all the same.
        let guard = match acquire(&self.model) {
            Ok(guard) => guard,
            Err(poisoned) => recover(poisoned),
        };
        predict_batches(guarded(&guard), batches, predict)
    }
}

} // verus!
