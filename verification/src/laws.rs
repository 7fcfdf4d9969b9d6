//! What holds of every request, stated over the mathematical content of the
//! pipeline's steps.

use vstd::prelude::*;
use crate::assemble::{lemma_every_position_has_source, lemma_order_preserved, position};
use crate::batch::{batches_of, lemma_batches_cover};
use crate::error::PipelineError;
use crate::extract::{all_fit, extraction_error, sentence_texts};
use crate::gateway::{all_answered, gateway_outcome, lines_up, locked_outcome, may_answer};
use crate::offsets::{all_sentences_fit, mapped_sentences};
use crate::pipeline::{assembled, response_for};
use crate::routes::process_outcome;
use crate::schema::{PredictionView, RawEntity, RawEntityView, SentenceOffsets, TextImagerRequest};
use crate::whitespace::{is_whitespace, leading_whitespace};

verus! {

/// `predict` behaves as the model `f`: whatever batch it is handed, it
/// answers with what `f` finds in each sentence, sentence by sentence.
pub open spec fn follows<M, F: Fn(&M, &[&str]) -> Option<Vec<Vec<RawEntity>>>>(
    predict: &F,
    f: spec_fn(Seq<char>) -> Seq<RawEntityView>,
) -> bool {
    forall|model: &M, batch: &[&str], answer: Option<Vec<Vec<RawEntity>>>| #[trigger]
        call_ensures(*predict, (model, batch), answer) ==> answer.deep_view() == Some(
            batch.deep_view().map_values(f),
        )
}

/// What a request comes to under the model `f`. No batch size enters.
pub open spec fn pipeline_outcome(
    text: Seq<char>,
    spans: Seq<SentenceOffsets>,
    f: spec_fn(Seq<char>) -> Seq<RawEntityView>,
) -> Result<Seq<PredictionView>, PipelineError> {
    match extraction_error(spans, text.len()) {
        Some(e) => Err(e),
        None => assembled(spans, sentence_texts(text, spans).map_values(f)),
    }
}

/// Applying `f` to every entry and laying the lists end to end can be done
/// in either order.
proof fn lemma_flatten_map<A, B>(lists: Seq<Seq<A>>, f: spec_fn(A) -> B)
    ensures
        lists.map_values(|list: Seq<A>| list.map_values(f)).flatten() == lists.flatten().map_values(
            f,
        ),
    decreases lists.len(),
{
    let each = |list: Seq<A>| list.map_values(f);
    if lists.len() > 0 {
        let init = lists.drop_last();
        let last = lists.last();
        lemma_flatten_map(init, f);
        assert(lists =~= init.push(last));
        assert(lists.map_values(each) =~= init.map_values(each).push(each(last)));
        init.lemma_flatten_push(last);
        init.map_values(each).lemma_flatten_push(each(last));
        assert((init.flatten() + last).map_values(f) =~= init.flatten().map_values(f)
            + last.map_values(f));
    }
}

/// Under a model, the batches can only come to the model's findings for
/// all sentences, in order.
proof fn lemma_model_answers<M, F: Fn(&M, &[&str]) -> Option<Vec<Vec<RawEntity>>>>(
    model: &M,
    predict: &F,
    f: spec_fn(Seq<char>) -> Seq<RawEntityView>,
    batches: Seq<Seq<Seq<char>>>,
    outcome: Result<Seq<Seq<RawEntityView>>, PipelineError>,
)
    requires
        follows::<M, F>(predict, f),
        gateway_outcome(model, predict, batches, outcome),
    ensures
        outcome == Ok::<Seq<Seq<RawEntityView>>, PipelineError>(batches.flatten().map_values(f)),
{
    assert forall|batch: Seq<Seq<char>>, answer: Option<Seq<Seq<RawEntityView>>>|
        may_answer(model, predict, batch, answer) implies answer == Some(batch.map_values(f)) by {
        let (b, a) = choose|b: &[&str], a: Option<Vec<Vec<RawEntity>>>|
            #[trigger] call_ensures(*predict, (model, b), a) && b.deep_view() == batch
                && a.deep_view() == answer;
    }
    match outcome {
        Ok(entities) => {
            let answers = choose|answers: Seq<Seq<Seq<RawEntityView>>>|
                #[trigger] all_answered(model, predict, batches, answers) && entities
                    == answers.flatten();
            let each = |batch: Seq<Seq<char>>| batch.map_values(f);
            assert(answers =~= batches.map_values(each));
            lemma_flatten_map(batches, f);
        },
        Err(e) => {
            let (k, answer) = choose|k: int, answer: Option<Seq<Seq<RawEntityView>>>|
                {
                    &&& 0 <= k < batches.len()
                    &&& #[trigger] may_answer(model, predict, batches[k], answer)
                    &&& !lines_up(batches[k], answer)
                    &&& e == PipelineError::Inference {
                        sentence: batches.take(k).flatten().len() as usize,
                    }
                };
        },
    }
}

/// Batch transparency: where `predict` behaves as a model, a request comes
/// to what the model's findings for its sentences come to, whatever the
/// batch size.
pub proof fn lemma_batch_transparency<M, F: Fn(&M, &[&str]) -> Option<Vec<Vec<RawEntity>>>>(
    predict: &F,
    f: spec_fn(Seq<char>) -> Seq<RawEntityView>,
    text: Seq<char>,
    spans: Seq<SentenceOffsets>,
    batch_size: nat,
    outcome: Result<Seq<PredictionView>, PipelineError>,
)
    requires
        batch_size >= 1,
        follows::<M, F>(predict, f),
        process_outcome::<M, F>(predict, text, spans, batch_size, outcome),
    ensures
        outcome == pipeline_outcome(text, spans, f),
{
    if extraction_error(spans, text.len()) is None {
        let texts = sentence_texts(text, spans);
        let batches = batches_of(texts, batch_size);
        let answered = choose|answered: Result<Seq<Seq<RawEntityView>>, PipelineError>|
            #[trigger] locked_outcome::<M, F>(predict, batches, answered) && outcome
                == response_for(spans, answered);
        let model = choose|model: &M| #[trigger]
            gateway_outcome(model, predict, batches, answered);
        lemma_model_answers(model, predict, f, batches, answered);
        lemma_batches_cover(texts, batch_size);
    }
}

/// Batch transparency, for two runs: with `predict` behaving as a model,
/// two batch sizes give the same outcome for the same text and ranges.
pub proof fn lemma_batch_size_irrelevant<M, F: Fn(&M, &[&str]) -> Option<Vec<Vec<RawEntity>>>>(
    predict: &F,
    f: spec_fn(Seq<char>) -> Seq<RawEntityView>,
    text: Seq<char>,
    spans: Seq<SentenceOffsets>,
    first_size: nat,
    second_size: nat,
    first: Result<Seq<PredictionView>, PipelineError>,
    second: Result<Seq<PredictionView>, PipelineError>,
)
    requires
        first_size >= 1,
        second_size >= 1,
        follows::<M, F>(predict, f),
        process_outcome::<M, F>(predict, text, spans, first_size, first),
        process_outcome::<M, F>(predict, text, spans, second_size, second),
    ensures
        first == second,
{
    lemma_batch_transparency::<M, F>(predict, f, text, spans, first_size, first);
    lemma_batch_transparency::<M, F>(predict, f, text, spans, second_size, second);
}

/// Reproducibility: with `predict` behaving as a model, two requests that
/// agree in text, language and ranges come to the same outcome.
pub proof fn lemma_reproducible<M, F: Fn(&M, &[&str]) -> Option<Vec<Vec<RawEntity>>>>(
    predict: &F,
    f: spec_fn(Seq<char>) -> Seq<RawEntityView>,
    one: TextImagerRequest,
    other: TextImagerRequest,
    batch_size: nat,
    first: Result<Seq<PredictionView>, PipelineError>,
    second: Result<Seq<PredictionView>, PipelineError>,
)
    requires
        batch_size >= 1,
        one.text@ == other.text@,
        one.language@ == other.language@,
        one.sentences@ == other.sentences@,
        follows::<M, F>(predict, f),
        process_outcome::<M, F>(predict, one.text@, one.sentences@, batch_size, first),
        process_outcome::<M, F>(predict, other.text@, other.sentences@, batch_size, second),
    ensures
        first == second,
{
    lemma_batch_size_irrelevant::<M, F>(
        predict,
        f,
        one.text@,
        one.sentences@,
        batch_size,
        batch_size,
        first,
        second,
    );
}

/// Predictions are assembled only when the answers line up with the
/// sentences and every entity fits; they are then the mapped lists laid end
/// to end.
pub proof fn lemma_assembled_ok(
    spans: Seq<SentenceOffsets>,
    entities: Seq<Seq<RawEntityView>>,
    predictions: Seq<PredictionView>,
)
    requires
        assembled(spans, entities) == Ok::<Seq<PredictionView>, PipelineError>(predictions),
    ensures
        spans.len() == entities.len(),
        all_sentences_fit(spans, entities),
        predictions == mapped_sentences(spans, entities).flatten(),
{
}

/// Order preservation: entity `j` of sentence `i` stands in the assembled
/// predictions, mapped onto the document, behind the predictions for all
/// entities that come before it by sentence and then by place.
pub proof fn lemma_predictions_in_order(
    spans: Seq<SentenceOffsets>,
    entities: Seq<Seq<RawEntityView>>,
    predictions: Seq<PredictionView>,
    i: int,
    j: int,
)
    requires
        assembled(spans, entities) == Ok::<Seq<PredictionView>, PipelineError>(predictions),
        0 <= i < entities.len(),
        0 <= j < entities[i].len(),
    ensures
        0 <= position(entities, i, j) < predictions.len(),
        predictions[position(entities, i, j)] == entities[i][j].mapped(spans[i].begin as nat),
{
    lemma_assembled_ok(spans, entities, predictions);
    let lists = mapped_sentences(spans, entities);
    lemma_same_shape(entities, lists, i);
    lemma_order_preserved(lists, i, j);
}

/// Lists of the same lengths hold the same number of entries before list `i`.
proof fn lemma_same_shape<A, B>(one: Seq<Seq<A>>, other: Seq<Seq<B>>, i: int)
    requires
        one.len() == other.len(),
        forall|k: int| 0 <= k < one.len() ==> (#[trigger] one[k]).len() == other[k].len(),
        0 <= i <= one.len(),
    ensures
        one.take(i).flatten().len() == other.take(i).flatten().len(),
    decreases i,
{
    if i > 0 {
        lemma_same_shape(one, other, i - 1);
        assert(one.take(i) =~= one.take(i - 1).push(one[i - 1]));
        assert(other.take(i) =~= other.take(i - 1).push(other[i - 1]));
        one.take(i - 1).lemma_flatten_push(one[i - 1]);
        other.take(i - 1).lemma_flatten_push(other[i - 1]);
    }
}

/// Offset containment: every assembled prediction is the mapping of an
/// entity of some sentence, and lies inside that sentence: not before its
/// start, not inverted, and not behind its end.
pub proof fn lemma_offsets_contained(
    spans: Seq<SentenceOffsets>,
    entities: Seq<Seq<RawEntityView>>,
    predictions: Seq<PredictionView>,
    p: int,
) -> (source: (int, int))
    requires
        assembled(spans, entities) == Ok::<Seq<PredictionView>, PipelineError>(predictions),
        0 <= p < predictions.len(),
    ensures
        0 <= source.0 < spans.len(),
        0 <= source.1 < entities[source.0].len(),
        position(entities, source.0, source.1) == p,
        predictions[p] == entities[source.0][source.1].mapped(spans[source.0].begin as nat),
        predictions[p].within(
            spans[source.0].begin as int,
            spans[source.0].begin + spans[source.0].spec_len(),
        ),
{
    lemma_assembled_ok(spans, entities, predictions);
    let lists = mapped_sentences(spans, entities);
    let (i, j) = lemma_every_position_has_source(lists, p);
    lemma_same_shape(entities, lists, i);
    lemma_order_preserved(lists, i, j);
    (i, j)
}

/// Every assembled prediction lies inside the text, where the ranges of the
/// sentences do.
pub proof fn lemma_predictions_inside_text(
    text_len: nat,
    spans: Seq<SentenceOffsets>,
    entities: Seq<Seq<RawEntityView>>,
    predictions: Seq<PredictionView>,
    p: int,
)
    requires
        all_fit(spans, text_len),
        assembled(spans, entities) == Ok::<Seq<PredictionView>, PipelineError>(predictions),
        0 <= p < predictions.len(),
    ensures
        predictions[p].within(0, text_len as int),
{
    let (i, j) = lemma_offsets_contained(spans, entities, predictions, p);
}

/// Where the surface text of an entity does not start with whitespace,
/// nothing is corrected: the prediction starts at the entity's own start,
/// moved by the start of the sentence.
pub proof fn lemma_no_whitespace_no_correction(entity: RawEntityView, global_begin: nat)
    requires
        entity.word.len() == 0 || !is_whitespace(entity.word[0]),
    ensures
        leading_whitespace(entity.word) == 0,
        entity.local().begin == entity.begin,
        entity.mapped(global_begin).begin == entity.begin + global_begin,
        entity.mapped(global_begin).end == entity.end + global_begin,
{
}

} // verus!
