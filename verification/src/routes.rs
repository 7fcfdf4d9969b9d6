//! What the service answers to its requests.

use vstd::prelude::*;
use crate::batch::{batch_at, batches, batches_of, lemma_batch_count, lemma_batch_sizes};
use crate::documentation::{
    TextImagerCapability,
    TextImagerDocumentation,
    ANNOTATOR_NAME,
    PACKAGE_VERSION,
};
use crate::error::PipelineError;
use crate::extract::{extraction_error, sentence_texts};
use crate::gateway::{entities_view, locked_outcome, AppState};
use crate::offsets::mapped_sentences;
use crate::pipeline::{respond, response_for, response_view};
use crate::schema::{
    PredictionView,
    RawEntity,
    RawEntityView,
    SentenceOffsets,
    TextImagerRequest,
    TextImagerResponse,
};

verus! {

/// What the service says of itself: the default description under the
/// service's name, with German as the one supported language.
pub fn get_v1_documentation() -> (documentation: TextImagerDocumentation)
    ensures
        documentation.annotator_name@ == ANNOTATOR_NAME@,
        documentation.version@ == PACKAGE_VERSION@,
        documentation.implementation_lang matches Some(lang) && lang@ == "Rust "@,
        documentation.capability.supported_languages.deep_view() == seq!["de"@],
        documentation.is_plain(),
{
    let mut documentation = TextImagerDocumentation::default();
    let mut supported_languages: Vec<String> = Vec::new();
    supported_languages.push("de".to_owned());
    documentation.annotator_name = ANNOTATOR_NAME.to_owned();
    documentation.capability = TextImagerCapability { supported_languages, reproducible: true };
    documentation
}

/// What handling a request may come to, for a text, the ranges of its
/// sentences and a batch size.
///
/// A range that does not lie inside the text decides alone. Otherwise the
/// outcome is the response for some way in which `predict` may have
/// answered the batches that the sentences are cut into.
pub open spec fn process_outcome<M, F: Fn(&M, &[&str]) -> Option<Vec<Vec<RawEntity>>>>(
    predict: &F,
    text: Seq<char>,
    spans: Seq<SentenceOffsets>,
    batch_size: nat,
    outcome: Result<Seq<PredictionView>, PipelineError>,
) -> bool {
    match extraction_error(spans, text.len()) {
        Some(e) => outcome == Err::<Seq<PredictionView>, PipelineError>(e),
        None => exists|answered: Result<Seq<Seq<RawEntityView>>, PipelineError>|
            #[trigger] locked_outcome::<M, F>(
                predict,
                batches_of(sentence_texts(text, spans), batch_size),
                answered,
            ) && outcome == response_for(spans, answered),
    }
}

/// Handles one request: takes the sentences out of the text, cuts them into
/// batches of the size that `state` names, runs the batches through
/// `predict` under the lock on the model, maps the entities onto the
/// document and assembles the response. The lock is held for the batches
/// only, and not at all for a request without sentences.
pub fn post_v1_process<M, F>(request: &TextImagerRequest, state: &AppState<M>, predict: &F) -> (result:
    Result<TextImagerResponse, PipelineError>) where
    F: Fn(&M, &[&str]) -> Option<Vec<Vec<RawEntity>>>,

    requires
        state.batch_size >= 1,
        forall|model: &M, batch: &[&str]| #[trigger] call_requires(*predict, (model, batch)),
    ensures
        process_outcome::<M, F>(
            predict,
            request.text@,
            request.sentences@,
            state.batch_size as nat,
            response_view(result),
        ),
        result matches Ok(response) ==> response.meta is None,
        request.sentences.len() == 0 ==> (result matches Ok(response)
            && response.predictions.len() == 0),
{
    let (sentences, _) = match request.sentences_and_offsets() {
        Ok(extracted) => extracted,
        Err(e) => {
            return Err(e);
        },
    };
    let cut = batches(sentences.as_slice(), state.batch_size);
    proof {
        let texts = sentence_texts(request.text@, request.sentences@);
        let size = state.batch_size as nat;
        assert forall|k: int| 0 <= k < cut.len() implies #[trigger] cut.deep_view()[k]
            == batches_of(texts, size)[k] by {
            lemma_batch_sizes(texts, size, k);
            lemma_batch_sizes(sentences@, size, k);
            assert forall|i: int| 0 <= i < cut[k]@.len() implies #[trigger] cut[k].deep_view()[i]
                == batch_at(texts, size, k)[i] by {
                assert(sentences.deep_view()[k * size + i] == sentences@[k * size
                    + i].deep_view());
            }
        }
        assert(cut.deep_view() =~= batches_of(texts, size));
        if request.sentences.len() == 0 {
            lemma_batch_count(0, size, 0);
        }
    }
    let answered = state.predict_batches(&cut, predict);
    let ghost entities = entities_view(answered);
    let result = respond(&request.sentences, answered);
    proof {
        if request.sentences.len() == 0 {
            assert(mapped_sentences(request.sentences@, entities->Ok_0) =~= Seq::<
                Seq<PredictionView>,
            >::empty());
            assert(mapped_sentences(request.sentences@, entities->Ok_0).flatten() =~= Seq::<
                PredictionView,
            >::empty());
        }
    }
    result
}

} // verus!
