//! From the model's answers to the response.

use vstd::prelude::*;
use crate::assemble::assemble;
use crate::error::PipelineError;
use crate::gateway::entities_view;
use crate::offsets::{map_sentences, mapping_outcome};
use crate::schema::{
    PredictionView,
    RawEntity,
    RawEntityView,
    SentenceOffsets,
    TextImagerResponse,
};

verus! {

/// The predictions that the entities of all sentences come to: mapped onto
/// the document and laid end to end, sentences in order and, inside a
/// sentence, entities in the order the model gave them.
pub open spec fn assembled(spans: Seq<SentenceOffsets>, entities: Seq<Seq<RawEntityView>>) -> Result<
    Seq<PredictionView>,
    PipelineError,
> {
    match mapping_outcome(spans, entities) {
        Ok(lists) => Ok(lists.flatten()),
        Err(e) => Err(e),
    }
}

/// The answer to a request whose sentences lie at `spans`, given how the
/// model answered.
pub open spec fn response_for(
    spans: Seq<SentenceOffsets>,
    answered: Result<Seq<Seq<RawEntityView>>, PipelineError>,
) -> Result<Seq<PredictionView>, PipelineError> {
    match answered {
        Ok(entities) => assembled(spans, entities),
        Err(e) => Err(e),
    }
}

/// The predictions of a result, as mathematical values.
pub open spec fn response_view(result: Result<TextImagerResponse, PipelineError>) -> Result<
    Seq<PredictionView>,
    PipelineError,
> {
    match result {
        Ok(response) => Ok(response.predictions.deep_view()),
        Err(e) => Err(e),
    }
}

/// Turns what the model answered into the response: a failure of the model
/// is passed on, entity lists are mapped onto the document and assembled.
pub fn respond(spans: &Vec<SentenceOffsets>, answered: Result<Vec<Vec<RawEntity>>, PipelineError>) -> (result:
    Result<TextImagerResponse, PipelineError>)
    ensures
        response_view(result) == response_for(spans@, entities_view(answered)),
        result matches Ok(response) ==> response.meta is None,
{
    let entities = match answered {
        Ok(entities) => entities,
        Err(e) => {
            return Err(e);
        },
    };
    match map_sentences(spans, &entities) {
        Ok(lists) => Ok(assemble(lists)),
        Err(e) => Err(e),
    }
}

} // verus!
