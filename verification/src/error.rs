//! The ways in which a request can fail.

use vstd::prelude::*;

verus! {

/// Why a request could not be turned into a response.
///
/// Every variant is terminal for the request that raised it.
#[derive(Clone, Copy, Debug, PartialEq, Eq, Structural)]
pub enum PipelineError {
    /// A sentence range is inverted or reaches past the end of the text.
    /// `sentence` is the position of the first such range in the request.
    OutOfBounds { sentence: usize },
    /// The model gave no answer, or an answer that does not hold exactly one
    /// entity list per sentence handed to it. `sentence` counts the sentences
    /// that had been answered before.
    Inference { sentence: usize },
    /// An entity cannot be placed inside the sentence it was found in.
    /// `sentence` and `entity` locate the first such entity, sentences first.
    MalformedSpan { sentence: usize, entity: usize },
}

impl PipelineError {
    /// Whether the request is at fault. That holds of a range that does not
    /// lie inside the text; a model that fails and an entity that cannot be
    /// placed are faults of the service.
    pub fn is_client_error(&self) -> (at_fault: bool)
        ensures
            at_fault == (*self is OutOfBounds),
    {
        match self {
            PipelineError::OutOfBounds { .. } => true,
            PipelineError::Inference { .. } => false,
            PipelineError::MalformedSpan { .. } => false,
        }
    }
}

} // verus!
