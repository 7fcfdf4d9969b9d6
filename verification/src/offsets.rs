//! From positions in a sentence to positions in the document.

use vstd::prelude::*;
use crate::error::PipelineError;
use crate::schema::{PredictionView, RawEntity, RawEntityView, SentenceOffsets, TextImagerPrediction};
use crate::whitespace::{count_leading_whitespace, leading_whitespace};

verus! {

impl PredictionView {
    /// The same label on the range moved `offset` positions to the right.
    pub open spec fn shifted(self, offset: nat) -> PredictionView {
        PredictionView { label: self.label, begin: self.begin + offset, end: self.end + offset }
    }
}

impl RawEntityView {
    /// Where the entity starts once the whitespace that opens its surface
    /// text is left out.
    pub open spec fn corrected_begin(self) -> nat {
        self.begin + leading_whitespace(self.word)
    }

    /// The corrected start does not lie behind the end.
    pub open spec fn is_range(self) -> bool {
        self.corrected_begin() <= self.end
    }

    /// The corrected entity is a range inside a sentence of `sentence_len`
    /// characters.
    pub open spec fn fits(self, sentence_len: nat) -> bool {
        self.is_range() && self.end <= sentence_len
    }

    /// The corrected entity, still in the coordinates of its sentence.
    pub open spec fn local(self) -> PredictionView {
        PredictionView { label: self.label, begin: self.corrected_begin(), end: self.end }
    }

    /// The corrected entity in the coordinates of the document, for a
    /// sentence that starts at `global_begin`.
    pub open spec fn mapped(self, global_begin: nat) -> PredictionView {
        self.local().shifted(global_begin)
    }
}

/// Every entity found in the sentence at `span` fits into it.
pub open spec fn sentence_fits(span: SentenceOffsets, entities: Seq<RawEntityView>) -> bool {
    forall|j: int| 0 <= j < entities.len() ==> (#[trigger] entities[j]).fits(span.spec_len())
}

/// The entities of one sentence in document coordinates, in the order given.
pub open spec fn mapped_sentence(span: SentenceOffsets, entities: Seq<RawEntityView>) -> Seq<
    PredictionView,
> {
    Seq::new(entities.len(), |j: int| entities[j].mapped(span.begin as nat))
}

/// Entity `j` of sentence `i` does not fit, and every entity before it,
/// sentences first, does.
pub open spec fn is_first_misfit(
    spans: Seq<SentenceOffsets>,
    entities: Seq<Seq<RawEntityView>>,
    i: int,
    j: int,
) -> bool {
    &&& 0 <= i < spans.len()
    &&& 0 <= j < entities[i].len()
    &&& !entities[i][j].fits(spans[i].spec_len())
    &&& forall|l: int| 0 <= l < j ==> (#[trigger] entities[i][l]).fits(spans[i].spec_len())
    &&& forall|k: int| 0 <= k < i ==> sentence_fits(#[trigger] spans[k], entities[k])
}

/// Every entity of every sentence fits.
pub open spec fn all_sentences_fit(
    spans: Seq<SentenceOffsets>,
    entities: Seq<Seq<RawEntityView>>,
) -> bool {
    forall|i: int| 0 <= i < spans.len() ==> sentence_fits(#[trigger] spans[i], entities[i])
}

/// The entities of all sentences in document coordinates, one list per
/// sentence.
pub open spec fn mapped_sentences(
    spans: Seq<SentenceOffsets>,
    entities: Seq<Seq<RawEntityView>>,
) -> Seq<Seq<PredictionView>> {
    Seq::new(spans.len(), |i: int| mapped_sentence(spans[i], entities[i]))
}

/// What mapping the model's answers onto the document comes to: the mapped
/// lists, or the first thing that is wrong with the answers.
pub open spec fn mapping_outcome(
    spans: Seq<SentenceOffsets>,
    entities: Seq<Seq<RawEntityView>>,
) -> Result<Seq<Seq<PredictionView>>, PipelineError> {
    if spans.len() != entities.len() {
        Err(
            PipelineError::Inference {
                sentence: if spans.len() < entities.len() {
                    spans.len() as usize
                } else {
                    entities.len() as usize
                },
            },
        )
    } else if all_sentences_fit(spans, entities) {
        Ok(mapped_sentences(spans, entities))
    } else {
        let (i, j) = choose|i: int, j: int| is_first_misfit(spans, entities, i, j);
        Err(PipelineError::MalformedSpan { sentence: i as usize, entity: j as usize })
    }
}

/// At most one entity is the first misfit, and there is one exactly when
/// not all sentences fit.
pub proof fn lemma_first_misfit_unique(
    spans: Seq<SentenceOffsets>,
    entities: Seq<Seq<RawEntityView>>,
    i: int,
    j: int,
)
    requires
        spans.len() == entities.len(),
        is_first_misfit(spans, entities, i, j),
    ensures
        !all_sentences_fit(spans, entities),
        mapping_outcome(spans, entities) == Err::<Seq<Seq<PredictionView>>, PipelineError>(
            PipelineError::MalformedSpan { sentence: i as usize, entity: j as usize },
        ),
{
}

impl TextImagerPrediction {
    /// The entity as a prediction in the coordinates of its sentence, with
    /// the start moved past the whitespace that opens the surface text.
    /// `None` when that start would lie behind the end.
    pub fn from_entity(entity: &RawEntity) -> (prediction: Option<Self>)
        ensures
            prediction is Some <==> entity@.is_range(),
            prediction matches Some(p) ==> p@ == entity@.local(),
    {
        if entity.begin > entity.end {
            return None;
        }
        let room: u32 = entity.end - entity.begin;
        let skipped = count_leading_whitespace(entity.word.as_str());
        if skipped > room as usize {
            return None;
        }
        Some(
            TextImagerPrediction {
                label: entity.label.clone(),
                begin: entity.begin as usize + skipped,
                end: entity.end as usize,
            },
        )
    }

    /// Moves the range `offset` positions to the right.
    pub fn with_offset(self, offset: usize) -> (moved: Self)
        requires
            self.begin + offset <= usize::MAX,
            self.end + offset <= usize::MAX,
        ensures
            moved@ == self@.shifted(offset as nat),
    {
        TextImagerPrediction {
            label: self.label,
            begin: self.begin + offset,
            end: self.end + offset,
        }
    }
}

/// Places an entity found in the sentence at `span` in the document.
///
/// `None` when the corrected entity is not a range inside the sentence.
/// A prediction that is returned lies inside `span`.
pub fn map_entity(entity: &RawEntity, span: SentenceOffsets) -> (prediction: Option<
    TextImagerPrediction,
>)
    ensures
        prediction is Some <==> entity@.fits(span.spec_len()),
        prediction matches Some(p) ==> p@ == entity@.mapped(span.begin as nat) && p@.within(
            span.begin as int,
            span.begin + span.spec_len(),
        ),
{
    let sentence_len = span.len();
    match TextImagerPrediction::from_entity(entity) {
        None => None,
        Some(local) => {
            if local.end > sentence_len {
                None
            } else {
                Some(local.with_offset(span.begin))
            }
        },
    }
}

/// Places the entities of one sentence in the document, in the order given.
///
/// `Err(j)` names the first entity that does not fit into the sentence.
pub fn map_sentence(entities: &Vec<RawEntity>, span: SentenceOffsets) -> (mapped: Result<
    Vec<TextImagerPrediction>,
    usize,
>)
    ensures
        mapped is Ok <==> sentence_fits(span, entities.deep_view()),
        mapped matches Ok(predictions) ==> predictions.deep_view() == mapped_sentence(
            span,
            entities.deep_view(),
        ),
        mapped matches Err(j) ==> {
            &&& j < entities.len()
            &&& !entities[j as int]@.fits(span.spec_len())
            &&& forall|l: int| 0 <= l < j ==> (#[trigger] entities[l])@.fits(span.spec_len())
        },
{
    let mut predictions: Vec<TextImagerPrediction> = Vec::new();
    let mut j: usize = 0;
    while j < entities.len()
        invariant
            j <= entities.len(),
            predictions.len() == j,
            forall|l: int| 0 <= l < j ==> (#[trigger] entities[l])@.fits(span.spec_len()),
            forall|l: int|
                0 <= l < j ==> (#[trigger] predictions[l])@ == entities[l]@.mapped(
                    span.begin as nat,
                ),
        decreases entities.len() - j,
    {
        match map_entity(&entities[j], span) {
            None => {
                assert(!entities.deep_view()[j as int].fits(span.spec_len()));
                return Err(j);
            },
            Some(prediction) => {
                predictions.push(prediction);
            },
        }
        j = j + 1;
    }
    Ok(predictions)
}

/// Places the entities of all sentences in the document: one list of
/// predictions per sentence, sentences and entities in the order given.
///
/// Answers that do not line up with the sentences are reported as
/// `Inference`, the first entity that does not fit into its sentence as
/// `MalformedSpan`.
pub fn map_sentences(spans: &Vec<SentenceOffsets>, entities: &Vec<Vec<RawEntity>>) -> (mapped:
    Result<Vec<Vec<TextImagerPrediction>>, PipelineError>)
    ensures
        match mapped {
            Ok(lists) => mapping_outcome(spans@, entities.deep_view()) == Ok::<
                Seq<Seq<PredictionView>>,
                PipelineError,
            >(lists.deep_view()),
            Err(e) => mapping_outcome(spans@, entities.deep_view()) == Err::<
                Seq<Seq<PredictionView>>,
                PipelineError,
            >(e),
        },
{
    if spans.len() != entities.len() {
        let sentence = if spans.len() < entities.len() {
            spans.len()
        } else {
            entities.len()
        };
        return Err(PipelineError::Inference { sentence });
    }
    let ghost views = entities.deep_view();
    let mut lists: Vec<Vec<TextImagerPrediction>> = Vec::new();
    let mut i: usize = 0;
    while i < spans.len()
        invariant
            i <= spans.len(),
            spans.len() == entities.len(),
            views == entities.deep_view(),
            lists.len() == i,
            forall|k: int| 0 <= k < i ==> sentence_fits(#[trigger] spans[k], views[k]),
            forall|k: int|
                0 <= k < i ==> (#[trigger] lists[k]).deep_view() == mapped_sentence(
                    spans[k],
                    views[k],
                ),
        decreases spans.len() - i,
    {
        match map_sentence(&entities[i], spans[i]) {
            Err(j) => {
                proof {
                    lemma_first_misfit_unique(spans@, views, i as int, j as int);
                }
                return Err(PipelineError::MalformedSpan { sentence: i, entity: j });
            },
            Ok(predictions) => {
                lists.push(predictions);
            },
        }
        i = i + 1;
    }
    assert(lists.deep_view() =~= mapped_sentences(spans@, views));
    Ok(lists)
}

} // verus!
