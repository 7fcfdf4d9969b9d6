use duui_ner::error::PipelineError;
use duui_ner::gateway::predict_batches;
use duui_ner::gateway::AppState;
use duui_ner::pipeline::respond;
use duui_ner::routes::post_v1_process;
use duui_ner::schema::RawEntity;
use duui_ner::schema::SentenceOffsets;
use duui_ner::schema::TextImagerPrediction;
use duui_ner::schema::TextImagerRequest;
use duui_ner::schema::TextImagerResponse;

const TEXT: &str = "Barack Obama ist ein US-amerikanischer Politiker der Demokratischen Partei. Er war von 2009 bis 2017 der 44. Präsident der Vereinigten Staaten.";

/// Stands in for the model: answers from a table of known sentences, and
/// reports entities the way a tokenizer does, the separator before a word
/// counted in.
struct TableModel;

fn find(sentence: &str) -> Vec<RawEntity> {
    if sentence.starts_with("Barack Obama") {
        vec![
            RawEntity::new("Barack Obama", "PER", 0, 12),
            RawEntity::new(" US-amerikanischer", "MISC", 20, 38),
            RawEntity::new(" Demokratischen Partei", "ORG", 52, 74),
        ]
    } else if sentence.starts_with("Er war") {
        vec![RawEntity::new(" Vereinigten Staaten", "LOC", 46, 66)]
    } else {
        Vec::new()
    }
}

fn table(_model: &TableModel, batch: &[&str]) -> Option<Vec<Vec<RawEntity>>> {
    Some(batch.iter().map(|sentence| find(sentence)).collect())
}

fn request(spans: &[(usize, usize)]) -> TextImagerRequest {
    TextImagerRequest::new(
        TEXT,
        "de",
        spans.iter().map(|&(begin, end)| SentenceOffsets::new(begin, end)).collect(),
    )
}

fn expected() -> Vec<TextImagerPrediction> {
    vec![
        TextImagerPrediction::new("PER", 0, 12),
        TextImagerPrediction::new("MISC", 21, 38),
        TextImagerPrediction::new("ORG", 53, 74),
        TextImagerPrediction::new("LOC", 123, 142),
    ]
}

#[test]
fn test_app() {
    let state = AppState::new(TableModel, 4);
    let result = post_v1_process(&request(&[(0, 74), (76, 143)]), &state, &table).unwrap();
    assert_eq!(expected(), result.predictions);
    assert_eq!(None, result.meta);
}

#[test]
fn batch_size_does_not_change_the_predictions() {
    let spans = [(0, 74), (76, 143), (0, 74), (76, 143), (13, 16)];
    let whole = post_v1_process(&request(&spans), &AppState::new(TableModel, 5), &table).unwrap();
    for batch_size in [1usize, 2, 3, 4, 6, 128] {
        let state = AppState::new(TableModel, batch_size);
        let result = post_v1_process(&request(&spans), &state, &table).unwrap();
        assert_eq!(whole, result);
    }
    assert_eq!(8, whole.predictions.len());
}

#[test]
fn same_request_gives_same_predictions() {
    let state = AppState::new(TableModel, 2);
    let first = post_v1_process(&request(&[(0, 74), (76, 143)]), &state, &table);
    let second = post_v1_process(&request(&[(0, 74), (76, 143)]), &state, &table);
    assert_eq!(first, second);
}

#[test]
fn predictions_follow_sentence_order_not_position() {
    let state = AppState::new(TableModel, 1);
    let result = post_v1_process(&request(&[(76, 143), (0, 74)]), &state, &table).unwrap();
    assert_eq!(
        vec![
            TextImagerPrediction::new("LOC", 123, 142),
            TextImagerPrediction::new("PER", 0, 12),
            TextImagerPrediction::new("MISC", 21, 38),
            TextImagerPrediction::new("ORG", 53, 74),
        ],
        result.predictions
    );
}

#[test]
fn every_prediction_lies_in_its_sentence() {
    let spans = [(0usize, 74usize), (76, 143)];
    let state = AppState::new(TableModel, 4);
    let result = post_v1_process(&request(&spans), &state, &table).unwrap();
    let sentence_of = [0usize, 0, 0, 1];
    for (prediction, sentence) in result.predictions.iter().zip(sentence_of) {
        let (begin, end) = spans[sentence];
        assert!(begin <= prediction.begin);
        assert!(prediction.begin <= prediction.end);
        assert!(prediction.end <= end);
    }
}

#[test]
fn span_past_the_end_is_out_of_bounds() {
    let text = "x".repeat(50);
    let request = TextImagerRequest::new(&text, "de", vec![SentenceOffsets::new(0, 10_000)]);
    let state = AppState::new(TableModel, 4);
    assert_eq!(Err(PipelineError::OutOfBounds { sentence: 0 }), post_v1_process(&request, &state, &table));
    assert_eq!(
        Err(PipelineError::OutOfBounds { sentence: 0 }),
        request.sentences_and_offsets()
    );
}

#[test]
fn first_bad_span_is_reported() {
    let state = AppState::new(TableModel, 4);
    let result = post_v1_process(&request(&[(0, 74), (80, 76), (0, 10_000)]), &state, &table);
    assert_eq!(Err(PipelineError::OutOfBounds { sentence: 1 }), result);
    let result = post_v1_process(&request(&[(0, 143), (143, 143), (143, 144)]), &state, &table);
    assert_eq!(Err(PipelineError::OutOfBounds { sentence: 2 }), result);
}

#[test]
fn no_sentences_give_no_predictions() {
    let never = |_: &TableModel, _: &[&str]| -> Option<Vec<Vec<RawEntity>>> { None };
    let state = AppState::new(TableModel, 3);
    let result = post_v1_process(&request(&[]), &state, &never);
    assert_eq!(Ok(TextImagerResponse::new(Vec::new())), result);
}

#[test]
fn sentences_are_cut_by_characters() {
    let request = request(&[(0, 74), (76, 143), (109, 118), (143, 143)]);
    let (sentences, offsets) = request.sentences_and_offsets().unwrap();
    assert_eq!(
        vec![
            "Barack Obama ist ein US-amerikanischer Politiker der Demokratischen Partei",
            "Er war von 2009 bis 2017 der 44. Präsident der Vereinigten Staaten.",
            "Präsident",
            "",
        ],
        sentences
    );
    assert_eq!(vec![0, 76, 109, 143], offsets);
    let pairs = request.sentences_with_offsets().unwrap();
    assert_eq!(("Präsident", 109), pairs[2]);
    assert_eq!(4, pairs.len());
}

#[test]
fn failed_batch_is_an_inference_error() {
    let moody = |_: &TableModel, batch: &[&str]| -> Option<Vec<Vec<RawEntity>>> {
        if batch[0].starts_with("Er war") {
            None
        } else {
            Some(batch.iter().map(|sentence| find(sentence)).collect())
        }
    };
    let spans = [(0, 74), (13, 16), (76, 143), (13, 16)];
    let result = post_v1_process(&request(&spans), &AppState::new(TableModel, 2), &moody);
    assert_eq!(Err(PipelineError::Inference { sentence: 2 }), result);
    let result = post_v1_process(&request(&spans), &AppState::new(TableModel, 3), &moody);
    assert!(result.is_ok());
    let result = post_v1_process(&request(&[(76, 143)]), &AppState::new(TableModel, 1), &moody);
    assert_eq!(Err(PipelineError::Inference { sentence: 0 }), result);
}

#[test]
fn answer_of_wrong_length_is_an_inference_error() {
    let short = |_: &TableModel, batch: &[&str]| -> Option<Vec<Vec<RawEntity>>> {
        Some(batch.iter().skip(1).map(|sentence| find(sentence)).collect())
    };
    let result = post_v1_process(&request(&[(0, 74), (76, 143)]), &AppState::new(TableModel, 2), &short);
    assert_eq!(Err(PipelineError::Inference { sentence: 0 }), result);
    let long = |_: &TableModel, batch: &[&str]| -> Option<Vec<Vec<RawEntity>>> {
        if batch.len() == 1 {
            Some(vec![Vec::new(), Vec::new()])
        } else {
            Some(batch.iter().map(|sentence| find(sentence)).collect())
        }
    };
    let spans = [(0, 74), (76, 143), (13, 16)];
    let result = post_v1_process(&request(&spans), &AppState::new(TableModel, 2), &long);
    assert_eq!(Err(PipelineError::Inference { sentence: 2 }), result);
}

#[test]
fn batches_reach_the_model_in_order() {
    let first = ["a", "b"];
    let second = ["c"];
    let batches: Vec<&[&str]> = vec![&first, &second];
    let echo = |prefix: &String, batch: &[&str]| -> Option<Vec<Vec<RawEntity>>> {
        Some(
            batch
                .iter()
                .map(|sentence| vec![RawEntity::new(sentence, prefix, 0, 1)])
                .collect(),
        )
    };
    let entities = predict_batches(&"L".to_string(), &batches, &echo).unwrap();
    assert_eq!(
        vec![
            vec![RawEntity::new("a", "L", 0, 1)],
            vec![RawEntity::new("b", "L", 0, 1)],
            vec![RawEntity::new("c", "L", 0, 1)],
        ],
        entities
    );
    let state = AppState::new("M".to_string(), 7);
    assert_eq!(7, state.batch_size);
    let entities = state.predict_batches(&batches, &echo).unwrap();
    assert_eq!(vec![RawEntity::new("c", "M", 0, 1)], entities[2]);
    assert_eq!(Ok(Vec::new()), state.predict_batches(&Vec::new(), &echo));
}

#[test]
fn model_failure_passes_through_respond() {
    let spans = vec![SentenceOffsets::new(0, 5)];
    let result = respond(&spans, Err(PipelineError::Inference { sentence: 3 }));
    assert_eq!(Err(PipelineError::Inference { sentence: 3 }), result);
    let result = respond(&spans, Ok(vec![vec![RawEntity::new("ab", "X", 1, 3)]]));
    assert_eq!(
        Ok(TextImagerResponse::new(vec![TextImagerPrediction::new("X", 1, 3)])),
        result
    );
}

#[test]
fn answers_must_line_up_with_the_sentences() {
    let spans = vec![SentenceOffsets::new(0, 5), SentenceOffsets::new(5, 9)];
    let result = respond(&spans, Ok(vec![Vec::new()]));
    assert_eq!(Err(PipelineError::Inference { sentence: 1 }), result);
    let result = respond(&spans, Ok(vec![Vec::new(), Vec::new(), Vec::new()]));
    assert_eq!(Err(PipelineError::Inference { sentence: 2 }), result);
}

#[test]
fn entity_outside_its_sentence_is_a_malformed_span() {
    let state = AppState::new(TableModel, 2);
    let result = post_v1_process(&request(&[(76, 143), (0, 73)]), &state, &table);
    assert_eq!(Err(PipelineError::MalformedSpan { sentence: 1, entity: 2 }), result);
    let blank = |_: &TableModel, batch: &[&str]| -> Option<Vec<Vec<RawEntity>>> {
        Some(batch.iter().map(|_| vec![RawEntity::new("  ", "O", 1, 2)]).collect())
    };
    let result = post_v1_process(&request(&[(0, 74)]), &state, &blank);
    assert_eq!(Err(PipelineError::MalformedSpan { sentence: 0, entity: 0 }), result);
}

#[test]
fn long_texts_are_cut_in_one_pass() {
    let sentence = "Zürich liegt an der Limmat – 😀. ";
    let width = sentence.chars().count();
    let count = 20_000;
    let text = sentence.repeat(count);
    let spans: Vec<SentenceOffsets> =
        (0..count).map(|i| SentenceOffsets::new(i * width, (i + 1) * width - 1)).collect();
    let request = TextImagerRequest::new(&text, "de", spans);
    let (sentences, offsets) = request.sentences_and_offsets().unwrap();
    assert_eq!(count, sentences.len());
    assert!(sentences.iter().all(|cut| *cut == sentence.trim_end()));
    assert_eq!((count - 1) * width, offsets[count - 1]);
}

#[test]
fn only_a_bad_range_blames_the_request() {
    assert!(PipelineError::OutOfBounds { sentence: 3 }.is_client_error());
    assert!(!PipelineError::Inference { sentence: 0 }.is_client_error());
    assert!(!PipelineError::MalformedSpan { sentence: 0, entity: 1 }.is_client_error());
}
