use duui_ner::assemble::assemble;
use duui_ner::error::PipelineError;
use duui_ner::offsets::map_entity;
use duui_ner::offsets::map_sentence;
use duui_ner::offsets::map_sentences;
use duui_ner::positions::byte_offsets;
use duui_ner::positions::slice_chars;
use duui_ner::schema::RawEntity;
use duui_ner::schema::SentenceOffsets;
use duui_ner::schema::TextImagerPrediction;
use duui_ner::schema::TextImagerResponse;
use duui_ner::whitespace::char_is_whitespace;
use duui_ner::whitespace::count_leading_whitespace;

#[test]
fn whitespace_is_what_the_standard_library_calls_whitespace() {
    for code in 0..=0x10FFFFu32 {
        if let Some(c) = char::from_u32(code) {
            assert_eq!(c.is_whitespace(), char_is_whitespace(c), "U+{:04X}", code);
        }
    }
}

#[test]
fn leading_whitespace_is_counted_in_characters() {
    assert_eq!(0, count_leading_whitespace(""));
    assert_eq!(0, count_leading_whitespace("Obama "));
    assert_eq!(1, count_leading_whitespace(" Obama"));
    assert_eq!(3, count_leading_whitespace(" \t\nObama \t"));
    assert_eq!(2, count_leading_whitespace("\u{00A0}\u{3000}Obama"));
    assert_eq!(4, count_leading_whitespace("  \r\u{2003}"));
    for word in ["", "x", " x", "\u{2028}\u{0085} x y", "   "] {
        let trimmed = word.trim_start().chars().count();
        assert_eq!(word.chars().count() - trimmed, count_leading_whitespace(word));
    }
}

#[test]
fn entity_without_leading_whitespace_is_not_corrected() {
    let entity = RawEntity::new("Obama", "PER", 7, 12);
    assert_eq!(Some(TextImagerPrediction::new("PER", 7, 12)), TextImagerPrediction::from_entity(&entity));
    let mapped = map_entity(&entity, SentenceOffsets::new(100, 120));
    assert_eq!(Some(TextImagerPrediction::new("PER", 107, 112)), mapped);
}

#[test]
fn leading_whitespace_moves_the_begin() {
    let entity = RawEntity::new(" Obama", "PER", 6, 12);
    assert_eq!(Some(TextImagerPrediction::new("PER", 7, 12)), TextImagerPrediction::from_entity(&entity));
    let entity = RawEntity::new("\u{00A0}\tÖl", "MISC", 0, 4);
    assert_eq!(Some(TextImagerPrediction::new("MISC", 2, 4)), TextImagerPrediction::from_entity(&entity));
    let mapped = map_entity(&entity, SentenceOffsets::new(10, 14));
    assert_eq!(Some(TextImagerPrediction::new("MISC", 12, 14)), mapped);
}

#[test]
fn correction_past_the_end_is_refused() {
    let entity = RawEntity::new("   x", "PER", 3, 5);
    assert_eq!(None, TextImagerPrediction::from_entity(&entity));
    let entity = RawEntity::new("  x", "PER", 3, 5);
    assert_eq!(Some(TextImagerPrediction::new("PER", 5, 5)), TextImagerPrediction::from_entity(&entity));
    let entity = RawEntity::new("x", "PER", 6, 5);
    assert_eq!(None, TextImagerPrediction::from_entity(&entity));
    let entity = RawEntity::new(" x", "PER", u32::MAX, u32::MAX);
    assert_eq!(None, TextImagerPrediction::from_entity(&entity));
}

#[test]
fn entity_must_end_inside_its_sentence() {
    let entity = RawEntity::new("Obama", "PER", 7, 12);
    assert_eq!(None, map_entity(&entity, SentenceOffsets::new(100, 111)));
    assert_eq!(
        Some(TextImagerPrediction::new("PER", 107, 112)),
        map_entity(&entity, SentenceOffsets::new(100, 112))
    );
    assert_eq!(None, map_entity(&entity, SentenceOffsets::new(112, 100)));
    let empty = RawEntity::new("", "PER", 0, 0);
    assert_eq!(
        Some(TextImagerPrediction::new("PER", usize::MAX, usize::MAX)),
        map_entity(&empty, SentenceOffsets::new(usize::MAX, 3))
    );
}

#[test]
fn with_offset_moves_both_ends() {
    let moved = TextImagerPrediction::new("LOC", 47, 66).with_offset(76);
    assert_eq!(TextImagerPrediction::new("LOC", 123, 142), moved);
    let moved = TextImagerPrediction::new("LOC", 3, 4).with_offset(0);
    assert_eq!(TextImagerPrediction::new("LOC", 3, 4), moved);
    let moved = TextImagerPrediction::new("LOC", 0, 4).with_offset(usize::MAX - 4);
    assert_eq!(TextImagerPrediction::new("LOC", usize::MAX - 4, usize::MAX), moved);
}

#[test]
fn first_misfit_of_a_sentence_is_named() {
    let entities = vec![
        RawEntity::new("a", "A", 0, 1),
        RawEntity::new("  b", "B", 2, 3),
        RawEntity::new("c", "C", 9, 8),
    ];
    assert_eq!(Err(1), map_sentence(&entities, SentenceOffsets::new(10, 20)));
    assert_eq!(Err(0), map_sentence(&entities, SentenceOffsets::new(10, 10)));
    let good = vec![RawEntity::new("a", "A", 0, 1), RawEntity::new(" b", "B", 2, 4)];
    assert_eq!(
        Ok(vec![TextImagerPrediction::new("A", 10, 11), TextImagerPrediction::new("B", 13, 14)]),
        map_sentence(&good, SentenceOffsets::new(10, 14))
    );
    assert_eq!(Ok(Vec::new()), map_sentence(&Vec::new(), SentenceOffsets::new(10, 14)));
}

#[test]
fn first_misfit_of_all_sentences_is_named() {
    let spans = vec![SentenceOffsets::new(0, 4), SentenceOffsets::new(4, 8), SentenceOffsets::new(8, 9)];
    let entities = vec![
        vec![RawEntity::new("a", "A", 0, 1)],
        vec![RawEntity::new("b", "B", 0, 4), RawEntity::new(" c", "C", 4, 4)],
        vec![RawEntity::new("d", "D", 0, 2)],
    ];
    assert_eq!(
        Err(PipelineError::MalformedSpan { sentence: 1, entity: 1 }),
        map_sentences(&spans, &entities)
    );
    let entities = vec![
        vec![RawEntity::new("a", "A", 0, 1)],
        vec![RawEntity::new("b", "B", 0, 4)],
        vec![RawEntity::new("d", "D", 0, 2)],
    ];
    assert_eq!(
        Err(PipelineError::MalformedSpan { sentence: 2, entity: 0 }),
        map_sentences(&spans, &entities)
    );
    let entities = vec![
        vec![RawEntity::new("a", "A", 0, 1), RawEntity::new(" a", "A", 2, 4)],
        Vec::new(),
        vec![RawEntity::new("d", "D", 0, 1)],
    ];
    assert_eq!(
        Ok(vec![
            vec![TextImagerPrediction::new("A", 0, 1), TextImagerPrediction::new("A", 3, 4)],
            Vec::new(),
            vec![TextImagerPrediction::new("D", 8, 9)],
        ]),
        map_sentences(&spans, &entities)
    );
    assert_eq!(
        Err(PipelineError::Inference { sentence: 0 }),
        map_sentences(&spans, &Vec::new())
    );
}

#[test]
fn assembling_keeps_every_prediction_in_place() {
    let lists = vec![
        vec![TextImagerPrediction::new("B", 9, 10), TextImagerPrediction::new("A", 1, 2)],
        Vec::new(),
        vec![TextImagerPrediction::new("A", 1, 2)],
        vec![TextImagerPrediction::new("C", 0, 0)],
    ];
    let response = assemble(lists);
    assert_eq!(
        vec![
            TextImagerPrediction::new("B", 9, 10),
            TextImagerPrediction::new("A", 1, 2),
            TextImagerPrediction::new("A", 1, 2),
            TextImagerPrediction::new("C", 0, 0),
        ],
        response.predictions
    );
    assert_eq!(None, response.meta);
    assert_eq!(TextImagerResponse::new(Vec::new()), assemble(Vec::new()));
    assert_eq!(TextImagerResponse::default(), assemble(vec![Vec::new(), Vec::new()]));
}

#[test]
fn sentence_length_counts_the_range() {
    assert_eq!(74, SentenceOffsets::new(0, 74).len());
    assert_eq!(0, SentenceOffsets::new(5, 5).len());
    assert_eq!(0, SentenceOffsets::new(6, 5).len());
    assert_eq!(usize::MAX, SentenceOffsets::new(0, usize::MAX).len());
}

#[test]
fn positions_are_found_in_the_bytes() {
    assert_eq!(vec![0], byte_offsets(""));
    assert_eq!(vec![0, 1, 2, 3], byte_offsets("abc"));
    assert_eq!(vec![0, 1, 3, 6, 10, 11], byte_offsets("aä€😀b"));
    let text = "Präsident – 😀!";
    let table = byte_offsets(text);
    assert_eq!(text.chars().count() + 1, table.len());
    assert_eq!("räs", slice_chars(text, &table, 1, 4));
    assert_eq!("– 😀", slice_chars(text, &table, 10, 13));
    assert_eq!("", slice_chars(text, &table, 14, 14));
    assert_eq!(text, slice_chars(text, &table, 0, 14));
}
