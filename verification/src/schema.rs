//! The data that requests and responses are made of.

use std::collections::HashMap;
use vstd::prelude::*;

verus! {

/// Half-open range `[begin, end)` of character positions in a document.
///
/// Positions count characters, not bytes, so that they line up with the
/// offsets a tokenizer reports.
#[derive(Clone, Copy, Debug, PartialEq, Eq, Structural)]
pub struct SentenceOffsets {
    pub begin: usize,
    pub end: usize,
}

impl SentenceOffsets {
    /// Number of characters in the range; zero when the range is inverted.
    pub open spec fn spec_len(self) -> nat {
        if self.begin <= self.end {
            (self.end - self.begin) as nat
        } else {
            0
        }
    }

    /// The range is not inverted and ends inside a text of `text_len` characters.
    pub open spec fn fits(self, text_len: nat) -> bool {
        self.begin <= self.end && self.end <= text_len
    }

    /// The range from `begin` up to, and without, `end`.
    pub fn new(begin: usize, end: usize) -> (span: Self)
        ensures
            span.begin == begin,
            span.end == end,
    {
        SentenceOffsets { begin, end }
    }

    /// Number of characters in the range; zero when the range is inverted.
    pub fn len(self) -> (n: usize)
        ensures
            n == self.spec_len(),
    {
        if self.begin <= self.end {
            self.end - self.begin
        } else {
            0
        }
    }
}

/// A document together with the sentence ranges computed for it upstream.
#[derive(Debug)]
pub struct TextImagerRequest {
    pub text: String,
    pub language: String,
    pub sentences: Vec<SentenceOffsets>,
}

/// An entity as the model reports it: offsets are character positions in the
/// sentence that was handed to the model, and `word` is the surface text,
/// which may start with the separator the tokenizer attached to it.
#[derive(Clone, Debug, PartialEq, Eq)]
pub struct RawEntity {
    pub word: String,
    pub label: String,
    pub begin: u32,
    pub end: u32,
}

/// Mathematical content of a [`RawEntity`].
pub struct RawEntityView {
    pub word: Seq<char>,
    pub label: Seq<char>,
    pub begin: nat,
    pub end: nat,
}

impl View for RawEntity {
    type V = RawEntityView;

    open spec fn view(&self) -> RawEntityView {
        RawEntityView {
            word: self.word@,
            label: self.label@,
            begin: self.begin as nat,
            end: self.end as nat,
        }
    }
}

impl DeepView for RawEntity {
    type V = RawEntityView;

    open spec fn deep_view(&self) -> RawEntityView {
        self@
    }
}

impl RawEntity {
    /// An entity with the given surface text, label and offsets.
    pub fn new(word: &str, label: &str, begin: u32, end: u32) -> (entity: Self)
        ensures
            entity@ == (RawEntityView {
                word: word@,
                label: label@,
                begin: begin as nat,
                end: end as nat,
            }),
    {
        RawEntity { word: word.to_owned(), label: label.to_owned(), begin, end }
    }
}

/// A labelled range `[begin, end)` of character positions.
#[derive(Clone, Debug, PartialEq, Eq)]
pub struct TextImagerPrediction {
    pub label: String,
    pub begin: usize,
    pub end: usize,
}

/// Mathematical content of a [`TextImagerPrediction`].
pub struct PredictionView {
    pub label: Seq<char>,
    pub begin: nat,
    pub end: nat,
}

impl PredictionView {
    /// The range is not inverted and lies between `low` and `high`.
    pub open spec fn within(self, low: int, high: int) -> bool {
        low <= self.begin && self.begin <= self.end && self.end <= high
    }
}

impl View for TextImagerPrediction {
    type V = PredictionView;

    open spec fn view(&self) -> PredictionView {
        PredictionView { label: self.label@, begin: self.begin as nat, end: self.end as nat }
    }
}

impl DeepView for TextImagerPrediction {
    type V = PredictionView;

    open spec fn deep_view(&self) -> PredictionView {
        self@
    }
}

impl TextImagerPrediction {
    /// A prediction with the given label on the range from `begin` to `end`.
    pub fn new(label: &str, begin: usize, end: usize) -> (prediction: Self)
        ensures
            prediction@ == (PredictionView {
                label: label@,
                begin: begin as nat,
                end: end as nat,
            }),
    {
        TextImagerPrediction { label: label.to_owned(), begin, end }
    }
}

/// The answer to one request.
#[derive(Debug, PartialEq, Eq)]
pub struct TextImagerResponse {
    pub predictions: Vec<TextImagerPrediction>,
    pub meta: Option<HashMap<String, String>>,
}

impl TextImagerResponse {
    /// Wraps `predictions`, in the order given, with no meta data.
    pub fn new(predictions: Vec<TextImagerPrediction>) -> (response: Self)
        ensures
            response.predictions == predictions,
            response.meta is None,
    {
        TextImagerResponse { predictions, meta: None }
    }
}

impl Default for TextImagerResponse {
    fn default() -> (response: Self)
        ensures
            response.predictions@.len() == 0,
            response.meta is None,
    {
        TextImagerResponse { predictions: Vec::new(), meta: None }
    }
}

} // verus!
