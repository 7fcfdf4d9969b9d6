//! Taking the sentences out of the text of a request.

use vstd::prelude::*;
use crate::error::PipelineError;
use crate::positions::{byte_offset, byte_offsets, slice_chars};
use crate::schema::{SentenceOffsets, TextImagerRequest};

verus! {

/// Every range lies inside a text of `text_len` characters.
pub open spec fn all_fit(spans: Seq<SentenceOffsets>, text_len: nat) -> bool {
    forall|i: int| 0 <= i < spans.len() ==> (#[trigger] spans[i]).fits(text_len)
}

/// Range `i` does not lie inside the text, and every range before it does.
pub open spec fn is_first_unfit(spans: Seq<SentenceOffsets>, text_len: nat, i: int) -> bool {
    &&& 0 <= i < spans.len()
    &&& !spans[i].fits(text_len)
    &&& forall|k: int| 0 <= k < i ==> (#[trigger] spans[k]).fits(text_len)
}

/// The error that the ranges call for, if any: the first range that does
/// not lie inside the text.
pub open spec fn extraction_error(spans: Seq<SentenceOffsets>, text_len: nat) -> Option<
    PipelineError,
> {
    if all_fit(spans, text_len) {
        None
    } else {
        Some(
            PipelineError::OutOfBounds {
                sentence: (choose|i: int| is_first_unfit(spans, text_len, i)) as usize,
            },
        )
    }
}

/// The characters of `text` that `span` covers.
pub open spec fn sentence_text(text: Seq<char>, span: SentenceOffsets) -> Seq<char> {
    text.subrange(span.begin as int, span.end as int)
}

/// The text of each sentence, in the order of the ranges.
pub open spec fn sentence_texts(text: Seq<char>, spans: Seq<SentenceOffsets>) -> Seq<Seq<char>> {
    Seq::new(spans.len(), |i: int| sentence_text(text, spans[i]))
}

/// Where each sentence starts in the document, in the order of the ranges.
pub open spec fn sentence_begins(spans: Seq<SentenceOffsets>) -> Seq<usize> {
    Seq::new(spans.len(), |i: int| spans[i].begin)
}

/// At most one range is the first that does not fit.
pub proof fn lemma_first_unfit_unique(spans: Seq<SentenceOffsets>, text_len: nat, i: int)
    requires
        is_first_unfit(spans, text_len, i),
    ensures
        extraction_error(spans, text_len) == Some(PipelineError::OutOfBounds { sentence: i as usize }),
{
}

impl TextImagerRequest {
    /// A request for `text`, written in `language`, with its sentences at
    /// the given ranges.
    pub fn new(text: &str, language: &str, sentences: Vec<SentenceOffsets>) -> (request: Self)
        ensures
            request.text@ == text@,
            request.language@ == language@,
            request.sentences == sentences,
    {
        TextImagerRequest { text: text.to_owned(), language: language.to_owned(), sentences }
    }

    /// Each sentence's text together with the position where it starts in
    /// the document, in the order of the ranges.
    ///
    /// Fails on the first range that is inverted or reaches past the end of
    /// the text.
    pub fn sentences_with_offsets<'a>(&'a self) -> (extracted: Result<
        Vec<(&'a str, usize)>,
        PipelineError,
    >)
        ensures
            match extracted {
                Ok(pairs) => {
                    &&& all_fit(self.sentences@, self.text@.len())
                    &&& pairs.len() == self.sentences.len()
                    &&& forall|i: int|
                        0 <= i < pairs.len() ==> (#[trigger] pairs[i]).0@ == sentence_text(
                            self.text@,
                            self.sentences[i],
                        ) && pairs[i].1 == self.sentences[i].begin
                },
                Err(e) => {
                    &&& extraction_error(self.sentences@, self.text@.len()) == Some(e)
                    &&& e matches PipelineError::OutOfBounds { sentence }
                    &&& is_first_unfit(self.sentences@, self.text@.len(), sentence as int)
                },
            },
    {
        let text = self.text.as_str();
        let table = byte_offsets(text);
        let text_len = table.len() - 1;
        let mut pairs: Vec<(&'a str, usize)> = Vec::new();
        let mut i: usize = 0;
        while i < self.sentences.len()
            invariant
                i <= self.sentences.len(),
                text@ == self.text@,
                text_len == text@.len(),
                table.len() == text@.len() + 1,
                forall|k: int|
                    0 <= k < table.len() ==> #[trigger] table[k] == byte_offset(text@, k),
                pairs.len() == i,
                forall|k: int| 0 <= k < i ==> (#[trigger] self.sentences[k]).fits(text_len as nat),
                forall|k: int|
                    0 <= k < i ==> (#[trigger] pairs[k]).0@ == sentence_text(
                        self.text@,
                        self.sentences[k],
                    ) && pairs[k].1 == self.sentences[k].begin,
            decreases self.sentences.len() - i,
        {
            let span = self.sentences[i];
            if span.begin > span.end || span.end > text_len {
                proof {
                    lemma_first_unfit_unique(self.sentences@, text_len as nat, i as int);
                }
                return Err(PipelineError::OutOfBounds { sentence: i });
            }
            pairs.push((slice_chars(text, &table, span.begin, span.end), span.begin));
            i = i + 1;
        }
        Ok(pairs)
    }

    /// The sentences' texts and, beside them, the positions where they start
    /// in the document.
    ///
    /// Fails on the first range that is inverted or reaches past the end of
    /// the text.
    pub fn sentences_and_offsets<'a>(&'a self) -> (extracted: Result<
        (Vec<&'a str>, Vec<usize>),
        PipelineError,
    >)
        ensures
            match extracted {
                Ok((sentences, offsets)) => {
                    &&& all_fit(self.sentences@, self.text@.len())
                    &&& sentences.deep_view() == sentence_texts(self.text@, self.sentences@)
                    &&& offsets@ == sentence_begins(self.sentences@)
                },
                Err(e) => {
                    &&& extraction_error(self.sentences@, self.text@.len()) == Some(e)
                    &&& e matches PipelineError::OutOfBounds { sentence }
                    &&& is_first_unfit(self.sentences@, self.text@.len(), sentence as int)
                },
            },
    {
        let pairs = match self.sentences_with_offsets() {
            Ok(pairs) => pairs,
            Err(e) => {
                return Err(e);
            },
        };
        let mut sentences: Vec<&'a str> = Vec::new();
        let mut offsets: Vec<usize> = Vec::new();
        let mut i: usize = 0;
        while i < pairs.len()
            invariant
                i <= pairs.len(),
                sentences.len() == i,
                offsets.len() == i,
                forall|k: int| 0 <= k < i ==> (#[trigger] sentences[k])@ == pairs[k].0@,
                forall|k: int| 0 <= k < i ==> (#[trigger] offsets[k]) == pairs[k].1,
            decreases pairs.len() - i,
        {
            let pair: (&'a str, usize) = pairs[i];
            sentences.push(pair.0);
            offsets.push(pair.1);
            i = i + 1;
        }
        Ok((sentences, offsets))
    }
}

} // verus!
