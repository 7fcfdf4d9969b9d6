//! Named entity recognition for documents that come with their sentence
//! boundaries: the sentences are taken out of the text, handed to a model in
//! batches, and the entities the model finds are reported as labelled ranges
//! of the document.
//!
//! All positions count characters. All ranges are half open: `begin` is the
//! first position inside, `end` the first position behind.

pub mod assemble;
pub mod batch;
pub mod config;
pub mod documentation;
pub mod error;
pub mod extract;
pub mod gateway;
pub mod laws;
pub mod offsets;
pub mod pipeline;
pub mod positions;
pub mod routes;
pub mod schema;
pub mod text;
pub mod whitespace;
