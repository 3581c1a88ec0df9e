//! A client library for a hosted language-model API, built around a
//! byte-pair-encoding tokenizer.
//!
//! - `table`, `merge`, `engine`, `split` and `core_bpe`: the byte-pair
//!   encoding engine, its model and the round-trip laws.
//! - `bundled`, `tokenizer`, `tokenize`, `registry` and `models`: the bundled
//!   encodings, their special tokens, a registry that builds each at most
//!   once, and which encoding a model uses.
//! - `stream`: extraction of fields from a buffered server-sent event stream.
//! - `error`, `urls`, `client`, `builders`, `images`, `chat`, `files` and
//!   `model_enums`: the requests and responses of the service; `text`:
//!   character-level helpers they use.
pub mod table;
pub mod merge;
pub mod split;
pub mod engine;
pub mod core_bpe;
pub mod bundled;
pub mod tokenizer;
pub mod tokenize;
pub mod models;
pub mod stream;
pub mod error;
pub mod urls;
pub mod client;
pub mod builders;
pub mod images;
pub mod chat;
pub mod files;
pub mod model_enums;
pub mod registry;
pub mod text;
