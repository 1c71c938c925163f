//! Pre-tokenizers: single strategies and flat sequences of them.
pub mod construct;
pub mod document;
pub mod engine;
pub mod wrapper;

pub use construct::{
    alphabet_strings, bert_pre_tokenizer, byte_level, byte_level_alphabet, char_delimiter_split,
    metaspace, punctuation, whitespace, whitespace_split,
};
pub use engine::Strategy;
pub use wrapper::{JsPreTokenizerWrapper, PreTokenizer, WrapperView, sequence};
