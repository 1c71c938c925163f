//! Trainer configurations and the builders that make them from named options.
pub mod apply;
pub mod bpe;
pub mod config;
pub mod convert;
pub mod options;
pub mod trainer;
pub mod unigram;
pub mod word_level;

pub use config::{
    BpeTrainerConfig, BpeView, TrainerConfiguration, TrainerView, UnigramTrainerConfig, UnigramView,
    WordLevelTrainerConfig, WordLevelView,
};
pub use options::{AddedToken, IgnoredOption, ListItem, NamedOption, OptionSet, OptionValue};
pub use trainer::{
    PyBpeTrainer, PyTrainer, PyUnigramTrainer, PyWordLevelTrainer, PyWordPieceTrainer, TrainerSubtype,
};
