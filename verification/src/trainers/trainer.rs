//! Trainers as they are handed to a host: a shared configuration, and one
//! marker type per algorithm.
use std::sync::Arc;
use vstd::prelude::*;
use crate::error::{ConfigurationError, ErrorView};
use crate::trainers::apply::{after_build, configured, given, unrecognized};
use crate::trainers::bpe;
use crate::trainers::config::{
    BpeTrainerConfig, BpeView, TrainerConfiguration, TrainerView, UnigramTrainerConfig, UnigramView,
    WordLevelTrainerConfig, WordLevelView,
};
use crate::trainers::options::{IgnoredOption, OptionSet, ignored_names};
use crate::trainers::unigram;
use crate::trainers::word_level;

verus! {

/// A trainer of any of the four algorithms. The configuration is shared among
/// the holders of the trainer and never changes.
#[derive(Clone, Debug)]
pub struct PyTrainer {
    pub trainer: Arc<TrainerConfiguration>,
}

impl View for PyTrainer {
    type V = TrainerView;

    open spec fn view(&self) -> TrainerView {
        self.trainer@
    }
}

/// Marks a trainer as one of byte-pair encoding.
#[derive(Clone, Copy, Debug, PartialEq, Eq)]
pub struct PyBpeTrainer {}

/// Marks a trainer as one of WordPiece.
#[derive(Clone, Copy, Debug, PartialEq, Eq)]
pub struct PyWordPieceTrainer {}

/// Marks a trainer as a word-level one.
#[derive(Clone, Copy, Debug, PartialEq, Eq)]
pub struct PyWordLevelTrainer {}

/// Marks a trainer as a unigram one.
#[derive(Clone, Copy, Debug, PartialEq, Eq)]
pub struct PyUnigramTrainer {}

/// A trainer together with the marker of its algorithm.
#[derive(Clone, Debug)]
pub enum TrainerSubtype {
    Bpe(PyBpeTrainer, PyTrainer),
    WordPiece(PyWordPieceTrainer, PyTrainer),
    WordLevel(PyWordLevelTrainer, PyTrainer),
    Unigram(PyUnigramTrainer, PyTrainer),
}

impl TrainerSubtype {
    /// The trainer that the marker goes with.
    pub open spec fn base(self) -> PyTrainer {
        match self {
            TrainerSubtype::Bpe(_, base) => base,
            TrainerSubtype::WordPiece(_, base) => base,
            TrainerSubtype::WordLevel(_, base) => base,
            TrainerSubtype::Unigram(_, base) => base,
        }
    }
}

impl PyTrainer {
    /// A trainer that shares the given configuration.
    pub fn new(trainer: Arc<TrainerConfiguration>) -> (r: PyTrainer)
        ensures
            r.trainer == trainer,
    {
        PyTrainer { trainer }
    }

    /// A trainer with the given configuration.
    pub fn from(trainer: TrainerConfiguration) -> (r: PyTrainer)
        ensures
            *r.trainer == trainer,
    {
        PyTrainer { trainer: Arc::new(trainer) }
    }

    /// The trainer with the marker of its algorithm: the marker is that of
    /// the configuration's variant, and the trainer shares this one's
    /// configuration.
    pub fn get_as_subtype(&self) -> (r: TrainerSubtype)
        ensures
            r.base() == *self,
            match *self.trainer {
                TrainerConfiguration::Bpe(_) => r is Bpe,
                TrainerConfiguration::WordPiece(_) => r is WordPiece,
                TrainerConfiguration::WordLevel(_) => r is WordLevel,
                TrainerConfiguration::Unigram(_) => r is Unigram,
            },
    {
        let base = PyTrainer { trainer: self.trainer.clone() };
        match &*self.trainer {
            TrainerConfiguration::Bpe(_) => TrainerSubtype::Bpe(PyBpeTrainer {  }, base),
            TrainerConfiguration::WordPiece(_) => TrainerSubtype::WordPiece(PyWordPieceTrainer {  }, base),
            TrainerConfiguration::WordLevel(_) => TrainerSubtype::WordLevel(PyWordLevelTrainer {  }, base),
            TrainerConfiguration::Unigram(_) => TrainerSubtype::Unigram(PyUnigramTrainer {  }, base),
        }
    }

    /// Whether training reports its progress: the `show_progress` field of
    /// the configuration.
    pub fn should_show_progress(&self) -> (r: bool)
        ensures
            r == self@.show_progress(),
    {
        self.trainer.should_show_progress()
    }
}

impl PyBpeTrainer {
    /// Builds a byte-pair encoding trainer from named options.
    ///
    /// Starting from the defaults, the options are applied in order. The
    /// build fails with the error of the first recognized option whose value
    /// has the wrong type or shape. Otherwise it returns the trainer, and a
    /// notice for each option that was not recognized. In the caller's
    /// options, the added-token records in the lists of special tokens that
    /// were read are marked special; nothing else of the options changes.
    pub fn new(kwargs: Option<&mut OptionSet>) -> (r: Result<
        (PyBpeTrainer, PyTrainer, Vec<IgnoredOption>),
        ConfigurationError,
    >)
        ensures
            match configured(BpeView::bpe_defaults(), given(kwargs)) {
                Ok(config) => r matches Ok((_, base, notices)) && base@ == TrainerView::Bpe(config)
                    && base.trainer.wf() && ignored_names(notices@) == unrecognized::<BpeView>(
                    given(kwargs),
                ),
                Err(e) => r matches Err(x) && x@ == e,
            },
            match kwargs {
                Some(set) => final(set)@ == after_build(BpeView::bpe_defaults(), set@),
                None => true,
            },
    {
        match bpe::configure(BpeTrainerConfig::bpe_defaults(), kwargs) {
            Ok((config, notices)) => Ok(
                (PyBpeTrainer {  }, PyTrainer::from(TrainerConfiguration::Bpe(config)), notices),
            ),
            Err(e) => Err(e),
        }
    }
}

impl PyWordPieceTrainer {
    /// Builds a WordPiece trainer from named options.
    ///
    /// Starting from the defaults, the options are applied in order. The
    /// build fails with the error of the first recognized option whose value
    /// has the wrong type or shape. Otherwise it returns the trainer, and a
    /// notice for each option that was not recognized. In the caller's
    /// options, the added-token records in the lists of special tokens that
    /// were read are marked special; nothing else of the options changes.
    pub fn new(kwargs: Option<&mut OptionSet>) -> (r: Result<
        (PyWordPieceTrainer, PyTrainer, Vec<IgnoredOption>),
        ConfigurationError,
    >)
        ensures
            match configured(BpeView::word_piece_defaults(), given(kwargs)) {
                Ok(config) => r matches Ok((_, base, notices)) && base@ == TrainerView::WordPiece(
                    config,
                ) && base.trainer.wf() && ignored_names(notices@) == unrecognized::<BpeView>(
                    given(kwargs),
                ),
                Err(e) => r matches Err(x) && x@ == e,
            },
            match kwargs {
                Some(set) => final(set)@ == after_build(BpeView::word_piece_defaults(), set@),
                None => true,
            },
    {
        match bpe::configure(BpeTrainerConfig::word_piece_defaults(), kwargs) {
            Ok((config, notices)) => Ok(
                (
                    PyWordPieceTrainer {  },
                    PyTrainer::from(TrainerConfiguration::WordPiece(config)),
                    notices,
                ),
            ),
            Err(e) => Err(e),
        }
    }
}

impl PyWordLevelTrainer {
    /// Builds a word-level trainer from named options.
    ///
    /// Starting from the defaults, the options are applied in order. The
    /// build fails with the error of the first recognized option whose value
    /// has the wrong type or shape. Otherwise it returns the trainer, and a
    /// notice for each option that was not recognized. In the caller's
    /// options, the added-token records in the lists of special tokens that
    /// were read are marked special; nothing else of the options changes.
    pub fn new(kwargs: Option<&mut OptionSet>) -> (r: Result<
        (PyWordLevelTrainer, PyTrainer, Vec<IgnoredOption>),
        ConfigurationError,
    >)
        ensures
            match configured(WordLevelView::defaults(), given(kwargs)) {
                Ok(config) => r matches Ok((_, base, notices)) && base@ == TrainerView::WordLevel(
                    config,
                ) && ignored_names(notices@) == unrecognized::<WordLevelView>(given(kwargs)),
                Err(e) => r matches Err(x) && x@ == e,
            },
            match kwargs {
                Some(set) => final(set)@ == after_build(WordLevelView::defaults(), set@),
                None => true,
            },
    {
        match word_level::configure(WordLevelTrainerConfig::defaults(), kwargs) {
            Ok((config, notices)) => Ok(
                (
                    PyWordLevelTrainer {  },
                    PyTrainer::from(TrainerConfiguration::WordLevel(config)),
                    notices,
                ),
            ),
            Err(e) => Err(e),
        }
    }
}

/// What finishing a unigram trainer comes to, given the settings and the
/// outcome of the validation that follows the options: the trainer where the
/// settings passed, else the failure with its cause.
pub open spec fn finished(config: UnigramView, validation: Result<(), Seq<char>>) -> Result<
    TrainerView,
    ErrorView,
> {
    match validation {
        Ok(_) => Ok(TrainerView::Unigram(config)),
        Err(cause) => Err(ErrorView::BuildValidationFailure { cause }),
    }
}

/// The outcome of a validation, with the text of its cause.
pub open spec fn outcome_view(validation: Result<(), String>) -> Result<(), Seq<char>> {
    match validation {
        Ok(_) => Ok(()),
        Err(cause) => Err(cause@),
    }
}

impl PyUnigramTrainer {
    /// Makes the settings of a unigram trainer from named options.
    ///
    /// Starting from the defaults, the options are applied in order. This
    /// fails with the error of the first recognized option whose value has
    /// the wrong type or shape. Otherwise it returns the settings, and a
    /// notice for each option that was not recognized. In the caller's
    /// options, the added-token records in the lists of special tokens that
    /// were read are marked special; nothing else of the options changes.
    /// The settings become a trainer through `new`, once they were validated.
    pub fn configure(kwargs: Option<&mut OptionSet>) -> (r: Result<
        (UnigramTrainerConfig, Vec<IgnoredOption>),
        ConfigurationError,
    >)
        ensures
            match configured(UnigramView::defaults(), given(kwargs)) {
                Ok(config) => r matches Ok((c, notices)) && c@ == config && ignored_names(notices@)
                    == unrecognized::<UnigramView>(given(kwargs)),
                Err(e) => r matches Err(x) && x@ == e,
            },
            match kwargs {
                Some(set) => final(set)@ == after_build(UnigramView::defaults(), set@),
                None => true,
            },
    {
        unigram::configure(UnigramTrainerConfig::defaults(), kwargs)
    }

    /// Finishes a unigram trainer. `validation` is what the training engine's
    /// own validation said of `config`: where it rejected the settings, the
    /// build fails with its cause; where it accepted them, they become the
    /// trainer's configuration unchanged.
    pub fn new(config: UnigramTrainerConfig, validation: Result<(), String>) -> (r: Result<
        (PyUnigramTrainer, PyTrainer),
        ConfigurationError,
    >)
        ensures
            match finished(config@, outcome_view(validation)) {
                Ok(trainer) => r matches Ok((_, base)) && base@ == trainer,
                Err(e) => r matches Err(x) && x@ == e,
            },
    {
        match validation {
            Ok(_) => Ok((PyUnigramTrainer {  }, PyTrainer::from(TrainerConfiguration::Unigram(config)))),
            Err(cause) => Err(ConfigurationError::BuildValidationFailure { cause }),
        }
    }
}

} // verus!
