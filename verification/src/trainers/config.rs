//! The validated, typed configurations, one shape per training algorithm.
use vstd::prelude::*;
use vstd::string::*;
use crate::trainers::options::{AddedToken, TokenView, token_views};

verus! {

/// Settings of a trainer that merges frequent pairs of symbols. Byte-pair
/// encoding and WordPiece training both take these settings.
#[derive(Clone, Debug, PartialEq, Eq)]
pub struct BpeTrainerConfig {
    /// How often a pair must occur to be merged.
    pub min_frequency: u32,
    /// The size that the vocabulary is to reach.
    pub vocab_size: usize,
    /// Whether training reports its progress.
    pub show_progress: bool,
    /// Tokens that the vocabulary holds from the start, in order.
    pub special_tokens: Vec<AddedToken>,
    /// The number of distinct initial characters to keep, where it is limited.
    pub limit_alphabet: Option<usize>,
    /// Characters that the alphabet holds whether or not the corpus does.
    /// A set: no character occurs twice.
    pub initial_alphabet: Vec<char>,
    /// What is put before a subword that continues a word.
    pub continuing_subword_prefix: Option<String>,
    /// What is put behind a subword that ends a word.
    pub end_of_word_suffix: Option<String>,
}

/// A `BpeTrainerConfig` as a mathematical record.
pub struct BpeView {
    pub min_frequency: u32,
    pub vocab_size: usize,
    pub show_progress: bool,
    pub special_tokens: Seq<TokenView>,
    pub limit_alphabet: Option<usize>,
    pub initial_alphabet: Set<char>,
    pub continuing_subword_prefix: Option<Seq<char>>,
    pub end_of_word_suffix: Option<Seq<char>>,
}

/// The text of an optional string.
pub open spec fn text_view(s: Option<String>) -> Option<Seq<char>> {
    match s {
        Some(t) => Some(t@),
        None => None,
    }
}

impl View for BpeTrainerConfig {
    type V = BpeView;

    open spec fn view(&self) -> BpeView {
        BpeView {
            min_frequency: self.min_frequency,
            vocab_size: self.vocab_size,
            show_progress: self.show_progress,
            special_tokens: token_views(self.special_tokens@),
            limit_alphabet: self.limit_alphabet,
            initial_alphabet: self.initial_alphabet@.to_set(),
            continuing_subword_prefix: text_view(self.continuing_subword_prefix),
            end_of_word_suffix: text_view(self.end_of_word_suffix),
        }
    }
}

impl BpeView {
    /// The settings of a byte-pair encoding trainer to which no option was given.
    pub open spec fn bpe_defaults() -> BpeView {
        BpeView {
            min_frequency: 0,
            vocab_size: 30000,
            show_progress: true,
            special_tokens: Seq::empty(),
            limit_alphabet: None,
            initial_alphabet: Set::empty(),
            continuing_subword_prefix: None,
            end_of_word_suffix: None,
        }
    }

    /// The settings of a WordPiece trainer to which no option was given:
    /// those of byte-pair encoding, with `##` before a continuing subword.
    pub open spec fn word_piece_defaults() -> BpeView {
        BpeView { continuing_subword_prefix: Some("##"@), ..Self::bpe_defaults() }
    }
}

impl BpeTrainerConfig {
    /// Whether the record keeps its invariant: the initial alphabet holds no
    /// character twice.
    pub open spec fn wf(&self) -> bool {
        self.initial_alphabet@.no_duplicates()
    }

    /// The settings of a byte-pair encoding trainer to which no option was given.
    pub fn bpe_defaults() -> (r: BpeTrainerConfig)
        ensures
            r.wf(),
            r@ == BpeView::bpe_defaults(),
    {
        let r = BpeTrainerConfig {
            min_frequency: 0,
            vocab_size: 30000,
            show_progress: true,
            special_tokens: Vec::new(),
            limit_alphabet: None,
            initial_alphabet: Vec::new(),
            continuing_subword_prefix: None,
            end_of_word_suffix: None,
        };
        assert(r@.special_tokens =~= Seq::empty());
        assert(r@.initial_alphabet =~= Set::empty());
        r
    }

    /// The settings of a WordPiece trainer to which no option was given.
    pub fn word_piece_defaults() -> (r: BpeTrainerConfig)
        ensures
            r.wf(),
            r@ == BpeView::word_piece_defaults(),
    {
        let mut r = Self::bpe_defaults();
        r.continuing_subword_prefix = Some(String::from_str("##"));
        r
    }
}

/// Settings of a trainer that keeps the most frequent whole words.
#[derive(Clone, Debug, PartialEq, Eq)]
pub struct WordLevelTrainerConfig {
    /// How often a word must occur to enter the vocabulary.
    pub min_frequency: u32,
    /// The size that the vocabulary is to reach.
    pub vocab_size: usize,
    /// Whether training reports its progress.
    pub show_progress: bool,
    /// Tokens that the vocabulary holds from the start, in order.
    pub special_tokens: Vec<AddedToken>,
}

/// A `WordLevelTrainerConfig` as a mathematical record.
pub struct WordLevelView {
    pub min_frequency: u32,
    pub vocab_size: usize,
    pub show_progress: bool,
    pub special_tokens: Seq<TokenView>,
}

impl View for WordLevelTrainerConfig {
    type V = WordLevelView;

    open spec fn view(&self) -> WordLevelView {
        WordLevelView {
            min_frequency: self.min_frequency,
            vocab_size: self.vocab_size,
            show_progress: self.show_progress,
            special_tokens: token_views(self.special_tokens@),
        }
    }
}

impl WordLevelView {
    /// The settings of a word-level trainer to which no option was given.
    pub open spec fn defaults() -> WordLevelView {
        WordLevelView {
            min_frequency: 0,
            vocab_size: 30000,
            show_progress: true,
            special_tokens: Seq::empty(),
        }
    }
}

impl WordLevelTrainerConfig {
    /// The settings of a word-level trainer to which no option was given.
    pub fn defaults() -> (r: WordLevelTrainerConfig)
        ensures
            r@ == WordLevelView::defaults(),
    {
        let r = WordLevelTrainerConfig {
            min_frequency: 0,
            vocab_size: 30000,
            show_progress: true,
            special_tokens: Vec::new(),
        };
        assert(r@.special_tokens =~= Seq::empty());
        r
    }
}

/// The encoding of 0.75 as an IEEE 754 binary64 number.
pub const THREE_QUARTERS: u64 = 0x3fe8_0000_0000_0000;

/// Settings of a trainer that prunes a large seed vocabulary by likelihood.
#[derive(Clone, Debug, PartialEq, Eq)]
pub struct UnigramTrainerConfig {
    /// Whether training reports its progress.
    pub show_progress: bool,
    /// The size that the vocabulary is to reach.
    pub vocab_size: u32,
    /// How many rounds of expectation-maximization run before each pruning.
    pub n_sub_iterations: u32,
    /// The share of the pieces that a pruning keeps, as the IEEE 754
    /// binary64 encoding of the number.
    pub shrinking_factor: u64,
    /// Tokens that the vocabulary holds from the start, in order.
    pub special_tokens: Vec<AddedToken>,
    /// The token that stands for what the vocabulary does not cover.
    pub unk_token: Option<String>,
    /// The greatest length of a piece, in characters.
    pub max_piece_length: usize,
    /// The size of the seed vocabulary.
    pub seed_size: usize,
}

/// A `UnigramTrainerConfig` as a mathematical record.
pub struct UnigramView {
    pub show_progress: bool,
    pub vocab_size: u32,
    pub n_sub_iterations: u32,
    pub shrinking_factor: u64,
    pub special_tokens: Seq<TokenView>,
    pub unk_token: Option<Seq<char>>,
    pub max_piece_length: usize,
    pub seed_size: usize,
}

impl View for UnigramTrainerConfig {
    type V = UnigramView;

    open spec fn view(&self) -> UnigramView {
        UnigramView {
            show_progress: self.show_progress,
            vocab_size: self.vocab_size,
            n_sub_iterations: self.n_sub_iterations,
            shrinking_factor: self.shrinking_factor,
            special_tokens: token_views(self.special_tokens@),
            unk_token: text_view(self.unk_token),
            max_piece_length: self.max_piece_length,
            seed_size: self.seed_size,
        }
    }
}

impl UnigramView {
    /// The settings of a unigram trainer to which no option was given.
    pub open spec fn defaults() -> UnigramView {
        UnigramView {
            show_progress: true,
            vocab_size: 8000,
            n_sub_iterations: 2,
            shrinking_factor: THREE_QUARTERS,
            special_tokens: Seq::empty(),
            unk_token: None,
            max_piece_length: 16,
            seed_size: 1000000,
        }
    }
}

impl UnigramTrainerConfig {
    /// The settings of a unigram trainer to which no option was given.
    pub fn defaults() -> (r: UnigramTrainerConfig)
        ensures
            r@ == UnigramView::defaults(),
    {
        let r = UnigramTrainerConfig {
            show_progress: true,
            vocab_size: 8000,
            n_sub_iterations: 2,
            shrinking_factor: THREE_QUARTERS,
            special_tokens: Vec::new(),
            unk_token: None,
            max_piece_length: 16,
            seed_size: 1000000,
        };
        assert(r@.special_tokens =~= Seq::empty());
        r
    }
}

/// The configuration of a trainer: that of exactly one of four algorithms.
#[derive(Clone, Debug, PartialEq, Eq)]
pub enum TrainerConfiguration {
    Bpe(BpeTrainerConfig),
    WordPiece(BpeTrainerConfig),
    WordLevel(WordLevelTrainerConfig),
    Unigram(UnigramTrainerConfig),
}

/// A `TrainerConfiguration` as a mathematical value.
pub enum TrainerView {
    Bpe(BpeView),
    WordPiece(BpeView),
    WordLevel(WordLevelView),
    Unigram(UnigramView),
}

impl View for TrainerConfiguration {
    type V = TrainerView;

    open spec fn view(&self) -> TrainerView {
        match self {
            TrainerConfiguration::Bpe(c) => TrainerView::Bpe(c@),
            TrainerConfiguration::WordPiece(c) => TrainerView::WordPiece(c@),
            TrainerConfiguration::WordLevel(c) => TrainerView::WordLevel(c@),
            TrainerConfiguration::Unigram(c) => TrainerView::Unigram(c@),
        }
    }
}

impl TrainerView {
    /// Whether training under this configuration reports its progress.
    pub open spec fn show_progress(self) -> bool {
        match self {
            TrainerView::Bpe(c) => c.show_progress,
            TrainerView::WordPiece(c) => c.show_progress,
            TrainerView::WordLevel(c) => c.show_progress,
            TrainerView::Unigram(c) => c.show_progress,
        }
    }
}

impl TrainerConfiguration {
    /// Whether the configuration keeps its invariant.
    pub open spec fn wf(&self) -> bool {
        match self {
            TrainerConfiguration::Bpe(c) => c.wf(),
            TrainerConfiguration::WordPiece(c) => c.wf(),
            _ => true,
        }
    }

    /// Whether training under this configuration reports its progress.
    pub fn should_show_progress(&self) -> (r: bool)
        ensures
            r == self@.show_progress(),
    {
        match self {
            TrainerConfiguration::Bpe(c) => c.show_progress,
            TrainerConfiguration::WordPiece(c) => c.show_progress,
            TrainerConfiguration::WordLevel(c) => c.show_progress,
            TrainerConfiguration::Unigram(c) => c.show_progress,
        }
    }
}

} // verus!
