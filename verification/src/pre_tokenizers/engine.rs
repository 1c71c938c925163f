//! The pre-tokenization engine as this library sees it.
//!
//! Strategies are values of the `tokenizers` crate. The library never looks
//! inside one: it makes them, passes them on, asks the engine to run them and
//! asks the engine's codec for their documents. The functions of this module
//! are trusted: their contracts state what the engine's source shows, and
//! Verus takes them as given.
use vstd::prelude::*;
use tokenizers::pre_tokenizers::PreTokenizerWrapper;
use tokenizers::PreTokenizedString;

verus! {

/// A pre-tokenization strategy of the engine.
#[verifier::external_type_specification]
#[verifier::external_body]
pub struct ExPreTokenizerWrapper(tokenizers::pre_tokenizers::PreTokenizerWrapper);

/// A text on its way through pre-tokenization, with the splits made so far.
#[verifier::external_type_specification]
#[verifier::external_body]
pub struct ExPreTokenizedString(tokenizers::PreTokenizedString);

/// What the JSON encoder makes of a strategy: its canonical document, or the
/// message of the encoder's error.
pub uninterp spec fn unit_document(unit: PreTokenizerWrapper) -> Result<Seq<char>, Seq<char>>;

/// What the JSON decoder makes of a text: the strategy that the text is the
/// document of, if it is the document of one.
pub uninterp spec fn decoded_unit(document: Seq<char>) -> Option<PreTokenizerWrapper>;

/// What running a strategy on a text comes to: the text afterwards, and the
/// message of the engine's error if it failed.
pub uninterp spec fn unit_outcome(unit: PreTokenizerWrapper, input: PreTokenizedString) -> (
    PreTokenizedString,
    Option<Seq<char>>,
);

/// The kinds of strategy that the engine has.
#[derive(Clone, Copy, Debug, PartialEq, Eq, Structural)]
pub enum EngineVariant {
    BertPreTokenizer,
    ByteLevel,
    Delimiter,
    Metaspace,
    Whitespace,
    /// A sequence of the engine's own, with strategies inside it.
    Sequence,
    /// A split at a pattern that whoever made the strategy chose.
    Split,
    Punctuation,
    WhitespaceSplit,
    Digits,
    UnicodeScripts,
}

/// Of which kind a strategy is.
pub uninterp spec fn variant_of(unit: PreTokenizerWrapper) -> EngineVariant;

/// Whether the engine runs every strategy of this kind to an end. A split at
/// a chosen pattern is searched for by a backtracking matcher, which gives
/// up after a fixed number of steps, and the engine then stops the program.
/// A sequence of the engine's own may hold such a split.
pub open spec fn runs_to_an_end(variant: EngineVariant) -> bool {
    variant != EngineVariant::Split && variant != EngineVariant::Sequence
}

/// The strategies that this library makes, each by what it is made from.
#[derive(Clone, Copy, Debug, PartialEq, Eq)]
pub enum Strategy {
    /// Splits as byte-level byte-pair encoding needs it.
    ByteLevel { add_prefix_space: bool },
    /// Splits into words and runs of punctuation.
    Whitespace,
    /// Splits at white space.
    WhitespaceSplit,
    /// Splits as BERT does.
    BertPreTokenizer,
    /// Puts `replacement` in place of spaces and splits at it.
    Metaspace { replacement: char, add_prefix_space: bool },
    /// Sets each punctuation character apart.
    Punctuation,
    /// Splits at each occurrence of `delimiter`.
    CharDelimiterSplit { delimiter: char },
}

/// The engine's strategy that `made_from` describes.
pub uninterp spec fn strategy(made_from: Strategy) -> PreTokenizerWrapper;

/// The canonical document of a strategy.
///
/// Trusted: calls `serde_json::to_string` on the strategy. The contract only
/// names the result: the document is a function of the strategy alone.
#[verifier::external_body]
pub(crate) fn encode_unit(unit: &PreTokenizerWrapper) -> (r: Result<String, String>)
    ensures
        match r {
            Ok(s) => unit_document(*unit) == Ok::<Seq<char>, Seq<char>>(s@),
            Err(m) => unit_document(*unit) == Err::<Seq<char>, Seq<char>>(m@),
        },
{
    match serde_json::to_string(unit) {
        Ok(s) => Ok(s),
        Err(e) => Err(e.to_string()),
    }
}

/// The strategy that a text is the document of.
///
/// Trusted: calls `serde_json::from_str` for a `PreTokenizerWrapper`. The
/// contract only names the result: it is a function of the text alone.
#[verifier::external_body]
pub(crate) fn decode_unit(document: &str) -> (r: Option<PreTokenizerWrapper>)
    ensures
        r == decoded_unit(document@),
{
    serde_json::from_str(document).ok()
}

/// Of which kind a strategy is.
///
/// Trusted: tells the variants of the engine's `PreTokenizerWrapper` apart.
/// The contract only names the result.
#[verifier::external_body]
pub(crate) fn unit_variant(unit: &PreTokenizerWrapper) -> (r: EngineVariant)
    ensures
        r == variant_of(*unit),
{
    match unit {
        PreTokenizerWrapper::BertPreTokenizer(_) => EngineVariant::BertPreTokenizer,
        PreTokenizerWrapper::ByteLevel(_) => EngineVariant::ByteLevel,
        PreTokenizerWrapper::Delimiter(_) => EngineVariant::Delimiter,
        PreTokenizerWrapper::Metaspace(_) => EngineVariant::Metaspace,
        PreTokenizerWrapper::Whitespace(_) => EngineVariant::Whitespace,
        PreTokenizerWrapper::Sequence(_) => EngineVariant::Sequence,
        PreTokenizerWrapper::Split(_) => EngineVariant::Split,
        PreTokenizerWrapper::Punctuation(_) => EngineVariant::Punctuation,
        PreTokenizerWrapper::WhitespaceSplit(_) => EngineVariant::WhitespaceSplit,
        PreTokenizerWrapper::Digits(_) => EngineVariant::Digits,
        PreTokenizerWrapper::UnicodeScripts(_) => EngineVariant::UnicodeScripts,
    }
}

/// Runs a strategy on a text.
///
/// Trusted: calls `PreTokenizer::pre_tokenize` of the engine. The contract
/// only names the result: the text afterwards and the failure, if any, are
/// functions of the strategy and the text before. Strategies of the kinds
/// that the engine may not run to an end are left out.
#[verifier::external_body]
pub(crate) fn run_unit(unit: &PreTokenizerWrapper, pretokenized: &mut PreTokenizedString) -> (r:
    Result<(), String>)
    requires
        runs_to_an_end(variant_of(*unit)),
    ensures
        *final(pretokenized) == unit_outcome(*unit, *old(pretokenized)).0,
        match r {
            Ok(_) => unit_outcome(*unit, *old(pretokenized)).1 == None::<Seq<char>>,
            Err(m) => unit_outcome(*unit, *old(pretokenized)).1 == Some(m@),
        },
{
    match tokenizers::PreTokenizer::pre_tokenize(unit, pretokenized) {
        Ok(()) => Ok(()),
        Err(e) => Err(e.to_string()),
    }
}

/// The byte-level strategy as the engine makes it by default.
///
/// Trusted: calls `ByteLevel::default`, which asks for the leading space.
#[verifier::external_body]
pub(crate) fn byte_level_default() -> (r: PreTokenizerWrapper)
    ensures
        r == strategy(Strategy::ByteLevel { add_prefix_space: true }),
{
    tokenizers::pre_tokenizers::byte_level::ByteLevel::default().into()
}

/// The byte-level strategy with a choice on the leading space.
///
/// Trusted: calls `ByteLevel::default` and `ByteLevel::add_prefix_space`,
/// which replaces that one field.
#[verifier::external_body]
pub(crate) fn byte_level_with(add_prefix_space: bool) -> (r: PreTokenizerWrapper)
    ensures
        r == strategy(Strategy::ByteLevel { add_prefix_space }),
{
    tokenizers::pre_tokenizers::byte_level::ByteLevel::default().add_prefix_space(
        add_prefix_space,
    ).into()
}

/// The strategy that splits into words and runs of punctuation.
///
/// Trusted: calls `Whitespace::default`.
#[verifier::external_body]
pub(crate) fn whitespace_unit() -> (r: PreTokenizerWrapper)
    ensures
        r == strategy(Strategy::Whitespace),
{
    tokenizers::pre_tokenizers::whitespace::Whitespace::default().into()
}

/// The strategy that splits at white space.
///
/// Trusted: makes a `WhitespaceSplit`.
#[verifier::external_body]
pub(crate) fn whitespace_split_unit() -> (r: PreTokenizerWrapper)
    ensures
        r == strategy(Strategy::WhitespaceSplit),
{
    tokenizers::pre_tokenizers::whitespace::WhitespaceSplit.into()
}

/// The strategy that splits as BERT does.
///
/// Trusted: makes a `BertPreTokenizer`.
#[verifier::external_body]
pub(crate) fn bert_unit() -> (r: PreTokenizerWrapper)
    ensures
        r == strategy(Strategy::BertPreTokenizer),
{
    tokenizers::pre_tokenizers::bert::BertPreTokenizer.into()
}

/// The strategy that sets each punctuation character apart.
///
/// Trusted: calls `Punctuation::default`.
#[verifier::external_body]
pub(crate) fn punctuation_unit() -> (r: PreTokenizerWrapper)
    ensures
        r == strategy(Strategy::Punctuation),
{
    tokenizers::pre_tokenizers::punctuation::Punctuation::default().into()
}

/// The strategy that puts `replacement` in place of spaces and splits at it.
///
/// Trusted: calls `Metaspace::new` with the two arguments.
#[verifier::external_body]
pub(crate) fn metaspace_unit(replacement: char, add_prefix_space: bool) -> (r: PreTokenizerWrapper)
    ensures
        r == strategy(Strategy::Metaspace { replacement, add_prefix_space }),
{
    tokenizers::pre_tokenizers::metaspace::Metaspace::new(replacement, add_prefix_space).into()
}

/// The strategy that splits at each occurrence of `delimiter`.
///
/// Trusted: calls `CharDelimiterSplit::new` with the argument.
#[verifier::external_body]
pub(crate) fn char_delimiter_unit(delimiter: char) -> (r: PreTokenizerWrapper)
    ensures
        r == strategy(Strategy::CharDelimiterSplit { delimiter }),
{
    tokenizers::pre_tokenizers::delimiter::CharDelimiterSplit::new(delimiter).into()
}

/// Whether `c` is one of the characters that the byte-level strategy writes
/// bytes as. A byte that is a visible character of Latin-1 is written as
/// that character; the other 68 bytes are written as the characters from
/// U+0100 on.
pub open spec fn stands_for_byte(c: char) -> bool {
    let code = c as int;
    33 <= code <= 126 || 161 <= code <= 172 || 174 <= code <= 323
}

/// The characters that the byte-level strategy writes bytes as.
///
/// Trusted: calls `ByteLevel::alphabet`, which returns the characters of
/// the engine's table from bytes to characters as a set. The table gives
/// each of the 256 bytes a character of its own. The order in which this
/// function hands the characters out is not fixed.
#[verifier::external_body]
pub(crate) fn alphabet_characters() -> (r: Vec<char>)
    ensures
        r@.len() == 256,
        r@.no_duplicates(),
        forall|c: char| r@.contains(c) <==> stands_for_byte(c),
{
    tokenizers::pre_tokenizers::byte_level::ByteLevel::alphabet().into_iter().collect()
}

} // verus!
