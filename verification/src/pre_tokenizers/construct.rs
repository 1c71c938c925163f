//! The constructors of pre-tokenizers. Each returns a filled slot.
use vstd::prelude::*;
use crate::pre_tokenizers::engine::{
    Strategy, alphabet_characters, bert_unit, byte_level_default, byte_level_with, char_delimiter_unit,
    metaspace_unit, punctuation_unit, stands_for_byte, strategy, whitespace_split_unit,
    whitespace_unit,
};
use crate::pre_tokenizers::wrapper::{JsPreTokenizerWrapper, PreTokenizer, WrapperView};
use crate::text::text_of;

verus! {

/// The slot's content where it is the single strategy that `made_from` describes.
pub open spec fn single(made_from: Strategy) -> Option<WrapperView> {
    Some(WrapperView::Wrapped(strategy(made_from)))
}

/// The replacement character of the metaspace strategy where none is given.
pub const DEFAULT_REPLACEMENT: char = '\u{2581}';

/// The byte-level strategy. Where `add_prefix_space` is left out, a space is
/// put before the first word.
pub fn byte_level(add_prefix_space: Option<bool>) -> (r: PreTokenizer)
    ensures
        r@ == single(
            Strategy::ByteLevel {
                add_prefix_space: match add_prefix_space {
                    Some(choice) => choice,
                    None => true,
                },
            },
        ),
{
    let unit = match add_prefix_space {
        Some(choice) => byte_level_with(choice),
        None => byte_level_default(),
    };
    PreTokenizer::filled(JsPreTokenizerWrapper::wrapped(unit))
}

/// One string for each character of `characters`, holding that character alone.
pub fn alphabet_strings(characters: &Vec<char>) -> (r: Vec<String>)
    ensures
        r@.len() == characters@.len(),
        forall|i: int| 0 <= i < r@.len() ==> (#[trigger] r@[i])@ == seq![characters@[i]],
{
    let mut out: Vec<String> = Vec::with_capacity(characters.len());
    let mut i: usize = 0;
    while i < characters.len()
        invariant
            i <= characters.len(),
            out@.len() == i,
            forall|j: int| 0 <= j < i ==> (#[trigger] out@[j])@ == seq![characters@[j]],
        decreases characters.len() - i,
    {
        let one: Vec<char> = vec![characters[i]];
        assert(one@ =~= seq![characters@[i as int]]);
        out.push(text_of(one.as_slice()));
        i += 1;
    }
    out
}

/// The alphabet of the byte-level strategy: one string for each of the 256
/// characters that stand for bytes, holding that character alone. No two
/// of the strings are alike. Their order is not fixed.
pub fn byte_level_alphabet() -> (r: Vec<String>)
    ensures
        r@.len() == 256,
        forall|i: int| 0 <= i < 256 ==> (#[trigger] r@[i])@.len() == 1 && stands_for_byte(r@[i]@[0]),
        forall|i: int, j: int| 0 <= i < j < 256 ==> (#[trigger] r@[i])@ != (#[trigger] r@[j])@,
        forall|c: char|
            stands_for_byte(c) ==> exists|i: int| 0 <= i < 256 && (#[trigger] r@[i])@ == seq![c],
{
    let characters = alphabet_characters();
    let out = alphabet_strings(&characters);
    assert forall|i: int| 0 <= i < 256 implies (#[trigger] out@[i])@.len() == 1 && stands_for_byte(
        out@[i]@[0],
    ) by {
        assert(out@[i]@ == seq![characters@[i]]);
        assert(characters@.contains(characters@[i]));
    }
    assert forall|i: int, j: int| 0 <= i < j < 256 implies (#[trigger] out@[i])@ != (
    #[trigger] out@[j])@ by {
        assert(out@[i]@[0] == characters@[i]);
        assert(out@[j]@[0] == characters@[j]);
    }
    assert forall|c: char| stands_for_byte(c) implies exists|i: int|
        0 <= i < 256 && (#[trigger] out@[i])@ == seq![c] by {
        assert(characters@.contains(c));
        let k = choose|k: int| 0 <= k < characters@.len() && characters@[k] == c;
        assert(out@[k]@ == seq![c]);
    }
    out
}

/// The strategy that splits into words and runs of punctuation.
pub fn whitespace() -> (r: PreTokenizer)
    ensures
        r@ == single(Strategy::Whitespace),
{
    PreTokenizer::filled(JsPreTokenizerWrapper::wrapped(whitespace_unit()))
}

/// The strategy that splits at white space.
pub fn whitespace_split() -> (r: PreTokenizer)
    ensures
        r@ == single(Strategy::WhitespaceSplit),
{
    PreTokenizer::filled(JsPreTokenizerWrapper::wrapped(whitespace_split_unit()))
}

/// The strategy that splits as BERT does.
pub fn bert_pre_tokenizer() -> (r: PreTokenizer)
    ensures
        r@ == single(Strategy::BertPreTokenizer),
{
    PreTokenizer::filled(JsPreTokenizerWrapper::wrapped(bert_unit()))
}

/// The metaspace strategy. Where `replacement` is left out it is `▁`
/// (U+2581); where `add_prefix_space` is left out, the replacement is put
/// before the first word.
pub fn metaspace(replacement: Option<char>, add_prefix_space: Option<bool>) -> (r: PreTokenizer)
    ensures
        r@ == single(
            Strategy::Metaspace {
                replacement: match replacement {
                    Some(c) => c,
                    None => DEFAULT_REPLACEMENT,
                },
                add_prefix_space: match add_prefix_space {
                    Some(choice) => choice,
                    None => true,
                },
            },
        ),
{
    let replacement = match replacement {
        Some(c) => c,
        None => DEFAULT_REPLACEMENT,
    };
    let add_prefix_space = match add_prefix_space {
        Some(choice) => choice,
        None => true,
    };
    PreTokenizer::filled(JsPreTokenizerWrapper::wrapped(metaspace_unit(replacement, add_prefix_space)))
}

/// The strategy that sets each punctuation character apart.
pub fn punctuation() -> (r: PreTokenizer)
    ensures
        r@ == single(Strategy::Punctuation),
{
    PreTokenizer::filled(JsPreTokenizerWrapper::wrapped(punctuation_unit()))
}

/// The strategy that splits at each occurrence of `delimiter`.
pub fn char_delimiter_split(delimiter: char) -> (r: PreTokenizer)
    ensures
        r@ == single(Strategy::CharDelimiterSplit { delimiter }),
{
    PreTokenizer::filled(JsPreTokenizerWrapper::wrapped(char_delimiter_unit(delimiter)))
}

} // verus!
