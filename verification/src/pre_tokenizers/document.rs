//! The canonical documents of pre-tokenizers.
//!
//! A single strategy is written as its own document, with nothing around it.
//! A sequence is written as an object with two fields: the type tag
//! `Sequence`, and the list of its strategies' documents in order. Reading
//! takes either shape and needs no tag to tell a single strategy.
use std::sync::Arc;
use vstd::prelude::*;
use vstd::slice::slice_subrange;
use vstd::string::*;
use tokenizers::pre_tokenizers::PreTokenizerWrapper;
use crate::error::{ConfigurationError, ErrorView};
use crate::pre_tokenizers::engine::{
    EngineVariant, decode_unit, decoded_unit, encode_unit, unit_document, unit_variant, variant_of,
};
use crate::pre_tokenizers::wrapper::{JsPreTokenizerWrapper, PreTokenizer, WrapperView, strategies};
use crate::text::{chars_of, text_of};

verus! {

/// How the document of a sequence begins.
pub open spec fn opening() -> Seq<char> {
    "{\"type\":\"Sequence\",\"pretokenizers\":["@
}

/// How the document of a sequence ends.
pub open spec fn closing() -> Seq<char> {
    "]}"@
}

/// What stands between two elements of a list.
pub open spec fn separator() -> Seq<char> {
    ","@
}

/// The documents one after the other, with a separator between each two.
pub open spec fn joined(documents: Seq<Seq<char>>) -> Seq<char>
    decreases documents.len(),
{
    if documents.len() == 0 {
        Seq::empty()
    } else if documents.len() == 1 {
        documents[0]
    } else {
        joined(documents.drop_last()) + separator() + documents.last()
    }
}

/// The documents of the strategies, in order, or the failure of the first
/// strategy that the encoder fails on.
pub open spec fn documents_of(units: Seq<PreTokenizerWrapper>) -> Result<Seq<Seq<char>>, Seq<char>>
    decreases units.len(),
{
    if units.len() == 0 {
        Ok(Seq::empty())
    } else {
        match documents_of(units.drop_last()) {
            Ok(documents) => match unit_document(units.last()) {
                Ok(document) => Ok(documents.push(document)),
                Err(message) => Err(message),
            },
            Err(message) => Err(message),
        }
    }
}

/// The canonical document of a pre-tokenizer, or the encoder's failure.
pub open spec fn serialized(wrapper: WrapperView) -> Result<Seq<char>, ErrorView> {
    match wrapper {
        WrapperView::Wrapped(unit) => match unit_document(unit) {
            Ok(document) => Ok(document),
            Err(message) => Err(ErrorView::DelegatedAlgorithmFailure { message }),
        },
        WrapperView::Sequence(units) => match documents_of(units) {
            Ok(documents) => Ok(opening() + joined(documents) + closing()),
            Err(message) => Err(ErrorView::DelegatedAlgorithmFailure { message }),
        },
    }
}

/// A failure on the first `n` strategies is the failure on all of them.
pub proof fn lemma_encoding_failure_stays(units: Seq<PreTokenizerWrapper>, n: int)
    requires
        0 <= n <= units.len(),
        documents_of(units.take(n)) is Err,
    ensures
        documents_of(units) == documents_of(units.take(n)),
    decreases units.len() - n,
{
    if n == units.len() {
        assert(units.take(n) =~= units);
    } else {
        assert(units.take(n + 1).drop_last() =~= units.take(n));
        lemma_encoding_failure_stays(units, n + 1);
    }
}

/// Where a reader stands in a list of documents: how many brackets and
/// braces are open, whether it is inside a string, and whether the
/// character before was a backslash that escapes the next one.
pub struct Scan {
    pub depth: nat,
    pub quoted: bool,
    pub escaped: bool,
}

/// Where a reader stands before the first character.
pub open spec fn scan_start() -> Scan {
    Scan { depth: 0, quoted: false, escaped: false }
}

/// Where a reader stands after `c`, having stood at `scan` before it.
pub open spec fn scan_step(scan: Scan, c: char) -> Scan {
    if scan.quoted {
        if scan.escaped {
            Scan { escaped: false, ..scan }
        } else if c == '\\' {
            Scan { escaped: true, ..scan }
        } else if c == '"' {
            Scan { quoted: false, ..scan }
        } else {
            scan
        }
    } else if c == '"' {
        Scan { quoted: true, ..scan }
    } else if c == '{' || c == '[' {
        Scan { depth: scan.depth + 1, ..scan }
    } else if (c == '}' || c == ']') && scan.depth > 0 {
        Scan { depth: (scan.depth - 1) as nat, ..scan }
    } else {
        scan
    }
}

/// Where a reader stands after the whole of `text`.
pub open spec fn scanned(text: Seq<char>) -> Scan
    decreases text.len(),
{
    if text.len() == 0 {
        scan_start()
    } else {
        scan_step(scanned(text.drop_last()), text.last())
    }
}

/// Whether the character at `i` is a comma that parts two elements of the
/// list: one outside every string, bracket and brace.
pub open spec fn separates(text: Seq<char>, i: int) -> bool {
    &&& 0 <= i < text.len()
    &&& text[i] == ','
    &&& scanned(text.take(i)).depth == 0
    &&& !scanned(text.take(i)).quoted
}

/// Where the element begins that the position `n` falls in: behind the last
/// parting comma before `n`, or at the start.
pub open spec fn element_start(text: Seq<char>, n: int) -> int
    decreases n,
{
    if n <= 0 {
        0
    } else if separates(text, n - 1) {
        n
    } else {
        element_start(text, n - 1)
    }
}

/// The elements that a parting comma before `n` has ended, in order.
pub open spec fn ended_elements(text: Seq<char>, n: int) -> Seq<Seq<char>>
    decreases n,
{
    if n <= 0 {
        Seq::empty()
    } else if separates(text, n - 1) {
        ended_elements(text, n - 1).push(text.subrange(element_start(text, n - 1), n - 1))
    } else {
        ended_elements(text, n - 1)
    }
}

/// The elements of a list of documents: the pieces of `text` between its
/// parting commas. An empty text holds no element.
pub open spec fn elements(text: Seq<char>) -> Seq<Seq<char>> {
    if text.len() == 0 {
        Seq::empty()
    } else {
        ended_elements(text, text.len() as int).push(
            text.subrange(element_start(text, text.len() as int), text.len() as int),
        )
    }
}

/// Whether a document can stand as an element of a list: it is not empty, it
/// closes every string, bracket and brace that it opens, and none of its
/// commas stands outside them.
pub open spec fn self_contained(document: Seq<char>) -> bool {
    &&& document.len() > 0
    &&& scanned(document) == scan_start()
    &&& forall|i: int| 0 <= i < document.len() ==> !separates(document, i)
}

/// The strategy that an element of a list decodes to. A sequence never
/// holds a sequence, so an element that decodes to a sequence of the
/// engine's own is no element.
pub open spec fn decoded_element(document: Seq<char>) -> Option<PreTokenizerWrapper> {
    match decoded_unit(document) {
        Some(unit) => if variant_of(unit) == EngineVariant::Sequence {
            None
        } else {
            Some(unit)
        },
        None => None,
    }
}

/// The strategies that the documents decode to, in order, provided that
/// every one of them is an element.
pub open spec fn decoded_all(documents: Seq<Seq<char>>) -> Option<Seq<PreTokenizerWrapper>>
    decreases documents.len(),
{
    if documents.len() == 0 {
        Some(Seq::empty())
    } else {
        match (decoded_all(documents.drop_last()), decoded_element(documents.last())) {
            (Some(units), Some(unit)) => Some(units.push(unit)),
            _ => None,
        }
    }
}

/// Whether a text has the shape of a sequence's document.
pub open spec fn has_envelope(document: Seq<char>) -> bool {
    &&& document.len() >= opening().len() + closing().len()
    &&& document.take(opening().len() as int) == opening()
    &&& document.skip(document.len() - closing().len()) == closing()
}

/// What stands between the opening and the closing of a sequence's document.
pub open spec fn enveloped(document: Seq<char>) -> Seq<char> {
    document.subrange(opening().len() as int, document.len() - closing().len())
}

/// The strategies that a text lists, provided that the text has the shape
/// of a sequence's document and that each of its elements decodes.
pub open spec fn listed(document: Seq<char>) -> Option<Seq<PreTokenizerWrapper>> {
    if has_envelope(document) {
        decoded_all(elements(enveloped(document)))
    } else {
        None
    }
}

/// The strategies of a sequence of the engine's own, read from the
/// document that the encoder gives it.
pub open spec fn engine_listed(unit: PreTokenizerWrapper) -> Option<Seq<PreTokenizerWrapper>> {
    match unit_document(unit) {
        Ok(canonical) => listed(canonical),
        Err(_) => None,
    }
}

/// The pre-tokenizer that stands for a strategy of the engine. A sequence
/// of the engine's own becomes a sequence of its strategies, where they can
/// be read from its document; any other strategy stands alone.
pub open spec fn normalised(unit: PreTokenizerWrapper) -> WrapperView {
    if variant_of(unit) == EngineVariant::Sequence && engine_listed(unit) is Some {
        WrapperView::Sequence(engine_listed(unit)->Some_0)
    } else {
        WrapperView::Wrapped(unit)
    }
}

/// The pre-tokenizer that a text is the document of.
///
/// A text in the shape of a sequence's document, whose elements all decode,
/// is that sequence. Any other text is what the decoder makes of it as a
/// whole: a single strategy, or, where the decoder reads a sequence of the
/// engine's own from it (a sequence's document with other spacing or
/// order), the strategies of that sequence. A text that the decoder
/// refuses, and a sequence whose strategies cannot be read one by one, is
/// no document.
pub open spec fn parsed(document: Seq<char>) -> Result<WrapperView, ErrorView> {
    if listed(document) is Some {
        Ok(WrapperView::Sequence(listed(document)->Some_0))
    } else {
        match decoded_unit(document) {
            Some(unit) => if variant_of(unit) != EngineVariant::Sequence {
                Ok(WrapperView::Wrapped(unit))
            } else if engine_listed(unit) is Some {
                Ok(WrapperView::Sequence(engine_listed(unit)->Some_0))
            } else {
                Err(ErrorView::InvalidDocument)
            },
            None => Err(ErrorView::InvalidDocument),
        }
    }
}

/// A document that the decoder refuses among the first `n` makes the whole
/// run undecodable.
pub proof fn lemma_undecodable_stays(documents: Seq<Seq<char>>, n: int)
    requires
        0 <= n <= documents.len(),
        decoded_all(documents.take(n)) is None,
    ensures
        decoded_all(documents) is None,
    decreases documents.len() - n,
{
    if n == documents.len() {
        assert(documents.take(n) =~= documents);
    } else {
        assert(documents.take(n + 1).drop_last() =~= documents.take(n));
        lemma_undecodable_stays(documents, n + 1);
    }
}

/// The texts of a run of strings.
pub open spec fn texts(strings: Seq<String>) -> Seq<Seq<char>> {
    strings.map_values(|s: String| s@)
}

/// Whether `text` begins with `prefix`.
fn begins_with(text: &[char], prefix: &[char]) -> (r: bool)
    ensures
        r == (text@.len() >= prefix@.len() && text@.take(prefix@.len() as int) == prefix@),
{
    if text.len() < prefix.len() {
        return false;
    }
    let mut i: usize = 0;
    while i < prefix.len()
        invariant
            i <= prefix.len() <= text.len(),
            forall|j: int| 0 <= j < i ==> text@[j] == prefix@[j],
        decreases prefix.len() - i,
    {
        if text[i] != prefix[i] {
            assert(text@.take(prefix@.len() as int)[i as int] != prefix@[i as int]);
            return false;
        }
        i += 1;
    }
    assert(text@.take(prefix@.len() as int) =~= prefix@);
    true
}

/// Whether `text` ends with `suffix`.
fn ends_with(text: &[char], suffix: &[char]) -> (r: bool)
    ensures
        r == (text@.len() >= suffix@.len() && text@.skip(text@.len() - suffix@.len()) == suffix@),
{
    if text.len() < suffix.len() {
        return false;
    }
    let offset = text.len() - suffix.len();
    let mut i: usize = 0;
    while i < suffix.len()
        invariant
            i <= suffix.len() <= text.len(),
            offset == text.len() - suffix.len(),
            forall|j: int| 0 <= j < i ==> text@[offset + j] == suffix@[j],
        decreases suffix.len() - i,
    {
        if text[offset + i] != suffix[i] {
            assert(text@.skip(offset as int)[i as int] != suffix@[i as int]);
            return false;
        }
        i += 1;
    }
    assert(text@.skip(offset as int) =~= suffix@);
    true
}

/// Parts a list of documents at the commas that stand outside every string,
/// bracket and brace.
pub fn split_elements(text: &[char]) -> (r: Vec<String>)
    ensures
        texts(r@) == elements(text@),
{
    let mut pieces: Vec<String> = Vec::new();
    assert(texts(pieces@) =~= Seq::empty());
    if text.len() == 0 {
        return pieces;
    }
    let mut depth: usize = 0;
    let mut quoted = false;
    let mut escaped = false;
    let mut start: usize = 0;
    let mut i: usize = 0;
    assert(text@.take(0) =~= Seq::empty());
    while i < text.len()
        invariant
            i <= text.len(),
            depth <= i,
            start <= i,
            scanned(text@.take(i as int)) == (Scan { depth: depth as nat, quoted, escaped }),
            start == element_start(text@, i as int),
            texts(pieces@) == ended_elements(text@, i as int),
        decreases text.len() - i,
    {
        let c = text[i];
        assert(text@.take(i + 1).drop_last() =~= text@.take(i as int));
        assert(text@.take(i + 1).last() == c);
        if quoted {
            if escaped {
                escaped = false;
            } else if c == '\\' {
                escaped = true;
            } else if c == '"' {
                quoted = false;
            }
        } else if c == '"' {
            quoted = true;
        } else if c == '{' || c == '[' {
            depth += 1;
        } else if (c == '}' || c == ']') && depth > 0 {
            depth -= 1;
        } else if c == ',' && depth == 0 {
            let ghost before = texts(pieces@);
            let piece = text_of(slice_subrange(text, start, i));
            pieces.push(piece);
            assert(texts(pieces@) =~= before.push(text@.subrange(start as int, i as int)));
            start = i + 1;
        }
        i += 1;
    }
    let ghost before = texts(pieces@);
    let piece = text_of(slice_subrange(text, start, i));
    pieces.push(piece);
    assert(texts(pieces@) =~= before.push(text@.subrange(start as int, i as int)));
    pieces
}

/// Decodes an element of a list.
fn decode_element(document: &str) -> (r: Option<PreTokenizerWrapper>)
    ensures
        r == decoded_element(document@),
{
    match decode_unit(document) {
        Some(unit) => match unit_variant(&unit) {
            EngineVariant::Sequence => None,
            _ => Some(unit),
        },
        None => None,
    }
}

/// Reads the strategies that a text lists.
fn read_list(document: &str) -> (r: Option<Vec<Arc<PreTokenizerWrapper>>>)
    ensures
        match listed(document@) {
            Some(units) => r matches Some(handles) && strategies(handles@) == units,
            None => r is None,
        },
{
    let text = chars_of(document);
    let open = chars_of("{\"type\":\"Sequence\",\"pretokenizers\":[");
    let close = chars_of("]}");
    if text.len() >= open.len() && text.len() - open.len() >= close.len() && begins_with(
        text.as_slice(),
        open.as_slice(),
    ) && ends_with(text.as_slice(), close.as_slice()) {
        let inner = slice_subrange(text.as_slice(), open.len(), text.len() - close.len());
        let pieces = split_elements(inner);
        decode_all(&pieces)
    } else {
        None
    }
}

/// Reads the strategies of a sequence of the engine's own.
fn read_engine_list(unit: &PreTokenizerWrapper) -> (r: Option<Vec<Arc<PreTokenizerWrapper>>>)
    ensures
        match engine_listed(*unit) {
            Some(units) => r matches Some(handles) && strategies(handles@) == units,
            None => r is None,
        },
{
    match encode_unit(unit) {
        Ok(canonical) => read_list(canonical.as_str()),
        Err(_) => None,
    }
}

/// Decodes every document, in order. Gives nothing if one is no element.
fn decode_all(documents: &Vec<String>) -> (r: Option<Vec<Arc<PreTokenizerWrapper>>>)
    ensures
        match decoded_all(texts(documents@)) {
            Some(units) => r matches Some(handles) && strategies(handles@) == units,
            None => r is None,
        },
{
    let ghost all = texts(documents@);
    let mut handles: Vec<Arc<PreTokenizerWrapper>> = Vec::with_capacity(documents.len());
    let mut i: usize = 0;
    assert(all.take(0) =~= Seq::empty());
    assert(strategies(handles@) =~= Seq::empty());
    while i < documents.len()
        invariant
            i <= documents.len(),
            all == texts(documents@),
            decoded_all(all.take(i as int)) == Some(strategies(handles@)),
        decreases documents.len() - i,
    {
        let ghost before = strategies(handles@);
        assert(all.take(i + 1).drop_last() =~= all.take(i as int));
        assert(all.take(i + 1).last() == documents@[i as int]@);
        match decode_element(documents[i].as_str()) {
            Some(unit) => {
                handles.push(Arc::new(unit));
                assert(strategies(handles@) =~= before.push(unit));
            },
            None => {
                proof {
                    lemma_undecodable_stays(all, i + 1);
                }
                return None;
            },
        }
        i += 1;
    }
    assert(all.take(i as int) =~= all);
    Some(handles)
}

impl JsPreTokenizerWrapper {
    /// Writes the pre-tokenizer as its canonical document.
    ///
    /// A single strategy gives exactly the document that the strategy has
    /// on its own. A sequence gives the opening, its strategies' documents
    /// parted by commas, and the closing. Fails only where the encoder
    /// fails on a strategy, with the message of the first such failure.
    pub fn serialize(&self) -> (r: Result<String, ConfigurationError>)
        ensures
            match serialized(self@) {
                Ok(document) => r matches Ok(s) && s@ == document,
                Err(e) => r matches Err(x) && x@ == e,
            },
    {
        match self {
            JsPreTokenizerWrapper::Wrapped(unit) => match encode_unit(unit) {
                Ok(document) => Ok(document),
                Err(message) => Err(ConfigurationError::DelegatedAlgorithmFailure { message }),
            },
            JsPreTokenizerWrapper::Sequence(handles) => {
                let ghost units = strategies(handles@);
                let ghost mut documents: Seq<Seq<char>> = Seq::empty();
                let mut out = String::from_str("{\"type\":\"Sequence\",\"pretokenizers\":[");
                let mut i: usize = 0;
                assert(units.take(0) =~= Seq::empty());
                assert(out@ =~= opening() + joined(documents));
                while i < handles.len()
                    invariant
                        i <= handles.len(),
                        units == strategies(handles@),
                        self@ == WrapperView::Sequence(units),
                        documents.len() == i,
                        documents_of(units.take(i as int)) == Ok::<Seq<Seq<char>>, Seq<char>>(
                            documents,
                        ),
                        out@ == opening() + joined(documents),
                    decreases handles.len() - i,
                {
                    assert(units.take(i + 1).drop_last() =~= units.take(i as int));
                    assert(units.take(i + 1).last() == *handles@[i as int]);
                    match encode_unit(&handles[i]) {
                        Ok(document) => {
                            let ghost longer = documents.push(document@);
                            assert(longer.drop_last() =~= documents);
                            if i > 0 {
                                out.append(",");
                            }
                            out.append(document.as_str());
                            assert(out@ =~= opening() + joined(longer));
                            proof {
                                documents = longer;
                            }
                        },
                        Err(message) => {
                            proof {
                                lemma_encoding_failure_stays(units, i + 1);
                            }
                            return Err(ConfigurationError::DelegatedAlgorithmFailure { message });
                        },
                    }
                    i += 1;
                }
                assert(units.take(i as int) =~= units);
                out.append("]}");
                Ok(out)
            },
        }
    }

    /// The pre-tokenizer that stands for a strategy of the engine. A
    /// sequence of the engine's own becomes a sequence of its strategies,
    /// where they can be read from its document; any other strategy stands
    /// alone.
    pub fn from(unit: PreTokenizerWrapper) -> (r: JsPreTokenizerWrapper)
        ensures
            r@ == normalised(unit),
    {
        match unit_variant(&unit) {
            EngineVariant::Sequence => match read_engine_list(&unit) {
                Some(handles) => JsPreTokenizerWrapper::Sequence(handles),
                None => JsPreTokenizerWrapper::Wrapped(Arc::new(unit)),
            },
            _ => JsPreTokenizerWrapper::Wrapped(Arc::new(unit)),
        }
    }

    /// Reads a pre-tokenizer from its document.
    ///
    /// A text in the shape of a sequence's document, whose elements the
    /// decoder takes one by one, gives that sequence. Any other text gives
    /// what the decoder makes of it as a whole: a single strategy, or the
    /// strategies of a sequence that the decoder read from it. A sequence
    /// within a sequence is no document.
    pub fn parse(document: &str) -> (r: Result<JsPreTokenizerWrapper, ConfigurationError>)
        ensures
            match parsed(document@) {
                Ok(wrapper) => r matches Ok(w) && w@ == wrapper,
                Err(e) => r matches Err(x) && x@ == e,
            },
    {
        match read_list(document) {
            Some(handles) => {
                return Ok(JsPreTokenizerWrapper::Sequence(handles));
            },
            None => {},
        }
        match decode_unit(document) {
            Some(unit) => match unit_variant(&unit) {
                EngineVariant::Sequence => match read_engine_list(&unit) {
                    Some(handles) => Ok(JsPreTokenizerWrapper::Sequence(handles)),
                    None => Err(ConfigurationError::InvalidDocument),
                },
                _ => Ok(JsPreTokenizerWrapper::Wrapped(Arc::new(unit))),
            },
            None => Err(ConfigurationError::InvalidDocument),
        }
    }
}

impl PreTokenizer {
    /// Writes the pre-tokenizer in the slot as its canonical document.
    /// Fails on an empty slot.
    pub fn serialize(&self) -> (r: Result<String, ConfigurationError>)
        ensures
            match self@ {
                None => r matches Err(e) && e@ == ErrorView::UninitializedConfiguration,
                Some(wrapper) => match serialized(wrapper) {
                    Ok(document) => r matches Ok(s) && s@ == document,
                    Err(e) => r matches Err(x) && x@ == e,
                },
            },
    {
        match &self.pretok {
            None => Err(ConfigurationError::UninitializedConfiguration),
            Some(wrapper) => wrapper.serialize(),
        }
    }

    /// Reads a pre-tokenizer from its document, into a filled slot.
    pub fn parse(document: &str) -> (r: Result<PreTokenizer, ConfigurationError>)
        ensures
            match parsed(document@) {
                Ok(wrapper) => r matches Ok(slot) && slot@ == Some(wrapper),
                Err(e) => r matches Err(x) && x@ == e,
            },
    {
        match JsPreTokenizerWrapper::parse(document) {
            Ok(wrapper) => Ok(PreTokenizer { pretok: Some(wrapper) }),
            Err(e) => Err(e),
        }
    }
}

} // verus!
