//! Laws that hold of the library as a whole, proved from the definitions
//! that the contracts of its functions are stated in.
use vstd::prelude::*;
use tokenizers::pre_tokenizers::PreTokenizerWrapper;
use crate::error::ErrorView;
use crate::pre_tokenizers::document::{
    closing, decoded_all, decoded_element, documents_of, element_start, elements, ended_elements,
    engine_listed, enveloped, has_envelope, joined, listed, opening, parsed, scan_start, scan_step,
    scanned, self_contained, separates, separator, serialized,
};
use crate::pre_tokenizers::engine::{EngineVariant, decoded_unit, unit_document, variant_of};
use crate::pre_tokenizers::wrapper::{WrapperView, flattened};
use crate::trainers::apply::{Configurable, applied, configured, unrecognized};
use crate::trainers::convert::{first_characters, spec_special_tokens, starts_with};
use crate::trainers::options::{ItemView, NamedView, ValueView};

verus! {

/// A single strategy is written as its bare document: whatever the encoder
/// makes of the strategy alone, with no envelope around it.
pub proof fn law_single_is_bare(unit: PreTokenizerWrapper)
    ensures
        serialized(WrapperView::Wrapped(unit)) == match unit_document(unit) {
            Ok(document) => Ok::<Seq<char>, ErrorView>(document),
            Err(message) => Err(ErrorView::DelegatedAlgorithmFailure { message }),
        },
{
}

/// The documents of a run of strategies that the encoder succeeds on are
/// the strategies' own documents, one for one.
pub proof fn law_documents_are_pointwise(units: Seq<PreTokenizerWrapper>)
    requires
        forall|i: int| 0 <= i < units.len() ==> unit_document(#[trigger] units[i]) is Ok,
    ensures
        documents_of(units) matches Ok(documents) && documents.len() == units.len() && forall|i: int|
            0 <= i < units.len() ==> unit_document(#[trigger] units[i]) == Ok::<
                Seq<char>,
                Seq<char>,
            >(documents[i]),
    decreases units.len(),
{
    if units.len() > 0 {
        let shorter = units.drop_last();
        assert forall|i: int| 0 <= i < shorter.len() implies unit_document(#[trigger] shorter[i]) is Ok by {
            assert(shorter[i] == units[i]);
        }
        law_documents_are_pointwise(shorter);
        let documents = documents_of(units)->Ok_0;
        assert forall|i: int| 0 <= i < units.len() implies unit_document(#[trigger] units[i]) == Ok::<
            Seq<char>,
            Seq<char>,
        >(documents[i]) by {
            if i < shorter.len() {
                assert(shorter[i] == units[i]);
            }
        }
    }
}

/// A sequence of two strategies is written as the opening, the first
/// strategy's bare document, a comma, the second's, and the closing.
pub proof fn law_sequence_shape(a: PreTokenizerWrapper, b: PreTokenizerWrapper)
    requires
        unit_document(a) is Ok,
        unit_document(b) is Ok,
    ensures
        serialized(WrapperView::Sequence(seq![a, b])) == Ok::<Seq<char>, ErrorView>(
            opening() + unit_document(a)->Ok_0 + separator() + unit_document(b)->Ok_0 + closing(),
        ),
{
    let units = seq![a, b];
    assert(units.drop_last() =~= seq![a]);
    assert(seq![a].drop_last() =~= Seq::<PreTokenizerWrapper>::empty());
    assert(documents_of(Seq::<PreTokenizerWrapper>::empty()) == Ok::<Seq<Seq<char>>, Seq<char>>(
        Seq::empty(),
    ));
    let da = unit_document(a)->Ok_0;
    let db = unit_document(b)->Ok_0;
    assert(documents_of(seq![a]) == Ok::<Seq<Seq<char>>, Seq<char>>(Seq::empty().push(da)));
    let documents = Seq::<Seq<char>>::empty().push(da).push(db);
    assert(documents_of(units) == Ok::<Seq<Seq<char>>, Seq<char>>(documents));
    assert(documents.drop_last() =~= seq![da]);
    assert(joined(seq![da]) == da);
    assert(joined(documents) == da + separator() + db);
    assert(opening() + joined(documents) + closing() =~= opening() + da + separator() + db
        + closing());
}

/// Composing one run after another gives the strategies of the first, then
/// those of the second.
pub proof fn law_flattening_distributes(first: Seq<WrapperView>, second: Seq<WrapperView>)
    ensures
        flattened(first + second) == flattened(first) + flattened(second),
    decreases second.len(),
{
    if second.len() == 0 {
        assert(first + second =~= first);
        assert(flattened(first) + flattened(second) =~= flattened(first));
    } else {
        assert((first + second).drop_last() =~= first + second.drop_last());
        assert((first + second).last() == second.last());
        law_flattening_distributes(first, second.drop_last());
        assert(flattened(first + second) =~= flattened(first) + flattened(second));
    }
}

/// Composing a sequence alone gives its strategies back: to compose what
/// is flat already changes nothing.
pub proof fn law_flattening_is_idempotent(units: Seq<PreTokenizerWrapper>)
    ensures
        flattened(seq![WrapperView::Sequence(units)]) == units,
{
    let inputs = seq![WrapperView::Sequence(units)];
    assert(inputs.drop_last() =~= Seq::<WrapperView>::empty());
    assert(flattened(Seq::<WrapperView>::empty()) =~= Seq::<PreTokenizerWrapper>::empty());
    assert(flattened(inputs) =~= units);
}

/// A composed sequence among the inputs counts as its own inputs in its
/// place: composing `[sequence(inner)] + rest` gives what composing
/// `inner + rest` gives.
pub proof fn law_nested_composition_is_flat(inner: Seq<WrapperView>, rest: Seq<WrapperView>)
    ensures
        flattened(seq![WrapperView::Sequence(flattened(inner))] + rest) == flattened(inner + rest),
{
    law_flattening_is_idempotent(flattened(inner));
    law_flattening_distributes(seq![WrapperView::Sequence(flattened(inner))], rest);
    law_flattening_distributes(inner, rest);
}

/// Composition keeps the order of its inputs: the strategies of the input
/// at `i` stand together, behind those of all inputs before it and before
/// those of all inputs after it.
pub proof fn law_composition_keeps_order(inputs: Seq<WrapperView>, i: int)
    requires
        0 <= i < inputs.len(),
    ensures
        flattened(inputs) == flattened(inputs.take(i)) + inputs[i].units() + flattened(
            inputs.skip(i + 1),
        ),
{
    let upto = inputs.take(i + 1);
    assert(upto.drop_last() =~= inputs.take(i));
    assert(upto.last() == inputs[i]);
    assert(inputs =~= upto + inputs.skip(i + 1));
    law_flattening_distributes(upto, inputs.skip(i + 1));
}

/// Composing single strategies gives them one for one, in the order given.
pub proof fn law_singles_compose_in_order(inputs: Seq<WrapperView>)
    requires
        forall|i: int| 0 <= i < inputs.len() ==> (#[trigger] inputs[i]) is Wrapped,
    ensures
        flattened(inputs).len() == inputs.len(),
        forall|i: int| 0 <= i < inputs.len() ==> flattened(inputs)[i] == (#[trigger] inputs[i])->Wrapped_0,
    decreases inputs.len(),
{
    if inputs.len() > 0 {
        let shorter = inputs.drop_last();
        assert forall|i: int| 0 <= i < shorter.len() implies (#[trigger] shorter[i]) is Wrapped by {
            assert(shorter[i] == inputs[i]);
        }
        law_singles_compose_in_order(shorter);
        assert forall|i: int| 0 <= i < inputs.len() implies flattened(inputs)[i] == (
        #[trigger] inputs[i])->Wrapped_0 by {
            if i < shorter.len() {
                assert(shorter[i] == inputs[i]);
            }
        }
    }
}

/// Parting a list at its commas loses nothing: the elements, joined by
/// commas again, are the list.
pub proof fn law_joining_undoes_parting(text: Seq<char>)
    ensures
        joined(elements(text)) == text,
{
    if text.len() > 0 {
        lemma_joined_prefix(text, text.len() as int);
        assert(text.take(text.len() as int) =~= text);
    }
}

/// The elements found in the first `n` characters, joined, are those characters.
proof fn lemma_joined_prefix(text: Seq<char>, n: int)
    requires
        0 <= n <= text.len(),
    ensures
        joined(ended_elements(text, n).push(text.subrange(element_start(text, n), n))) == text.take(n),
        0 <= element_start(text, n) <= n,
    decreases n,
{
    reveal_strlit(",");
    if n == 0 {
        let only = Seq::<Seq<char>>::empty().push(text.subrange(0, 0));
        assert(joined(only) =~= text.take(0));
    } else {
        lemma_joined_prefix(text, n - 1);
        let ended = ended_elements(text, n - 1);
        let start = element_start(text, n - 1);
        let piece = text.subrange(start, n - 1);
        let before = ended.push(piece);
        assert(before.drop_last() =~= ended);
        if separates(text, n - 1) {
            let now = before.push(text.subrange(n, n));
            assert(now.drop_last() =~= before);
            assert(separator() =~= seq![',']);
            assert(joined(now) =~= text.take(n - 1) + seq![','] + text.subrange(n, n));
            assert(joined(now) =~= text.take(n));
        } else {
            let longer = text.subrange(start, n);
            let now = ended.push(longer);
            assert(now.drop_last() =~= ended);
            assert(longer =~= piece.push(text[n - 1]));
            if ended.len() == 0 {
                assert(joined(now) =~= joined(before).push(text[n - 1]));
            } else {
                assert(joined(now) =~= joined(before).push(text[n - 1]));
            }
            assert(text.take(n) =~= text.take(n - 1).push(text[n - 1]));
        }
    }
}

/// The start of an element lies at or before the position that falls in it.
proof fn lemma_start_in_range(text: Seq<char>, n: int)
    requires
        0 <= n,
    ensures
        0 <= element_start(text, n) <= n,
    decreases n,
{
    if n > 0 {
        lemma_start_in_range(text, n - 1);
    }
}

/// What a reader finds in the first `n` characters does not depend on what
/// follows them.
proof fn lemma_scan_is_local(a: Seq<char>, b: Seq<char>, n: int)
    requires
        0 <= n <= a.len(),
    ensures
        element_start(a + b, n) == element_start(a, n),
        ended_elements(a + b, n) == ended_elements(a, n),
    decreases n,
{
    if n > 0 {
        lemma_scan_is_local(a, b, n - 1);
        lemma_start_in_range(a, n - 1);
        assert((a + b).take(n - 1) =~= a.take(n - 1));
        assert((a + b)[n - 1] == a[n - 1]);
        assert(separates(a + b, n - 1) == separates(a, n - 1));
        assert((a + b).subrange(element_start(a, n - 1), n - 1) =~= a.subrange(
            element_start(a, n - 1),
            n - 1,
        ));
    }
}

/// A reader that stands outside everything after `a` reads what follows as
/// if it began there.
proof fn lemma_scan_resumes(a: Seq<char>, b: Seq<char>, k: int)
    requires
        scanned(a) == scan_start(),
        0 <= k <= b.len(),
    ensures
        scanned((a + b).take(a.len() + k)) == scanned(b.take(k)),
    decreases k,
{
    if k == 0 {
        assert((a + b).take(a.len() as int) =~= a);
        assert(b.take(0) =~= Seq::<char>::empty());
    } else {
        lemma_scan_resumes(a, b, k - 1);
        assert((a + b).take(a.len() + k).drop_last() =~= (a + b).take(a.len() + k - 1));
        assert((a + b).take(a.len() + k).last() == b[k - 1]);
        assert(b.take(k).drop_last() =~= b.take(k - 1));
        assert(b.take(k).last() == b[k - 1]);
    }
}

/// Behind a prefix that a reader leaves standing outside everything, a
/// document without a parting comma ends no element.
proof fn lemma_no_element_ends(a: Seq<char>, d: Seq<char>, k: int)
    requires
        scanned(a) == scan_start(),
        forall|i: int| 0 <= i < d.len() ==> !separates(d, i),
        0 <= k <= d.len(),
    ensures
        ended_elements(a + d, a.len() + k) == ended_elements(a + d, a.len() as int),
        element_start(a + d, a.len() + k) == element_start(a + d, a.len() as int),
    decreases k,
{
    if k > 0 {
        lemma_no_element_ends(a, d, k - 1);
        lemma_scan_resumes(a, d, k - 1);
        assert((a + d)[a.len() + k - 1] == d[k - 1]);
        assert(!separates(d, k - 1));
        assert(!separates(a + d, a.len() + k - 1));
    }
}

/// Joining documents that can each stand as an element, and parting the
/// result at its commas, gives the documents back.
pub proof fn law_parting_undoes_joining(documents: Seq<Seq<char>>)
    requires
        forall|i: int| 0 <= i < documents.len() ==> self_contained(#[trigger] documents[i]),
    ensures
        elements(joined(documents)) == documents,
        scanned(joined(documents)) == scan_start(),
        documents.len() > 0 ==> joined(documents).len() > 0,
    decreases documents.len(),
{
    let none = Seq::<char>::empty();
    if documents.len() == 0 {
        assert(elements(joined(documents)) =~= documents);
    } else if documents.len() == 1 {
        let d = documents[0];
        assert(self_contained(d));
        assert(none + d =~= d);
        lemma_no_element_ends(none, d, d.len() as int);
        assert(elements(d) =~= seq![d.subrange(0, d.len() as int)]);
        assert(d.subrange(0, d.len() as int) =~= d);
        assert(elements(d) =~= documents);
    } else {
        reveal_strlit(",");
        let shorter = documents.drop_last();
        let d = documents.last();
        assert(self_contained(documents[documents.len() - 1]));
        assert forall|i: int| 0 <= i < shorter.len() implies self_contained(#[trigger] shorter[i]) by {
            assert(shorter[i] == documents[i]);
        }
        law_parting_undoes_joining(shorter);
        let t = joined(shorter);
        let a = t + separator();
        let whole = a + d;
        assert(whole == joined(documents));
        assert(separator() =~= seq![',']);
        assert(a.drop_last() =~= t);
        assert(a.last() == ',');
        assert(scanned(a) == scan_step(scanned(t), ','));
        assert(scanned(a) == scan_start());
        // up to the comma, the whole reads as the shorter text does
        assert(whole =~= t + (separator() + d));
        lemma_scan_is_local(t, separator() + d, t.len() as int);
        lemma_start_in_range(t, t.len() as int);
        assert(whole.take(t.len() as int) =~= t);
        assert(whole[t.len() as int] == ',');
        assert(separates(whole, t.len() as int));
        assert(whole.subrange(element_start(t, t.len() as int), t.len() as int) =~= t.subrange(
            element_start(t, t.len() as int),
            t.len() as int,
        ));
        assert(ended_elements(whole, a.len() as int) == elements(t));
        assert(element_start(whole, a.len() as int) == a.len());
        // behind the comma no element ends
        lemma_no_element_ends(a, d, d.len() as int);
        lemma_scan_resumes(a, d, d.len() as int);
        assert(whole.take(whole.len() as int) =~= whole);
        assert(d.take(d.len() as int) =~= d);
        assert(whole.subrange(a.len() as int, whole.len() as int) =~= d);
        assert(elements(whole) =~= shorter.push(d));
        assert(shorter.push(d) =~= documents);
    }
}

/// Whether the decoder, where it takes `document`, gives a strategy whose
/// own document is `document` again.
pub open spec fn faithful_on(document: Seq<char>) -> bool {
    decoded_unit(document) matches Some(unit) ==> unit_document(unit) == Ok::<Seq<char>, Seq<char>>(
        document,
    )
}

/// Where the decoder is faithful on each of `documents` and takes them
/// all, the strategies that it gives have exactly these documents.
proof fn lemma_faithful_elements(documents: Seq<Seq<char>>)
    requires
        decoded_all(documents) is Some,
        forall|i: int| 0 <= i < documents.len() ==> faithful_on(#[trigger] documents[i]),
    ensures
        documents_of(decoded_all(documents)->Some_0) == Ok::<Seq<Seq<char>>, Seq<char>>(documents),
    decreases documents.len(),
{
    if documents.len() == 0 {
        assert(decoded_all(documents)->Some_0 =~= Seq::empty());
        assert(documents =~= Seq::empty());
    } else {
        let shorter = documents.drop_last();
        assert forall|i: int| 0 <= i < shorter.len() implies faithful_on(#[trigger] shorter[i]) by {
            assert(shorter[i] == documents[i]);
        }
        lemma_faithful_elements(shorter);
        let units = decoded_all(documents)->Some_0;
        let unit = decoded_unit(documents.last())->Some_0;
        assert(units == decoded_all(shorter)->Some_0.push(unit));
        assert(units.drop_last() =~= decoded_all(shorter)->Some_0);
        assert(faithful_on(documents[documents.len() - 1]));
        assert(shorter.push(documents.last()) =~= documents);
    }
}

/// Writing a single strategy and reading it back gives a pre-tokenizer that
/// is written in the same way, provided that the document reads at all and
/// that the decoder is faithful: on the document itself and, where the
/// document has the shape of a sequence, on the elements in it. The
/// library's own framing loses nothing.
pub proof fn law_round_trip(unit: PreTokenizerWrapper)
    requires
        unit_document(unit) is Ok,
        parsed(unit_document(unit)->Ok_0) is Ok,
        faithful_on(unit_document(unit)->Ok_0),
        forall|i: int|
            0 <= i < elements(enveloped(unit_document(unit)->Ok_0)).len() ==> faithful_on(
                #[trigger] elements(enveloped(unit_document(unit)->Ok_0))[i],
            ),
    ensures
        serialized(parsed(unit_document(unit)->Ok_0)->Ok_0) == serialized(
            WrapperView::Wrapped(unit),
        ),
{
    let document = unit_document(unit)->Ok_0;
    let inner = enveloped(document);
    if listed(document) is Some {
        lemma_envelope_round_trip(document);
    } else {
        let read = decoded_unit(document)->Some_0;
        if variant_of(read) == EngineVariant::Sequence {
            assert(unit_document(read) == Ok::<Seq<char>, Seq<char>>(document));
            assert(engine_listed(read) == listed(document));
        }
    }
}

/// A text that lists strategies is written again as it stands, as far as
/// the decoder is faithful on its elements.
proof fn lemma_envelope_round_trip(document: Seq<char>)
    requires
        listed(document) is Some,
        forall|i: int|
            0 <= i < elements(enveloped(document)).len() ==> faithful_on(
                #[trigger] elements(enveloped(document))[i],
            ),
    ensures
        serialized(WrapperView::Sequence(listed(document)->Some_0)) == Ok::<Seq<char>, ErrorView>(
            document,
        ),
{
    let inner = enveloped(document);
    lemma_faithful_elements(elements(inner));
    law_joining_undoes_parting(inner);
    let o = opening().len() as int;
    let c = closing().len() as int;
    assert(document =~= document.take(o) + inner + document.skip(document.len() - c));
}

/// Whether a strategy can be read back as an element of a sequence: the
/// encoder gives it a document, the document can stand as an element of a
/// list, and the decoder takes it.
pub open spec fn readable_element(unit: PreTokenizerWrapper) -> bool {
    &&& unit_document(unit) is Ok
    &&& self_contained(unit_document(unit)->Ok_0)
    &&& decoded_element(unit_document(unit)->Ok_0) is Some
}

/// Writing a sequence and reading it back gives a sequence again, of the
/// strategies that the decoder makes of the elements one by one, provided
/// that each strategy's document can stand as an element of a list and
/// that the decoder takes it.
pub proof fn law_sequence_is_read_elementwise(units: Seq<PreTokenizerWrapper>)
    requires
        forall|i: int| 0 <= i < units.len() ==> readable_element(#[trigger] units[i]),
    ensures
        serialized(WrapperView::Sequence(units)) matches Ok(document) && parsed(document) == Ok::<
            WrapperView,
            ErrorView,
        >(
            WrapperView::Sequence(
                Seq::new(units.len(), |i: int| decoded_element(unit_document(units[i])->Ok_0)->Some_0),
            ),
        ),
{
    assert forall|i: int| 0 <= i < units.len() implies unit_document(#[trigger] units[i]) is Ok by {
        assert(readable_element(units[i]));
    }
    law_documents_are_pointwise(units);
    let documents = documents_of(units)->Ok_0;
    assert forall|i: int| 0 <= i < documents.len() implies self_contained(
        #[trigger] documents[i],
    ) && decoded_element(documents[i]) is Some by {
        assert(readable_element(units[i]));
        assert(unit_document(units[i]) == Ok::<Seq<char>, Seq<char>>(documents[i]));
    }
    law_parting_undoes_joining(documents);
    let whole = opening() + joined(documents) + closing();
    let o = opening().len() as int;
    assert(whole.take(o) =~= opening());
    assert(whole.skip(whole.len() - closing().len()) =~= closing());
    assert(enveloped(whole) =~= joined(documents));
    let read = Seq::new(units.len(), |i: int| decoded_element(unit_document(units[i])->Ok_0)->Some_0);
    lemma_decoded_pointwise(documents);
    assert(decoded_all(documents)->Some_0 =~= read) by {
        assert forall|i: int| 0 <= i < units.len() implies decoded_all(documents)->Some_0[i]
            == read[i] by {
            assert(unit_document(units[i]) == Ok::<Seq<char>, Seq<char>>(documents[i]));
        }
    }
}

/// Documents that the decoder takes one by one decode, as a run, to the
/// strategies that it makes of each.
proof fn lemma_decoded_pointwise(documents: Seq<Seq<char>>)
    requires
        forall|i: int| 0 <= i < documents.len() ==> decoded_element(#[trigger] documents[i]) is Some,
    ensures
        decoded_all(documents) matches Some(units) && units.len() == documents.len() && forall|i: int|
            0 <= i < documents.len() ==> units[i] == decoded_element(#[trigger] documents[i])->Some_0,
    decreases documents.len(),
{
    if documents.len() > 0 {
        let shorter = documents.drop_last();
        assert forall|i: int| 0 <= i < shorter.len() implies decoded_element(#[trigger] shorter[i]) is Some by {
            assert(shorter[i] == documents[i]);
        }
        lemma_decoded_pointwise(shorter);
        assert(decoded_element(documents[documents.len() - 1]) is Some);
        let units = decoded_all(documents)->Some_0;
        assert forall|i: int| 0 <= i < documents.len() implies units[i] == decoded_element(
            #[trigger] documents[i],
        )->Some_0 by {
            if i < shorter.len() {
                assert(shorter[i] == documents[i]);
            }
        }
    }
}

/// A single strategy that is no sequence, neither by its document nor by
/// what the decoder makes of it, is read back as the one strategy that the
/// decoder makes of the whole document.
pub proof fn law_single_is_read_whole(unit: PreTokenizerWrapper)
    requires
        unit_document(unit) is Ok,
        !has_envelope(unit_document(unit)->Ok_0),
        decoded_unit(unit_document(unit)->Ok_0) is Some,
        variant_of(decoded_unit(unit_document(unit)->Ok_0)->Some_0) != EngineVariant::Sequence,
    ensures
        parsed(unit_document(unit)->Ok_0) == Ok::<WrapperView, ErrorView>(
            WrapperView::Wrapped(decoded_unit(unit_document(unit)->Ok_0)->Some_0),
        ),
{
}

/// Applying one run of options after another is applying the first, then
/// the second to what the first gave.
pub proof fn law_options_apply_in_turn<C: Configurable>(
    start: C,
    first: Seq<NamedView>,
    second: Seq<NamedView>,
)
    ensures
        configured(start, first + second) == match configured(start, first) {
            Ok(config) => configured(config, second),
            Err(e) => Err(e),
        },
        unrecognized::<C>(first + second) == unrecognized::<C>(first) + unrecognized::<C>(second),
    decreases second.len(),
{
    if second.len() == 0 {
        assert(first + second =~= first);
        assert(unrecognized::<C>(first) + unrecognized::<C>(second) =~= unrecognized::<C>(first));
    } else {
        assert((first + second).drop_last() =~= first + second.drop_last());
        assert((first + second).last() == second.last());
        law_options_apply_in_turn(start, first, second.drop_last());
        assert(unrecognized::<C>(first + second) =~= unrecognized::<C>(first) + unrecognized::<C>(
            second,
        ));
    }
}

/// An option that is not recognized never fails a build and never changes
/// its result: wherever it stands among the others, the configuration is
/// what it is without it, and its name is reported at its place.
pub proof fn law_unknown_option_is_tolerated<C: Configurable>(
    start: C,
    before: Seq<NamedView>,
    unknown: NamedView,
    after: Seq<NamedView>,
)
    requires
        !C::recognizes(unknown.name),
    ensures
        configured(start, before + seq![unknown] + after) == configured(start, before + after),
        unrecognized::<C>(before + seq![unknown] + after) == unrecognized::<C>(before) + seq![
            unknown.name,
        ] + unrecognized::<C>(after),
{
    let one = seq![unknown];
    let none = Seq::<NamedView>::empty();
    assert(one.drop_last() =~= none);
    assert(unrecognized::<C>(none) =~= Seq::<Seq<char>>::empty());
    assert(unrecognized::<C>(one) =~= seq![unknown.name]);
    law_options_apply_in_turn(start, before, one);
    law_options_apply_in_turn(start, before + one, after);
    law_options_apply_in_turn(start, before, after);
    match configured(start, before) {
        Ok(config) => {
            assert(configured(config, none) == Ok::<C, ErrorView>(config));
            assert(configured(config, one) == applied(config, unknown));
        },
        Err(_) => {},
    }
}

/// Options that are all unrecognized leave the configuration at its start.
pub proof fn law_unknown_options_keep_defaults<C: Configurable>(start: C, options: Seq<NamedView>)
    requires
        forall|i: int| 0 <= i < options.len() ==> !C::recognizes((#[trigger] options[i]).name),
    ensures
        configured(start, options) == Ok::<C, ErrorView>(start),
        unrecognized::<C>(options) == options.map_values(|o: NamedView| o.name),
    decreases options.len(),
{
    if options.len() == 0 {
        assert(unrecognized::<C>(options) =~= options.map_values(|o: NamedView| o.name));
    } else {
        let shorter = options.drop_last();
        assert forall|i: int| 0 <= i < shorter.len() implies !C::recognizes(
            (#[trigger] shorter[i]).name,
        ) by {
            assert(shorter[i] == options[i]);
        }
        law_unknown_options_keep_defaults(start, shorter);
        assert(!C::recognizes(options[options.len() - 1].name));
        assert(unrecognized::<C>(options) =~= options.map_values(|o: NamedView| o.name));
    }
}

/// Every special token of a configuration is marked special, and holds the
/// text of the list element that it was made from.
pub proof fn law_special_tokens_are_special(option: Seq<char>, items: Seq<ItemView>)
    requires
        spec_special_tokens(option, ValueView::List(items)) is Ok,
    ensures
        ({
            let tokens = spec_special_tokens(option, ValueView::List(items))->Ok_0;
            &&& tokens.len() == items.len()
            &&& forall|i: int|
                0 <= i < items.len() ==> (#[trigger] tokens[i]).special && tokens[i].content == (
                match items[i] {
                    ItemView::Text(s) => s,
                    ItemView::Token(t) => t.content,
                    ItemView::Other => Seq::empty(),
                })
        }),
{
}

/// An empty string adds nothing to an alphabet, and a string that is not
/// empty adds its first character and no other.
pub proof fn law_alphabet_takes_first_characters(items: Seq<ItemView>, text: Seq<char>)
    ensures
        first_characters(items.push(ItemView::Text(text))) == if text.len() == 0 {
            first_characters(items)
        } else {
            first_characters(items).insert(text[0])
        },
{
    let longer = items.push(ItemView::Text(text));
    let expected = if text.len() == 0 {
        first_characters(items)
    } else {
        first_characters(items).insert(text[0])
    };
    assert forall|c: char| first_characters(longer).contains(c) == expected.contains(c) by {
        if first_characters(longer).contains(c) {
            let k = choose|k: int| 0 <= k < longer.len() && starts_with(#[trigger] longer[k], c);
            if k < items.len() {
                assert(items[k] == longer[k]);
            }
        }
        if expected.contains(c) {
            if first_characters(items).contains(c) {
                let k = choose|k: int| 0 <= k < items.len() && starts_with(#[trigger] items[k], c);
                assert(longer[k] == items[k]);
            } else {
                assert(starts_with(longer[items.len() as int], c));
            }
        }
    }
    assert(first_characters(longer) =~= expected);
}

} // verus!
