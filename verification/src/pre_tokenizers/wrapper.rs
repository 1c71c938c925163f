//! A pre-tokenizer: one strategy, or an ordered run of strategies. And the
//! slot that holds one on behalf of a host.
use std::sync::Arc;
use vstd::prelude::*;
use tokenizers::pre_tokenizers::PreTokenizerWrapper;
use tokenizers::PreTokenizedString;
use crate::error::{ConfigurationError, ErrorView};
use crate::pre_tokenizers::engine::{
    EngineVariant, run_unit, runs_to_an_end, unit_outcome, unit_variant, variant_of,
};

verus! {

/// A pre-tokenizer. A sequence runs its strategies first to last. Its elements
/// are strategies, never pre-tokenizers: a sequence cannot hold a sequence.
#[derive(Clone, Debug)]
pub enum JsPreTokenizerWrapper {
    Sequence(Vec<Arc<PreTokenizerWrapper>>),
    Wrapped(Arc<PreTokenizerWrapper>),
}

/// A `JsPreTokenizerWrapper` as a mathematical value.
pub enum WrapperView {
    Sequence(Seq<PreTokenizerWrapper>),
    Wrapped(PreTokenizerWrapper),
}

/// The strategies behind a run of shared handles.
pub open spec fn strategies(handles: Seq<Arc<PreTokenizerWrapper>>) -> Seq<PreTokenizerWrapper> {
    handles.map_values(|h: Arc<PreTokenizerWrapper>| *h)
}

impl View for JsPreTokenizerWrapper {
    type V = WrapperView;

    open spec fn view(&self) -> WrapperView {
        match self {
            JsPreTokenizerWrapper::Sequence(units) => WrapperView::Sequence(strategies(units@)),
            JsPreTokenizerWrapper::Wrapped(unit) => WrapperView::Wrapped(**unit),
        }
    }
}

impl WrapperView {
    /// The strategies that the pre-tokenizer runs, in order.
    pub open spec fn units(self) -> Seq<PreTokenizerWrapper> {
        match self {
            WrapperView::Sequence(units) => units,
            WrapperView::Wrapped(unit) => seq![unit],
        }
    }
}

/// The strategies of a run of pre-tokenizers, each spliced in at its place:
/// those of the first, then those of the second, and so on.
pub open spec fn flattened(inputs: Seq<WrapperView>) -> Seq<PreTokenizerWrapper>
    decreases inputs.len(),
{
    if inputs.len() == 0 {
        Seq::empty()
    } else {
        flattened(inputs.drop_last()) + inputs.last().units()
    }
}

/// What running one strategy on `input` comes to: the text afterwards, and
/// the failure if there was one. A strategy of a kind that the engine may
/// not run to an end is not run: the text stays, and the failure says so.
pub open spec fn step_outcome(unit: PreTokenizerWrapper, input: PreTokenizedString) -> (
    PreTokenizedString,
    Option<ErrorView>,
) {
    if runs_to_an_end(variant_of(unit)) {
        (
            unit_outcome(unit, input).0,
            match unit_outcome(unit, input).1 {
                Some(message) => Some(ErrorView::DelegatedAlgorithmFailure { message }),
                None => None,
            },
        )
    } else {
        (input, Some(ErrorView::UnsupportedStrategy))
    }
}

/// What running `units` on `input`, first to last, comes to: the text after
/// the last strategy that ran, and the failure of the strategy that stopped
/// the run, if one did. No strategy runs after one that failed.
pub open spec fn run_outcome(units: Seq<PreTokenizerWrapper>, input: PreTokenizedString) -> (
    PreTokenizedString,
    Option<ErrorView>,
)
    decreases units.len(),
{
    if units.len() == 0 {
        (input, None)
    } else {
        let before = run_outcome(units.drop_last(), input);
        if before.1 is Some {
            before
        } else {
            step_outcome(units.last(), before.0)
        }
    }
}

/// A failure that the first `n` strategies give is the failure of the run.
pub proof fn lemma_failure_stays(units: Seq<PreTokenizerWrapper>, input: PreTokenizedString, n: int)
    requires
        0 <= n <= units.len(),
        run_outcome(units.take(n), input).1 is Some,
    ensures
        run_outcome(units, input) == run_outcome(units.take(n), input),
    decreases units.len() - n,
{
    if n == units.len() {
        assert(units.take(n) =~= units);
    } else {
        assert(units.take(n + 1).drop_last() =~= units.take(n));
        lemma_failure_stays(units, input, n + 1);
    }
}

/// Runs one strategy on a text, unless it is of a kind that the engine may
/// not run to an end.
fn run_one(unit: &PreTokenizerWrapper, pretokenized: &mut PreTokenizedString) -> (r: Result<
    (),
    ConfigurationError,
>)
    ensures
        *final(pretokenized) == step_outcome(*unit, *old(pretokenized)).0,
        match step_outcome(*unit, *old(pretokenized)).1 {
            None => r is Ok,
            Some(failure) => r matches Err(e) && e@ == failure,
        },
{
    match unit_variant(unit) {
        EngineVariant::Split => Err(ConfigurationError::UnsupportedStrategy),
        EngineVariant::Sequence => Err(ConfigurationError::UnsupportedStrategy),
        _ => match run_unit(unit, pretokenized) {
            Ok(_) => Ok(()),
            Err(message) => Err(ConfigurationError::DelegatedAlgorithmFailure { message }),
        },
    }
}

impl JsPreTokenizerWrapper {
    /// The pre-tokenizer that is the one strategy `unit`.
    pub fn wrapped(unit: PreTokenizerWrapper) -> (r: JsPreTokenizerWrapper)
        ensures
            r@ == WrapperView::Wrapped(unit),
    {
        JsPreTokenizerWrapper::Wrapped(Arc::new(unit))
    }

    /// Runs the pre-tokenizer on a text: its strategies in order, up to the
    /// first that fails. A failure of the engine comes back as the engine
    /// worded it. A strategy of a kind that the engine may not run to an
    /// end fails without being run.
    pub fn pre_tokenize(&self, pretokenized: &mut PreTokenizedString) -> (r: Result<
        (),
        ConfigurationError,
    >)
        ensures
            *final(pretokenized) == run_outcome(self@.units(), *old(pretokenized)).0,
            match run_outcome(self@.units(), *old(pretokenized)).1 {
                None => r is Ok,
                Some(failure) => r matches Err(e) && e@ == failure,
            },
    {
        match self {
            JsPreTokenizerWrapper::Wrapped(unit) => {
                assert(self@.units().drop_last() =~= Seq::empty());
                assert(run_outcome(Seq::empty(), *pretokenized) == (
                    *pretokenized,
                    None::<ErrorView>,
                ));
                run_one(unit, pretokenized)
            },
            JsPreTokenizerWrapper::Sequence(handles) => {
                let ghost units = strategies(handles@);
                let ghost input = *pretokenized;
                let mut i: usize = 0;
                assert(units.take(0) =~= Seq::empty());
                while i < handles.len()
                    invariant
                        i <= handles.len(),
                        units == strategies(handles@),
                        units == self@.units(),
                        input == *old(pretokenized),
                        run_outcome(units.take(i as int), input) == (*pretokenized, None::<ErrorView>),
                    decreases handles.len() - i,
                {
                    assert(units.take(i + 1).drop_last() =~= units.take(i as int));
                    assert(units.take(i + 1).last() == *handles@[i as int]);
                    match run_one(&handles[i], pretokenized) {
                        Ok(_) => {},
                        Err(e) => {
                            proof {
                                lemma_failure_stays(units, input, i + 1);
                            }
                            return Err(e);
                        },
                    }
                    i += 1;
                }
                assert(units.take(i as int) =~= units);
                Ok(())
            },
        }
    }
}

/// The slot in which a host keeps a pre-tokenizer. A host may allocate the
/// slot before it fills it; until then every operation on the slot fails.
#[derive(Clone, Debug)]
pub struct PreTokenizer {
    pub pretok: Option<JsPreTokenizerWrapper>,
}

impl View for PreTokenizer {
    type V = Option<WrapperView>;

    open spec fn view(&self) -> Option<WrapperView> {
        match self.pretok {
            Some(wrapper) => Some(wrapper@),
            None => None,
        }
    }
}

/// The pre-tokenizers that a run of slots holds, provided that all are filled.
pub open spec fn contents(slots: Seq<PreTokenizer>) -> Seq<WrapperView> {
    slots.map_values(|slot: PreTokenizer| slot@->Some_0)
}

/// Whether every slot of a run is filled.
pub open spec fn all_filled(slots: Seq<PreTokenizer>) -> bool {
    forall|i: int| 0 <= i < slots.len() ==> (#[trigger] slots[i])@ is Some
}

impl PreTokenizer {
    /// A slot that was allocated and not filled.
    pub fn uninitialized() -> (r: PreTokenizer)
        ensures
            r@ is None,
    {
        PreTokenizer { pretok: None }
    }

    /// A slot filled with `wrapper`.
    pub fn filled(wrapper: JsPreTokenizerWrapper) -> (r: PreTokenizer)
        ensures
            r@ == Some(wrapper@),
    {
        PreTokenizer { pretok: Some(wrapper) }
    }

    /// Runs the pre-tokenizer in the slot on a text. On an empty slot this
    /// fails before anything runs, and the text is left as it was.
    pub fn pre_tokenize(&self, pretokenized: &mut PreTokenizedString) -> (r: Result<
        (),
        ConfigurationError,
    >)
        ensures
            match self@ {
                None => r matches Err(e) && e@ == ErrorView::UninitializedConfiguration
                    && *final(pretokenized) == *old(pretokenized),
                Some(wrapper) => *final(pretokenized) == run_outcome(
                    wrapper.units(),
                    *old(pretokenized),
                ).0 && match run_outcome(wrapper.units(), *old(pretokenized)).1 {
                    None => r is Ok,
                    Some(failure) => r matches Err(e) && e@ == failure,
                },
            },
    {
        match &self.pretok {
            None => Err(ConfigurationError::UninitializedConfiguration),
            Some(wrapper) => wrapper.pre_tokenize(pretokenized),
        }
    }
}

/// Composes pre-tokenizers into one sequence.
///
/// The inputs are walked in order. The strategies of a sequence are spliced
/// in at its place, a single strategy is appended, so the result is flat
/// whatever the inputs were made of. Fails if any input slot is empty.
pub fn sequence(pretokenizers: &[PreTokenizer]) -> (r: Result<PreTokenizer, ConfigurationError>)
    ensures
        if all_filled(pretokenizers@) {
            r matches Ok(slot) && slot@ == Some(
                WrapperView::Sequence(flattened(contents(pretokenizers@))),
            )
        } else {
            r matches Err(e) && e@ == ErrorView::UninitializedConfiguration
        },
{
    let mut sequence: Vec<Arc<PreTokenizerWrapper>> = Vec::with_capacity(pretokenizers.len());
    let ghost inputs = contents(pretokenizers@);
    let mut i: usize = 0;
    assert(inputs.take(0) =~= Seq::empty());
    assert(strategies(sequence@) =~= Seq::empty());
    while i < pretokenizers.len()
        invariant
            i <= pretokenizers.len(),
            inputs == contents(pretokenizers@),
            forall|j: int| 0 <= j < i ==> (#[trigger] pretokenizers@[j])@ is Some,
            strategies(sequence@) == flattened(inputs.take(i as int)),
        decreases pretokenizers.len() - i,
    {
        let ghost before = strategies(sequence@);
        assert(inputs.take(i + 1).drop_last() =~= inputs.take(i as int));
        assert(inputs.take(i + 1).last() == inputs[i as int]);
        match &pretokenizers[i].pretok {
            None => {
                assert(pretokenizers@[i as int]@ is None);
                return Err(ConfigurationError::UninitializedConfiguration);
            },
            Some(JsPreTokenizerWrapper::Sequence(units)) => {
                let mut k: usize = 0;
                while k < units.len()
                    invariant
                        k <= units.len(),
                        strategies(sequence@) == before + strategies(units@).take(k as int),
                    decreases units.len() - k,
                {
                    let ghost so_far = strategies(sequence@);
                    sequence.push(units[k].clone());
                    assert(strategies(sequence@) =~= so_far.push(*units@[k as int]));
                    assert(strategies(units@).take(k + 1) =~= strategies(units@).take(k as int).push(
                        *units@[k as int],
                    ));
                    k += 1;
                }
                assert(strategies(units@).take(k as int) =~= strategies(units@));
            },
            Some(JsPreTokenizerWrapper::Wrapped(unit)) => {
                sequence.push(unit.clone());
                assert(strategies(sequence@) =~= before + seq![**unit]);
            },
        }
        i += 1;
    }
    assert(inputs.take(i as int) =~= inputs);
    Ok(PreTokenizer { pretok: Some(JsPreTokenizerWrapper::Sequence(sequence)) })
}

} // verus!
