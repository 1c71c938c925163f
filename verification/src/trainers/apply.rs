//! What it means to apply a run of named options to a configuration.
//!
//! Options are applied one after the other, in the order given. A recognized
//! option sets its field or fails the whole build; any other option leaves
//! the configuration as it is and is reported by name.
use vstd::prelude::*;
use crate::error::ErrorView;
use crate::trainers::convert::marked_value;
use crate::trainers::options::{NamedView, OptionSet, ValueView};

verus! {

/// A configuration that named options can be applied to.
pub trait Configurable: Sized {
    /// Whether `name` is one of the options that this configuration knows.
    spec fn recognizes(name: Seq<char>) -> bool;

    /// The configuration after the recognized option `name` was given `value`,
    /// or the error that the value gives rise to.
    spec fn with(self, name: Seq<char>, value: ValueView) -> Result<Self, ErrorView>;
}

/// The configuration after one option was applied to `config`.
pub open spec fn applied<C: Configurable>(config: C, option: NamedView) -> Result<C, ErrorView> {
    if C::recognizes(option.name) {
        config.with(option.name, option.value)
    } else {
        Ok(config)
    }
}

/// The configuration after all of `options` were applied to `start`, first to
/// last, or the error of the first option that fails.
pub open spec fn configured<C: Configurable>(start: C, options: Seq<NamedView>) -> Result<
    C,
    ErrorView,
>
    decreases options.len(),
{
    if options.len() == 0 {
        Ok(start)
    } else {
        match configured(start, options.drop_last()) {
            Ok(config) => applied(config, options.last()),
            Err(e) => Err(e),
        }
    }
}

/// The names among `options` that the configuration does not recognize, in
/// the order in which they were given.
pub open spec fn unrecognized<C: Configurable>(options: Seq<NamedView>) -> Seq<Seq<char>>
    decreases options.len(),
{
    if options.len() == 0 {
        Seq::empty()
    } else if C::recognizes(options.last().name) {
        unrecognized::<C>(options.drop_last())
    } else {
        unrecognized::<C>(options.drop_last()).push(options.last().name)
    }
}

/// How many of the options a build reads: all of them, or those up to and
/// with the first that fails.
pub open spec fn reach<C: Configurable>(start: C, options: Seq<NamedView>) -> int
    decreases options.len(),
{
    if options.len() == 0 {
        0
    } else if configured(start, options.drop_last()) is Err {
        reach(start, options.drop_last())
    } else {
        options.len() as int
    }
}

/// An option after a build has read it. The added-token records in a list
/// of special tokens are marked special, as far as the list was read;
/// nothing else changes.
pub open spec fn marked_option(option: NamedView) -> NamedView {
    if option.name == "special_tokens"@ {
        NamedView { name: option.name, value: marked_value(option.value) }
    } else {
        option
    }
}

/// The options after a build has read the first `n` of them.
pub open spec fn marked_upto(options: Seq<NamedView>, n: int) -> Seq<NamedView> {
    Seq::new(
        options.len(),
        |j: int|
            if j < n {
                marked_option(options[j])
            } else {
                options[j]
            },
    )
}

/// The caller's options after a build from `start`.
pub open spec fn after_build<C: Configurable>(start: C, options: Seq<NamedView>) -> Seq<NamedView> {
    marked_upto(options, reach(start, options))
}

/// The options that a caller hands to a builder, if any.
pub open spec fn given(kwargs: Option<&mut OptionSet>) -> Seq<NamedView> {
    match kwargs {
        Some(set) => set@,
        None => Seq::empty(),
    }
}

/// Where the first `n` options fail, the build reads no option behind them.
pub proof fn lemma_reach_stays<C: Configurable>(start: C, options: Seq<NamedView>, n: int)
    requires
        0 <= n <= options.len(),
        configured(start, options.take(n)) is Err,
    ensures
        reach(start, options) == reach(start, options.take(n)),
    decreases options.len(),
{
    if n == options.len() {
        assert(options.take(n) =~= options);
    } else {
        let shorter = options.drop_last();
        assert(shorter.take(n) =~= options.take(n));
        lemma_error_stays(start, shorter, n);
        lemma_reach_stays(start, shorter, n);
    }
}

/// A build whose options all apply, or whose last option is the first to
/// fail, reads every option.
pub proof fn lemma_prefix_is_read<C: Configurable>(start: C, options: Seq<NamedView>)
    requires
        options.len() > 0,
        configured(start, options.drop_last()) is Ok,
    ensures
        reach(start, options) == options.len(),
{
}

/// An error that applying the first `n` options gives is the error of the
/// whole run.
pub proof fn lemma_error_stays<C: Configurable>(start: C, options: Seq<NamedView>, n: int)
    requires
        0 <= n <= options.len(),
        configured(start, options.take(n)) is Err,
    ensures
        configured(start, options) == configured(start, options.take(n)),
    decreases options.len() - n,
{
    if n == options.len() {
        assert(options.take(n) =~= options);
    } else {
        assert(options.take(n + 1).drop_last() =~= options.take(n));
        lemma_error_stays(start, options, n + 1);
    }
}

/// Applying the first `n + 1` options is applying the first `n`, then the next.
pub proof fn lemma_one_more<C: Configurable>(start: C, options: Seq<NamedView>, n: int)
    requires
        0 <= n < options.len(),
    ensures
        configured(start, options.take(n + 1)) == match configured(start, options.take(n)) {
            Ok(config) => applied(config, options[n]),
            Err(e) => Err(e),
        },
        unrecognized::<C>(options.take(n + 1)) == if C::recognizes(options[n].name) {
            unrecognized::<C>(options.take(n))
        } else {
            unrecognized::<C>(options.take(n)).push(options[n].name)
        },
{
    assert(options.take(n + 1).drop_last() =~= options.take(n));
    assert(options.take(n + 1).last() == options[n]);
}

} // verus!
