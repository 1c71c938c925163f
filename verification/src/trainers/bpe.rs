//! The options of the byte-pair encoding and WordPiece trainers.
use vstd::prelude::*;
use crate::error::{ConfigurationError, ErrorView};
use crate::text::same_text;
use crate::trainers::apply::{
    Configurable, after_build, applied, configured, given, lemma_error_stays, lemma_one_more,
    lemma_prefix_is_read, lemma_reach_stays, marked_upto, unrecognized,
};
use crate::trainers::config::{BpeTrainerConfig, BpeView};
use crate::trainers::convert::{
    marked_list,
    alphabet, size, special_tokens, text, unsigned32, boolean, spec_alphabet, spec_boolean, spec_size,
    spec_special_tokens, spec_text, spec_u32,
};
use crate::trainers::options::{
    IgnoredOption, NamedOption, OptionSet, OptionValue, ValueView, ignored_names,
};

verus! {

impl Configurable for BpeView {
    open spec fn recognizes(name: Seq<char>) -> bool {
        ||| name == "vocab_size"@
        ||| name == "min_frequency"@
        ||| name == "show_progress"@
        ||| name == "special_tokens"@
        ||| name == "limit_alphabet"@
        ||| name == "initial_alphabet"@
        ||| name == "continuing_subword_prefix"@
        ||| name == "end_of_word_suffix"@
    }

    open spec fn with(self, name: Seq<char>, value: ValueView) -> Result<BpeView, ErrorView> {
        if name == "vocab_size"@ {
            match spec_size(name, value) {
                Ok(n) => Ok(BpeView { vocab_size: n, ..self }),
                Err(e) => Err(e),
            }
        } else if name == "min_frequency"@ {
            match spec_u32(name, value) {
                Ok(n) => Ok(BpeView { min_frequency: n, ..self }),
                Err(e) => Err(e),
            }
        } else if name == "show_progress"@ {
            match spec_boolean(name, value) {
                Ok(b) => Ok(BpeView { show_progress: b, ..self }),
                Err(e) => Err(e),
            }
        } else if name == "special_tokens"@ {
            match spec_special_tokens(name, value) {
                Ok(tokens) => Ok(BpeView { special_tokens: tokens, ..self }),
                Err(e) => Err(e),
            }
        } else if name == "limit_alphabet"@ {
            match spec_size(name, value) {
                Ok(n) => Ok(BpeView { limit_alphabet: Some(n), ..self }),
                Err(e) => Err(e),
            }
        } else if name == "initial_alphabet"@ {
            match spec_alphabet(name, value) {
                Ok(set) => Ok(BpeView { initial_alphabet: set, ..self }),
                Err(e) => Err(e),
            }
        } else if name == "continuing_subword_prefix"@ {
            match spec_text(name, value) {
                Ok(s) => Ok(BpeView { continuing_subword_prefix: Some(s), ..self }),
                Err(e) => Err(e),
            }
        } else if name == "end_of_word_suffix"@ {
            match spec_text(name, value) {
                Ok(s) => Ok(BpeView { end_of_word_suffix: Some(s), ..self }),
                Err(e) => Err(e),
            }
        } else {
            Ok(self)
        }
    }
}

/// Applies one option to `config`. Returns whether the option was recognized.
fn apply(config: &mut BpeTrainerConfig, option: &NamedOption) -> (r: Result<bool, ConfigurationError>)
    requires
        old(config).wf(),
    ensures
        match applied(old(config)@, option@) {
            Ok(next) => r == Ok::<bool, ConfigurationError>(BpeView::recognizes(option@.name))
                && final(config)@ == next && final(config).wf(),
            Err(e) => r matches Err(x) && x@ == e,
        },
{
    let name = option.name.as_str();
    let value = &option.value;
    if same_text(name, "vocab_size") {
        match size(name, value) {
            Ok(n) => {
                config.vocab_size = n;
                Ok(true)
            },
            Err(e) => Err(e),
        }
    } else if same_text(name, "min_frequency") {
        match unsigned32(name, value) {
            Ok(n) => {
                config.min_frequency = n;
                Ok(true)
            },
            Err(e) => Err(e),
        }
    } else if same_text(name, "show_progress") {
        match boolean(name, value) {
            Ok(b) => {
                config.show_progress = b;
                Ok(true)
            },
            Err(e) => Err(e),
        }
    } else if same_text(name, "special_tokens") {
        match special_tokens(name, value) {
            Ok(tokens) => {
                config.special_tokens = tokens;
                Ok(true)
            },
            Err(e) => Err(e),
        }
    } else if same_text(name, "limit_alphabet") {
        match size(name, value) {
            Ok(n) => {
                config.limit_alphabet = Some(n);
                Ok(true)
            },
            Err(e) => Err(e),
        }
    } else if same_text(name, "initial_alphabet") {
        match alphabet(name, value) {
            Ok(chars) => {
                config.initial_alphabet = chars;
                Ok(true)
            },
            Err(e) => Err(e),
        }
    } else if same_text(name, "continuing_subword_prefix") {
        match text(name, value) {
            Ok(s) => {
                config.continuing_subword_prefix = Some(s);
                Ok(true)
            },
            Err(e) => Err(e),
        }
    } else if same_text(name, "end_of_word_suffix") {
        match text(name, value) {
            Ok(s) => {
                config.end_of_word_suffix = Some(s);
                Ok(true)
            },
            Err(e) => Err(e),
        }
    } else {
        Ok(false)
    }
}

/// Applies the options of `kwargs`, in order, to `start`.
///
/// Returns the resulting settings with a notice for each option that was not
/// recognized, or the error of the first option whose value has the wrong
/// type or shape. In the caller's options, the added-token records in the
/// lists of special tokens that were read are marked special.
pub(crate) fn configure(start: BpeTrainerConfig, kwargs: Option<&mut OptionSet>) -> (r: Result<
    (BpeTrainerConfig, Vec<IgnoredOption>),
    ConfigurationError,
>)
    requires
        start.wf(),
    ensures
        match configured(start@, given(kwargs)) {
            Ok(config) => r matches Ok((c, notices)) && c@ == config && c.wf() && ignored_names(
                notices@,
            ) == unrecognized::<BpeView>(given(kwargs)),
            Err(e) => r matches Err(x) && x@ == e,
        },
        match kwargs {
            Some(set) => final(set)@ == after_build(start@, set@),
            None => true,
        },
{
    let mut config = start;
    let mut notices: Vec<IgnoredOption> = Vec::new();
    assert(ignored_names(notices@) =~= Seq::empty());
    match kwargs {
        None => Ok((config, notices)),
        Some(set) => {
            let ghost options = set@;
            let n = set.entries.len();
            let mut i: usize = 0;
            let mut failure: Option<ConfigurationError> = None;
            assert(options.take(0) =~= Seq::empty());
            assert(set@ =~= marked_upto(options, 0));
            while i < n && failure.is_none()
                invariant
                    i <= n,
                    n == options.len(),
                    set.entries@.len() == n,
                    failure is None ==> config.wf(),
                    failure is None ==> set@ == marked_upto(options, i as int),
                    failure is None ==> configured(start@, options.take(i as int)) == Ok::<
                        BpeView,
                        ErrorView,
                    >(config@),
                    failure is None ==> ignored_names(notices@) == unrecognized::<BpeView>(
                        options.take(i as int),
                    ),
                    failure matches Some(e) ==> configured(start@, options) == Err::<
                        BpeView,
                        ErrorView,
                    >(e@) && set@ == after_build(start@, options),
                decreases n - i + (if failure is None { 1int } else { 0int }),
            {
                let ghost before = ignored_names(notices@);
                let ghost held = set@;
                proof {
                    lemma_one_more(start@, options, i as int);
                    assert(options.take(i + 1).drop_last() =~= options.take(i as int));
                    assert(held[i as int] == options[i as int]);
                }
                let applied_now = apply(&mut config, &set.entries[i]);
                let name = set.entries[i].name.clone();
                let about_tokens = same_text(name.as_str(), "special_tokens");
                let marked = match &set.entries[i].value {
                    OptionValue::List(items) => if about_tokens {
                        Some(marked_list(items))
                    } else {
                        None
                    },
                    _ => None,
                };
                match marked {
                    Some(items) => {
                        set.entries.set(i, NamedOption { name: name.clone(), value: OptionValue::List(items) });
                    },
                    None => {},
                }
                assert(set@ =~= marked_upto(options, i + 1)) by {
                    assert forall|j: int| 0 <= j < options.len() implies set@[j] == marked_upto(
                        options,
                        i + 1,
                    )[j] by {
                        if j != i {
                            assert(set@[j] == held[j]);
                        }
                    }
                }
                match applied_now {
                    Ok(recognized) => {
                        if !recognized {
                            notices.push(IgnoredOption { name });
                            assert(ignored_names(notices@) =~= before.push(options[i as int].name));
                        }
                    },
                    Err(e) => {
                        proof {
                            lemma_error_stays(start@, options, i + 1);
                            lemma_reach_stays(start@, options, i + 1);
                            lemma_prefix_is_read(start@, options.take(i + 1));
                        }
                        failure = Some(e);
                    },
                }
                if failure.is_none() {
                    i += 1;
                }
            }
            match failure {
                Some(e) => Err(e),
                None => {
                    assert(options.take(i as int) =~= options);
                    proof {
                        if n > 0 {
                            assert(options.drop_last() =~= options.take(n - 1));
                            lemma_prefix_is_read(start@, options);
                        }
                    }
                    Ok((config, notices))
                },
            }
        },
    }
}

} // verus!
