use std::collections::HashSet;
use std::sync::Arc;

use tokenizer_components::trainers::{
    AddedToken, BpeTrainerConfig, IgnoredOption, ListItem, OptionSet, OptionValue, PyBpeTrainer,
    PyTrainer, PyUnigramTrainer, PyWordLevelTrainer, PyWordPieceTrainer, TrainerConfiguration,
    TrainerSubtype, UnigramTrainerConfig, WordLevelTrainerConfig,
};
use tokenizer_components::{ConfigurationError, ExpectedType};
use tokenizers::models::bpe::BpeTrainer;
use tokenizers::models::unigram::UnigramTrainer;
use tokenizers::models::wordlevel::WordLevelTrainer;
use tokenizers::models::wordpiece::WordPieceTrainer;

fn options(entries: Vec<(&str, OptionValue)>) -> OptionSet {
    let mut set = OptionSet::new();
    for (name, value) in entries {
        set.insert(name.to_string(), value);
    }
    set
}

fn texts(items: &[&str]) -> OptionValue {
    OptionValue::List(items.iter().map(|s| ListItem::Text(s.to_string())).collect())
}

fn special(content: &str) -> AddedToken {
    AddedToken { content: content.to_string(), is_special_token: true }
}

fn bpe(trainer: &PyTrainer) -> &BpeTrainerConfig {
    match trainer.trainer.as_ref() {
        TrainerConfiguration::Bpe(config) => config,
        other => panic!("expected a byte-pair encoding trainer, got {:?}", other),
    }
}

fn word_piece(trainer: &PyTrainer) -> &BpeTrainerConfig {
    match trainer.trainer.as_ref() {
        TrainerConfiguration::WordPiece(config) => config,
        other => panic!("expected a WordPiece trainer, got {:?}", other),
    }
}

fn word_level(trainer: &PyTrainer) -> &WordLevelTrainerConfig {
    match trainer.trainer.as_ref() {
        TrainerConfiguration::WordLevel(config) => config,
        other => panic!("expected a word-level trainer, got {:?}", other),
    }
}

fn unigram(trainer: &PyTrainer) -> &UnigramTrainerConfig {
    match trainer.trainer.as_ref() {
        TrainerConfiguration::Unigram(config) => config,
        other => panic!("expected a unigram trainer, got {:?}", other),
    }
}

fn names(notices: &[IgnoredOption]) -> Vec<String> {
    notices.iter().map(|n| n.name.clone()).collect()
}

fn mismatch(option: &str, expected: ExpectedType) -> ConfigurationError {
    ConfigurationError::InvalidOptionType { option: option.to_string(), expected }
}

#[test]
fn bpe_defaults_are_those_of_the_engine() {
    let (_, trainer, notices) = PyBpeTrainer::new(None).unwrap();
    let ours = bpe(&trainer);
    let theirs = BpeTrainer::default();
    assert_eq!(ours.min_frequency, theirs.min_frequency);
    assert_eq!(ours.vocab_size, theirs.vocab_size);
    assert_eq!(ours.show_progress, theirs.show_progress);
    assert_eq!(ours.special_tokens.len(), theirs.special_tokens.len());
    assert_eq!(ours.limit_alphabet, theirs.limit_alphabet);
    assert_eq!(ours.initial_alphabet.len(), theirs.initial_alphabet.len());
    assert_eq!(ours.continuing_subword_prefix, theirs.continuing_subword_prefix);
    assert_eq!(ours.end_of_word_suffix, theirs.end_of_word_suffix);
    assert_eq!(ours.min_frequency, 0);
    assert_eq!(ours.vocab_size, 30000);
    assert!(ours.show_progress);
    assert!(notices.is_empty());

    let (_, empty, _) = PyBpeTrainer::new(Some(&mut OptionSet::new())).unwrap();
    assert_eq!(bpe(&empty), ours);
}

#[test]
fn word_piece_defaults_are_those_of_the_engine() {
    let (_, trainer, _) = PyWordPieceTrainer::new(None).unwrap();
    let ours = word_piece(&trainer);
    let theirs = WordPieceTrainer::builder().build();
    assert_eq!(ours.min_frequency, theirs.min_frequency());
    assert_eq!(ours.vocab_size, theirs.vocab_size());
    assert_eq!(ours.show_progress, theirs.show_progress());
    assert_eq!(ours.special_tokens.len(), theirs.special_tokens().len());
    assert_eq!(ours.limit_alphabet, theirs.limit_alphabet());
    assert_eq!(ours.initial_alphabet.len(), theirs.initial_alphabet().len());
    assert_eq!(&ours.continuing_subword_prefix, theirs.continuing_subword_prefix());
    assert_eq!(&ours.end_of_word_suffix, theirs.end_of_word_suffix());
    assert_eq!(ours.continuing_subword_prefix, Some("##".to_string()));
}

#[test]
fn word_level_defaults_are_those_of_the_engine() {
    let (_, trainer, _) = PyWordLevelTrainer::new(None).unwrap();
    let ours = word_level(&trainer);
    let theirs = WordLevelTrainer::default();
    assert_eq!(ours.min_frequency, theirs.min_frequency);
    assert_eq!(ours.vocab_size, theirs.vocab_size);
    assert_eq!(ours.show_progress, theirs.show_progress);
    assert_eq!(ours.special_tokens.len(), theirs.special_tokens.len());
}

#[test]
fn unigram_defaults_are_those_of_the_engine() {
    let (ours, notices) = PyUnigramTrainer::configure(None).unwrap();
    let theirs = UnigramTrainer::default();
    assert_eq!(ours.show_progress, theirs.show_progress);
    assert_eq!(ours.vocab_size, theirs.vocab_size);
    assert_eq!(ours.n_sub_iterations, theirs.n_sub_iterations);
    assert_eq!(ours.shrinking_factor, theirs.shrinking_factor.to_bits());
    assert_eq!(f64::from_bits(ours.shrinking_factor), 0.75);
    assert_eq!(ours.special_tokens.len(), theirs.special_tokens.len());
    assert_eq!(ours.unk_token, theirs.unk_token);
    assert_eq!(ours.max_piece_length, theirs.max_piece_length);
    assert_eq!(ours.seed_size, 1_000_000);
    assert!(notices.is_empty());
}

#[test]
fn unknown_option_is_ignored_with_a_notice() {
    let mut kwargs = options(vec![
        ("vocab_size", OptionValue::Integer(1000)),
        ("bogus_flag", OptionValue::Boolean(true)),
    ]);
    let (_, trainer, notices) = PyBpeTrainer::new(Some(&mut kwargs)).unwrap();
    assert_eq!(bpe(&trainer).vocab_size, 1000);
    assert_eq!(names(&notices), vec!["bogus_flag".to_string()]);
    assert_eq!(notices[0].message(), "ignored unknown option `bogus_flag`");

    let (_, trainer, notices) = PyWordPieceTrainer::new(Some(&mut kwargs)).unwrap();
    assert_eq!(word_piece(&trainer).vocab_size, 1000);
    assert_eq!(names(&notices), vec!["bogus_flag".to_string()]);

    let (_, trainer, notices) = PyWordLevelTrainer::new(Some(&mut kwargs)).unwrap();
    assert_eq!(word_level(&trainer).vocab_size, 1000);
    assert_eq!(names(&notices), vec!["bogus_flag".to_string()]);

    let (config, notices) = PyUnigramTrainer::configure(Some(&mut kwargs)).unwrap();
    assert_eq!(config.vocab_size, 1000);
    assert_eq!(names(&notices), vec!["bogus_flag".to_string()]);
}

#[test]
fn unknown_options_are_reported_in_order() {
    let mut kwargs = options(vec![
        ("zeta", OptionValue::Integer(1)),
        ("min_frequency", OptionValue::Integer(3)),
        ("alpha", texts(&["x"])),
        ("zeta", OptionValue::Boolean(false)),
    ]);
    let (_, trainer, notices) = PyWordLevelTrainer::new(Some(&mut kwargs)).unwrap();
    assert_eq!(word_level(&trainer).min_frequency, 3);
    assert_eq!(
        names(&notices),
        vec!["zeta".to_string(), "alpha".to_string(), "zeta".to_string()]
    );
}

#[test]
fn option_of_another_algorithm_is_unknown() {
    let mut kwargs = options(vec![("limit_alphabet", OptionValue::Integer(10))]);
    let (_, trainer, notices) = PyWordLevelTrainer::new(Some(&mut kwargs)).unwrap();
    assert_eq!(word_level(&trainer), &WordLevelTrainerConfig {
        min_frequency: 0,
        vocab_size: 30000,
        show_progress: true,
        special_tokens: vec![],
    });
    assert_eq!(names(&notices), vec!["limit_alphabet".to_string()]);

    let mut kwargs = options(vec![
        ("min_frequency", OptionValue::Integer(2)),
        ("initial_alphabet", texts(&["a"])),
    ]);
    let (_, notices) = PyUnigramTrainer::configure(Some(&mut kwargs)).unwrap();
    assert_eq!(
        names(&notices),
        vec!["min_frequency".to_string(), "initial_alphabet".to_string()]
    );
}

#[test]
fn special_tokens_are_all_marked_special() {
    let mut kwargs = options(vec![(
        "special_tokens",
        OptionValue::List(vec![
            ListItem::Text("[UNK]".to_string()),
            ListItem::Token(AddedToken { content: "[SEP]".to_string(), is_special_token: false }),
        ]),
    )]);
    let expected = vec![special("[UNK]"), special("[SEP]")];
    let (_, trainer, _) = PyBpeTrainer::new(Some(&mut kwargs)).unwrap();
    assert_eq!(bpe(&trainer).special_tokens, expected);
    let (_, trainer, _) = PyWordPieceTrainer::new(Some(&mut kwargs)).unwrap();
    assert_eq!(word_piece(&trainer).special_tokens, expected);
    let (_, trainer, _) = PyWordLevelTrainer::new(Some(&mut kwargs)).unwrap();
    assert_eq!(word_level(&trainer).special_tokens, expected);
    let (config, _) = PyUnigramTrainer::configure(Some(&mut kwargs)).unwrap();
    assert_eq!(config.special_tokens, expected);
}

#[test]
fn special_tokens_of_another_shape_fail_the_build() {
    let mut kwargs = options(vec![
        ("vocab_size", OptionValue::Integer(10)),
        (
            "special_tokens",
            OptionValue::List(vec![ListItem::Text("[UNK]".to_string()), ListItem::Other]),
        ),
    ]);
    let expected = ConfigurationError::InvalidOptionValue { option: "special_tokens".to_string() };
    assert_eq!(PyBpeTrainer::new(Some(&mut kwargs)).err(), Some(expected.clone()));
    assert_eq!(PyWordPieceTrainer::new(Some(&mut kwargs)).err(), Some(expected.clone()));
    assert_eq!(PyWordLevelTrainer::new(Some(&mut kwargs)).err(), Some(expected.clone()));
    assert_eq!(PyUnigramTrainer::configure(Some(&mut kwargs)).err(), Some(expected.clone()));
    assert_eq!(
        expected.message(),
        "special_tokens must be a list of string or AddedToken"
    );

    let mut kwargs = options(vec![("special_tokens", OptionValue::Text("[UNK]".to_string()))]);
    assert_eq!(
        PyBpeTrainer::new(Some(&mut kwargs)).err(),
        Some(mismatch("special_tokens", ExpectedType::List))
    );
}

#[test]
fn initial_alphabet_keeps_first_characters() {
    let mut kwargs = options(vec![("initial_alphabet", texts(&["ab", "", "c"]))]);
    let (_, trainer, _) = PyBpeTrainer::new(Some(&mut kwargs)).unwrap();
    let set: HashSet<char> = bpe(&trainer).initial_alphabet.iter().copied().collect();
    assert_eq!(set, HashSet::from(['a', 'c']));
    assert_eq!(bpe(&trainer).initial_alphabet.len(), 2);

    let (_, trainer, _) = PyWordPieceTrainer::new(Some(&mut kwargs)).unwrap();
    let set: HashSet<char> = word_piece(&trainer).initial_alphabet.iter().copied().collect();
    assert_eq!(set, HashSet::from(['a', 'c']));
}

#[test]
fn initial_alphabet_holds_no_character_twice() {
    let mut kwargs = options(vec![("initial_alphabet", texts(&["b", "abc", "bcd", "a", "\u{2581}x", ""]))]);
    let (_, trainer, _) = PyBpeTrainer::new(Some(&mut kwargs)).unwrap();
    let alphabet = &bpe(&trainer).initial_alphabet;
    assert_eq!(alphabet.len(), 3);
    let set: HashSet<char> = alphabet.iter().copied().collect();
    assert_eq!(set, HashSet::from(['a', 'b', '\u{2581}']));

    let mut kwargs = options(vec![("initial_alphabet", texts(&[]))]);
    let (_, trainer, _) = PyBpeTrainer::new(Some(&mut kwargs)).unwrap();
    assert!(bpe(&trainer).initial_alphabet.is_empty());
}

#[test]
fn initial_alphabet_must_be_a_list_of_strings() {
    let expected = mismatch("initial_alphabet", ExpectedType::TextList);
    let mut kwargs = options(vec![(
        "initial_alphabet",
        OptionValue::List(vec![ListItem::Text("a".to_string()), ListItem::Token(special("b"))]),
    )]);
    assert_eq!(PyBpeTrainer::new(Some(&mut kwargs)).err(), Some(expected.clone()));
    let mut kwargs = options(vec![("initial_alphabet", OptionValue::Text("abc".to_string()))]);
    assert_eq!(PyWordPieceTrainer::new(Some(&mut kwargs)).err(), Some(expected.clone()));
    assert_eq!(
        expected.message(),
        "option `initial_alphabet` must be a list of strings"
    );
}

#[test]
fn bpe_trainer_end_to_end() {
    let mut kwargs = options(vec![
        ("vocab_size", OptionValue::Integer(5000)),
        ("min_frequency", OptionValue::Integer(2)),
        ("special_tokens", texts(&["<s>", "</s>"])),
    ]);
    let (_, trainer, notices) = PyBpeTrainer::new(Some(&mut kwargs)).unwrap();
    let config = bpe(&trainer);
    assert_eq!(config.vocab_size, 5000);
    assert_eq!(config.min_frequency, 2);
    assert_eq!(config.special_tokens, vec![special("<s>"), special("</s>")]);
    assert!(notices.is_empty());
    assert_eq!(
        config,
        &BpeTrainerConfig {
            min_frequency: 2,
            vocab_size: 5000,
            show_progress: true,
            special_tokens: vec![special("<s>"), special("</s>")],
            limit_alphabet: None,
            initial_alphabet: vec![],
            continuing_subword_prefix: None,
            end_of_word_suffix: None,
        }
    );
}

#[test]
fn every_bpe_option_sets_its_field() {
    let mut kwargs = options(vec![
        ("vocab_size", OptionValue::Integer(7)),
        ("min_frequency", OptionValue::Integer(4294967295)),
        ("show_progress", OptionValue::Boolean(false)),
        ("special_tokens", texts(&["<pad>"])),
        ("limit_alphabet", OptionValue::Integer(0)),
        ("initial_alphabet", texts(&["z"])),
        ("continuing_subword_prefix", OptionValue::Text("@@".to_string())),
        ("end_of_word_suffix", OptionValue::Text("</w>".to_string())),
    ]);
    let expected = BpeTrainerConfig {
        min_frequency: u32::MAX,
        vocab_size: 7,
        show_progress: false,
        special_tokens: vec![special("<pad>")],
        limit_alphabet: Some(0),
        initial_alphabet: vec!['z'],
        continuing_subword_prefix: Some("@@".to_string()),
        end_of_word_suffix: Some("</w>".to_string()),
    };
    let (_, trainer, notices) = PyBpeTrainer::new(Some(&mut kwargs)).unwrap();
    assert_eq!(bpe(&trainer), &expected);
    assert!(notices.is_empty());
    let (_, trainer, _) = PyWordPieceTrainer::new(Some(&mut kwargs)).unwrap();
    assert_eq!(word_piece(&trainer), &expected);
}

#[test]
fn every_unigram_option_sets_its_field() {
    let mut kwargs = options(vec![
        ("vocab_size", OptionValue::Integer(12)),
        ("show_progress", OptionValue::Boolean(false)),
        ("n_sub_iterations", OptionValue::Integer(5)),
        ("shrinking_factor", OptionValue::Float { bits: 0.5f64.to_bits() }),
        ("unk_token", OptionValue::Text("<unk>".to_string())),
        ("max_piece_length", OptionValue::Integer(8)),
        ("seed_size", OptionValue::Integer(1234)),
        ("special_tokens", texts(&["<unk>"])),
    ]);
    let (config, notices) = PyUnigramTrainer::configure(Some(&mut kwargs)).unwrap();
    assert_eq!(
        config,
        UnigramTrainerConfig {
            show_progress: false,
            vocab_size: 12,
            n_sub_iterations: 5,
            shrinking_factor: 0.5f64.to_bits(),
            special_tokens: vec![special("<unk>")],
            unk_token: Some("<unk>".to_string()),
            max_piece_length: 8,
            seed_size: 1234,
        }
    );
    assert!(notices.is_empty());
}

#[test]
fn a_later_value_replaces_an_earlier_one() {
    let mut kwargs = options(vec![
        ("vocab_size", OptionValue::Integer(1)),
        ("vocab_size", OptionValue::Integer(2)),
    ]);
    let (_, trainer, _) = PyBpeTrainer::new(Some(&mut kwargs)).unwrap();
    assert_eq!(bpe(&trainer).vocab_size, 2);
}

#[test]
fn a_value_of_the_wrong_type_fails_the_build() {
    let cases: Vec<(&str, OptionValue, ExpectedType)> = vec![
        ("vocab_size", OptionValue::Text("5000".to_string()), ExpectedType::UnsignedSize),
        ("vocab_size", OptionValue::Boolean(true), ExpectedType::UnsignedSize),
        ("vocab_size", OptionValue::Integer(-1), ExpectedType::UnsignedSize),
        ("vocab_size", OptionValue::Float { bits: 2.0f64.to_bits() }, ExpectedType::UnsignedSize),
        ("min_frequency", OptionValue::Integer(4294967296), ExpectedType::Unsigned32),
        ("min_frequency", OptionValue::Integer(-1), ExpectedType::Unsigned32),
        ("show_progress", OptionValue::Integer(1), ExpectedType::Boolean),
        ("limit_alphabet", OptionValue::Character('9'), ExpectedType::UnsignedSize),
        ("continuing_subword_prefix", OptionValue::Character('#'), ExpectedType::Text),
        ("end_of_word_suffix", OptionValue::List(vec![]), ExpectedType::Text),
        ("show_progress", OptionValue::Other, ExpectedType::Boolean),
        ("special_tokens", OptionValue::Other, ExpectedType::List),
    ];
    for (name, value, expected) in cases {
        let mut kwargs = options(vec![(name, value)]);
        assert_eq!(PyBpeTrainer::new(Some(&mut kwargs)).err(), Some(mismatch(name, expected)));
        assert_eq!(PyWordPieceTrainer::new(Some(&mut kwargs)).err(), Some(mismatch(name, expected)));
    }
    let mut kwargs = options(vec![("shrinking_factor", OptionValue::Integer(1))]);
    assert_eq!(
        PyUnigramTrainer::configure(Some(&mut kwargs)).err(),
        Some(mismatch("shrinking_factor", ExpectedType::Float))
    );
    let mut kwargs = options(vec![("vocab_size", OptionValue::Integer(4294967296))]);
    assert_eq!(
        PyUnigramTrainer::configure(Some(&mut kwargs)).err(),
        Some(mismatch("vocab_size", ExpectedType::Unsigned32))
    );
    let mut kwargs = options(vec![("unk_token", OptionValue::Boolean(false))]);
    assert_eq!(
        PyUnigramTrainer::configure(Some(&mut kwargs)).err(),
        Some(mismatch("unk_token", ExpectedType::Text))
    );
    assert_eq!(
        mismatch("vocab_size", ExpectedType::UnsignedSize).message(),
        "option `vocab_size` must be an unsigned integer"
    );
    assert_eq!(
        mismatch("show_progress", ExpectedType::Boolean).message(),
        "option `show_progress` must be a boolean"
    );
}

#[test]
fn the_first_failing_option_decides() {
    let mut kwargs = options(vec![
        ("mystery", OptionValue::Integer(1)),
        ("show_progress", OptionValue::Text("yes".to_string())),
        ("vocab_size", OptionValue::Text("many".to_string())),
    ]);
    assert_eq!(
        PyWordLevelTrainer::new(Some(&mut kwargs)).err(),
        Some(mismatch("show_progress", ExpectedType::Boolean))
    );
}

#[test]
fn unigram_trainer_is_finished_by_its_validation() {
    let (config, _) = PyUnigramTrainer::configure(None).unwrap();
    let (_, trainer) = PyUnigramTrainer::new(config.clone(), Ok(())).unwrap();
    assert_eq!(unigram(&trainer), &config);

    let failed = PyUnigramTrainer::new(config, Err("`vocab_size` must be initialized".to_string()));
    let error = failed.err().unwrap();
    assert_eq!(
        error,
        ConfigurationError::BuildValidationFailure {
            cause: "`vocab_size` must be initialized".to_string()
        }
    );
    assert_eq!(
        error.message(),
        "cannot build trainer: `vocab_size` must be initialized"
    );
}

#[test]
fn unigram_trainer_passes_the_validation_of_the_engine() {
    let mut kwargs = options(vec![
        ("vocab_size", OptionValue::Integer(100)),
        ("shrinking_factor", OptionValue::Float { bits: 0.5f64.to_bits() }),
    ]);
    let (config, _) = PyUnigramTrainer::configure(Some(&mut kwargs)).unwrap();
    let built = UnigramTrainer::builder()
        .show_progress(config.show_progress)
        .vocab_size(config.vocab_size)
        .n_sub_iterations(config.n_sub_iterations)
        .shrinking_factor(f64::from_bits(config.shrinking_factor))
        .max_piece_length(config.max_piece_length)
        .build();
    let validation = match &built {
        Ok(_) => Ok(()),
        Err(e) => Err(e.to_string()),
    };
    let (_, trainer) = PyUnigramTrainer::new(config, validation).unwrap();
    let theirs = built.unwrap();
    assert_eq!(unigram(&trainer).vocab_size, theirs.vocab_size);
    assert_eq!(f64::from_bits(unigram(&trainer).shrinking_factor), theirs.shrinking_factor);
}

#[test]
fn subtype_follows_the_configuration() {
    let (_, trainer, _) = PyBpeTrainer::new(None).unwrap();
    match trainer.get_as_subtype() {
        TrainerSubtype::Bpe(_, base) => assert!(Arc::ptr_eq(&base.trainer, &trainer.trainer)),
        other => panic!("unexpected subtype {:?}", other),
    }
    let (_, trainer, _) = PyWordPieceTrainer::new(None).unwrap();
    match trainer.get_as_subtype() {
        TrainerSubtype::WordPiece(_, base) => assert!(Arc::ptr_eq(&base.trainer, &trainer.trainer)),
        other => panic!("unexpected subtype {:?}", other),
    }
    let (_, trainer, _) = PyWordLevelTrainer::new(None).unwrap();
    match trainer.get_as_subtype() {
        TrainerSubtype::WordLevel(_, base) => assert!(Arc::ptr_eq(&base.trainer, &trainer.trainer)),
        other => panic!("unexpected subtype {:?}", other),
    }
    let (config, _) = PyUnigramTrainer::configure(None).unwrap();
    let (_, trainer) = PyUnigramTrainer::new(config, Ok(())).unwrap();
    match trainer.get_as_subtype() {
        TrainerSubtype::Unigram(_, base) => assert!(Arc::ptr_eq(&base.trainer, &trainer.trainer)),
        other => panic!("unexpected subtype {:?}", other),
    }
}

#[test]
fn progress_reflects_the_option() {
    let (_, trainer, _) = PyBpeTrainer::new(None).unwrap();
    assert!(trainer.should_show_progress());
    let mut kwargs = options(vec![("show_progress", OptionValue::Boolean(false))]);
    let (_, trainer, _) = PyBpeTrainer::new(Some(&mut kwargs)).unwrap();
    assert!(!trainer.should_show_progress());
    let (_, trainer, _) = PyWordPieceTrainer::new(Some(&mut kwargs)).unwrap();
    assert!(!trainer.should_show_progress());
    let (_, trainer, _) = PyWordLevelTrainer::new(Some(&mut kwargs)).unwrap();
    assert!(!trainer.should_show_progress());
    let (config, _) = PyUnigramTrainer::configure(Some(&mut kwargs)).unwrap();
    let (_, trainer) = PyUnigramTrainer::new(config, Ok(())).unwrap();
    assert!(!trainer.should_show_progress());
}

#[test]
fn trainer_from_a_configuration_shares_it() {
    let config = TrainerConfiguration::WordLevel(WordLevelTrainerConfig {
        min_frequency: 1,
        vocab_size: 2,
        show_progress: false,
        special_tokens: vec![],
    });
    let trainer = PyTrainer::from(config.clone());
    assert_eq!(trainer.trainer.as_ref(), &config);
    let shared = Arc::new(config);
    let other = PyTrainer::new(shared.clone());
    assert!(Arc::ptr_eq(&other.trainer, &shared));
    assert!(!other.should_show_progress());
}

#[test]
fn added_token_constructors() {
    let plain = AddedToken::from("[CLS]".to_string(), false);
    assert_eq!(plain, AddedToken { content: "[CLS]".to_string(), is_special_token: false });
    assert_eq!(plain.as_special(), special("[CLS]"));
    assert!(!plain.is_special_token);
}

#[test]
fn expected_types_have_names() {
    assert_eq!(ExpectedType::Boolean.name(), "a boolean");
    assert_eq!(ExpectedType::UnsignedSize.name(), "an unsigned integer");
    assert_eq!(ExpectedType::Unsigned32.name(), "an unsigned 32-bit integer");
    assert_eq!(ExpectedType::Float.name(), "a float");
    assert_eq!(ExpectedType::Text.name(), "a string");
    assert_eq!(ExpectedType::List.name(), "a list");
    assert_eq!(ExpectedType::TextList.name(), "a list of strings");
    assert_eq!(
        mismatch("shrinking_factor", ExpectedType::Float).message(),
        "option `shrinking_factor` must be a float"
    );
}

#[test]
fn option_set_keeps_the_order_of_insertion() {
    let set = options(vec![
        ("b", OptionValue::Integer(1)),
        ("a", OptionValue::Boolean(true)),
    ]);
    assert_eq!(set.entries.len(), 2);
    assert_eq!(set.entries[0].name, "b");
    assert_eq!(set.entries[0].value, OptionValue::Integer(1));
    assert_eq!(set.entries[1].name, "a");
    assert!(OptionSet::new().entries.is_empty());
}

fn plain(content: &str) -> ListItem {
    ListItem::Token(AddedToken { content: content.to_string(), is_special_token: false })
}

fn marked(content: &str) -> ListItem {
    ListItem::Token(special(content))
}

#[test]
fn special_tokens_of_the_caller_are_marked() {
    let given = vec![
        (
            "special_tokens",
            OptionValue::List(vec![ListItem::Text("[UNK]".to_string()), plain("[SEP]")]),
        ),
        ("vocab_size", OptionValue::Integer(10)),
    ];
    let expected = options(vec![
        (
            "special_tokens",
            OptionValue::List(vec![ListItem::Text("[UNK]".to_string()), marked("[SEP]")]),
        ),
        ("vocab_size", OptionValue::Integer(10)),
    ]);
    let mut kwargs = options(given.clone());
    PyBpeTrainer::new(Some(&mut kwargs)).unwrap();
    assert_eq!(kwargs, expected);
    let mut kwargs = options(given.clone());
    PyWordPieceTrainer::new(Some(&mut kwargs)).unwrap();
    assert_eq!(kwargs, expected);
    let mut kwargs = options(given.clone());
    PyWordLevelTrainer::new(Some(&mut kwargs)).unwrap();
    assert_eq!(kwargs, expected);
    let mut kwargs = options(given);
    PyUnigramTrainer::configure(Some(&mut kwargs)).unwrap();
    assert_eq!(kwargs, expected);
}

#[test]
fn marking_stops_where_the_reading_stops() {
    let mut kwargs = options(vec![
        ("special_tokens", OptionValue::List(vec![plain("a"), ListItem::Other, plain("b")])),
        ("special_tokens", OptionValue::List(vec![plain("c")])),
    ]);
    assert!(PyBpeTrainer::new(Some(&mut kwargs)).is_err());
    assert_eq!(
        kwargs,
        options(vec![
            ("special_tokens", OptionValue::List(vec![marked("a"), ListItem::Other, plain("b")])),
            ("special_tokens", OptionValue::List(vec![plain("c")])),
        ])
    );

    let mut kwargs = options(vec![
        ("special_tokens", OptionValue::List(vec![plain("a")])),
        ("show_progress", OptionValue::Integer(0)),
        ("special_tokens", OptionValue::List(vec![plain("b")])),
    ]);
    assert!(PyWordLevelTrainer::new(Some(&mut kwargs)).is_err());
    assert_eq!(
        kwargs,
        options(vec![
            ("special_tokens", OptionValue::List(vec![marked("a")])),
            ("show_progress", OptionValue::Integer(0)),
            ("special_tokens", OptionValue::List(vec![plain("b")])),
        ])
    );
}

#[test]
fn only_special_tokens_are_marked() {
    let given = vec![
        ("other_tokens", OptionValue::List(vec![plain("a")])),
        ("special_tokens", OptionValue::Text("b".to_string())),
        ("vocab_size", OptionValue::Integer(3)),
    ];
    let mut kwargs = options(vec![given[0].clone(), given[2].clone()]);
    let (_, _, notices) = PyBpeTrainer::new(Some(&mut kwargs)).unwrap();
    assert_eq!(kwargs, options(vec![given[0].clone(), given[2].clone()]));
    assert_eq!(names(&notices), vec!["other_tokens".to_string()]);

    let mut kwargs = options(given.clone());
    assert!(PyUnigramTrainer::configure(Some(&mut kwargs)).is_err());
    assert_eq!(kwargs, options(given));
}
