use std::sync::Arc;

use tokenizer_components::pre_tokenizers::document::split_elements;
use tokenizer_components::pre_tokenizers::{
    alphabet_strings, bert_pre_tokenizer, byte_level, byte_level_alphabet, char_delimiter_split,
    metaspace, punctuation, sequence, whitespace, whitespace_split, JsPreTokenizerWrapper,
    PreTokenizer,
};
use tokenizer_components::ConfigurationError;
use tokenizers::pre_tokenizers::byte_level::ByteLevel;
use tokenizers::pre_tokenizers::delimiter::CharDelimiterSplit;
use tokenizers::pre_tokenizers::metaspace::Metaspace;
use tokenizers::pre_tokenizers::punctuation::Punctuation;
use tokenizers::pre_tokenizers::sequence::Sequence;
use tokenizers::pre_tokenizers::whitespace::{Whitespace, WhitespaceSplit};
use tokenizers::pre_tokenizers::PreTokenizerWrapper;
use tokenizers::{OffsetReferential, OffsetType, PreTokenizedString};

fn document(slot: &PreTokenizer) -> String {
    slot.serialize().unwrap()
}

fn bare<T: Into<PreTokenizerWrapper>>(strategy: T) -> String {
    serde_json::to_string(&strategy.into()).unwrap()
}

fn splits(text: &PreTokenizedString) -> Vec<(String, (usize, usize))> {
    text.get_splits(OffsetReferential::Original, OffsetType::Byte)
        .into_iter()
        .map(|(s, o, _)| (s.to_string(), o))
        .collect()
}

#[test]
fn serialize() {
    let js_wrapped: JsPreTokenizerWrapper =
        JsPreTokenizerWrapper::from(Whitespace::default().into());
    let js_ser = js_wrapped.serialize().unwrap();

    let rs_wrapped = PreTokenizerWrapper::Whitespace(Whitespace::default());
    let rs_ser = serde_json::to_string(&rs_wrapped).unwrap();
    assert_eq!(js_ser, rs_ser);

    let js_pretok: PreTokenizer = PreTokenizer::parse(&rs_ser).unwrap();
    match js_pretok.pretok.unwrap() {
        JsPreTokenizerWrapper::Wrapped(pretok) => match pretok.as_ref() {
            PreTokenizerWrapper::Whitespace(_) => {}
            _ => panic!("Expected Whitespace"),
        },
        _ => panic!("Expected wrapped, not sequence."),
    }

    let js_seq: JsPreTokenizerWrapper = JsPreTokenizerWrapper::from(
        Sequence::new(vec![WhitespaceSplit.into(), Whitespace::default().into()]).into(),
    );
    let js_wrapper_ser = js_seq.serialize().unwrap();
    let rs_wrapped = PreTokenizerWrapper::Sequence(Sequence::new(vec![
        WhitespaceSplit.into(),
        Whitespace::default().into(),
    ]));
    let rs_ser = serde_json::to_string(&rs_wrapped).unwrap();
    assert_eq!(js_wrapper_ser, rs_ser);

    let js_seq = PreTokenizer {
        pretok: Some(js_seq),
    };
    let js_ser = js_seq.serialize().unwrap();
    assert_eq!(js_wrapper_ser, js_ser);

    let rs_seq = Sequence::new(vec![WhitespaceSplit.into(), Whitespace::default().into()]);
    let rs_ser = serde_json::to_string(&rs_seq).unwrap();
    assert_eq!(js_wrapper_ser, rs_ser);
}

#[test]
fn single_strategy_has_its_bare_document() {
    assert_eq!(document(&whitespace()), "{\"type\":\"Whitespace\"}");
    assert_eq!(document(&whitespace()), bare(Whitespace::default()));
    assert_eq!(document(&whitespace_split()), "{\"type\":\"WhitespaceSplit\"}");
    assert_eq!(document(&whitespace_split()), bare(WhitespaceSplit));
    assert_eq!(document(&bert_pre_tokenizer()), "{\"type\":\"BertPreTokenizer\"}");
    assert_eq!(document(&punctuation()), bare(Punctuation::default()));
    assert_eq!(
        document(&char_delimiter_split('-')),
        "{\"type\":\"CharDelimiterSplit\",\"delimiter\":\"-\"}"
    );
    assert_eq!(document(&char_delimiter_split('-')), bare(CharDelimiterSplit::new('-')));
}

#[test]
fn byte_level_defaults_to_a_prefix_space() {
    assert_eq!(
        document(&byte_level(None)),
        "{\"type\":\"ByteLevel\",\"add_prefix_space\":true,\"trim_offsets\":true}"
    );
    assert_eq!(document(&byte_level(None)), bare(ByteLevel::default()));
    assert_eq!(document(&byte_level(Some(true))), document(&byte_level(None)));
    assert_eq!(
        document(&byte_level(Some(false))),
        "{\"type\":\"ByteLevel\",\"add_prefix_space\":false,\"trim_offsets\":true}"
    );
}

#[test]
fn metaspace_defaults() {
    let expected = "{\"type\":\"Metaspace\",\"replacement\":\"\u{2581}\",\"add_prefix_space\":true}";
    assert_eq!(document(&metaspace(None, None)), expected);
    assert_eq!(document(&metaspace(None, None)), bare(Metaspace::default()));
    assert_eq!(document(&metaspace(Some('\u{2581}'), Some(true))), expected);
    assert_eq!(
        document(&metaspace(Some('_'), Some(false))),
        "{\"type\":\"Metaspace\",\"replacement\":\"_\",\"add_prefix_space\":false}"
    );
    assert_eq!(
        document(&metaspace(Some('_'), None)),
        "{\"type\":\"Metaspace\",\"replacement\":\"_\",\"add_prefix_space\":true}"
    );
}

#[test]
fn punctuation_document_names_its_behavior() {
    assert_eq!(
        document(&punctuation()),
        "{\"type\":\"Punctuation\",\"behavior\":\"Isolated\"}"
    );
}

#[test]
fn sequence_document_has_two_fields() {
    let a = whitespace_split();
    let b = whitespace();
    let both = sequence(&[a.clone(), b.clone()]).unwrap();
    assert_eq!(
        document(&both),
        format!(
            "{{\"type\":\"Sequence\",\"pretokenizers\":[{},{}]}}",
            document(&a),
            document(&b)
        )
    );
    assert_eq!(
        document(&both),
        "{\"type\":\"Sequence\",\"pretokenizers\":[{\"type\":\"WhitespaceSplit\"},{\"type\":\"Whitespace\"}]}"
    );
}

#[test]
fn sequence_of_whitespace_and_punctuation() {
    let both = sequence(&[whitespace(), punctuation()]).unwrap();
    assert_eq!(
        document(&both),
        format!(
            "{{\"type\":\"Sequence\",\"pretokenizers\":[{{\"type\":\"Whitespace\"}},{}]}}",
            bare(Punctuation::default())
        )
    );
    let engine = Sequence::new(vec![Whitespace::default().into(), Punctuation::default().into()]);
    assert_eq!(document(&both), serde_json::to_string(&engine).unwrap());
}

#[test]
fn empty_sequence_document() {
    let none = sequence(&[]).unwrap();
    assert_eq!(document(&none), "{\"type\":\"Sequence\",\"pretokenizers\":[]}");
    match none.pretok.unwrap() {
        JsPreTokenizerWrapper::Sequence(units) => assert!(units.is_empty()),
        _ => panic!("expected a sequence"),
    }
}

#[test]
fn one_element_sequence_document() {
    let one = sequence(&[bert_pre_tokenizer()]).unwrap();
    assert_eq!(
        document(&one),
        "{\"type\":\"Sequence\",\"pretokenizers\":[{\"type\":\"BertPreTokenizer\"}]}"
    );
}

#[test]
fn composition_flattens_nested_sequences() {
    let a = whitespace_split();
    let b = punctuation();
    let c = metaspace(None, None);
    let inner = sequence(&[a.clone(), b.clone()]).unwrap();
    let nested = sequence(&[inner.clone(), c.clone()]).unwrap();
    let flat = sequence(&[a.clone(), b.clone(), c.clone()]).unwrap();
    assert_eq!(document(&nested), document(&flat));
    match nested.pretok.clone().unwrap() {
        JsPreTokenizerWrapper::Sequence(units) => assert_eq!(units.len(), 3),
        _ => panic!("expected a sequence"),
    }

    let again = sequence(&[flat.clone()]).unwrap();
    assert_eq!(document(&again), document(&flat));
    let deeper = sequence(&[sequence(&[sequence(&[a, b]).unwrap()]).unwrap(), c]).unwrap();
    assert_eq!(document(&deeper), document(&flat));
}

#[test]
fn composition_keeps_the_order_of_its_inputs() {
    let a = whitespace();
    let b = bert_pre_tokenizer();
    let c = char_delimiter_split('|');
    let orders: Vec<Vec<&PreTokenizer>> = vec![
        vec![&a, &b, &c],
        vec![&a, &c, &b],
        vec![&b, &a, &c],
        vec![&b, &c, &a],
        vec![&c, &a, &b],
        vec![&c, &b, &a],
    ];
    for order in orders {
        let inputs: Vec<PreTokenizer> = order.iter().map(|slot| (*slot).clone()).collect();
        let composed = sequence(&inputs).unwrap();
        let expected: Vec<String> = inputs.iter().map(document).collect();
        assert_eq!(
            document(&composed),
            format!("{{\"type\":\"Sequence\",\"pretokenizers\":[{}]}}", expected.join(","))
        );
    }
}

#[test]
fn composition_shares_the_strategies() {
    let a = whitespace();
    let composed = sequence(&[a.clone(), a.clone()]).unwrap();
    let first = match a.pretok.unwrap() {
        JsPreTokenizerWrapper::Wrapped(unit) => unit,
        _ => panic!("expected a single strategy"),
    };
    match composed.pretok.unwrap() {
        JsPreTokenizerWrapper::Sequence(units) => {
            assert_eq!(units.len(), 2);
            assert!(Arc::ptr_eq(&units[0], &first));
            assert!(Arc::ptr_eq(&units[1], &first));
        }
        _ => panic!("expected a sequence"),
    }
}

#[test]
fn uninitialized_slot_fails_every_operation() {
    let empty = PreTokenizer::uninitialized();
    assert_eq!(
        empty.serialize(),
        Err(ConfigurationError::UninitializedConfiguration)
    );
    let mut text = PreTokenizedString::from("Hey friend!");
    let before = text.clone();
    assert_eq!(
        empty.pre_tokenize(&mut text),
        Err(ConfigurationError::UninitializedConfiguration)
    );
    assert_eq!(text, before);
    match sequence(&[whitespace(), empty.clone()]) {
        Err(ConfigurationError::UninitializedConfiguration) => {}
        _ => panic!("expected the composition to fail"),
    }
    match sequence(&[empty, whitespace()]) {
        Err(ConfigurationError::UninitializedConfiguration) => {}
        _ => panic!("expected the composition to fail"),
    }
    assert_eq!(
        ConfigurationError::UninitializedConfiguration.message(),
        "uninitialized pre-tokenizer"
    );
}

#[test]
fn parsing_a_single_strategy_round_trips() {
    let all = vec![
        byte_level(None),
        byte_level(Some(false)),
        whitespace(),
        whitespace_split(),
        bert_pre_tokenizer(),
        metaspace(None, None),
        metaspace(Some('"'), Some(false)),
        metaspace(Some('\\'), Some(false)),
        metaspace(Some('\n'), Some(true)),
        punctuation(),
        char_delimiter_split(','),
        char_delimiter_split(']'),
        char_delimiter_split('\u{1}'),
    ];
    for slot in all {
        let written = document(&slot);
        let read = PreTokenizer::parse(&written).unwrap();
        match read.pretok {
            Some(JsPreTokenizerWrapper::Wrapped(_)) => {}
            _ => panic!("expected a single strategy for {}", written),
        }
        assert_eq!(document(&read), written);
    }
}

#[test]
fn parsing_a_sequence_round_trips() {
    let composed = sequence(&[
        metaspace(Some(','), None),
        char_delimiter_split('"'),
        char_delimiter_split('\\'),
        whitespace(),
        char_delimiter_split('}'),
    ])
    .unwrap();
    let written = document(&composed);
    let read = PreTokenizer::parse(&written).unwrap();
    match &read.pretok {
        Some(JsPreTokenizerWrapper::Sequence(units)) => assert_eq!(units.len(), 5),
        _ => panic!("expected a sequence"),
    }
    assert_eq!(document(&read), written);

    let none = PreTokenizer::parse("{\"type\":\"Sequence\",\"pretokenizers\":[]}").unwrap();
    match &none.pretok {
        Some(JsPreTokenizerWrapper::Sequence(units)) => assert!(units.is_empty()),
        _ => panic!("expected a sequence"),
    }
}

#[test]
fn parsing_refuses_a_sequence_within_a_sequence() {
    let inner = "{\"type\":\"Sequence\",\"pretokenizers\":[{\"type\":\"Whitespace\"},{\"type\":\"WhitespaceSplit\"}]}";
    let outer = format!(
        "{{\"type\":\"Sequence\",\"pretokenizers\":[{},{{\"type\":\"BertPreTokenizer\"}}]}}",
        inner
    );
    let engine: PreTokenizerWrapper = serde_json::from_str(&outer).unwrap();
    match engine {
        PreTokenizerWrapper::Sequence(_) => {}
        _ => panic!("expected the engine to read a sequence"),
    }
    match PreTokenizer::parse(&outer) {
        Err(ConfigurationError::InvalidDocument) => {}
        _ => panic!("expected the nested document to be refused"),
    }
}

#[test]
fn parsing_reads_a_sequence_whatever_its_spacing_and_order() {
    let compact = "{\"type\":\"Sequence\",\"pretokenizers\":[{\"type\":\"Whitespace\"},{\"type\":\"BertPreTokenizer\"}]}";
    let others = [
        "{ \"type\": \"Sequence\", \"pretokenizers\": [ {\"type\": \"Whitespace\"}, {\"type\": \"BertPreTokenizer\"} ] }",
        "{\"pretokenizers\":[{\"type\":\"Whitespace\"},{\"type\":\"BertPreTokenizer\"}],\"type\":\"Sequence\"}",
        "{\"type\":\"Sequence\",\"pretokenizers\":[ {\"type\":\"Whitespace\"} , {\"type\":\"BertPreTokenizer\"} ]}",
    ];
    for text in others {
        let read = PreTokenizer::parse(text).unwrap();
        match &read.pretok {
            Some(JsPreTokenizerWrapper::Sequence(units)) => {
                assert_eq!(units.len(), 2);
                match units[0].as_ref() {
                    PreTokenizerWrapper::Whitespace(_) => {}
                    _ => panic!("expected Whitespace first"),
                }
                match units[1].as_ref() {
                    PreTokenizerWrapper::BertPreTokenizer(_) => {}
                    _ => panic!("expected BertPreTokenizer second"),
                }
            }
            _ => panic!("expected a sequence for {}", text),
        }
        assert_eq!(document(&read), compact);
        let composed = sequence(&[read, whitespace_split()]).unwrap();
        match &composed.pretok {
            Some(JsPreTokenizerWrapper::Sequence(units)) => assert_eq!(units.len(), 3),
            _ => panic!("expected a sequence"),
        }
    }
}

#[test]
fn a_sequence_of_the_engine_becomes_a_flat_sequence() {
    let engine = Sequence::new(vec![WhitespaceSplit.into(), Punctuation::default().into()]);
    let ours = JsPreTokenizerWrapper::from(engine.clone().into());
    match &ours {
        JsPreTokenizerWrapper::Sequence(units) => assert_eq!(units.len(), 2),
        _ => panic!("expected a sequence"),
    }
    assert_eq!(ours.serialize().unwrap(), serde_json::to_string(&engine).unwrap());
    let mut text = PreTokenizedString::from("Hey friend!");
    let mut theirs = text.clone();
    ours.pre_tokenize(&mut text).unwrap();
    tokenizers::PreTokenizer::pre_tokenize(&engine, &mut theirs).unwrap();
    assert_eq!(text, theirs);

    let nested = Sequence::new(vec![engine.into(), Whitespace::default().into()]);
    match JsPreTokenizerWrapper::from(nested.into()) {
        JsPreTokenizerWrapper::Wrapped(_) => {}
        _ => panic!("expected the nested sequence to stand alone"),
    }
}

fn split_at_pattern() -> PreTokenizerWrapper {
    serde_json::from_str(
        "{\"type\":\"Split\",\"pattern\":{\"Regex\":\"(a+)+b\"},\"behavior\":\"Removed\",\"invert\":false}",
    )
    .unwrap()
}

#[test]
fn a_split_at_a_chosen_pattern_is_not_run() {
    let unit = split_at_pattern();
    let written = serde_json::to_string(&unit).unwrap();
    let read = PreTokenizer::parse(&written).unwrap();
    match &read.pretok {
        Some(JsPreTokenizerWrapper::Wrapped(held)) => match held.as_ref() {
            PreTokenizerWrapper::Split(_) => {}
            _ => panic!("expected a split"),
        },
        _ => panic!("expected a single strategy"),
    }
    assert_eq!(document(&read), written);

    let mut text = PreTokenizedString::from("aaaaaaaaaaaaaaaaaaaaaaaaaaaaaaaaaaaaaaaaaaaaaaaaaaaaaaaac");
    let before = text.clone();
    assert_eq!(
        read.pre_tokenize(&mut text),
        Err(ConfigurationError::UnsupportedStrategy)
    );
    assert_eq!(text, before);
    assert_eq!(
        ConfigurationError::UnsupportedStrategy.message(),
        "unsupported pre-tokenization strategy"
    );
}

#[test]
fn a_run_stops_at_a_strategy_that_is_not_run() {
    let split = PreTokenizer::filled(JsPreTokenizerWrapper::from(split_at_pattern()));
    let composed = sequence(&[whitespace_split(), split, punctuation()]).unwrap();
    let mut text = PreTokenizedString::from("Hey friend!");
    let mut expected = text.clone();
    whitespace_split().pre_tokenize(&mut expected).unwrap();
    assert_eq!(
        composed.pre_tokenize(&mut text),
        Err(ConfigurationError::UnsupportedStrategy)
    );
    assert_eq!(text, expected);
}

#[test]
fn a_sequence_of_the_engine_held_as_one_strategy_is_not_run() {
    let engine: PreTokenizerWrapper =
        Sequence::new(vec![WhitespaceSplit.into(), Whitespace::default().into()]).into();
    let held = JsPreTokenizerWrapper::Wrapped(Arc::new(engine));
    let mut text = PreTokenizedString::from("Hey friend!");
    let before = text.clone();
    assert_eq!(
        held.pre_tokenize(&mut text),
        Err(ConfigurationError::UnsupportedStrategy)
    );
    assert_eq!(text, before);
}

#[test]
fn parsing_refuses_what_is_no_document() {
    for text in ["", "{}", "[]", "{\"type\":\"Nothing\"}", "{\"type\":\"Sequence\",\"pretokenizers\":[{}]}", "not json"] {
        match PreTokenizer::parse(text) {
            Err(ConfigurationError::InvalidDocument) => {}
            _ => panic!("expected {:?} to be refused", text),
        }
    }
    assert_eq!(
        ConfigurationError::InvalidDocument.message(),
        "invalid pre-tokenizer document"
    );
}

#[test]
fn single_strategy_runs_as_the_engine_runs_it() {
    let mut ours = PreTokenizedString::from("Hey friend!     How are you?!?");
    let mut theirs = ours.clone();
    punctuation().pre_tokenize(&mut ours).unwrap();
    tokenizers::PreTokenizer::pre_tokenize(&Punctuation::default(), &mut theirs).unwrap();
    assert_eq!(ours, theirs);
    assert_eq!(
        splits(&ours),
        vec![
            ("Hey friend".to_string(), (0, 10)),
            ("!".to_string(), (10, 11)),
            ("     How are you".to_string(), (11, 27)),
            ("?".to_string(), (27, 28)),
            ("!".to_string(), (28, 29)),
            ("?".to_string(), (29, 30)),
        ]
    );
}

#[test]
fn sequence_runs_its_strategies_in_order() {
    let composed = sequence(&[whitespace_split(), punctuation()]).unwrap();
    let mut text = PreTokenizedString::from("Hey friend!     How are you?!?");
    composed.pre_tokenize(&mut text).unwrap();
    assert_eq!(
        splits(&text),
        vec![
            ("Hey".to_string(), (0, 3)),
            ("friend".to_string(), (4, 10)),
            ("!".to_string(), (10, 11)),
            ("How".to_string(), (16, 19)),
            ("are".to_string(), (20, 23)),
            ("you".to_string(), (24, 27)),
            ("?".to_string(), (27, 28)),
            ("!".to_string(), (28, 29)),
            ("?".to_string(), (29, 30)),
        ]
    );

    let mut stepwise = PreTokenizedString::from("Hey friend!     How are you?!?");
    whitespace_split().pre_tokenize(&mut stepwise).unwrap();
    punctuation().pre_tokenize(&mut stepwise).unwrap();
    assert_eq!(text, stepwise);

    let mut untouched = PreTokenizedString::from("Hey friend!");
    let before = untouched.clone();
    sequence(&[]).unwrap().pre_tokenize(&mut untouched).unwrap();
    assert_eq!(untouched, before);
}

#[test]
fn order_of_a_sequence_matters_when_it_runs() {
    let mut one = PreTokenizedString::from("a-b c");
    sequence(&[char_delimiter_split('-'), metaspace(None, None)])
        .unwrap()
        .pre_tokenize(&mut one)
        .unwrap();
    let mut other = PreTokenizedString::from("a-b c");
    sequence(&[metaspace(None, None), char_delimiter_split('-')])
        .unwrap()
        .pre_tokenize(&mut other)
        .unwrap();
    assert_ne!(splits(&one), splits(&other));
}

#[test]
fn byte_level_alphabet_is_256_single_characters() {
    let alphabet = byte_level_alphabet();
    assert_eq!(alphabet.len(), 256);
    for entry in &alphabet {
        assert_eq!(entry.chars().count(), 1);
    }
    let mut sorted = alphabet.clone();
    sorted.sort();
    sorted.dedup();
    assert_eq!(sorted.len(), 256);
    let mut expected: Vec<String> = ByteLevel::alphabet().into_iter().map(|c| c.to_string()).collect();
    expected.sort();
    assert_eq!(sorted, expected);
    let mut stated: Vec<String> = (33u32..=126)
        .chain(161..=172)
        .chain(174..=323)
        .map(|code| char::from_u32(code).unwrap().to_string())
        .collect();
    stated.sort();
    assert_eq!(sorted, stated);
}

#[test]
fn alphabet_strings_hold_one_character_each() {
    assert_eq!(
        alphabet_strings(&vec!['a', '\u{2581}', '!']),
        vec!["a".to_string(), "\u{2581}".to_string(), "!".to_string()]
    );
    assert!(alphabet_strings(&vec![]).is_empty());
}

fn parted(text: &str) -> Vec<String> {
    let chars: Vec<char> = text.chars().collect();
    split_elements(&chars)
}

#[test]
fn a_list_is_parted_at_its_outer_commas() {
    assert!(parted("").is_empty());
    assert_eq!(parted("a"), vec!["a"]);
    assert_eq!(parted("a,b"), vec!["a", "b"]);
    assert_eq!(parted(",") , vec!["", ""]);
    assert_eq!(parted("a,,b,"), vec!["a", "", "b", ""]);
    assert_eq!(parted("{\"a\":1,\"b\":2},[3,4],5"), vec!["{\"a\":1,\"b\":2}", "[3,4]", "5"]);
    assert_eq!(parted("\"a,b\",c"), vec!["\"a,b\"", "c"]);
    assert_eq!(parted("\"a\\\",b\",c"), vec!["\"a\\\",b\"", "c"]);
    assert_eq!(parted("\"a\\\\\",b"), vec!["\"a\\\\\"", "b"]);
    assert_eq!(parted("\"{\",x"), vec!["\"{\"", "x"]);
    assert_eq!(parted("},a"), vec!["}", "a"]);
    assert_eq!(parted("{\"k\":\"]\"},b"), vec!["{\"k\":\"]\"}", "b"]);
}

#[test]
fn a_filled_slot_holds_what_it_was_given() {
    let unit: PreTokenizerWrapper = WhitespaceSplit.into();
    let slot = PreTokenizer::filled(JsPreTokenizerWrapper::from(unit.clone()));
    match &slot.pretok {
        Some(JsPreTokenizerWrapper::Wrapped(held)) => assert_eq!(held.as_ref(), &unit),
        _ => panic!("expected a single strategy"),
    }
    assert!(PreTokenizer::uninitialized().pretok.is_none());
}

#[test]
fn a_failure_of_the_engine_keeps_its_message() {
    let error = ConfigurationError::DelegatedAlgorithmFailure { message: "engine says no".to_string() };
    assert_eq!(error.message(), "engine says no");
}
