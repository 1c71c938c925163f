//! Conversion of an option's value to the type of the field that it sets.
//! A value of another type is refused, never coerced.
use vstd::prelude::*;
use vstd::string::*;
use crate::error::{ConfigurationError, ErrorView, ExpectedType};
use crate::trainers::options::{AddedToken, ItemView, ListItem, OptionValue, TokenView, ValueView, token_views};
use crate::text::owned;

verus! {

/// The error for a value of `option` that does not have the type `expected`.
pub open spec fn mismatch(option: Seq<char>, expected: ExpectedType) -> ErrorView {
    ErrorView::InvalidOptionType { option, expected }
}

pub open spec fn spec_boolean(option: Seq<char>, value: ValueView) -> Result<bool, ErrorView> {
    match value {
        ValueView::Boolean(b) => Ok(b),
        _ => Err(mismatch(option, ExpectedType::Boolean)),
    }
}

pub open spec fn spec_size(option: Seq<char>, value: ValueView) -> Result<usize, ErrorView> {
    match value {
        ValueView::Integer(i) if 0 <= i <= usize::MAX => Ok(i as usize),
        _ => Err(mismatch(option, ExpectedType::UnsignedSize)),
    }
}

pub open spec fn spec_u32(option: Seq<char>, value: ValueView) -> Result<u32, ErrorView> {
    match value {
        ValueView::Integer(i) if 0 <= i <= u32::MAX => Ok(i as u32),
        _ => Err(mismatch(option, ExpectedType::Unsigned32)),
    }
}

pub open spec fn spec_float(option: Seq<char>, value: ValueView) -> Result<u64, ErrorView> {
    match value {
        ValueView::Float { bits } => Ok(bits),
        _ => Err(mismatch(option, ExpectedType::Float)),
    }
}

pub open spec fn spec_text(option: Seq<char>, value: ValueView) -> Result<Seq<char>, ErrorView> {
    match value {
        ValueView::Text(s) => Ok(s),
        _ => Err(mismatch(option, ExpectedType::Text)),
    }
}

/// The special token that a list element stands for: its text, marked special.
pub open spec fn special_token(item: ItemView) -> TokenView {
    match item {
        ItemView::Text(s) => TokenView { content: s, special: true },
        ItemView::Token(t) => TokenView { content: t.content, special: true },
        ItemView::Other => TokenView { content: Seq::empty(), special: true },
    }
}

/// The special tokens that a value stands for: one per element of the list,
/// in order, provided that every element is a string or a token.
pub open spec fn spec_special_tokens(option: Seq<char>, value: ValueView) -> Result<
    Seq<TokenView>,
    ErrorView,
> {
    match value {
        ValueView::List(items) => if forall|i: int| 0 <= i < items.len() ==> items[i] != ItemView::Other {
            Ok(items.map_values(|item: ItemView| special_token(item)))
        } else {
            Err(ErrorView::InvalidOptionValue { option })
        },
        _ => Err(mismatch(option, ExpectedType::List)),
    }
}

/// A list element after it was read as a special token: an added-token
/// record is marked special and keeps its content, any other element is as
/// it was.
pub open spec fn marked_item(item: ItemView) -> ItemView {
    match item {
        ItemView::Token(t) => ItemView::Token(TokenView { content: t.content, special: true }),
        _ => item,
    }
}

/// How many elements of a list are read as special tokens: those before
/// the first element of another shape, at which the reading stops.
pub open spec fn taken(items: Seq<ItemView>) -> int
    decreases items.len(),
{
    if items.len() == 0 {
        0
    } else {
        let before = taken(items.drop_last());
        if before < items.len() - 1 || items.last() is Other {
            before
        } else {
            before + 1
        }
    }
}

/// A list after it was read as special tokens: the elements that were read
/// are marked, the others are as they were.
pub open spec fn marked_items(items: Seq<ItemView>) -> Seq<ItemView> {
    Seq::new(
        items.len(),
        |i: int|
            if i < taken(items) {
                marked_item(items[i])
            } else {
                items[i]
            },
    )
}

/// A value after it was read as special tokens. A value that is no list is
/// as it was.
pub open spec fn marked_value(value: ValueView) -> ValueView {
    match value {
        ValueView::List(items) => ValueView::List(marked_items(items)),
        _ => value,
    }
}

/// No more elements are read than the list holds.
pub proof fn lemma_taken_in_range(items: Seq<ItemView>)
    ensures
        0 <= taken(items) <= items.len(),
    decreases items.len(),
{
    if items.len() > 0 {
        lemma_taken_in_range(items.drop_last());
    }
}

/// Whether a list element is a string.
pub open spec fn is_text(item: ItemView) -> bool {
    item is Text
}

/// Whether `c` is the first character of the string that `item` is.
pub open spec fn starts_with(item: ItemView, c: char) -> bool {
    item matches ItemView::Text(s) && s.len() > 0 && s[0] == c
}

/// The characters that a list of strings contributes to an alphabet: the
/// first character of each string that is not empty.
pub open spec fn first_characters(items: Seq<ItemView>) -> Set<char> {
    Set::new(|c: char| exists|i: int| 0 <= i < items.len() && starts_with(#[trigger] items[i], c))
}

/// The alphabet that a value stands for, provided that it is a list of strings.
pub open spec fn spec_alphabet(option: Seq<char>, value: ValueView) -> Result<Set<char>, ErrorView> {
    match value {
        ValueView::List(items) => if forall|i: int| 0 <= i < items.len() ==> is_text(#[trigger] items[i]) {
            Ok(first_characters(items))
        } else {
            Err(mismatch(option, ExpectedType::TextList))
        },
        _ => Err(mismatch(option, ExpectedType::TextList)),
    }
}

fn refuse<T>(option: &str, expected: ExpectedType) -> (r: Result<T, ConfigurationError>)
    ensures
        r matches Err(e) && e@ == mismatch(option@, expected),
{
    Err(ConfigurationError::InvalidOptionType { option: owned(option), expected })
}

pub fn boolean(option: &str, value: &OptionValue) -> (r: Result<bool, ConfigurationError>)
    ensures
        match spec_boolean(option@, value@) {
            Ok(b) => r == Ok::<bool, ConfigurationError>(b),
            Err(e) => r matches Err(x) && x@ == e,
        },
{
    match value {
        OptionValue::Boolean(b) => Ok(*b),
        _ => refuse(option, ExpectedType::Boolean),
    }
}

pub fn size(option: &str, value: &OptionValue) -> (r: Result<usize, ConfigurationError>)
    ensures
        match spec_size(option@, value@) {
            Ok(n) => r == Ok::<usize, ConfigurationError>(n),
            Err(e) => r matches Err(x) && x@ == e,
        },
{
    match value {
        OptionValue::Integer(i) => {
            if *i >= 0 && (*i as u64) <= (usize::MAX as u64) {
                Ok(*i as usize)
            } else {
                refuse(option, ExpectedType::UnsignedSize)
            }
        },
        _ => refuse(option, ExpectedType::UnsignedSize),
    }
}

pub fn unsigned32(option: &str, value: &OptionValue) -> (r: Result<u32, ConfigurationError>)
    ensures
        match spec_u32(option@, value@) {
            Ok(n) => r == Ok::<u32, ConfigurationError>(n),
            Err(e) => r matches Err(x) && x@ == e,
        },
{
    match value {
        OptionValue::Integer(i) => {
            if *i >= 0 && *i <= 0xffff_ffff {
                Ok(*i as u32)
            } else {
                refuse(option, ExpectedType::Unsigned32)
            }
        },
        _ => refuse(option, ExpectedType::Unsigned32),
    }
}

pub fn float(option: &str, value: &OptionValue) -> (r: Result<u64, ConfigurationError>)
    ensures
        match spec_float(option@, value@) {
            Ok(bits) => r == Ok::<u64, ConfigurationError>(bits),
            Err(e) => r matches Err(x) && x@ == e,
        },
{
    match value {
        OptionValue::Float { bits } => Ok(*bits),
        _ => refuse(option, ExpectedType::Float),
    }
}

pub fn text(option: &str, value: &OptionValue) -> (r: Result<String, ConfigurationError>)
    ensures
        match spec_text(option@, value@) {
            Ok(s) => r matches Ok(t) && t@ == s,
            Err(e) => r matches Err(x) && x@ == e,
        },
{
    match value {
        OptionValue::Text(s) => Ok(s.clone()),
        _ => refuse(option, ExpectedType::Text),
    }
}

pub fn special_tokens(option: &str, value: &OptionValue) -> (r: Result<
    Vec<AddedToken>,
    ConfigurationError,
>)
    ensures
        match spec_special_tokens(option@, value@) {
            Ok(tokens) => r matches Ok(v) && token_views(v@) == tokens,
            Err(e) => r matches Err(x) && x@ == e,
        },
{
    match value {
        OptionValue::List(items) => {
            let ghost views = value@->List_0;
            let mut tokens: Vec<AddedToken> = Vec::new();
            let mut i: usize = 0;
            while i < items.len()
                invariant
                    i <= items.len(),
                    views == crate::trainers::options::item_views(items@),
                    value@ == ValueView::List(views),
                    tokens@.len() == i,
                    forall|j: int| 0 <= j < i ==> views[j] != ItemView::Other,
                    forall|j: int| 0 <= j < i ==> (#[trigger] tokens@[j])@ == special_token(views[j]),
                decreases items.len() - i,
            {
                match &items[i] {
                    ListItem::Text(s) => {
                        tokens.push(AddedToken::from(s.clone(), true));
                    },
                    ListItem::Token(t) => {
                        tokens.push(t.as_special());
                    },
                    ListItem::Other => {
                        assert(views[i as int] == ItemView::Other);
                        return Err(ConfigurationError::InvalidOptionValue { option: owned(option) });
                    },
                }
                i += 1;
            }
            assert(token_views(tokens@) =~= views.map_values(|item: ItemView| special_token(item)));
            Ok(tokens)
        },
        _ => refuse(option, ExpectedType::List),
    }
}

/// The list as it is after it was read as special tokens.
pub fn marked_list(items: &Vec<ListItem>) -> (r: Vec<ListItem>)
    ensures
        crate::trainers::options::item_views(r@) == marked_items(
            crate::trainers::options::item_views(items@),
        ),
{
    let ghost views = crate::trainers::options::item_views(items@);
    let mut out: Vec<ListItem> = Vec::with_capacity(items.len());
    let mut stopped = false;
    let mut k: usize = 0;
    assert(views.take(0) =~= Seq::empty());
    assert(crate::trainers::options::item_views(out@) =~= marked_items(views.take(0)));
    while k < items.len()
        invariant
            k <= items.len(),
            views == crate::trainers::options::item_views(items@),
            out@.len() == k,
            stopped == (taken(views.take(k as int)) < k),
            taken(views.take(k as int)) <= k,
            crate::trainers::options::item_views(out@) == marked_items(views.take(k as int)),
        decreases items.len() - k,
    {
        let ghost before = crate::trainers::options::item_views(out@);
        let ghost shorter = views.take(k as int);
        let ghost longer = views.take(k + 1);
        assert(longer.drop_last() =~= shorter);
        assert(longer.last() == views[k as int]);
        match &items[k] {
            ListItem::Text(s) => {
                out.push(ListItem::Text(s.clone()));
            },
            ListItem::Token(t) => {
                if stopped {
                    out.push(ListItem::Token(AddedToken::from(t.content.clone(), t.is_special_token)));
                } else {
                    out.push(ListItem::Token(t.as_special()));
                }
            },
            ListItem::Other => {
                out.push(ListItem::Other);
                stopped = true;
            },
        }
        assert(crate::trainers::options::item_views(out@) =~= marked_items(longer)) by {
            let now = crate::trainers::options::item_views(out@);
            assert(now.len() == longer.len());
            assert forall|j: int| 0 <= j < longer.len() implies now[j] == marked_items(longer)[j] by {
                if j < k {
                    assert(now[j] == before[j]);
                    assert(shorter[j] == longer[j]);
                }
            }
        }
        k += 1;
    }
    assert(views.take(k as int) =~= views);
    out
}

/// Whether `c` is among `chars`.
fn holds(chars: &Vec<char>, c: char) -> (r: bool)
    ensures
        r == chars@.contains(c),
{
    let mut i: usize = 0;
    while i < chars.len()
        invariant
            i <= chars.len(),
            forall|j: int| 0 <= j < i ==> chars@[j] != c,
        decreases chars.len() - i,
    {
        if chars[i] == c {
            return true;
        }
        i += 1;
    }
    false
}

pub fn alphabet(option: &str, value: &OptionValue) -> (r: Result<Vec<char>, ConfigurationError>)
    ensures
        match spec_alphabet(option@, value@) {
            Ok(set) => r matches Ok(v) && v@.no_duplicates() && v@.to_set() == set,
            Err(e) => r matches Err(x) && x@ == e,
        },
{
    match value {
        OptionValue::List(items) => {
            let ghost views = value@->List_0;
            let mut chars: Vec<char> = Vec::new();
            let mut i: usize = 0;
            while i < items.len()
                invariant
                    i <= items.len(),
                    views == crate::trainers::options::item_views(items@),
                    value@ == ValueView::List(views),
                    forall|j: int| 0 <= j < i ==> is_text(#[trigger] views[j]),
                    chars@.no_duplicates(),
                    chars@.to_set() == first_characters(views.take(i as int)),
                decreases items.len() - i,
            {
                let ghost before = chars@;
                match &items[i] {
                    ListItem::Text(s) => {
                        if s.as_str().unicode_len() > 0 {
                            let c = s.as_str().get_char(0);
                            if !holds(&chars, c) {
                                chars.push(c);
                            }
                        }
                    },
                    _ => {
                        assert(!is_text(views[i as int]));
                        return refuse(option, ExpectedType::TextList);
                    },
                }
                proof {
                    lemma_first_characters_step(views, i as int, before, chars@);
                }
                i += 1;
            }
            assert(views.take(i as int) =~= views);
            Ok(chars)
        },
        _ => refuse(option, ExpectedType::TextList),
    }
}

/// Taking one more string into account adds its first character, if it has one.
proof fn lemma_first_characters_step(views: Seq<ItemView>, i: int, before: Seq<char>, after: Seq<char>)
    requires
        0 <= i < views.len(),
        views[i] is Text,
        before.to_set() == first_characters(views.take(i)),
        ({
            let s = views[i]->Text_0;
            if s.len() > 0 && !before.contains(s[0]) {
                after == before.push(s[0])
            } else {
                after == before
            }
        }),
    ensures
        after.to_set() == first_characters(views.take(i + 1)),
{
    let s = views[i]->Text_0;
    let shorter = views.take(i);
    let longer = views.take(i + 1);
    assert forall|c: char| after.to_set().contains(c) == first_characters(longer).contains(c) by {
        if after.to_set().contains(c) {
            if before.contains(c) {
                assert(before.to_set().contains(c));
                let k = choose|k: int| 0 <= k < shorter.len() && starts_with(#[trigger] shorter[k], c);
                assert(longer[k] == shorter[k]);
            } else {
                assert(after == before.push(s[0]));
                let k = choose|k: int| 0 <= k < after.len() && after[k] == c;
                assert(c == s[0]);
                assert(longer[i] == views[i]);
            }
        }
        if first_characters(longer).contains(c) {
            let k = choose|k: int| 0 <= k < longer.len() && starts_with(#[trigger] longer[k], c);
            if k < i {
                assert(shorter[k] == longer[k]);
                assert(first_characters(shorter).contains(c));
                assert(before.to_set().contains(c));
                assert(before.contains(c));
                let m = choose|m: int| 0 <= m < before.len() && before[m] == c;
                assert(after[m] == c);
            } else {
                assert(longer[i] == views[i]);
                assert(s.len() > 0 && s[0] == c);
                if before.contains(c) {
                    let m = choose|m: int| 0 <= m < before.len() && before[m] == c;
                    assert(after[m] == c);
                } else {
                    assert(after[before.len() as int] == c);
                }
            }
        }
    }
    assert(after.to_set() =~= first_characters(longer));
}

} // verus!
