//! The loosely typed input of a builder: named options and their values.
use vstd::prelude::*;
use vstd::string::*;

verus! {

/// Literal text paired with a flag that marks it as a reserved vocabulary entry.
#[derive(Clone, Debug, PartialEq, Eq)]
pub struct AddedToken {
    pub content: String,
    pub is_special_token: bool,
}

/// An `AddedToken` with its content as a sequence of characters.
pub struct TokenView {
    pub content: Seq<char>,
    pub special: bool,
}

impl View for AddedToken {
    type V = TokenView;

    open spec fn view(&self) -> TokenView {
        TokenView { content: self.content@, special: self.is_special_token }
    }
}

impl AddedToken {
    /// A token with the given content and flag.
    pub fn from(content: String, is_special_token: bool) -> (r: AddedToken)
        ensures
            r@ == (TokenView { content: content@, special: is_special_token }),
    {
        AddedToken { content, is_special_token }
    }

    /// The same content, marked as special.
    pub fn as_special(&self) -> (r: AddedToken)
        ensures
            r@ == (TokenView { content: self@.content, special: true }),
    {
        AddedToken { content: self.content.clone(), is_special_token: true }
    }
}

/// The views of a run of tokens, in order.
pub open spec fn token_views(tokens: Seq<AddedToken>) -> Seq<TokenView> {
    tokens.map_values(|t: AddedToken| t@)
}

/// One element of a list given as an option's value.
#[derive(Clone, Debug, PartialEq, Eq)]
pub enum ListItem {
    /// A plain string.
    Text(String),
    /// An added-token record.
    Token(AddedToken),
    /// A value of any other shape.
    Other,
}

/// A `ListItem` with its texts as sequences of characters.
pub enum ItemView {
    Text(Seq<char>),
    Token(TokenView),
    Other,
}

impl View for ListItem {
    type V = ItemView;

    open spec fn view(&self) -> ItemView {
        match self {
            ListItem::Text(s) => ItemView::Text(s@),
            ListItem::Token(t) => ItemView::Token(t@),
            ListItem::Other => ItemView::Other,
        }
    }
}

/// The views of a run of list elements, in order.
pub open spec fn item_views(items: Seq<ListItem>) -> Seq<ItemView> {
    items.map_values(|i: ListItem| i@)
}

/// The value given for an option.
#[derive(Clone, Debug, PartialEq, Eq)]
pub enum OptionValue {
    Boolean(bool),
    Integer(i64),
    /// A floating-point number, held as its IEEE 754 binary64 encoding.
    Float { bits: u64 },
    Text(String),
    Character(char),
    List(Vec<ListItem>),
    /// A value of any other shape. No option takes it.
    Other,
}

/// An `OptionValue` with its texts as sequences of characters.
pub enum ValueView {
    Boolean(bool),
    Integer(i64),
    Float { bits: u64 },
    Text(Seq<char>),
    Character(char),
    List(Seq<ItemView>),
    Other,
}

impl View for OptionValue {
    type V = ValueView;

    open spec fn view(&self) -> ValueView {
        match self {
            OptionValue::Boolean(b) => ValueView::Boolean(*b),
            OptionValue::Integer(i) => ValueView::Integer(*i),
            OptionValue::Float { bits } => ValueView::Float { bits: *bits },
            OptionValue::Text(s) => ValueView::Text(s@),
            OptionValue::Character(c) => ValueView::Character(*c),
            OptionValue::List(items) => ValueView::List(item_views(items@)),
            OptionValue::Other => ValueView::Other,
        }
    }
}

/// An option as the caller names it, with the value given for it.
#[derive(Clone, Debug, PartialEq, Eq)]
pub struct NamedOption {
    pub name: String,
    pub value: OptionValue,
}

/// A `NamedOption` with its texts as sequences of characters.
pub struct NamedView {
    pub name: Seq<char>,
    pub value: ValueView,
}

impl View for NamedOption {
    type V = NamedView;

    open spec fn view(&self) -> NamedView {
        NamedView { name: self.name@, value: self.value@ }
    }
}

/// The options handed to a builder, in the order in which they were given.
/// Where a name occurs twice, the later value is applied over the earlier.
#[derive(Clone, Debug, PartialEq, Eq)]
pub struct OptionSet {
    pub entries: Vec<NamedOption>,
}

impl View for OptionSet {
    type V = Seq<NamedView>;

    open spec fn view(&self) -> Seq<NamedView> {
        self.entries@.map_values(|o: NamedOption| o@)
    }
}

impl OptionSet {
    /// The set that holds no option.
    pub fn new() -> (r: OptionSet)
        ensures
            r@ == Seq::<NamedView>::empty(),
    {
        let r = OptionSet { entries: Vec::new() };
        assert(r@ =~= Seq::<NamedView>::empty());
        r
    }

    /// Adds `value` under `name`, after the options already held.
    pub fn insert(&mut self, name: String, value: OptionValue)
        ensures
            final(self)@ == old(self)@.push(NamedView { name: name@, value: value@ }),
    {
        self.entries.push(NamedOption { name, value });
        assert(self@ =~= old(self)@.push(NamedView { name: name@, value: value@ }));
    }
}

/// Notice that an option was not recognized and therefore left out.
#[derive(Clone, Debug, PartialEq, Eq)]
pub struct IgnoredOption {
    pub name: String,
}

impl IgnoredOption {
    /// The text of the notice.
    pub open spec fn spec_message(name: Seq<char>) -> Seq<char> {
        "ignored unknown option `"@ + name + "`"@
    }

    /// The text of the notice.
    pub fn message(&self) -> (r: String)
        ensures
            r@ == Self::spec_message(self.name@),
    {
        let mut out = String::from_str("ignored unknown option `");
        out.append(self.name.as_str());
        out.append("`");
        out
    }
}

/// The names that a run of notices is about, in order.
pub open spec fn ignored_names(notices: Seq<IgnoredOption>) -> Seq<Seq<char>> {
    notices.map_values(|n: IgnoredOption| n.name@)
}

} // verus!
