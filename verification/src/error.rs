//! The errors that construction, composition and serialization report.
use vstd::prelude::*;
use vstd::string::*;

verus! {

/// The type that a recognized option's value must have.
#[derive(Clone, Copy, Debug, PartialEq, Eq, Structural)]
pub enum ExpectedType {
    /// `true` or `false`.
    Boolean,
    /// A non-negative integer that fits the platform's size type.
    UnsignedSize,
    /// A non-negative integer below 2^32.
    Unsigned32,
    /// A floating-point number.
    Float,
    /// A string.
    Text,
    /// A list.
    List,
    /// A list whose elements are all strings.
    TextList,
}

/// Why an operation of this library failed.
#[derive(Clone, Debug, PartialEq, Eq)]
pub enum ConfigurationError {
    /// An operation was attempted on a slot that was never filled.
    UninitializedConfiguration,
    /// The value of a recognized option does not have the expected type.
    InvalidOptionType { option: String, expected: ExpectedType },
    /// A list given for an option holds an element of an unsupported shape.
    InvalidOptionValue { option: String },
    /// The validation that follows the options rejected the configuration.
    BuildValidationFailure { cause: String },
    /// The pre-tokenization engine or its codec failed; the message is its own.
    DelegatedAlgorithmFailure { message: String },
    /// The text is not the document of any pre-tokenizer.
    InvalidDocument,
    /// The pre-tokenizer holds a strategy of a kind that this library does
    /// not run, because the engine may not run it to an end.
    UnsupportedStrategy,
}

/// A `ConfigurationError` with its texts as sequences of characters.
pub enum ErrorView {
    UninitializedConfiguration,
    InvalidOptionType { option: Seq<char>, expected: ExpectedType },
    InvalidOptionValue { option: Seq<char> },
    BuildValidationFailure { cause: Seq<char> },
    DelegatedAlgorithmFailure { message: Seq<char> },
    InvalidDocument,
    UnsupportedStrategy,
}

impl View for ConfigurationError {
    type V = ErrorView;

    open spec fn view(&self) -> ErrorView {
        match self {
            ConfigurationError::UninitializedConfiguration => ErrorView::UninitializedConfiguration,
            ConfigurationError::InvalidOptionType { option, expected } => ErrorView::InvalidOptionType {
                option: option@,
                expected: *expected,
            },
            ConfigurationError::InvalidOptionValue { option } => ErrorView::InvalidOptionValue {
                option: option@,
            },
            ConfigurationError::BuildValidationFailure { cause } => ErrorView::BuildValidationFailure {
                cause: cause@,
            },
            ConfigurationError::DelegatedAlgorithmFailure { message } => ErrorView::DelegatedAlgorithmFailure {
                message: message@,
            },
            ConfigurationError::InvalidDocument => ErrorView::InvalidDocument,
            ConfigurationError::UnsupportedStrategy => ErrorView::UnsupportedStrategy,
        }
    }
}

impl ExpectedType {
    /// How the type is called in a message.
    pub open spec fn spec_name(self) -> Seq<char> {
        match self {
            ExpectedType::Boolean => "a boolean"@,
            ExpectedType::UnsignedSize => "an unsigned integer"@,
            ExpectedType::Unsigned32 => "an unsigned 32-bit integer"@,
            ExpectedType::Float => "a float"@,
            ExpectedType::Text => "a string"@,
            ExpectedType::List => "a list"@,
            ExpectedType::TextList => "a list of strings"@,
        }
    }

    /// How the type is called in a message.
    pub fn name(&self) -> (r: &'static str)
        ensures
            r@ == self.spec_name(),
    {
        match self {
            ExpectedType::Boolean => "a boolean",
            ExpectedType::UnsignedSize => "an unsigned integer",
            ExpectedType::Unsigned32 => "an unsigned 32-bit integer",
            ExpectedType::Float => "a float",
            ExpectedType::Text => "a string",
            ExpectedType::List => "a list",
            ExpectedType::TextList => "a list of strings",
        }
    }
}

impl ErrorView {
    /// The message that the error shows to a user.
    pub open spec fn message(self) -> Seq<char> {
        match self {
            ErrorView::UninitializedConfiguration => "uninitialized pre-tokenizer"@,
            ErrorView::InvalidOptionType { option, expected } => "option `"@ + option + "` must be "@
                + expected.spec_name(),
            ErrorView::InvalidOptionValue { option } => option
                + " must be a list of string or AddedToken"@,
            ErrorView::BuildValidationFailure { cause } => "cannot build trainer: "@ + cause,
            ErrorView::DelegatedAlgorithmFailure { message } => message,
            ErrorView::InvalidDocument => "invalid pre-tokenizer document"@,
            ErrorView::UnsupportedStrategy => "unsupported pre-tokenization strategy"@,
        }
    }
}

impl ConfigurationError {
    /// The message that the error shows to a user.
    pub fn message(&self) -> (r: String)
        ensures
            r@ == self@.message(),
    {
        match self {
            ConfigurationError::UninitializedConfiguration => String::from_str(
                "uninitialized pre-tokenizer",
            ),
            ConfigurationError::InvalidOptionType { option, expected } => {
                let mut out = String::from_str("option `");
                out.append(option.as_str());
                out.append("` must be ");
                out.append(expected.name());
                out
            },
            ConfigurationError::InvalidOptionValue { option } => {
                let mut out = option.clone();
                out.append(" must be a list of string or AddedToken");
                out
            },
            ConfigurationError::BuildValidationFailure { cause } => {
                let mut out = String::from_str("cannot build trainer: ");
                out.append(cause.as_str());
                out
            },
            ConfigurationError::DelegatedAlgorithmFailure { message } => message.clone(),
            ConfigurationError::InvalidDocument => String::from_str(
                "invalid pre-tokenizer document",
            ),
            ConfigurationError::UnsupportedStrategy => String::from_str(
                "unsupported pre-tokenization strategy",
            ),
        }
    }
}

} // verus!
