use vstd::prelude::*;
use vstd::string::StringExecFns;
use cosmwasm_std::StdError;
use crate::json::decimal;

verus! {

/// `cosmwasm_std::StdError`, carried through the library as an opaque value.
#[verifier::external_type_specification]
#[verifier::external_body]
pub struct ExStdError(cosmwasm_std::StdError);

/// The text that `cosmwasm_std::StdError` displays.
pub uninterp spec fn std_error_text(error: StdError) -> Seq<char>;

/// Calls `StdError`'s `Display` implementation through `to_string`; the
/// result is the text named by [`std_error_text`].
#[verifier::external_body]
pub(crate) fn std_error_to_string(error: &StdError) -> (text: String)
    ensures
        text@ == std_error_text(*error),
{
    error.to_string()
}

/// What an overflow error of an addition displays.
pub open spec fn overflow_text(operand1: u32, operand2: u32) -> Seq<char> {
    "Overflow: Cannot Add with "@ + decimal(operand1 as nat) + " and "@ + decimal(operand2 as nat)
}

/// What a parse error displays.
pub open spec fn parse_error_text(target: Seq<char>, message: Seq<char>) -> Seq<char> {
    "Error parsing into type "@ + target + ": "@ + message
}

/// `StdError::overflow` over `OverflowError::new` for the addition of the
/// two operands. Its display is `Overflow: ` and then the inner error's
/// `Cannot Add with {operand1} and {operand2}`, the operands in decimal.
#[verifier::external_body]
pub(crate) fn overflow_error(operand1: u32, operand2: u32) -> (error: StdError)
    ensures
        std_error_text(error) == overflow_text(operand1, operand2),
{
    StdError::overflow(
        cosmwasm_std::OverflowError::new(cosmwasm_std::OverflowOperation::Add, operand1, operand2),
    )
}

/// `StdError::parse_err`. Its display is
/// `Error parsing into type {target}: {message}`.
#[verifier::external_body]
pub(crate) fn parse_error(target: &str, message: &str) -> (error: StdError)
    ensures
        std_error_text(error) == parse_error_text(target@, message@),
{
    StdError::parse_err(target, message)
}

/// An error that cannot occur: its one variant holds a value of a type
/// without values, so a result with this error type is always `Ok`.
#[derive(Debug)]
pub enum Never {
    Impossible(core::convert::Infallible),
}

/// Why a handshake or an event was rejected.
#[derive(Debug, PartialEq)]
pub enum ContractError {
    /// A failure reported by the storage or codec layer.
    Std(StdError),
    /// The channel is not unordered.
    OrderedChannel {},
    /// A version string differs from the protocol version.
    InvalidVersion { actual: String, expected: String },
}

/// An error as contracts see it.
pub enum ContractErrorView {
    Std(StdError),
    OrderedChannel,
    InvalidVersion { actual: Seq<char>, expected: Seq<char> },
}

impl View for ContractError {
    type V = ContractErrorView;

    open spec fn view(&self) -> ContractErrorView {
        match self {
            ContractError::Std(error) => ContractErrorView::Std(*error),
            ContractError::OrderedChannel {  } => ContractErrorView::OrderedChannel,
            ContractError::InvalidVersion { actual, expected } => ContractErrorView::InvalidVersion {
                actual: actual@,
                expected: expected@,
            },
        }
    }
}

impl ContractErrorView {
    /// The message of the error.
    pub open spec fn text(self) -> Seq<char> {
        match self {
            ContractErrorView::Std(error) => std_error_text(error),
            ContractErrorView::OrderedChannel => "Only unordered channels are supported."@,
            ContractErrorView::InvalidVersion { actual, expected } => {
                "Invalid IBC channel version. Got ("@ + actual + "), expected ("@ + expected
                    + ")."@
            },
        }
    }
}

impl ContractError {

    /// The message of the error, as the acknowledgement of a failed packet
    /// carries it.
    pub fn to_string(&self) -> (text: String)
        ensures
            text@ == self@.text(),
    {
        match self {
            ContractError::Std(error) => std_error_to_string(error),
            ContractError::OrderedChannel {  } => "Only unordered channels are supported.".to_owned(),
            ContractError::InvalidVersion { actual, expected } => {
                let mut text = "Invalid IBC channel version. Got (".to_owned();
                text.append(actual.as_str());
                text.append("), expected (");
                text.append(expected.as_str());
                text.append(").");
                text
            },
        }
    }
}

} // verus!
