use vstd::prelude::*;
use vstd::string::StringSliceAdditionalSpecFns;
use cosmwasm_std::StdError;
use crate::error::{parse_error, parse_error_text, std_error_text};
use crate::json::{
    after_token, after_tokens, decimal, decimal_string, lemma_escaped_plain,
    lemma_string_body_of_escaped, only_whitespace_from, push_text, read_string, read_token,
    same_bytes, skip_spaces, skip_whitespace, string_literal,
};

verus! {

/// Sent once, when the contract is created.
#[derive(Debug, Clone, PartialEq)]
pub struct InstantiateMsg {}

/// What a user of the chain can ask the contract to do.
#[derive(Debug, Clone, PartialEq)]
pub enum ExecuteMsg {
    /// Send an `Increment` packet over `channel`.
    Increment { channel: String },
}

/// What arrives in a packet from the other chain.
#[derive(Debug, Clone, PartialEq)]
pub enum IbcExecuteMsg {
    /// Add one to the counter of the channel the packet arrived on.
    Increment {},
}

/// The read-only questions.
#[derive(Debug, Clone, PartialEq)]
pub enum QueryMsg {
    /// The count of packets received on the local channel `channel`.
    GetCount { channel: String },
    /// The number of packets sent over the local channel `channel` that
    /// timed out.
    GetTimeoutCount { channel: String },
}

/// The answer to both queries.
#[derive(Debug, Clone, PartialEq)]
pub struct GetCountResponse {
    pub count: u32,
}

/// The name under which a payload that is no message is reported.
pub const IBC_EXECUTE_MSG_TYPE: &'static str = "cw_ibc_example::msg::IbcExecuteMsg";

/// What is reported of a payload that is no message.
pub const UNKNOWN_MESSAGE: &'static str = "expected {\"increment\":{}}";

/// The tokens that follow the name of an `Increment` message, in order.
pub open spec fn increment_tokens() -> Seq<Seq<u8>> {
    seq![":".spec_bytes(), "{".spec_bytes(), "}".spec_bytes(), "}".spec_bytes()]
}

impl IbcExecuteMsg {
    /// The message in JSON, without whitespace.
    pub open spec fn json(self) -> Seq<u8> {
        "{\"increment\":{}}".spec_bytes()
    }

    /// The message that a payload holds: the payload is an object whose one
    /// member has the name `increment`, written as a string literal, and
    /// an empty object as its value, with any whitespace before, between
    /// and behind the tokens.
    pub open spec fn parse(payload: Seq<u8>) -> Option<IbcExecuteMsg> {
        match after_token(payload, 0, "{".spec_bytes()) {
            Some(open) => match string_literal(payload, skip_whitespace(payload, open)) {
                Some((name, name_end)) => match after_tokens(
                    payload,
                    name_end,
                    increment_tokens(),
                ) {
                    Some(end) => if name == "increment".spec_bytes() && only_whitespace_from(
                        payload,
                        end,
                    ) {
                        Some(IbcExecuteMsg::Increment {  })
                    } else {
                        None
                    },
                    None => None,
                },
                None => None,
            },
            None => None,
        }
    }

    /// Writes the message as JSON.
    pub fn to_json(&self) -> (bytes: Vec<u8>)
        ensures
            bytes@ == self.json(),
    {
        let mut bytes: Vec<u8> = Vec::new();
        push_text(&mut bytes, "{\"increment\":{}}");
        bytes
    }

    /// Reads a message from a payload. A payload that holds none gives a
    /// parse error that names the payload's type.
    pub fn from_json(payload: &[u8]) -> (decoded: Result<IbcExecuteMsg, StdError>)
        ensures
            match decoded {
                Ok(msg) => Self::parse(payload@) == Some(msg),
                Err(error) => Self::parse(payload@) is None && std_error_text(error)
                    == parse_error_text(IBC_EXECUTE_MSG_TYPE@, UNKNOWN_MESSAGE@),
            },
    {
        if holds_increment(payload) {
            Ok(IbcExecuteMsg::Increment {  })
        } else {
            Err(parse_error(IBC_EXECUTE_MSG_TYPE, UNKNOWN_MESSAGE))
        }
    }
}

/// Whether the payload holds an `Increment` message.
fn holds_increment(payload: &[u8]) -> (holds: bool)
    ensures
        holds == (IbcExecuteMsg::parse(payload@) is Some),
{
    reveal_with_fuel(after_tokens, 5);
    let open = match read_token(payload, 0, "{".as_bytes()) {
        Some(next) => next,
        None => { return false; },
    };
    let (name, name_end) = match read_string(payload, skip_spaces(payload, open)) {
        Some(read) => read,
        None => { return false; },
    };
    let colon = match read_token(payload, name_end, ":".as_bytes()) {
        Some(next) => next,
        None => { return false; },
    };
    let inner_open = match read_token(payload, colon, "{".as_bytes()) {
        Some(next) => next,
        None => { return false; },
    };
    let inner_close = match read_token(payload, inner_open, "}".as_bytes()) {
        Some(next) => next,
        None => { return false; },
    };
    let close = match read_token(payload, inner_close, "}".as_bytes()) {
        Some(next) => next,
        None => { return false; },
    };
    same_bytes(name.as_slice(), "increment".as_bytes()) && skip_spaces(payload, close)
        == payload.len()
}

impl GetCountResponse {
    /// The response in JSON: `{"count":N}` with `N` in decimal.
    pub open spec fn json(self) -> Seq<u8> {
        "{\"count\":".spec_bytes() + vstd::utf8::encode_utf8(decimal(self.count as nat))
            + "}".spec_bytes()
    }

    /// Writes the response as JSON.
    pub fn to_json(&self) -> (bytes: Vec<u8>)
        ensures
            bytes@ == self.json(),
    {
        let mut bytes: Vec<u8> = Vec::new();
        push_text(&mut bytes, "{\"count\":");
        let digits = decimal_string(self.count);
        push_text(&mut bytes, digits.as_str());
        push_text(&mut bytes, "}");
        bytes
    }
}

/// A message that was written is read back as it was.
pub proof fn law_message_round_trip(msg: IbcExecuteMsg)
    ensures
        IbcExecuteMsg::parse(msg.json()) == Some(msg),
{
    reveal_strlit("{");
    reveal_strlit(":");
    reveal_strlit("}");
    reveal_strlit("increment");
    reveal_strlit("{\"increment\":{}}");
    assert(vstd::utf8::is_ascii_chars("{"@));
    assert(vstd::utf8::is_ascii_chars(":"@));
    assert(vstd::utf8::is_ascii_chars("}"@));
    assert(vstd::utf8::is_ascii_chars("increment"@));
    assert(vstd::utf8::is_ascii_chars("{\"increment\":{}}"@));
    vstd::utf8::is_ascii_chars_encode_utf8("{"@);
    vstd::utf8::is_ascii_chars_encode_utf8(":"@);
    vstd::utf8::is_ascii_chars_encode_utf8("}"@);
    vstd::utf8::is_ascii_chars_encode_utf8("increment"@);
    vstd::utf8::is_ascii_chars_encode_utf8("{\"increment\":{}}"@);
    let text = msg.json();
    let name = "increment".spec_bytes();
    let tokens = increment_tokens();
    assert(text.len() == 16 && name.len() == 9);
    assert(text.subrange(0, 1) =~= "{".spec_bytes());
    assert(skip_whitespace(text, 0) == 0);
    assert(after_token(text, 0, "{".spec_bytes()) == Some(1int));
    assert(skip_whitespace(text, 1) == 1);
    lemma_escaped_plain(name);
    assert(text.subrange(2, 11) =~= name);
    lemma_string_body_of_escaped(text, 2, name);
    assert(string_literal(text, 1) == Some((name, 12int)));
    assert(text.subrange(12, 13) =~= tokens[0]);
    assert(text.subrange(13, 14) =~= tokens[1]);
    assert(text.subrange(14, 15) =~= tokens[2]);
    assert(text.subrange(15, 16) =~= tokens[3]);
    assert(skip_whitespace(text, 12) == 12);
    assert(skip_whitespace(text, 13) == 13);
    assert(skip_whitespace(text, 14) == 14);
    assert(skip_whitespace(text, 15) == 15);
    assert(skip_whitespace(text, 16) == 16);
    reveal_with_fuel(after_tokens, 5);
    assert(after_tokens(text, 12, tokens) == Some(16int));
}

} // verus!
