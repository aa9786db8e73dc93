use vstd::prelude::*;
use vstd::string::StringSliceAdditionalSpecFns;
use cosmwasm_std::StdError;
use crate::base64::{
    base64, lemma_base64_is_plain, lemma_base64_round_trip, push_base64, read_base64, unbase64,
};
use crate::error::{parse_error, parse_error_text, std_error_text};
use crate::json::{
    after_token, escaped, json_string, lemma_escaped_plain, lemma_string_body_of_escaped,
    only_whitespace_from, push_json_string, push_text, read_string, read_token, same_bytes,
    skip_spaces, skip_whitespace, string_literal, text_of,
};

verus! {

/// What the receiving chain says of a packet: it was applied, or why not.
#[derive(Debug, Clone, PartialEq)]
pub enum Ack {
    /// The packet was applied; the bytes say how.
    Result(Vec<u8>),
    /// The packet was not applied; the text says why.
    Error(String),
}

/// An acknowledgement as contracts see it.
pub enum AckView {
    Result(Seq<u8>),
    Error(Seq<char>),
}

impl View for Ack {
    type V = AckView;

    open spec fn view(&self) -> AckView {
        match self {
            Ack::Result(bytes) => AckView::Result(bytes@),
            Ack::Error(text) => AckView::Error(text@),
        }
    }
}

/// The bytes that acknowledge success: the one character `1`.
pub open spec fn success_marker() -> Seq<u8> {
    seq![0x31u8]
}

impl AckView {
    /// The acknowledgement on the wire: an object of one member, `result`
    /// with the bytes in base64 or `error` with the text, both as JSON
    /// strings.
    pub open spec fn json(self) -> Seq<u8> {
        match self {
            AckView::Result(bytes) => "{\"result\":\"".spec_bytes() + base64(bytes)
                + "\"}".spec_bytes(),
            AckView::Error(text) => "{\"error\":".spec_bytes() + json_string(text)
                + "}".spec_bytes(),
        }
    }
}

impl Ack {
    /// Writes the acknowledgement as it goes over the wire.
    pub fn to_json(&self) -> (bytes: Vec<u8>)
        ensures
            bytes@ == self@.json(),
    {
        let mut bytes: Vec<u8> = Vec::new();
        match self {
            Ack::Result(data) => {
                push_text(&mut bytes, "{\"result\":\"");
                push_base64(&mut bytes, data.as_slice());
                push_text(&mut bytes, "\"}");
            },
            Ack::Error(text) => {
                push_text(&mut bytes, "{\"error\":");
                push_json_string(&mut bytes, text.as_str());
                push_text(&mut bytes, "}");
            },
        }
        bytes
    }
}

/// The acknowledgement of a packet that was applied.
pub fn make_ack_success() -> (bytes: Vec<u8>)
    ensures
        bytes@ == AckView::Result(success_marker()).json(),
        bytes@ == "{\"result\":\"MQ==\"}".spec_bytes(),
{
    let mut marker: Vec<u8> = Vec::new();
    marker.push(0x31);
    let res = Ack::Result(marker);
    let bytes = res.to_json();
    proof {
        lemma_success_json();
    }
    bytes
}

/// The acknowledgement of a packet that was not applied, with the reason.
pub fn make_ack_fail(err: String) -> (bytes: Vec<u8>)
    ensures
        bytes@ == AckView::Error(err@).json(),
{
    let res = Ack::Error(err);
    res.to_json()
}

/// The acknowledgement of success is `{"result":"MQ=="}`.
pub proof fn lemma_success_json()
    ensures
        AckView::Result(success_marker()).json() == "{\"result\":\"MQ==\"}".spec_bytes(),
{
    reveal_strlit("{\"result\":\"");
    reveal_strlit("\"}");
    reveal_strlit("{\"result\":\"MQ==\"}");
    let head = "{\"result\":\""@;
    let tail = "\"}"@;
    let whole = "{\"result\":\"MQ==\"}"@;
    assert(vstd::utf8::is_ascii_chars(head));
    assert(vstd::utf8::is_ascii_chars(tail));
    assert(vstd::utf8::is_ascii_chars(whole));
    vstd::utf8::is_ascii_chars_encode_utf8(head);
    vstd::utf8::is_ascii_chars_encode_utf8(tail);
    vstd::utf8::is_ascii_chars_encode_utf8(whole);
    assert(base64(success_marker()) =~= seq![0x4du8, 0x51u8, 0x3du8, 0x3du8]);
    assert(AckView::Result(success_marker()).json() =~= "{\"result\":\"MQ==\"}".spec_bytes());
}

/// The name under which bytes that are no acknowledgement are reported.
pub const ACK_TYPE: &'static str = "cw_ibc_example::ack::Ack";

/// What is reported of bytes that are no acknowledgement.
pub const UNKNOWN_ACK: &'static str = "expected an object with a result or an error";

impl AckView {
    /// The acknowledgement that an object with the one member `key` and
    /// `value` stands for: under `result` the value is base64, under `error`
    /// it is UTF-8 text.
    pub open spec fn member(key: Seq<u8>, value: Seq<u8>) -> Option<AckView> {
        if key == "result".spec_bytes() {
            match unbase64(value) {
                Some(bytes) => Some(AckView::Result(bytes)),
                None => None,
            }
        } else if key == "error".spec_bytes() {
            if vstd::utf8::valid_utf8(value) {
                Some(AckView::Error(vstd::utf8::decode_utf8(value)))
            } else {
                None
            }
        } else {
            None
        }
    }

    /// The acknowledgement that bytes from the wire hold: they are an
    /// object with one member, whose name and value are string literals,
    /// with any whitespace between the tokens.
    pub open spec fn parse(text: Seq<u8>) -> Option<AckView> {
        match after_token(text, 0, "{".spec_bytes()) {
            Some(open) => match string_literal(text, skip_whitespace(text, open)) {
                Some((key, key_end)) => match after_token(text, key_end, ":".spec_bytes()) {
                    Some(colon) => match string_literal(text, skip_whitespace(text, colon)) {
                        Some((value, value_end)) => match after_token(
                            text,
                            value_end,
                            "}".spec_bytes(),
                        ) {
                            Some(close) => if only_whitespace_from(text, close) {
                                AckView::member(key, value)
                            } else {
                                None
                            },
                            None => None,
                        },
                        None => None,
                    },
                    None => None,
                },
                None => None,
            },
            None => None,
        }
    }
}

/// Reads the member of an object as an acknowledgement.
fn read_member(key: Vec<u8>, value: Vec<u8>) -> (ack: Option<Ack>)
    ensures
        match ack {
            Some(read) => AckView::member(key@, value@) == Some(read@),
            None => AckView::member(key@, value@) is None,
        },
{
    if same_bytes(key.as_slice(), "result".as_bytes()) {
        match read_base64(value.as_slice()) {
            Some(bytes) => Some(Ack::Result(bytes)),
            None => None,
        }
    } else if same_bytes(key.as_slice(), "error".as_bytes()) {
        match text_of(value) {
            Some(text) => Some(Ack::Error(text)),
            None => None,
        }
    } else {
        None
    }
}

/// Reads an acknowledgement, or nothing where the bytes hold none.
fn read_ack(text: &[u8]) -> (ack: Option<Ack>)
    ensures
        match ack {
            Some(read) => AckView::parse(text@) == Some(read@),
            None => AckView::parse(text@) is None,
        },
{
    let open = match read_token(text, 0, "{".as_bytes()) {
        Some(next) => next,
        None => { return None; },
    };
    let (key, key_end) = match read_string(text, skip_spaces(text, open)) {
        Some(read) => read,
        None => { return None; },
    };
    let colon = match read_token(text, key_end, ":".as_bytes()) {
        Some(next) => next,
        None => { return None; },
    };
    let (value, value_end) = match read_string(text, skip_spaces(text, colon)) {
        Some(read) => read,
        None => { return None; },
    };
    let close = match read_token(text, value_end, "}".as_bytes()) {
        Some(next) => next,
        None => { return None; },
    };
    if skip_spaces(text, close) != text.len() {
        return None;
    }
    read_member(key, value)
}

impl Ack {
    /// Reads an acknowledgement from the wire. Bytes that hold none give a
    /// parse error that names the type.
    pub fn from_json(text: &[u8]) -> (decoded: Result<Ack, StdError>)
        ensures
            match decoded {
                Ok(ack) => AckView::parse(text@) == Some(ack@),
                Err(error) => AckView::parse(text@) is None && std_error_text(error)
                    == parse_error_text(ACK_TYPE@, UNKNOWN_ACK@),
            },
    {
        match read_ack(text) {
            Some(ack) => Ok(ack),
            None => Err(parse_error(ACK_TYPE, UNKNOWN_ACK)),
        }
    }
}

/// The bytes of a text of ASCII characters are its characters.
proof fn lemma_ascii_bytes(text: Seq<char>)
    requires
        vstd::utf8::is_ascii_chars(text),
    ensures
        vstd::utf8::encode_utf8(text) == Seq::new(text.len(), |i: int| text[i] as u8),
{
    vstd::utf8::is_ascii_chars_encode_utf8(text);
    assert(vstd::utf8::encode_utf8(text) =~= Seq::new(text.len(), |i: int| text[i] as u8));
}

/// The bytes of the three tokens of an object.
proof fn lemma_token_bytes()
    ensures
        "{".spec_bytes() == seq![0x7bu8],
        ":".spec_bytes() == seq![0x3au8],
        "}".spec_bytes() == seq![0x7du8],
{
    reveal_strlit("{");
    reveal_strlit(":");
    reveal_strlit("}");
    assert(vstd::utf8::is_ascii_chars("{"@));
    assert(vstd::utf8::is_ascii_chars(":"@));
    assert(vstd::utf8::is_ascii_chars("}"@));
    lemma_ascii_bytes("{"@);
    lemma_ascii_bytes(":"@);
    lemma_ascii_bytes("}"@);
    assert("{".spec_bytes() =~= seq![0x7bu8]);
    assert(":".spec_bytes() =~= seq![0x3au8]);
    assert("}".spec_bytes() =~= seq![0x7du8]);
}

/// The bytes of the two member names, and of the fixed parts of the two
/// forms of an acknowledgement.
proof fn lemma_name_bytes()
    ensures
        "result".spec_bytes() == seq![0x72u8, 0x65u8, 0x73u8, 0x75u8, 0x6cu8, 0x74u8],
        "error".spec_bytes() == seq![0x65u8, 0x72u8, 0x72u8, 0x6fu8, 0x72u8],
        "{\"result\":\"".spec_bytes() == seq![0x7bu8, 0x22u8] + "result".spec_bytes() + seq![
            0x22u8,
            0x3au8,
            0x22u8,
        ],
        "{\"error\":".spec_bytes() == seq![0x7bu8, 0x22u8] + "error".spec_bytes() + seq![
            0x22u8,
            0x3au8,
        ],
        "\"}".spec_bytes() == seq![0x22u8, 0x7du8],
{
    reveal_strlit("result");
    reveal_strlit("error");
    reveal_strlit("{\"result\":\"");
    reveal_strlit("\"}");
    reveal_strlit("{\"error\":");
    assert(vstd::utf8::is_ascii_chars("result"@));
    assert(vstd::utf8::is_ascii_chars("error"@));
    assert(vstd::utf8::is_ascii_chars("{\"result\":\""@));
    assert(vstd::utf8::is_ascii_chars("\"}"@));
    assert(vstd::utf8::is_ascii_chars("{\"error\":"@));
    lemma_ascii_bytes("result"@);
    lemma_ascii_bytes("error"@);
    lemma_ascii_bytes("{\"result\":\""@);
    lemma_ascii_bytes("\"}"@);
    lemma_ascii_bytes("{\"error\":"@);
    assert("result".spec_bytes() =~= seq![0x72u8, 0x65u8, 0x73u8, 0x75u8, 0x6cu8, 0x74u8]);
    assert("error".spec_bytes() =~= seq![0x65u8, 0x72u8, 0x72u8, 0x6fu8, 0x72u8]);
    assert("{\"result\":\"".spec_bytes() =~= seq![0x7bu8, 0x22u8] + "result".spec_bytes() + seq![
        0x22u8,
        0x3au8,
        0x22u8,
    ]);
    assert("{\"error\":".spec_bytes() =~= seq![0x7bu8, 0x22u8] + "error".spec_bytes() + seq![
        0x22u8,
        0x3au8,
    ]);
    assert("\"}".spec_bytes() =~= seq![0x22u8, 0x7du8]);
}

/// An object of one member, written without whitespace: the name as it
/// is, the value escaped.
pub open spec fn object(key: Seq<u8>, value: Seq<u8>) -> Seq<u8> {
    seq![0x7bu8, 0x22u8] + key + seq![0x22u8, 0x3au8, 0x22u8] + escaped(value) + seq![
        0x22u8,
        0x7du8,
    ]
}

/// An object that was written with a name of plain bytes is read as the
/// member of that name and value.
proof fn lemma_object_read(key: Seq<u8>, value: Seq<u8>)
    requires
        forall|i: int|
            0 <= i < key.len() ==> (#[trigger] key[i]) >= 0x20 && key[i] != 0x22 && key[i] != 0x5c,
    ensures
        AckView::parse(object(key, value)) == AckView::member(key, value),
{
    lemma_token_bytes();
    let text = object(key, value);
    let written = escaped(value);
    let k = key.len() as int;
    let v = written.len() as int;
    assert(text.len() == 7 + k + v);
    assert(text[0] == 0x7b && text[1] == 0x22);
    assert(forall|i: int| 0 <= i < k ==> text[2 + i] == key[i]);
    assert(text[2 + k] == 0x22 && text[3 + k] == 0x3a && text[4 + k] == 0x22);
    assert(forall|i: int| 0 <= i < v ==> text[5 + k + i] == written[i]);
    assert(text[5 + k + v] == 0x22 && text[6 + k + v] == 0x7d);
    assert(text.subrange(0, 1) == seq![0x7bu8]);
    assert(after_token(text, 0, seq![0x7bu8]) == Some(1int));
    assert(skip_whitespace(text, 1) == 1);
    lemma_escaped_plain(key);
    assert(text.subrange(2, 2 + k) == key);
    lemma_string_body_of_escaped(text, 2, key);
    assert(string_literal(text, 1) == Some((key, 3 + k)));
    assert(text.subrange(3 + k, 4 + k) == seq![0x3au8]);
    assert(skip_whitespace(text, 3 + k) == 3 + k);
    assert(after_token(text, 3 + k, seq![0x3au8]) == Some(4 + k));
    assert(skip_whitespace(text, 4 + k) == 4 + k);
    assert(text.subrange(5 + k, 5 + k + v) == written);
    lemma_string_body_of_escaped(text, 5 + k, value);
    assert(string_literal(text, 4 + k) == Some((value, 6 + k + v)));
    assert(text.subrange(6 + k + v, 7 + k + v) == seq![0x7du8]);
    assert(skip_whitespace(text, 6 + k + v) == 6 + k + v);
    assert(after_token(text, 6 + k + v, seq![0x7du8]) == Some(7 + k + v));
    assert(only_whitespace_from(text, 7 + k + v));
}

/// The acknowledgement of success on the wire is an object with the
/// member `result`.
proof fn lemma_result_object(bytes: Seq<u8>)
    ensures
        AckView::Result(bytes).json() == object("result".spec_bytes(), base64(bytes)),
{
    lemma_name_bytes();
    lemma_base64_is_plain(bytes);
    lemma_escaped_plain(base64(bytes));
    let key = "result".spec_bytes();
    let written = base64(bytes);
    let left = "{\"result\":\"".spec_bytes() + written + "\"}".spec_bytes();
    let right = seq![0x7bu8, 0x22u8] + key + seq![0x22u8, 0x3au8, 0x22u8] + written + seq![
        0x22u8,
        0x7du8,
    ];
    assert(left =~= right);
}

/// The acknowledgement of failure on the wire is an object with the
/// member `error`.
proof fn lemma_error_object(message: Seq<char>)
    ensures
        AckView::Error(message).json() == object(
            "error".spec_bytes(),
            vstd::utf8::encode_utf8(message),
        ),
{
    lemma_name_bytes();
    lemma_token_bytes();
    let key = "error".spec_bytes();
    let written = escaped(vstd::utf8::encode_utf8(message));
    let left = "{\"error\":".spec_bytes() + (seq![0x22u8] + written + seq![0x22u8])
        + "}".spec_bytes();
    let right = seq![0x7bu8, 0x22u8] + key + seq![0x22u8, 0x3au8, 0x22u8] + written + seq![
        0x22u8,
        0x7du8,
    ];
    assert(left =~= right);
}

/// The two member names hold no byte that a JSON string escapes, and
/// differ.
proof fn lemma_names_plain()
    ensures
        forall|i: int|
            0 <= i < "result".spec_bytes().len() ==> (#[trigger] "result".spec_bytes()[i]) >= 0x20
                && "result".spec_bytes()[i] != 0x22 && "result".spec_bytes()[i] != 0x5c,
        forall|i: int|
            0 <= i < "error".spec_bytes().len() ==> (#[trigger] "error".spec_bytes()[i]) >= 0x20
                && "error".spec_bytes()[i] != 0x22 && "error".spec_bytes()[i] != 0x5c,
        "error".spec_bytes() != "result".spec_bytes(),
{
    lemma_name_bytes();
    assert("error".spec_bytes().len() != "result".spec_bytes().len());
}

/// An acknowledgement that was written is read back as it was.
pub proof fn law_ack_round_trip(ack: AckView)
    ensures
        AckView::parse(ack.json()) == Some(ack),
{
    lemma_names_plain();
    match ack {
        AckView::Result(bytes) => {
            lemma_result_object(bytes);
            lemma_object_read("result".spec_bytes(), base64(bytes));
            lemma_base64_round_trip(bytes);
        },
        AckView::Error(message) => {
            lemma_error_object(message);
            lemma_object_read("error".spec_bytes(), vstd::utf8::encode_utf8(message));
            vstd::utf8::encode_utf8_valid_utf8(message);
            vstd::utf8::encode_utf8_decode_utf8(message);
        },
    }
}

} // verus!
