use std::collections::BTreeMap;

use cosmwasm_std::Binary;
use cw_ibc_example::ack::{make_ack_fail, make_ack_success, Ack};
use cw_ibc_example::base64::{push_base64, read_base64};
use cw_ibc_example::json::{decimal_string, push_json_string, read_string};
use cw_ibc_example::msg::{GetCountResponse, IbcExecuteMsg};

fn json_string(text: &str) -> Vec<u8> {
    let mut out = Vec::new();
    push_json_string(&mut out, text);
    out
}

fn base64(bytes: &[u8]) -> String {
    let mut out = Vec::new();
    push_base64(&mut out, bytes);
    String::from_utf8(out).unwrap()
}

fn samples() -> Vec<String> {
    let mut texts: Vec<String> = [
        "",
        "plain",
        "Only unordered channels are supported.",
        "say \"hi\"",
        "back\\slash",
        "tab\there",
        "line\nfeed\r\n",
        "bell\u{7}, escape\u{1b}, nul\u{0}, unit\u{1f}",
        "form\u{c}feed and back\u{8}space",
        "del\u{7f} stays",
        "slash / stays",
        "caf\u{e9} \u{4e16}\u{754c} \u{1f600}",
        "{\"error\":\"nested\"}",
    ]
    .iter()
    .map(|text| text.to_string())
    .collect();
    let every_ascii: String = (0u8..128).map(|byte| byte as char).collect();
    texts.push(every_ascii);
    texts
}

#[test]
fn success_ack_is_the_fixed_envelope() {
    assert_eq!(make_ack_success(), br#"{"result":"MQ=="}"#.to_vec());
}

#[test]
fn success_ack_matches_the_codec_library() {
    let mut envelope = BTreeMap::new();
    envelope.insert("result", Binary::from(b"1".as_slice()));
    assert_eq!(make_ack_success(), cosmwasm_std::to_json_vec(&envelope).unwrap());
}

#[test]
fn error_ack_carries_the_message() {
    assert_eq!(
        make_ack_fail("no such channel".to_string()),
        br#"{"error":"no such channel"}"#.to_vec()
    );
    assert_eq!(make_ack_fail(String::new()), br#"{"error":""}"#.to_vec());
    assert_eq!(
        make_ack_fail("a \"b\" \\ \n".to_string()),
        br#"{"error":"a \"b\" \\ \n"}"#.to_vec()
    );
}

#[test]
fn error_ack_matches_the_codec_library() {
    for text in samples() {
        let mut envelope = BTreeMap::new();
        envelope.insert("error", text.clone());
        assert_eq!(make_ack_fail(text), cosmwasm_std::to_json_vec(&envelope).unwrap());
    }
}

#[test]
fn string_literals_match_the_codec_library() {
    for text in samples() {
        assert_eq!(json_string(&text), cosmwasm_std::to_json_vec(&text).unwrap());
    }
}

#[test]
fn control_bytes_are_escaped_in_upper_case_hex() {
    assert_eq!(json_string("\u{1b}\u{1f}\u{0}"), br#""\u001B\u001F\u0000""#.to_vec());
}

#[test]
fn string_literals_read_back() {
    for text in samples() {
        let written = json_string(&text);
        let (bytes, end) = read_string(&written, 0).unwrap();
        assert_eq!(bytes, text.as_bytes().to_vec());
        assert_eq!(end, written.len());
        let decoded: String = cosmwasm_std::from_json(&written).unwrap();
        assert_eq!(decoded, text);
    }
}

#[test]
fn all_escapes_are_read() {
    let literal = br#""\" \\ \/ \b \f \n \r \t \u0041 \u00e9 \u00E9 \u4e16 x" rest"#;
    let (bytes, end) = read_string(literal, 0).unwrap();
    assert_eq!(
        String::from_utf8(bytes).unwrap(),
        "\" \\ / \u{8} \u{c} \n \r \t A \u{e9} \u{e9} \u{4e16} x"
    );
    assert_eq!(end, literal.len() - 5);
}

#[test]
fn broken_string_literals_are_refused() {
    assert!(read_string(b"", 0).is_none());
    assert!(read_string(b"x\"", 0).is_none());
    assert!(read_string(b"\"unterminated", 0).is_none());
    assert!(read_string(b"\"bad \\q escape\"", 0).is_none());
    assert!(read_string(b"\"short \\u12\"", 0).is_none());
    assert!(read_string(b"\"not hex \\u12g4\"", 0).is_none());
    assert!(read_string(b"\"surrogate \\ud83d\\ude00\"", 0).is_none());
    assert!(read_string(b"\"dangling \\", 0).is_none());
    assert!(read_string(b"\"\"", 2).is_none());
}

#[test]
fn ack_round_trip() {
    assert_eq!(Ack::from_json(&make_ack_success()), Ok(Ack::Result(b"1".to_vec())));
    for text in samples() {
        assert_eq!(Ack::from_json(&make_ack_fail(text.clone())), Ok(Ack::Error(text)));
    }
    for bytes in [b"".to_vec(), b"\x00".to_vec(), b"ab".to_vec(), (0u8..=255).collect()] {
        let ack = Ack::Result(bytes);
        assert_eq!(Ack::from_json(&ack.to_json()), Ok(ack));
    }
}

#[test]
fn ack_is_read_with_whitespace_and_escapes() {
    assert_eq!(
        Ack::from_json(b" {\t\"error\" :\n\"a\\u0062c\" }\r\n"),
        Ok(Ack::Error("abc".to_string()))
    );
    assert_eq!(Ack::from_json(b"{\"result\" : \"AQID\"}"), Ok(Ack::Result(vec![1, 2, 3])));
    assert_eq!(Ack::from_json(b"{\"res\\u0075lt\":\"AQ==\"}"), Ok(Ack::Result(vec![1])));
}

#[test]
fn what_is_no_ack_is_refused() {
    let refused: [&[u8]; 12] = [
        b"",
        b"{}",
        b"{\"result\":\"MQ==\"",
        b"{\"result\":\"MQ==\"} x",
        b"{\"result\":\"MQ=\"}",
        b"{\"result\":\"MR==\"}",
        b"{\"result\":\"M Q==\"}",
        b"{\"result\":1}",
        b"{\"other\":\"MQ==\"}",
        b"{\"error\":\"\xff\"}",
        b"{\"error\":\"a\",\"error\":\"b\"}",
        b"[\"error\",\"a\"]",
    ];
    for bytes in refused {
        let error = Ack::from_json(bytes).unwrap_err();
        assert_eq!(
            error.to_string(),
            "Error parsing into type cw_ibc_example::ack::Ack: \
             expected an object with a result or an error"
        );
    }
}

#[test]
fn base64_vectors() {
    assert_eq!(base64(b""), "");
    assert_eq!(base64(b"1"), "MQ==");
    assert_eq!(base64(b"f"), "Zg==");
    assert_eq!(base64(b"fo"), "Zm8=");
    assert_eq!(base64(b"foo"), "Zm9v");
    assert_eq!(base64(b"foob"), "Zm9vYg==");
    assert_eq!(base64(b"fooba"), "Zm9vYmE=");
    assert_eq!(base64(b"foobar"), "Zm9vYmFy");
    assert_eq!(base64(&[0xfb, 0xff, 0xfe]), "+//+");
}

#[test]
fn base64_matches_the_codec_library() {
    let all: Vec<u8> = (0u8..=255).collect();
    for length in 0..all.len() {
        let bytes = &all[..length];
        let written = base64(bytes);
        assert_eq!(written, Binary::from(bytes).to_base64());
        assert_eq!(read_base64(written.as_bytes()), Some(bytes.to_vec()));
    }
}

#[test]
fn broken_base64_is_refused() {
    let refused: [&[u8]; 9] =
        [b"M", b"MQ", b"MQ=", b"MQ==MQ==", b"M?==", b"=Q==", b"MQ=x", b"Zm9=", b"Zm9vY"];
    for text in refused {
        assert_eq!(read_base64(text), None);
    }
}

#[test]
fn decimal_digits() {
    assert_eq!(decimal_string(0), "0");
    assert_eq!(decimal_string(7), "7");
    assert_eq!(decimal_string(10), "10");
    assert_eq!(decimal_string(4294967295), "4294967295");
    for value in [1u32, 9, 11, 99, 100, 101, 1000, 65535, 65536, 1234567890, 4294967294] {
        assert_eq!(decimal_string(value), value.to_string());
    }
}

#[test]
fn increment_message_in_json() {
    assert_eq!(IbcExecuteMsg::Increment {}.to_json(), br#"{"increment":{}}"#.to_vec());
    assert_eq!(
        IbcExecuteMsg::from_json(&IbcExecuteMsg::Increment {}.to_json()),
        Ok(IbcExecuteMsg::Increment {})
    );
}

#[test]
fn increment_message_is_read_with_whitespace() {
    let accepted: [&[u8]; 6] = [
        b"{\"\\u0069ncrement\":{}}",
        b"{\"incr\\u0065m\\u0065nt\" :{}}",
        b"{\"increment\":{}}",
        b"{\"increment\": {}}",
        b" { \"increment\" : { } } ",
        b"\n{\r\n\t\"increment\":\t{\n}\n}\n",
    ];
    for payload in accepted {
        assert_eq!(IbcExecuteMsg::from_json(payload), Ok(IbcExecuteMsg::Increment {}));
    }
}

#[test]
fn what_is_no_message_is_refused() {
    let refused: [&[u8]; 17] = [
        b"{\"incr\\ement\":{}}",
        b"{\"increment\\u0000\":{}}",
        b"{increment:{}}",
        b"",
        b" ",
        b"{}",
        b"null",
        b"\"increment\"",
        b"{\"increment\"}",
        b"{\"increment\":{}",
        b"{\"increment\":{}}}",
        b"{\"increment\":{}} x",
        b"{\"increment\":{\"by\":2}}",
        b"{\"incre ment\":{}}",
        b"{\"Increment\":{}}",
        b"{\"decrement\":{}}",
        b"\xff\xfe",
    ];
    for payload in refused {
        let error = IbcExecuteMsg::from_json(payload).unwrap_err();
        assert_eq!(
            error.to_string(),
            "Error parsing into type cw_ibc_example::msg::IbcExecuteMsg: \
             expected {\"increment\":{}}"
        );
    }
}

#[test]
fn count_response_in_json() {
    assert_eq!(GetCountResponse { count: 0 }.to_json(), br#"{"count":0}"#.to_vec());
    assert_eq!(GetCountResponse { count: 42 }.to_json(), br#"{"count":42}"#.to_vec());
    assert_eq!(
        GetCountResponse { count: u32::MAX }.to_json(),
        br#"{"count":4294967295}"#.to_vec()
    );
    let mut response = BTreeMap::new();
    response.insert("count", 907u32);
    assert_eq!(
        GetCountResponse { count: 907 }.to_json(),
        cosmwasm_std::to_json_vec(&response).unwrap()
    );
}
