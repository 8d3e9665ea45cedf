use abbacchio::codec::{
    channel_name, dec, decode_frame, encode_request, escape, CentrifugoMethod, Frame,
    ProtocolError,
};

#[test]
fn encodes_connect_request() {
    let m = CentrifugoMethod::Connect { token: String::from("secret-token") };
    assert_eq!(
        encode_request(1, &m),
        "{\"id\":1,\"method\":\"connect\",\"params\":{\"token\":\"secret-token\"}}"
    );
}

#[test]
fn encodes_subscribe_request() {
    let m = CentrifugoMethod::Subscribe { channel: channel_name("app") };
    assert_eq!(
        encode_request(2, &m),
        "{\"id\":2,\"method\":\"subscribe\",\"params\":{\"channel\":\"logs:app\"}}"
    );
}

#[test]
fn encodes_unsubscribe_request() {
    let m = CentrifugoMethod::Unsubscribe { channel: String::from("logs:app") };
    assert_eq!(
        encode_request(3, &m),
        "{\"id\":3,\"method\":\"unsubscribe\",\"params\":{\"channel\":\"logs:app\"}}"
    );
}

#[test]
fn escapes_quotes_backslashes_and_controls() {
    assert_eq!(escape("plain"), "plain");
    assert_eq!(escape("a\"b"), "a\\\"b");
    assert_eq!(escape("a\\b"), "a\\\\b");
    assert_eq!(escape("a\nb\tc\rd"), "a\\nb\\tc\\rd");
    assert_eq!(escape("\u{8}\u{c}"), "\\b\\f");
    assert_eq!(escape("\u{1}"), "\\u0001");
    assert_eq!(escape("\u{1f}"), "\\u001f");
}

#[test]
fn renders_decimals() {
    assert_eq!(dec(0), "0");
    assert_eq!(dec(7), "7");
    assert_eq!(dec(105), "105");
    assert_eq!(dec(u64::MAX), "18446744073709551615");
}

#[test]
fn derives_channel_names() {
    assert_eq!(channel_name("app"), "logs:app");
    assert_eq!(channel_name(""), "logs:");
}

#[test]
fn decodes_connect_ack() {
    let f = decode_frame("{\"id\":1,\"result\":{}}");
    assert_eq!(f, Frame::Response { id: 1, error: None });
}

#[test]
fn decodes_error_response() {
    let f = decode_frame("{\"id\":2,\"error\":{\"code\":105,\"message\":\"permission denied\"}}");
    assert_eq!(
        f,
        Frame::Response {
            id: 2,
            error: Some(ProtocolError { code: 105, message: String::from("permission denied") }),
        }
    );
}

#[test]
fn decodes_push() {
    let f = decode_frame("{\"channel\":\"logs:app\",\"pub\":{\"data\":{\"x\":1}}}");
    assert_eq!(
        f,
        Frame::Push { channel: String::from("logs:app"), data: String::from("{\"x\":1}") }
    );
}

#[test]
fn push_data_is_carried_verbatim() {
    let f = decode_frame("{\"channel\":\"c\",\"pub\":{\"data\":[1,\"two\",{\"three\":3}]}}");
    assert_eq!(
        f,
        Frame::Push { channel: String::from("c"), data: String::from("[1,\"two\",{\"three\":3}]") }
    );
}

#[test]
fn decodes_with_whitespace_and_reordered_members() {
    let f = decode_frame(" { \"result\" : {} , \"id\" : 7 } ");
    assert_eq!(f, Frame::Response { id: 7, error: None });
}

#[test]
fn ignores_frames_matching_neither_shape() {
    assert_eq!(decode_frame(""), Frame::Ignored);
    assert_eq!(decode_frame("not json"), Frame::Ignored);
    assert_eq!(decode_frame("[1,2,3]"), Frame::Ignored);
    assert_eq!(decode_frame("{}"), Frame::Ignored);
    assert_eq!(decode_frame("{\"ping\":true}"), Frame::Ignored);
    assert_eq!(decode_frame("{\"channel\":\"c\"}"), Frame::Ignored);
    assert_eq!(decode_frame("{\"id\":1,\"result\":{}} trailing"), Frame::Ignored);
    assert_eq!(decode_frame("{\"id\":\"one\"}"), Frame::Ignored);
    assert_eq!(decode_frame("{\"id\":1,\"error\":\"bad\"}"), Frame::Ignored);
}

#[test]
fn decodes_escaped_strings() {
    let f = decode_frame("{\"id\":2,\"error\":{\"code\":1,\"message\":\"a\\\"b\\\\c\\n\\u0041\"}}");
    assert_eq!(
        f,
        Frame::Response {
            id: 2,
            error: Some(ProtocolError { code: 1, message: String::from("a\"b\\c\nA") }),
        }
    );
}

#[test]
fn duplicate_keys_drop_the_frame() {
    assert_eq!(decode_frame("{\"id\":1,\"id\":2}"), Frame::Ignored);
    assert_eq!(
        decode_frame("{\"channel\":\"c\",\"channel\":\"d\",\"pub\":{\"data\":1}}"),
        Frame::Ignored
    );
}

#[test]
fn response_without_result_member_is_still_a_response() {
    assert_eq!(decode_frame("{\"id\":9}"), Frame::Response { id: 9, error: None });
}

#[test]
fn encodes_empty_and_escaped_values() {
    let m = CentrifugoMethod::Connect { token: String::new() };
    assert_eq!(
        encode_request(1, &m),
        "{\"id\":1,\"method\":\"connect\",\"params\":{\"token\":\"\"}}"
    );
    let m2 = CentrifugoMethod::Connect { token: String::from("a\"b\\c") };
    assert_eq!(
        encode_request(1, &m2),
        "{\"id\":1,\"method\":\"connect\",\"params\":{\"token\":\"a\\\"b\\\\c\"}}"
    );
}
