//! Wire codec: outbound request frames are serialized to JSON text, inbound
//! text frames are classified as a response, a push, or neither.
//!
//! Inbound classification follows the wire shapes: an object carrying an
//! `id` member is a response (with an optional `{code, message}` error); an
//! object carrying `channel` and `pub` members is a push whose `pub.data`
//! value is carried through as raw text.  Anything else is ignored, as is any
//! frame that fails to decode.

use vstd::prelude::*;

use crate::json::{
    dup_keys, find_member, parse_object, parse_string, parse_uint, skip_ws, spec_dup_keys,
    spec_find_member, spec_parse_object, spec_parse_string, spec_parse_uint, spec_skip_ws,
};

verus! {

/// A protocol-level error attached to a response.
#[derive(Debug, PartialEq, Eq)]
pub struct ProtocolError {
    pub code: u64,
    pub message: String,
}

pub struct ProtocolErrorView {
    pub code: u64,
    pub message: Seq<char>,
}

impl View for ProtocolError {
    type V = ProtocolErrorView;

    open spec fn view(&self) -> ProtocolErrorView {
        ProtocolErrorView { code: self.code, message: self.message@ }
    }
}

/// A classified inbound frame.
#[derive(Debug, PartialEq, Eq)]
pub enum Frame {
    /// A reply correlated to a request id.
    Response { id: u64, error: Option<ProtocolError> },
    /// An unsolicited publication for a channel, its data as raw JSON text.
    Push { channel: String, data: String },
    /// A frame matching neither shape, or one that failed to decode.
    Ignored,
}

pub enum FrameView {
    Response { id: u64, error: Option<ProtocolErrorView> },
    Push { channel: Seq<char>, data: Seq<char> },
    Ignored,
}

impl View for Frame {
    type V = FrameView;

    open spec fn view(&self) -> FrameView {
        match self {
            Frame::Response { id, error } => FrameView::Response {
                id: *id,
                error: match error {
                    Some(e) => Some(e@),
                    None => None,
                },
            },
            Frame::Push { channel, data } => FrameView::Push { channel: channel@, data: data@ },
            Frame::Ignored => FrameView::Ignored,
        }
    }
}

/// The decoded text of a string value that must fill `[a, b)` exactly.
pub open spec fn spec_value_string(s: Seq<char>, a: int, b: int) -> Option<Seq<char>> {
    match spec_parse_string(s, a) {
        Some((v, e)) => if e == b {
            Some(v)
        } else {
            None
        },
        None => None,
    }
}

/// The `{code, message}` error object filling `[a, b)` exactly.
pub open spec fn spec_parse_error_object(s: Seq<char>, a: int, b: int) -> Option<
    ProtocolErrorView,
> {
    match spec_parse_object(s, a, s.len()) {
        None => None,
        Some((ms, e)) => if e == b && !spec_dup_keys(ms) {
            match (spec_find_member(ms, "code"@), spec_find_member(ms, "message"@)) {
                (Some((ca, cb)), Some((ma, mb))) => match (spec_parse_uint(s, ca, cb),
                    spec_value_string(s, ma, mb)) {
                    (Some(code), Some(message)) => Some(ProtocolErrorView { code, message }),
                    _ => None,
                },
                _ => None,
            }
        } else {
            None
        },
    }
}

/// The raw extent of the `data` member of the `pub` object filling `[a, b)`.
pub open spec fn spec_pub_data(s: Seq<char>, a: int, b: int) -> Option<(int, int)> {
    match spec_parse_object(s, a, s.len()) {
        None => None,
        Some((ms, e)) => if e == b && !spec_dup_keys(ms) {
            spec_find_member(ms, "data"@)
        } else {
            None
        },
    }
}

/// The classification of one inbound text frame.
pub open spec fn spec_decode_frame(s: Seq<char>) -> FrameView {
    let i = spec_skip_ws(s, 0);
    match spec_parse_object(s, i, s.len()) {
        None => FrameView::Ignored,
        Some((ms, e)) => {
            if spec_skip_ws(s, e) != s.len() || spec_dup_keys(ms) {
                FrameView::Ignored
            } else {
                match spec_find_member(ms, "id"@) {
                    Some((a, b)) => match spec_parse_uint(s, a, b) {
                        None => FrameView::Ignored,
                        Some(id) => match spec_find_member(ms, "error"@) {
                            None => FrameView::Response { id, error: None },
                            Some((c, d)) => match spec_parse_error_object(s, c, d) {
                                None => FrameView::Ignored,
                                Some(err) => FrameView::Response { id, error: Some(err) },
                            },
                        },
                    },
                    None => match (spec_find_member(ms, "channel"@), spec_find_member(
                        ms,
                        "pub"@,
                    )) {
                        (Some((a, b)), Some((c, d))) => match spec_value_string(s, a, b) {
                            None => FrameView::Ignored,
                            Some(ch) => match spec_pub_data(s, c, d) {
                                None => FrameView::Ignored,
                                Some((x, y)) => FrameView::Push {
                                    channel: ch,
                                    data: s.subrange(x, y),
                                },
                            },
                        },
                        _ => FrameView::Ignored,
                    },
                }
            }
        },
    }
}

fn value_string(s: &str, a: usize, b: usize) -> (r: Option<String>)
    requires
        a <= s@.len(),
    ensures
        match r {
            Some(v) => spec_value_string(s@, a as int, b as int) == Some(v@),
            None => spec_value_string(s@, a as int, b as int) is None,
        },
{
    match parse_string(s, a) {
        Some((v, e)) => if e == b {
            Some(v)
        } else {
            None
        },
        None => None,
    }
}

fn parse_error_object(s: &str, a: usize, b: usize) -> (r: Option<ProtocolError>)
    requires
        a <= s@.len(),
    ensures
        match r {
            Some(err) => spec_parse_error_object(s@, a as int, b as int) == Some(err@),
            None => spec_parse_error_object(s@, a as int, b as int) is None,
        },
{
    let n = s.unicode_len();
    match parse_object(s, a, n) {
        None => None,
        Some((ms, e)) => {
            if e == b && !dup_keys(&ms) {
                match (find_member(&ms, "code"), find_member(&ms, "message")) {
                    (Some((ca, cb)), Some((ma, mb))) => {
                        match (parse_uint(s, ca, cb), value_string(s, ma, mb)) {
                            (Some(code), Some(message)) => Some(
                                ProtocolError { code, message },
                            ),
                            _ => None,
                        }
                    },
                    _ => None,
                }
            } else {
                None
            }
        },
    }
}

fn pub_data(s: &str, a: usize, b: usize) -> (r: Option<(usize, usize)>)
    requires
        a <= s@.len(),
    ensures
        match r {
            Some((x, y)) => spec_pub_data(s@, a as int, b as int) == Some((x as int, y as int))
                && x <= y <= s@.len(),
            None => spec_pub_data(s@, a as int, b as int) is None,
        },
{
    let n = s.unicode_len();
    match parse_object(s, a, n) {
        None => None,
        Some((ms, e)) => {
            if e == b && !dup_keys(&ms) {
                match find_member(&ms, "data") {
                    Some((x, y)) => Some((x, y)),
                    None => None,
                }
            } else {
                None
            }
        },
    }
}

/// See [`spec_decode_frame`].
pub fn decode_frame(s: &str) -> (r: Frame)
    ensures
        r@ == spec_decode_frame(s@),
{
    let n = s.unicode_len();
    let i = skip_ws(s, 0);
    match parse_object(s, i, n) {
        None => Frame::Ignored,
        Some((ms, e)) => {
            if skip_ws(s, e) != n || dup_keys(&ms) {
                Frame::Ignored
            } else {
                match find_member(&ms, "id") {
                    Some((a, b)) => {
                        match parse_uint(s, a, b) {
                            None => Frame::Ignored,
                            Some(id) => match find_member(&ms, "error") {
                                None => Frame::Response { id, error: None },
                                Some((c, d)) => match parse_error_object(s, c, d) {
                                    None => Frame::Ignored,
                                    Some(err) => Frame::Response { id, error: Some(err) },
                                },
                            },
                        }
                    },
                    None => {
                        match (find_member(&ms, "channel"), find_member(&ms, "pub")) {
                            (Some((a, b)), Some((c, d))) => match value_string(s, a, b) {
                                None => Frame::Ignored,
                                Some(ch) => match pub_data(s, c, d) {
                                    None => Frame::Ignored,
                                    Some((x, y)) => Frame::Push {
                                        channel: ch,
                                        data: s.substring_char(x, y).to_owned(),
                                    },
                                },
                            },
                            _ => Frame::Ignored,
                        }
                    },
                }
            }
        },
    }
}

} // verus!

verus! {

/// The character for a hexadecimal digit value below 16.
pub open spec fn spec_hex_digit(v: u32) -> char
    recommends
        v < 16,
{
    if v < 10 {
        ((48 + v) as u8) as char
    } else {
        ((87 + v) as u8) as char
    }
}

/// The JSON escape of one character: quote, backslash and the control
/// characters are escaped, everything else stands for itself.
pub open spec fn spec_escape_char(c: char) -> Seq<char> {
    if c == '"' {
        seq!['\\', '"']
    } else if c == '\\' {
        seq!['\\', '\\']
    } else if c == '\u{0008}' {
        seq!['\\', 'b']
    } else if c == '\u{000C}' {
        seq!['\\', 'f']
    } else if c == '\n' {
        seq!['\\', 'n']
    } else if c == '\r' {
        seq!['\\', 'r']
    } else if c == '\t' {
        seq!['\\', 't']
    } else if (c as u32) < 32 {
        seq!['\\', 'u', '0', '0', spec_hex_digit((c as u32) / 16), spec_hex_digit((c as u32) % 16)]
    } else {
        seq![c]
    }
}

/// The text of `v` as the contents of a JSON string.
pub open spec fn spec_escape(v: Seq<char>) -> Seq<char>
    decreases v.len(),
{
    if v.len() == 0 {
        Seq::empty()
    } else {
        spec_escape(v.drop_last()) + spec_escape_char(v.last())
    }
}

/// See [`spec_escape`].
pub fn escape(s: &str) -> (r: String)
    ensures
        r@ == spec_escape(s@),
{
    let n = s.unicode_len();
    let mut out = String::new();
    let mut i: usize = 0;
    while i < n
        invariant
            n == s@.len(),
            0 <= i <= n,
            out@ == spec_escape(s@.take(i as int)),
        decreases n - i,
    {
        let c = s.get_char(i);
        let u = c as u32;
        if c == '"' {
            out.push('\\');
            out.push('"');
        } else if c == '\\' {
            out.push('\\');
            out.push('\\');
        } else if c == '\u{0008}' {
            out.push('\\');
            out.push('b');
        } else if c == '\u{000C}' {
            out.push('\\');
            out.push('f');
        } else if c == '\n' {
            out.push('\\');
            out.push('n');
        } else if c == '\r' {
            out.push('\\');
            out.push('r');
        } else if c == '\t' {
            out.push('\\');
            out.push('t');
        } else if u < 32 {
            out.push('\\');
            out.push('u');
            out.push('0');
            out.push('0');
            let hi = u / 16;
            let lo = u % 16;
            out.push(
                if hi < 10 {
                    ((48 + hi) as u8) as char
                } else {
                    ((87 + hi) as u8) as char
                },
            );
            out.push(
                if lo < 10 {
                    ((48 + lo) as u8) as char
                } else {
                    ((87 + lo) as u8) as char
                },
            );
        } else {
            out.push(c);
        }
        proof {
            assert(s@.take(i + 1).drop_last() =~= s@.take(i as int));
            assert(s@.take(i + 1).last() == s@[i as int]);
        }
        i += 1;
    }
    proof {
        assert(s@.take(n as int) =~= s@);
    }
    out
}

/// The decimal digits of `v`, most significant first.
pub open spec fn spec_dec(v: u64) -> Seq<char>
    decreases v,
{
    if v < 10 {
        seq![((48 + v) as u8) as char]
    } else {
        spec_dec(v / 10).push(((48 + (v % 10)) as u8) as char)
    }
}

/// See [`spec_dec`].
pub fn dec(v: u64) -> (r: String)
    ensures
        r@ == spec_dec(v),
    decreases v,
{
    if v < 10 {
        let mut s = String::new();
        s.push(((48 + v) as u8) as char);
        s
    } else {
        let mut s = dec(v / 10);
        s.push(((48 + (v % 10)) as u8) as char);
        s
    }
}

/// An outbound control request, before its id is attached.
#[derive(Debug, PartialEq, Eq)]
pub enum CentrifugoMethod {
    Connect { token: String },
    Subscribe { channel: String },
    Unsubscribe { channel: String },
}

pub enum MethodView {
    Connect { token: Seq<char> },
    Subscribe { channel: Seq<char> },
    Unsubscribe { channel: Seq<char> },
}

impl View for CentrifugoMethod {
    type V = MethodView;

    open spec fn view(&self) -> MethodView {
        match self {
            CentrifugoMethod::Connect { token } => MethodView::Connect { token: token@ },
            CentrifugoMethod::Subscribe { channel } => MethodView::Subscribe { channel: channel@ },
            CentrifugoMethod::Unsubscribe { channel } => MethodView::Unsubscribe {
                channel: channel@,
            },
        }
    }
}

/// The exact text of an outbound request frame.
pub open spec fn spec_encode_request(id: u64, m: MethodView) -> Seq<char> {
    let (name, key, value) = match m {
        MethodView::Connect { token } => ("connect"@, "token"@, token),
        MethodView::Subscribe { channel } => ("subscribe"@, "channel"@, channel),
        MethodView::Unsubscribe { channel } => ("unsubscribe"@, "channel"@, channel),
    };
    "{\"id\":"@ + spec_dec(id) + ",\"method\":\""@ + name + "\",\"params\":{\""@ + key + "\":\""@
        + spec_escape(value) + "\"}}"@
}

/// See [`spec_encode_request`].
pub fn encode_request(id: u64, m: &CentrifugoMethod) -> (r: String)
    ensures
        r@ == spec_encode_request(id, m@),
{
    let mut out = String::from_str("{\"id\":");
    let d = dec(id);
    out.append(d.as_str());
    out.append(",\"method\":\"");
    match m {
        CentrifugoMethod::Connect { token } => {
            out.append("connect");
            out.append("\",\"params\":{\"");
            out.append("token");
            out.append("\":\"");
            let e = escape(token.as_str());
            out.append(e.as_str());
        },
        CentrifugoMethod::Subscribe { channel } => {
            out.append("subscribe");
            out.append("\",\"params\":{\"");
            out.append("channel");
            out.append("\":\"");
            let e = escape(channel.as_str());
            out.append(e.as_str());
        },
        CentrifugoMethod::Unsubscribe { channel } => {
            out.append("unsubscribe");
            out.append("\",\"params\":{\"");
            out.append("channel");
            out.append("\":\"");
            let e = escape(channel.as_str());
            out.append(e.as_str());
        },
    }
    out.append("\"}}");
    out
}

/// See [`crate::spec_channel_name`]: the wire channel name for a logical name.
pub fn channel_name(logical: &str) -> (r: String)
    ensures
        r@ == crate::spec_channel_name(logical@),
{
    let mut out = String::from_str("logs:");
    out.append(logical);
    out
}

} // verus!
