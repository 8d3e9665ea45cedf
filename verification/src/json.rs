//! A small JSON scanner for the wire protocol's text frames.
//!
//! Inbound frames are JSON objects.  The session only ever reads a few
//! well-known members (`id`, `error`, `channel`, `pub`); every other value is
//! scanned for its extent and carried through as raw text.  Each executable
//! function returns exactly what its specification twin computes.
//!
//! Decoded strings accept the escapes `\" \\ \/ \b \f \n \r \t` and `\uXXXX`
//! for code points below 128; any other escape makes the string, and with it
//! the frame, undecodable.  Raw scanning (used for values that are carried
//! through verbatim) places no such restriction.

use vstd::prelude::*;

verus! {

/// JSON insignificant whitespace.
pub open spec fn is_ws(c: char) -> bool {
    c == ' ' || c == '\n' || c == '\t' || c == '\r'
}

/// First index at or after `i` holding a non-whitespace character.
pub open spec fn spec_skip_ws(s: Seq<char>, i: int) -> int
    decreases s.len() - i,
{
    if 0 <= i < s.len() && is_ws(s[i]) {
        spec_skip_ws(s, i + 1)
    } else {
        i
    }
}

pub fn skip_ws(s: &str, i: usize) -> (r: usize)
    requires
        i <= s@.len(),
    ensures
        r == spec_skip_ws(s@, i as int),
        i <= r <= s@.len(),
    decreases s@.len() - i,
{
    if i < s.unicode_len() {
        let c = s.get_char(i);
        if c == ' ' || c == '\n' || c == '\t' || c == '\r' {
            return skip_ws(s, i + 1);
        }
    }
    i
}

/// Numeric value of a hexadecimal digit.
pub open spec fn spec_hex_val(c: char) -> Option<u32> {
    let u = c as u32;
    if 48 <= u <= 57 {
        Some((u - 48) as u32)
    } else if 97 <= u <= 102 {
        Some((u - 87) as u32)
    } else if 65 <= u <= 70 {
        Some((u - 55) as u32)
    } else {
        None
    }
}

pub fn hex_val(c: char) -> (r: Option<u32>)
    ensures
        r == spec_hex_val(c),
{
    let u = c as u32;
    if 48 <= u && u <= 57 {
        Some(u - 48)
    } else if 97 <= u && u <= 102 {
        Some(u - 87)
    } else if 65 <= u && u <= 70 {
        Some(u - 55)
    } else {
        None
    }
}

/// The decoded form of a `\uXXXX` escape found at `i` (the index of the `u`),
/// accepted only below code point 128.
pub open spec fn spec_hex4(s: Seq<char>, i: int) -> Option<char> {
    if i + 4 <= s.len() {
        match (spec_hex_val(s[i]), spec_hex_val(s[i + 1]), spec_hex_val(s[i + 2]), spec_hex_val(
            s[i + 3],
        )) {
            (Some(a), Some(b), Some(c), Some(d)) => {
                let v = a * 4096 + b * 256 + c * 16 + d;
                if v < 128 {
                    Some((v as u8) as char)
                } else {
                    None
                }
            },
            _ => None,
        }
    } else {
        None
    }
}

fn hex4(s: &str, i: usize) -> (r: Option<char>)
    requires
        i <= s@.len(),
    ensures
        r == spec_hex4(s@, i as int),
{
    let n = s.unicode_len();
    if n - i >= 4 {
        let a = hex_val(s.get_char(i));
        let b = hex_val(s.get_char(i + 1));
        let c = hex_val(s.get_char(i + 2));
        let d = hex_val(s.get_char(i + 3));
        match (a, b, c, d) {
            (Some(a), Some(b), Some(c), Some(d)) => {
                let v = a * 4096 + b * 256 + c * 16 + d;
                if v < 128 {
                    Some((v as u8) as char)
                } else {
                    None
                }
            },
            _ => None,
        }
    } else {
        None
    }
}

/// Decodes the remainder of a JSON string, `i` pointing just past either the
/// opening quote or the last character consumed.  Returns the decoded text
/// and the index just past the closing quote.
pub open spec fn spec_string_rest(s: Seq<char>, i: int, acc: Seq<char>) -> Option<(Seq<char>, int)>
    decreases s.len() - i,
{
    if i < 0 || i >= s.len() {
        None
    } else if s[i] == '"' {
        Some((acc, i + 1))
    } else if s[i] == '\\' {
        if i + 1 >= s.len() {
            None
        } else {
            let e = s[i + 1];
            if e == '"' || e == '\\' || e == '/' {
                spec_string_rest(s, i + 2, acc.push(e))
            } else if e == 'b' {
                spec_string_rest(s, i + 2, acc.push('\u{0008}'))
            } else if e == 'f' {
                spec_string_rest(s, i + 2, acc.push('\u{000C}'))
            } else if e == 'n' {
                spec_string_rest(s, i + 2, acc.push('\n'))
            } else if e == 'r' {
                spec_string_rest(s, i + 2, acc.push('\r'))
            } else if e == 't' {
                spec_string_rest(s, i + 2, acc.push('\t'))
            } else if e == 'u' {
                match spec_hex4(s, i + 2) {
                    Some(c) => spec_string_rest(s, i + 6, acc.push(c)),
                    None => None,
                }
            } else {
                None
            }
        }
    } else if (s[i] as u32) < 32 {
        None
    } else {
        spec_string_rest(s, i + 1, acc.push(s[i]))
    }
}

/// A JSON string starting at `i` (at its opening quote), decoded.
pub open spec fn spec_parse_string(s: Seq<char>, i: int) -> Option<(Seq<char>, int)> {
    if 0 <= i < s.len() && s[i] == '"' {
        spec_string_rest(s, i + 1, Seq::empty())
    } else {
        None
    }
}

fn string_rest(s: &str, i: usize, acc: String) -> (r: Option<(String, usize)>)
    requires
        i <= s@.len(),
    ensures
        match r {
            Some((v, e)) => spec_string_rest(s@, i as int, acc@) == Some((v@, e as int)) && i < e
                <= s@.len(),
            None => spec_string_rest(s@, i as int, acc@) is None,
        },
    decreases s@.len() - i,
{
    let n = s.unicode_len();
    if i >= n {
        return None;
    }
    let c = s.get_char(i);
    if c == '"' {
        return Some((acc, i + 1));
    }
    if c == '\\' {
        if n - i < 2 {
            return None;
        }
        let e = s.get_char(i + 1);
        let mut acc = acc;
        if e == '"' || e == '\\' || e == '/' {
            acc.push(e);
            return string_rest(s, i + 2, acc);
        }
        if e == 'b' {
            acc.push('\u{0008}');
            return string_rest(s, i + 2, acc);
        }
        if e == 'f' {
            acc.push('\u{000C}');
            return string_rest(s, i + 2, acc);
        }
        if e == 'n' {
            acc.push('\n');
            return string_rest(s, i + 2, acc);
        }
        if e == 'r' {
            acc.push('\r');
            return string_rest(s, i + 2, acc);
        }
        if e == 't' {
            acc.push('\t');
            return string_rest(s, i + 2, acc);
        }
        if e == 'u' {
            match hex4(s, i + 2) {
                Some(u) => {
                    acc.push(u);
                    return string_rest(s, i + 6, acc);
                },
                None => {
                    return None;
                },
            }
        }
        return None;
    }
    if (c as u32) < 32 {
        return None;
    }
    let mut acc = acc;
    acc.push(c);
    string_rest(s, i + 1, acc)
}

/// See [`spec_parse_string`].
pub fn parse_string(s: &str, i: usize) -> (r: Option<(String, usize)>)
    requires
        i <= s@.len(),
    ensures
        match r {
            Some((v, e)) => spec_parse_string(s@, i as int) == Some((v@, e as int)) && i < e
                <= s@.len(),
            None => spec_parse_string(s@, i as int) is None,
        },
{
    if i < s.unicode_len() && s.get_char(i) == '"' {
        string_rest(s, i + 1, String::new())
    } else {
        None
    }
}

/// Skips the remainder of a string without decoding it, `i` pointing just
/// past the opening quote; `esc` says whether the previous character was an
/// unconsumed backslash.  Returns the index just past the closing quote.
pub open spec fn spec_scan_string_raw(s: Seq<char>, i: int, esc: bool) -> Option<int>
    decreases s.len() - i,
{
    if i < 0 || i >= s.len() {
        None
    } else if esc {
        spec_scan_string_raw(s, i + 1, false)
    } else if s[i] == '\\' {
        spec_scan_string_raw(s, i + 1, true)
    } else if s[i] == '"' {
        Some(i + 1)
    } else {
        spec_scan_string_raw(s, i + 1, false)
    }
}

fn scan_string_raw(s: &str, i: usize, esc: bool) -> (r: Option<usize>)
    requires
        i <= s@.len(),
    ensures
        match r {
            Some(e) => spec_scan_string_raw(s@, i as int, esc) == Some(e as int) && i < e
                <= s@.len(),
            None => spec_scan_string_raw(s@, i as int, esc) is None,
        },
    decreases s@.len() - i,
{
    if i >= s.unicode_len() {
        return None;
    }
    let c = s.get_char(i);
    if esc {
        scan_string_raw(s, i + 1, false)
    } else if c == '\\' {
        scan_string_raw(s, i + 1, true)
    } else if c == '"' {
        Some(i + 1)
    } else {
        scan_string_raw(s, i + 1, false)
    }
}

/// Scans past the rest of a bracketed value (`i` just past the opening
/// bracket, `depth` brackets currently open).  Bracket kinds are not matched
/// against each other: the value is carried through, not interpreted.
pub open spec fn spec_scan_nest(s: Seq<char>, i: int, depth: int, in_str: bool, esc: bool) -> Option<
    int,
>
    decreases s.len() - i,
{
    if i < 0 || i >= s.len() {
        None
    } else if in_str {
        if esc {
            spec_scan_nest(s, i + 1, depth, true, false)
        } else if s[i] == '\\' {
            spec_scan_nest(s, i + 1, depth, true, true)
        } else if s[i] == '"' {
            spec_scan_nest(s, i + 1, depth, false, false)
        } else {
            spec_scan_nest(s, i + 1, depth, true, false)
        }
    } else if s[i] == '"' {
        spec_scan_nest(s, i + 1, depth, true, false)
    } else if s[i] == '{' || s[i] == '[' {
        if depth < s.len() {
            spec_scan_nest(s, i + 1, depth + 1, false, false)
        } else {
            None
        }
    } else if s[i] == '}' || s[i] == ']' {
        if depth == 1 {
            Some(i + 1)
        } else {
            spec_scan_nest(s, i + 1, depth - 1, false, false)
        }
    } else {
        spec_scan_nest(s, i + 1, depth, false, false)
    }
}

fn scan_nest(s: &str, i: usize, depth: usize, in_str: bool, esc: bool) -> (r: Option<usize>)
    requires
        i <= s@.len(),
        1 <= depth <= s@.len(),
    ensures
        match r {
            Some(e) => spec_scan_nest(s@, i as int, depth as int, in_str, esc) == Some(e as int)
                && i < e <= s@.len(),
            None => spec_scan_nest(s@, i as int, depth as int, in_str, esc) is None,
        },
    decreases s@.len() - i,
{
    let n = s.unicode_len();
    if i >= n {
        return None;
    }
    let c = s.get_char(i);
    if in_str {
        if esc {
            scan_nest(s, i + 1, depth, true, false)
        } else if c == '\\' {
            scan_nest(s, i + 1, depth, true, true)
        } else if c == '"' {
            scan_nest(s, i + 1, depth, false, false)
        } else {
            scan_nest(s, i + 1, depth, true, false)
        }
    } else if c == '"' {
        scan_nest(s, i + 1, depth, true, false)
    } else if c == '{' || c == '[' {
        if depth < n {
            scan_nest(s, i + 1, depth + 1, false, false)
        } else {
            None
        }
    } else if c == '}' || c == ']' {
        if depth == 1 {
            Some(i + 1)
        } else {
            scan_nest(s, i + 1, depth - 1, false, false)
        }
    } else {
        scan_nest(s, i + 1, depth, false, false)
    }
}

/// A character that ends an unquoted primitive (number, boolean, null).
pub open spec fn is_delim(c: char) -> bool {
    c == ',' || c == '}' || c == ']' || is_ws(c)
}

/// Scans past a primitive value starting at `i`; at least one character must
/// be consumed.
pub open spec fn spec_scan_prim(s: Seq<char>, i: int, taken: bool) -> Option<int>
    decreases s.len() - i,
{
    if i < 0 {
        None
    } else if i >= s.len() || is_delim(s[i]) {
        if taken {
            Some(i)
        } else {
            None
        }
    } else if s[i] == '"' || s[i] == '{' || s[i] == '[' || s[i] == ':' {
        None
    } else {
        spec_scan_prim(s, i + 1, true)
    }
}

fn scan_prim(s: &str, i: usize, taken: bool) -> (r: Option<usize>)
    requires
        i <= s@.len(),
    ensures
        match r {
            Some(e) => spec_scan_prim(s@, i as int, taken) == Some(e as int) && i <= e <= s@.len()
                && (taken || i < e),
            None => spec_scan_prim(s@, i as int, taken) is None,
        },
    decreases s@.len() - i,
{
    let n = s.unicode_len();
    if i >= n {
        return if taken {
            Some(i)
        } else {
            None
        };
    }
    let c = s.get_char(i);
    if c == ',' || c == '}' || c == ']' || c == ' ' || c == '\n' || c == '\t' || c == '\r' {
        if taken {
            Some(i)
        } else {
            None
        }
    } else if c == '"' || c == '{' || c == '[' || c == ':' {
        None
    } else {
        scan_prim(s, i + 1, true)
    }
}

/// The index just past the JSON value starting at `i` (which must not point
/// at whitespace).
pub open spec fn spec_scan_value(s: Seq<char>, i: int) -> Option<int> {
    if i < 0 || i >= s.len() {
        None
    } else if s[i] == '"' {
        match spec_scan_string_raw(s, i + 1, false) {
            Some(e) => Some(e),
            None => None,
        }
    } else if s[i] == '{' || s[i] == '[' {
        spec_scan_nest(s, i + 1, 1, false, false)
    } else {
        spec_scan_prim(s, i, false)
    }
}

/// See [`spec_scan_value`].
pub fn scan_value(s: &str, i: usize) -> (r: Option<usize>)
    requires
        i <= s@.len(),
    ensures
        match r {
            Some(e) => spec_scan_value(s@, i as int) == Some(e as int) && i < e <= s@.len(),
            None => spec_scan_value(s@, i as int) is None,
        },
{
    let n = s.unicode_len();
    if i >= n {
        return None;
    }
    let c = s.get_char(i);
    if c == '"' {
        match scan_string_raw(s, i + 1, false) {
            Some(e) => Some(e),
            None => None,
        }
    } else if c == '{' || c == '[' {
        scan_nest(s, i + 1, 1, false, false)
    } else {
        scan_prim(s, i, false)
    }
}

} // verus!

verus! {

/// A parsed object member: decoded key, and the extent of its raw value.
pub open spec fn members_view(v: Seq<(String, usize, usize)>) -> Seq<(Seq<char>, int, int)> {
    v.map_values(|m: (String, usize, usize)| (m.0@, m.1 as int, m.2 as int))
}

/// Parses the members of an object, `i` just past a `{` or a `,`, so at
/// least one member is expected.  Yields the accumulated members and the
/// index just past the closing `}`.  `fuel` bounds the recursion; the
/// callers pass the text's length, which at least one consumed character per
/// member makes sufficient.
pub open spec fn spec_parse_members(
    s: Seq<char>,
    i: int,
    acc: Seq<(Seq<char>, int, int)>,
    fuel: nat,
) -> Option<(Seq<(Seq<char>, int, int)>, int)>
    decreases fuel,
{
    if fuel == 0 {
        None
    } else {
        let j = spec_skip_ws(s, i);
        match spec_parse_string(s, j) {
            None => None,
            Some((k, p)) => {
                let q = spec_skip_ws(s, p);
                if 0 <= q < s.len() && s[q] == ':' {
                    let r = spec_skip_ws(s, q + 1);
                    match spec_scan_value(s, r) {
                        None => None,
                        Some(e) => {
                            let acc2 = acc.push((k, r, e));
                            let t = spec_skip_ws(s, e);
                            if 0 <= t < s.len() && s[t] == '}' {
                                Some((acc2, t + 1))
                            } else if 0 <= t < s.len() && s[t] == ',' {
                                spec_parse_members(s, t + 1, acc2, (fuel - 1) as nat)
                            } else {
                                None
                            }
                        },
                    }
                } else {
                    None
                }
            },
        }
    }
}

/// The members of the object whose `{` stands at `i`, and the index just
/// past its `}`.
pub open spec fn spec_parse_object(s: Seq<char>, i: int, fuel: nat) -> Option<
    (Seq<(Seq<char>, int, int)>, int),
> {
    if 0 <= i < s.len() && s[i] == '{' {
        let j = spec_skip_ws(s, i + 1);
        if 0 <= j < s.len() && s[j] == '}' {
            Some((Seq::empty(), j + 1))
        } else {
            spec_parse_members(s, i + 1, Seq::empty(), fuel)
        }
    } else {
        None
    }
}

fn parse_members(s: &str, i: usize, acc: Vec<(String, usize, usize)>, fuel: usize) -> (r: Option<
    (Vec<(String, usize, usize)>, usize),
>)
    requires
        i <= s@.len(),
        forall|t: int| 0 <= t < acc@.len() ==> (#[trigger] acc@[t]).1 <= acc@[t].2 <= s@.len(),
    ensures
        match r {
            Some((ms, e)) => spec_parse_members(s@, i as int, members_view(acc@), fuel as nat)
                == Some((members_view(ms@), e as int)) && e <= s@.len() && forall|t: int|
                0 <= t < ms@.len() ==> (#[trigger] ms@[t]).1 <= ms@[t].2 <= s@.len(),
            None => spec_parse_members(s@, i as int, members_view(acc@), fuel as nat) is None,
        },
    decreases fuel,
{
    if fuel == 0 {
        return None;
    }
    let j = skip_ws(s, i);
    match parse_string(s, j) {
        None => None,
        Some((k, p)) => {
            let n = s.unicode_len();
            let q = skip_ws(s, p);
            if q < n && s.get_char(q) == ':' {
                let r = skip_ws(s, q + 1);
                match scan_value(s, r) {
                    None => None,
                    Some(e) => {
                        let mut acc2 = acc;
                        acc2.push((k, r, e));
                        proof {
                            assert(members_view(acc2@) =~= members_view(acc@).push(
                                (k@, r as int, e as int),
                            ));
                        }
                        let t = skip_ws(s, e);
                        if t < n && s.get_char(t) == '}' {
                            Some((acc2, t + 1))
                        } else if t < n && s.get_char(t) == ',' {
                            parse_members(s, t + 1, acc2, fuel - 1)
                        } else {
                            None
                        }
                    },
                }
            } else {
                None
            }
        },
    }
}

/// See [`spec_parse_object`].
pub fn parse_object(s: &str, i: usize, fuel: usize) -> (r: Option<
    (Vec<(String, usize, usize)>, usize),
>)
    requires
        i <= s@.len(),
    ensures
        match r {
            Some((ms, e)) => spec_parse_object(s@, i as int, fuel as nat) == Some(
                (members_view(ms@), e as int),
            ) && e <= s@.len() && forall|t: int|
                0 <= t < ms@.len() ==> (#[trigger] ms@[t]).1 <= ms@[t].2 <= s@.len(),
            None => spec_parse_object(s@, i as int, fuel as nat) is None,
        },
{
    let n = s.unicode_len();
    if i < n && s.get_char(i) == '{' {
        let j = skip_ws(s, i + 1);
        if j < n && s.get_char(j) == '}' {
            proof {
                assert(members_view(Seq::<(String, usize, usize)>::empty()) =~= Seq::empty());
            }
            Some((Vec::new(), j + 1))
        } else {
            proof {
                assert(members_view(Seq::<(String, usize, usize)>::empty()) =~= Seq::empty());
            }
            parse_members(s, i + 1, Vec::new(), fuel)
        }
    } else {
        None
    }
}

/// The raw extent of the first member named `k`.
pub open spec fn spec_find_member(ms: Seq<(Seq<char>, int, int)>, k: Seq<char>) -> Option<
    (int, int),
>
    decreases ms.len(),
{
    if ms.len() == 0 {
        None
    } else if ms[0].0 == k {
        Some((ms[0].1, ms[0].2))
    } else {
        spec_find_member(ms.drop_first(), k)
    }
}

/// Two members share a key.
pub open spec fn spec_dup_keys(ms: Seq<(Seq<char>, int, int)>) -> bool {
    exists|i: int, j: int| 0 <= i < j < ms.len() && ms[i].0 == ms[j].0
}

/// Character-wise string equality, giving the views' equality.
pub fn str_eq(a: &str, b: &str) -> (r: bool)
    ensures
        r == (a@ == b@),
{
    let n = a.unicode_len();
    if n != b.unicode_len() {
        proof {
            assert(a@ != b@);
        }
        return false;
    }
    let mut i: usize = 0;
    while i < n
        invariant
            n == a@.len() == b@.len(),
            0 <= i <= n,
            forall|t: int| 0 <= t < i ==> a@[t] == b@[t],
        decreases n - i,
    {
        if a.get_char(i) != b.get_char(i) {
            proof {
                assert(a@ != b@);
            }
            return false;
        }
        i += 1;
    }
    proof {
        assert(a@ =~= b@);
    }
    true
}

/// See [`spec_find_member`].
pub fn find_member(ms: &Vec<(String, usize, usize)>, k: &str) -> (r: Option<(usize, usize)>)
    ensures
        match r {
            Some((a, b)) => spec_find_member(members_view(ms@), k@) == Some((a as int, b as int))
                && exists|t: int| 0 <= t < ms@.len() && (#[trigger] ms@[t]).1 == a && ms@[t].2 == b,
            None => spec_find_member(members_view(ms@), k@) is None,
        },
{
    let mut i: usize = 0;
    proof {
        assert(members_view(ms@).skip(0) =~= members_view(ms@));
    }
    while i < ms.len()
        invariant
            0 <= i <= ms@.len(),
            spec_find_member(members_view(ms@), k@) == spec_find_member(
                members_view(ms@).skip(i as int),
                k@,
            ),
        decreases ms@.len() - i,
    {
        let ghost pre = members_view(ms@).skip(i as int);
        if str_eq(ms[i].0.as_str(), k) {
            proof {
                assert(pre[0] == members_view(ms@)[i as int]);
            }
            return Some((ms[i].1, ms[i].2));
        }
        proof {
            assert(pre[0] == members_view(ms@)[i as int]);
            assert(pre.drop_first() =~= members_view(ms@).skip(i + 1));
        }
        i += 1;
    }
    proof {
        assert(members_view(ms@).skip(i as int) =~= Seq::empty());
    }
    None
}

/// See [`spec_dup_keys`].
pub fn dup_keys(ms: &Vec<(String, usize, usize)>) -> (r: bool)
    ensures
        r == spec_dup_keys(members_view(ms@)),
{
    let mut i: usize = 0;
    while i < ms.len()
        invariant
            0 <= i <= ms@.len(),
            forall|p: int, q: int|
                0 <= p < q < ms@.len() && p < i ==> members_view(ms@)[p].0 != members_view(
                    ms@,
                )[q].0,
        decreases ms@.len() - i,
    {
        let mut j: usize = i + 1;
        while j < ms.len()
            invariant
                0 <= i < j <= ms@.len(),
                forall|q: int| i < q < j ==> members_view(ms@)[i as int].0 != members_view(ms@)[q].0,
            decreases ms@.len() - j,
        {
            if str_eq(ms[i].0.as_str(), ms[j].0.as_str()) {
                assert(members_view(ms@)[i as int].0 == members_view(ms@)[j as int].0);
                return true;
            }
            j += 1;
        }
        i += 1;
    }
    false
}

/// The value of a run of decimal digits filling `[a, b)` exactly; `None` on
/// an empty range, a non-digit, or overflow.
pub open spec fn spec_uint_rest(s: Seq<char>, i: int, b: int, acc: u64) -> Option<u64>
    decreases b - i,
{
    if i >= b {
        Some(acc)
    } else if 0 <= i < s.len() && 48 <= (s[i] as u32) <= 57 {
        let d = ((s[i] as u32) - 48) as u64;
        if acc <= (0xffff_ffff_ffff_ffffu64 - d) / 10 {
            spec_uint_rest(s, i + 1, b, (10 * acc + d) as u64)
        } else {
            None
        }
    } else {
        None
    }
}

pub open spec fn spec_parse_uint(s: Seq<char>, a: int, b: int) -> Option<u64> {
    if a < b <= s.len() {
        spec_uint_rest(s, a, b, 0)
    } else {
        None
    }
}

fn uint_rest(s: &str, i: usize, b: usize, acc: u64) -> (r: Option<u64>)
    requires
        b <= s@.len(),
    ensures
        r == spec_uint_rest(s@, i as int, b as int, acc),
    decreases b - i,
{
    if i >= b {
        return Some(acc);
    }
    let c = s.get_char(i);
    let u = c as u32;
    if 48 <= u && u <= 57 {
        let d = (u - 48) as u64;
        if acc <= (0xffff_ffff_ffff_ffffu64 - d) / 10 {
            uint_rest(s, i + 1, b, 10 * acc + d)
        } else {
            None
        }
    } else {
        None
    }
}

/// See [`spec_parse_uint`].
pub fn parse_uint(s: &str, a: usize, b: usize) -> (r: Option<u64>)
    requires
        b <= s@.len(),
    ensures
        r == spec_parse_uint(s@, a as int, b as int),
{
    if a < b {
        uint_rest(s, a, b, 0)
    } else {
        None
    }
}

} // verus!
