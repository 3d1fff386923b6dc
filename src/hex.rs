//! Payload bytes written on the command line as two-digit hexadecimal tokens.
use vstd::prelude::*;

use crate::error::ToolError;

verus! {

/// Whether `c` is a hexadecimal digit, in either case.
pub open spec fn is_hex_digit(c: char) -> bool {
    ('0' <= c && c <= '9') || ('a' <= c && c <= 'f') || ('A' <= c && c <= 'F')
}

/// The value of the hexadecimal digit `c`.
pub open spec fn hex_digit_value(c: char) -> int {
    if '0' <= c && c <= '9' {
        c as int - '0' as int
    } else if 'a' <= c && c <= 'f' {
        c as int - 'a' as int + 10
    } else {
        c as int - 'A' as int + 10
    }
}

/// Whether `t` is one byte in hexadecimal: exactly two hexadecimal digits.
pub open spec fn is_hex_byte_token(t: Seq<char>) -> bool {
    t.len() == 2 && is_hex_digit(t[0]) && is_hex_digit(t[1])
}

/// The byte that the token `t` writes, high digit first.
pub open spec fn hex_byte_value(t: Seq<char>) -> u8 {
    (16 * hex_digit_value(t[0]) + hex_digit_value(t[1])) as u8
}

/// The digits used when bytes are rendered, upper case.
pub open spec fn upper_digits() -> Seq<char> {
    seq!['0', '1', '2', '3', '4', '5', '6', '7', '8', '9', 'A', 'B', 'C', 'D', 'E', 'F']
}

/// The two-digit upper-case token of the byte `b`.
pub open spec fn hex_token_of(b: u8) -> Seq<char> {
    seq![upper_digits()[b as int / 16], upper_digits()[b as int % 16]]
}

/// Whether every token of `ts` is one byte in hexadecimal.
pub open spec fn all_hex_byte_tokens(ts: Seq<Seq<char>>) -> bool {
    forall|i: int| 0 <= i < ts.len() ==> #[trigger] is_hex_byte_token(ts[i])
}

/// The bytes that a sequence of valid tokens writes, in order.
pub open spec fn hex_bytes_of(ts: Seq<Seq<char>>) -> Seq<u8> {
    ts.map_values(|t: Seq<char>| hex_byte_value(t))
}

/// The tokens that render `bytes`, in order.
pub open spec fn hex_tokens_of(bytes: Seq<u8>) -> Seq<Seq<char>> {
    bytes.map_values(|b: u8| hex_token_of(b))
}

/// The views of a sequence of strings.
pub open spec fn string_views(v: Seq<String>) -> Seq<Seq<char>> {
    v.map_values(|s: String| s@)
}

/// Whether `e` reports the invalid payload token `t`.
pub open spec fn reports_invalid_hex_byte(e: ToolError, t: Seq<char>) -> bool {
    match e {
        ToolError::InvalidHexByte(s) => s@ == t,
        _ => false,
    }
}

/// Whether `k` is the index of the first token of `ts` that is not one byte
/// in hexadecimal.
pub open spec fn first_invalid_token(ts: Seq<Seq<char>>, k: int) -> bool {
    &&& 0 <= k < ts.len()
    &&& !is_hex_byte_token(ts[k])
    &&& forall|j: int| 0 <= j < k ==> #[trigger] is_hex_byte_token(ts[j])
}

/// Each rendering digit is a hexadecimal digit of its own position's value.
proof fn lemma_upper_digit(k: int)
    requires
        0 <= k < 16,
    ensures
        is_hex_digit(upper_digits()[k]),
        hex_digit_value(upper_digits()[k]) == k,
{
    let d = upper_digits();
    assert(d[0] == '0' && d[1] == '1' && d[2] == '2' && d[3] == '3');
    assert(d[4] == '4' && d[5] == '5' && d[6] == '6' && d[7] == '7');
    assert(d[8] == '8' && d[9] == '9' && d[10] == 'A' && d[11] == 'B');
    assert(d[12] == 'C' && d[13] == 'D' && d[14] == 'E' && d[15] == 'F');
}

/// Every byte renders as a token that reads back as that byte.
pub proof fn lemma_byte_token_round_trip(b: u8)
    ensures
        is_hex_byte_token(hex_token_of(b)),
        hex_byte_value(hex_token_of(b)) == b,
{
    lemma_upper_digit(b as int / 16);
    lemma_upper_digit(b as int % 16);
}

/// The value of the hexadecimal digit `c`, if it is one.
fn digit_value(c: char) -> (r: Option<u8>)
    ensures
        r == (if is_hex_digit(c) {
            Some(hex_digit_value(c) as u8)
        } else {
            None::<u8>
        }),
        r is Some ==> r->Some_0 < 16,
{
    if '0' <= c && c <= '9' {
        Some((c as u32 - '0' as u32) as u8)
    } else if 'a' <= c && c <= 'f' {
        Some((c as u32 - 'a' as u32 + 10) as u8)
    } else if 'A' <= c && c <= 'F' {
        Some((c as u32 - 'A' as u32 + 10) as u8)
    } else {
        None
    }
}

/// Reads one payload token: exactly two hexadecimal digits, in either case.
/// Any other token is refused with `InvalidHexByte`, which carries the token.
pub fn from_hex(src: &str) -> (r: Result<u8, ToolError>)
    ensures
        r is Ok <==> is_hex_byte_token(src@),
        r is Ok ==> r->Ok_0 == hex_byte_value(src@),
        r is Err ==> reports_invalid_hex_byte(r->Err_0, src@),
{
    let n = src.unicode_len();
    if n == 2 {
        let hi = digit_value(src.get_char(0));
        let lo = digit_value(src.get_char(1));
        match (hi, lo) {
            (Some(h), Some(l)) => {
                return Ok(16 * h + l);
            },
            _ => {},
        }
    }
    Err(ToolError::InvalidHexByte(String::from_str(src)))
}

/// Reads every payload token, in order. The first token that is not one byte
/// in hexadecimal is reported with `InvalidHexByte`.
pub fn parse_hex_tokens(tokens: &Vec<String>) -> (r: Result<Vec<u8>, ToolError>)
    ensures
        r is Ok <==> all_hex_byte_tokens(string_views(tokens@)),
        r is Ok ==> r->Ok_0@ == hex_bytes_of(string_views(tokens@)),
        r is Err ==> exists|k: int|
            first_invalid_token(string_views(tokens@), k) && reports_invalid_hex_byte(
                r->Err_0,
                string_views(tokens@)[k],
            ),
{
    let ghost ts = string_views(tokens@);
    let mut out: Vec<u8> = Vec::new();
    let mut i: usize = 0;
    while i < tokens.len()
        invariant
            ts == string_views(tokens@),
            0 <= i <= tokens.len(),
            out@ == hex_bytes_of(ts.subrange(0, i as int)),
            forall|j: int| 0 <= j < i ==> #[trigger] is_hex_byte_token(ts[j]),
        decreases tokens.len() - i,
    {
        match from_hex(tokens[i].as_str()) {
            Ok(b) => {
                out.push(b);
                assert(hex_bytes_of(ts.subrange(0, i + 1)) =~= hex_bytes_of(
                    ts.subrange(0, i as int),
                ).push(b));
            },
            Err(e) => {
                assert(first_invalid_token(ts, i as int));
                return Err(e);
            },
        }
        i = i + 1;
    }
    assert(ts.subrange(0, i as int) =~= ts);
    Ok(out)
}

/// Renders one byte as two upper-case hexadecimal digits.
pub fn hex_token(b: u8) -> (r: String)
    ensures
        r@ == hex_token_of(b),
{
    let digits = "0123456789ABCDEF";
    proof {
        reveal_strlit("0123456789ABCDEF");
        assert(digits@ =~= upper_digits());
    }
    let hi = (b / 16) as usize;
    let lo = (b % 16) as usize;
    let mut r = String::from_str(digits.substring_char(hi, hi + 1));
    r.append(digits.substring_char(lo, lo + 1));
    assert(r@ =~= hex_token_of(b));
    r
}

/// Renders bytes as upper-case hexadecimal tokens, one per byte, in order.
pub fn render_hex(bytes: &Vec<u8>) -> (r: Vec<String>)
    ensures
        string_views(r@) == hex_tokens_of(bytes@),
{
    let mut out: Vec<String> = Vec::new();
    let mut i: usize = 0;
    while i < bytes.len()
        invariant
            0 <= i <= bytes.len(),
            string_views(out@) == hex_tokens_of(bytes@.subrange(0, i as int)),
        decreases bytes.len() - i,
    {
        let t = hex_token(bytes[i]);
        proof {
            assert(string_views(out@.push(t)) =~= string_views(out@).push(t@));
            assert(hex_tokens_of(bytes@.subrange(0, i + 1)) =~= hex_tokens_of(
                bytes@.subrange(0, i as int),
            ).push(hex_token_of(bytes@[i as int])));
        }
        out.push(t);
        i = i + 1;
    }
    assert(bytes@.subrange(0, i as int) =~= bytes@);
    out
}

/// Rendering bytes as tokens and reading the tokens back gives the same bytes.
pub proof fn lemma_render_then_parse(bytes: Seq<u8>)
    ensures
        all_hex_byte_tokens(hex_tokens_of(bytes)),
        hex_bytes_of(hex_tokens_of(bytes)) == bytes,
{
    let ts = hex_tokens_of(bytes);
    assert forall|i: int| 0 <= i < ts.len() implies #[trigger] is_hex_byte_token(ts[i]) by {
        lemma_byte_token_round_trip(bytes[i]);
    }
    assert forall|i: int| 0 <= i < bytes.len() implies #[trigger] hex_bytes_of(ts)[i]
        == bytes[i] by {
        lemma_byte_token_round_trip(bytes[i]);
    }
    assert(hex_bytes_of(ts) =~= bytes);
}

/// For every sequence of valid payload tokens, reading them, rendering the
/// bytes as hexadecimal and reading the rendering again gives the same bytes.
pub proof fn lemma_hex_round_trip(tokens: Seq<Seq<char>>)
    requires
        all_hex_byte_tokens(tokens),
    ensures
        all_hex_byte_tokens(hex_tokens_of(hex_bytes_of(tokens))),
        hex_bytes_of(hex_tokens_of(hex_bytes_of(tokens))) == hex_bytes_of(tokens),
{
    lemma_render_then_parse(hex_bytes_of(tokens));
}

} // verus!
