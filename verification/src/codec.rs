//! The envelope wire format.
//!
//! An envelope is carried on the bus as a JSON object with a
//! `"type"` discriminant naming one of the four variants, the
//! string fields `id` and `msg_version`, the payload `msg` as an
//! array of byte values, and (on responses only) an `error` string.
//! The encoder always produces one canonical byte sequence per
//! envelope — fields in a fixed order, no whitespace, strings with
//! the quote, the backslash and the control characters escaped —
//! and the decoder accepts exactly the canonical frames, rejecting
//! unknown tags and malformed input.
//!
//! The whole format is specified by `spec_encode` and `spec_decode`
//! below, and the two are inverses on all four variants:
//! `lemma_decode_encode` proves that decoding an encoded envelope
//! gives the envelope back, and `lemma_encode_decode` proves that
//! re-encoding a decoded frame gives the frame back.
use vstd::prelude::*;
use vstd::utf8::*;

use crate::actor::{
    HollywoodMsg, HollywoodPublish, HollywoodRequest, HollywoodResponse, HollywoodSend, MsgView,
};

verus! {

pub const QUOTE: u8 = 0x22;
pub const BACKSLASH: u8 = 0x5c;
pub const COMMA: u8 = 0x2c;
pub const LBRACE: u8 = 0x7b;
pub const RBRACE: u8 = 0x7d;
pub const LBRACKET: u8 = 0x5b;
pub const RBRACKET: u8 = 0x5d;

/// The lower-case hex digit for a value below 16.
pub open spec fn spec_hex_digit(n: u8) -> u8 {
    if n < 10 {
        (0x30 + n) as u8  // '0' + n
    } else {
        (0x57 + n) as u8  // 'a' + (n - 10)
    }
}

/// How one byte of a string appears inside a JSON string: the quote
/// and the backslash are escaped, bytes below 0x20 become a
/// `\u00xx` escape, and every other byte stands for itself.
pub open spec fn esc_byte(b: u8) -> Seq<u8> {
    if b == QUOTE {
        seq![BACKSLASH, QUOTE]
    } else if b == BACKSLASH {
        seq![BACKSLASH, BACKSLASH]
    } else if b < 0x20 {
        seq![BACKSLASH, 0x75, 0x30, 0x30, spec_hex_digit(b / 16), spec_hex_digit(b % 16)]
    } else {
        seq![b]
    }
}

/// A whole byte string, escaped byte by byte.
pub open spec fn esc_bytes(s: Seq<u8>) -> Seq<u8>
    decreases s.len(),
{
    if s.len() == 0 {
        Seq::empty()
    } else {
        esc_byte(s[0]) + esc_bytes(s.drop_first())
    }
}

/// A JSON string: the UTF-8 bytes of the characters, escaped, in
/// quotes.
pub open spec fn enc_string(s: Seq<char>) -> Seq<u8> {
    seq![QUOTE] + esc_bytes(encode_utf8(s)) + seq![QUOTE]
}

/// The decimal digits of a byte value, without leading zeros.
pub open spec fn dec_digits(b: u8) -> Seq<u8> {
    if b < 10 {
        seq![(0x30 + b) as u8]
    } else if b < 100 {
        seq![(0x30 + b / 10) as u8, (0x30 + b % 10) as u8]
    } else {
        seq![(0x30 + b / 100) as u8, (0x30 + (b / 10) % 10) as u8, (0x30 + b % 10) as u8]
    }
}

/// The items of a JSON byte array: decimal values joined by commas.
pub open spec fn enc_array_items(s: Seq<u8>) -> Seq<u8>
    decreases s.len(),
{
    if s.len() == 0 {
        Seq::empty()
    } else if s.len() == 1 {
        dec_digits(s[0])
    } else {
        dec_digits(s[0]) + seq![COMMA] + enc_array_items(s.drop_first())
    }
}

/// A JSON byte array in brackets.
pub open spec fn enc_array(s: Seq<u8>) -> Seq<u8> {
    seq![LBRACKET] + enc_array_items(s) + seq![RBRACKET]
}

/// `null`.
pub open spec fn lit_null() -> Seq<u8> {
    seq![0x6e, 0x75, 0x6c, 0x6c]
}

/// An optional string: `null` when absent.
pub open spec fn enc_opt_string(o: Option<Seq<char>>) -> Seq<u8> {
    match o {
        None => lit_null(),
        Some(s) => enc_string(s),
    }
}

/// An optional byte array: `null` when absent.
pub open spec fn enc_opt_array(o: Option<Seq<u8>>) -> Seq<u8> {
    match o {
        None => lit_null(),
        Some(s) => enc_array(s),
    }
}

/// `{"type":"`
pub open spec fn lit_head() -> Seq<u8> {
    seq![LBRACE, QUOTE, 0x74, 0x79, 0x70, 0x65, QUOTE, 0x3a, QUOTE]
}

/// `Request`
pub open spec fn tag_request() -> Seq<u8> {
    seq![0x52, 0x65, 0x71, 0x75, 0x65, 0x73, 0x74]
}

/// `Response`
pub open spec fn tag_response() -> Seq<u8> {
    seq![0x52, 0x65, 0x73, 0x70, 0x6f, 0x6e, 0x73, 0x65]
}

/// `Send`
pub open spec fn tag_send() -> Seq<u8> {
    seq![0x53, 0x65, 0x6e, 0x64]
}

/// `Publish`
pub open spec fn tag_publish() -> Seq<u8> {
    seq![0x50, 0x75, 0x62, 0x6c, 0x69, 0x73, 0x68]
}

/// `","id":` — closes the tag string and names the id field.
pub open spec fn lit_quote_id() -> Seq<u8> {
    seq![QUOTE, COMMA, QUOTE, 0x69, 0x64, QUOTE, 0x3a]
}

/// `","error":` — closes the tag string and names the error field.
pub open spec fn lit_quote_error() -> Seq<u8> {
    seq![QUOTE, COMMA, QUOTE, 0x65, 0x72, 0x72, 0x6f, 0x72, QUOTE, 0x3a]
}

/// `,"id":`
pub open spec fn lit_comma_id() -> Seq<u8> {
    seq![COMMA, QUOTE, 0x69, 0x64, QUOTE, 0x3a]
}

/// `,"msg":`
pub open spec fn lit_msg() -> Seq<u8> {
    seq![COMMA, QUOTE, 0x6d, 0x73, 0x67, QUOTE, 0x3a]
}

/// `,"msg_version":`
pub open spec fn lit_msg_version() -> Seq<u8> {
    seq![
        COMMA,
        QUOTE,
        0x6d,
        0x73,
        0x67,
        0x5f,
        0x76,
        0x65,
        0x72,
        0x73,
        0x69,
        0x6f,
        0x6e,
        QUOTE,
        0x3a,
    ]
}

/// The canonical byte sequence for an envelope.
pub open spec fn spec_encode(m: MsgView) -> Seq<u8> {
    match m {
        MsgView::Request { id, msg, msg_version } => lit_head() + tag_request() + lit_quote_id()
            + enc_string(id) + lit_msg() + enc_array(msg) + lit_msg_version() + enc_string(
            msg_version,
        ) + seq![RBRACE],
        MsgView::Response { error, id, msg, msg_version } => lit_head() + tag_response()
            + lit_quote_error() + enc_opt_string(error) + lit_comma_id() + enc_string(id)
            + lit_msg() + enc_opt_array(msg) + lit_msg_version() + enc_string(msg_version)
            + seq![RBRACE],
        MsgView::Send { id, msg, msg_version } => lit_head() + tag_send() + lit_quote_id()
            + enc_string(id) + lit_msg() + enc_array(msg) + lit_msg_version() + enc_string(
            msg_version,
        ) + seq![RBRACE],
        MsgView::Publish { id, msg, msg_version } => lit_head() + tag_publish() + lit_quote_id()
            + enc_string(id) + lit_msg() + enc_array(msg) + lit_msg_version() + enc_string(
            msg_version,
        ) + seq![RBRACE],
    }
}

} // verus!

verus! {

/// True for the bytes `0`-`9`.
pub open spec fn is_digit(b: u8) -> bool {
    0x30 <= b <= 0x39
}

/// The value of a decimal digit byte.
pub open spec fn digit_val(b: u8) -> u8 {
    (b - 0x30) as u8
}

/// True for a lower-case hex digit byte.
pub open spec fn is_hex_digit(b: u8) -> bool {
    is_digit(b) || (0x61 <= b <= 0x66)
}

/// The value of a lower-case hex digit byte.
pub open spec fn hex_val(b: u8) -> u8 {
    if is_digit(b) {
        (b - 0x30) as u8
    } else {
        (b - 0x57) as u8
    }
}

/// Consumes an exact literal from the front of the input, returning
/// the rest.
pub open spec fn p_lit(s: Seq<u8>, lit: Seq<u8>) -> Option<Seq<u8>> {
    if lit.len() <= s.len() && s.take(lit.len() as int) == lit {
        Some(s.skip(lit.len() as int))
    } else {
        None
    }
}

/// Consumes the contents of a JSON string up to and including its
/// closing quote, returning the unescaped bytes and the rest of the
/// input.
pub open spec fn p_str_contents(s: Seq<u8>) -> Option<(Seq<u8>, Seq<u8>)>
    decreases s.len(),
{
    if s.len() == 0 {
        None
    } else if s[0] == QUOTE {
        Some((Seq::empty(), s.drop_first()))
    } else if s[0] == BACKSLASH {
        if s.len() >= 2 && (s[1] == QUOTE || s[1] == BACKSLASH) {
            match p_str_contents(s.skip(2)) {
                Some(p) => Some((seq![s[1]] + p.0, p.1)),
                None => None,
            }
        } else if s.len() >= 6 && s[1] == 0x75 && s[2] == 0x30 && s[3] == 0x30 && is_hex_digit(
            s[4],
        ) && is_hex_digit(s[5]) && hex_val(s[4]) * 16 + hex_val(s[5]) < 0x20 {
            match p_str_contents(s.skip(6)) {
                Some(p) => Some((seq![(hex_val(s[4]) * 16 + hex_val(s[5])) as u8] + p.0, p.1)),
                None => None,
            }
        } else {
            None
        }
    } else if s[0] < 0x20 {
        None
    } else {
        match p_str_contents(s.drop_first()) {
            Some(p) => Some((seq![s[0]] + p.0, p.1)),
            None => None,
        }
    }
}

/// Consumes a whole JSON string, quotes included.
pub open spec fn p_string(s: Seq<u8>) -> Option<(Seq<u8>, Seq<u8>)> {
    if s.len() >= 1 && s[0] == QUOTE {
        p_str_contents(s.drop_first())
    } else {
        None
    }
}

/// Consumes one decimal byte value: one to three digits, no leading
/// zeros, at most 255, not followed by a further digit.
pub open spec fn p_u8(s: Seq<u8>) -> Option<(u8, Seq<u8>)> {
    if s.len() >= 1 && is_digit(s[0]) {
        if s[0] == 0x30 {
            Some((0, s.skip(1)))
        } else if s.len() >= 2 && is_digit(s[1]) {
            if s.len() >= 3 && is_digit(s[2]) {
                if !(s.len() >= 4 && is_digit(s[3])) && digit_val(s[0]) * 100 + digit_val(s[1])
                    * 10 + digit_val(s[2]) <= 255 {
                    Some(
                        (
                            (digit_val(s[0]) * 100 + digit_val(s[1]) * 10 + digit_val(s[2])) as u8,
                            s.skip(3),
                        ),
                    )
                } else {
                    None
                }
            } else {
                Some(((digit_val(s[0]) * 10 + digit_val(s[1])) as u8, s.skip(2)))
            }
        } else {
            Some((digit_val(s[0]), s.skip(1)))
        }
    } else {
        None
    }
}

/// Consumes the items of a non-empty byte array up to and including
/// the closing bracket.
pub open spec fn p_items(s: Seq<u8>) -> Option<(Seq<u8>, Seq<u8>)>
    decreases s.len(),
{
    match p_u8(s) {
        Some(p) => {
            let b = p.0;
            let r = p.1;
            if r.len() >= 1 && r[0] == RBRACKET {
                Some((seq![b], r.drop_first()))
            } else if r.len() >= 1 && r[0] == COMMA && r.len() < s.len() {
                match p_items(r.drop_first()) {
                    Some(q) => Some((seq![b] + q.0, q.1)),
                    None => None,
                }
            } else {
                None
            }
        },
        None => None,
    }
}

/// Consumes a whole JSON byte array, brackets included.
pub open spec fn p_array(s: Seq<u8>) -> Option<(Seq<u8>, Seq<u8>)> {
    if s.len() >= 2 && s[0] == LBRACKET && s[1] == RBRACKET {
        Some((Seq::empty(), s.skip(2)))
    } else if s.len() >= 1 && s[0] == LBRACKET {
        p_items(s.drop_first())
    } else {
        None
    }
}

/// Consumes `null` or a JSON string.
pub open spec fn p_opt_string(s: Seq<u8>) -> Option<(Option<Seq<u8>>, Seq<u8>)> {
    match p_lit(s, lit_null()) {
        Some(r) => Some((None, r)),
        None => match p_string(s) {
            Some(p) => Some((Some(p.0), p.1)),
            None => None,
        },
    }
}

/// Consumes `null` or a JSON byte array.
pub open spec fn p_opt_array(s: Seq<u8>) -> Option<(Option<Seq<u8>>, Seq<u8>)> {
    match p_lit(s, lit_null()) {
        Some(r) => Some((None, r)),
        None => match p_array(s) {
            Some(p) => Some((Some(p.0), p.1)),
            None => None,
        },
    }
}

/// An envelope as it stands on the wire, before its strings are
/// decoded from UTF-8.
#[verifier::ext_equal]
pub enum WireMsg {
    Request { id: Seq<u8>, msg: Seq<u8>, msg_version: Seq<u8> },
    Response { error: Option<Seq<u8>>, id: Seq<u8>, msg: Option<Seq<u8>>, msg_version: Seq<u8> },
    Send { id: Seq<u8>, msg: Seq<u8>, msg_version: Seq<u8> },
    Publish { id: Seq<u8>, msg: Seq<u8>, msg_version: Seq<u8> },
}

/// Consumes `,"msg_version":"…"}` and the end of the input: the
/// common tail of all four variants.
pub open spec fn p_tail(s: Seq<u8>) -> Option<Seq<u8>> {
    match p_lit(s, lit_msg_version()) {
        Some(r) => match p_string(r) {
            Some(p) => {
                if p.1 =~= seq![RBRACE] {
                    Some(p.0)
                } else {
                    None
                }
            },
            None => None,
        },
        None => None,
    }
}

/// Parses the fields of a request, send or publish after its tag:
/// `","id":"…","msg":[…],"msg_version":"…"}`.
pub open spec fn p_common_fields(s: Seq<u8>) -> Option<(Seq<u8>, Seq<u8>, Seq<u8>)> {
    match p_lit(s, lit_quote_id()) {
        Some(r1) => match p_string(r1) {
            Some(pid) => match p_lit(pid.1, lit_msg()) {
                Some(r2) => match p_array(r2) {
                    Some(pmsg) => match p_tail(pmsg.1) {
                        Some(ver) => Some((pid.0, pmsg.0, ver)),
                        None => None,
                    },
                    None => None,
                },
                None => None,
            },
            None => None,
        },
        None => None,
    }
}

/// Parses the fields of a response after its tag:
/// `","error":…,"id":"…","msg":…,"msg_version":"…"}`.
pub open spec fn p_response_fields(s: Seq<u8>) -> Option<
    (Option<Seq<u8>>, Seq<u8>, Option<Seq<u8>>, Seq<u8>),
> {
    match p_lit(s, lit_quote_error()) {
        Some(r1) => match p_opt_string(r1) {
            Some(perr) => match p_lit(perr.1, lit_comma_id()) {
                Some(r2) => match p_string(r2) {
                    Some(pid) => match p_lit(pid.1, lit_msg()) {
                        Some(r3) => match p_opt_array(r3) {
                            Some(pmsg) => match p_tail(pmsg.1) {
                                Some(ver) => Some((perr.0, pid.0, pmsg.0, ver)),
                                None => None,
                            },
                            None => None,
                        },
                        None => None,
                    },
                    None => None,
                },
                None => None,
            },
            None => None,
        },
        None => None,
    }
}

/// Parses a whole canonical frame into a wire envelope. The frame
/// must be consumed in full.
pub open spec fn p_envelope(s: Seq<u8>) -> Option<WireMsg> {
    match p_lit(s, lit_head()) {
        Some(r) => {
            if p_lit(r, tag_request()) is Some {
                match p_common_fields(p_lit(r, tag_request())->Some_0) {
                    Some(f) => Some(WireMsg::Request { id: f.0, msg: f.1, msg_version: f.2 }),
                    None => None,
                }
            } else if p_lit(r, tag_response()) is Some {
                match p_response_fields(p_lit(r, tag_response())->Some_0) {
                    Some(f) => Some(
                        WireMsg::Response { error: f.0, id: f.1, msg: f.2, msg_version: f.3 },
                    ),
                    None => None,
                }
            } else if p_lit(r, tag_send()) is Some {
                match p_common_fields(p_lit(r, tag_send())->Some_0) {
                    Some(f) => Some(WireMsg::Send { id: f.0, msg: f.1, msg_version: f.2 }),
                    None => None,
                }
            } else if p_lit(r, tag_publish()) is Some {
                match p_common_fields(p_lit(r, tag_publish())->Some_0) {
                    Some(f) => Some(WireMsg::Publish { id: f.0, msg: f.1, msg_version: f.2 }),
                    None => None,
                }
            } else {
                None
            }
        },
        None => None,
    }
}

/// True when every string field of a wire envelope is valid UTF-8.
pub open spec fn wire_strings_valid(w: WireMsg) -> bool {
    match w {
        WireMsg::Request { id, msg, msg_version } => valid_utf8(id) && valid_utf8(msg_version),
        WireMsg::Response { error, id, msg, msg_version } => valid_utf8(id) && valid_utf8(
            msg_version,
        ) && (error matches Some(e) ==> valid_utf8(e)),
        WireMsg::Send { id, msg, msg_version } => valid_utf8(id) && valid_utf8(msg_version),
        WireMsg::Publish { id, msg, msg_version } => valid_utf8(id) && valid_utf8(msg_version),
    }
}

/// The envelope a wire envelope stands for, its strings decoded
/// from UTF-8.
pub open spec fn wire_to_view(w: WireMsg) -> MsgView {
    match w {
        WireMsg::Request { id, msg, msg_version } => MsgView::Request {
            id: decode_utf8(id),
            msg: msg,
            msg_version: decode_utf8(msg_version),
        },
        WireMsg::Response { error, id, msg, msg_version } => MsgView::Response {
            error: match error {
                Some(e) => Some(decode_utf8(e)),
                None => None,
            },
            id: decode_utf8(id),
            msg: msg,
            msg_version: decode_utf8(msg_version),
        },
        WireMsg::Send { id, msg, msg_version } => MsgView::Send {
            id: decode_utf8(id),
            msg: msg,
            msg_version: decode_utf8(msg_version),
        },
        WireMsg::Publish { id, msg, msg_version } => MsgView::Publish {
            id: decode_utf8(id),
            msg: msg,
            msg_version: decode_utf8(msg_version),
        },
    }
}

/// What a byte sequence decodes to: the envelope of the canonical
/// frame it spells, or nothing when it is not a canonical frame.
pub open spec fn spec_decode(s: Seq<u8>) -> Option<MsgView> {
    match p_envelope(s) {
        Some(w) => {
            if wire_strings_valid(w) {
                Some(wire_to_view(w))
            } else {
                None
            }
        },
        None => None,
    }
}

} // verus!

verus! {

/// The lower-case hex digit for a value below 16.
fn hex_digit(n: u8) -> (r: u8)
    requires
        n < 16,
    ensures
        r == spec_hex_digit(n),
{
    if n < 10 {
        0x30 + n
    } else {
        0x57 + n
    }
}

/// Appends the escaped form of one string byte.
fn push_esc_byte(out: &mut Vec<u8>, b: u8)
    ensures
        final(out)@ == old(out)@ + esc_byte(b),
{
    if b == QUOTE {
        out.push(BACKSLASH);
        out.push(QUOTE);
    } else if b == BACKSLASH {
        out.push(BACKSLASH);
        out.push(BACKSLASH);
    } else if b < 0x20 {
        out.push(BACKSLASH);
        out.push(0x75);
        out.push(0x30);
        out.push(0x30);
        out.push(hex_digit(b / 16));
        out.push(hex_digit(b % 16));
    } else {
        out.push(b);
    }
    assert(out@ =~= old(out)@ + esc_byte(b));
}

/// Appends the escaped form of a byte string, from position `i` on.
fn push_esc_bytes(out: &mut Vec<u8>, s: &[u8], i: usize)
    requires
        i <= s@.len(),
    ensures
        final(out)@ == old(out)@ + esc_bytes(s@.skip(i as int)),
    decreases s@.len() - i,
{
    if i < s.len() {
        push_esc_byte(out, s[i]);
        push_esc_bytes(out, s, i + 1);
        proof {
            assert(s@.skip(i as int).drop_first() =~= s@.skip(i + 1 as int));
            assert(out@ =~= old(out)@ + esc_bytes(s@.skip(i as int)));
        }
    } else {
        assert(out@ =~= old(out)@ + esc_bytes(s@.skip(i as int)));
    }
}

/// Appends a JSON string: the escaped UTF-8 bytes of `s` in quotes.
fn push_string(out: &mut Vec<u8>, s: &String)
    ensures
        final(out)@ == old(out)@ + enc_string(s@),
{
    out.push(QUOTE);
    let bytes = s.as_str().as_bytes();
    push_esc_bytes(out, bytes, 0);
    out.push(QUOTE);
    proof {
        assert(bytes@.skip(0) =~= bytes@);
        assert(out@ =~= old(out)@ + enc_string(s@));
    }
}

/// Appends the decimal digits of one byte value.
fn push_digits(out: &mut Vec<u8>, b: u8)
    ensures
        final(out)@ == old(out)@ + dec_digits(b),
{
    if b < 10 {
        out.push(0x30 + b);
    } else if b < 100 {
        out.push(0x30 + b / 10);
        out.push(0x30 + b % 10);
    } else {
        out.push(0x30 + b / 100);
        out.push(0x30 + (b / 10) % 10);
        out.push(0x30 + b % 10);
    }
    assert(out@ =~= old(out)@ + dec_digits(b));
}

/// Appends the comma-separated items of a byte array, from
/// position `i` on.
fn push_array_items(out: &mut Vec<u8>, s: &[u8], i: usize)
    requires
        i <= s@.len(),
    ensures
        final(out)@ == old(out)@ + enc_array_items(s@.skip(i as int)),
    decreases s@.len() - i,
{
    if i < s.len() {
        push_digits(out, s[i]);
        if i + 1 < s.len() {
            out.push(COMMA);
            push_array_items(out, s, i + 1);
        }
        proof {
            assert(s@.skip(i as int).drop_first() =~= s@.skip(i + 1 as int));
            assert(out@ =~= old(out)@ + enc_array_items(s@.skip(i as int)));
        }
    } else {
        assert(out@ =~= old(out)@ + enc_array_items(s@.skip(i as int)));
    }
}

/// Appends a whole JSON byte array, brackets included.
fn push_array(out: &mut Vec<u8>, s: &[u8])
    ensures
        final(out)@ == old(out)@ + enc_array(s@),
{
    out.push(LBRACKET);
    push_array_items(out, s, 0);
    out.push(RBRACKET);
    proof {
        assert(s@.skip(0) =~= s@);
        assert(out@ =~= old(out)@ + enc_array(s@));
    }
}

/// Appends `null`.
fn push_null(out: &mut Vec<u8>)
    ensures
        final(out)@ == old(out)@ + lit_null(),
{
    out.push(0x6e);
    out.push(0x75);
    out.push(0x6c);
    out.push(0x6c);
    assert(out@ =~= old(out)@ + lit_null());
}

/// Appends `{"type":"`.
fn push_head(out: &mut Vec<u8>)
    ensures
        final(out)@ == old(out)@ + lit_head(),
{
    out.push(LBRACE);
    out.push(QUOTE);
    out.push(0x74);
    out.push(0x79);
    out.push(0x70);
    out.push(0x65);
    out.push(QUOTE);
    out.push(0x3a);
    out.push(QUOTE);
    assert(out@ =~= old(out)@ + lit_head());
}

/// Appends `","id":`.
fn push_quote_id(out: &mut Vec<u8>)
    ensures
        final(out)@ == old(out)@ + lit_quote_id(),
{
    out.push(QUOTE);
    out.push(COMMA);
    out.push(QUOTE);
    out.push(0x69);
    out.push(0x64);
    out.push(QUOTE);
    out.push(0x3a);
    assert(out@ =~= old(out)@ + lit_quote_id());
}

/// Appends `","error":`.
fn push_quote_error(out: &mut Vec<u8>)
    ensures
        final(out)@ == old(out)@ + lit_quote_error(),
{
    out.push(QUOTE);
    out.push(COMMA);
    out.push(QUOTE);
    out.push(0x65);
    out.push(0x72);
    out.push(0x72);
    out.push(0x6f);
    out.push(0x72);
    out.push(QUOTE);
    out.push(0x3a);
    assert(out@ =~= old(out)@ + lit_quote_error());
}

/// Appends `,"id":`.
fn push_comma_id(out: &mut Vec<u8>)
    ensures
        final(out)@ == old(out)@ + lit_comma_id(),
{
    out.push(COMMA);
    out.push(QUOTE);
    out.push(0x69);
    out.push(0x64);
    out.push(QUOTE);
    out.push(0x3a);
    assert(out@ =~= old(out)@ + lit_comma_id());
}

/// Appends `,"msg":`.
fn push_msg(out: &mut Vec<u8>)
    ensures
        final(out)@ == old(out)@ + lit_msg(),
{
    out.push(COMMA);
    out.push(QUOTE);
    out.push(0x6d);
    out.push(0x73);
    out.push(0x67);
    out.push(QUOTE);
    out.push(0x3a);
    assert(out@ =~= old(out)@ + lit_msg());
}

/// Appends `,"msg_version":`.
fn push_msg_version(out: &mut Vec<u8>)
    ensures
        final(out)@ == old(out)@ + lit_msg_version(),
{
    out.push(COMMA);
    out.push(QUOTE);
    out.push(0x6d);
    out.push(0x73);
    out.push(0x67);
    out.push(0x5f);
    out.push(0x76);
    out.push(0x65);
    out.push(0x72);
    out.push(0x73);
    out.push(0x69);
    out.push(0x6f);
    out.push(0x6e);
    out.push(QUOTE);
    out.push(0x3a);
    assert(out@ =~= old(out)@ + lit_msg_version());
}

/// Appends a request, send or publish tag name.
fn push_tag(out: &mut Vec<u8>, m: &HollywoodMsg)
    ensures
        final(out)@ == old(out)@ + match m@ {
            MsgView::Request { .. } => tag_request(),
            MsgView::Response { .. } => tag_response(),
            MsgView::Send { .. } => tag_send(),
            MsgView::Publish { .. } => tag_publish(),
        },
{
    match m {
        HollywoodMsg::Request(_) => {
            out.push(0x52);
            out.push(0x65);
            out.push(0x71);
            out.push(0x75);
            out.push(0x65);
            out.push(0x73);
            out.push(0x74);
            assert(out@ =~= old(out)@ + tag_request());
        },
        HollywoodMsg::Response(_) => {
            out.push(0x52);
            out.push(0x65);
            out.push(0x73);
            out.push(0x70);
            out.push(0x6f);
            out.push(0x6e);
            out.push(0x73);
            out.push(0x65);
            assert(out@ =~= old(out)@ + tag_response());
        },
        HollywoodMsg::Send(_) => {
            out.push(0x53);
            out.push(0x65);
            out.push(0x6e);
            out.push(0x64);
            assert(out@ =~= old(out)@ + tag_send());
        },
        HollywoodMsg::Publish(_) => {
            out.push(0x50);
            out.push(0x75);
            out.push(0x62);
            out.push(0x6c);
            out.push(0x69);
            out.push(0x73);
            out.push(0x68);
            assert(out@ =~= old(out)@ + tag_publish());
        },
    }
}

/// Encodes an envelope as its canonical wire frame.
pub fn encode_msg(m: &HollywoodMsg) -> (r: Vec<u8>)
    ensures
        r@ == spec_encode(m@),
{
    let mut out: Vec<u8> = Vec::new();
    push_head(&mut out);
    push_tag(&mut out, m);
    match m {
        HollywoodMsg::Request(req) => {
            push_quote_id(&mut out);
            push_string(&mut out, &req.id);
            push_msg(&mut out);
            push_array(&mut out, req.msg.as_slice());
            push_msg_version(&mut out);
            push_string(&mut out, &req.msg_version);
            out.push(RBRACE);
        },
        HollywoodMsg::Response(resp) => {
            push_quote_error(&mut out);
            match &resp.error {
                Some(e) => push_string(&mut out, e),
                None => push_null(&mut out),
            }
            push_comma_id(&mut out);
            push_string(&mut out, &resp.id);
            push_msg(&mut out);
            match &resp.msg {
                Some(bytes) => push_array(&mut out, bytes.as_slice()),
                None => push_null(&mut out),
            }
            push_msg_version(&mut out);
            push_string(&mut out, &resp.msg_version);
            out.push(RBRACE);
        },
        HollywoodMsg::Send(send) => {
            push_quote_id(&mut out);
            push_string(&mut out, &send.id);
            push_msg(&mut out);
            push_array(&mut out, send.msg.as_slice());
            push_msg_version(&mut out);
            push_string(&mut out, &send.msg_version);
            out.push(RBRACE);
        },
        HollywoodMsg::Publish(publish) => {
            push_quote_id(&mut out);
            push_string(&mut out, &publish.id);
            push_msg(&mut out);
            push_array(&mut out, publish.msg.as_slice());
            push_msg_version(&mut out);
            push_string(&mut out, &publish.msg_version);
            out.push(RBRACE);
        },
    }
    assert(out@ =~= spec_encode(m@));
    out
}

impl HollywoodMsg {
    /// The canonical wire frame of this envelope.
    pub fn into_bytes(&self) -> (r: Vec<u8>)
        ensures
            r@ == spec_encode(self@),
    {
        encode_msg(self)
    }
}

} // verus!

verus! {

/// Relies on `String::from_utf8`: it returns a string exactly when
/// the bytes are valid UTF-8, and the returned string's UTF-8
/// encoding is the input.
#[verifier::external_body]
fn string_from_utf8(v: Vec<u8>) -> (r: Option<String>)
    ensures
        match r {
            Some(s) => encode_utf8(s@) == v@,
            None => !valid_utf8(v@),
        },
{
    match String::from_utf8(v) {
        Ok(s) => Some(s),
        Err(_) => None,
    }
}

/// Matches an exact literal at position `i` of the input.
fn pe_lit(s: &[u8], i: usize, lit: &[u8]) -> (r: Option<usize>)
    requires
        i <= s@.len(),
    ensures
        match r {
            Some(j) => i <= j <= s@.len() && j == i + lit@.len() && p_lit(
                s@.skip(i as int),
                lit@,
            ) == Some(s@.skip(j as int)),
            None => p_lit(s@.skip(i as int), lit@) is None,
        },
{
    if s.len() - i < lit.len() {
        return None;
    }
    let mut k: usize = 0;
    while k < lit.len()
        invariant
            i <= s@.len(),
            s@.len() <= usize::MAX,
            lit@.len() <= s@.len() - i,
            k <= lit@.len(),
            forall|t: int| 0 <= t < k ==> s@[i + t] == lit@[t],
        decreases lit@.len() - k,
    {
        if s[i + k] != lit[k] {
            proof {
                let probe = s@.skip(i as int).take(lit@.len() as int);
                assert(probe[k as int] == s@[i + k]);
                assert(probe != lit@);
            }
            return None;
        }
        k += 1;
    }
    proof {
        assert(s@.skip(i as int).take(lit@.len() as int) =~= lit@);
        assert(s@.skip(i as int).skip(lit@.len() as int) =~= s@.skip(i + lit@.len()));
    }
    Some(i + lit.len())
}

/// The value of a lower-case hex digit byte.
fn hex_val_of(b: u8) -> (r: u8)
    requires
        is_hex_digit(b),
    ensures
        r == hex_val(b),
{
    if b <= 0x39 {
        b - 0x30
    } else {
        b - 0x57
    }
}

/// Unescapes the contents of a JSON string at position `i`, up to
/// and including the closing quote, appending the bytes to `out`.
/// Returns the position after the closing quote.
fn pe_str_contents(s: &[u8], i: usize, out: &mut Vec<u8>) -> (r: Option<usize>)
    requires
        i <= s@.len(),
    ensures
        match r {
            Some(j) => i < j <= s@.len() && (p_str_contents(s@.skip(i as int)) matches Some(p)
                && final(out)@ == old(out)@ + p.0 && p.1 == s@.skip(j as int)),
            None => p_str_contents(s@.skip(i as int)) is None,
        },
    decreases s@.len() - i,
{
    let ghost orig = s@.skip(i as int);
    if i == s.len() {
        return None;
    }
    let b = s[i];
    proof {
        assert(orig[0] == b);
    }
    if b == QUOTE {
        proof {
            assert(orig.drop_first() =~= s@.skip(i + 1));
            assert(out@ =~= out@ + Seq::<u8>::empty());
        }
        Some(i + 1)
    } else if b == BACKSLASH {
        if s.len() - i >= 2 && (s[i + 1] == QUOTE || s[i + 1] == BACKSLASH) {
            proof {
                assert(orig[1] == s@[i + 1]);
            }
            out.push(s[i + 1]);
            let res = pe_str_contents(s, i + 2, out);
            proof {
                assert(orig.skip(2) =~= s@.skip(i + 2));
            }
            match res {
                Some(j) => {
                    proof {
                        let p = p_str_contents(s@.skip(i + 2))->Some_0;
                        assert(out@ =~= old(out)@ + (seq![s@[i + 1]] + p.0));
                    }
                    Some(j)
                },
                None => None,
            }
        } else if s.len() - i >= 6 && s[i + 1] == 0x75 && s[i + 2] == 0x30 && s[i + 3] == 0x30
            && (s[i + 4] <= 0x39 && s[i + 4] >= 0x30 || s[i + 4] >= 0x61 && s[i + 4] <= 0x66) && (
        s[i + 5] <= 0x39 && s[i + 5] >= 0x30 || s[i + 5] >= 0x61 && s[i + 5] <= 0x66) && hex_val_of(
            s[i + 4],
        ) * 16 + hex_val_of(s[i + 5]) < 0x20 {
            proof {
                assert(orig[1] == s@[i + 1]);
                assert(orig[2] == s@[i + 2]);
                assert(orig[3] == s@[i + 3]);
                assert(orig[4] == s@[i + 4]);
                assert(orig[5] == s@[i + 5]);
            }
            let c = hex_val_of(s[i + 4]) * 16 + hex_val_of(s[i + 5]);
            out.push(c);
            let res = pe_str_contents(s, i + 6, out);
            proof {
                assert(orig.skip(6) =~= s@.skip(i + 6));
            }
            match res {
                Some(j) => {
                    proof {
                        let p = p_str_contents(s@.skip(i + 6))->Some_0;
                        assert(out@ =~= old(out)@ + (seq![c] + p.0));
                    }
                    Some(j)
                },
                None => None,
            }
        } else {
            proof {
                if s@.len() - i >= 2 {
                    assert(orig[1] == s@[i + 1]);
                }
                if s@.len() - i >= 6 {
                    assert(orig[2] == s@[i + 2]);
                    assert(orig[3] == s@[i + 3]);
                    assert(orig[4] == s@[i + 4]);
                    assert(orig[5] == s@[i + 5]);
                }
            }
            None
        }
    } else if b < 0x20 {
        None
    } else {
        out.push(b);
        let res = pe_str_contents(s, i + 1, out);
        proof {
            assert(orig.drop_first() =~= s@.skip(i + 1));
        }
        match res {
            Some(j) => {
                proof {
                    let p = p_str_contents(s@.skip(i + 1))->Some_0;
                    assert(out@ =~= old(out)@ + (seq![b] + p.0));
                }
                Some(j)
            },
            None => None,
        }
    }
}

/// Parses a JSON string at position `i`, quotes included, returning
/// its unescaped bytes and the position after it.
fn pe_string(s: &[u8], i: usize) -> (r: Option<(Vec<u8>, usize)>)
    requires
        i <= s@.len(),
    ensures
        match r {
            Some((v, j)) => i < j <= s@.len() && (p_string(s@.skip(i as int)) matches Some(p) && p.0
                == v@ && p.1 == s@.skip(j as int)),
            None => p_string(s@.skip(i as int)) is None,
        },
{
    if i < s.len() && s[i] == QUOTE {
        proof {
            assert(s@.skip(i as int)[0] == s@[i as int]);
            assert(s@.skip(i as int).drop_first() =~= s@.skip(i + 1));
        }
        let mut out: Vec<u8> = Vec::new();
        match pe_str_contents(s, i + 1, &mut out) {
            Some(j) => Some((out, j)),
            None => None,
        }
    } else {
        proof {
            if i < s@.len() {
                assert(s@.skip(i as int)[0] == s@[i as int]);
            }
        }
        None
    }
}

} // verus!

verus! {

/// Parses one decimal byte value at position `i`.
fn pe_u8(s: &[u8], i: usize) -> (r: Option<(u8, usize)>)
    requires
        i <= s@.len(),
    ensures
        match r {
            Some((b, j)) => i < j <= s@.len() && p_u8(s@.skip(i as int)) == Some(
                (b, s@.skip(j as int)),
            ),
            None => p_u8(s@.skip(i as int)) is None,
        },
{
    let ghost orig = s@.skip(i as int);
    if i == s.len() || !(0x30 <= s[i] && s[i] <= 0x39) {
        proof {
            if i < s@.len() {
                assert(orig[0] == s@[i as int]);
            }
        }
        return None;
    }
    proof {
        assert(orig[0] == s@[i as int]);
    }
    if s[i] == 0x30 {
        proof {
            assert(orig.skip(1) =~= s@.skip(i + 1));
        }
        return Some((0, i + 1));
    }
    let d0 = s[i] - 0x30;
    if s.len() - i >= 2 && 0x30 <= s[i + 1] && s[i + 1] <= 0x39 {
        proof {
            assert(orig[1] == s@[i + 1]);
        }
        let d1 = s[i + 1] - 0x30;
        if s.len() - i >= 3 && 0x30 <= s[i + 2] && s[i + 2] <= 0x39 {
            proof {
                assert(orig[2] == s@[i + 2]);
            }
            let d2 = s[i + 2] - 0x30;
            let v: u16 = d0 as u16 * 100 + d1 as u16 * 10 + d2 as u16;
            let fourth_digit = s.len() - i >= 4 && 0x30 <= s[i + 3] && s[i + 3] <= 0x39;
            proof {
                if s@.len() - i >= 4 {
                    assert(orig[3] == s@[i + 3]);
                }
            }
            if !fourth_digit && v <= 255 {
                proof {
                    assert(orig.skip(3) =~= s@.skip(i + 3));
                }
                Some((v as u8, i + 3))
            } else {
                None
            }
        } else {
            proof {
                if s@.len() - i >= 3 {
                    assert(orig[2] == s@[i + 2]);
                }
                assert(orig.skip(2) =~= s@.skip(i + 2));
            }
            Some((d0 * 10 + d1, i + 2))
        }
    } else {
        proof {
            if s@.len() - i >= 2 {
                assert(orig[1] == s@[i + 1]);
            }
            assert(orig.skip(1) =~= s@.skip(i + 1));
        }
        Some((d0, i + 1))
    }
}

/// Parses the items of a non-empty byte array at position `i`, up
/// to and including the closing bracket, appending the values to
/// `out`.
fn pe_items(s: &[u8], i: usize, out: &mut Vec<u8>) -> (r: Option<usize>)
    requires
        i <= s@.len(),
    ensures
        match r {
            Some(j) => i < j <= s@.len() && (p_items(s@.skip(i as int)) matches Some(p)
                && final(out)@ == old(out)@ + p.0 && p.1 == s@.skip(j as int)),
            None => p_items(s@.skip(i as int)) is None,
        },
    decreases s@.len() - i,
{
    let ghost orig = s@.skip(i as int);
    match pe_u8(s, i) {
        Some((b, j)) => {
            out.push(b);
            if j < s.len() && s[j] == RBRACKET {
                proof {
                    let rem = s@.skip(j as int);
                    assert(rem[0] == s@[j as int]);
                    assert(rem.drop_first() =~= s@.skip(j + 1));
                    assert(out@ =~= old(out)@ + seq![b]);
                }
                Some(j + 1)
            } else if j < s.len() && s[j] == COMMA {
                proof {
                    let rem = s@.skip(j as int);
                    assert(rem[0] == s@[j as int]);
                    assert(rem.drop_first() =~= s@.skip(j + 1));
                    assert(rem.len() < orig.len());
                }
                let res = pe_items(s, j + 1, out);
                match res {
                    Some(k) => {
                        proof {
                            let q = p_items(s@.skip(j + 1))->Some_0;
                            assert(out@ =~= old(out)@ + (seq![b] + q.0));
                        }
                        Some(k)
                    },
                    None => None,
                }
            } else {
                proof {
                    if j < s@.len() {
                        let rem = s@.skip(j as int);
                        assert(rem[0] == s@[j as int]);
                    }
                }
                None
            }
        },
        None => None,
    }
}

/// Parses a whole JSON byte array at position `i`, brackets
/// included.
fn pe_array(s: &[u8], i: usize) -> (r: Option<(Vec<u8>, usize)>)
    requires
        i <= s@.len(),
    ensures
        match r {
            Some((v, j)) => i < j <= s@.len() && (p_array(s@.skip(i as int)) matches Some(p) && p.0
                == v@ && p.1 == s@.skip(j as int)),
            None => p_array(s@.skip(i as int)) is None,
        },
{
    let ghost orig = s@.skip(i as int);
    proof {
        if i < s@.len() {
            assert(orig[0] == s@[i as int]);
        }
        if s@.len() - i >= 2 {
            assert(orig[1] == s@[i + 1]);
        }
    }
    if s.len() - i >= 2 && s[i] == LBRACKET && s[i + 1] == RBRACKET {
        proof {
            assert(orig.skip(2) =~= s@.skip(i + 2));
        }
        Some((Vec::new(), i + 2))
    } else if i < s.len() && s[i] == LBRACKET {
        proof {
            assert(orig.drop_first() =~= s@.skip(i + 1));
        }
        let mut out: Vec<u8> = Vec::new();
        match pe_items(s, i + 1, &mut out) {
            Some(j) => Some((out, j)),
            None => None,
        }
    } else {
        None
    }
}

/// Parses `null` or a JSON string at position `i`.
fn pe_opt_string(s: &[u8], i: usize) -> (r: Option<(Option<Vec<u8>>, usize)>)
    requires
        i <= s@.len(),
    ensures
        match r {
            Some((v, j)) => i < j <= s@.len() && (p_opt_string(s@.skip(i as int)) matches Some(p)
                && p.0 == match v {
                    Some(ref b) => Some::<Seq<u8>>(b@),
                    None => None::<Seq<u8>>,
                } && p.1 == s@.skip(j as int)),
            None => p_opt_string(s@.skip(i as int)) is None,
        },
{
    let null_lit: [u8; 4] = [0x6e, 0x75, 0x6c, 0x6c];
    proof {
        assert(null_lit@ =~= lit_null());
    }
    match pe_lit(s, i, null_lit.as_slice()) {
        Some(j) => Some((None, j)),
        None => {
            match pe_string(s, i) {
                Some((v, j)) => Some((Some(v), j)),
                None => None,
            }
        },
    }
}

/// Parses `null` or a JSON byte array at position `i`.
fn pe_opt_array(s: &[u8], i: usize) -> (r: Option<(Option<Vec<u8>>, usize)>)
    requires
        i <= s@.len(),
    ensures
        match r {
            Some((v, j)) => i < j <= s@.len() && (p_opt_array(s@.skip(i as int)) matches Some(p)
                && p.0 == match v {
                    Some(ref b) => Some::<Seq<u8>>(b@),
                    None => None::<Seq<u8>>,
                } && p.1 == s@.skip(j as int)),
            None => p_opt_array(s@.skip(i as int)) is None,
        },
{
    let null_lit: [u8; 4] = [0x6e, 0x75, 0x6c, 0x6c];
    proof {
        assert(null_lit@ =~= lit_null());
    }
    match pe_lit(s, i, null_lit.as_slice()) {
        Some(j) => Some((None, j)),
        None => {
            match pe_array(s, i) {
                Some((v, j)) => Some((Some(v), j)),
                None => None,
            }
        },
    }
}

/// Parses `,"msg_version":"…"}` at position `i` and checks that it
/// ends the input, returning the version's unescaped bytes.
fn pe_tail(s: &[u8], i: usize) -> (r: Option<Vec<u8>>)
    requires
        i <= s@.len(),
    ensures
        match r {
            Some(v) => p_tail(s@.skip(i as int)) == Some(v@),
            None => p_tail(s@.skip(i as int)) is None,
        },
{
    let ver_lit: [u8; 15] = [
        COMMA,
        QUOTE,
        0x6d,
        0x73,
        0x67,
        0x5f,
        0x76,
        0x65,
        0x72,
        0x73,
        0x69,
        0x6f,
        0x6e,
        QUOTE,
        0x3a,
    ];
    proof {
        assert(ver_lit@ =~= lit_msg_version());
    }
    match pe_lit(s, i, ver_lit.as_slice()) {
        Some(j) => {
            match pe_string(s, j) {
                Some((v, k)) => {
                    proof {
                        if k < s@.len() {
                            assert(s@.skip(k as int)[0] == s@[k as int]);
                        }
                    }
                    if s.len() - k == 1 && s[k] == RBRACE {
                        proof {
                            assert(s@.skip(k as int) =~= seq![RBRACE]);
                        }
                        Some(v)
                    } else {
                        proof {
                            assert(s@.skip(k as int).len() == s@.len() - k);
                            assert(!(s@.skip(k as int) =~= seq![RBRACE]));
                        }
                        None
                    }
                },
                None => None,
            }
        },
        None => None,
    }
}

} // verus!

verus! {

/// Parses `","id":"…","msg":[…],"msg_version":"…"}` at position
/// `i`: the fields of a request, send or publish.
fn pe_common_fields(s: &[u8], i: usize) -> (r: Option<(Vec<u8>, Vec<u8>, Vec<u8>)>)
    requires
        i <= s@.len(),
    ensures
        match r {
            Some((id, msg, ver)) => p_common_fields(s@.skip(i as int)) == Some(
                (id@, msg@, ver@),
            ),
            None => p_common_fields(s@.skip(i as int)) is None,
        },
{
    let id_lit: [u8; 7] = [QUOTE, COMMA, QUOTE, 0x69, 0x64, QUOTE, 0x3a];
    let msg_lit: [u8; 7] = [COMMA, QUOTE, 0x6d, 0x73, 0x67, QUOTE, 0x3a];
    proof {
        assert(id_lit@ =~= lit_quote_id());
        assert(msg_lit@ =~= lit_msg());
    }
    match pe_lit(s, i, id_lit.as_slice()) {
        Some(j1) => match pe_string(s, j1) {
            Some((id, j2)) => match pe_lit(s, j2, msg_lit.as_slice()) {
                Some(j3) => match pe_array(s, j3) {
                    Some((msg, j4)) => match pe_tail(s, j4) {
                        Some(ver) => Some((id, msg, ver)),
                        None => None,
                    },
                    None => None,
                },
                None => None,
            },
            None => None,
        },
        None => None,
    }
}

/// Parses `","error":…,"id":"…","msg":…,"msg_version":"…"}` at
/// position `i`: the fields of a response.
fn pe_response_fields(s: &[u8], i: usize) -> (r: Option<
    (Option<Vec<u8>>, Vec<u8>, Option<Vec<u8>>, Vec<u8>),
>)
    requires
        i <= s@.len(),
    ensures
        match r {
            Some((error, id, msg, ver)) => p_response_fields(s@.skip(i as int)) == Some(
                (
                    match error {
                        Some(ref e) => Some::<Seq<u8>>(e@),
                        None => None::<Seq<u8>>,
                    },
                    id@,
                    match msg {
                        Some(ref m) => Some::<Seq<u8>>(m@),
                        None => None::<Seq<u8>>,
                    },
                    ver@,
                ),
            ),
            None => p_response_fields(s@.skip(i as int)) is None,
        },
{
    let err_lit: [u8; 10] = [QUOTE, COMMA, QUOTE, 0x65, 0x72, 0x72, 0x6f, 0x72, QUOTE, 0x3a];
    let id_lit: [u8; 6] = [COMMA, QUOTE, 0x69, 0x64, QUOTE, 0x3a];
    let msg_lit: [u8; 7] = [COMMA, QUOTE, 0x6d, 0x73, 0x67, QUOTE, 0x3a];
    proof {
        assert(err_lit@ =~= lit_quote_error());
        assert(id_lit@ =~= lit_comma_id());
        assert(msg_lit@ =~= lit_msg());
    }
    match pe_lit(s, i, err_lit.as_slice()) {
        Some(j1) => match pe_opt_string(s, j1) {
            Some((error, j2)) => match pe_lit(s, j2, id_lit.as_slice()) {
                Some(j3) => match pe_string(s, j3) {
                    Some((id, j4)) => match pe_lit(s, j4, msg_lit.as_slice()) {
                        Some(j5) => match pe_opt_array(s, j5) {
                            Some((msg, j6)) => match pe_tail(s, j6) {
                                Some(ver) => Some((error, id, msg, ver)),
                                None => None,
                            },
                            None => None,
                        },
                        None => None,
                    },
                    None => None,
                },
                None => None,
            },
            None => None,
        },
        None => None,
    }
}

/// Decodes a wire frame. Returns the envelope whose canonical frame
/// the input is, and rejects every other input: unknown tags,
/// malformed JSON, non-canonical escapes and strings that are not
/// valid UTF-8.
pub fn decode_msg(s: &[u8]) -> (r: Option<HollywoodMsg>)
    ensures
        match r {
            Some(m) => spec_decode(s@) == Some(m@),
            None => spec_decode(s@) is None,
        },
{
    let head_lit: [u8; 9] = [LBRACE, QUOTE, 0x74, 0x79, 0x70, 0x65, QUOTE, 0x3a, QUOTE];
    let req_lit: [u8; 7] = [0x52, 0x65, 0x71, 0x75, 0x65, 0x73, 0x74];
    let resp_lit: [u8; 8] = [0x52, 0x65, 0x73, 0x70, 0x6f, 0x6e, 0x73, 0x65];
    let send_lit: [u8; 4] = [0x53, 0x65, 0x6e, 0x64];
    let pub_lit: [u8; 7] = [0x50, 0x75, 0x62, 0x6c, 0x69, 0x73, 0x68];
    proof {
        assert(head_lit@ =~= lit_head());
        assert(req_lit@ =~= tag_request());
        assert(resp_lit@ =~= tag_response());
        assert(send_lit@ =~= tag_send());
        assert(pub_lit@ =~= tag_publish());
        assert(s@.skip(0) =~= s@);
    }
    let j0 = match pe_lit(s, 0, head_lit.as_slice()) {
        Some(j) => j,
        None => {
            return None;
        },
    };
    if let Some(j1) = pe_lit(s, j0, req_lit.as_slice()) {
        match pe_common_fields(s, j1) {
            Some((id, msg, ver)) => {
                let id_s = match string_from_utf8(id) {
                    Some(x) => x,
                    None => {
                        return None;
                    },
                };
                let ver_s = match string_from_utf8(ver) {
                    Some(x) => x,
                    None => {
                        return None;
                    },
                };
                proof {
                    broadcast use encode_utf8_valid_utf8, encode_utf8_decode_utf8;

                }
                Some(
                    HollywoodMsg::Request(
                        HollywoodRequest { id: id_s, msg: msg, msg_version: ver_s },
                    ),
                )
            },
            None => None,
        }
    } else if let Some(j1) = pe_lit(s, j0, resp_lit.as_slice()) {
        match pe_response_fields(s, j1) {
            Some((error, id, msg, ver)) => {
                let id_s = match string_from_utf8(id) {
                    Some(x) => x,
                    None => {
                        return None;
                    },
                };
                let ver_s = match string_from_utf8(ver) {
                    Some(x) => x,
                    None => {
                        return None;
                    },
                };
                let err_s = match error {
                    Some(e) => match string_from_utf8(e) {
                        Some(x) => Some(x),
                        None => {
                            return None;
                        },
                    },
                    None => None,
                };
                proof {
                    broadcast use encode_utf8_valid_utf8, encode_utf8_decode_utf8;

                }
                Some(
                    HollywoodMsg::Response(
                        HollywoodResponse {
                            error: err_s,
                            id: id_s,
                            msg: msg,
                            msg_version: ver_s,
                        },
                    ),
                )
            },
            None => None,
        }
    } else if let Some(j1) = pe_lit(s, j0, send_lit.as_slice()) {
        match pe_common_fields(s, j1) {
            Some((id, msg, ver)) => {
                let id_s = match string_from_utf8(id) {
                    Some(x) => x,
                    None => {
                        return None;
                    },
                };
                let ver_s = match string_from_utf8(ver) {
                    Some(x) => x,
                    None => {
                        return None;
                    },
                };
                proof {
                    broadcast use encode_utf8_valid_utf8, encode_utf8_decode_utf8;

                }
                Some(HollywoodMsg::Send(HollywoodSend { id: id_s, msg: msg, msg_version: ver_s }))
            },
            None => None,
        }
    } else if let Some(j1) = pe_lit(s, j0, pub_lit.as_slice()) {
        match pe_common_fields(s, j1) {
            Some((id, msg, ver)) => {
                let id_s = match string_from_utf8(id) {
                    Some(x) => x,
                    None => {
                        return None;
                    },
                };
                let ver_s = match string_from_utf8(ver) {
                    Some(x) => x,
                    None => {
                        return None;
                    },
                };
                proof {
                    broadcast use encode_utf8_valid_utf8, encode_utf8_decode_utf8;

                }
                Some(
                    HollywoodMsg::Publish(
                        HollywoodPublish { id: id_s, msg: msg, msg_version: ver_s },
                    ),
                )
            },
            None => None,
        }
    } else {
        None
    }
}

impl HollywoodMsg {
    /// Decodes an envelope from its wire frame.
    pub fn from_bytes(bytes: &Vec<u8>) -> (r: Option<HollywoodMsg>)
        ensures
            match r {
                Some(m) => spec_decode(bytes@) == Some(m@),
                None => spec_decode(bytes@) is None,
            },
    {
        decode_msg(bytes.as_slice())
    }
}

} // verus!

verus! {

/// A literal at the front of the input parses to the rest.
proof fn lemma_p_lit(lit: Seq<u8>, rest: Seq<u8>)
    ensures
        p_lit(lit + rest, lit) == Some(rest),
{
    assert((lit + rest).take(lit.len() as int) =~= lit);
    assert((lit + rest).skip(lit.len() as int) =~= rest);
}

/// The hex digit of a value below 16 is a hex digit and reads back
/// as that value.
proof fn lemma_hex_digit(n: u8)
    requires
        n < 16,
    ensures
        is_hex_digit(spec_hex_digit(n)),
        hex_val(spec_hex_digit(n)) == n,
{
}

/// Unescaping undoes escaping: the contents parser applied to an
/// escaped byte string followed by the closing quote returns the
/// original bytes.
#[verifier::rlimit(50)]
proof fn lemma_esc_roundtrip(x: Seq<u8>, rest: Seq<u8>)
    ensures
        p_str_contents(esc_bytes(x) + seq![QUOTE] + rest) == Some((x, rest)),
    decreases x.len(),
{
    let s = esc_bytes(x) + seq![QUOTE] + rest;
    if x.len() == 0 {
        assert(esc_bytes(x) =~= Seq::<u8>::empty());
        assert(s =~= seq![QUOTE] + rest);
        assert(s[0] == QUOTE);
        assert(s.drop_first() =~= rest);
        assert(p_str_contents(s)->Some_0.0 =~= x);
    } else {
        let b = x[0];
        let x1 = x.drop_first();
        lemma_esc_roundtrip(x1, rest);
        let tail = esc_bytes(x1) + seq![QUOTE] + rest;
        assert(esc_bytes(x) == esc_byte(b) + esc_bytes(x1));
        assert(s =~= esc_byte(b) + tail);
        if b == QUOTE {
            assert(esc_byte(b) =~= seq![BACKSLASH, QUOTE]);
            assert(s[0] == BACKSLASH);
            assert(s[1] == QUOTE);
            assert(s.skip(2) =~= tail);
            assert(p_str_contents(s) == Some((seq![b] + x1, rest)));
            assert(seq![b] + x1 =~= x);
        } else if b == BACKSLASH {
            assert(esc_byte(b) =~= seq![BACKSLASH, BACKSLASH]);
            assert(s[0] == BACKSLASH);
            assert(s[1] == BACKSLASH);
            assert(s.skip(2) =~= tail);
            assert(p_str_contents(s) == Some((seq![b] + x1, rest)));
            assert(seq![b] + x1 =~= x);
        } else if b < 0x20 {
            lemma_hex_digit(b / 16);
            lemma_hex_digit(b % 16);
            assert(esc_byte(b) =~= seq![
                BACKSLASH,
                0x75,
                0x30,
                0x30,
                spec_hex_digit(b / 16),
                spec_hex_digit(b % 16),
            ]);
            assert(s[0] == BACKSLASH);
            assert(s[1] == 0x75);
            assert(s[2] == 0x30);
            assert(s[3] == 0x30);
            assert(s[4] == spec_hex_digit(b / 16));
            assert(s[5] == spec_hex_digit(b % 16));
            assert(hex_val(s[4]) * 16 + hex_val(s[5]) == b);
            assert(s.skip(6) =~= tail);
            assert(p_str_contents(s) == Some((seq![b] + x1, rest)));
            assert(seq![b] + x1 =~= x);
        } else {
            assert(esc_byte(b) =~= seq![b]);
            assert(s[0] == b);
            assert(s.drop_first() =~= tail);
            assert(p_str_contents(s) == Some((seq![b] + x1, rest)));
            assert(seq![b] + x1 =~= x);
        }
    }
}

/// A JSON string parses back to the UTF-8 bytes of the characters
/// it encodes.
proof fn lemma_enc_string_roundtrip(cs: Seq<char>, rest: Seq<u8>)
    ensures
        p_string(enc_string(cs) + rest) == Some((encode_utf8(cs), rest)),
{
    let s = enc_string(cs) + rest;
    lemma_esc_roundtrip(encode_utf8(cs), rest);
    assert(s[0] == QUOTE);
    assert(s.drop_first() =~= esc_bytes(encode_utf8(cs)) + seq![QUOTE] + rest);
}

/// The decimal digits of a byte, followed by a non-digit, parse
/// back to the byte.
proof fn lemma_dec_digits_roundtrip(b: u8, rest: Seq<u8>)
    requires
        rest.len() > 0,
        !is_digit(rest[0]),
    ensures
        p_u8(dec_digits(b) + rest) == Some((b, rest)),
{
    let s = dec_digits(b) + rest;
    if b < 10 {
        assert(s[0] == 0x30 + b);
        assert(s.len() >= 2 ==> s[1] == rest[0]);
        assert(s.skip(1) =~= rest);
        if b == 0 {
        } else {
            assert(p_u8(s) == Some((digit_val((0x30 + b) as u8), rest)));
        }
    } else if b < 100 {
        assert(s[0] == 0x30 + b / 10);
        assert(s[1] == 0x30 + b % 10);
        assert(s[2] == rest[0]);
        assert(b / 10 >= 1);
        assert(s.skip(2) =~= rest);
        assert(digit_val(s[0]) * 10 + digit_val(s[1]) == b);
    } else {
        assert(s[0] == 0x30 + b / 100);
        assert(s[1] == 0x30 + (b / 10) % 10);
        assert(s[2] == 0x30 + b % 10);
        assert(s[3] == rest[0]);
        assert(b / 100 >= 1);
        assert(s.skip(3) =~= rest);
        assert(digit_val(s[0]) * 100 + digit_val(s[1]) * 10 + digit_val(s[2]) == b);
    }
}

/// The encoded items of a non-empty byte array, followed by the
/// closing bracket, parse back to the array.
#[verifier::rlimit(50)]
proof fn lemma_items_roundtrip(x: Seq<u8>, rest: Seq<u8>)
    requires
        x.len() >= 1,
    ensures
        p_items(enc_array_items(x) + seq![RBRACKET] + rest) == Some((x, rest)),
    decreases x.len(),
{
    let s = enc_array_items(x) + seq![RBRACKET] + rest;
    if x.len() == 1 {
        assert(enc_array_items(x) == dec_digits(x[0]));
        let after = seq![RBRACKET] + rest;
        assert(s =~= dec_digits(x[0]) + after);
        assert(!is_digit(after[0]));
        lemma_dec_digits_roundtrip(x[0], after);
        assert(after.drop_first() =~= rest);
        assert(p_items(s) == Some((seq![x[0]], rest)));
        assert(seq![x[0]] =~= x);
    } else {
        let x1 = x.drop_first();
        lemma_items_roundtrip(x1, rest);
        let tail = enc_array_items(x1) + seq![RBRACKET] + rest;
        assert(enc_array_items(x) == dec_digits(x[0]) + seq![COMMA] + enc_array_items(x1));
        let after = seq![COMMA] + tail;
        assert(s =~= dec_digits(x[0]) + after);
        assert(!is_digit(after[0]));
        lemma_dec_digits_roundtrip(x[0], after);
        assert(after[0] == COMMA);
        assert(after.drop_first() =~= tail);
        assert(after.len() < s.len());
        assert(p_items(s) == Some((seq![x[0]] + x1, rest)));
        assert(seq![x[0]] + x1 =~= x);
    }
}

/// A JSON byte array parses back to its values.
proof fn lemma_array_roundtrip(x: Seq<u8>, rest: Seq<u8>)
    ensures
        p_array(enc_array(x) + rest) == Some((x, rest)),
{
    let s = enc_array(x) + rest;
    assert(s[0] == LBRACKET);
    if x.len() == 0 {
        assert(enc_array_items(x) =~= Seq::<u8>::empty());
        assert(s =~= seq![LBRACKET, RBRACKET] + rest);
        assert(s[1] == RBRACKET);
        assert(s.skip(2) =~= rest);
        assert(p_array(s)->Some_0.0 =~= x);
    } else {
        lemma_items_roundtrip(x, rest);
        assert(s[1] == enc_array_items(x)[0]);
        assert(enc_array_items(x)[0] == dec_digits(x[0])[0]);
        assert(is_digit(dec_digits(x[0])[0]));
        assert(s[1] != RBRACKET);
        assert(s.drop_first() =~= enc_array_items(x) + seq![RBRACKET] + rest);
    }
}

/// An optional JSON string parses back to its value.
proof fn lemma_opt_string_roundtrip(o: Option<Seq<char>>, rest: Seq<u8>)
    ensures
        p_opt_string(enc_opt_string(o) + rest) == Some(
            (
                match o {
                    Some(cs) => Some(encode_utf8(cs)),
                    None => None::<Seq<u8>>,
                },
                rest,
            ),
        ),
{
    let s = enc_opt_string(o) + rest;
    match o {
        None => {
            lemma_p_lit(lit_null(), rest);
        },
        Some(cs) => {
            lemma_enc_string_roundtrip(cs, rest);
            assert(s[0] == QUOTE);
            if lit_null().len() <= s.len() {
                assert(s.take(4)[0] == QUOTE);
                assert(s.take(4) != lit_null());
            }
            assert(p_lit(s, lit_null()) is None);
        },
    }
}

/// An optional JSON byte array parses back to its value.
proof fn lemma_opt_array_roundtrip(o: Option<Seq<u8>>, rest: Seq<u8>)
    ensures
        p_opt_array(enc_opt_array(o) + rest) == Some((o, rest)),
{
    let s = enc_opt_array(o) + rest;
    match o {
        None => {
            lemma_p_lit(lit_null(), rest);
        },
        Some(x) => {
            lemma_array_roundtrip(x, rest);
            assert(s[0] == LBRACKET);
            if lit_null().len() <= s.len() {
                assert(s.take(4)[0] == LBRACKET);
                assert(s.take(4) != lit_null());
            }
            assert(p_lit(s, lit_null()) is None);
        },
    }
}

/// The common tail of a frame parses back to the version string.
proof fn lemma_tail_roundtrip(ver: Seq<char>)
    ensures
        p_tail(lit_msg_version() + enc_string(ver) + seq![RBRACE]) == Some(encode_utf8(ver)),
{
    let s = lit_msg_version() + enc_string(ver) + seq![RBRACE];
    assert(s =~= lit_msg_version() + (enc_string(ver) + seq![RBRACE]));
    lemma_p_lit(lit_msg_version(), enc_string(ver) + seq![RBRACE]);
    lemma_enc_string_roundtrip(ver, seq![RBRACE]);
}

} // verus!

verus! {

/// The encoded fields of a request, send or publish parse back to
/// the field values.
proof fn lemma_common_fields_roundtrip(id: Seq<char>, msg: Seq<u8>, ver: Seq<char>)
    ensures
        p_common_fields(
            lit_quote_id() + enc_string(id) + lit_msg() + enc_array(msg) + lit_msg_version()
                + enc_string(ver) + seq![RBRACE],
        ) == Some((encode_utf8(id), msg, encode_utf8(ver))),
{
    let s = lit_quote_id() + enc_string(id) + lit_msg() + enc_array(msg) + lit_msg_version()
        + enc_string(ver) + seq![RBRACE];
    let tail3 = lit_msg_version() + enc_string(ver) + seq![RBRACE];
    let r3 = enc_array(msg) + tail3;
    let r2 = lit_msg() + r3;
    let r1 = enc_string(id) + r2;
    assert(s =~= lit_quote_id() + r1);
    lemma_p_lit(lit_quote_id(), r1);
    lemma_enc_string_roundtrip(id, r2);
    lemma_p_lit(lit_msg(), r3);
    lemma_array_roundtrip(msg, tail3);
    lemma_tail_roundtrip(ver);
}

/// The encoded fields of a response parse back to the field values.
proof fn lemma_response_fields_roundtrip(
    error: Option<Seq<char>>,
    id: Seq<char>,
    msg: Option<Seq<u8>>,
    ver: Seq<char>,
)
    ensures
        p_response_fields(
            lit_quote_error() + enc_opt_string(error) + lit_comma_id() + enc_string(id) + lit_msg()
                + enc_opt_array(msg) + lit_msg_version() + enc_string(ver) + seq![RBRACE],
        ) == Some(
            (
                match error {
                    Some(e) => Some(encode_utf8(e)),
                    None => None::<Seq<u8>>,
                },
                encode_utf8(id),
                msg,
                encode_utf8(ver),
            ),
        ),
{
    let s = lit_quote_error() + enc_opt_string(error) + lit_comma_id() + enc_string(id) + lit_msg()
        + enc_opt_array(msg) + lit_msg_version() + enc_string(ver) + seq![RBRACE];
    let tail3 = lit_msg_version() + enc_string(ver) + seq![RBRACE];
    let r5 = enc_opt_array(msg) + tail3;
    let r4 = lit_msg() + r5;
    let r3 = enc_string(id) + r4;
    let r2 = lit_comma_id() + r3;
    let r1 = enc_opt_string(error) + r2;
    assert(s =~= lit_quote_error() + r1);
    lemma_p_lit(lit_quote_error(), r1);
    lemma_opt_string_roundtrip(error, r2);
    lemma_p_lit(lit_comma_id(), r3);
    lemma_enc_string_roundtrip(id, r4);
    lemma_p_lit(lit_msg(), r5);
    lemma_opt_array_roundtrip(msg, tail3);
    lemma_tail_roundtrip(ver);
}

/// The canonical frame of a request decodes back to it.
#[verifier::rlimit(50)]
proof fn lemma_decode_encode_request(m: MsgView)
    requires
        m is Request,
    ensures
        spec_decode(spec_encode(m)) == Some(m),
{
    broadcast use encode_utf8_valid_utf8, encode_utf8_decode_utf8;

    let s = spec_encode(m);
    let (id, msg, msg_version) = (m->Request_id, m->Request_msg, m->Request_msg_version);
    let fields = lit_quote_id() + enc_string(id) + lit_msg() + enc_array(msg) + lit_msg_version()
        + enc_string(msg_version) + seq![RBRACE];
    let r = tag_request() + fields;
    assert(s =~= lit_head() + r);
    lemma_p_lit(lit_head(), r);
    lemma_p_lit(tag_request(), fields);
    lemma_common_fields_roundtrip(id, msg, msg_version);
    assert(spec_decode(s) == Some(m));
}

/// The canonical frame of a response decodes back to it.
#[verifier::rlimit(50)]
proof fn lemma_decode_encode_response(m: MsgView)
    requires
        m is Response,
    ensures
        spec_decode(spec_encode(m)) == Some(m),
{
    broadcast use encode_utf8_valid_utf8, encode_utf8_decode_utf8;

    let s = spec_encode(m);
    let (error, id, msg, msg_version) = (
        m->Response_error,
        m->Response_id,
        m->Response_msg,
        m->Response_msg_version,
    );
    let fields = lit_quote_error() + enc_opt_string(error) + lit_comma_id() + enc_string(id)
        + lit_msg() + enc_opt_array(msg) + lit_msg_version() + enc_string(msg_version)
        + seq![RBRACE];
    let r = tag_response() + fields;
    assert(s =~= lit_head() + r);
    lemma_p_lit(lit_head(), r);
    assert(r.len() >= 8 + 10);
    assert(r[2] == 0x73);
    if tag_request().len() <= r.len() {
        assert(r.take(7)[2] == r[2]);
        assert(r.take(7) != tag_request());
    }
    assert(p_lit(r, tag_request()) is None);
    lemma_p_lit(tag_response(), fields);
    lemma_response_fields_roundtrip(error, id, msg, msg_version);
    assert(spec_decode(s) == Some(m));
}

/// The canonical frame of a send decodes back to it.
#[verifier::rlimit(50)]
proof fn lemma_decode_encode_send(m: MsgView)
    requires
        m is Send,
    ensures
        spec_decode(spec_encode(m)) == Some(m),
{
    broadcast use encode_utf8_valid_utf8, encode_utf8_decode_utf8;

    let s = spec_encode(m);
    let (id, msg, msg_version) = (m->Send_id, m->Send_msg, m->Send_msg_version);
    let fields = lit_quote_id() + enc_string(id) + lit_msg() + enc_array(msg) + lit_msg_version()
        + enc_string(msg_version) + seq![RBRACE];
    let r = tag_send() + fields;
    assert(s =~= lit_head() + r);
    lemma_p_lit(lit_head(), r);
    assert(r.len() >= 4 + 7);
    assert(r[0] == 0x53);
    if tag_request().len() <= r.len() {
        assert(r.take(7)[0] == r[0]);
        assert(r.take(7) != tag_request());
    }
    assert(p_lit(r, tag_request()) is None);
    if tag_response().len() <= r.len() {
        assert(r.take(8)[0] == r[0]);
        assert(r.take(8) != tag_response());
    }
    assert(p_lit(r, tag_response()) is None);
    lemma_p_lit(tag_send(), fields);
    lemma_common_fields_roundtrip(id, msg, msg_version);
    assert(spec_decode(s) == Some(m));
}

/// The canonical frame of a publish decodes back to it.
#[verifier::rlimit(50)]
proof fn lemma_decode_encode_publish(m: MsgView)
    requires
        m is Publish,
    ensures
        spec_decode(spec_encode(m)) == Some(m),
{
    broadcast use encode_utf8_valid_utf8, encode_utf8_decode_utf8;

    let s = spec_encode(m);
    let (id, msg, msg_version) = (m->Publish_id, m->Publish_msg, m->Publish_msg_version);
    let fields = lit_quote_id() + enc_string(id) + lit_msg() + enc_array(msg) + lit_msg_version()
        + enc_string(msg_version) + seq![RBRACE];
    let r = tag_publish() + fields;
    assert(s =~= lit_head() + r);
    lemma_p_lit(lit_head(), r);
    assert(r.len() >= 7 + 7);
    assert(r[0] == 0x50);
    if tag_request().len() <= r.len() {
        assert(r.take(7)[0] == r[0]);
        assert(r.take(7) != tag_request());
    }
    assert(p_lit(r, tag_request()) is None);
    if tag_response().len() <= r.len() {
        assert(r.take(8)[0] == r[0]);
        assert(r.take(8) != tag_response());
    }
    assert(p_lit(r, tag_response()) is None);
    if tag_send().len() <= r.len() {
        assert(r.take(4)[0] == r[0]);
        assert(r.take(4) != tag_send());
    }
    assert(p_lit(r, tag_send()) is None);
    lemma_p_lit(tag_publish(), fields);
    lemma_common_fields_roundtrip(id, msg, msg_version);
    assert(spec_decode(s) == Some(m));
}

/// Decoding is the inverse of encoding: the canonical frame of any
/// envelope — any of the four variants, any field values — decodes
/// back to exactly that envelope.
pub proof fn lemma_decode_encode(m: MsgView)
    ensures
        spec_decode(spec_encode(m)) == Some(m),
{
    match m {
        MsgView::Request { .. } => lemma_decode_encode_request(m),
        MsgView::Response { .. } => lemma_decode_encode_response(m),
        MsgView::Send { .. } => lemma_decode_encode_send(m),
        MsgView::Publish { .. } => lemma_decode_encode_publish(m),
    }
}

} // verus!

verus! {

/// A JSON string at the byte level: the given bytes, escaped, in
/// quotes. `enc_string` is this applied to the UTF-8 bytes of the
/// characters.
pub open spec fn enc_string_bytes(x: Seq<u8>) -> Seq<u8> {
    seq![QUOTE] + esc_bytes(x) + seq![QUOTE]
}

/// A lower-case hex digit byte survives the round trip through
/// its value.
proof fn lemma_hex_digit_inj(h: u8)
    requires
        is_hex_digit(h),
    ensures
        hex_val(h) < 16,
        spec_hex_digit(hex_val(h)) == h,
{
}

/// Escaping one more byte in front.
proof fn lemma_esc_bytes_cons(c: u8, t: Seq<u8>)
    ensures
        esc_bytes(seq![c] + t) == esc_byte(c) + esc_bytes(t),
{
    let s = seq![c] + t;
    assert(s[0] == c);
    assert(s.drop_first() =~= t);
}

/// Whatever the string contents parser accepts is exactly the
/// escaped form of what it returns, closed by a quote.
proof fn lemma_str_contents_canonical(s: Seq<u8>)
    requires
        p_str_contents(s) is Some,
    ensures
        s =~= esc_bytes(p_str_contents(s)->Some_0.0) + seq![QUOTE] + p_str_contents(s)->Some_0.1,
    decreases s.len(),
{
    let p = p_str_contents(s)->Some_0;
    if s[0] == QUOTE {
        assert(esc_bytes(p.0) =~= Seq::<u8>::empty());
        assert(s =~= seq![QUOTE] + s.drop_first());
    } else if s[0] == BACKSLASH {
        if s.len() >= 2 && (s[1] == QUOTE || s[1] == BACKSLASH) {
            let q = p_str_contents(s.skip(2))->Some_0;
            lemma_str_contents_canonical(s.skip(2));
            lemma_esc_bytes_cons(s[1], q.0);
            assert(esc_byte(s[1]) =~= seq![BACKSLASH, s[1]]);
            assert(s =~= seq![s[0], s[1]] + s.skip(2));
        } else {
            let c = (hex_val(s[4]) * 16 + hex_val(s[5])) as u8;
            let q = p_str_contents(s.skip(6))->Some_0;
            lemma_str_contents_canonical(s.skip(6));
            lemma_esc_bytes_cons(c, q.0);
            lemma_hex_digit_inj(s[4]);
            lemma_hex_digit_inj(s[5]);
            assert(c / 16 == hex_val(s[4]) && c % 16 == hex_val(s[5]));
            assert(esc_byte(c) =~= seq![
                BACKSLASH,
                0x75,
                0x30,
                0x30,
                spec_hex_digit(c / 16),
                spec_hex_digit(c % 16),
            ]);
            assert(s =~= seq![s[0], s[1], s[2], s[3], s[4], s[5]] + s.skip(6));
        }
    } else {
        let q = p_str_contents(s.drop_first())->Some_0;
        lemma_str_contents_canonical(s.drop_first());
        lemma_esc_bytes_cons(s[0], q.0);
        assert(esc_byte(s[0]) =~= seq![s[0]]);
        assert(s =~= seq![s[0]] + s.drop_first());
    }
}

/// Whatever the string parser accepts is exactly a canonical JSON
/// string spelling what it returns.
proof fn lemma_string_canonical(s: Seq<u8>)
    requires
        p_string(s) is Some,
    ensures
        s =~= enc_string_bytes(p_string(s)->Some_0.0) + p_string(s)->Some_0.1,
{
    lemma_str_contents_canonical(s.drop_first());
    assert(s =~= seq![QUOTE] + s.drop_first());
}

/// Whatever the number parser accepts is exactly the canonical
/// digits of the value it returns.
proof fn lemma_u8_canonical(s: Seq<u8>)
    requires
        p_u8(s) is Some,
    ensures
        s =~= dec_digits(p_u8(s)->Some_0.0) + p_u8(s)->Some_0.1,
{
    let b = p_u8(s)->Some_0.0;
    if s[0] == 0x30 {
        assert(dec_digits(b) =~= seq![0x30u8]);
        assert(s =~= seq![s[0]] + s.skip(1));
    } else if s.len() >= 2 && is_digit(s[1]) {
        if s.len() >= 3 && is_digit(s[2]) {
            assert(b == digit_val(s[0]) * 100 + digit_val(s[1]) * 10 + digit_val(s[2]));
            assert(b >= 100);
            assert(b / 100 == digit_val(s[0]) && (b / 10) % 10 == digit_val(s[1]) && b % 10
                == digit_val(s[2]));
            assert(dec_digits(b) =~= seq![s[0], s[1], s[2]]);
            assert(s =~= seq![s[0], s[1], s[2]] + s.skip(3));
        } else {
            assert(b == digit_val(s[0]) * 10 + digit_val(s[1]));
            assert(10 <= b < 100);
            assert(b / 10 == digit_val(s[0]) && b % 10 == digit_val(s[1]));
            assert(dec_digits(b) =~= seq![s[0], s[1]]);
            assert(s =~= seq![s[0], s[1]] + s.skip(2));
        }
    } else {
        assert(b == digit_val(s[0]));
        assert(b < 10);
        assert(dec_digits(b) =~= seq![s[0]]);
        assert(s =~= seq![s[0]] + s.skip(1));
    }
}

/// Whatever the item parser accepts is exactly the canonical item
/// list it returns, closed by the bracket.
proof fn lemma_items_canonical(s: Seq<u8>)
    requires
        p_items(s) is Some,
    ensures
        p_items(s)->Some_0.0.len() >= 1,
        s =~= enc_array_items(p_items(s)->Some_0.0) + seq![RBRACKET] + p_items(s)->Some_0.1,
    decreases s.len(),
{
    let pu = p_u8(s)->Some_0;
    let b = pu.0;
    let r = pu.1;
    lemma_u8_canonical(s);
    if r.len() >= 1 && r[0] == RBRACKET {
        let x = p_items(s)->Some_0.0;
        assert(x =~= seq![b]);
        assert(enc_array_items(x) == dec_digits(b));
        assert(r =~= seq![RBRACKET] + r.drop_first());
    } else {
        let q = p_items(r.drop_first())->Some_0;
        lemma_items_canonical(r.drop_first());
        let x = seq![b] + q.0;
        assert(x.len() >= 2);
        assert(x[0] == b);
        assert(x.drop_first() =~= q.0);
        assert(enc_array_items(x) == dec_digits(b) + seq![COMMA] + enc_array_items(q.0));
        assert(r =~= seq![COMMA] + r.drop_first());
    }
}

/// Whatever the array parser accepts is exactly the canonical
/// array spelling what it returns.
proof fn lemma_array_canonical(s: Seq<u8>)
    requires
        p_array(s) is Some,
    ensures
        s =~= enc_array(p_array(s)->Some_0.0) + p_array(s)->Some_0.1,
{
    if s.len() >= 2 && s[0] == LBRACKET && s[1] == RBRACKET {
        assert(enc_array_items(p_array(s)->Some_0.0) =~= Seq::<u8>::empty());
        assert(s =~= seq![LBRACKET, RBRACKET] + s.skip(2));
    } else {
        lemma_items_canonical(s.drop_first());
        assert(s =~= seq![LBRACKET] + s.drop_first());
    }
}

/// Whatever the optional-string parser accepts is `null` or a
/// canonical string.
proof fn lemma_opt_string_canonical(s: Seq<u8>)
    requires
        p_opt_string(s) is Some,
    ensures
        s =~= match p_opt_string(s)->Some_0.0 {
            None => lit_null() + p_opt_string(s)->Some_0.1,
            Some(x) => enc_string_bytes(x) + p_opt_string(s)->Some_0.1,
        },
{
    match p_lit(s, lit_null()) {
        Some(r) => {
            assert(s =~= lit_null() + r);
        },
        None => {
            lemma_string_canonical(s);
        },
    }
}

/// Whatever the optional-array parser accepts is `null` or a
/// canonical array.
proof fn lemma_opt_array_canonical(s: Seq<u8>)
    requires
        p_opt_array(s) is Some,
    ensures
        s =~= match p_opt_array(s)->Some_0.0 {
            None => lit_null() + p_opt_array(s)->Some_0.1,
            Some(x) => enc_array(x) + p_opt_array(s)->Some_0.1,
        },
{
    match p_lit(s, lit_null()) {
        Some(r) => {
            assert(s =~= lit_null() + r);
        },
        None => {
            lemma_array_canonical(s);
        },
    }
}

/// Whatever the tail parser accepts is exactly the canonical
/// version field and the closing brace, ending the input.
proof fn lemma_tail_canonical(s: Seq<u8>)
    requires
        p_tail(s) is Some,
    ensures
        s =~= lit_msg_version() + enc_string_bytes(p_tail(s)->Some_0) + seq![RBRACE],
{
    let r = p_lit(s, lit_msg_version())->Some_0;
    assert(s =~= lit_msg_version() + r);
    lemma_string_canonical(r);
}

} // verus!

verus! {

/// The canonical frame of a wire envelope: as `spec_encode`, but
/// over the raw string bytes.
pub open spec fn spec_encode_wire(w: WireMsg) -> Seq<u8> {
    match w {
        WireMsg::Request { id, msg, msg_version } => lit_head() + tag_request() + lit_quote_id()
            + enc_string_bytes(id) + lit_msg() + enc_array(msg) + lit_msg_version()
            + enc_string_bytes(msg_version) + seq![RBRACE],
        WireMsg::Response { error, id, msg, msg_version } => lit_head() + tag_response()
            + lit_quote_error() + (match error {
            None => lit_null(),
            Some(e) => enc_string_bytes(e),
        }) + lit_comma_id() + enc_string_bytes(id) + lit_msg() + (match msg {
            None => lit_null(),
            Some(x) => enc_array(x),
        }) + lit_msg_version() + enc_string_bytes(msg_version) + seq![RBRACE],
        WireMsg::Send { id, msg, msg_version } => lit_head() + tag_send() + lit_quote_id()
            + enc_string_bytes(id) + lit_msg() + enc_array(msg) + lit_msg_version()
            + enc_string_bytes(msg_version) + seq![RBRACE],
        WireMsg::Publish { id, msg, msg_version } => lit_head() + tag_publish() + lit_quote_id()
            + enc_string_bytes(id) + lit_msg() + enc_array(msg) + lit_msg_version()
            + enc_string_bytes(msg_version) + seq![RBRACE],
    }
}

/// Whatever the common-fields parser accepts is exactly the
/// canonical spelling of the fields it returns.
#[verifier::rlimit(100)]
proof fn lemma_common_fields_canonical(s: Seq<u8>)
    requires
        p_common_fields(s) is Some,
    ensures
        s =~= lit_quote_id() + enc_string_bytes(p_common_fields(s)->Some_0.0) + lit_msg()
            + enc_array(p_common_fields(s)->Some_0.1) + lit_msg_version() + enc_string_bytes(
            p_common_fields(s)->Some_0.2,
        ) + seq![RBRACE],
{
    let r1 = p_lit(s, lit_quote_id())->Some_0;
    assert(s =~= lit_quote_id() + r1);
    lemma_string_canonical(r1);
    let pid = p_string(r1)->Some_0;
    let r2 = p_lit(pid.1, lit_msg())->Some_0;
    assert(pid.1 =~= lit_msg() + r2);
    lemma_array_canonical(r2);
    let pmsg = p_array(r2)->Some_0;
    lemma_tail_canonical(pmsg.1);
}

/// Whatever the response-fields parser accepts is exactly the
/// canonical spelling of the fields it returns.
#[verifier::rlimit(100)]
proof fn lemma_response_fields_canonical(s: Seq<u8>)
    requires
        p_response_fields(s) is Some,
    ensures
        s =~= lit_quote_error() + (match p_response_fields(s)->Some_0.0 {
            None => lit_null(),
            Some(e) => enc_string_bytes(e),
        }) + lit_comma_id() + enc_string_bytes(p_response_fields(s)->Some_0.1) + lit_msg() + (
        match p_response_fields(s)->Some_0.2 {
            None => lit_null(),
            Some(x) => enc_array(x),
        }) + lit_msg_version() + enc_string_bytes(p_response_fields(s)->Some_0.3) + seq![RBRACE],
{
    let r1 = p_lit(s, lit_quote_error())->Some_0;
    assert(s =~= lit_quote_error() + r1);
    lemma_opt_string_canonical(r1);
    let perr = p_opt_string(r1)->Some_0;
    let r2 = p_lit(perr.1, lit_comma_id())->Some_0;
    assert(perr.1 =~= lit_comma_id() + r2);
    lemma_string_canonical(r2);
    let pid = p_string(r2)->Some_0;
    let r3 = p_lit(pid.1, lit_msg())->Some_0;
    assert(pid.1 =~= lit_msg() + r3);
    lemma_opt_array_canonical(r3);
    let pmsg = p_opt_array(r3)->Some_0;
    lemma_tail_canonical(pmsg.1);
}

/// A canonical request, send or publish frame, assembled from its
/// parsed pieces.
#[verifier::rlimit(100)]
proof fn lemma_envelope_canonical_common(s: Seq<u8>, r: Seq<u8>, tag: Seq<u8>, f: Seq<u8>)
    requires
        s =~= lit_head() + r,
        r =~= tag + f,
        p_common_fields(f) is Some,
    ensures
        s =~= lit_head() + tag + lit_quote_id() + enc_string_bytes(p_common_fields(f)->Some_0.0)
            + lit_msg() + enc_array(p_common_fields(f)->Some_0.1) + lit_msg_version()
            + enc_string_bytes(p_common_fields(f)->Some_0.2) + seq![RBRACE],
{
    lemma_common_fields_canonical(f);
}

/// A canonical response frame, assembled from its parsed pieces.
#[verifier::rlimit(100)]
proof fn lemma_envelope_canonical_response(s: Seq<u8>, r: Seq<u8>, f: Seq<u8>)
    requires
        s =~= lit_head() + r,
        r =~= tag_response() + f,
        p_response_fields(f) is Some,
    ensures
        s =~= lit_head() + tag_response() + lit_quote_error() + (
        match p_response_fields(f)->Some_0.0 {
            None => lit_null(),
            Some(e) => enc_string_bytes(e),
        }) + lit_comma_id() + enc_string_bytes(p_response_fields(f)->Some_0.1) + lit_msg() + (
        match p_response_fields(f)->Some_0.2 {
            None => lit_null(),
            Some(x) => enc_array(x),
        }) + lit_msg_version() + enc_string_bytes(p_response_fields(f)->Some_0.3) + seq![RBRACE],
{
    lemma_response_fields_canonical(f);
}

/// Whatever the envelope parser accepts is exactly the canonical
/// frame of the wire envelope it returns.
#[verifier::rlimit(100)]
proof fn lemma_envelope_canonical(s: Seq<u8>)
    requires
        p_envelope(s) is Some,
    ensures
        s =~= spec_encode_wire(p_envelope(s)->Some_0),
{
    let r = p_lit(s, lit_head())->Some_0;
    assert(s =~= lit_head() + r);
    if p_lit(r, tag_request()) is Some {
        let f = p_lit(r, tag_request())->Some_0;
        assert(r =~= tag_request() + f);
        lemma_envelope_canonical_common(s, r, tag_request(), f);
    } else if p_lit(r, tag_response()) is Some {
        let f = p_lit(r, tag_response())->Some_0;
        assert(r =~= tag_response() + f);
        lemma_envelope_canonical_response(s, r, f);
    } else if p_lit(r, tag_send()) is Some {
        let f = p_lit(r, tag_send())->Some_0;
        assert(r =~= tag_send() + f);
        lemma_envelope_canonical_common(s, r, tag_send(), f);
    } else {
        let f = p_lit(r, tag_publish())->Some_0;
        assert(r =~= tag_publish() + f);
        lemma_envelope_canonical_common(s, r, tag_publish(), f);
    }
}

/// On a wire envelope whose strings are valid UTF-8, encoding the
/// decoded view spells the same bytes as the wire frame itself.
proof fn lemma_encode_view_of_wire(w: WireMsg)
    requires
        wire_strings_valid(w),
    ensures
        spec_encode(wire_to_view(w)) == spec_encode_wire(w),
{
    match w {
        WireMsg::Request { id, msg, msg_version } => {
            decode_utf8_encode_utf8(id);
            decode_utf8_encode_utf8(msg_version);
        },
        WireMsg::Response { error, id, msg, msg_version } => {
            decode_utf8_encode_utf8(id);
            decode_utf8_encode_utf8(msg_version);
            match error {
                Some(e) => decode_utf8_encode_utf8(e),
                None => {
                },
            }
        },
        WireMsg::Send { id, msg, msg_version } => {
            decode_utf8_encode_utf8(id);
            decode_utf8_encode_utf8(msg_version);
        },
        WireMsg::Publish { id, msg, msg_version } => {
            decode_utf8_encode_utf8(id);
            decode_utf8_encode_utf8(msg_version);
        },
    }
}

/// Encoding is the inverse of decoding: the decoder accepts only
/// canonical frames, so whenever a byte sequence decodes to an
/// envelope, encoding that envelope gives the byte sequence back.
pub proof fn lemma_encode_decode(s: Seq<u8>)
    requires
        spec_decode(s) is Some,
    ensures
        spec_encode(spec_decode(s)->Some_0) == s,
{
    let w = p_envelope(s)->Some_0;
    lemma_envelope_canonical(s);
    lemma_encode_view_of_wire(w);
}

} // verus!
