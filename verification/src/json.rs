//! The minimal hand-rolled key/value scanner for the fixed 3-field pixel
//! body `{"x":<int>,"y":<int>,"state":<bool>}`: strip the enclosing braces,
//! split on commas, split each pair on its first colon, trim whitespace and
//! quotes from the key, and parse the value per field type. It is a narrow
//! decoder for this one schema, with no nesting or escaping support.

use vstd::prelude::*;

use crate::byteseq::{
    bytes_eq, dec_val, find_byte, find_byte_at, is_digit, lemma_dec_val_prefix, sub_bytes, trim,
    trim_bytes,
};

verus! {

/// ASCII ':'.
pub const COLON: u8 = 58;

/// ASCII ','.
pub const COMMA: u8 = 44;

/// ASCII '\"'.
pub const QUOTE: u8 = 34;

/// ASCII '{'.
pub const LBRACE: u8 = 123;

/// ASCII '}'.
pub const RBRACE: u8 = 125;

/// Partial scan state: the fields seen so far.
pub type PixelFields = (Option<u8>, Option<u8>, Option<bool>);

/// The byte name of the `x` field.
pub open spec fn x_key() -> Seq<u8> {
    seq![120u8]
}

/// The byte name of the `y` field.
pub open spec fn y_key() -> Seq<u8> {
    seq![121u8]
}

/// The byte name of the `state` field.
pub open spec fn state_key() -> Seq<u8> {
    seq![115u8, 116u8, 97u8, 116u8, 101u8]
}

/// A value that must be a decimal integer fitting a coordinate byte.
pub open spec fn parse_dec_u8(s: Seq<u8>) -> Option<u8> {
    if s.len() > 0 && (forall|i: int| 0 <= i < s.len() ==> is_digit(s[i])) && dec_val(s) <= 255 {
        Some(dec_val(s) as u8)
    } else {
        None
    }
}

/// A value that must be the literal token `true` or `false`.
pub open spec fn parse_bool_token(s: Seq<u8>) -> Option<bool> {
    if s == seq![116u8, 114u8, 117u8, 101u8] {
        Some(true)
    } else if s == seq![102u8, 97u8, 108u8, 115u8, 101u8] {
        Some(false)
    } else {
        None
    }
}

/// A key with one enclosing pair of double quotes removed.
pub open spec fn strip_quotes(s: Seq<u8>) -> Seq<u8> {
    if s.len() >= 2 && s[0] == QUOTE && s.last() == QUOTE {
        s.subrange(1, s.len() - 1)
    } else {
        s
    }
}

/// One `key:value` pair applied to the scan state. A pair without a colon is
/// malformed; a known key must carry a well-formed value of its type and
/// overwrites the field; an unknown key is ignored.
pub open spec fn scan_pair(acc: PixelFields, pair: Seq<u8>) -> Option<PixelFields> {
    let ci = find_byte(pair, COLON);
    if !(0 <= ci < pair.len()) {
        None
    } else {
        let key = strip_quotes(trim(pair.subrange(0, ci)));
        let val = trim(pair.subrange(ci + 1, pair.len() as int));
        if key == x_key() {
            match parse_dec_u8(val) {
                Some(v) => Some((Some(v), acc.1, acc.2)),
                None => None,
            }
        } else if key == y_key() {
            match parse_dec_u8(val) {
                Some(v) => Some((acc.0, Some(v), acc.2)),
                None => None,
            }
        } else if key == state_key() {
            match parse_bool_token(val) {
                Some(v) => Some((acc.0, acc.1, Some(v))),
                None => None,
            }
        } else {
            Some(acc)
        }
    }
}

/// The comma-separated pairs of the body interior, folded left to right.
pub open spec fn scan_pairs(acc: PixelFields, s: Seq<u8>) -> Option<PixelFields>
    decreases s.len(),
{
    let ci = find_byte(s, COMMA);
    if 0 <= ci < s.len() {
        match scan_pair(acc, s.subrange(0, ci)) {
            Some(a) => scan_pairs(a, s.subrange(ci + 1, s.len() as int)),
            None => None,
        }
    } else {
        scan_pair(acc, s)
    }
}

/// What the scanner accepts: after trimming, the body must be brace-enclosed
/// and its interior must scan to all three fields present. Anything else,
/// malformed pairs and missing fields included, is a parse failure.
pub open spec fn spec_parse_pixel_body(b: Seq<u8>) -> Option<(u8, u8, bool)> {
    let t = trim(b);
    if t.len() >= 2 && t[0] == LBRACE && t.last() == RBRACE {
        match scan_pairs((None, None, None), t.subrange(1, t.len() - 1)) {
            Some((Some(x), Some(y), Some(state))) => Some((x, y, state)),
            _ => None,
        }
    } else {
        None
    }
}

/// Parse a trimmed value as a decimal coordinate byte.
fn parse_dec_u8_exec(s: &[u8]) -> (r: Option<u8>)
    ensures
        r == parse_dec_u8(s@),
{
    if s.len() == 0 {
        return None;
    }
    let mut acc: u16 = 0;
    let mut i: usize = 0;
    while i < s.len()
        invariant
            i <= s@.len(),
            forall|j: int| 0 <= j < i ==> is_digit(s@[j]),
            acc <= 255,
            acc == dec_val(s@.subrange(0, i as int)),
        decreases s@.len() - i,
    {
        let b = s[i];
        if b < 48 || b > 57 {
            return None;
        }
        proof {
            assert(s@.subrange(0, i + 1).drop_last() =~= s@.subrange(0, i as int));
            assert(s@.subrange(0, i + 1).last() == s@[i as int]);
        }
        let next: u16 = acc * 10 + ((b - 48) as u16);
        if next > 255 {
            proof {
                if forall|j: int| 0 <= j < s@.len() ==> is_digit(s@[j]) {
                    lemma_dec_val_prefix(s@, i + 1);
                }
            }
            return None;
        }
        acc = next;
        i = i + 1;
    }
    proof {
        assert(s@.subrange(0, s@.len() as int) =~= s@);
    }
    Some(acc as u8)
}

/// Strip one enclosing pair of double quotes from a key.
fn strip_quotes_exec(s: &[u8]) -> (r: Vec<u8>)
    ensures
        r@ == strip_quotes(s@),
{
    if s.len() >= 2 && s[0] == QUOTE && s[s.len() - 1] == QUOTE {
        sub_bytes(s, 1, s.len() - 1)
    } else {
        let whole = sub_bytes(s, 0, s.len());
        proof {
            assert(whole@ =~= s@);
        }
        whole
    }
}

/// Apply one `key:value` pair to the scan state, as `scan_pair` describes.
fn scan_pair_exec(acc: PixelFields, pair: &[u8]) -> (r: Option<PixelFields>)
    ensures
        r == scan_pair(acc, pair@),
{
    let ci = find_byte_at(pair, COLON);
    if ci >= pair.len() {
        return None;
    }
    let key_raw = sub_bytes(pair, 0, ci);
    let key_trimmed = trim_bytes(key_raw.as_slice());
    let key = strip_quotes_exec(key_trimmed.as_slice());
    let val_raw = sub_bytes(pair, ci + 1, pair.len());
    let val = trim_bytes(val_raw.as_slice());

    let x_name: Vec<u8> = vec![120u8];
    let y_name: Vec<u8> = vec![121u8];
    let state_name: Vec<u8> = vec![115u8, 116u8, 97u8, 116u8, 101u8];
    let true_tok: Vec<u8> = vec![116u8, 114u8, 117u8, 101u8];
    let false_tok: Vec<u8> = vec![102u8, 97u8, 108u8, 115u8, 101u8];
    proof {
        assert(x_name@ =~= x_key());
        assert(y_name@ =~= y_key());
        assert(state_name@ =~= state_key());
        assert(true_tok@ =~= seq![116u8, 114u8, 117u8, 101u8]);
        assert(false_tok@ =~= seq![102u8, 97u8, 108u8, 115u8, 101u8]);
    }

    if bytes_eq(key.as_slice(), x_name.as_slice()) {
        match parse_dec_u8_exec(val.as_slice()) {
            Some(v) => Some((Some(v), acc.1, acc.2)),
            None => None,
        }
    } else if bytes_eq(key.as_slice(), y_name.as_slice()) {
        match parse_dec_u8_exec(val.as_slice()) {
            Some(v) => Some((acc.0, Some(v), acc.2)),
            None => None,
        }
    } else if bytes_eq(key.as_slice(), state_name.as_slice()) {
        if bytes_eq(val.as_slice(), true_tok.as_slice()) {
            Some((acc.0, acc.1, Some(true)))
        } else if bytes_eq(val.as_slice(), false_tok.as_slice()) {
            Some((acc.0, acc.1, Some(false)))
        } else {
            None
        }
    } else {
        Some(acc)
    }
}

/// Fold the comma-separated pairs, as `scan_pairs` describes.
fn scan_pairs_exec(acc: PixelFields, s: &[u8]) -> (r: Option<PixelFields>)
    ensures
        r == scan_pairs(acc, s@),
    decreases s@.len(),
{
    let ci = find_byte_at(s, COMMA);
    if ci < s.len() {
        let seg = sub_bytes(s, 0, ci);
        match scan_pair_exec(acc, seg.as_slice()) {
            Some(a) => {
                let rest = sub_bytes(s, ci + 1, s.len());
                scan_pairs_exec(a, rest.as_slice())
            }
            None => None,
        }
    } else {
        proof {
            crate::byteseq::lemma_find_byte(s@, COMMA);
        }
        scan_pair_exec(acc, s)
    }
}

/// Parse a request body as the 3-field pixel schema, exactly as
/// `spec_parse_pixel_body` describes it.
pub fn parse_pixel_body(body: &[u8]) -> (r: Option<(u8, u8, bool)>)
    ensures
        r == spec_parse_pixel_body(body@),
{
    let t = trim_bytes(body);
    if t.len() < 2 {
        return None;
    }
    if t[0] != LBRACE || t[t.len() - 1] != RBRACE {
        return None;
    }
    let inner = sub_bytes(t.as_slice(), 1, t.len() - 1);
    match scan_pairs_exec((None, None, None), inner.as_slice()) {
        Some((Some(x), Some(y), Some(state))) => Some((x, y, state)),
        _ => None,
    }
}

} // verus!
