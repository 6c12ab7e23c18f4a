//! The byte-level grammar of wire payload bodies.
//!
//! Payloads travel as JSON-shaped byte strings.  This crate never
//! interprets the numbers or colors inside them: a brightness is
//! carried as the bytes of a JSON number token, a color as the bytes
//! of a JSON string token, and both are handed onward verbatim.  The
//! functions here recognise those tokens, and the object shapes built
//! from them, byte by byte.

use vstd::prelude::*;

verus! {

/// Byte values the grammar speaks of.
pub const QUOTE: u8 = 0x22;
pub const BACKSLASH: u8 = 0x5c;
pub const SLASH: u8 = 0x2f;
pub const LBRACE: u8 = 0x7b;
pub const RBRACE: u8 = 0x7d;
pub const COLON: u8 = 0x3a;
pub const COMMA: u8 = 0x2c;
pub const MINUS: u8 = 0x2d;
pub const PLUS: u8 = 0x2b;
pub const DOT: u8 = 0x2e;
pub const DIGIT_ZERO: u8 = 0x30;
pub const DIGIT_NINE: u8 = 0x39;
pub const LOWER_A: u8 = 0x61;
pub const LOWER_B: u8 = 0x62;
pub const LOWER_E: u8 = 0x65;
pub const LOWER_F: u8 = 0x66;
pub const LOWER_N: u8 = 0x6e;
pub const LOWER_R: u8 = 0x72;
pub const LOWER_T: u8 = 0x74;
pub const LOWER_U: u8 = 0x75;
pub const LOWER_C: u8 = 0x63;
pub const LOWER_G: u8 = 0x67;
pub const LOWER_H: u8 = 0x68;
pub const LOWER_I: u8 = 0x69;
pub const LOWER_L: u8 = 0x6c;
pub const LOWER_O: u8 = 0x6f;
pub const LOWER_S: u8 = 0x73;
pub const UPPER_A: u8 = 0x41;
pub const UPPER_E: u8 = 0x45;
pub const UPPER_F: u8 = 0x46;

/// JSON insignificant whitespace.
pub open spec fn is_ws(b: u8) -> bool {
    b == 0x20 || b == 0x09 || b == 0x0a || b == 0x0d
}

/// A decimal digit byte.
pub open spec fn is_digit(b: u8) -> bool {
    DIGIT_ZERO <= b && b <= DIGIT_NINE
}

/// A hexadecimal digit byte.
pub open spec fn is_hex(b: u8) -> bool {
    is_digit(b) || (LOWER_A <= b && b <= LOWER_F) || (UPPER_A <= b && b <= UPPER_F)
}

/// The single characters that may follow a backslash in a string.
pub open spec fn is_escape_char(b: u8) -> bool {
    b == QUOTE || b == BACKSLASH || b == SLASH || b == LOWER_B || b == LOWER_F || b == LOWER_N || b == LOWER_R
        || b == LOWER_T
}

/// The first index at or after `i` holding something other than
/// whitespace, or the end of the input.
pub open spec fn skip_ws(s: Seq<u8>, i: int) -> int
    decreases s.len() - i,
{
    if i < 0 || i >= s.len() {
        s.len() as int
    } else if is_ws(s[i]) {
        skip_ws(s, i + 1)
    } else {
        i
    }
}

/// The first index at or after `i` holding a non-digit, or the end of
/// the input.
pub open spec fn skip_digits(s: Seq<u8>, i: int) -> int
    decreases s.len() - i,
{
    if i < 0 || i >= s.len() {
        s.len() as int
    } else if is_digit(s[i]) {
        skip_digits(s, i + 1)
    } else {
        i
    }
}

/// Basic shape of `skip_ws`.
pub proof fn lemma_skip_ws(s: Seq<u8>, i: int)
    requires
        0 <= i <= s.len(),
    ensures
        i <= skip_ws(s, i) <= s.len(),
        forall|j: int| i <= j < skip_ws(s, i) ==> is_ws(s[j]),
        skip_ws(s, i) < s.len() ==> !is_ws(s[skip_ws(s, i)]),
    decreases s.len() - i,
{
    if i < s.len() && is_ws(s[i]) {
        lemma_skip_ws(s, i + 1);
    }
}

/// Basic shape of `skip_digits`.
pub proof fn lemma_skip_digits(s: Seq<u8>, i: int)
    requires
        0 <= i <= s.len(),
    ensures
        i <= skip_digits(s, i) <= s.len(),
        forall|j: int| i <= j < skip_digits(s, i) ==> is_digit(s[j]),
        skip_digits(s, i) < s.len() ==> !is_digit(s[skip_digits(s, i)]),
    decreases s.len() - i,
{
    if i < s.len() && is_digit(s[i]) {
        lemma_skip_digits(s, i + 1);
    }
}

/// The index just past a string body that starts at `i` (right after
/// the opening quote), or `None` where no well-formed body lies there.
pub open spec fn string_body_end(s: Seq<u8>, i: int) -> Option<int>
    decreases s.len() - i,
{
    if i < 0 || i >= s.len() {
        None
    } else if s[i] == QUOTE {
        Some(i + 1)
    } else if s[i] == BACKSLASH {
        if i + 1 < s.len() && is_escape_char(s[i + 1]) {
            string_body_end(s, i + 2)
        } else if i + 5 < s.len() && s[i + 1] == LOWER_U && is_hex(s[i + 2]) && is_hex(s[i + 3])
            && is_hex(s[i + 4]) && is_hex(s[i + 5]) {
            string_body_end(s, i + 6)
        } else {
            None
        }
    } else if s[i] >= 0x20 {
        string_body_end(s, i + 1)
    } else {
        None
    }
}

/// The index just past a string token (quotes included) starting at
/// `i`, or `None`.
pub open spec fn string_end(s: Seq<u8>, i: int) -> Option<int> {
    if 0 <= i < s.len() && s[i] == QUOTE {
        string_body_end(s, i + 1)
    } else {
        None
    }
}

/// A parsed string body never escapes the input.
pub proof fn lemma_string_body_end_bounds(s: Seq<u8>, i: int)
    requires
        0 <= i <= s.len(),
    ensures
        string_body_end(s, i) matches Some(e) ==> i < e <= s.len(),
    decreases s.len() - i,
{
    if i < s.len() && s[i] != QUOTE {
        if s[i] == BACKSLASH {
            if i + 1 < s.len() && is_escape_char(s[i + 1]) {
                lemma_string_body_end_bounds(s, i + 2);
            } else if i + 5 < s.len() && s[i + 1] == LOWER_U && is_hex(s[i + 2]) && is_hex(s[i + 3])
                && is_hex(s[i + 4]) && is_hex(s[i + 5]) {
                lemma_string_body_end_bounds(s, i + 6);
            }
        } else if s[i] >= 0x20 {
            lemma_string_body_end_bounds(s, i + 1);
        }
    }
}

/// The index just past the fraction part starting at `j`, if the bytes
/// there are admissible (an absent fraction is admissible).
pub open spec fn frac_end(s: Seq<u8>, j: int) -> Option<int> {
    if 0 <= j < s.len() && s[j] == DOT {
        let f = skip_digits(s, j + 1);
        if f == j + 1 {
            None
        } else {
            Some(f)
        }
    } else {
        Some(j)
    }
}

/// The index just past the exponent part starting at `j`, if the bytes
/// there are admissible (an absent exponent is admissible).
pub open spec fn exp_end(s: Seq<u8>, j: int) -> Option<int> {
    if 0 <= j < s.len() && (s[j] == LOWER_E || s[j] == UPPER_E) {
        let k = if j + 1 < s.len() && (s[j + 1] == PLUS || s[j + 1] == MINUS) {
            j + 2
        } else {
            j + 1
        };
        let f = skip_digits(s, k);
        if f == k {
            None
        } else {
            Some(f)
        }
    } else {
        Some(j)
    }
}

/// The index just past a JSON number token starting at `i`, or `None`
/// where no number lies there.
pub open spec fn number_end(s: Seq<u8>, i: int) -> Option<int> {
    if i < 0 {
        None
    } else {
        let j0 = if i < s.len() && s[i] == MINUS {
            i + 1
        } else {
            i
        };
        if !(j0 < s.len() && is_digit(s[j0])) {
            None
        } else {
            let j1 = if s[j0] == DIGIT_ZERO {
                j0 + 1
            } else {
                skip_digits(s, j0)
            };
            match frac_end(s, j1) {
                None => None,
                Some(j2) => exp_end(s, j2),
            }
        }
    }
}

/// A parsed number never escapes the input.
pub proof fn lemma_number_end_bounds(s: Seq<u8>, i: int)
    requires
        0 <= i <= s.len(),
    ensures
        number_end(s, i) matches Some(e) ==> i < e <= s.len(),
{
    let j0 = if i < s.len() && s[i] == MINUS {
        i + 1
    } else {
        i
    };
    if j0 < s.len() && is_digit(s[j0]) {
        lemma_skip_digits(s, j0);
        let j1 = if s[j0] == DIGIT_ZERO {
            j0 + 1
        } else {
            skip_digits(s, j0)
        };
        match frac_end(s, j1) {
            Some(j2) => {
                if 0 <= j1 < s.len() && s[j1] == DOT {
                    lemma_skip_digits(s, j1 + 1);
                }
                if 0 <= j2 < s.len() && (s[j2] == LOWER_E || s[j2] == UPPER_E) {
                    let k = if j2 + 1 < s.len() && (s[j2 + 1] == PLUS || s[j2 + 1] == MINUS) {
                        j2 + 2
                    } else {
                        j2 + 1
                    };
                    lemma_skip_digits(s, k);
                }
            }
            None => {}
        }
    }
}

/// A complete JSON string token: quotes around a well-formed body.
pub open spec fn is_string_token(v: Seq<u8>) -> bool {
    string_end(v, 0) == Some(v.len() as int)
}

/// A complete JSON number token.
pub open spec fn is_number_token(v: Seq<u8>) -> bool {
    number_end(v, 0) == Some(v.len() as int)
}

/// Do the bytes of `lit` stand in `s` at position `i`?
pub open spec fn match_bytes(s: Seq<u8>, i: int, lit: Seq<u8>) -> bool {
    0 <= i && i + lit.len() <= s.len() && s.subrange(i, i + lit.len()) == lit
}

/// Finds the first non-whitespace position at or after `i`.
pub fn skip_ws_exec(s: &[u8], i: usize) -> (r: usize)
    requires
        i <= s@.len(),
    ensures
        r == skip_ws(s@, i as int),
        i <= r <= s@.len(),
{
    let len = s.len();
    let mut j: usize = i;
    while j < len
        invariant
            i <= j <= len,
            len == s@.len(),
            skip_ws(s@, i as int) == skip_ws(s@, j as int),
        decreases len - j,
    {
        let b = s[j];
        if !(b == 0x20 || b == 0x09 || b == 0x0a || b == 0x0d) {
            return j;
        }
        j += 1;
    }
    j
}

/// Finds the first non-digit position at or after `i`.
pub fn skip_digits_exec(s: &[u8], i: usize) -> (r: usize)
    requires
        i <= s@.len(),
    ensures
        r == skip_digits(s@, i as int),
        i <= r <= s@.len(),
{
    let len = s.len();
    let mut j: usize = i;
    while j < len
        invariant
            i <= j <= len,
            len == s@.len(),
            skip_digits(s@, i as int) == skip_digits(s@, j as int),
        decreases len - j,
    {
        let b = s[j];
        if !(DIGIT_ZERO <= b && b <= DIGIT_NINE) {
            return j;
        }
        j += 1;
    }
    j
}

/// Is `b` a hexadecimal digit byte?
fn is_hex_exec(b: u8) -> (r: bool)
    ensures
        r == is_hex(b),
{
    (DIGIT_ZERO <= b && b <= DIGIT_NINE) || (LOWER_A <= b && b <= LOWER_F) || (UPPER_A <= b && b <= UPPER_F)
}

/// Scans a string body starting at `i` (right after the opening
/// quote).
pub fn string_body_end_exec(s: &[u8], i: usize) -> (r: Option<usize>)
    requires
        i <= s@.len(),
    ensures
        match r {
            Some(e) => string_body_end(s@, i as int) == Some(e as int) && i < e <= s@.len(),
            None => string_body_end(s@, i as int) is None,
        },
{
    proof {
        lemma_string_body_end_bounds(s@, i as int);
    }
    let len = s.len();
    let mut j: usize = i;
    loop
        invariant
            i <= j <= len,
            len == s@.len(),
            string_body_end(s@, i as int) == string_body_end(s@, j as int),
            string_body_end(s@, i as int) matches Some(e) ==> i < e <= s@.len(),
        decreases len - j,
    {
        if j >= len {
            return None;
        }
        let b = s[j];
        if b == QUOTE {
            return Some(j + 1);
        }
        if b == BACKSLASH {
            if j + 1 < len && {
                let c = s[j + 1];
                c == QUOTE || c == BACKSLASH || c == SLASH || c == LOWER_B || c == LOWER_F || c == LOWER_N
                    || c == LOWER_R || c == LOWER_T
            } {
                j += 2;
            } else if len - j > 5 && s[j + 1] == LOWER_U && is_hex_exec(s[j + 2])
                && is_hex_exec(s[j + 3]) && is_hex_exec(s[j + 4]) && is_hex_exec(s[j + 5]) {
                j += 6;
            } else {
                return None;
            }
        } else if b >= 0x20 {
            j += 1;
        } else {
            return None;
        }
        proof {
            lemma_string_body_end_bounds(s@, j as int);
        }
    }
}

/// Scans a complete string token (quotes included) starting at `i`.
pub fn string_end_exec(s: &[u8], i: usize) -> (r: Option<usize>)
    requires
        i <= s@.len(),
    ensures
        match r {
            Some(e) => string_end(s@, i as int) == Some(e as int) && i < e <= s@.len(),
            None => string_end(s@, i as int) is None,
        },
{
    if i < s.len() && s[i] == QUOTE {
        string_body_end_exec(s, i + 1)
    } else {
        None
    }
}

/// Scans a JSON number token starting at `i`.
pub fn number_end_exec(s: &[u8], i: usize) -> (r: Option<usize>)
    requires
        i <= s@.len(),
    ensures
        match r {
            Some(e) => number_end(s@, i as int) == Some(e as int) && i < e <= s@.len(),
            None => number_end(s@, i as int) is None,
        },
{
    proof {
        lemma_number_end_bounds(s@, i as int);
    }
    let len = s.len();
    let j0 = if i < len && s[i] == MINUS {
        i + 1
    } else {
        i
    };
    if !(j0 < len && DIGIT_ZERO <= s[j0] && s[j0] <= DIGIT_NINE) {
        return None;
    }
    let j1 = if s[j0] == DIGIT_ZERO {
        j0 + 1
    } else {
        skip_digits_exec(s, j0)
    };
    let j2 = if j1 < len && s[j1] == DOT {
        let f = skip_digits_exec(s, j1 + 1);
        if f == j1 + 1 {
            return None;
        }
        f
    } else {
        j1
    };
    if j2 < len && (s[j2] == LOWER_E || s[j2] == UPPER_E) {
        let k = if j2 + 1 < len && (s[j2 + 1] == PLUS || s[j2 + 1] == MINUS) {
            j2 + 2
        } else {
            j2 + 1
        };
        let f = skip_digits_exec(s, k);
        if f == k {
            return None;
        }
        Some(f)
    } else {
        Some(j2)
    }
}

/// Do the bytes of `lit` stand in `s` at position `i`?
pub fn match_bytes_exec(s: &[u8], i: usize, lit: &[u8]) -> (r: bool)
    requires
        i <= s@.len(),
    ensures
        r == match_bytes(s@, i as int, lit@),
{
    let len = s.len();
    let llen = lit.len();
    if len - i < llen {
        return false;
    }
    let mut k: usize = 0;
    while k < llen
        invariant
            k <= llen,
            llen == lit@.len(),
            len == s@.len(),
            i + llen <= len,
            forall|j: int| 0 <= j < k ==> s@[i + j] == lit@[j],
        decreases llen - k,
    {
        if s[i + k] != lit[k] {
            proof {
                assert(s@.subrange(i as int, i + llen)[k as int] != lit@[k as int]);
            }
            return false;
        }
        k += 1;
    }
    proof {
        assert(s@.subrange(i as int, i + llen) =~= lit@);
    }
    true
}

/// The bytes of the literal `true`.
pub open spec fn lit_true() -> Seq<u8> {
    seq![LOWER_T, LOWER_R, LOWER_U, LOWER_E]
}

/// The bytes of the literal `false`.
pub open spec fn lit_false() -> Seq<u8> {
    seq![LOWER_F, LOWER_A, LOWER_L, LOWER_S, LOWER_E]
}

/// The bytes of the literal `null`.
pub open spec fn lit_null() -> Seq<u8> {
    seq![LOWER_N, LOWER_U, LOWER_L, LOWER_L]
}

/// The bytes of the quoted member name `"target"`.
pub open spec fn key_target() -> Seq<u8> {
    seq![QUOTE, LOWER_T, LOWER_A, LOWER_R, LOWER_G, LOWER_E, LOWER_T, QUOTE]
}

/// The bytes of the quoted member name `"color"`.
pub open spec fn key_color() -> Seq<u8> {
    seq![QUOTE, LOWER_C, LOWER_O, LOWER_L, LOWER_O, LOWER_R, QUOTE]
}

/// The bytes of the quoted member name `"brightness"`.
pub open spec fn key_brightness() -> Seq<u8> {
    seq![QUOTE, LOWER_B, LOWER_R, LOWER_I, LOWER_G, LOWER_H, LOWER_T, LOWER_N, LOWER_E, LOWER_S, LOWER_S, QUOTE]
}

/// A color value: a string token, or `null` for an absent color.
/// The token bytes are kept verbatim; `null` stands for `None`.
pub open spec fn color_value(s: Seq<u8>, i: int) -> Option<(Option<Seq<u8>>, int)> {
    if match_bytes(s, i, lit_null()) {
        Some((None, i + 4))
    } else {
        match string_end(s, i) {
            Some(e) => Some((Some(s.subrange(i, e)), e)),
            None => None,
        }
    }
}

/// A brightness value: a number token, or `null` for an absent
/// brightness.
pub open spec fn bright_value(s: Seq<u8>, i: int) -> Option<(Option<Seq<u8>>, int)> {
    if match_bytes(s, i, lit_null()) {
        Some((None, i + 4))
    } else {
        match number_end(s, i) {
            Some(e) => Some((Some(s.subrange(i, e)), e)),
            None => None,
        }
    }
}

/// One member of the state-family object, starting at the opening
/// quote of its name: `(named color?, value, index after the value)`.
pub open spec fn member(s: Seq<u8>, i: int) -> Option<(bool, Option<Seq<u8>>, int)> {
    let key_c = match_bytes(s, i, key_color());
    let key_b = match_bytes(s, i, key_brightness());
    if !key_c && !key_b {
        None
    } else {
        let klen: int = if key_c {
            key_color().len() as int
        } else {
            key_brightness().len() as int
        };
        let i2 = skip_ws(s, i + klen);
        if !(i2 < s.len() && s[i2] == COLON) {
            None
        } else {
            let i3 = skip_ws(s, i2 + 1);
            let v = if key_c {
                color_value(s, i3)
            } else {
                bright_value(s, i3)
            };
            match v {
                None => None,
                Some((val, e)) => Some((key_c, val, e)),
            }
        }
    }
}

/// The payload shape of a power command: an object holding exactly a
/// boolean `target` member.
pub open spec fn power_target(s: Seq<u8>) -> Option<bool> {
    let i0 = skip_ws(s, 0);
    if !(i0 < s.len() && s[i0] == LBRACE) {
        None
    } else {
        let i1 = skip_ws(s, i0 + 1);
        if !match_bytes(s, i1, key_target()) {
            None
        } else {
            let i2 = skip_ws(s, i1 + key_target().len());
            if !(i2 < s.len() && s[i2] == COLON) {
                None
            } else {
                let i3 = skip_ws(s, i2 + 1);
                let vb: Option<(bool, int)> = if match_bytes(s, i3, lit_true()) {
                    Some((true, i3 + 4))
                } else if match_bytes(s, i3, lit_false()) {
                    Some((false, i3 + 5))
                } else {
                    None
                };
                match vb {
                    None => None,
                    Some((v, i4)) => {
                        let i5 = skip_ws(s, i4);
                        if i5 < s.len() && s[i5] == RBRACE && skip_ws(s, i5 + 1) == s.len() {
                            Some(v)
                        } else {
                            None
                        }
                    }
                }
            }
        }
    }
}

/// The payload shape shared by the brightness, color and state
/// commands: an object with optional `color` and `brightness` members,
/// in either order, each at most once.  The result pairs the color
/// with the brightness, each as verbatim token bytes.
pub open spec fn state_fields(s: Seq<u8>) -> Option<(Option<Seq<u8>>, Option<Seq<u8>>)> {
    let i0 = skip_ws(s, 0);
    if !(i0 < s.len() && s[i0] == LBRACE) {
        None
    } else {
        let i1 = skip_ws(s, i0 + 1);
        if i1 < s.len() && s[i1] == RBRACE {
            if skip_ws(s, i1 + 1) == s.len() {
                Some((None, None))
            } else {
                None
            }
        } else {
            match member(s, i1) {
                None => None,
                Some((c1, v1, e1)) => {
                    let i2 = skip_ws(s, e1);
                    if i2 < s.len() && s[i2] == RBRACE {
                        if skip_ws(s, i2 + 1) == s.len() {
                            if c1 {
                                Some((v1, None))
                            } else {
                                Some((None, v1))
                            }
                        } else {
                            None
                        }
                    } else if i2 < s.len() && s[i2] == COMMA {
                        let i3 = skip_ws(s, i2 + 1);
                        match member(s, i3) {
                            None => None,
                            Some((c2, v2, e2)) => {
                                if c2 == c1 {
                                    None
                                } else {
                                    let i4 = skip_ws(s, e2);
                                    if i4 < s.len() && s[i4] == RBRACE && skip_ws(s, i4 + 1) == s.len() {
                                        if c1 {
                                            Some((v1, v2))
                                        } else {
                                            Some((v2, v1))
                                        }
                                    } else {
                                        None
                                    }
                                }
                            }
                        }
                    } else {
                        None
                    }
                }
            }
        }
    }
}

/// The byte-sequence view of an optional byte vector.
pub open spec fn opt_bytes(v: Option<Vec<u8>>) -> Option<Seq<u8>> {
    match v {
        Some(b) => Some(b@),
        None => None,
    }
}

/// Builds the bytes of the quoted member name `"target"`.
pub(crate) fn key_target_vec() -> (v: Vec<u8>)
    ensures
        v@ == key_target(),
{
    let mut v: Vec<u8> = Vec::new();
    v.push(QUOTE);
    v.push(LOWER_T);
    v.push(LOWER_A);
    v.push(LOWER_R);
    v.push(LOWER_G);
    v.push(LOWER_E);
    v.push(LOWER_T);
    v.push(QUOTE);
    proof {
        assert(v@ =~= key_target());
    }
    v
}

/// Builds the bytes of the quoted member name `"color"`.
pub(crate) fn key_color_vec() -> (v: Vec<u8>)
    ensures
        v@ == key_color(),
{
    let mut v: Vec<u8> = Vec::new();
    v.push(QUOTE);
    v.push(LOWER_C);
    v.push(LOWER_O);
    v.push(LOWER_L);
    v.push(LOWER_O);
    v.push(LOWER_R);
    v.push(QUOTE);
    proof {
        assert(v@ =~= key_color());
    }
    v
}

/// Builds the bytes of the quoted member name `"brightness"`.
pub(crate) fn key_brightness_vec() -> (v: Vec<u8>)
    ensures
        v@ == key_brightness(),
{
    let mut v: Vec<u8> = Vec::new();
    v.push(QUOTE);
    v.push(LOWER_B);
    v.push(LOWER_R);
    v.push(LOWER_I);
    v.push(LOWER_G);
    v.push(LOWER_H);
    v.push(LOWER_T);
    v.push(LOWER_N);
    v.push(LOWER_E);
    v.push(LOWER_S);
    v.push(LOWER_S);
    v.push(QUOTE);
    proof {
        assert(v@ =~= key_brightness());
    }
    v
}

/// Builds the bytes of the literal `true`.
pub(crate) fn lit_true_vec() -> (v: Vec<u8>)
    ensures
        v@ == lit_true(),
{
    let mut v: Vec<u8> = Vec::new();
    v.push(LOWER_T);
    v.push(LOWER_R);
    v.push(LOWER_U);
    v.push(LOWER_E);
    proof {
        assert(v@ =~= lit_true());
    }
    v
}

/// Builds the bytes of the literal `false`.
pub(crate) fn lit_false_vec() -> (v: Vec<u8>)
    ensures
        v@ == lit_false(),
{
    let mut v: Vec<u8> = Vec::new();
    v.push(LOWER_F);
    v.push(LOWER_A);
    v.push(LOWER_L);
    v.push(LOWER_S);
    v.push(LOWER_E);
    proof {
        assert(v@ =~= lit_false());
    }
    v
}

/// Builds the bytes of the literal `null`.
pub(crate) fn lit_null_vec() -> (v: Vec<u8>)
    ensures
        v@ == lit_null(),
{
    let mut v: Vec<u8> = Vec::new();
    v.push(LOWER_N);
    v.push(LOWER_U);
    v.push(LOWER_L);
    v.push(LOWER_L);
    proof {
        assert(v@ =~= lit_null());
    }
    v
}

/// Parses a color value at `i`: `null`, or a string token taken
/// verbatim.
fn color_value_exec(s: &[u8], i: usize) -> (r: Option<(Option<Vec<u8>>, usize)>)
    requires
        i <= s@.len(),
    ensures
        match r {
            Some(t) => color_value(s@, i as int) == Some((opt_bytes(t.0), t.1 as int))
                && t.1 <= s@.len(),
            None => color_value(s@, i as int) is None,
        },
{
    let slen = s.len();
    proof {
        assert(i + 4 <= slen || !match_bytes(s@, i as int, lit_null()));
    }
    let null_lit = lit_null_vec();
    if match_bytes_exec(s, i, null_lit.as_slice()) {
        proof {
            assert(lit_null().len() == 4);
        }
        Some((None, i + 4))
    } else {
        match string_end_exec(s, i) {
            Some(e) => {
                let token = vstd::slice::slice_to_vec(vstd::slice::slice_subrange(s, i, e));
                Some((Some(token), e))
            }
            None => None,
        }
    }
}

/// Parses a brightness value at `i`: `null`, or a number token taken
/// verbatim.
fn bright_value_exec(s: &[u8], i: usize) -> (r: Option<(Option<Vec<u8>>, usize)>)
    requires
        i <= s@.len(),
    ensures
        match r {
            Some(t) => bright_value(s@, i as int) == Some((opt_bytes(t.0), t.1 as int))
                && t.1 <= s@.len(),
            None => bright_value(s@, i as int) is None,
        },
{
    let slen = s.len();
    proof {
        assert(i + 4 <= slen || !match_bytes(s@, i as int, lit_null()));
    }
    let null_lit = lit_null_vec();
    if match_bytes_exec(s, i, null_lit.as_slice()) {
        proof {
            assert(lit_null().len() == 4);
        }
        Some((None, i + 4))
    } else {
        match number_end_exec(s, i) {
            Some(e) => {
                let token = vstd::slice::slice_to_vec(vstd::slice::slice_subrange(s, i, e));
                Some((Some(token), e))
            }
            None => None,
        }
    }
}

/// Parses one member of the state-family object at `i`.
fn member_exec(s: &[u8], i: usize) -> (r: Option<(bool, Option<Vec<u8>>, usize)>)
    requires
        i <= s@.len(),
    ensures
        match r {
            Some(t) => member(s@, i as int) == Some((t.0, opt_bytes(t.1), t.2 as int))
                && t.2 <= s@.len(),
            None => member(s@, i as int) is None,
        },
{
    let slen = s.len();
    let color_key = key_color_vec();
    let bright_key = key_brightness_vec();
    let key_c = match_bytes_exec(s, i, color_key.as_slice());
    let key_b = match_bytes_exec(s, i, bright_key.as_slice());
    if !key_c && !key_b {
        return None;
    }
    let klen: usize = if key_c {
        color_key.len()
    } else {
        bright_key.len()
    };
    proof {
        assert(key_color().len() == 7);
        assert(key_brightness().len() == 12);
    }
    let i2 = skip_ws_exec(s, i + klen);
    if !(i2 < s.len() && s[i2] == COLON) {
        return None;
    }
    let i3 = skip_ws_exec(s, i2 + 1);
    let v = if key_c {
        color_value_exec(s, i3)
    } else {
        bright_value_exec(s, i3)
    };
    match v {
        None => None,
        Some((val, e)) => Some((key_c, val, e)),
    }
}

/// Parses a power payload: an object holding exactly a boolean
/// `target` member.
pub fn power_target_exec(s: &[u8]) -> (r: Option<bool>)
    ensures
        r == power_target(s@),
{
    let i0 = skip_ws_exec(s, 0);
    if !(i0 < s.len() && s[i0] == LBRACE) {
        return None;
    }
    let i1 = skip_ws_exec(s, i0 + 1);
    let target_key = key_target_vec();
    if !match_bytes_exec(s, i1, target_key.as_slice()) {
        return None;
    }
    let i2 = skip_ws_exec(s, i1 + target_key.len());
    if !(i2 < s.len() && s[i2] == COLON) {
        return None;
    }
    let i3 = skip_ws_exec(s, i2 + 1);
    let true_lit = lit_true_vec();
    let false_lit = lit_false_vec();
    let (v, i4) = if match_bytes_exec(s, i3, true_lit.as_slice()) {
        (true, i3 + 4)
    } else if match_bytes_exec(s, i3, false_lit.as_slice()) {
        (false, i3 + 5)
    } else {
        return None;
    };
    let i5 = skip_ws_exec(s, i4);
    if i5 < s.len() && s[i5] == RBRACE && skip_ws_exec(s, i5 + 1) == s.len() {
        Some(v)
    } else {
        None
    }
}

/// Parses a state-family payload: an object with optional `color` and
/// `brightness` members, in either order, each at most once.
pub fn state_fields_exec(s: &[u8]) -> (r: Option<(Option<Vec<u8>>, Option<Vec<u8>>)>)
    ensures
        match r {
            Some(t) => state_fields(s@) == Some((opt_bytes(t.0), opt_bytes(t.1))),
            None => state_fields(s@) is None,
        },
{
    let i0 = skip_ws_exec(s, 0);
    if !(i0 < s.len() && s[i0] == LBRACE) {
        return None;
    }
    let i1 = skip_ws_exec(s, i0 + 1);
    if i1 < s.len() && s[i1] == RBRACE {
        if skip_ws_exec(s, i1 + 1) == s.len() {
            return Some((None, None));
        }
        return None;
    }
    let (c1, v1, e1) = match member_exec(s, i1) {
        None => {
            return None;
        }
        Some(t) => t,
    };
    let i2 = skip_ws_exec(s, e1);
    if i2 < s.len() && s[i2] == RBRACE {
        if skip_ws_exec(s, i2 + 1) == s.len() {
            if c1 {
                return Some((v1, None));
            }
            return Some((None, v1));
        }
        return None;
    }
    if i2 < s.len() && s[i2] == COMMA {
        let i3 = skip_ws_exec(s, i2 + 1);
        let (c2, v2, e2) = match member_exec(s, i3) {
            None => {
                return None;
            }
            Some(t) => t,
        };
        if c2 == c1 {
            return None;
        }
        let i4 = skip_ws_exec(s, e2);
        if i4 < s.len() && s[i4] == RBRACE && skip_ws_exec(s, i4 + 1) == s.len() {
            if c1 {
                return Some((v1, v2));
            }
            return Some((v2, v1));
        }
        return None;
    }
    None
}

/// Bytes that could extend a number token were they to follow it.
pub open spec fn is_number_cont(b: u8) -> bool {
    is_digit(b) || b == DOT || b == LOWER_E || b == UPPER_E || b == PLUS || b == MINUS
}

/// A digit run of `v` scans the same inside `s` at offset `off`,
/// provided nothing right after the embedded copy could extend a run
/// that reaches the end of `v`.
proof fn lemma_skip_digits_frame(v: Seq<u8>, s: Seq<u8>, off: int, j: int)
    requires
        0 <= off,
        off + v.len() <= s.len(),
        s.subrange(off, off + v.len()) == v,
        0 <= j <= v.len(),
        skip_digits(v, j) == v.len() ==> (off + v.len() == s.len() || !is_digit(s[off + v.len()])),
    ensures
        skip_digits(s, off + j) == off + skip_digits(v, j),
    decreases v.len() - j,
{
    assert forall|k: int| 0 <= k < v.len() implies s[off + k] == v[k] by {
        assert(s.subrange(off, off + v.len())[k] == s[off + k]);
    }
    if j == v.len() {
    } else if is_digit(v[j]) {
        lemma_skip_digits_frame(v, s, off, j + 1);
    }
}

/// A complete number token scans to its own end inside `s` at offset
/// `off`, provided the byte right after it (if any) could not extend
/// the token.
pub proof fn lemma_number_end_frame(v: Seq<u8>, s: Seq<u8>, off: int)
    requires
        0 <= off,
        off + v.len() <= s.len(),
        s.subrange(off, off + v.len()) == v,
        is_number_token(v),
        off + v.len() == s.len() || !is_number_cont(s[off + v.len()]),
    ensures
        number_end(s, off) == Some(off + v.len()),
{
    assert forall|k: int| 0 <= k < v.len() implies s[off + k] == v[k] by {
        assert(s.subrange(off, off + v.len())[k] == s[off + k]);
    }
    lemma_number_end_bounds(v, 0);
    let j0: int = if 0 < v.len() && v[0] == MINUS {
        1
    } else {
        0
    };
    assert(j0 < v.len() && is_digit(v[j0]));
    let j1 = if v[j0] == DIGIT_ZERO {
        j0 + 1
    } else {
        skip_digits(v, j0)
    };
    if v[j0] != DIGIT_ZERO {
        lemma_skip_digits(v, j0);
        lemma_skip_digits_frame(v, s, off, j0);
    }
    assert(j0 <= j1 <= v.len());
    match frac_end(v, j1) {
        None => {
            assert(false);
        }
        Some(j2) => {
            if j1 < v.len() && v[j1] == DOT {
                lemma_skip_digits(v, j1 + 1);
                lemma_skip_digits_frame(v, s, off, j1 + 1);
            }
            assert(j1 <= j2 <= v.len());
            assert(frac_end(s, off + j1) == Some(off + j2));
            match exp_end(v, j2) {
                None => {
                    assert(false);
                }
                Some(j3) => {
                    assert(j3 == v.len());
                    if j2 < v.len() && (v[j2] == LOWER_E || v[j2] == UPPER_E) {
                        let k = if j2 + 1 < v.len() && (v[j2 + 1] == PLUS || v[j2 + 1] == MINUS) {
                            j2 + 2
                        } else {
                            j2 + 1
                        };
                        if k <= v.len() {
                            lemma_skip_digits(v, k);
                            lemma_skip_digits_frame(v, s, off, k);
                        }
                        assert(exp_end(s, off + j2) == Some(off + j3));
                    } else {
                        assert(j2 == v.len());
                        assert(exp_end(s, off + j2) == Some(off + j3));
                    }
                }
            }
        }
    }
}

/// A string body of `v` scans the same inside `s` at offset `off`.
pub proof fn lemma_string_body_end_frame(v: Seq<u8>, s: Seq<u8>, off: int, j: int)
    requires
        0 <= off,
        off + v.len() <= s.len(),
        s.subrange(off, off + v.len()) == v,
        0 <= j <= v.len(),
        string_body_end(v, j) is Some,
    ensures
        string_body_end(s, off + j) == Some(off + string_body_end(v, j)->0),
    decreases v.len() - j,
{
    assert forall|k: int| 0 <= k < v.len() implies s[off + k] == v[k] by {
        assert(s.subrange(off, off + v.len())[k] == s[off + k]);
    }
    lemma_string_body_end_bounds(v, j);
    assert(j < v.len());
    if v[j] == QUOTE {
    } else if v[j] == BACKSLASH {
        if j + 1 < v.len() && is_escape_char(v[j + 1]) {
            lemma_string_body_end_frame(v, s, off, j + 2);
        } else if j + 5 < v.len() && v[j + 1] == LOWER_U && is_hex(v[j + 2]) && is_hex(v[j + 3])
            && is_hex(v[j + 4]) && is_hex(v[j + 5]) {
            lemma_string_body_end_frame(v, s, off, j + 6);
        } else {
            assert(false);
        }
    } else if v[j] >= 0x20 {
        lemma_string_body_end_frame(v, s, off, j + 1);
    } else {
        assert(false);
    }
}

/// A complete string token scans to its own end inside `s` at offset
/// `off`.
pub proof fn lemma_string_end_frame(v: Seq<u8>, s: Seq<u8>, off: int)
    requires
        0 <= off,
        off + v.len() <= s.len(),
        s.subrange(off, off + v.len()) == v,
        is_string_token(v),
    ensures
        string_end(s, off) == Some(off + v.len()),
{
    assert(s[off] == s.subrange(off, off + v.len())[0]);
    lemma_string_body_end_frame(v, s, off, 1);
}

/// The value bytes standing for an optional token: the token itself,
/// or `null`.
pub open spec fn value_or_null(v: Option<Seq<u8>>) -> Seq<u8> {
    match v {
        Some(t) => t,
        None => lit_null(),
    }
}

/// The serialized power payload: `{"target":<bool>}`.
pub open spec fn power_payload_bytes(target: bool) -> Seq<u8> {
    seq![LBRACE] + key_target() + seq![COLON] + (if target {
        lit_true()
    } else {
        lit_false()
    }) + seq![RBRACE]
}

/// The serialized state-family payload:
/// `{"color":<color>,"brightness":<brightness>}`, with `null` standing
/// for an absent field.
pub open spec fn state_payload_bytes(color: Option<Seq<u8>>, brightness: Option<Seq<u8>>) -> Seq<u8> {
    seq![LBRACE] + key_color() + seq![COLON] + value_or_null(color) + seq![COMMA]
        + key_brightness() + seq![COLON] + value_or_null(brightness) + seq![RBRACE]
}

/// Decoding a serialized power payload yields the target it was built
/// from.
pub proof fn lemma_power_payload_round(target: bool)
    ensures
        power_target(power_payload_bytes(target)) == Some(target),
{
    let s = power_payload_bytes(target);
    let vlen: int = if target {
        4
    } else {
        5
    };
    assert(s.len() == 11 + vlen);
    assert(s[0] == LBRACE);
    assert(skip_ws(s, 0) == 0);
    assert(skip_ws(s, 1) == 1);
    assert(s.subrange(1, 9) =~= key_target());
    assert(match_bytes(s, 1, key_target()));
    assert(s[9] == COLON);
    assert(skip_ws(s, 9) == 9);
    assert(skip_ws(s, 10) == 10);
    if target {
        assert(s.subrange(10, 14) =~= lit_true());
        assert(match_bytes(s, 10, lit_true()));
    } else {
        assert(s[10] == LOWER_F);
        assert(!match_bytes(s, 10, lit_true())) by {
            if match_bytes(s, 10, lit_true()) {
                assert(s.subrange(10, 14)[0] == lit_true()[0]);
            }
        }
        assert(s.subrange(10, 15) =~= lit_false());
        assert(match_bytes(s, 10, lit_false()));
    }
    assert(s[10 + vlen] == RBRACE);
    assert(skip_ws(s, 10 + vlen) == 10 + vlen);
    assert(skip_ws(s, 11 + vlen) == s.len());
}

/// Decoding a serialized state-family payload yields the fields it was
/// built from, provided they are well-formed tokens.
#[verifier::rlimit(100)]
pub proof fn lemma_state_payload_round(color: Option<Seq<u8>>, brightness: Option<Seq<u8>>)
    requires
        color matches Some(v) ==> is_string_token(v),
        brightness matches Some(v) ==> is_number_token(v),
    ensures
        state_fields(state_payload_bytes(color, brightness)) == Some((color, brightness)),
{
    let s = state_payload_bytes(color, brightness);
    let cv = value_or_null(color);
    let bv = value_or_null(brightness);
    let clen = cv.len() as int;
    let blen = bv.len() as int;
    assert(s.len() == 24 + clen + blen);
    match color {
        Some(v) => {
            assert(v[0] == QUOTE);
            lemma_string_body_end_bounds(v, 1);
        }
        None => {}
    }
    match brightness {
        Some(v) => {
            assert(v[0] == MINUS || is_digit(v[0])) by {
                assert(number_end(v, 0) is Some);
            }
            lemma_number_end_bounds(v, 0);
        }
        None => {}
    }
    assert(cv.len() >= 2 || cv == lit_null());
    assert(s[0] == LBRACE);
    assert(skip_ws(s, 0) == 0);
    assert(skip_ws(s, 1) == 1);
    assert(s[1] == QUOTE);
    assert(s[1] != RBRACE);
    // the first member: "color"
    assert(s.subrange(1, 8) =~= key_color());
    assert(match_bytes(s, 1, key_color()));
    assert(s[8] == COLON);
    assert(skip_ws(s, 8) == 8);
    assert(skip_ws(s, 9) == 9);
    assert(s.subrange(9, 9 + clen) =~= cv);
    match color {
        None => {
            assert(match_bytes(s, 9, lit_null()));
            assert(color_value(s, 9) == Some((None::<Seq<u8>>, 9 + clen)));
        }
        Some(v) => {
            assert(s[9] == QUOTE);
            assert(!match_bytes(s, 9, lit_null())) by {
                if match_bytes(s, 9, lit_null()) {
                    assert(s.subrange(9, 13)[0] == lit_null()[0]);
                }
            }
            lemma_string_end_frame(v, s, 9);
            assert(color_value(s, 9) == Some((Some(v), 9 + clen)));
        }
    }
    assert(member(s, 1) == Some((true, color, 9 + clen)));
    // the separator and the second member: "brightness"
    assert(s[9 + clen] == COMMA);
    assert(skip_ws(s, 9 + clen) == 9 + clen);
    assert(skip_ws(s, 10 + clen) == 10 + clen);
    assert(s[10 + clen] == QUOTE);
    assert(s.subrange(10 + clen, 22 + clen) =~= key_brightness());
    assert(match_bytes(s, 10 + clen, key_brightness()));
    assert(s[11 + clen] == LOWER_B);
    assert(!match_bytes(s, 10 + clen, key_color())) by {
        if match_bytes(s, 10 + clen, key_color()) {
            assert(s.subrange(10 + clen, 17 + clen)[1] == key_color()[1]);
        }
    }
    assert(s[22 + clen] == COLON);
    assert(skip_ws(s, 22 + clen) == 22 + clen);
    assert(skip_ws(s, 23 + clen) == 23 + clen);
    assert(s.subrange(23 + clen, 23 + clen + blen) =~= bv);
    assert(s[23 + clen + blen] == RBRACE);
    match brightness {
        None => {
            assert(match_bytes(s, 23 + clen, lit_null()));
            assert(bright_value(s, 23 + clen) == Some((None::<Seq<u8>>, 23 + clen + blen)));
        }
        Some(v) => {
            assert(s[23 + clen] == v[0]);
            assert(!match_bytes(s, 23 + clen, lit_null())) by {
                if match_bytes(s, 23 + clen, lit_null()) {
                    assert(s.subrange(23 + clen, 27 + clen)[0] == lit_null()[0]);
                }
            }
            assert(!is_number_cont(RBRACE));
            lemma_number_end_frame(v, s, 23 + clen);
            assert(bright_value(s, 23 + clen) == Some((Some(v), 23 + clen + blen)));
        }
    }
    assert(member(s, 10 + clen) == Some((false, brightness, 23 + clen + blen)));
    assert(skip_ws(s, 23 + clen + blen) == 23 + clen + blen);
    assert(skip_ws(s, 24 + clen + blen) == s.len());
}

} // verus!
