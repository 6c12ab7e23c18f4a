//! Character-level helpers shared by the registry and the router:
//! ASCII case folding, string equality, and decimal position strings.

use vstd::prelude::*;
use vstd::string::*;

verus! {

/// ASCII lower-casing of a single character; anything outside `A..Z`
/// is left unchanged.
pub open spec fn lower_char(c: char) -> char {
    if 'A' <= c && c <= 'Z' {
        (((c as u32) + 32) as u8) as char
    } else {
        c
    }
}

/// ASCII lower-casing of a whole character sequence.
pub open spec fn lower(s: Seq<char>) -> Seq<char> {
    s.map_values(|c: char| lower_char(c))
}

/// Equality up to ASCII case, as `str::eq_ignore_ascii_case` has it.
pub open spec fn eq_ignore_ascii_case(a: Seq<char>, b: Seq<char>) -> bool {
    lower(a) == lower(b)
}

/// Lower-cases one character, ASCII-only.
pub fn lower_char_exec(c: char) -> (r: char)
    ensures
        r == lower_char(c),
{
    let u = c as u32;
    if 65 <= u && u <= 90 {
        ((u + 32) as u8) as char
    } else {
        c
    }
}

/// Exact string equality on views.
pub fn str_eq(a: &str, b: &str) -> (r: bool)
    ensures
        r == (a@ == b@),
{
    let alen = a.unicode_len();
    let blen = b.unicode_len();
    if alen != blen {
        return false;
    }
    let mut i: usize = 0;
    while i < alen
        invariant
            i <= alen,
            alen == a@.len(),
            alen == b@.len(),
            forall|j: int| 0 <= j < i ==> a@[j] == b@[j],
        decreases alen - i,
    {
        if a.get_char(i) != b.get_char(i) {
            return false;
        }
        i += 1;
    }
    proof {
        assert(a@ =~= b@);
    }
    true
}

/// String equality up to ASCII case.
pub fn str_eq_ignore_ascii_case(a: &str, b: &str) -> (r: bool)
    ensures
        r == eq_ignore_ascii_case(a@, b@),
{
    let alen = a.unicode_len();
    let blen = b.unicode_len();
    if alen != blen {
        return false;
    }
    let mut i: usize = 0;
    while i < alen
        invariant
            i <= alen,
            alen == a@.len(),
            alen == b@.len(),
            forall|j: int| 0 <= j < i ==> lower_char(a@[j]) == lower_char(b@[j]),
        decreases alen - i,
    {
        if lower_char_exec(a.get_char(i)) != lower_char_exec(b.get_char(i)) {
            proof {
                assert(lower(a@)[i as int] != lower(b@)[i as int]);
            }
            return false;
        }
        i += 1;
    }
    proof {
        assert(lower(a@) =~= lower(b@));
    }
    true
}

/// The decimal digit character for `n` in `0..10`.
pub open spec fn dec_digit(n: int) -> char {
    ((48 + n) as u8) as char
}

/// The canonical decimal representation of `n`: nonempty, all digits,
/// no leading zero unless `n` is zero itself.
pub open spec fn dec_rep(n: nat) -> Seq<char>
    decreases n,
{
    if n < 10 {
        seq![dec_digit(n as int)]
    } else {
        dec_rep(n / 10).push(dec_digit((n % 10) as int))
    }
}

/// Appends the decimal representation of `n` to `v`.
fn push_dec(v: &mut Vec<char>, n: usize)
    ensures
        final(v)@ == old(v)@ + dec_rep(n as nat),
    decreases n,
{
    if n >= 10 {
        push_dec(v, n / 10);
    }
    let d: u8 = 48 + (n % 10) as u8;
    v.push(d as char);
    proof {
        assert(final(v)@ =~= old(v)@ + dec_rep(n as nat));
    }
}

/// Does `s` spell exactly the decimal representation of `n`?
pub fn str_is_dec_of(s: &str, n: usize) -> (r: bool)
    ensures
        r == (s@ == dec_rep(n as nat)),
{
    let mut digits: Vec<char> = Vec::new();
    push_dec(&mut digits, n);
    let slen = s.unicode_len();
    if slen != digits.len() {
        return false;
    }
    let mut i: usize = 0;
    while i < slen
        invariant
            i <= slen,
            slen == s@.len(),
            slen == digits@.len(),
            digits@ == dec_rep(n as nat),
            forall|j: int| 0 <= j < i ==> s@[j] == digits@[j],
        decreases slen - i,
    {
        if s.get_char(i) != digits[i] {
            return false;
        }
        i += 1;
    }
    proof {
        assert(s@ =~= dec_rep(n as nat));
    }
    true
}

} // verus!
