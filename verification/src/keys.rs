//! Feed-key derivation and small string-building helpers.
//!
//! A feed key is a URL- and filesystem-safe slug derived from the human
//! title: letters are lowercased, an uppercase letter right after a
//! lowercase one opens a new word, and every run of characters that is
//! not a lowercase letter or digit collapses to a single `_`.

use vstd::prelude::*;
use vstd::string::StrSliceExecFns;

verus! {

/// Characters that may appear in a feed key besides `_`.
pub open spec fn is_key_char(c: char) -> bool {
    ('a' <= c && c <= 'z') || ('0' <= c && c <= '9')
}

/// ASCII lowercasing of a single character; anything but `A`..`Z` is kept.
pub open spec fn lower_char(c: char) -> char {
    match c {
        'A' => 'a',
        'B' => 'b',
        'C' => 'c',
        'D' => 'd',
        'E' => 'e',
        'F' => 'f',
        'G' => 'g',
        'H' => 'h',
        'I' => 'i',
        'J' => 'j',
        'K' => 'k',
        'L' => 'l',
        'M' => 'm',
        'N' => 'n',
        'O' => 'o',
        'P' => 'p',
        'Q' => 'q',
        'R' => 'r',
        'S' => 's',
        'T' => 't',
        'U' => 'u',
        'V' => 'v',
        'W' => 'w',
        'X' => 'x',
        'Y' => 'y',
        'Z' => 'z',
        _ => c,
    }
}

pub open spec fn is_upper_letter(c: char) -> bool {
    'A' <= c && c <= 'Z'
}

pub open spec fn is_lower_letter(c: char) -> bool {
    'a' <= c && c <= 'z'
}

/// The sanitized form of a title: lowercased and word-separated — an
/// uppercase letter directly after a lowercase one opens a new word —
/// with every maximal run of non key characters (leading and trailing
/// runs included) replaced by a single `_`.
pub open spec fn spec_sanitize(s: Seq<char>) -> Seq<char>
    decreases s.len(),
{
    if s.len() == 0 {
        Seq::<char>::empty()
    } else {
        let rest = spec_sanitize(s.drop_last());
        let c = lower_char(s.last());
        if is_key_char(c) {
            if is_upper_letter(s.last()) && s.len() >= 2 && is_lower_letter(s[s.len() - 2])
                && rest.len() > 0 && rest.last() != '_' {
                rest.push('_').push(c)
            } else {
                rest.push(c)
            }
        } else if rest.len() > 0 && rest.last() == '_' {
            rest
        } else {
            rest.push('_')
        }
    }
}

/// What a finished key looks like: only key characters and `_`, with no
/// two `_` adjacent.
pub open spec fn is_sanitized(t: Seq<char>) -> bool {
    &&& forall|i: int| 0 <= i < t.len() ==> is_key_char(#[trigger] t[i]) || t[i] == '_'
    &&& forall|i: int| 0 < i < t.len() ==> !(#[trigger] t[i] == '_' && t[i - 1] == '_')
}

proof fn lemma_sanitize_shape(s: Seq<char>)
    ensures
        is_sanitized(spec_sanitize(s)),
    decreases s.len(),
{
    if s.len() > 0 {
        lemma_sanitize_shape(s.drop_last());
    }
}

proof fn lemma_sanitize_fixed(t: Seq<char>)
    requires
        is_sanitized(t),
    ensures
        spec_sanitize(t) == t,
    decreases t.len(),
{
    if t.len() == 0 {
        assert(spec_sanitize(t) =~= t);
    } else {
        assert(is_sanitized(t.drop_last()));
        lemma_sanitize_fixed(t.drop_last());
        let c = t.last();
        if is_key_char(c) {
            assert(lower_char(c) == c);
            assert(spec_sanitize(t) =~= t);
        } else {
            assert(c == '_');
            assert(lower_char(c) == '_');
            if t.len() == 1 {
                assert(spec_sanitize(t) =~= t);
            } else {
                assert(t[t.len() - 2] != '_');
                assert(spec_sanitize(t) =~= t);
            }
        }
    }
}

/// Key derivation is idempotent: sanitizing an already sanitized title
/// changes nothing. Two different titles may sanitize to the same key;
/// that collision is accepted by design.
pub proof fn lemma_sanitize_idempotent(s: Seq<char>)
    ensures
        spec_sanitize(spec_sanitize(s)) == spec_sanitize(s),
{
    lemma_sanitize_shape(s);
    lemma_sanitize_fixed(spec_sanitize(s));
}

fn lower_char_exec(c: char) -> (r: char)
    ensures
        r == lower_char(c),
{
    match c {
        'A' => 'a',
        'B' => 'b',
        'C' => 'c',
        'D' => 'd',
        'E' => 'e',
        'F' => 'f',
        'G' => 'g',
        'H' => 'h',
        'I' => 'i',
        'J' => 'j',
        'K' => 'k',
        'L' => 'l',
        'M' => 'm',
        'N' => 'n',
        'O' => 'o',
        'P' => 'p',
        'Q' => 'q',
        'R' => 'r',
        'S' => 's',
        'T' => 't',
        'U' => 'u',
        'V' => 'v',
        'W' => 'w',
        'X' => 'x',
        'Y' => 'y',
        'Z' => 'z',
        _ => c,
    }
}

fn is_key_char_exec(c: char) -> (r: bool)
    ensures
        r == is_key_char(c),
{
    ('a' <= c && c <= 'z') || ('0' <= c && c <= '9')
}

fn is_upper_letter_exec(c: char) -> (r: bool)
    ensures
        r == is_upper_letter(c),
{
    'A' <= c && c <= 'Z'
}

fn is_lower_letter_exec(c: char) -> (r: bool)
    ensures
        r == is_lower_letter(c),
{
    'a' <= c && c <= 'z'
}

/// Character-wise string equality.
pub fn str_eq(a: &str, b: &str) -> (r: bool)
    ensures
        r == (a@ == b@),
{
    let n = a.unicode_len();
    if n != b.unicode_len() {
        return false;
    }
    let mut i: usize = 0;
    while i < n
        invariant
            n == a@.len(),
            n == b@.len(),
            i <= n,
            forall|j: int| 0 <= j < i ==> a@[j] == b@[j],
        decreases n - i,
    {
        if a.get_char(i) != b.get_char(i) {
            return false;
        }
        i = i + 1;
    }
    proof {
        assert(a@ =~= b@);
    }
    true
}

/// Builds a `String` from a vector of characters.
///
/// Relies on `String`'s `FromIterator` implementation: collecting
/// characters yields exactly those characters in order.
#[verifier::external_body]
fn chars_to_string(v: &Vec<char>) -> (r: String)
    ensures
        r@ == v@,
{
    v.iter().collect()
}

/// Derives the stable feed key from a human blog title.
pub fn sanitize_blog_key(s: &str) -> (r: String)
    ensures
        r@ == spec_sanitize(s@),
{
    let n = s.unicode_len();
    let mut out: Vec<char> = Vec::new();
    let mut i: usize = 0;
    while i < n
        invariant
            n == s@.len(),
            i <= n,
            out@ == spec_sanitize(s@.take(i as int)),
        decreases n - i,
    {
        let orig = s.get_char(i);
        let c = lower_char_exec(orig);
        proof {
            assert(s@.take(i + 1).drop_last() =~= s@.take(i as int));
            assert(s@.take(i + 1).last() == s@[i as int]);
            if i >= 1 {
                assert(s@.take(i + 1)[i - 1] == s@[i - 1]);
            }
        }
        if is_key_char_exec(c) {
            let opens_word = is_upper_letter_exec(orig) && i > 0 && is_lower_letter_exec(
                s.get_char(i - 1),
            ) && out.len() > 0 && out[out.len() - 1] != '_';
            if opens_word {
                out.push('_');
            }
            out.push(c);
        } else if !(out.len() > 0 && out[out.len() - 1] == '_') {
            out.push('_');
        }
        i = i + 1;
    }
    proof {
        assert(s@.take(n as int) =~= s@);
    }
    chars_to_string(&out)
}

/// The decimal digit for a value below ten.
pub open spec fn digit_char(d: nat) -> char {
    if d == 0 {
        '0'
    } else if d == 1 {
        '1'
    } else if d == 2 {
        '2'
    } else if d == 3 {
        '3'
    } else if d == 4 {
        '4'
    } else if d == 5 {
        '5'
    } else if d == 6 {
        '6'
    } else if d == 7 {
        '7'
    } else if d == 8 {
        '8'
    } else {
        '9'
    }
}

/// The decimal rendering of a number, most significant digit first.
pub open spec fn spec_u64_digits(n: nat) -> Seq<char>
    decreases n,
{
    if n < 10 {
        seq![digit_char(n)]
    } else {
        spec_u64_digits(n / 10).push(digit_char(n % 10))
    }
}

fn digit_char_exec(d: u64) -> (r: char)
    requires
        d < 10,
    ensures
        r == digit_char(d as nat),
{
    match d {
        0 => '0',
        1 => '1',
        2 => '2',
        3 => '3',
        4 => '4',
        5 => '5',
        6 => '6',
        7 => '7',
        8 => '8',
        _ => '9',
    }
}

fn push_digits(n: u64, out: &mut Vec<char>)
    ensures
        final(out)@ == old(out)@ + spec_u64_digits(n as nat),
    decreases n,
{
    if n >= 10 {
        push_digits(n / 10, out);
    }
    out.push(digit_char_exec(n % 10));
    proof {
        if n < 10 {
            assert(out@ =~= old(out)@ + spec_u64_digits(n as nat));
        } else {
            assert(out@ =~= old(out)@ + spec_u64_digits(n as nat));
        }
    }
}

/// Renders a number in decimal, for building entry ids.
pub fn u64_to_string(n: u64) -> (r: String)
    ensures
        r@ == spec_u64_digits(n as nat),
{
    let mut out: Vec<char> = Vec::new();
    push_digits(n, &mut out);
    chars_to_string(&out)
}

} // verus!
