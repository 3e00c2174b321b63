//! ASCII rules for header names and values, over sequences of characters.

use vstd::prelude::*;

verus! {

/// The character with ASCII upper-case letters mapped to lower case.
pub open spec fn fold_char(c: char) -> char {
    if 'A' <= c && c <= 'Z' {
        ((c as u8) + 32) as char
    } else {
        c
    }
}

/// A sequence with every character folded to ASCII lower case.
pub open spec fn fold(s: Seq<char>) -> Seq<char> {
    Seq::new(s.len(), |i: int| fold_char(s[i]))
}

/// Whether `c` may occur in a header name: a letter, a digit, or one of
/// ``! # $ % & ' * + - . ^ _ ` | ~``.
pub open spec fn is_token_char(c: char) -> bool {
    ||| ('a' <= c && c <= 'z')
    ||| ('A' <= c && c <= 'Z')
    ||| ('0' <= c && c <= '9')
    ||| c == '!'
    ||| c == '#'
    ||| c == '$'
    ||| c == '%'
    ||| c == '&'
    ||| c == '\''
    ||| c == '*'
    ||| c == '+'
    ||| c == '-'
    ||| c == '.'
    ||| c == '^'
    ||| c == '_'
    ||| c == '`'
    ||| c == '|'
    ||| c == '~'
}

/// A header name is a non-empty run of token characters.
pub open spec fn is_name(s: Seq<char>) -> bool {
    s.len() > 0 && forall|i: int| 0 <= i < s.len() ==> is_token_char(#[trigger] s[i])
}

/// Whether `c` may occur in a header value: anything but NUL, line feed and
/// carriage return.
pub open spec fn is_value_char(c: char) -> bool {
    c != '\0' && c != '\n' && c != '\r'
}

/// A header value holds no NUL, line feed or carriage return.
pub open spec fn is_value(s: Seq<char>) -> bool {
    forall|i: int| 0 <= i < s.len() ==> is_value_char(#[trigger] s[i])
}

/// Folding twice is folding once.
pub proof fn lemma_fold_idempotent(s: Seq<char>)
    ensures
        fold(fold(s)) == fold(s),
{
    assert(fold(fold(s)) =~= fold(s));
}

/// Folding keeps the length and maps token characters to token characters.
pub proof fn lemma_fold_keeps_name(s: Seq<char>)
    requires
        is_name(s),
    ensures
        is_name(fold(s)),
{
    assert forall|i: int| 0 <= i < fold(s).len() implies is_token_char(#[trigger] fold(s)[i]) by {
        assert(is_token_char(s[i]));
    }
}

/// `String::push` appends one character to the end of the string.
pub assume_specification[ String::push ](s: &mut String, c: char)
    ensures
        final(s)@ == old(s)@.push(c),
;

/// `c` folded to ASCII lower case.
pub fn fold_one(c: char) -> (r: char)
    ensures
        r == fold_char(c),
{
    if 'A' <= c && c <= 'Z' {
        let b: u8 = c as u8;
        (b + 32) as char
    } else {
        c
    }
}

/// Whether `c` may occur in a header name.
pub fn token_char(c: char) -> (b: bool)
    ensures
        b == is_token_char(c),
{
    ('a' <= c && c <= 'z') || ('A' <= c && c <= 'Z') || ('0' <= c && c <= '9') || c == '!' || c
        == '#' || c == '$' || c == '%' || c == '&' || c == '\'' || c == '*' || c == '+' || c == '-'
        || c == '.' || c == '^' || c == '_' || c == '`' || c == '|' || c == '~'
}

/// The text of `s` folded to ASCII lower case.
pub fn folded(s: &str) -> (r: String)
    ensures
        r@ == fold(s@),
{
    let n: usize = s.unicode_len();
    let mut out = String::new();
    let mut i: usize = 0;
    while i < n
        invariant
            n == s@.len(),
            i <= n,
            out@ == fold(s@.take(i as int)),
        decreases n - i,
    {
        let c = fold_one(s.get_char(i));
        out.push(c);
        i = i + 1;
        assert(out@ =~= fold(s@.take(i as int)));
    }
    assert(s@.take(n as int) =~= s@);
    out
}

/// Whether `s` is a header name.
pub fn check_name(s: &str) -> (b: bool)
    ensures
        b == is_name(s@),
{
    let n: usize = s.unicode_len();
    if n == 0 {
        return false;
    }
    let mut i: usize = 0;
    while i < n
        invariant
            n == s@.len(),
            i <= n,
            forall|j: int| 0 <= j < i ==> is_token_char(#[trigger] s@[j]),
        decreases n - i,
    {
        if !token_char(s.get_char(i)) {
            return false;
        }
        i = i + 1;
    }
    true
}

/// Whether `s` is a header value.
pub fn check_value(s: &str) -> (b: bool)
    ensures
        b == is_value(s@),
{
    let n: usize = s.unicode_len();
    let mut i: usize = 0;
    while i < n
        invariant
            n == s@.len(),
            i <= n,
            forall|j: int| 0 <= j < i ==> is_value_char(#[trigger] s@[j]),
        decreases n - i,
    {
        let c = s.get_char(i);
        if c == '\0' || c == '\n' || c == '\r' {
            return false;
        }
        i = i + 1;
    }
    true
}

} // verus!
