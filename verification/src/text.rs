//! Character and string primitives of the standard library that the lexer and
//! the parser call, with the contracts that the rest of the crate relies on.
//!
//! Nothing in this file is proved about the standard library itself: each
//! `assume_specification` states what the documentation of the function
//! promises, and the two predicates without a body stand for tables of the
//! Unicode character database.

use vstd::prelude::*;
use vstd::utf8::encode_scalar;
use vstd::utf8::encode_utf8;
use vstd::std_specs::iter::IteratorSpec;

verus! {

/// Stands for the result of `char::is_alphabetic` on `c`: whether `c` has the
/// `Alphabetic` property of the Unicode standard.
pub uninterp spec fn char_is_alphabetic(c: char) -> bool;

/// Stands for the result of `char::is_alphanumeric` on `c`: whether `c` is
/// alphabetic or numeric in the sense of the Unicode standard.
pub uninterp spec fn char_is_alphanumeric(c: char) -> bool;

/// `char::is_alphabetic` is a function of the character alone; its result is
/// named by [`char_is_alphabetic`].
pub assume_specification[ char::is_alphabetic ](c: char) -> (b: bool)
    ensures
        b == char_is_alphabetic(c),
;

/// `char::is_alphanumeric` is a function of the character alone; its result is
/// named by [`char_is_alphanumeric`].
pub assume_specification[ char::is_alphanumeric ](c: char) -> (b: bool)
    ensures
        b == char_is_alphanumeric(c),
;

/// `String::push` appends the character to the end of the string and changes
/// nothing else.
pub assume_specification[ String::push ](s: &mut String, c: char)
    ensures
        final(s)@ == old(s)@.push(c),
;

/// The ASCII lower case equivalent of `c`: `'A'..='Z'` map to `'a'..='z'`,
/// every other character to itself.
pub open spec fn ascii_lowercase_char(c: char) -> char {
    if 'A' <= c && c <= 'Z' {
        ((c as u8) + 32) as char
    } else {
        c
    }
}

/// `s` with every character replaced by its ASCII lower case equivalent.
pub open spec fn ascii_lowercase(s: Seq<char>) -> Seq<char> {
    s.map_values(|c: char| ascii_lowercase_char(c))
}

/// `str::to_ascii_lowercase` returns a copy of the string in which each
/// character is mapped to its ASCII lower case equivalent: the letters `A` to
/// `Z` become `a` to `z`, all other characters are unchanged.
pub assume_specification[ str::to_ascii_lowercase ](s: &str) -> (r: String)
    ensures
        r@ == ascii_lowercase(s@),
;

/// Every character takes at least one byte in UTF-8, so a string has at most
/// as many characters as bytes.
pub proof fn lemma_char_count_at_most_byte_count(chars: Seq<char>)
    ensures
        chars.len() <= encode_utf8(chars).len(),
    decreases chars.len(),
{
    if chars.len() > 0 {
        lemma_char_count_at_most_byte_count(chars.drop_first());
        assert(encode_scalar(chars[0] as u32).len() >= 1);
    }
}

/// The number of characters of `s`, bounded by its number of bytes, which the
/// machine can always represent.
pub fn char_count_bound(s: &str) -> (bound: usize)
    ensures
        s@.len() <= bound,
{
    proof {
        lemma_char_count_at_most_byte_count(s@);
    }
    s.as_bytes().len()
}

/// Whether `left` and `right` hold the same characters.
pub fn str_equals(left: &str, right: &str) -> (result: bool)
    ensures
        result == (left@ == right@),
{
    broadcast use vstd::string::group_string_axioms;

    let mut left_chars = left.chars();
    let mut right_chars = right.chars();
    let ghost mut read: int = 0;
    loop
        invariant
            0 <= read <= left@.len(),
            read <= right@.len(),
            left_chars.remaining() == left@.skip(read),
            right_chars.remaining() == right@.skip(read),
            left@.take(read) == right@.take(read),
            left_chars.obeys_prophetic_iter_laws(),
            right_chars.obeys_prophetic_iter_laws(),
        decreases left@.len() - read,
    {
        let ghost left_rest = left_chars.remaining();
        let ghost right_rest = right_chars.remaining();
        match (left_chars.next(), right_chars.next()) {
            (Some(a), Some(b)) => {
                if a != b {
                    assert(left@[read] != right@[read]);
                    return false;
                }
                proof {
                    assert(left@.skip(read + 1) =~= left_rest.drop_first());
                    assert(right@.skip(read + 1) =~= right_rest.drop_first());
                    assert(left@.take(read + 1) =~= left@.take(read).push(a));
                    assert(right@.take(read + 1) =~= right@.take(read).push(b));
                    read = read + 1;
                }
            },
            (None, None) => {
                proof {
                    assert(left@ =~= left@.take(read));
                    assert(right@ =~= right@.take(read));
                }
                return true;
            },
            _ => {
                assert(left@.len() != right@.len());
                return false;
            },
        }
    }
}

} // verus!
