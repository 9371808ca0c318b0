//! Specifications for the `String` operations the game's text handling uses.

use vstd::prelude::*;

verus! {

/// `String::clear`: afterwards the string is empty.
#[verifier::external_body]
pub(crate) fn string_clear(s: &mut String)
    ensures
        final(s)@ == Seq::<char>::empty(),
{
    s.clear();
}

/// `String::push`: appends `ch` to the end of the string.
#[verifier::external_body]
pub(crate) fn string_push(s: &mut String, ch: char)
    ensures
        final(s)@ == old(s)@.push(ch),
{
    s.push(ch);
}

/// `String::pop`: removes and returns the last character, or returns `None`
/// and leaves the string alone when it is empty.
#[verifier::external_body]
pub(crate) fn string_pop(s: &mut String) -> (ch: Option<char>)
    ensures
        old(s)@.len() == 0 ==> ch is None && final(s)@ == old(s)@,
        old(s)@.len() > 0 ==> ch == Some(old(s)@.last()) && final(s)@ == old(s)@.drop_last(),
{
    s.pop()
}

/// `<str as PartialEq>::eq`: two string slices are equal exactly when they
/// hold the same characters.
#[verifier::external_body]
pub(crate) fn str_eq(a: &str, b: &str) -> (same: bool)
    ensures
        same == (a@ == b@),
{
    a == b
}

/// `String::push_str`: appends `tail` to the end of the string.
#[verifier::external_body]
pub(crate) fn string_push_str(s: &mut String, tail: &str)
    ensures
        final(s)@ == old(s)@ + tail@,
{
    s.push_str(tail);
}

} // verus!
