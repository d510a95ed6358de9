//! Comparison of text.

use vstd::prelude::*;

verus! {

/// `str`'s `==`: whether two texts have the same characters.
#[verifier::external_body]
pub(crate) fn same_text(left: &str, right: &str) -> (same: bool)
    ensures
        same == (left@ == right@),
{
    left == right
}

/// A text in quotes, with its special characters escaped.
pub uninterp spec fn quoted_text(text: Seq<char>) -> Seq<char>;

/// `str`'s `Debug`: the text in quotes, with its special characters escaped.
#[verifier::external_body]
pub(crate) fn quote(text: &str) -> (quoted: String)
    ensures
        quoted@ == quoted_text(text@),
{
    format!("{:?}", text)
}

/// Whether there is a text and it is `expected`.
pub fn is_text(text: Option<&str>, expected: &str) -> (is: bool)
    ensures
        is == (text.deep_view() == Some(expected@)),
{
    match text {
        Some(held) => same_text(held, expected),
        None => false,
    }
}

/// A copy of an optional text.
pub fn copy_text(text: &Option<String>) -> (copy: Option<String>)
    ensures
        copy == *text,
{
    match text {
        Some(held) => Some(held.clone()),
        None => None,
    }
}

/// An owned copy of an optional text.
pub fn own_text(text: Option<&str>) -> (owned: Option<String>)
    ensures
        owned.deep_view() == text.deep_view(),
{
    match text {
        Some(held) => Some(held.to_owned()),
        None => None,
    }
}

/// An optional text, borrowed.
pub fn borrow_text(text: &Option<String>) -> (borrowed: Option<&str>)
    ensures
        borrowed.deep_view() == text.deep_view(),
{
    match text {
        Some(held) => Some(held.as_str()),
        None => None,
    }
}

} // verus!
