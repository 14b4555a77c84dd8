//! Text fields: UTF-8 decoding and the `KEY=VALUE` split.

use vstd::prelude::*;
use vstd::string::*;
use vstd::utf8::*;

verus! {

/// Whether `text` holds `=` at index `i`.
pub open spec fn is_separator(text: Seq<char>, i: int) -> bool {
    0 <= i < text.len() && text[i] == '='
}

/// Whether `text` holds `=` at index `i` and nowhere else.
pub open spec fn sole_separator(text: Seq<char>, i: int) -> bool {
    is_separator(text, i) && forall|j: int| is_separator(text, j) ==> j == i
}

/// The key and the value of a comment entry: what stands before and after
/// its `=`. An entry with no `=`, or with more than one, has neither.
pub open spec fn split_text(text: Seq<char>) -> Option<(Seq<char>, Seq<char>)> {
    if exists|i: int| sole_separator(text, i) {
        let i = choose|i: int| sole_separator(text, i);
        Some((text.take(i), text.skip(i + 1)))
    } else {
        None
    }
}

/// An entry whose only `=` stands at `i` splits there.
pub proof fn lemma_split_at(text: Seq<char>, i: int)
    requires
        sole_separator(text, i),
    ensures
        split_text(text) == Some((text.take(i), text.skip(i + 1))),
{
    let chosen = choose|j: int| sole_separator(text, j);
    assert(is_separator(text, chosen));
}

/// Trusted: the error type of `core::str::from_utf8`, carried through
/// unread.
#[verifier::external_type_specification]
#[verifier::external_body]
pub struct ExUtf8Error(core::str::Utf8Error);

/// Trusted: `core::str::from_utf8`. The standard library accepts a byte
/// slice exactly when it is well-formed UTF-8 and then hands the same bytes
/// back as a string slice; the contract states this with vstd's
/// `valid_utf8` and `decode_utf8`.
#[verifier::external_body]
pub(crate) fn utf8_text<'a>(bytes: &'a [u8]) -> (r: Result<&'a str, core::str::Utf8Error>)
    ensures
        r is Ok <==> valid_utf8(bytes@),
        r matches Ok(s) ==> s@ == decode_utf8(bytes@),
{
    core::str::from_utf8(bytes)
}

/// Splits a comment entry into its key and its value.
///
/// Returns `None` unless the entry holds exactly one `=`.
pub fn split_comment(text: &str) -> (r: Option<(String, String)>)
    ensures
        r is Some <==> split_text(text@) is Some,
        r matches Some((key, value)) ==> split_text(text@) == Some((key@, value@)),
{
    let n = text.unicode_len();
    let mut found: u8 = 0;
    let mut first: usize = 0;
    let mut i: usize = 0;
    let ghost second: int = 0;
    for c in it: text.chars()
        invariant
            it.seq() == text@,
            n == text@.len(),
            i == it.index(),
            found <= 2,
            found == 0 ==> forall|j: int| 0 <= j < i ==> !is_separator(text@, j),
            found == 1 ==> first < i && is_separator(text@, first as int) && forall|j: int|
                0 <= j < i && is_separator(text@, j) ==> j == first,
            found == 2 ==> is_separator(text@, first as int) && is_separator(text@, second)
                && second != first,
    {
        if c == '=' {
            if found == 0 {
                first = i;
                found = 1;
            } else if found == 1 {
                proof {
                    second = i as int;
                }
                found = 2;
            }
        }
        i = i + 1;
    }
    if found != 1 {
        proof {
            assert forall|j: int| !sole_separator(text@, j) by {
                if found == 2 && sole_separator(text@, j) {
                    assert(first as int == j && second == j);
                }
            }
        }
        return None;
    }
    proof {
        assert(sole_separator(text@, first as int));
        lemma_split_at(text@, first as int);
    }
    let key = text.substring_char(0, first).to_owned();
    let value = text.substring_char(first + 1, n).to_owned();
    proof {
        assert(key@ =~= text@.take(first as int));
        assert(value@ =~= text@.skip(first as int + 1));
    }
    Some((key, value))
}

} // verus!
