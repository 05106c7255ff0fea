//! Picking parts of texts: the longer of two, the first word of one, and a
//! phrase appended to one.

use vstd::prelude::*;
use vstd::string::*;

verus! {

/// The longer of two texts by their length in bytes; the second where
/// neither is longer.
pub fn longest<'a>(x: &'a str, y: &'a str) -> (r: &'a str)
    ensures
        r@ == if x.len() > y.len() {
            x@
        } else {
            y@
        },
{
    if x.len() > y.len() {
        x
    } else {
        y
    }
}

/// The first word of `sentence`: what stands before its first space, or all
/// of it where it has no space.
pub fn first_word(sentence: &str) -> (word: &str)
    ensures
        word@.len() <= sentence@.len(),
        word@ == sentence@.subrange(0, word@.len() as int),
        forall|j: int| 0 <= j < word@.len() ==> sentence@[j] != ' ',
        word@.len() < sentence@.len() ==> sentence@[word@.len() as int] == ' ',
{
    let n = sentence.unicode_len();
    let mut i: usize = 0;
    while i < n
        invariant
            n == sentence@.len(),
            i <= n,
            forall|j: int| 0 <= j < i ==> sentence@[j] != ' ',
        decreases n - i,
    {
        if sentence.get_char(i) == ' ' {
            return sentence.substring_char(0, i);
        }
        i += 1;
    }
    sentence.substring_char(0, n)
}

/// Appends ", yo yo yo" to `some_string`.
pub fn reference_change(some_string: &mut String)
    ensures
        final(some_string)@ == old(some_string)@ + ", yo yo yo"@,
{
    some_string.append(", yo yo yo");
}

/// Appends ", yo yo yo" to `some_string`.
pub fn another_reference_change(some_string: &mut String)
    ensures
        final(some_string)@ == old(some_string)@ + ", yo yo yo"@,
{
    some_string.append(", yo yo yo");
}

/// The text "yo yo yo", owned by the caller.
pub fn dangling_pointer() -> (data: String)
    ensures
        data@ == "yo yo yo"@,
{
    String::from_str("yo yo yo")
}

} // verus!
