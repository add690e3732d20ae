//! Small building blocks for reading and writing strings.

use vstd::prelude::*;
use vstd::std_specs::iter::IteratorSpec;

verus! {

/// Appends `c` to `s`.
///
/// Trusted: calls `String::push`, which std documents as appending the given
/// character to the end of the string.
#[verifier::external_body]
pub(crate) fn push_char(s: &mut String, c: char)
    ensures
        final(s)@ == old(s)@.push(c),
{
    s.push(c);
}

/// The characters of `text`, in order.
pub fn chars_of(text: &str) -> (v: Vec<char>)
    ensures
        v@ == text@,
{
    let mut v: Vec<char> = Vec::new();
    for c in it: text.chars()
        invariant
            v@ == it.seq().take(it.index()),
            it.seq() == text@,
    {
        v.push(c);
    }
    v
}

/// Whether `a` and `b` hold the same characters.
pub fn same_text(a: &str, b: &str) -> (r: bool)
    ensures
        r == (a@ == b@),
{
    let left = chars_of(a);
    let right = chars_of(b);
    if left.len() != right.len() {
        return false;
    }
    let mut i: usize = 0;
    while i < left.len()
        invariant
            i <= left.len(),
            left.len() == right.len(),
            left@ == a@,
            right@ == b@,
            left@.take(i as int) == right@.take(i as int),
        decreases left.len() - i,
    {
        if left[i] != right[i] {
            return false;
        }
        assert(left@.take(i + 1) == left@.take(i as int).push(left@[i as int]));
        assert(right@.take(i + 1) == right@.take(i as int).push(right@[i as int]));
        i = i + 1;
    }
    assert(left@.take(i as int) == left@);
    assert(right@.take(i as int) == right@);
    true
}

/// Whether `text` begins with `prefix`.
pub fn starts_with(text: &str, prefix: &str) -> (r: bool)
    ensures
        r == prefix@.is_prefix_of(text@),
{
    let whole = chars_of(text);
    let start = chars_of(prefix);
    if start.len() > whole.len() {
        return false;
    }
    let mut i: usize = 0;
    while i < start.len()
        invariant
            i <= start.len() <= whole.len(),
            whole@ == text@,
            start@ == prefix@,
            start@.take(i as int) == whole@.take(i as int),
        decreases start.len() - i,
    {
        if start[i] != whole[i] {
            assert(prefix@[i as int] != text@.subrange(0, prefix@.len() as int)[i as int]);
            return false;
        }
        assert(start@.take(i + 1) == start@.take(i as int).push(start@[i as int]));
        assert(whole@.take(i + 1) == whole@.take(i as int).push(whole@[i as int]));
        i = i + 1;
    }
    assert(start@.take(i as int) == start@);
    assert(whole@.take(i as int) == text@.subrange(0, prefix@.len() as int));
    true
}

/// Appends the characters of `chars` to `s`, in order.
pub fn push_chars(s: &mut String, chars: &Vec<char>)
    ensures
        final(s)@ == old(s)@ + chars@,
{
    let mut i: usize = 0;
    while i < chars.len()
        invariant
            i <= chars.len(),
            s@ == old(s)@ + chars@.take(i as int),
        decreases chars.len() - i,
    {
        push_char(s, chars[i]);
        assert(chars@.take(i + 1) == chars@.take(i as int).push(chars@[i as int]));
        i = i + 1;
    }
    assert(chars@.take(i as int) == chars@);
}

} // verus!
