//! Small helpers on text, shared by the lexer and the name tables.

use vstd::prelude::*;

verus! {

/// `String::push` appends the given character to the end of the string and
/// leaves the rest of it as it was.
pub assume_specification[ String::push ](s: &mut String, ch: char)
    ensures
        final(s)@ == old(s)@.push(ch),
;

/// The characters of a string, in order.
pub fn chars_of(s: &str) -> (chars: Vec<char>)
    ensures
        chars@ == s@,
{
    let mut chars: Vec<char> = Vec::new();
    for c in it: s.chars()
        invariant
            it.seq() == s@,
            chars@ == s@.take(it.index() as int),
    {
        chars.push(c);
    }
    assert(s@.take(s@.len() as int) =~= s@);
    chars
}

/// Whether the characters spell exactly the given text.
pub fn spells(chars: &Vec<char>, text: &str) -> (same: bool)
    ensures
        same == (chars@ == text@),
{
    let mut n: usize = 0;
    for c in it: text.chars()
        invariant
            it.seq() == text@,
            n == it.index(),
            n <= chars@.len(),
            chars@.take(n as int) == text@.take(n as int),
    {
        if n >= chars.len() || chars[n] != c {
            assert(chars@ != text@) by {
                if chars@ == text@ {
                    assert(chars@[n as int] == text@[n as int]);
                }
            }
            return false;
        }
        assert(chars@.take(n + 1) =~= chars@.take(n as int).push(chars@[n as int]));
        assert(text@.take(n + 1) =~= text@.take(n as int).push(text@[n as int]));
        n += 1;
    }
    assert(text@.take(n as int) =~= text@);
    if n == chars.len() {
        assert(chars@.take(n as int) =~= chars@);
        true
    } else {
        false
    }
}

/// Whether two texts hold the same characters.
pub fn same_text(a: &str, b: &str) -> (same: bool)
    ensures
        same == (a@ == b@),
{
    let chars = chars_of(a);
    spells(&chars, b)
}

/// The text made of the characters from position `from` up to, not
/// including, position `to`.
pub fn text_between(chars: &Vec<char>, from: usize, to: usize) -> (text: String)
    requires
        from <= to <= chars@.len(),
    ensures
        text@ == chars@.subrange(from as int, to as int),
{
    let mut text = String::new();
    let mut i: usize = from;
    while i < to
        invariant
            from <= i <= to <= chars@.len(),
            text@ == chars@.subrange(from as int, i as int),
        decreases to - i,
    {
        text.push(chars[i]);
        assert(chars@.subrange(from as int, i + 1) =~= chars@.subrange(from as int, i as int).push(
            chars@[i as int],
        ));
        i += 1;
    }
    text
}

} // verus!
