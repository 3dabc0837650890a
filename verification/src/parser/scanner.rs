//! The pieces of the lexer: each reads one construct of the grammar at a
//! position of the input and says where it ends.

use super::grammar;
use super::grammar::{has_at, run_end, CharClass};
use super::literal::parse_literal;
use super::token::{Token, TokenView};
use super::types::{Type, TypeView, Width};
use crate::text::text_between;
use vstd::prelude::*;

verus! {

/// Whether a piece of text and its end are the ones expected.
pub open spec fn is_text_at(found: Option<(String, usize)>, expected: Option<(Seq<char>, int)>) -> bool {
    match expected {
        Some((text, end)) => found is Some && found->Some_0.0@ == text && found->Some_0.1 == end,
        None => found is None,
    }
}

/// Whether an operand and its end are the ones expected.
pub open spec fn is_operand_at(
    found: Option<(Type, usize)>,
    expected: Option<(TypeView, int)>,
) -> bool {
    match expected {
        Some((operand, end)) => found is Some && found->Some_0.0@ == operand && found->Some_0.1
            == end,
        None => found is None,
    }
}

/// Whether a token and its end are the ones expected.
pub open spec fn is_token_at(
    found: Option<(Token, usize)>,
    expected: Option<(TokenView, int)>,
) -> bool {
    match expected {
        Some((token, end)) => found is Some && found->Some_0.0@ == token && found->Some_0.1 == end,
        None => found is None,
    }
}

/// A vector is no longer than the machine can count.
pub proof fn lemma_len_fits(chars: &Vec<char>)
    ensures
        chars@.len() <= usize::MAX,
{
    assert(chars.len() == chars@.len());
}

/// Whether the character belongs to the class.
pub fn in_class(class: CharClass, c: char) -> (b: bool)
    ensures
        b == class.has(c),
{
    match class {
        CharClass::Space => c == ' ' || c == '\t' || c == '\n' || c == '\x0C',
        CharClass::Name => (c >= 'a' && c <= 'z') || (c >= 'A' && c <= 'Z') || c == '_' || (c
            >= '0' && c <= '9'),
        CharClass::Digit => c >= '0' && c <= '9',
        CharClass::Mark => !(c == ' ' || c == '\t' || c == '\n' || c == '\x0C'),
    }
}

/// Where the longest run of characters of one class that begins at `pos`
/// ends.
pub fn run(chars: &Vec<char>, class: CharClass, pos: usize) -> (end: usize)
    requires
        pos <= chars@.len(),
    ensures
        end == run_end(chars@, class, pos as int),
        pos <= end <= chars@.len(),
{
    let mut i: usize = pos;
    while i < chars.len() && in_class(class, chars[i])
        invariant
            pos <= i <= chars@.len(),
            run_end(chars@, class, i as int) == run_end(chars@, class, pos as int),
        decreases chars@.len() - i,
    {
        i += 1;
    }
    i
}

/// Whether the input holds the given word at `pos`.
pub fn word_at(chars: &Vec<char>, pos: usize, word: &str) -> (found: bool)
    requires
        pos <= chars@.len(),
    ensures
        found == has_at(chars@, pos as int, word@),
{
    let len = chars.len();
    let mut n: usize = 0;
    for c in it: word.chars()
        invariant
            it.seq() == word@,
            n == it.index(),
            len == chars@.len(),
            pos + n <= len,
            chars@.subrange(pos as int, pos + n) == word@.take(n as int),
    {
        if pos + n >= len || chars[pos + n] != c {
            assert(!has_at(chars@, pos as int, word@)) by {
                if has_at(chars@, pos as int, word@) {
                    assert(chars@.subrange(pos as int, pos + word@.len())[n as int] == word@[n as int]);
                }
            }
            return false;
        }
        assert(chars@.subrange(pos as int, pos + n + 1) =~= chars@.subrange(
            pos as int,
            pos + n,
        ).push(chars@[pos + n]));
        assert(word@.take(n + 1) =~= word@.take(n as int).push(word@[n as int]));
        n += 1;
    }
    assert(word@.take(n as int) =~= word@);
    true
}

/// A name with at least one blank in front of it.
pub fn spaced_name(chars: &Vec<char>, pos: usize) -> (found: Option<(String, usize)>)
    requires
        pos <= chars@.len(),
    ensures
        is_text_at(found, grammar::spaced_name(chars@, pos as int)),
        found matches Some((_, end)) ==> pos < end <= chars@.len(),
{
    proof {
        lemma_len_fits(chars);
    }
    let start = run(chars, CharClass::Space, pos);
    if start > pos && start < chars.len() && name_starts_with(chars[start]) {
        let end = run(chars, CharClass::Name, start);
        Some((text_between(chars, start, end), end))
    } else {
        None
    }
}

/// Whether a name can begin with the character.
fn name_starts_with(c: char) -> (b: bool)
    ensures
        b == grammar::is_name_start(c),
{
    (c >= 'a' && c <= 'z') || (c >= 'A' && c <= 'Z') || c == '_'
}

/// A register: its name without the `%`, and where it ends.
pub fn register_at(chars: &Vec<char>, pos: usize) -> (found: Option<(String, usize)>)
    requires
        pos <= chars@.len(),
    ensures
        is_text_at(found, grammar::register_at(chars@, pos as int)),
        found matches Some((_, end)) ==> pos + 1 < end <= chars@.len(),
{
    proof {
        lemma_len_fits(chars);
    }
    if pos < chars.len() && chars[pos] == '%' && pos + 1 < chars.len() && name_starts_with(
        chars[pos + 1],
    ) {
        let end = run(chars, CharClass::Name, pos + 1);
        proof {
            grammar::lemma_register_bounds(chars@, pos as int);
        }
        Some((text_between(chars, pos + 1, end), end))
    } else {
        None
    }
}

/// A comma with any blanks around it: where the blanks after it end.
pub fn comma_at(chars: &Vec<char>, pos: usize) -> (found: Option<usize>)
    requires
        pos <= chars@.len(),
    ensures
        match grammar::comma_at(chars@, pos as int) {
            Some(end) => found == Some(end as usize) && pos < end <= chars@.len(),
            None => found is None,
        },
{
    proof {
        lemma_len_fits(chars);
    }
    let comma = run(chars, CharClass::Space, pos);
    if comma < chars.len() && chars[comma] == ',' {
        Some(run(chars, CharClass::Space, comma + 1))
    } else {
        None
    }
}

/// An integer of the given width.
pub fn integer_at(chars: &Vec<char>, width: Width, pos: usize) -> (found: Option<(Type, usize)>)
    requires
        pos <= chars@.len(),
    ensures
        is_operand_at(found, grammar::integer_at(chars@, width, pos as int)),
        found matches Some((_, end)) ==> pos < end <= chars@.len(),
{
    proof {
        lemma_len_fits(chars);
    }
    if pos >= chars.len() {
        return None;
    }
    let end = if chars[pos] == '-' {
        run(chars, CharClass::Digit, pos + 1)
    } else {
        run(chars, CharClass::Digit, pos)
    };
    proof {
        grammar::lemma_integer_bounds(chars@, width, pos as int);
    }
    match parse_literal(width, chars, pos, end) {
        Some(operand) => Some((operand, end)),
        None => None,
    }
}

/// An operand of a sum: a register, kept with its `%`, or an integer of the
/// sum's width.
pub fn operand_at(chars: &Vec<char>, width: Width, pos: usize) -> (found: Option<(Type, usize)>)
    requires
        pos <= chars@.len(),
    ensures
        is_operand_at(found, grammar::operand_at(chars@, width, pos as int)),
        found matches Some((_, end)) ==> pos < end <= chars@.len(),
{
    proof {
        lemma_len_fits(chars);
    }
    if pos < chars.len() && chars[pos] == '%' {
        match register_at(chars, pos) {
            Some((_, end)) => Some((Type::Value(text_between(chars, pos, end)), end)),
            None => None,
        }
    } else {
        integer_at(chars, width, pos)
    }
}

/// Reads on in a list of operands of which some are read already, the last
/// of them ending at `pos`. Gives the end of the list.
pub fn more_operands(
    chars: &Vec<char>,
    width: Width,
    operands: &mut Vec<Type>,
    pos: usize,
) -> (end: usize)
    requires
        pos <= chars@.len(),
    ensures
        final(operands).deep_view() == grammar::more_operands(
            chars@,
            width,
            old(operands).deep_view(),
            pos as int,
        ).0,
        end == grammar::more_operands(chars@, width, old(operands).deep_view(), pos as int).1,
        pos <= end <= chars@.len(),
{
    proof {
        lemma_len_fits(chars);
    }
    let mut end: usize = pos;
    loop
        invariant
            pos <= end <= chars@.len() <= usize::MAX,
            grammar::more_operands(chars@, width, operands.deep_view(), end as int)
                == grammar::more_operands(chars@, width, old(operands).deep_view(), pos as int),
        decreases chars@.len() - end,
    {
        match comma_at(chars, end) {
            Some(next) => match operand_at(chars, width, next) {
                Some((operand, after)) => {
                    let ghost before = operands.deep_view();
                    let ghost added = operand@;
                    operands.push(operand);
                    assert(operands.deep_view() =~= before.push(added));
                    end = after;
                },
                None => {
                    let comma = run(chars, CharClass::Space, end);
                    return comma + 1;
                },
            },
            None => {
                return end;
            },
        }
    }
}

/// The arguments of `@load`.
pub fn load_args(chars: &Vec<char>, pos: usize) -> (found: Option<(Token, usize)>)
    requires
        pos <= chars@.len(),
    ensures
        is_token_at(found, grammar::load_args(chars@, pos as int)),
        found matches Some((_, end)) ==> pos < end <= chars@.len(),
{
    proof {
        lemma_len_fits(chars);
    }
    let start = run(chars, CharClass::Space, pos);
    if start <= pos {
        return None;
    }
    let (dist, after_dist) = match register_at(chars, start) {
        Some(found) => found,
        None => {
            return None;
        },
    };
    let at_value = match comma_at(chars, after_dist) {
        Some(next) => next,
        None => {
            return None;
        },
    };
    match integer_at(chars, Width::I64, at_value) {
        Some((Type::I64(value), end)) => Some((Token::Load(dist, value), end)),
        _ => None,
    }
}

/// Two registers with a comma between them.
pub fn pair_args(chars: &Vec<char>, pos: usize) -> (found: Option<(String, String, usize)>)
    requires
        pos <= chars@.len(),
    ensures
        match grammar::pair_args(chars@, pos as int) {
            Some((target, source, end)) => found is Some && found->Some_0.0@ == target
                && found->Some_0.1@ == source && found->Some_0.2 == end,
            None => found is None,
        },
        found matches Some((_, _, end)) ==> pos < end <= chars@.len(),
{
    proof {
        lemma_len_fits(chars);
    }
    let start = run(chars, CharClass::Space, pos);
    if start <= pos {
        return None;
    }
    let (target, after_target) = match register_at(chars, start) {
        Some(found) => found,
        None => {
            return None;
        },
    };
    let at_source = match comma_at(chars, after_target) {
        Some(next) => next,
        None => {
            return None;
        },
    };
    match register_at(chars, at_source) {
        Some((source, end)) => Some((target, source, end)),
        None => None,
    }
}

/// The arguments of `@sum`.
pub fn sum_args(chars: &Vec<char>, pos: usize) -> (found: Option<(Token, usize)>)
    requires
        pos <= chars@.len(),
    ensures
        is_token_at(found, grammar::sum_args(chars@, pos as int)),
        found matches Some((_, end)) ==> pos < end <= chars@.len(),
{
    proof {
        lemma_len_fits(chars);
    }
    let start = run(chars, CharClass::Space, pos);
    if start <= pos {
        return None;
    }
    let tag_end = run(chars, CharClass::Name, start);
    let tag = text_between(chars, start, tag_end);
    let width = match Width::from_tag(tag.as_str()) {
        Some(width) => width,
        None => {
            return None;
        },
    };
    let at_dist = match comma_at(chars, tag_end) {
        Some(next) => next,
        None => {
            return None;
        },
    };
    let (dist, after_dist) = match register_at(chars, at_dist) {
        Some(found) => found,
        None => {
            return None;
        },
    };
    let at_first = match comma_at(chars, after_dist) {
        Some(next) => next,
        None => {
            return None;
        },
    };
    let (first, after_first) = match operand_at(chars, width, at_first) {
        Some(found) => found,
        None => {
            return None;
        },
    };
    let mut operands: Vec<Type> = Vec::new();
    operands.push(first);
    assert(operands.deep_view() =~= seq![first@]);
    let end = more_operands(chars, width, &mut operands, after_first);
    if operands.len() >= 2 {
        Some((Token::Sum(tag, dist, operands), end))
    } else {
        None
    }
}

/// The directive that begins at `pos`.
pub fn token_at(chars: &Vec<char>, pos: usize) -> (found: Option<(Token, usize)>)
    requires
        pos <= chars@.len(),
    ensures
        is_token_at(found, grammar::token_at(chars@, pos as int)),
        found matches Some((_, end)) ==> pos < end <= chars@.len(),
{
    proof {
        lemma_len_fits(chars);
    }
    proof {
        grammar::lemma_keyword_lengths();
    }
    if word_at(chars, pos, "@syscall") {
        Some((Token::Syscall, pos + 8))
    } else if word_at(chars, pos, "@ret") {
        Some((Token::Ret, pos + 4))
    } else if word_at(chars, pos, "@endfn") {
        Some((Token::EndFn, pos + 6))
    } else if word_at(chars, pos, "@nop") {
        Some((Token::Nop, pos + 4))
    } else if word_at(chars, pos, "$global") {
        Some((Token::Global, pos + 7))
    } else if word_at(chars, pos, "@fn") {
        match spaced_name(chars, pos + 3) {
            Some((name, end)) => Some((Token::Fn(name), end)),
            None => None,
        }
    } else if word_at(chars, pos, "@go") {
        match spaced_name(chars, pos + 3) {
            Some((name, end)) => Some((Token::Go(name), end)),
            None => None,
        }
    } else if word_at(chars, pos, "@load") {
        load_args(chars, pos + 5)
    } else if word_at(chars, pos, "@radd") {
        match pair_args(chars, pos + 5) {
            Some((target, source, end)) => Some((Token::Radd(target, source), end)),
            None => None,
        }
    } else if word_at(chars, pos, "@rsub") {
        match pair_args(chars, pos + 5) {
            Some((target, source, end)) => Some((Token::Rsub(target, source), end)),
            None => None,
        }
    } else if word_at(chars, pos, "@sum") {
        sum_args(chars, pos + 4)
    } else {
        None
    }
}

} // verus!
