//! The grammar of the source language, as functions on a sequence of
//! characters and a position in it.
//!
//! Source text is a run of directives with blanks between them. Five
//! directives are a single word: `@syscall`, `@ret`, `@endfn`, `@nop` and
//! `$global`. The others take arguments, which follow the word after at
//! least one blank; a comma between two arguments may have blanks on both
//! sides:
//!
//! ```text
//! @fn NAME
//! @go NAME
//! @load %REGISTER, INTEGER
//! @radd %REGISTER, %REGISTER
//! @rsub %REGISTER, %REGISTER
//! @sum WIDTH, %REGISTER, OPERAND, OPERAND, ...
//! ```
//!
//! A name is a letter or an underscore with letters, digits and underscores
//! after it. An integer is a run of decimal digits, with a minus sign in front
//! if it is negative. An operand of a sum is a register or an integer of the
//! sum's width; there are at least two of them, and a comma may follow the
//! last. A blank is a space, a tab, a line feed or a form feed.

use super::evaluator::{deferred_count, lemma_deferred_count_bound};
use super::literal::{is_digit, literal};
use super::token::{all_well_formed, of_width, span, total_span, TokenView};
use super::types::{TypeView, Width};
use vstd::prelude::*;

verus! {

/// A class of characters.
#[derive(Debug, PartialEq, Eq, Clone, Copy, Structural)]
pub enum CharClass {
    /// Blanks: space, tab, line feed and form feed.
    Space,
    /// What a name is made of: letters, digits and the underscore.
    Name,
    /// The ten decimal digits.
    Digit,
    /// Everything that is not a blank.
    Mark,
}

/// Whether the character is a blank.
pub open spec fn is_space(c: char) -> bool {
    c == ' ' || c == '\t' || c == '\n' || c == '\x0C'
}

/// Whether a name can begin with the character.
pub open spec fn is_name_start(c: char) -> bool {
    ('a' <= c && c <= 'z') || ('A' <= c && c <= 'Z') || c == '_'
}

/// Whether a name can go on with the character.
pub open spec fn is_name_char(c: char) -> bool {
    is_name_start(c) || is_digit(c)
}

impl CharClass {
    /// Whether the character belongs to the class.
    pub open spec fn has(self, c: char) -> bool {
        match self {
            CharClass::Space => is_space(c),
            CharClass::Name => is_name_char(c),
            CharClass::Digit => is_digit(c),
            CharClass::Mark => !is_space(c),
        }
    }
}

/// Where the longest run of characters of one class that begins at `pos`
/// ends. A run may be empty.
pub open spec fn run_end(input: Seq<char>, class: CharClass, pos: int) -> int
    decreases input.len() - pos,
{
    if 0 <= pos < input.len() && class.has(input[pos]) {
        run_end(input, class, pos + 1)
    } else {
        pos
    }
}

/// Whether the input holds the given word at `pos`.
pub open spec fn has_at(input: Seq<char>, pos: int, word: Seq<char>) -> bool {
    0 <= pos && pos + word.len() <= input.len() && input.subrange(pos, pos + word.len()) == word
}

/// A name with at least one blank in front of it: the name and where it
/// ends.
pub open spec fn spaced_name(input: Seq<char>, pos: int) -> Option<(Seq<char>, int)> {
    let start = run_end(input, CharClass::Space, pos);
    let end = run_end(input, CharClass::Name, start);
    if 0 <= pos < start < input.len() && is_name_start(input[start]) {
        Some((input.subrange(start, end), end))
    } else {
        None
    }
}

/// A register: a `%` and a name right after it. Gives the name, without the
/// `%`, and where it ends.
pub open spec fn register_at(input: Seq<char>, pos: int) -> Option<(Seq<char>, int)> {
    let end = run_end(input, CharClass::Name, pos + 1);
    if 0 <= pos && pos + 1 < input.len() && input[pos] == '%' && is_name_start(input[pos + 1]) {
        Some((input.subrange(pos + 1, end), end))
    } else {
        None
    }
}

/// A comma, with any blanks before and after it: where the blanks after it
/// end.
pub open spec fn comma_at(input: Seq<char>, pos: int) -> Option<int> {
    let comma = run_end(input, CharClass::Space, pos);
    if 0 <= pos && comma < input.len() && input[comma] == ',' {
        Some(run_end(input, CharClass::Space, comma + 1))
    } else {
        None
    }
}

/// Where the text of an integer that begins at `pos` ends: after the digits
/// that follow the minus sign, if there is one.
pub open spec fn integer_end(input: Seq<char>, pos: int) -> int {
    if 0 <= pos < input.len() && input[pos] == '-' {
        run_end(input, CharClass::Digit, pos + 1)
    } else {
        run_end(input, CharClass::Digit, pos)
    }
}

/// An integer of the given width: the operand and where its text ends.
pub open spec fn integer_at(input: Seq<char>, width: Width, pos: int) -> Option<(TypeView, int)> {
    let end = integer_end(input, pos);
    if 0 <= pos < input.len() {
        match literal(width, input.subrange(pos, end)) {
            Some(operand) => Some((operand, end)),
            None => None,
        }
    } else {
        None
    }
}

/// An operand of a sum: a register, kept with its `%`, or an integer of the
/// sum's width.
pub open spec fn operand_at(input: Seq<char>, width: Width, pos: int) -> Option<(TypeView, int)> {
    if 0 <= pos < input.len() && input[pos] == '%' {
        match register_at(input, pos) {
            Some((_, end)) => Some((TypeView::Value(input.subrange(pos, end)), end)),
            None => None,
        }
    } else {
        integer_at(input, width, pos)
    }
}

/// The operands of a sum after those already read, which end at `pos`: as
/// long as a comma and another operand follow, the list goes on. A comma
/// that no operand follows ends the list and belongs to it.
pub open spec fn more_operands(
    input: Seq<char>,
    width: Width,
    read: Seq<TypeView>,
    pos: int,
) -> (Seq<TypeView>, int)
    decreases input.len() - pos,
    via more_operands_decreases
{
    match comma_at(input, pos) {
        Some(next) => match operand_at(input, width, next) {
            Some((operand, end)) => more_operands(input, width, read.push(operand), end),
            None => (read, run_end(input, CharClass::Space, pos) + 1),
        },
        None => (read, pos),
    }
}

#[via_fn]
proof fn more_operands_decreases(input: Seq<char>, width: Width, read: Seq<TypeView>, pos: int) {
    match comma_at(input, pos) {
        Some(next) => {
            lemma_comma_bounds(input, pos);
            lemma_operand_bounds(input, width, next);
        },
        None => {},
    }
}

/// The arguments of `@load`: a register, a comma and a 64-bit integer.
pub open spec fn load_args(input: Seq<char>, pos: int) -> Option<(TokenView, int)> {
    let start = run_end(input, CharClass::Space, pos);
    if 0 <= pos < start {
        match register_at(input, start) {
            Some((dist, after_dist)) => match comma_at(input, after_dist) {
                Some(at_value) => match integer_at(input, Width::I64, at_value) {
                    Some((TypeView::Int { value, .. }, end)) => Some(
                        (TokenView::Load(dist, value as i64), end),
                    ),
                    _ => None,
                },
                None => None,
            },
            None => None,
        }
    } else {
        None
    }
}

/// Two registers with a comma between them: the arguments of `@radd` and
/// `@rsub`.
pub open spec fn pair_args(input: Seq<char>, pos: int) -> Option<(Seq<char>, Seq<char>, int)> {
    let start = run_end(input, CharClass::Space, pos);
    if 0 <= pos < start {
        match register_at(input, start) {
            Some((target, after_target)) => match comma_at(input, after_target) {
                Some(at_source) => match register_at(input, at_source) {
                    Some((source, end)) => Some((target, source, end)),
                    None => None,
                },
                None => None,
            },
            None => None,
        }
    } else {
        None
    }
}

/// The arguments of `@sum`: a width tag, the register that takes the sum,
/// and at least two operands.
pub open spec fn sum_args(input: Seq<char>, pos: int) -> Option<(TokenView, int)> {
    let start = run_end(input, CharClass::Space, pos);
    let tag_end = run_end(input, CharClass::Name, start);
    if 0 <= pos < start {
        match Width::tagged(input.subrange(start, tag_end)) {
            Some(width) => match comma_at(input, tag_end) {
                Some(at_dist) => match register_at(input, at_dist) {
                    Some((dist, after_dist)) => match comma_at(input, after_dist) {
                        Some(at_first) => match operand_at(input, width, at_first) {
                            Some((first, after_first)) => {
                                let (operands, end) = more_operands(
                                    input,
                                    width,
                                    seq![first],
                                    after_first,
                                );
                                if operands.len() >= 2 {
                                    Some(
                                        (
                                            TokenView::Sum(
                                                input.subrange(start, tag_end),
                                                dist,
                                                operands,
                                            ),
                                            end,
                                        ),
                                    )
                                } else {
                                    None
                                }
                            },
                            None => None,
                        },
                        None => None,
                    },
                    None => None,
                },
                None => None,
            },
            None => None,
        }
    } else {
        None
    }
}

/// The directive that begins at `pos`, and where it ends.
pub open spec fn token_at(input: Seq<char>, pos: int) -> Option<(TokenView, int)> {
    if has_at(input, pos, "@syscall"@) {
        Some((TokenView::Syscall, pos + "@syscall"@.len()))
    } else if has_at(input, pos, "@ret"@) {
        Some((TokenView::Ret, pos + "@ret"@.len()))
    } else if has_at(input, pos, "@endfn"@) {
        Some((TokenView::EndFn, pos + "@endfn"@.len()))
    } else if has_at(input, pos, "@nop"@) {
        Some((TokenView::Nop, pos + "@nop"@.len()))
    } else if has_at(input, pos, "$global"@) {
        Some((TokenView::Global, pos + "$global"@.len()))
    } else if has_at(input, pos, "@fn"@) {
        match spaced_name(input, pos + "@fn"@.len()) {
            Some((name, end)) => Some((TokenView::Fn(name), end)),
            None => None,
        }
    } else if has_at(input, pos, "@go"@) {
        match spaced_name(input, pos + "@go"@.len()) {
            Some((name, end)) => Some((TokenView::Go(name), end)),
            None => None,
        }
    } else if has_at(input, pos, "@load"@) {
        load_args(input, pos + "@load"@.len())
    } else if has_at(input, pos, "@radd"@) {
        match pair_args(input, pos + "@radd"@.len()) {
            Some((target, source, end)) => Some((TokenView::Radd(target, source), end)),
            None => None,
        }
    } else if has_at(input, pos, "@rsub"@) {
        match pair_args(input, pos + "@rsub"@.len()) {
            Some((target, source, end)) => Some((TokenView::Rsub(target, source), end)),
            None => None,
        }
    } else if has_at(input, pos, "@sum"@) {
        sum_args(input, pos + "@sum"@.len())
    } else {
        None
    }
}

/// What scanning from `pos` on adds to the tokens and to the rejected pieces
/// of text found so far. Where no directive begins, the text up to the next
/// blank is rejected and scanning goes on behind it.
pub open spec fn scan_from(
    input: Seq<char>,
    pos: int,
    tokens: Seq<TokenView>,
    rejected: Seq<Seq<char>>,
) -> (Seq<TokenView>, Seq<Seq<char>>)
    decreases input.len() - pos,
    via scan_from_decreases
{
    let start = run_end(input, CharClass::Space, pos);
    if 0 <= pos && start < input.len() {
        match token_at(input, start) {
            Some((token, end)) => scan_from(input, end, tokens.push(token), rejected),
            None => {
                let end = run_end(input, CharClass::Mark, start);
                scan_from(input, end, tokens, rejected.push(input.subrange(start, end)))
            },
        }
    } else {
        (tokens, rejected)
    }
}

#[via_fn]
proof fn scan_from_decreases(
    input: Seq<char>,
    pos: int,
    tokens: Seq<TokenView>,
    rejected: Seq<Seq<char>>,
) {
    let start = run_end(input, CharClass::Space, pos);
    if 0 <= pos && start < input.len() {
        lemma_run_end(input, CharClass::Space, pos);
        lemma_run_end(input, CharClass::Mark, start);
        lemma_token_bounds(input, start);
    }
}

/// The tokens of the whole input, and every piece of text that is no
/// directive.
pub open spec fn scanned(input: Seq<char>) -> (Seq<TokenView>, Seq<Seq<char>>) {
    scan_from(input, 0, Seq::empty(), Seq::empty())
}

/// The tokens of the input, if all of it is directives and blanks.
pub open spec fn lexed(input: Seq<char>) -> Option<Seq<TokenView>> {
    if scanned(input).1.len() == 0 {
        Some(scanned(input).0)
    } else {
        None
    }
}

/// A run ends at or after its beginning and within the input; it holds
/// characters of its class only, and the character behind it is of another
/// class.
pub proof fn lemma_run_end(input: Seq<char>, class: CharClass, pos: int)
    requires
        0 <= pos <= input.len(),
    ensures
        pos <= run_end(input, class, pos) <= input.len(),
        forall|i: int| pos <= i < run_end(input, class, pos) ==> class.has(#[trigger] input[i]),
        run_end(input, class, pos) < input.len() ==> !class.has(
            input[run_end(input, class, pos)],
        ),
        pos < input.len() && class.has(input[pos]) ==> pos < run_end(input, class, pos),
    decreases input.len() - pos,
{
    if pos < input.len() && class.has(input[pos]) {
        lemma_run_end(input, class, pos + 1);
    }
}

/// A name with blanks in front ends behind where it was looked for.
pub proof fn lemma_spaced_name_bounds(input: Seq<char>, pos: int)
    ensures
        spaced_name(input, pos) matches Some((_, end)) ==> pos + 1 < end <= input.len(),
{
    if spaced_name(input, pos) is Some {
        lemma_run_end(input, CharClass::Space, pos);
        lemma_run_end(input, CharClass::Name, run_end(input, CharClass::Space, pos));
    }
}

/// A register takes at least two characters.
pub proof fn lemma_register_bounds(input: Seq<char>, pos: int)
    ensures
        register_at(input, pos) matches Some((_, end)) ==> pos + 1 < end <= input.len(),
{
    if register_at(input, pos) is Some {
        lemma_run_end(input, CharClass::Name, pos + 1);
    }
}

/// A comma takes at least one character.
pub proof fn lemma_comma_bounds(input: Seq<char>, pos: int)
    ensures
        comma_at(input, pos) matches Some(end) ==> pos < end <= input.len(),
{
    if comma_at(input, pos) is Some {
        lemma_run_end(input, CharClass::Space, pos);
        lemma_run_end(input, CharClass::Space, run_end(input, CharClass::Space, pos) + 1);
    }
}

/// The text of an integer ends within the input.
pub proof fn lemma_integer_end(input: Seq<char>, pos: int)
    requires
        0 <= pos < input.len(),
    ensures
        pos <= integer_end(input, pos) <= input.len(),
{
    if input[pos] == '-' {
        lemma_run_end(input, CharClass::Digit, pos + 1);
    } else {
        lemma_run_end(input, CharClass::Digit, pos);
    }
}

/// An integer takes at least one character.
pub proof fn lemma_integer_bounds(input: Seq<char>, width: Width, pos: int)
    ensures
        integer_at(input, width, pos) matches Some((_, end)) ==> pos < end <= input.len(),
{
    if integer_at(input, width, pos) is Some {
        lemma_integer_end(input, pos);
    }
}

/// An operand takes at least one character.
pub proof fn lemma_operand_bounds(input: Seq<char>, width: Width, pos: int)
    ensures
        operand_at(input, width, pos) matches Some((_, end)) ==> pos < end <= input.len(),
{
    lemma_register_bounds(input, pos);
    lemma_integer_bounds(input, width, pos);
}

/// A list of operands ends no earlier than what was read of it, and within
/// the input; what was read stays at its front.
pub proof fn lemma_more_operands_bounds(
    input: Seq<char>,
    width: Width,
    read: Seq<TypeView>,
    pos: int,
)
    requires
        0 <= pos <= input.len(),
    ensures
        pos <= more_operands(input, width, read, pos).1 <= input.len(),
        read.len() <= more_operands(input, width, read, pos).0.len(),
    decreases input.len() - pos,
{
    lemma_comma_bounds(input, pos);
    lemma_run_end(input, CharClass::Space, pos);
    match comma_at(input, pos) {
        Some(next) => {
            lemma_operand_bounds(input, width, next);
            match operand_at(input, width, next) {
                Some((operand, end)) => {
                    lemma_more_operands_bounds(input, width, read.push(operand), end);
                },
                None => {},
            }
        },
        None => {},
    }
}

/// The arguments of a directive end behind where they were looked for.
pub proof fn lemma_args_bounds(input: Seq<char>, pos: int)
    ensures
        load_args(input, pos) matches Some((_, end)) ==> pos < end <= input.len(),
        pair_args(input, pos) matches Some((_, _, end)) ==> pos < end <= input.len(),
        sum_args(input, pos) matches Some((_, end)) ==> pos < end <= input.len(),
{
    let start = run_end(input, CharClass::Space, pos);
    if 0 <= pos < start {
        lemma_run_end(input, CharClass::Space, pos);
        lemma_register_bounds(input, start);
        match register_at(input, start) {
            Some((_, after)) => {
                lemma_comma_bounds(input, after);
                match comma_at(input, after) {
                    Some(next) => {
                        lemma_integer_bounds(input, Width::I64, next);
                        lemma_register_bounds(input, next);
                    },
                    None => {},
                }
            },
            None => {},
        }
        let tag_end = run_end(input, CharClass::Name, start);
        lemma_run_end(input, CharClass::Name, start);
        lemma_comma_bounds(input, tag_end);
        match Width::tagged(input.subrange(start, tag_end)) {
            Some(width) => match comma_at(input, tag_end) {
                Some(at_dist) => {
                    lemma_register_bounds(input, at_dist);
                    match register_at(input, at_dist) {
                        Some((_, after_dist)) => {
                            lemma_comma_bounds(input, after_dist);
                            match comma_at(input, after_dist) {
                                Some(at_first) => {
                                    lemma_operand_bounds(input, width, at_first);
                                    match operand_at(input, width, at_first) {
                                        Some((first, after_first)) => {
                                            lemma_more_operands_bounds(
                                                input,
                                                width,
                                                seq![first],
                                                after_first,
                                            );
                                        },
                                        None => {},
                                    }
                                },
                                None => {},
                            }
                        },
                        None => {},
                    }
                },
                None => {},
            },
            None => {},
        }
    }
}

/// The length of every word that begins a directive.
pub proof fn lemma_keyword_lengths()
    ensures
        "@syscall"@.len() == 8,
        "@ret"@.len() == 4,
        "@endfn"@.len() == 6,
        "@nop"@.len() == 4,
        "$global"@.len() == 7,
        "@fn"@.len() == 3,
        "@go"@.len() == 3,
        "@load"@.len() == 5,
        "@radd"@.len() == 5,
        "@rsub"@.len() == 5,
        "@sum"@.len() == 4,
{
    reveal_strlit("@syscall");
    reveal_strlit("@ret");
    reveal_strlit("@endfn");
    reveal_strlit("@nop");
    reveal_strlit("$global");
    reveal_strlit("@fn");
    reveal_strlit("@go");
    reveal_strlit("@load");
    reveal_strlit("@radd");
    reveal_strlit("@rsub");
    reveal_strlit("@sum");
}

/// A directive takes at least one character and ends within the input.
pub proof fn lemma_token_bounds(input: Seq<char>, pos: int)
    ensures
        token_at(input, pos) matches Some((_, end)) ==> pos < end <= input.len(),
{
    lemma_keyword_lengths();
    lemma_spaced_name_bounds(input, pos + 3);
    lemma_args_bounds(input, pos + 5);
    lemma_args_bounds(input, pos + 4);
}

/// Each deferred operand of a list takes its room in the text: the list
/// grows by no more deferred operands than it takes characters.
pub proof fn lemma_more_operands_span(
    input: Seq<char>,
    width: Width,
    read: Seq<TypeView>,
    pos: int,
)
    requires
        0 <= pos <= input.len(),
    ensures
        deferred_count(more_operands(input, width, read, pos).0) + pos <= deferred_count(read)
            + more_operands(input, width, read, pos).1,
    decreases input.len() - pos,
{
    lemma_comma_bounds(input, pos);
    lemma_run_end(input, CharClass::Space, pos);
    match comma_at(input, pos) {
        Some(next) => {
            lemma_operand_bounds(input, width, next);
            match operand_at(input, width, next) {
                Some((operand, end)) => {
                    assert(read.push(operand).drop_last() =~= read);
                    lemma_more_operands_span(input, width, read.push(operand), end);
                },
                None => {},
            }
        },
        None => {},
    }
}

/// A sum moves the program counter by no more than its text is long.
proof fn lemma_sum_span(input: Seq<char>, pos: int)
    ensures
        sum_args(input, pos) matches Some((token, end)) ==> span(token) <= end - pos + 4,
{
    let start = run_end(input, CharClass::Space, pos);
    let tag_end = run_end(input, CharClass::Name, start);
    if 0 <= pos < start {
        lemma_run_end(input, CharClass::Space, pos);
        lemma_run_end(input, CharClass::Name, start);
        lemma_comma_bounds(input, tag_end);
        match Width::tagged(input.subrange(start, tag_end)) {
            Some(width) => match comma_at(input, tag_end) {
                Some(at_dist) => {
                    lemma_register_bounds(input, at_dist);
                    match register_at(input, at_dist) {
                        Some((_, after_dist)) => {
                            lemma_comma_bounds(input, after_dist);
                            match comma_at(input, after_dist) {
                                Some(at_first) => {
                                    lemma_operand_bounds(input, width, at_first);
                                    match operand_at(input, width, at_first) {
                                        Some((first, after_first)) => {
                                            lemma_more_operands_span(
                                                input,
                                                width,
                                                seq![first],
                                                after_first,
                                            );
                                            lemma_deferred_count_bound(seq![first]);
                                        },
                                        None => {},
                                    }
                                },
                                None => {},
                            }
                        },
                        None => {},
                    }
                },
                None => {},
            },
            None => {},
        }
    }
}

/// A directive moves the program counter by no more than its text is long.
pub proof fn lemma_token_span(input: Seq<char>, pos: int)
    ensures
        token_at(input, pos) matches Some((token, end)) ==> span(token) <= end - pos,
{
    lemma_keyword_lengths();
    lemma_spaced_name_bounds(input, pos + 3);
    lemma_args_bounds(input, pos + 5);
    lemma_sum_span(input, pos + 4);
}

/// Scanning moves the program counter by no more than there is text left.
pub proof fn lemma_scan_span(
    input: Seq<char>,
    pos: int,
    tokens: Seq<TokenView>,
    rejected: Seq<Seq<char>>,
)
    requires
        0 <= pos <= input.len(),
    ensures
        total_span(scan_from(input, pos, tokens, rejected).0) + pos <= total_span(tokens)
            + input.len(),
    decreases input.len() - pos,
{
    let start = run_end(input, CharClass::Space, pos);
    lemma_run_end(input, CharClass::Space, pos);
    if start < input.len() {
        lemma_run_end(input, CharClass::Mark, start);
        lemma_token_bounds(input, start);
        lemma_token_span(input, start);
        match token_at(input, start) {
            Some((token, end)) => {
                assert(tokens.push(token).drop_last() =~= tokens);
                lemma_scan_span(input, end, tokens.push(token), rejected);
            },
            None => {
                let end = run_end(input, CharClass::Mark, start);
                lemma_scan_span(input, end, tokens, rejected.push(input.subrange(start, end)));
            },
        }
    }
}

/// The tokens of a text move the program counter by no more than the text
/// is long.
pub proof fn lemma_scanned_span(input: Seq<char>)
    ensures
        total_span(scanned(input).0) <= input.len(),
{
    lemma_scan_span(input, 0, Seq::empty(), Seq::empty());
}

/// An operand that is read for a width is of that width.
pub proof fn lemma_operand_width(input: Seq<char>, width: Width, pos: int)
    ensures
        operand_at(input, width, pos) matches Some((operand, _)) ==> of_width(
            seq![operand],
            width,
        ),
{
}

/// Reading on in a list of operands keeps them of one width.
pub proof fn lemma_more_operands_width(
    input: Seq<char>,
    width: Width,
    read: Seq<TypeView>,
    pos: int,
)
    requires
        0 <= pos <= input.len(),
        of_width(read, width),
    ensures
        of_width(more_operands(input, width, read, pos).0, width),
    decreases input.len() - pos,
{
    lemma_comma_bounds(input, pos);
    match comma_at(input, pos) {
        Some(next) => {
            lemma_operand_bounds(input, width, next);
            lemma_operand_width(input, width, next);
            match operand_at(input, width, next) {
                Some((operand, end)) => {
                    let longer = read.push(operand);
                    assert forall|i: int| 0 <= i < longer.len() implies (
                    #[trigger] longer[i] matches TypeView::Int { width: w, value } ==> w == width
                        && width.holds(value)) by {
                        if i < read.len() {
                            assert(longer[i] == read[i]);
                        } else {
                            assert(longer[i] == seq![operand][0]);
                        }
                    }
                    lemma_more_operands_width(input, width, longer, end);
                },
                None => {},
            }
        },
        None => {},
    }
}

/// A sum that is read from text names its width, has two operands or more,
/// and its integers are of its width.
proof fn lemma_sum_well_formed(input: Seq<char>, pos: int)
    ensures
        sum_args(input, pos) matches Some((token, _)) ==> token.well_formed(),
{
    let start = run_end(input, CharClass::Space, pos);
    let tag_end = run_end(input, CharClass::Name, start);
    if 0 <= pos < start {
        lemma_run_end(input, CharClass::Space, pos);
        lemma_run_end(input, CharClass::Name, start);
        lemma_comma_bounds(input, tag_end);
        match Width::tagged(input.subrange(start, tag_end)) {
            Some(width) => match comma_at(input, tag_end) {
                Some(at_dist) => {
                    lemma_register_bounds(input, at_dist);
                    match register_at(input, at_dist) {
                        Some((_, after_dist)) => {
                            lemma_comma_bounds(input, after_dist);
                            match comma_at(input, after_dist) {
                                Some(at_first) => {
                                    lemma_operand_bounds(input, width, at_first);
                                    lemma_operand_width(input, width, at_first);
                                    match operand_at(input, width, at_first) {
                                        Some((first, after_first)) => {
                                            lemma_more_operands_width(
                                                input,
                                                width,
                                                seq![first],
                                                after_first,
                                            );
                                        },
                                        None => {},
                                    }
                                },
                                None => {},
                            }
                        },
                        None => {},
                    }
                },
                None => {},
            },
            None => {},
        }
    }
}

/// Every directive that is read from text is well formed.
pub proof fn lemma_token_well_formed(input: Seq<char>, pos: int)
    ensures
        token_at(input, pos) matches Some((token, _)) ==> token.well_formed(),
{
    lemma_keyword_lengths();
    lemma_sum_well_formed(input, pos + 4);
}

/// Scanning adds well-formed tokens only.
pub proof fn lemma_scan_well_formed(
    input: Seq<char>,
    pos: int,
    tokens: Seq<TokenView>,
    rejected: Seq<Seq<char>>,
)
    requires
        0 <= pos <= input.len(),
        all_well_formed(tokens),
    ensures
        all_well_formed(scan_from(input, pos, tokens, rejected).0),
    decreases input.len() - pos,
{
    let start = run_end(input, CharClass::Space, pos);
    lemma_run_end(input, CharClass::Space, pos);
    if start < input.len() {
        lemma_run_end(input, CharClass::Mark, start);
        lemma_token_bounds(input, start);
        lemma_token_well_formed(input, start);
        match token_at(input, start) {
            Some((token, end)) => {
                let longer = tokens.push(token);
                assert forall|i: int| 0 <= i < longer.len() implies (
                #[trigger] longer[i]).well_formed() by {
                    if i < tokens.len() {
                        assert(longer[i] == tokens[i]);
                    }
                }
                lemma_scan_well_formed(input, end, longer, rejected);
            },
            None => {
                let end = run_end(input, CharClass::Mark, start);
                lemma_scan_well_formed(
                    input,
                    end,
                    tokens,
                    rejected.push(input.subrange(start, end)),
                );
            },
        }
    }
}

/// Every token of a text is well formed: above all, every sum has two
/// operands or more, all of the width it names.
pub proof fn lemma_scanned_well_formed(input: Seq<char>)
    ensures
        all_well_formed(scanned(input).0),
{
    lemma_scan_well_formed(input, 0, Seq::empty(), Seq::empty());
}

} // verus!
