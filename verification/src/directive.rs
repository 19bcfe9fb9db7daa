//! Where the parser of filter directives cuts one directive.
//!
//! `tracing_subscriber` reads a directive character by character on a trimmed
//! copy and remembers positions in it, counted in bytes. It then cuts the
//! directive itself, untrimmed, at those positions. Where white space was
//! trimmed from the start the positions are off, and a cut that falls inside
//! a character of several bytes makes the parser panic. This module follows
//! the parser's states to tell where it cuts.

use vstd::prelude::*;

verus! {

/// A character that `str::trim` removes: one with the Unicode property
/// `White_Space`.
pub open spec fn is_white_space(c: char) -> bool {
    ||| '\u{9}' <= c <= '\u{d}'
    ||| c == ' '
    ||| c == '\u{85}' || c == '\u{a0}' || c == '\u{1680}'
    ||| '\u{2000}' <= c <= '\u{200a}'
    ||| c == '\u{2028}' || c == '\u{2029}' || c == '\u{202f}' || c == '\u{205f}'
    ||| c == '\u{3000}'
}

/// How many bytes the character takes in UTF-8.
pub open spec fn utf8_width(c: char) -> nat {
    if c <= '\u{7f}' {
        1
    } else if c <= '\u{7ff}' {
        2
    } else if c <= '\u{ffff}' {
        3
    } else {
        4
    }
}

/// How many bytes the text takes in UTF-8.
pub open spec fn byte_len(text: Seq<char>) -> nat
    decreases text.len(),
{
    if text.len() == 0 {
        0
    } else {
        byte_len(text.drop_last()) + utf8_width(text.last())
    }
}

/// Whether the position, counted in bytes, lies between two characters of
/// the text, or at one of its ends.
pub open spec fn is_char_boundary(text: Seq<char>, position: nat) -> bool {
    exists|chars: int| 0 <= chars <= text.len() && #[trigger] byte_len(text.take(chars)) == position
}

/// How many characters `str::trim` removes from the start of the text.
pub open spec fn leading_white_space(text: Seq<char>) -> nat
    decreases text.len(),
{
    if text.len() > 0 && is_white_space(text[0]) {
        1 + leading_white_space(text.drop_first())
    } else {
        0
    }
}

/// How many characters `str::trim` removes from the end of the text.
pub open spec fn trailing_white_space(text: Seq<char>) -> nat
    decreases text.len(),
{
    if text.len() > 0 && is_white_space(text.last()) {
        1 + trailing_white_space(text.drop_last())
    } else {
        0
    }
}

/// What `str::trim` leaves of the text.
pub open spec fn trimmed(text: Seq<char>) -> Seq<char> {
    if leading_white_space(text) == text.len() {
        Seq::empty()
    } else {
        text.subrange(
            leading_white_space(text) as int,
            text.len() - trailing_white_space(text),
        )
    }
}

/// The parser's state. The positions are counted in bytes on the trimmed
/// directive.
pub enum ParseState {
    Start,
    LevelOrTarget { start: nat },
    Span { span_start: nat },
    Field { field_start: nat },
    Fields,
    Target,
    Level { level_start: nat },
    Complete,
    /// The parser has returned an error and reads no further.
    Rejected,
}

/// The state after the parser has read `c` at position `at`.
///
/// Where the parser's verdict rests on more than the state and the character
/// (whether the first character is alphanumeric, whether a field or a level
/// parses), the state is the one it goes on with if it does not reject.
pub open spec fn step(state: ParseState, c: char, at: nat) -> ParseState {
    match state {
        ParseState::Start => if c == '[' {
            ParseState::Span { span_start: at + 1 }
        } else {
            ParseState::LevelOrTarget { start: at }
        },
        ParseState::LevelOrTarget { start } => if c == '=' {
            ParseState::Level { level_start: at + 1 }
        } else if c == '[' {
            ParseState::Span { span_start: at + 1 }
        } else if c == ',' {
            ParseState::Complete
        } else {
            state
        },
        ParseState::Span { span_start } => if c == ']' {
            ParseState::Target
        } else if c == '{' {
            ParseState::Field { field_start: at + 1 }
        } else {
            state
        },
        ParseState::Field { field_start } => if c == '}' {
            if field_start == at {
                ParseState::Rejected
            } else {
                ParseState::Fields
            }
        } else if c == ',' {
            if field_start == at {
                ParseState::Rejected
            } else {
                ParseState::Field { field_start: at + 1 }
            }
        } else {
            state
        },
        ParseState::Fields => if c == ']' {
            ParseState::Target
        } else {
            ParseState::Rejected
        },
        ParseState::Target => if c == '=' {
            ParseState::Level { level_start: at + 1 }
        } else {
            ParseState::Rejected
        },
        ParseState::Level { level_start } => if c == ',' {
            ParseState::Complete
        } else {
            state
        },
        ParseState::Complete => ParseState::Rejected,
        ParseState::Rejected => ParseState::Rejected,
    }
}

/// The positions at which the parser cuts the directive when it reads `c` at
/// position `at`.
pub open spec fn cuts(state: ParseState, c: char, at: nat) -> Seq<nat> {
    match state {
        ParseState::LevelOrTarget { start } => if c == '=' || c == '[' {
            seq![start, at]
        } else if c == ',' {
            seq![start]
        } else {
            seq![]
        },
        ParseState::Span { span_start } => if c == ']' || c == '{' {
            seq![span_start, at]
        } else {
            seq![]
        },
        ParseState::Field { field_start } => if c == '}' || c == ',' {
            seq![field_start, at]
        } else {
            seq![]
        },
        ParseState::Level { level_start } => if c == ',' {
            seq![level_start, at]
        } else {
            seq![]
        },
        _ => seq![],
    }
}

/// The positions at which the parser cuts the directive once it has read all
/// of it.
pub open spec fn final_cuts(state: ParseState) -> Seq<nat> {
    match state {
        ParseState::LevelOrTarget { start } => seq![start],
        ParseState::Level { level_start } => seq![level_start],
        _ => seq![],
    }
}

/// The state after the parser has read the first `read` characters of the
/// trimmed directive.
pub open spec fn state_after(trimmed: Seq<char>, read: nat) -> ParseState
    decreases read,
{
    if read == 0 {
        ParseState::Start
    } else {
        step(
            state_after(trimmed, (read - 1) as nat),
            trimmed[read - 1],
            byte_len(trimmed.take(read - 1)),
        )
    }
}

/// Whether each of the positions lies between two characters of the
/// directive.
pub open spec fn on_boundaries(directive: Seq<char>, positions: Seq<nat>) -> bool {
    forall|n: int| 0 <= n < positions.len() ==> is_char_boundary(directive, #[trigger] positions[n])
}

/// Whether every position at which the parser cuts the directive lies
/// between two of its characters. The positions are those of a parser that
/// reads the directive to its end or to a rejection that [`step`] knows of.
pub open spec fn directive_cut_between_characters(directive: Seq<char>) -> bool {
    let read_from = trimmed(directive);
    &&& forall|read: int|
        0 <= read < read_from.len() ==> on_boundaries(
            directive,
            #[trigger] cuts(
                state_after(read_from, read as nat),
                read_from[read],
                byte_len(read_from.take(read)),
            ),
        )
    &&& on_boundaries(directive, final_cuts(state_after(read_from, read_from.len())))
}

#[derive(Clone, Copy, PartialEq, Eq, Structural)]
enum Stage {
    Start,
    LevelOrTarget,
    Span,
    Field,
    Fields,
    Target,
    Level,
    Complete,
    Rejected,
}

/// The parser's state, given which one it is and the position it holds.
spec fn parse_state(stage: Stage, mark: nat) -> ParseState {
    match stage {
        Stage::Start => ParseState::Start,
        Stage::LevelOrTarget => ParseState::LevelOrTarget { start: mark },
        Stage::Span => ParseState::Span { span_start: mark },
        Stage::Field => ParseState::Field { field_start: mark },
        Stage::Fields => ParseState::Fields,
        Stage::Target => ParseState::Target,
        Stage::Level => ParseState::Level { level_start: mark },
        Stage::Complete => ParseState::Complete,
        Stage::Rejected => ParseState::Rejected,
    }
}

proof fn lemma_byte_len_step(text: Seq<char>, chars: int)
    requires
        0 <= chars < text.len(),
    ensures
        byte_len(text.take(chars + 1)) == byte_len(text.take(chars)) + utf8_width(text[chars]),
{
    assert(text.take(chars + 1).drop_last() =~= text.take(chars));
}

proof fn lemma_byte_len_grows(text: Seq<char>, fewer: int, more: int)
    requires
        0 <= fewer <= more <= text.len(),
    ensures
        byte_len(text.take(fewer)) + (more - fewer) <= byte_len(text.take(more)),
    decreases more - fewer,
{
    if fewer < more {
        lemma_byte_len_grows(text, fewer, more - 1);
        lemma_byte_len_step(text, more - 1);
    }
}

proof fn lemma_leading_white_space(text: Seq<char>, count: int)
    requires
        0 <= count <= text.len(),
        forall|k: int| 0 <= k < count ==> is_white_space(#[trigger] text[k]),
        count == text.len() || !is_white_space(text[count]),
    ensures
        leading_white_space(text) == count,
    decreases count,
{
    if count > 0 {
        let rest = text.drop_first();
        assert forall|k: int| 0 <= k < count - 1 implies is_white_space(#[trigger] rest[k]) by {
            assert(rest[k] == text[k + 1]);
        }
        lemma_leading_white_space(rest, count - 1);
    }
}

proof fn lemma_trailing_white_space(text: Seq<char>, count: int)
    requires
        0 <= count <= text.len(),
        forall|k: int| text.len() - count <= k < text.len() ==> is_white_space(#[trigger] text[k]),
        count == text.len() || !is_white_space(text[text.len() - count - 1]),
    ensures
        trailing_white_space(text) == count,
    decreases count,
{
    if count > 0 {
        let rest = text.drop_last();
        assert forall|k: int| rest.len() - (count - 1) <= k < rest.len() implies is_white_space(
            #[trigger] rest[k],
        ) by {
            assert(rest[k] == text[k]);
        }
        lemma_trailing_white_space(rest, count - 1);
    }
}

/// Whether `str::trim` removes the character.
pub fn white_space(c: char) -> (trimmed: bool)
    ensures
        trimmed == is_white_space(c),
{
    ('\u{9}' <= c && c <= '\u{d}') || c == ' ' || c == '\u{85}' || c == '\u{a0}' || c
        == '\u{1680}' || ('\u{2000}' <= c && c <= '\u{200a}') || c == '\u{2028}' || c
        == '\u{2029}' || c == '\u{202f}' || c == '\u{205f}' || c == '\u{3000}'
}

fn width(c: char) -> (bytes: u128)
    ensures
        bytes == utf8_width(c),
{
    if c <= '\u{7f}' {
        1
    } else if c <= '\u{7ff}' {
        2
    } else if c <= '\u{ffff}' {
        3
    } else {
        4
    }
}

fn is_boundary(directive: &Vec<char>, position: u128) -> (found: bool)
    ensures
        found == is_char_boundary(directive@, position as nat),
{
    let mut reached: u128 = 0;
    let mut index: usize = 0;
    while index < directive.len() && reached < position
        invariant
            index <= directive@.len(),
            reached == byte_len(directive@.take(index as int)),
            reached <= 4 * index,
            forall|chars: int|
                0 <= chars < index ==> #[trigger] byte_len(directive@.take(chars)) < position,
        decreases directive@.len() - index,
    {
        proof {
            lemma_byte_len_step(directive@, index as int);
        }
        reached = reached + width(directive[index]);
        index += 1;
    }
    proof {
        if reached != position {
            assert forall|chars: int| 0 <= chars <= directive@.len() implies #[trigger] byte_len(
                directive@.take(chars),
            ) != position by {
                if chars >= index {
                    lemma_byte_len_grows(directive@, index as int, chars);
                }
            }
        }
    }
    reached == position
}

fn cuts_are_on_boundaries(directive: &Vec<char>, stage: Stage, mark: u128, c: char, at: u128) -> (ok:
    bool)
    ensures
        ok == on_boundaries(directive@, cuts(parse_state(stage, mark as nat), c, at as nat)),
{
    let positions: (bool, bool) = match stage {
        Stage::LevelOrTarget => (c == '=' || c == '[' || c == ',', c == '=' || c == '['),
        Stage::Span => (c == ']' || c == '{', c == ']' || c == '{'),
        Stage::Field => (c == '}' || c == ',', c == '}' || c == ','),
        Stage::Level => (c == ',', c == ','),
        _ => (false, false),
    };
    let ghost cut = cuts(parse_state(stage, mark as nat), c, at as nat);
    if positions.0 {
        assert(cut[0] == mark);
        if !is_boundary(directive, mark) {
            return false;
        }
    }
    if positions.1 {
        assert(cut[1] == at);
        if !is_boundary(directive, at) {
            return false;
        }
    }
    true
}

fn advance(stage: Stage, mark: u128, c: char, at: u128) -> (next: (Stage, u128))
    requires
        at < u128::MAX,
    ensures
        parse_state(next.0, next.1 as nat) == step(parse_state(stage, mark as nat), c, at as nat),
        next.1 == mark || next.1 == at || next.1 == at + 1,
{
    match stage {
        Stage::Start => if c == '[' {
            (Stage::Span, at + 1)
        } else {
            (Stage::LevelOrTarget, at)
        },
        Stage::LevelOrTarget => if c == '=' {
            (Stage::Level, at + 1)
        } else if c == '[' {
            (Stage::Span, at + 1)
        } else if c == ',' {
            (Stage::Complete, mark)
        } else {
            (stage, mark)
        },
        Stage::Span => if c == ']' {
            (Stage::Target, mark)
        } else if c == '{' {
            (Stage::Field, at + 1)
        } else {
            (stage, mark)
        },
        Stage::Field => if c == '}' {
            if mark == at {
                (Stage::Rejected, mark)
            } else {
                (Stage::Fields, mark)
            }
        } else if c == ',' {
            if mark == at {
                (Stage::Rejected, mark)
            } else {
                (Stage::Field, at + 1)
            }
        } else {
            (stage, mark)
        },
        Stage::Fields => if c == ']' {
            (Stage::Target, mark)
        } else {
            (Stage::Rejected, mark)
        },
        Stage::Target => if c == '=' {
            (Stage::Level, at + 1)
        } else {
            (Stage::Rejected, mark)
        },
        Stage::Level => if c == ',' {
            (Stage::Complete, mark)
        } else {
            (stage, mark)
        },
        Stage::Complete => (Stage::Rejected, mark),
        Stage::Rejected => (Stage::Rejected, mark),
    }
}

/// Whether every position at which the parser cuts the directive lies
/// between two of its characters.
pub fn directive_is_cut_between_characters(directive: &Vec<char>) -> (safe: bool)
    ensures
        safe == directive_cut_between_characters(directive@),
{
    let len: usize = directive.len();
    let mut first: usize = 0;
    while first < len && white_space(directive[first])
        invariant
            first <= len == directive@.len(),
            forall|k: int| 0 <= k < first ==> is_white_space(#[trigger] directive@[k]),
        decreases len - first,
    {
        first += 1;
    }
    let mut end: usize = len;
    while end > first && white_space(directive[end - 1])
        invariant
            first <= end <= len == directive@.len(),
            forall|k: int| end <= k < len ==> is_white_space(#[trigger] directive@[k]),
        decreases end,
    {
        end -= 1;
    }
    let ghost read_from = directive@.subrange(first as int, end as int);
    proof {
        lemma_leading_white_space(directive@, first as int);
        if first < len {
            lemma_trailing_white_space(directive@, len - end);
        }
        assert(read_from =~= trimmed(directive@));
    }
    let mut stage: Stage = Stage::Start;
    let mut mark: u128 = 0;
    let mut at: u128 = 0;
    let mut index: usize = first;
    while index < end
        invariant
            first <= index <= end <= len == directive@.len(),
            read_from == directive@.subrange(first as int, end as int),
            read_from == trimmed(directive@),
            at == byte_len(read_from.take(index - first)),
            at <= 4 * (index - first),
            mark <= at + 1,
            parse_state(stage, mark as nat) == state_after(read_from, (index - first) as nat),
            forall|read: int|
                0 <= read < index - first ==> on_boundaries(
                    directive@,
                    #[trigger] cuts(
                        state_after(read_from, read as nat),
                        read_from[read],
                        byte_len(read_from.take(read)),
                    ),
                ),
        decreases end - index,
    {
        let c: char = directive[index];
        let ghost read: int = index - first;
        assert(read_from[read] == c);
        if !cuts_are_on_boundaries(directive, stage, mark, c, at) {
            assert(!on_boundaries(
                directive@,
                cuts(
                    state_after(read_from, read as nat),
                    read_from[read],
                    byte_len(read_from.take(read)),
                ),
            ));
            return false;
        }
        let next: (Stage, u128) = advance(stage, mark, c, at);
        proof {
            lemma_byte_len_step(read_from, read);
        }
        stage = next.0;
        mark = next.1;
        at = at + width(c);
        index += 1;
    }
    let ghost last = final_cuts(state_after(read_from, read_from.len()));
    match stage {
        Stage::LevelOrTarget | Stage::Level => {
            assert(last[0] == mark);
            is_boundary(directive, mark)
        },
        _ => true,
    }
}

} // verus!
