use vstd::prelude::*;

use crate::load::{lowercase, string_of_range, to_lowercase};
use crate::text::{chars_of, trim, trimmed_range};
use vstd::utf8::encode_utf8;

verus! {

/// What a line typed at the command-line prompt asks for.
#[derive(Debug)]
pub enum PromptInput {
    /// `#`: leave.
    Quit,
    /// A pattern whose UTF-8 encoding is not four bytes long.
    WrongLength,
    /// A pattern of four bytes to filter by.
    Pattern(String),
}

/// The pattern that a typed line stands for: the line without surrounding
/// white space, in lowercase.
pub open spec fn prompt_pattern(line: Seq<char>) -> Seq<char> {
    lowercase(trim(line))
}

/// Decides what the lowercased, trimmed pattern `pattern` asks for: `#`
/// quits, and a pattern must be four bytes long in UTF-8.
pub fn classify_prompt_pattern(pattern: String) -> (input: PromptInput)
    ensures
        match input {
            PromptInput::Quit => pattern@ == seq!['#'],
            PromptInput::WrongLength => pattern@ != seq!['#'] && encode_utf8(pattern@).len() as usize
                != 4,
            PromptInput::Pattern(p) => pattern@ != seq!['#'] && encode_utf8(pattern@).len() as usize
                == 4 && p@ == pattern@,
        },
{
    let p = chars_of(pattern.as_str());
    if p.len() == 1 && p[0] == '#' {
        assert(p@ =~= seq!['#']);
        return PromptInput::Quit;
    }
    assert(p@ != seq!['#']);
    if pattern.as_str().len() != 4 {
        PromptInput::WrongLength
    } else {
        PromptInput::Pattern(pattern)
    }
}

/// Reads a line typed at the prompt: `#` quits, a pattern must be four
/// bytes long in UTF-8, and the pattern is taken without surrounding white
/// space, in lowercase.
pub fn read_prompt_input(line: &str) -> (input: PromptInput)
    ensures
        match input {
            PromptInput::Quit => prompt_pattern(line@) == seq!['#'],
            PromptInput::WrongLength => prompt_pattern(line@) != seq!['#'] && encode_utf8(
                prompt_pattern(line@),
            ).len() as usize != 4,
            PromptInput::Pattern(p) => prompt_pattern(line@) != seq!['#'] && encode_utf8(
                prompt_pattern(line@),
            ).len() as usize == 4 && p@ == prompt_pattern(line@),
        },
{
    let s = chars_of(line);
    let (a, b) = trimmed_range(&s, 0, s.len());
    assert(s@.subrange(0, s@.len() as int) =~= s@);
    let trimmed = string_of_range(&s, a, b);
    classify_prompt_pattern(to_lowercase(trimmed.as_str()))
}

} // verus!
