//! Cue sheets: finding the name of the image file.

use crate::text::{
    chars_of, find_from, find_line, index_from, line_starting, second_word, take_second_word,
    text_of,
};
use vstd::prelude::*;

verus! {

/// The name in a line: between its first two double quotes, or its second word
/// if it has no quote.
pub open spec fn name_in_line(line: Seq<char>) -> Option<Seq<char>> {
    let i = index_from(line, '"', 0);
    if i < line.len() {
        let j = index_from(line, '"', i + 1);
        if j < line.len() {
            Some(line.subrange(i + 1, j))
        } else {
            None
        }
    } else {
        second_word(line)
    }
}

/// The name of the image file in a cue sheet: the name in the first line that
/// starts with `FILE`.
pub open spec fn named_image(cue: Seq<char>) -> Option<Seq<char>> {
    match line_starting(cue, "FILE"@, true, 0) {
        Some(line) => name_in_line(line),
        None => None,
    }
}

/// The cue sheet names no image file.
#[derive(Debug, Clone, Copy, PartialEq, Eq, Structural)]
pub struct NoFileDirective {}

fn find_name(line: &[char]) -> (r: Option<&[char]>)
    ensures
        r is Some <==> name_in_line(line@) is Some,
        r is Some ==> r->0@ == name_in_line(line@)->0,
{
    let i: usize = find_from(line, '"', 0);
    if i < line.len() {
        let j: usize = find_from(line, '"', i + 1);
        if j < line.len() {
            Some(vstd::slice::slice_subrange(line, i + 1, j))
        } else {
            None
        }
    } else {
        take_second_word(line)
    }
}

/// Finds the name of the image file in a cue sheet.
pub fn image_name(cue: &str) -> (r: Result<String, NoFileDirective>)
    ensures
        r is Ok <==> named_image(cue@) is Some,
        r is Ok ==> r->Ok_0@ == named_image(cue@)->0,
{
    let text: Vec<char> = chars_of(cue);
    let directive: Vec<char> = chars_of("FILE");
    match find_line(text.as_slice(), directive.as_slice(), true) {
        Some(line) => match find_name(line) {
            Some(name) => Ok(text_of(name)),
            None => Err(NoFileDirective {  }),
        },
        None => Err(NoFileDirective {  }),
    }
}

} // verus!
