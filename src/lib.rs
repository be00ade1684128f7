//! A parser for a lightweight AsciiDoc-like markup language: headings,
//! emphasis, inline code, line breaks, lists, rules and blank separators,
//! read into a typed document tree.
//!
//! The grammar is stated in [`grammar`] as spec functions; every parser below
//! is proved to return what the grammar gives on its input.
mod chars;
pub mod ast;
pub mod grammar;
pub mod inlines;
pub mod blocks;
pub mod attributes;
pub mod laws;

pub use ast::{
    Attributes, Block, FootnoteType, HeadingLevel, Inline, ListItem, ListLevel, ParseError,
    TableColumn, TableRow, VideoProvider,
};

use vstd::prelude::*;
use crate::ast::{blocks_view, BlockV};
use crate::blocks::{
    blank_at, block_at, heading_at, horizontal_rule_at, list_at, list_item_at, paragraph_at,
};
use crate::attributes::{attribute_list_at, named_at, positional_at};
use crate::chars::chars_of;
use crate::grammar::{document, lead_end, lemma_block_total, lemma_blocks_total, Step};
use crate::inlines::{
    delimited_at, element_at, inline_code_at, line_break_at, step_view, text_at,
};

verus! {

/// The error that a failure at position `p` of `s` gives.
pub open spec fn error_at(s: Seq<char>, p: int) -> ParseError {
    if p >= s.len() {
        ParseError::UnexpectedEndOfInput
    } else {
        ParseError::StructuralMismatch { position: p as usize }
    }
}

/// `r` is what the production outcome `st` on input `s` gives: the value and
/// the number of characters consumed, or the error at the failure position.
pub open spec fn answers<T: View>(
    r: Result<(T, usize), ParseError>,
    s: Seq<char>,
    st: Step<T::V>,
) -> bool {
    match st {
        Ok((v, k)) => r matches Ok((x, e)) && x@ == v && e == k,
        Err(p) => r == Err::<(T, usize), ParseError>(error_at(s, p)),
    }
}

fn report<T: View>(s: &Vec<char>, r: Result<(T, usize), usize>) -> (o: Result<
    (T, usize),
    ParseError,
>)
    requires
        r matches Err(p) ==> p <= s@.len(),
    ensures
        answers(o, s@, step_view(r)),
{
    match r {
        Ok(x) => Ok(x),
        Err(p) => {
            if p >= s.len() {
                Err(ParseError::UnexpectedEndOfInput)
            } else {
                Err(ParseError::StructuralMismatch { position: p })
            }
        },
    }
}

fn lead_end_at(s: &Vec<char>) -> (e: usize)
    ensures
        e == lead_end(s@, 0),
        e <= s@.len(),
{
    let mut k: usize = 0;
    while k < s.len() && (s[k] == ' ' || s[k] == '\n')
        invariant
            k <= s@.len(),
            lead_end(s@, k as int) == lead_end(s@, 0),
        decreases s@.len() - k,
    {
        k = k + 1;
    }
    k
}

/// Parses a whole document: leading spaces and newlines are skipped, then
/// blocks are read up to the end of the input. Every input gives a document.
pub fn parse(text: &str) -> (r: Result<Vec<Block>, ParseError>)
    ensures
        r matches Ok(v) && document(text@) == Ok::<Seq<BlockV>, int>(blocks_view(v@)),
{
    let s = chars_of(text);
    let start = lead_end_at(&s);
    proof {
        lemma_blocks_total(s@, start as int);
    }
    let mut out: Vec<Block> = Vec::new();
    let mut k: usize = start;
    while k < s.len()
        invariant
            start <= k <= s@.len(),
            grammar::blocks_from(s@, k as int) is Ok,
            grammar::blocks_from(s@, start as int)->Ok_0 == blocks_view(out@)
                + grammar::blocks_from(s@, k as int)->Ok_0,
        decreases s@.len() - k,
    {
        proof {
            lemma_block_total(s@, k as int);
        }
        let (b, e) = match block_at(&s, k) {
            Ok(x) => x,
            Err(p) => return Err(ParseError::StructuralMismatch { position: p }),
        };
        proof {
            let rest = grammar::blocks_from(s@, e as int)->Ok_0;
            assert(blocks_view(out@.push(b)) =~= blocks_view(out@).push(b@));
            assert(blocks_view(out@) + (seq![b@] + rest) =~= blocks_view(out@).push(b@) + rest);
        }
        out.push(b);
        k = e;
    }
    assert(blocks_view(out@) + Seq::<BlockV>::empty() =~= blocks_view(out@));
    Ok(out)
}

/// One inline element at the start of `text`.
pub fn inline(text: &str) -> (r: Result<(Inline, usize), ParseError>)
    ensures
        answers(r, text@, grammar::element(text@, 0)),
{
    let s = chars_of(text);
    report(&s, element_at(&s, 0))
}

/// A text run at the start of `text`.
pub fn value(text: &str) -> (r: Result<(Inline, usize), ParseError>)
    ensures
        answers(r, text@, grammar::text(text@, 0, true)),
{
    let s = chars_of(text);
    report(&s, text_at(&s, 0, true))
}

/// A bold span `*...*` at the start of `text`, after optional spaces.
pub fn bold(text: &str) -> (r: Result<(Inline, usize), ParseError>)
    ensures
        answers(r, text@, grammar::delimited(text@, 0, '*')),
{
    let s = chars_of(text);
    report(&s, delimited_at(&s, 0, '*'))
}

/// An italic span `_..._` at the start of `text`, after optional spaces.
pub fn italic(text: &str) -> (r: Result<(Inline, usize), ParseError>)
    ensures
        answers(r, text@, grammar::delimited(text@, 0, '_')),
{
    let s = chars_of(text);
    report(&s, delimited_at(&s, 0, '_'))
}

/// A monospace span at the start of `text`, after optional spaces.
pub fn monospace(text: &str) -> (r: Result<(Inline, usize), ParseError>)
    ensures
        answers(r, text@, grammar::delimited(text@, 0, '`')),
{
    let s = chars_of(text);
    report(&s, delimited_at(&s, 0, '`'))
}

/// A marked span `#...#` at the start of `text`, after optional spaces.
pub fn marker(text: &str) -> (r: Result<(Inline, usize), ParseError>)
    ensures
        answers(r, text@, grammar::delimited(text@, 0, '#')),
{
    let s = chars_of(text);
    report(&s, delimited_at(&s, 0, '#'))
}

/// Inline code between triple backticks at the start of `text`.
pub fn inline_code(text: &str) -> (r: Result<(Inline, usize), ParseError>)
    ensures
        answers(r, text@, grammar::inline_code(text@, 0)),
{
    let s = chars_of(text);
    report(&s, inline_code_at(&s, 0))
}

/// A soft or hard line break at the start of `text`.
pub fn line_break(text: &str) -> (r: Result<(Inline, usize), ParseError>)
    ensures
        answers(r, text@, grammar::line_break(text@, 0)),
{
    let s = chars_of(text);
    report(&s, line_break_at(&s, 0))
}

/// One block at the start of `text`.
pub fn block(text: &str) -> (r: Result<(Block, usize), ParseError>)
    ensures
        answers(r, text@, grammar::block(text@, 0)),
{
    let s = chars_of(text);
    report(&s, block_at(&s, 0))
}

/// A heading at the start of `text`.
pub fn heading_block(text: &str) -> (r: Result<(Block, usize), ParseError>)
    ensures
        answers(r, text@, grammar::heading(text@, 0)),
{
    let s = chars_of(text);
    report(&s, heading_at(&s, 0))
}

/// A paragraph at the start of `text`.
pub fn paragraph_block(text: &str) -> (r: Result<(Block, usize), ParseError>)
    ensures
        answers(r, text@, grammar::paragraph(text@, 0)),
{
    let s = chars_of(text);
    report(&s, paragraph_at(&s, 0))
}

/// A blank separator at the start of `text`.
pub fn blank_block(text: &str) -> (r: Result<(Block, usize), ParseError>)
    ensures
        answers(r, text@, grammar::blank(text@, 0)),
{
    let s = chars_of(text);
    report(&s, blank_at(&s, 0))
}

/// A horizontal rule `<<<` at the start of `text`.
pub fn horizontal_ruled_line_block(text: &str) -> (r: Result<(Block, usize), ParseError>)
    ensures
        answers(r, text@, grammar::horizontal_rule(text@, 0)),
{
    let s = chars_of(text);
    report(&s, horizontal_rule_at(&s, 0))
}

/// An unordered list (items marked with `*`) at the start of `text`.
pub fn unordered_list_block(text: &str) -> (r: Result<(Block, usize), ParseError>)
    ensures
        answers(r, text@, grammar::unordered_list(text@, 0)),
{
    let s = chars_of(text);
    let r = match list_at(&s, 0, '*') {
        Ok((items, k)) => Ok((Block::UnorderedList { items }, k)),
        Err(p) => Err(p),
    };
    report(&s, r)
}

/// An ordered list (items marked with `.`) at the start of `text`.
pub fn ordered_list_block(text: &str) -> (r: Result<(Block, usize), ParseError>)
    ensures
        answers(r, text@, grammar::ordered_list(text@, 0)),
{
    let s = chars_of(text);
    let r = match list_at(&s, 0, '.') {
        Ok((items, k)) => Ok((Block::OrderedList { items }, k)),
        Err(p) => Err(p),
    };
    report(&s, r)
}

/// A list item with marker `list_char` at the start of `text`.
pub fn list_item(text: &str, list_char: char) -> (r: Result<(ListItem, usize), ParseError>)
    ensures
        answers(r, text@, grammar::list_item(text@, 0, list_char)),
{
    let s = chars_of(text);
    report(&s, list_item_at(&s, 0, list_char))
}

/// Named attributes `[key=value, ...]` at the start of `text`.
pub fn named_atteributes(text: &str) -> (r: Result<(Attributes, usize), ParseError>)
    ensures
        answers(r, text@, attributes::named(text@, 0)),
{
    let s = chars_of(text);
    report(&s, named_at(&s, 0))
}

/// Positional attributes `[token, ...]` at the start of `text`.
pub fn position_attributes(text: &str) -> (r: Result<(Attributes, usize), ParseError>)
    ensures
        answers(r, text@, attributes::positional(text@, 0)),
{
    let s = chars_of(text);
    report(&s, positional_at(&s, 0))
}

/// An attribute list at the start of `text`: named where that form matches,
/// else positional.
pub fn attribute_list(text: &str) -> (r: Result<(Attributes, usize), ParseError>)
    ensures
        answers(r, text@, attributes::attribute_list(text@, 0)),
{
    let s = chars_of(text);
    report(&s, attribute_list_at(&s, 0))
}

} // verus!
