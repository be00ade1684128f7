//! The grammar, as spec functions over the input characters.
//!
//! Each production is read at a position `i` of `s`. It either matches, giving
//! its value and the position right after what it consumed, or fails, giving
//! the position at which matching broke off. An ordered choice takes the first
//! alternative that matches; when all fail it reports the farthest position
//! any of them reached.
use vstd::prelude::*;
use crate::ast::{BlockV, HeadingLevel, InlineV, ListItemV};

verus! {

/// Result of a production: `Ok((value, end))` or `Err(failure position)`.
pub type Step<T> = Result<(T, int), int>;

/// Characters that end a text run.
pub open spec fn is_special(c: char) -> bool {
    c == '\n' || c == '*' || c == '_' || c == '`' || c == '#'
}

/// Unicode `White_Space`, the set that `char::is_whitespace` tests.
pub open spec fn is_white(c: char) -> bool {
    let u = c as u32;
    (9 <= u <= 13) || u == 32 || u == 0x85 || u == 0xA0 || u == 0x1680 || (0x2000 <= u <= 0x200A)
        || u == 0x2028 || u == 0x2029 || u == 0x202F || u == 0x205F || u == 0x3000
}

/// A hard break ` +\n` starts at `i`.
pub open spec fn hard_break_at(s: Seq<char>, i: int) -> bool {
    0 <= i && i + 3 <= s.len() && s[i] == ' ' && s[i + 1] == '+' && s[i + 2] == '\n'
}

/// End of the text run from `i`: the first position that is the end of the
/// input, a special character or (where line breaks are in the grammar) the
/// start of a hard break.
pub open spec fn text_end(s: Seq<char>, i: int, breaks: bool) -> int
    decreases s.len() - i,
{
    if i >= s.len() || is_special(s[i]) || (breaks && hard_break_at(s, i)) {
        i
    } else {
        text_end(s, i + 1, breaks)
    }
}

/// End of the maximal run of `c` from `i`.
pub open spec fn run_end(s: Seq<char>, i: int, c: char) -> int
    decreases s.len() - i,
{
    if 0 <= i < s.len() && s[i] == c {
        run_end(s, i + 1, c)
    } else {
        i
    }
}

/// End of the maximal run of whitespace from `i`.
pub open spec fn white_end(s: Seq<char>, i: int) -> int
    decreases s.len() - i,
{
    if 0 <= i < s.len() && is_white(s[i]) {
        white_end(s, i + 1)
    } else {
        i
    }
}

/// How many characters of `lit`, from its `k`-th on, `s` holds from `i + k` on, plus `k`.
pub open spec fn agree(s: Seq<char>, i: int, lit: Seq<char>, k: int) -> int
    decreases lit.len() - k,
{
    if 0 <= k < lit.len() && 0 <= i + k < s.len() && s[i + k] == lit[k] {
        agree(s, i, lit, k + 1)
    } else {
        k
    }
}

/// The literal `lit` at `i`.
pub open spec fn literal(s: Seq<char>, i: int, lit: Seq<char>) -> Step<()> {
    let k = agree(s, i, lit, 0);
    if k == lit.len() {
        Ok(((), i + k))
    } else {
        Err(i + k)
    }
}

pub open spec fn farthest(p: int, q: int) -> int {
    if p >= q {
        p
    } else {
        q
    }
}

/// Ordered choice between two alternatives.
pub open spec fn alt<T>(a: Step<T>, b: Step<T>) -> Step<T> {
    match a {
        Ok(x) => Ok(x),
        Err(p) => match b {
            Ok(y) => Ok(y),
            Err(q) => Err(farthest(p, q)),
        },
    }
}

pub open spec fn ticks() -> Seq<char> {
    seq!['`', '`', '`']
}

pub open spec fn hard_break() -> Seq<char> {
    seq![' ', '+', '\n']
}

pub open spec fn rule() -> Seq<char> {
    seq!['<', '<', '<']
}

pub open spec fn two_newlines() -> Seq<char> {
    seq!['\n', '\n']
}

/// The span that delimiter `d` gives to `c`.
pub open spec fn styled(d: char, c: InlineV) -> InlineV {
    if d == '*' {
        InlineV::Bold(Box::new(c))
    } else if d == '_' {
        InlineV::Italic(Box::new(c))
    } else if d == '`' {
        InlineV::Monospace(Box::new(c))
    } else {
        InlineV::Marker(Box::new(c))
    }
}

/// A non-empty text run.
pub open spec fn text(s: Seq<char>, i: int, breaks: bool) -> Step<InlineV> {
    let e = text_end(s, i, breaks);
    if e > i {
        Ok((InlineV::Text(s.subrange(i, e)), e))
    } else {
        Err(i)
    }
}

/// One character other than a newline, as text.
pub open spec fn single(s: Seq<char>, i: int) -> Step<InlineV> {
    if 0 <= i < s.len() && s[i] != '\n' {
        Ok((InlineV::Text(seq![s[i]]), i + 1))
    } else {
        Err(i)
    }
}

/// A soft break (a newline not followed by another) or a hard break (` +\n`).
pub open spec fn line_break(s: Seq<char>, i: int) -> Step<InlineV> {
    let soft = if 0 <= i < s.len() && s[i] == '\n' {
        if i + 1 < s.len() && s[i + 1] == '\n' {
            Err(i + 1)
        } else {
            Ok((InlineV::SoftBreak, i + 1))
        }
    } else {
        Err(i)
    };
    let hard = match literal(s, i, hard_break()) {
        Ok((_, k)) => Ok((InlineV::HardBreak, k)),
        Err(p) => Err(p),
    };
    alt(soft, hard)
}

/// Spaces, the delimiter `d`, one element, and `d` again.
pub open spec fn delimited(s: Seq<char>, i: int, d: char) -> Step<InlineV>
    decreases s.len() - i, 0nat,
    via delimited_decreases
{
    let j = run_end(s, i, ' ');
    if 0 <= j < s.len() && s[j] == d {
        match element(s, j + 1) {
            Ok((c, k)) => if 0 <= k < s.len() && s[k] == d {
                Ok((styled(d, c), k + 1))
            } else {
                Err(k)
            },
            Err(p) => Err(p),
        }
    } else {
        Err(j)
    }
}

#[via_fn]
proof fn delimited_decreases(s: Seq<char>, i: int, d: char) {
    lemma_run_end(s, i, ' ');
}

/// Three backticks, one element, and three backticks again.
pub open spec fn inline_code(s: Seq<char>, i: int) -> Step<InlineV>
    decreases s.len() - i, 0nat,
    via inline_code_decreases
{
    match literal(s, i, ticks()) {
        Ok(_) => match element(s, i + 3) {
            Ok((c, k)) => match literal(s, k, ticks()) {
                Ok((_, e)) => Ok((InlineV::InlineCode(Box::new(c)), e)),
                Err(p) => Err(p),
            },
            Err(p) => Err(p),
        },
        Err(p) => Err(p),
    }
}

#[via_fn]
proof fn inline_code_decreases(s: Seq<char>, i: int) {
    lemma_literal(s, i, ticks());
}

/// One inline element.
pub open spec fn element(s: Seq<char>, i: int) -> Step<InlineV>
    decreases s.len() - i, 1nat,
{
    alt(
        text(s, i, true),
        alt(
            delimited(s, i, '*'),
            alt(
                delimited(s, i, '_'),
                alt(
                    inline_code(s, i),
                    alt(
                        delimited(s, i, '`'),
                        alt(delimited(s, i, '#'), alt(line_break(s, i), single(s, i))),
                    ),
                ),
            ),
        ),
    )
}

/// One inline element of a list item: no line breaks, no inline code, no marker.
pub open spec fn list_element(s: Seq<char>, i: int) -> Step<InlineV> {
    alt(
        text(s, i, false),
        alt(
            delimited(s, i, '*'),
            alt(delimited(s, i, '_'), alt(delimited(s, i, '`'), single(s, i))),
        ),
    )
}

pub proof fn lemma_text_end(s: Seq<char>, i: int, breaks: bool)
    ensures
        i <= text_end(s, i, breaks),
        i <= s.len() ==> text_end(s, i, breaks) <= s.len(),
        forall|j: int|
            i <= j < text_end(s, i, breaks) ==> !is_special(#[trigger] s[j]) && !(breaks
                && hard_break_at(s, j)),
    decreases s.len() - i,
{
    if !(i >= s.len() || is_special(s[i]) || (breaks && hard_break_at(s, i))) {
        lemma_text_end(s, i + 1, breaks);
    }
}

pub proof fn lemma_white_end(s: Seq<char>, i: int)
    ensures
        i <= white_end(s, i),
        i <= s.len() ==> white_end(s, i) <= s.len(),
    decreases s.len() - i,
{
    if 0 <= i < s.len() && is_white(s[i]) {
        lemma_white_end(s, i + 1);
    }
}

pub proof fn lemma_agree(s: Seq<char>, i: int, lit: Seq<char>, k: int)
    requires
        0 <= k <= lit.len(),
    ensures
        k <= agree(s, i, lit, k) <= lit.len(),
        0 <= i && i + k <= s.len() ==> i + agree(s, i, lit, k) <= s.len(),
    decreases lit.len() - k,
{
    if 0 <= k < lit.len() && 0 <= i + k < s.len() && s[i + k] == lit[k] {
        lemma_agree(s, i, lit, k + 1);
    }
}

pub proof fn lemma_literal(s: Seq<char>, i: int, lit: Seq<char>)
    ensures
        literal(s, i, lit) matches Ok((_, e)) ==> e == i + lit.len() && (lit.len() > 0 ==> 0 <= i
            && e <= s.len()),
        literal(s, i, lit) matches Err(p) ==> i <= p && (0 <= i <= s.len() ==> p <= s.len()),
{
    lemma_agree(s, i, lit, 0);
}

pub proof fn lemma_run_end(s: Seq<char>, i: int, c: char)
    ensures
        i <= run_end(s, i, c),
        i <= s.len() ==> run_end(s, i, c) <= s.len(),
        forall|j: int| i <= j < run_end(s, i, c) ==> s[j] == c,
    decreases s.len() - i,
{
    if 0 <= i < s.len() && s[i] == c {
        lemma_run_end(s, i + 1, c);
    }
}

/// The elements that follow one another from `i`, as long as one matches,
/// and the position after the last.
pub open spec fn element_run(s: Seq<char>, i: int) -> (Seq<InlineV>, int)
    decreases s.len() - i,
    via element_run_decreases
{
    match element(s, i) {
        Ok((x, k)) => {
            let r = element_run(s, k);
            (seq![x] + r.0, r.1)
        },
        Err(_) => (Seq::empty(), i),
    }
}

#[via_fn]
proof fn element_run_decreases(s: Seq<char>, i: int) {
    lemma_element_advances(s, i);
}

/// The list-item elements that follow one another from `i`.
pub open spec fn list_element_run(s: Seq<char>, i: int) -> (Seq<InlineV>, int)
    decreases s.len() - i,
    via list_element_run_decreases
{
    match list_element(s, i) {
        Ok((x, k)) => {
            let r = list_element_run(s, k);
            (seq![x] + r.0, r.1)
        },
        Err(_) => (Seq::empty(), i),
    }
}

#[via_fn]
proof fn list_element_run_decreases(s: Seq<char>, i: int) {
    lemma_list_element_advances(s, i);
}

/// One or more elements.
pub open spec fn paragraph(s: Seq<char>, i: int) -> Step<BlockV> {
    match element(s, i) {
        Ok(_) => Ok((BlockV::Paragraph(element_run(s, i).0), element_run(s, i).1)),
        Err(p) => Err(p),
    }
}

/// The level that `l` leading `=` characters give, for `l` from 1 to 5.
pub open spec fn heading_level(l: int) -> HeadingLevel {
    if l == 1 {
        HeadingLevel::Title
    } else if l == 2 {
        HeadingLevel::Level1
    } else if l == 3 {
        HeadingLevel::Level2
    } else if l == 4 {
        HeadingLevel::Level3
    } else {
        HeadingLevel::Level4
    }
}

/// A run of `=`, a run of spaces and one element. With more than five `=`
/// the markers are literal text and the block is a paragraph.
pub open spec fn heading(s: Seq<char>, i: int) -> Step<BlockV> {
    let e = run_end(s, i, '=');
    let t = run_end(s, e, ' ');
    if e == i {
        Err(i)
    } else if t == e {
        Err(e)
    } else {
        match element(s, t) {
            Ok((c, k)) => if e - i > 5 {
                Ok((BlockV::Paragraph(seq![InlineV::Text(s.subrange(i, t)), c]), k))
            } else {
                Ok((BlockV::Heading(heading_level(e - i), seq![c], None), k))
            },
            Err(p) => Err(p),
        }
    }
}

/// The token `<<<`.
pub open spec fn horizontal_rule(s: Seq<char>, i: int) -> Step<BlockV> {
    match literal(s, i, rule()) {
        Ok((_, k)) => Ok((BlockV::HorizontalRule, k)),
        Err(p) => Err(p),
    }
}

/// Exactly two newlines.
pub open spec fn blank(s: Seq<char>, i: int) -> Step<BlockV> {
    match literal(s, i, two_newlines()) {
        Ok((_, k)) => Ok((BlockV::BlankSeparator, k)),
        Err(p) => Err(p),
    }
}

/// The content of a list item: one or more list-item elements.
pub open spec fn item_content(s: Seq<char>, i: int) -> Step<Seq<InlineV>> {
    match list_element(s, i) {
        Ok(_) => Ok((list_element_run(s, i).0, list_element_run(s, i).1)),
        Err(p) => Err(p),
    }
}

/// The run of marker `m` that opens a list item at `i`: its end, when it is
/// not empty and its length fits a `u32`.
pub open spec fn marker_end(s: Seq<char>, i: int, m: char) -> Result<int, int> {
    let e = run_end(s, i, m);
    if e == i || e - i > u32::MAX {
        Err(i)
    } else {
        Ok(e)
    }
}

/// The character between the brackets of a check box.
pub open spec fn is_box_mark(c: char) -> bool {
    c == ' ' || c == 'x' || c == '*'
}

/// Markers, whitespace, a check box `[ ]`, `[x]` or `[*]`, whitespace, content.
pub open spec fn check_item(s: Seq<char>, i: int, m: char) -> Step<ListItemV> {
    match marker_end(s, i, m) {
        Ok(e) => {
            let w = white_end(s, e);
            if !(0 <= w < s.len() && s[w] == '[') {
                Err(w)
            } else if !(w + 1 < s.len() && is_box_mark(s[w + 1])) {
                Err(w + 1)
            } else if !(w + 2 < s.len() && s[w + 2] == ']') {
                Err(w + 2)
            } else {
                match item_content(s, white_end(s, w + 3)) {
                    Ok((xs, k)) => Ok((ListItemV::Check(xs, (e - i) as nat, s[w + 1] != ' '), k)),
                    Err(p) => Err(p),
                }
            }
        },
        Err(p) => Err(p),
    }
}

/// Markers, whitespace, content.
pub open spec fn normal_item(s: Seq<char>, i: int, m: char) -> Step<ListItemV> {
    match marker_end(s, i, m) {
        Ok(e) => match item_content(s, white_end(s, e)) {
            Ok((xs, k)) => Ok((ListItemV::Normal(xs, (e - i) as nat), k)),
            Err(p) => Err(p),
        },
        Err(p) => Err(p),
    }
}

/// A list item with marker `m`: a checked item if one matches, else a plain one.
pub open spec fn list_item(s: Seq<char>, i: int, m: char) -> Step<ListItemV> {
    alt(check_item(s, i, m), normal_item(s, i, m))
}

/// `k`, or the position after a newline at `k`.
pub open spec fn skip_newline(s: Seq<char>, k: int) -> int {
    if 0 <= k < s.len() && s[k] == '\n' {
        k + 1
    } else {
        k
    }
}

/// The list items with marker `m` that follow one another from `i`, each
/// followed by at most one newline.
pub open spec fn item_run(s: Seq<char>, i: int, m: char) -> (Seq<ListItemV>, int)
    decreases s.len() - i,
    via item_run_decreases
{
    match list_item(s, i, m) {
        Ok((x, k)) => {
            let r = item_run(s, skip_newline(s, k), m);
            (seq![x] + r.0, r.1)
        },
        Err(_) => (Seq::empty(), i),
    }
}

#[via_fn]
proof fn item_run_decreases(s: Seq<char>, i: int, m: char) {
    lemma_list_item_advances(s, i, m);
}

/// One or more list items with marker `m`.
pub open spec fn list(s: Seq<char>, i: int, m: char) -> Step<Seq<ListItemV>> {
    match list_item(s, i, m) {
        Ok(_) => Ok((item_run(s, i, m).0, item_run(s, i, m).1)),
        Err(p) => Err(p),
    }
}

pub open spec fn ordered_list(s: Seq<char>, i: int) -> Step<BlockV> {
    match list(s, i, '.') {
        Ok((xs, k)) => Ok((BlockV::OrderedList(xs), k)),
        Err(p) => Err(p),
    }
}

pub open spec fn unordered_list(s: Seq<char>, i: int) -> Step<BlockV> {
    match list(s, i, '*') {
        Ok((xs, k)) => Ok((BlockV::UnorderedList(xs), k)),
        Err(p) => Err(p),
    }
}

/// One block: the first of heading, horizontal rule, ordered list, unordered
/// list, paragraph and blank separator that matches.
pub open spec fn block(s: Seq<char>, i: int) -> Step<BlockV> {
    alt(
        heading(s, i),
        alt(
            horizontal_rule(s, i),
            alt(
                ordered_list(s, i),
                alt(unordered_list(s, i), alt(paragraph(s, i), blank(s, i))),
            ),
        ),
    )
}

/// Blocks from `i` to the end of the input, or the position of the first
/// block that does not match.
pub open spec fn blocks_from(s: Seq<char>, i: int) -> Result<Seq<BlockV>, int>
    decreases s.len() - i,
    via blocks_from_decreases
{
    if i >= s.len() {
        Ok(Seq::empty())
    } else {
        match block(s, i) {
            Ok((b, k)) => match blocks_from(s, k) {
                Ok(bs) => Ok(seq![b] + bs),
                Err(p) => Err(p),
            },
            Err(p) => Err(p),
        }
    }
}

#[via_fn]
proof fn blocks_from_decreases(s: Seq<char>, i: int) {
    lemma_block_advances(s, i);
}

/// End of the leading run of spaces and newlines.
pub open spec fn lead_end(s: Seq<char>, i: int) -> int
    decreases s.len() - i,
{
    if 0 <= i < s.len() && (s[i] == ' ' || s[i] == '\n') {
        lead_end(s, i + 1)
    } else {
        i
    }
}

/// The document: the blocks after the leading spaces and newlines.
pub open spec fn document(s: Seq<char>) -> Result<Seq<BlockV>, int> {
    blocks_from(s, lead_end(s, 0))
}

// ---------------------------------------------------------------------------
// Every production that matches consumes at least one character.

pub proof fn lemma_element_advances(s: Seq<char>, i: int)
    ensures
        element(s, i) matches Ok((_, k)) ==> i < k <= s.len(),
    decreases s.len() - i, 1nat,
{
    lemma_text_end(s, i, true);
    lemma_delimited_advances(s, i, '*');
    lemma_delimited_advances(s, i, '_');
    lemma_delimited_advances(s, i, '`');
    lemma_delimited_advances(s, i, '#');
    lemma_inline_code_advances(s, i);
    lemma_literal(s, i, hard_break());
}

pub proof fn lemma_delimited_advances(s: Seq<char>, i: int, d: char)
    ensures
        delimited(s, i, d) matches Ok((_, k)) ==> i < k <= s.len(),
    decreases s.len() - i, 0nat,
{
    lemma_run_end(s, i, ' ');
    let j = run_end(s, i, ' ');
    if 0 <= j < s.len() && s[j] == d {
        lemma_element_advances(s, j + 1);
    }
}

pub proof fn lemma_inline_code_advances(s: Seq<char>, i: int)
    ensures
        inline_code(s, i) matches Ok((_, k)) ==> i < k <= s.len(),
    decreases s.len() - i, 0nat,
{
    lemma_literal(s, i, ticks());
    if literal(s, i, ticks()) is Ok {
        lemma_element_advances(s, i + 3);
        if let Ok((_, k)) = element(s, i + 3) {
            lemma_literal(s, k, ticks());
        }
    }
}

pub proof fn lemma_list_element_advances(s: Seq<char>, i: int)
    ensures
        list_element(s, i) matches Ok((_, k)) ==> i < k <= s.len(),
{
    lemma_text_end(s, i, false);
    lemma_delimited_advances(s, i, '*');
    lemma_delimited_advances(s, i, '_');
    lemma_delimited_advances(s, i, '`');
}

pub proof fn lemma_element_run(s: Seq<char>, i: int)
    ensures
        i <= element_run(s, i).1,
        i <= s.len() ==> element_run(s, i).1 <= s.len(),
        element(s, i) is Ok ==> i < element_run(s, i).1,
    decreases s.len() - i,
{
    lemma_element_advances(s, i);
    if let Ok((_, k)) = element(s, i) {
        lemma_element_run(s, k);
    }
}

pub proof fn lemma_list_element_run(s: Seq<char>, i: int)
    ensures
        i <= list_element_run(s, i).1,
        i <= s.len() ==> list_element_run(s, i).1 <= s.len(),
        list_element(s, i) is Ok ==> i < list_element_run(s, i).1,
    decreases s.len() - i,
{
    lemma_list_element_advances(s, i);
    if let Ok((_, k)) = list_element(s, i) {
        lemma_list_element_run(s, k);
    }
}

pub proof fn lemma_item_content(s: Seq<char>, i: int)
    ensures
        item_content(s, i) matches Ok((_, k)) ==> i < k && (i <= s.len() ==> k <= s.len()),
{
    lemma_list_element_run(s, i);
}

pub proof fn lemma_list_item_advances(s: Seq<char>, i: int, m: char)
    ensures
        list_item(s, i, m) matches Ok((_, k)) ==> i < k && (i <= s.len() ==> k <= s.len()),
{
    lemma_run_end(s, i, m);
    let e = run_end(s, i, m);
    lemma_white_end(s, e);
    lemma_item_content(s, white_end(s, e));
    let w = white_end(s, e);
    lemma_white_end(s, w + 3);
    lemma_item_content(s, white_end(s, w + 3));
}

pub proof fn lemma_item_run(s: Seq<char>, i: int, m: char)
    ensures
        i <= item_run(s, i, m).1,
        i <= s.len() ==> item_run(s, i, m).1 <= s.len(),
        list_item(s, i, m) is Ok ==> i < item_run(s, i, m).1,
    decreases s.len() - i,
{
    lemma_list_item_advances(s, i, m);
    if let Ok((_, k)) = list_item(s, i, m) {
        lemma_item_run(s, skip_newline(s, k), m);
    }
}

pub proof fn lemma_block_advances(s: Seq<char>, i: int)
    ensures
        block(s, i) matches Ok((_, k)) ==> i < k && (i <= s.len() ==> k <= s.len()),
{
    lemma_run_end(s, i, '=');
    lemma_run_end(s, run_end(s, i, '='), ' ');
    lemma_element_advances(s, run_end(s, run_end(s, i, '='), ' '));
    lemma_literal(s, i, rule());
    lemma_literal(s, i, two_newlines());
    lemma_item_run(s, i, '.');
    lemma_item_run(s, i, '*');
    lemma_element_run(s, i);
}

// ---------------------------------------------------------------------------
// Totality: every position short of the end starts a block.

/// At a position short of the end, a paragraph matches unless two newlines
/// start there, and then a blank separator matches.
pub proof fn lemma_block_total(s: Seq<char>, i: int)
    requires
        0 <= i < s.len(),
    ensures
        block(s, i) is Ok,
{
    if element(s, i) is Err {
        assert(s[i] == '\n');
        assert(i + 1 < s.len() && s[i + 1] == '\n');
        let lit = two_newlines();
        assert(agree(s, i, lit, 2) == 2);
        assert(agree(s, i, lit, 1) == 2);
        assert(agree(s, i, lit, 0) == 2);
        assert(blank(s, i) is Ok);
    }
}

/// From any position, blocks reach the end of the input.
pub proof fn lemma_blocks_total(s: Seq<char>, i: int)
    requires
        0 <= i,
    ensures
        blocks_from(s, i) is Ok,
    decreases s.len() - i,
{
    if i < s.len() {
        lemma_block_total(s, i);
        lemma_block_advances(s, i);
        let k = block(s, i)->Ok_0.1;
        lemma_blocks_total(s, k);
    }
}

} // verus!
