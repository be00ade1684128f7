//! Inline elements: text runs, emphasis spans, inline code and line breaks.
use vstd::prelude::*;
use crate::ast::Inline;
use crate::chars::{literal_at, run_end_at, string_of, text_end_at};
use crate::grammar::{
    delimited, element, farthest, hard_break, inline_code, line_break, list_element, single,
    styled, text, ticks, Step,
};

verus! {

/// The view of an executable production result.
pub open spec fn step_view<T: View>(r: Result<(T, usize), usize>) -> Step<T::V> {
    match r {
        Ok((x, k)) => Ok((x@, k as int)),
        Err(p) => Err(p as int),
    }
}

/// Positions of a result stay within the input.
pub open spec fn within<T>(r: Result<(T, usize), usize>, i: usize, n: nat) -> bool {
    match r {
        Ok((_, k)) => i < k <= n,
        Err(p) => p <= n,
    }
}

pub fn farther(p: usize, q: usize) -> (r: usize)
    ensures
        r as int == farthest(p as int, q as int),
{
    if p >= q {
        p
    } else {
        q
    }
}

/// A non-empty text run at `i`; `breaks` says whether a hard break ends it.
pub fn text_at(s: &Vec<char>, i: usize, breaks: bool) -> (r: Result<(Inline, usize), usize>)
    requires
        i <= s@.len(),
    ensures
        step_view(r) == text(s@, i as int, breaks),
        within(r, i, s@.len()),
{
    let e = text_end_at(s, i, breaks);
    if e > i {
        Ok((Inline::Text(string_of(s, i, e)), e))
    } else {
        Err(i)
    }
}

/// One character other than a newline, as text.
pub fn single_at(s: &Vec<char>, i: usize) -> (r: Result<(Inline, usize), usize>)
    requires
        i <= s@.len(),
    ensures
        step_view(r) == single(s@, i as int),
        within(r, i, s@.len()),
{
    if i < s.len() && s[i] != '\n' {
        let t = string_of(s, i, i + 1);
        assert(s@.subrange(i as int, i + 1) == seq![s@[i as int]]);
        Ok((Inline::Text(t), i + 1))
    } else {
        Err(i)
    }
}

/// A soft or a hard line break at `i`.
pub fn line_break_at(s: &Vec<char>, i: usize) -> (r: Result<(Inline, usize), usize>)
    requires
        i <= s@.len(),
    ensures
        step_view(r) == line_break(s@, i as int),
        within(r, i, s@.len()),
{
    let soft: usize = if i < s.len() && s[i] == '\n' {
        if s.len() - i > 1 && s[i + 1] == '\n' {
            i + 1
        } else {
            return Ok((Inline::SoftBreak, i + 1));
        }
    } else {
        i
    };
    let lit: &[char] = &[' ', '+', '\n'];
    assert(lit@ == hard_break());
    match literal_at(s, i, lit) {
        Ok(e) => Ok((Inline::HardBreak, e)),
        Err(p) => Err(farther(soft, p)),
    }
}

/// The span that delimiter `d` gives to `c`.
fn styled_inline(d: char, c: Inline) -> (r: Inline)
    ensures
        r@ == styled(d, c@),
{
    if d == '*' {
        Inline::Bold { child: Box::new(c) }
    } else if d == '_' {
        Inline::Italic { child: Box::new(c) }
    } else if d == '`' {
        Inline::Monospace { child: Box::new(c) }
    } else {
        Inline::Marker { child: Box::new(c) }
    }
}

/// Spaces, the delimiter `d`, one inline element, and `d` again.
pub fn delimited_at(s: &Vec<char>, i: usize, d: char) -> (r: Result<(Inline, usize), usize>)
    requires
        i <= s@.len(),
    ensures
        step_view(r) == delimited(s@, i as int, d),
        within(r, i, s@.len()),
    decreases s@.len() - i, 0nat,
{
    let j = run_end_at(s, i, ' ');
    if j < s.len() && s[j] == d {
        match element_at(s, j + 1) {
            Ok((c, k)) => {
                if k < s.len() && s[k] == d {
                    Ok((styled_inline(d, c), k + 1))
                } else {
                    Err(k)
                }
            },
            Err(p) => Err(p),
        }
    } else {
        Err(j)
    }
}

/// Three backticks, one inline element, and three backticks again.
pub fn inline_code_at(s: &Vec<char>, i: usize) -> (r: Result<(Inline, usize), usize>)
    requires
        i <= s@.len(),
    ensures
        step_view(r) == inline_code(s@, i as int),
        within(r, i, s@.len()),
    decreases s@.len() - i, 0nat,
{
    let lit: &[char] = &['`', '`', '`'];
    assert(lit@ == ticks());
    match literal_at(s, i, lit) {
        Ok(e) => match element_at(s, e) {
            Ok((c, k)) => match literal_at(s, k, lit) {
                Ok(f) => Ok((Inline::InlineCode { child: Box::new(c) }, f)),
                Err(p) => Err(p),
            },
            Err(p) => Err(p),
        },
        Err(p) => Err(p),
    }
}

/// One inline element at `i`.
pub fn element_at(s: &Vec<char>, i: usize) -> (r: Result<(Inline, usize), usize>)
    requires
        i <= s@.len(),
    ensures
        step_view(r) == element(s@, i as int),
        within(r, i, s@.len()),
    decreases s@.len() - i, 1nat,
{
    let p = match text_at(s, i, true) {
        Ok(x) => return Ok(x),
        Err(p) => p,
    };
    let p = match delimited_at(s, i, '*') {
        Ok(x) => return Ok(x),
        Err(q) => farther(p, q),
    };
    let p = match delimited_at(s, i, '_') {
        Ok(x) => return Ok(x),
        Err(q) => farther(p, q),
    };
    let p = match inline_code_at(s, i) {
        Ok(x) => return Ok(x),
        Err(q) => farther(p, q),
    };
    let p = match delimited_at(s, i, '`') {
        Ok(x) => return Ok(x),
        Err(q) => farther(p, q),
    };
    let p = match delimited_at(s, i, '#') {
        Ok(x) => return Ok(x),
        Err(q) => farther(p, q),
    };
    let p = match line_break_at(s, i) {
        Ok(x) => return Ok(x),
        Err(q) => farther(p, q),
    };
    match single_at(s, i) {
        Ok(x) => Ok(x),
        Err(q) => Err(farther(p, q)),
    }
}

/// One inline element of a list item at `i`.
pub fn list_element_at(s: &Vec<char>, i: usize) -> (r: Result<(Inline, usize), usize>)
    requires
        i <= s@.len(),
    ensures
        step_view(r) == list_element(s@, i as int),
        within(r, i, s@.len()),
{
    let p = match text_at(s, i, false) {
        Ok(x) => return Ok(x),
        Err(p) => p,
    };
    let p = match delimited_at(s, i, '*') {
        Ok(x) => return Ok(x),
        Err(q) => farther(p, q),
    };
    let p = match delimited_at(s, i, '_') {
        Ok(x) => return Ok(x),
        Err(q) => farther(p, q),
    };
    let p = match delimited_at(s, i, '`') {
        Ok(x) => return Ok(x),
        Err(q) => farther(p, q),
    };
    match single_at(s, i) {
        Ok(x) => Ok(x),
        Err(q) => Err(farther(p, q)),
    }
}

} // verus!
