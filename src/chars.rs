use vstd::prelude::*;
use crate::grammar::{agree, hard_break_at, is_special, is_white, lemma_agree, lemma_run_end, lemma_text_end, lemma_white_end, literal, run_end, text_end, white_end};

verus! {

/// Relies on `String::push`: appends the given character to the end of the string.
#[verifier::external_body]
fn push_char(s: &mut String, c: char)
    ensures
        final(s)@ == old(s)@.push(c),
{
    s.push(c);
}

/// The characters of `s`, in order.
pub fn chars_of(s: &str) -> (r: Vec<char>)
    ensures
        r@ == s@,
{
    let mut r: Vec<char> = Vec::new();
    for c in it: s.chars()
        invariant
            r@ == it.seq().take(it.index() as int),
    {
        r.push(c);
    }
    r
}

/// The string made of `s[from..to]`.
pub fn string_of(s: &Vec<char>, from: usize, to: usize) -> (r: String)
    requires
        from <= to <= s@.len(),
    ensures
        r@ == s@.subrange(from as int, to as int),
{
    let mut r = String::new();
    let mut k: usize = from;
    while k < to
        invariant
            from <= k <= to <= s@.len(),
            r@ == s@.subrange(from as int, k as int),
        decreases to - k,
    {
        push_char(&mut r, s[k]);
        assert(s@.subrange(from as int, k + 1) == s@.subrange(from as int, k as int).push(s@[k as int]));
        k = k + 1;
    }
    r
}

/// Whether `c` is whitespace.
pub fn is_white_char(c: char) -> (r: bool)
    ensures
        r == is_white(c),
{
    let u = c as u32;
    (9 <= u && u <= 13) || u == 32 || u == 0x85 || u == 0xA0 || u == 0x1680 || (0x2000 <= u && u
        <= 0x200A) || u == 0x2028 || u == 0x2029 || u == 0x202F || u == 0x205F || u == 0x3000
}

/// Whether `c` ends a text run.
pub fn is_special_char(c: char) -> (r: bool)
    ensures
        r == is_special(c),
{
    c == '\n' || c == '*' || c == '_' || c == '`' || c == '#'
}

/// Whether a hard break starts at `i`.
pub fn hard_break_at_pos(s: &Vec<char>, i: usize) -> (r: bool)
    ensures
        r == hard_break_at(s@, i as int),
{
    i < s.len() && s.len() - i >= 3 && s[i] == ' ' && s[i + 1] == '+' && s[i + 2] == '\n'
}

pub fn text_end_at(s: &Vec<char>, i: usize, breaks: bool) -> (e: usize)
    requires
        i <= s@.len(),
    ensures
        e == text_end(s@, i as int, breaks),
        i <= e <= s@.len(),
{
    proof {
        lemma_text_end(s@, i as int, breaks);
    }
    let mut k: usize = i;
    while k < s.len() && !is_special_char(s[k]) && !(breaks && hard_break_at_pos(s, k))
        invariant
            i <= k <= s@.len(),
            text_end(s@, k as int, breaks) == text_end(s@, i as int, breaks),
        decreases s@.len() - k,
    {
        k = k + 1;
    }
    k
}

pub fn run_end_at(s: &Vec<char>, i: usize, c: char) -> (e: usize)
    requires
        i <= s@.len(),
    ensures
        e == run_end(s@, i as int, c),
        i <= e <= s@.len(),
{
    proof {
        lemma_run_end(s@, i as int, c);
    }
    let mut k: usize = i;
    while k < s.len() && s[k] == c
        invariant
            i <= k <= s@.len(),
            run_end(s@, k as int, c) == run_end(s@, i as int, c),
        decreases s@.len() - k,
    {
        k = k + 1;
    }
    k
}

pub fn white_end_at(s: &Vec<char>, i: usize) -> (e: usize)
    requires
        i <= s@.len(),
    ensures
        e == white_end(s@, i as int),
        i <= e <= s@.len(),
{
    proof {
        lemma_white_end(s@, i as int);
    }
    let mut k: usize = i;
    while k < s.len() && is_white_char(s[k])
        invariant
            i <= k <= s@.len(),
            white_end(s@, k as int) == white_end(s@, i as int),
        decreases s@.len() - k,
    {
        k = k + 1;
    }
    k
}

/// The literal `lit` at `i`: `Ok(end)` or `Err(failure position)`.
pub fn literal_at(s: &Vec<char>, i: usize, lit: &[char]) -> (r: Result<usize, usize>)
    requires
        i <= s@.len(),
    ensures
        literal(s@, i as int, lit@) == match r {
            Ok(e) => Ok::<((), int), int>(((), e as int)),
            Err(p) => Err(p as int),
        },
        match r {
            Ok(e) => e == i + lit@.len() && e <= s@.len(),
            Err(p) => i <= p <= s@.len(),
        },
{
    proof {
        lemma_agree(s@, i as int, lit@, 0);
    }
    let n = s.len();
    let mut k: usize = 0;
    while k < lit.len() && k < n - i && s[i + k] == lit[k]
        invariant
            n == s@.len(),
            i <= s@.len(),
            0 <= k <= lit@.len(),
            i + k <= s@.len(),
            agree(s@, i as int, lit@, k as int) == agree(s@, i as int, lit@, 0),
        decreases lit@.len() - k,
    {
        k = k + 1;
    }
    if k == lit.len() {
        Ok(i + k)
    } else {
        Err(i + k)
    }
}

} // verus!
