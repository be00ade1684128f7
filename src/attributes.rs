//! Bracketed attribute lists: `[key=value, ...]` or `[token, ...]`.
use vstd::prelude::*;
use crate::ast::{pairs_view, strs_view, Attributes, AttributesV};
use crate::chars::{string_of, white_end_at};
use crate::grammar::{alt, lemma_white_end, white_end, Step};
use crate::inlines::{farther, step_view, within};

verus! {

/// Characters of a key or a value of a named attribute.
pub open spec fn is_named_char(c: char) -> bool {
    c != '=' && c != ']' && c != ',' && c != '\n'
}

/// Characters of a positional attribute.
pub open spec fn is_positional_char(c: char) -> bool {
    c != ']' && c != ',' && c != '\n'
}

pub open spec fn is_token_char(c: char, named: bool) -> bool {
    if named {
        is_named_char(c)
    } else {
        is_positional_char(c)
    }
}

/// End of the maximal run from `i` of characters of a named (or, with `named`
/// false, a positional) attribute.
pub open spec fn token_end(s: Seq<char>, i: int, named: bool) -> int
    decreases s.len() - i,
{
    if 0 <= i < s.len() && is_token_char(s[i], named) {
        token_end(s, i + 1, named)
    } else {
        i
    }
}

/// `key=value`, either side possibly empty.
pub open spec fn pair(s: Seq<char>, i: int) -> Step<(Seq<char>, Seq<char>)> {
    let k = token_end(s, i, true);
    if 0 <= k < s.len() && s[k] == '=' {
        let v = token_end(s, k + 1, true);
        Ok(((s.subrange(i, k), s.subrange(k + 1, v)), v))
    } else {
        Err(k)
    }
}

pub open spec fn has_key(acc: Seq<(Seq<char>, Seq<char>)>, key: Seq<char>) -> bool {
    exists|j: int| 0 <= j < acc.len() && acc[j].0 == key
}

/// No two pairs of `acc` have the same key.
pub open spec fn keys_distinct(acc: Seq<(Seq<char>, Seq<char>)>) -> bool {
    forall|a: int, b: int| 0 <= a < b < acc.len() ==> acc[a].0 != acc[b].0
}

/// `acc` with the pair `p`: it replaces the pair with the same key, or is
/// appended where there is none.
pub open spec fn with_pair(
    acc: Seq<(Seq<char>, Seq<char>)>,
    p: (Seq<char>, Seq<char>),
) -> Seq<(Seq<char>, Seq<char>)> {
    if has_key(acc, p.0) {
        let j = choose|j: int| 0 <= j < acc.len() && acc[j].0 == p.0;
        acc.update(j, p)
    } else {
        acc.push(p)
    }
}

/// The pairs from `i` on, added to `acc`: separated by a comma and optional
/// whitespace, and closed by `]`.
pub open spec fn named_from(s: Seq<char>, i: int, acc: Seq<(Seq<char>, Seq<char>)>) -> Step<
    Seq<(Seq<char>, Seq<char>)>,
>
    decreases s.len() - i,
    via named_from_decreases
{
    match pair(s, i) {
        Ok((p, k)) => if 0 <= k < s.len() && s[k] == ',' {
            named_from(s, white_end(s, k + 1), with_pair(acc, p))
        } else if 0 <= k < s.len() && s[k] == ']' {
            Ok((with_pair(acc, p), k + 1))
        } else {
            Err(k)
        },
        Err(p) => Err(p),
    }
}

#[via_fn]
proof fn named_from_decreases(s: Seq<char>, i: int, acc: Seq<(Seq<char>, Seq<char>)>) {
    lemma_pair(s, i);
    if let Ok((_, k)) = pair(s, i) {
        lemma_white_end(s, k + 1);
    }
}

/// Named attributes at `i`.
pub open spec fn named(s: Seq<char>, i: int) -> Step<AttributesV> {
    if 0 <= i < s.len() && s[i] == '[' {
        match named_from(s, i + 1, Seq::empty()) {
            Ok((ps, k)) => Ok((AttributesV::Named(ps), k)),
            Err(p) => Err(p),
        }
    } else {
        Err(i)
    }
}

/// The non-empty tokens from `i` on, appended to `acc`: separated by commas and
/// closed by `]`.
pub open spec fn positional_from(s: Seq<char>, i: int, acc: Seq<Seq<char>>) -> Step<
    Seq<Seq<char>>,
>
    decreases s.len() - i,
    via positional_from_decreases
{
    let k = token_end(s, i, false);
    if k == i {
        Err(i)
    } else if 0 <= k < s.len() && s[k] == ',' {
        positional_from(s, k + 1, acc.push(s.subrange(i, k)))
    } else if 0 <= k < s.len() && s[k] == ']' {
        Ok((acc.push(s.subrange(i, k)), k + 1))
    } else {
        Err(k)
    }
}

#[via_fn]
proof fn positional_from_decreases(s: Seq<char>, i: int, acc: Seq<Seq<char>>) {
    lemma_token_end(s, i, false);
}

/// Positional attributes at `i`.
pub open spec fn positional(s: Seq<char>, i: int) -> Step<AttributesV> {
    if 0 <= i < s.len() && s[i] == '[' {
        match positional_from(s, i + 1, Seq::empty()) {
            Ok((ts, k)) => Ok((AttributesV::Positional(ts), k)),
            Err(p) => Err(p),
        }
    } else {
        Err(i)
    }
}

/// An attribute list: named if that form matches, else positional.
pub open spec fn attribute_list(s: Seq<char>, i: int) -> Step<AttributesV> {
    alt(named(s, i), positional(s, i))
}

pub proof fn lemma_token_end(s: Seq<char>, i: int, named: bool)
    ensures
        i <= token_end(s, i, named),
        i <= s.len() ==> token_end(s, i, named) <= s.len(),
    decreases s.len() - i,
{
    if 0 <= i < s.len() && is_token_char(s[i], named) {
        lemma_token_end(s, i + 1, named);
    }
}

pub proof fn lemma_pair(s: Seq<char>, i: int)
    ensures
        pair(s, i) matches Ok((_, k)) ==> i < k && (i <= s.len() ==> k <= s.len()),
        pair(s, i) matches Err(p) ==> i <= p && (i <= s.len() ==> p <= s.len()),
{
    lemma_token_end(s, i, true);
    lemma_token_end(s, token_end(s, i, true) + 1, true);
}

fn token_char(c: char, named: bool) -> (r: bool)
    ensures
        r == is_token_char(c, named),
{
    c != ']' && c != ',' && c != '\n' && (!named || c != '=')
}

fn token_end_at(s: &Vec<char>, i: usize, named: bool) -> (e: usize)
    requires
        i <= s@.len(),
    ensures
        e == token_end(s@, i as int, named),
        i <= e <= s@.len(),
{
    proof {
        lemma_token_end(s@, i as int, named);
    }
    let mut k: usize = i;
    while k < s.len() && token_char(s[k], named)
        invariant
            i <= k <= s@.len(),
            token_end(s@, k as int, named) == token_end(s@, i as int, named),
        decreases s@.len() - k,
    {
        k = k + 1;
    }
    k
}

/// Adds the pair `(key, value)` to `acc`, as `with_pair` says.
fn add_pair(acc: &mut Vec<(String, String)>, key: String, value: String)
    requires
        keys_distinct(pairs_view(old(acc)@)),
    ensures
        pairs_view(final(acc)@) == with_pair(pairs_view(old(acc)@), (key@, value@)),
        keys_distinct(pairs_view(final(acc)@)),
{
    let ghost a = pairs_view(acc@);
    let mut j: usize = 0;
    while j < acc.len()
        invariant
            a == pairs_view(acc@),
            a == pairs_view(old(acc)@),
            keys_distinct(a),
            j <= acc@.len(),
            forall|m: int| 0 <= m < j ==> a[m].0 != key@,
        decreases acc@.len() - j,
    {
        if acc[j].0 == key {
            proof {
                assert(a[j as int].0 == key@);
                let c = choose|c: int| 0 <= c < a.len() && a[c].0 == key@;
                assert(c == j as int);
            }
            acc[j] = (key, value);
            proof {
                assert(pairs_view(acc@) =~= a.update(j as int, (key@, value@)));
            }
            return ;
        }
        assert(a[j as int].0 != key@);
        j = j + 1;
    }
    acc.push((key, value));
    proof {
        assert(!has_key(a, key@));
        assert(pairs_view(acc@) =~= a.push((key@, value@)));
    }
}

/// Named attributes: `[`, pairs `key=value` separated by a comma and optional
/// whitespace, `]`. A later pair with a key already seen replaces its value.
pub fn named_at(s: &Vec<char>, i: usize) -> (r: Result<(Attributes, usize), usize>)
    requires
        i <= s@.len(),
    ensures
        step_view(r) == named(s@, i as int),
        within(r, i, s@.len()),
{
    if !(i < s.len() && s[i] == '[') {
        return Err(i);
    }
    let mut acc: Vec<(String, String)> = Vec::new();
    let mut k: usize = i + 1;
    assert(pairs_view(acc@) =~= Seq::empty());
    loop
        invariant
            i < k <= s@.len(),
            s@[i as int] == '[',
            keys_distinct(pairs_view(acc@)),
            named_from(s@, i + 1, Seq::empty()) == named_from(s@, k as int, pairs_view(acc@)),
        decreases s@.len() - k,
    {
        let e = token_end_at(s, k, true);
        if !(e < s.len() && s[e] == '=') {
            return Err(e);
        }
        let v = token_end_at(s, e + 1, true);
        let key = string_of(s, k, e);
        let value = string_of(s, e + 1, v);
        add_pair(&mut acc, key, value);
        if v < s.len() && s[v] == ',' {
            let next = white_end_at(s, v + 1);
            proof {
                lemma_white_end(s@, v + 1);
            }
            k = next;
        } else if v < s.len() && s[v] == ']' {
            return Ok((Attributes::Named(acc), v + 1));
        } else {
            return Err(v);
        }
    }
}

/// Positional attributes: `[`, non-empty tokens separated by commas, `]`.
pub fn positional_at(s: &Vec<char>, i: usize) -> (r: Result<(Attributes, usize), usize>)
    requires
        i <= s@.len(),
    ensures
        step_view(r) == positional(s@, i as int),
        within(r, i, s@.len()),
{
    if !(i < s.len() && s[i] == '[') {
        return Err(i);
    }
    let mut acc: Vec<String> = Vec::new();
    let mut k: usize = i + 1;
    assert(strs_view(acc@) =~= Seq::empty());
    loop
        invariant
            i < k <= s@.len(),
            s@[i as int] == '[',
            positional_from(s@, i + 1, Seq::empty()) == positional_from(
                s@,
                k as int,
                strs_view(acc@),
            ),
        decreases s@.len() - k,
    {
        let e = token_end_at(s, k, false);
        if e == k {
            return Err(k);
        }
        let t = string_of(s, k, e);
        let ghost before = strs_view(acc@);
        acc.push(t);
        assert(strs_view(acc@) =~= before.push(s@.subrange(k as int, e as int)));
        if e < s.len() && s[e] == ',' {
            k = e + 1;
        } else if e < s.len() && s[e] == ']' {
            return Ok((Attributes::Positional(acc), e + 1));
        } else {
            return Err(e);
        }
    }
}

/// An attribute list: named if that form matches, else positional.
pub fn attribute_list_at(s: &Vec<char>, i: usize) -> (r: Result<(Attributes, usize), usize>)
    requires
        i <= s@.len(),
    ensures
        step_view(r) == attribute_list(s@, i as int),
        within(r, i, s@.len()),
{
    let p = match named_at(s, i) {
        Ok(x) => return Ok(x),
        Err(p) => p,
    };
    match positional_at(s, i) {
        Ok(x) => Ok(x),
        Err(q) => Err(farther(p, q)),
    }
}

} // verus!
