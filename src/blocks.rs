//! Blocks: headings, horizontal rules, lists, paragraphs and blank separators.
use vstd::prelude::*;
use crate::ast::{inlines_view, items_view, Block, HeadingLevel, Inline, InlineV, ListItem};
use crate::chars::{literal_at, run_end_at, string_of, white_end_at};
use crate::grammar::{
    blank, block, check_item, element_run, heading, heading_level, horizontal_rule,
    item_content, item_run, lemma_element_run, lemma_item_run, lemma_list_element_run,
    lemma_list_item_advances, list, list_element_run, list_item, marker_end, normal_item,
    ordered_list, paragraph, rule, skip_newline, two_newlines, unordered_list,
};
use crate::inlines::{element_at, farther, list_element_at, step_view, within};

verus! {

/// Appends to `v` the elements that follow one another from `i`; returns the
/// position after the last.
fn element_run_at(s: &Vec<char>, i: usize, v: &mut Vec<Inline>) -> (e: usize)
    requires
        i <= s@.len(),
    ensures
        inlines_view(final(v)@) == inlines_view(old(v)@) + element_run(s@, i as int).0,
        e as int == element_run(s@, i as int).1,
        i <= e <= s@.len(),
{
    proof {
        lemma_element_run(s@, i as int);
    }
    let ghost v0 = inlines_view(v@);
    let mut k: usize = i;
    loop
        invariant
            i <= k <= s@.len(),
            v0 + element_run(s@, i as int).0 == inlines_view(v@) + element_run(s@, k as int).0,
            element_run(s@, i as int).1 == element_run(s@, k as int).1,
        ensures
            v0 + element_run(s@, i as int).0 == inlines_view(v@),
            element_run(s@, i as int).1 == k,
        decreases s@.len() - k,
    {
        match element_at(s, k) {
            Ok((x, e)) => {
                proof {
                    let rest = element_run(s@, e as int).0;
                    assert(inlines_view(v@.push(x)) =~= inlines_view(v@).push(x@));
                    assert(inlines_view(v@) + (seq![x@] + rest) =~= inlines_view(v@).push(x@)
                        + rest);
                }
                v.push(x);
                k = e;
            },
            Err(_) => {
                assert(inlines_view(v@) + Seq::<InlineV>::empty() =~= inlines_view(v@));
                break ;
            },
        }
    }
    k
}

/// Appends to `v` the list-item elements that follow one another from `i`;
/// returns the position after the last.
fn list_element_run_at(s: &Vec<char>, i: usize, v: &mut Vec<Inline>) -> (e: usize)
    requires
        i <= s@.len(),
    ensures
        inlines_view(final(v)@) == inlines_view(old(v)@) + list_element_run(s@, i as int).0,
        e as int == list_element_run(s@, i as int).1,
        i <= e <= s@.len(),
{
    proof {
        lemma_list_element_run(s@, i as int);
    }
    let ghost v0 = inlines_view(v@);
    let mut k: usize = i;
    loop
        invariant
            i <= k <= s@.len(),
            v0 + list_element_run(s@, i as int).0 == inlines_view(v@) + list_element_run(
                s@,
                k as int,
            ).0,
            list_element_run(s@, i as int).1 == list_element_run(s@, k as int).1,
        ensures
            v0 + list_element_run(s@, i as int).0 == inlines_view(v@),
            list_element_run(s@, i as int).1 == k,
        decreases s@.len() - k,
    {
        match list_element_at(s, k) {
            Ok((x, e)) => {
                proof {
                    let rest = list_element_run(s@, e as int).0;
                    assert(inlines_view(v@.push(x)) =~= inlines_view(v@).push(x@));
                    assert(inlines_view(v@) + (seq![x@] + rest) =~= inlines_view(v@).push(x@)
                        + rest);
                }
                v.push(x);
                k = e;
            },
            Err(_) => {
                assert(inlines_view(v@) + Seq::<InlineV>::empty() =~= inlines_view(v@));
                break ;
            },
        }
    }
    k
}

/// One or more elements.
pub fn paragraph_at(s: &Vec<char>, i: usize) -> (r: Result<(Block, usize), usize>)
    requires
        i <= s@.len(),
    ensures
        step_view(r) == paragraph(s@, i as int),
        within(r, i, s@.len()),
{
    match element_at(s, i) {
        Ok((x, k)) => {
            let mut children = vec![x];
            assert(inlines_view(children@) =~= seq![x@]);
            let e = element_run_at(s, k, &mut children);
            Ok((Block::Paragraph { children }, e))
        },
        Err(p) => Err(p),
    }
}

fn heading_level_of(l: usize) -> (r: HeadingLevel)
    requires
        1 <= l <= 5,
    ensures
        r == heading_level(l as int),
{
    if l == 1 {
        HeadingLevel::Title
    } else if l == 2 {
        HeadingLevel::Level1
    } else if l == 3 {
        HeadingLevel::Level2
    } else if l == 4 {
        HeadingLevel::Level3
    } else {
        HeadingLevel::Level4
    }
}

/// A heading, or a paragraph where the `=` run is longer than five.
pub fn heading_at(s: &Vec<char>, i: usize) -> (r: Result<(Block, usize), usize>)
    requires
        i <= s@.len(),
    ensures
        step_view(r) == heading(s@, i as int),
        within(r, i, s@.len()),
{
    let e = run_end_at(s, i, '=');
    let t = run_end_at(s, e, ' ');
    if e == i {
        Err(i)
    } else if t == e {
        Err(e)
    } else {
        match element_at(s, t) {
            Ok((c, k)) => {
                if e - i > 5 {
                    let markers = Inline::Text(string_of(s, i, t));
                    let children = vec![markers, c];
                    assert(inlines_view(children@) =~= seq![
                        InlineV::Text(s@.subrange(i as int, t as int)),
                        children@[1]@,
                    ]);
                    Ok((Block::Paragraph { children }, k))
                } else {
                    let children = vec![c];
                    assert(inlines_view(children@) =~= seq![children@[0]@]);
                    Ok((Block::Heading { level: heading_level_of(e - i), children, id: None }, k))
                }
            },
            Err(p) => Err(p),
        }
    }
}

/// The token `<<<`.
pub fn horizontal_rule_at(s: &Vec<char>, i: usize) -> (r: Result<(Block, usize), usize>)
    requires
        i <= s@.len(),
    ensures
        step_view(r) == horizontal_rule(s@, i as int),
        within(r, i, s@.len()),
{
    let lit: &[char] = &['<', '<', '<'];
    assert(lit@ == rule());
    match literal_at(s, i, lit) {
        Ok(k) => Ok((Block::HorizontalRule, k)),
        Err(p) => Err(p),
    }
}

/// Exactly two newlines.
pub fn blank_at(s: &Vec<char>, i: usize) -> (r: Result<(Block, usize), usize>)
    requires
        i <= s@.len(),
    ensures
        step_view(r) == blank(s@, i as int),
        within(r, i, s@.len()),
{
    let lit: &[char] = &['\n', '\n'];
    assert(lit@ == two_newlines());
    match literal_at(s, i, lit) {
        Ok(k) => Ok((Block::BlankSeparator, k)),
        Err(p) => Err(p),
    }
}

/// The content of a list item.
fn item_content_at(s: &Vec<char>, i: usize) -> (r: Result<(Vec<Inline>, usize), usize>)
    requires
        i <= s@.len(),
    ensures
        item_content(s@, i as int) == match r {
            Ok((v, k)) => Ok((inlines_view(v@), k as int)),
            Err(p) => Err(p as int),
        },
        within(r, i, s@.len()),
{
    match list_element_at(s, i) {
        Ok((x, k)) => {
            let mut children = vec![x];
            assert(inlines_view(children@) =~= seq![x@]);
            let e = list_element_run_at(s, k, &mut children);
            Ok((children, e))
        },
        Err(p) => Err(p),
    }
}

fn marker_end_at(s: &Vec<char>, i: usize, m: char) -> (r: Result<usize, usize>)
    requires
        i <= s@.len(),
    ensures
        marker_end(s@, i as int, m) == match r {
            Ok(e) => Ok::<int, int>(e as int),
            Err(p) => Err(p as int),
        },
        r matches Ok(e) ==> i < e <= s@.len() && e - i <= u32::MAX,
        r matches Err(p) ==> p == i,
{
    let e = run_end_at(s, i, m);
    if e == i || e - i > u32::MAX as usize {
        Err(i)
    } else {
        Ok(e)
    }
}

/// A list item with a check box.
fn check_item_at(s: &Vec<char>, i: usize, m: char) -> (r: Result<(ListItem, usize), usize>)
    requires
        i <= s@.len(),
    ensures
        step_view(r) == check_item(s@, i as int, m),
        within(r, i, s@.len()),
{
    match marker_end_at(s, i, m) {
        Ok(e) => {
            let w = white_end_at(s, e);
            if !(w < s.len() && s[w] == '[') {
                Err(w)
            } else if !(s.len() - w > 1 && (s[w + 1] == ' ' || s[w + 1] == 'x' || s[w + 1]
                == '*')) {
                Err(w + 1)
            } else if !(s.len() - w > 2 && s[w + 2] == ']') {
                Err(w + 2)
            } else {
                let checked = s[w + 1] != ' ';
                let c = white_end_at(s, w + 3);
                match item_content_at(s, c) {
                    Ok((children, k)) => Ok(
                        (ListItem::Check { children, level: (e - i) as u32, checked }, k),
                    ),
                    Err(p) => Err(p),
                }
            }
        },
        Err(p) => Err(p),
    }
}

/// A list item without a check box.
fn normal_item_at(s: &Vec<char>, i: usize, m: char) -> (r: Result<(ListItem, usize), usize>)
    requires
        i <= s@.len(),
    ensures
        step_view(r) == normal_item(s@, i as int, m),
        within(r, i, s@.len()),
{
    match marker_end_at(s, i, m) {
        Ok(e) => {
            let c = white_end_at(s, e);
            match item_content_at(s, c) {
                Ok((children, k)) => Ok((ListItem::Normal { children, level: (e - i) as u32 }, k)),
                Err(p) => Err(p),
            }
        },
        Err(p) => Err(p),
    }
}

/// A list item with marker `m`.
pub fn list_item_at(s: &Vec<char>, i: usize, m: char) -> (r: Result<(ListItem, usize), usize>)
    requires
        i <= s@.len(),
    ensures
        step_view(r) == list_item(s@, i as int, m),
        within(r, i, s@.len()),
{
    proof {
        lemma_list_item_advances(s@, i as int, m);
    }
    let p = match check_item_at(s, i, m) {
        Ok(x) => return Ok(x),
        Err(p) => p,
    };
    match normal_item_at(s, i, m) {
        Ok(x) => Ok(x),
        Err(q) => Err(farther(p, q)),
    }
}

/// One or more list items with marker `m`, each followed by at most one newline.
pub fn list_at(s: &Vec<char>, i: usize, m: char) -> (r: Result<(Vec<ListItem>, usize), usize>)
    requires
        i <= s@.len(),
    ensures
        list(s@, i as int, m) == match r {
            Ok((v, k)) => Ok((items_view(v@), k as int)),
            Err(p) => Err(p as int),
        },
        within(r, i, s@.len()),
{
    let (first, e) = match list_item_at(s, i, m) {
        Ok(x) => x,
        Err(p) => return Err(p),
    };
    proof {
        lemma_item_run(s@, i as int, m);
    }
    let mut v: Vec<ListItem> = vec![first];
    assert(items_view(v@) =~= seq![first@]);
    let mut k: usize = if e < s.len() && s[e] == '\n' {
        e + 1
    } else {
        e
    };
    loop
        invariant
            i < k <= s@.len(),
            item_run(s@, i as int, m).0 == items_view(v@) + item_run(s@, k as int, m).0,
            item_run(s@, i as int, m).1 == item_run(s@, k as int, m).1,
        ensures
            item_run(s@, i as int, m).0 == items_view(v@),
            item_run(s@, i as int, m).1 == k,
        decreases s@.len() - k,
    {
        match list_item_at(s, k, m) {
            Ok((x, e)) => {
                let next = if e < s.len() && s[e] == '\n' {
                    e + 1
                } else {
                    e
                };
                assert(next as int == skip_newline(s@, e as int));
                proof {
                    let rest = item_run(s@, next as int, m).0;
                    assert(items_view(v@.push(x)) =~= items_view(v@).push(x@));
                    assert(items_view(v@) + (seq![x@] + rest) =~= items_view(v@).push(x@) + rest);
                }
                v.push(x);
                k = next;
            },
            Err(_) => {
                assert(items_view(v@) + Seq::empty() =~= items_view(v@));
                break ;
            },
        }
    }
    Ok((v, k))
}

/// One block at `i`.
pub fn block_at(s: &Vec<char>, i: usize) -> (r: Result<(Block, usize), usize>)
    requires
        i <= s@.len(),
    ensures
        step_view(r) == block(s@, i as int),
        within(r, i, s@.len()),
{
    let p = match heading_at(s, i) {
        Ok(x) => return Ok(x),
        Err(p) => p,
    };
    let p = match horizontal_rule_at(s, i) {
        Ok(x) => return Ok(x),
        Err(q) => farther(p, q),
    };
    let p = match list_at(s, i, '.') {
        Ok((items, k)) => return Ok((Block::OrderedList { items }, k)),
        Err(q) => farther(p, q),
    };
    assert(ordered_list(s@, i as int) is Err);
    let p = match list_at(s, i, '*') {
        Ok((items, k)) => return Ok((Block::UnorderedList { items }, k)),
        Err(q) => farther(p, q),
    };
    assert(unordered_list(s@, i as int) is Err);
    let p = match paragraph_at(s, i) {
        Ok(x) => return Ok(x),
        Err(q) => farther(p, q),
    };
    match blank_at(s, i) {
        Ok(x) => Ok(x),
        Err(q) => Err(farther(p, q)),
    }
}

} // verus!
