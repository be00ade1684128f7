//! Properties of the parser, proved over the grammar that its functions follow.
use vstd::prelude::*;
use crate::ast::{BlockV, InlineV};
use crate::grammar::{
    agree, block, blocks_from, document, element, element_run, heading, heading_level,
    hard_break_at, is_special, lead_end, lemma_blocks_total, lemma_text_end, rule, run_end,
    text_end, ticks, hard_break,
};

verus! {

/// No character of `t` ends a text run.
pub open spec fn is_plain(t: Seq<char>) -> bool {
    forall|j: int| 0 <= j < t.len() ==> !is_special(#[trigger] t[j])
}

/// `n` copies of `=`.
pub open spec fn equals_signs(n: nat) -> Seq<char> {
    Seq::new(n, |_j: int| '=')
}

proof fn lemma_run_end_at(s: Seq<char>, i: int, c: char, j: int)
    requires
        0 <= i <= j <= s.len(),
        forall|m: int| i <= m < j ==> s[m] == c,
        j == s.len() || s[j] != c,
    ensures
        run_end(s, i, c) == j,
    decreases j - i,
{
    if i < j {
        lemma_run_end_at(s, i + 1, c, j);
    }
}

proof fn lemma_text_end_plain(s: Seq<char>, i: int)
    requires
        0 <= i <= s.len(),
        forall|m: int| i <= m < s.len() ==> !is_special(#[trigger] s[m]),
    ensures
        text_end(s, i, true) == s.len(),
    decreases s.len() - i,
{
    if i < s.len() {
        if i + 2 < s.len() {
            assert(!is_special(s[i + 2]));
        }
        lemma_text_end_plain(s, i + 1);
    }
}

/// At the end of the input no element matches.
proof fn lemma_element_at_end(s: Seq<char>)
    ensures
        element(s, s.len() as int) is Err,
{
    let n = s.len() as int;
    assert(agree(s, n, ticks(), 0) == 0);
    assert(agree(s, n, hard_break(), 0) == 0);
}

/// Every input reads as a document: from any position short of the end some
/// block matches, so the blocks reach the end of the input.
pub proof fn every_input_parses(s: Seq<char>)
    ensures
        document(s) is Ok,
{
    lemma_lead_end(s, 0);
    lemma_blocks_total(s, lead_end(s, 0));
}

proof fn lemma_lead_end(s: Seq<char>, i: int)
    requires
        0 <= i,
    ensures
        i <= lead_end(s, i),
    decreases s.len() - i,
{
    if 0 <= i < s.len() && (s[i] == ' ' || s[i] == '\n') {
        lemma_lead_end(s, i + 1);
    }
}

/// Parsing is a function of the input: equal inputs give equal trees.
pub proof fn parse_is_deterministic(a: Seq<char>, b: Seq<char>)
    requires
        a == b,
    ensures
        document(a) == document(b),
{
}

/// `L` signs `=`, one space and a text `t` with no special character that does
/// not start with a space: for `L` from 1 to 5 a heading of level `L` holding
/// `t` as one text node; for more than 5 a paragraph of the markers with the
/// space, then `t`.
pub proof fn heading_by_marker_count(l: nat, t: Seq<char>)
    requires
        l >= 1,
        t.len() > 0,
        t[0] != ' ',
        is_plain(t),
    ensures
        l <= 5 ==> document(equals_signs(l) + seq![' '] + t) == Ok::<Seq<BlockV>, int>(
            seq![BlockV::Heading(heading_level(l as int), seq![InlineV::Text(t)], None)],
        ),
        l > 5 ==> document(equals_signs(l) + seq![' '] + t) == Ok::<Seq<BlockV>, int>(
            seq![
                BlockV::Paragraph(
                    seq![InlineV::Text(equals_signs(l) + seq![' ']), InlineV::Text(t)],
                ),
            ],
        ),
{
    let s = equals_signs(l) + seq![' '] + t;
    let n = s.len() as int;
    let li = l as int;
    assert(s[0] == '=');
    assert(lead_end(s, 0) == 0);
    assert forall|m: int| 0 <= m < li implies s[m] == '=' by {}
    assert(s[li] == ' ');
    lemma_run_end_at(s, 0, '=', li);
    assert(s[li + 1] == t[0]);
    lemma_run_end_at(s, li, ' ', li + 1);
    assert forall|m: int| li + 1 <= m < n implies !is_special(#[trigger] s[m]) by {
        assert(s[m] == t[m - li - 1]);
    }
    lemma_text_end_plain(s, li + 1);
    assert(s.subrange(li + 1, n) =~= t);
    assert(s.subrange(0, li + 1) =~= equals_signs(l) + seq![' ']);
    assert(element(s, li + 1) == Ok::<(InlineV, int), int>((InlineV::Text(t), n)));
    let b = heading(s, 0)->Ok_0.0;
    assert(block(s, 0) == Ok::<(BlockV, int), int>((b, n)));
    assert(blocks_from(s, n) == Ok::<Seq<BlockV>, int>(Seq::empty()));
    assert(seq![b] + Seq::<BlockV>::empty() =~= seq![b]);
}

/// A text with no special character that starts with none of space, `=`,
/// `.` and `<` reads as one paragraph holding the whole text, every
/// character kept, as a single text node.
pub proof fn plain_text_is_one_text_node(t: Seq<char>)
    requires
        t.len() > 0,
        is_plain(t),
        t[0] != ' ' && t[0] != '=' && t[0] != '.' && t[0] != '<',
    ensures
        document(t) == Ok::<Seq<BlockV>, int>(seq![BlockV::Paragraph(seq![InlineV::Text(t)])]),
{
    let n = t.len() as int;
    assert(!is_special(t[0]));
    assert(lead_end(t, 0) == 0);
    lemma_text_end_plain(t, 0);
    assert(t.subrange(0, n) =~= t);
    lemma_element_at_end(t);
    assert(element_run(t, n) == (Seq::<InlineV>::empty(), n));
    assert(seq![InlineV::Text(t)] + Seq::<InlineV>::empty() =~= seq![InlineV::Text(t)]);
    assert(element_run(t, 0) == (seq![InlineV::Text(t)], n));
    assert(agree(t, 0, rule(), 0) == 0);
    assert(block(t, 0) == Ok::<(BlockV, int), int>(
        (BlockV::Paragraph(seq![InlineV::Text(t)]), n),
    ));
    assert(blocks_from(t, n) == Ok::<Seq<BlockV>, int>(Seq::empty()));
    assert(seq![BlockV::Paragraph(seq![InlineV::Text(t)])] + Seq::<BlockV>::empty()
        =~= seq![BlockV::Paragraph(seq![InlineV::Text(t)])]);
}

/// Where an element starts with an ordinary character, it is one text node
/// holding exactly the characters up to the next special character, hard
/// break or end of input: none is dropped, changed or split off.
pub proof fn text_run_is_maximal(s: Seq<char>, i: int)
    requires
        0 <= i < s.len(),
        !is_special(s[i]),
        !hard_break_at(s, i),
    ensures
        ({
            let e = text_end(s, i, true);
            &&& i < e <= s.len()
            &&& element(s, i) == Ok::<(InlineV, int), int>((InlineV::Text(s.subrange(i, e)), e))
            &&& forall|j: int| i <= j < e ==> !is_special(#[trigger] s[j])
            &&& (e == s.len() || is_special(s[e]) || hard_break_at(s, e))
        }),
{
    lemma_text_end(s, i, true);
    lemma_text_end_stops(s, i);
}

proof fn lemma_text_end_stops(s: Seq<char>, i: int)
    requires
        0 <= i <= s.len(),
    ensures
        ({
            let e = text_end(s, i, true);
            e == s.len() || is_special(s[e]) || hard_break_at(s, e)
        }),
    decreases s.len() - i,
{
    if !(i >= s.len() || is_special(s[i]) || hard_break_at(s, i)) {
        lemma_text_end_stops(s, i + 1);
    }
}

} // verus!
