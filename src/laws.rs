//! Properties that hold across the preparation and transform functions.
use vstd::prelude::*;

use crate::grid::Playfair;
use crate::text::{pad_even, prepared, split_doubles, unify_j};

verus! {

/// Every pair `(s[2k], s[2k + 1])` of `s` holds two different letters.
pub open spec fn pairs_distinct(s: Seq<char>) -> bool {
    forall|k: int| 0 <= k && 2 * k + 1 < s.len() ==> #[trigger] s[2 * k] != s[2 * k + 1]
}

proof fn lemma_split_keeps_distinct_pairs(s: Seq<char>)
    requires
        pairs_distinct(s),
    ensures
        split_doubles(s) == s,
    decreases s.len(),
{
    if s.len() >= 2 {
        assert(s[2 * 0int] != s[2 * 0int + 1]);
        let rest = s.subrange(2, s.len() as int);
        assert forall|k: int| 0 <= k && 2 * k + 1 < rest.len() implies #[trigger] rest[2 * k]
            != rest[2 * k + 1] by {
            assert(s[2 * (k + 1)] != s[2 * (k + 1) + 1]);
        }
        lemma_split_keeps_distinct_pairs(rest);
        assert(seq![s[0], s[1]] + rest =~= s);
    }
}

proof fn lemma_unify_without_j(s: Seq<char>)
    requires
        !s.contains('J'),
    ensures
        unify_j(s) == s,
{
    assert forall|i: int| 0 <= i < s.len() implies unify_j(s)[i] == s[i] by {
        if s[i] == 'J' {
            assert(s.contains('J'));
        }
    }
    assert(unify_j(s) =~= s);
}

/// Preparing upper-case text without 'J', of even length, whose pairs each
/// hold two different letters, gives the text back unchanged.
pub proof fn lemma_prepare_keeps_ready_text(s: Seq<char>)
    requires
        !s.contains('J'),
        s.len() % 2 == 0,
        pairs_distinct(s),
    ensures
        prepared(s) == s,
{
    lemma_unify_without_j(s);
    lemma_split_keeps_distinct_pairs(s);
}

/// Preparing upper-case text without 'J', of odd length, whose pairs each
/// hold two different letters, only appends a 'Z'.
pub proof fn lemma_prepare_pads_odd_text(s: Seq<char>)
    requires
        !s.contains('J'),
        s.len() % 2 == 1,
        pairs_distinct(s),
    ensures
        prepared(s) == s.push('Z'),
{
    lemma_unify_without_j(s);
    lemma_split_keeps_distinct_pairs(s);
}

/// Prepared text always has an even number of letters.
pub proof fn lemma_prepared_even(upper: Seq<char>)
    ensures
        prepared(upper).len() % 2 == 0,
{
}

/// Every pair of `s` holds two different letters, or two filler 'X'.
pub open spec fn pairs_distinct_or_filler(s: Seq<char>) -> bool {
    forall|k: int|
        0 <= k && 2 * k + 1 < s.len() ==> #[trigger] s[2 * k] != s[2 * k + 1] || s[2 * k] == 'X'
}

proof fn lemma_split_pairs(s: Seq<char>)
    ensures
        pairs_distinct_or_filler(split_doubles(s)),
    decreases s.len(),
{
    if s.len() >= 2 {
        let (head, rest) = if s[0] == s[1] {
            (seq![s[0], 'X'], s.drop_first())
        } else {
            (seq![s[0], s[1]], s.subrange(2, s.len() as int))
        };
        lemma_split_pairs(rest);
        let t = split_doubles(rest);
        let out = split_doubles(s);
        assert(out == head + t);
        assert forall|k: int| 0 <= k && 2 * k + 1 < out.len() implies #[trigger] out[2 * k]
            != out[2 * k + 1] || out[2 * k] == 'X' by {
            if k > 0 {
                assert(out[2 * k] == t[2 * (k - 1)]);
                assert(out[2 * k + 1] == t[2 * (k - 1) + 1]);
            }
        }
    }
}

/// In prepared text a letter equals its pair partner only where both are the
/// filler 'X', or in the last pair, where the padding 'Z' follows a 'Z'.
pub proof fn lemma_prepared_pairs(upper: Seq<char>)
    ensures
        forall|k: int|
            0 <= k && 2 * k + 1 < prepared(upper).len() ==> #[trigger] prepared(upper)[2 * k]
                != prepared(upper)[2 * k + 1] || prepared(upper)[2 * k] == 'X' || (2 * k + 2
                == prepared(upper).len() && prepared(upper)[2 * k] == 'Z'),
{
    let t = split_doubles(unify_j(upper));
    lemma_split_pairs(unify_j(upper));
    let p = prepared(upper);
    assert forall|k: int| 0 <= k && 2 * k + 1 < p.len() implies #[trigger] p[2 * k] != p[2 * k
        + 1] || p[2 * k] == 'X' || (2 * k + 2 == p.len() && p[2 * k] == 'Z') by {
        if 2 * k + 1 < t.len() {
            assert(p[2 * k] == t[2 * k] && p[2 * k + 1] == t[2 * k + 1]);
        }
    }
}

proof fn lemma_step_back(x: int)
    requires
        0 <= x < 5,
    ensures
        x % 5 == x,
        0 <= (x + 1) % 5 < 5,
        ((x + 1) % 5 - 1) % 5 == x,
{
}

/// With a grid of distinct letters, decoding the encoding of a pair of grid
/// letters gives the pair back.
pub proof fn lemma_pair_round_trip(g: Playfair, a: char, b: char)
    requires
        g.distinct(),
        g.contains(a),
        g.contains(b),
    ensures
        (g.encoded_pair(a, b) matches Some((x, y)) && g.decoded_pair(x, y) == Some((a, b))),
{
    g.lemma_position_cell(a);
    g.lemma_position_cell(b);
    let (r0, c0) = g.position(a)->0;
    let (r1, c1) = g.position(b)->0;
    lemma_step_back(r0);
    lemma_step_back(r1);
    lemma_step_back(c0);
    lemma_step_back(c1);
    if r0 == r1 {
        let r = (r0 + 1) % 5;
        g.lemma_cell_position(r, c0);
        g.lemma_cell_position(r, c1);
    } else if c0 == c1 {
        let c = (c0 + 1) % 5;
        g.lemma_cell_position(r0, c);
        g.lemma_cell_position(r1, c);
    } else {
        g.lemma_cell_position(r0, c1);
        g.lemma_cell_position(r1, c0);
    }
}

proof fn lemma_digraphs_prefix(g: Playfair, s1: Seq<char>, s2: Seq<char>, k: nat, decoding: bool)
    requires
        2 * k <= s1.len(),
        2 * k <= s2.len(),
        forall|i: int| 0 <= i < 2 * k ==> s1[i] == s2[i],
    ensures
        g.digraphs(s1, k, decoding) == g.digraphs(s2, k, decoding),
    decreases k,
{
    if k > 0 {
        lemma_digraphs_prefix(g, s1, s2, (k - 1) as nat, decoding);
        assert(s1[2 * k - 2] == s2[2 * k - 2]);
        assert(s1[2 * k - 1] == s2[2 * k - 1]);
    }
}

proof fn lemma_round_trip_pairs(g: Playfair, s: Seq<char>, k: nat)
    requires
        g.distinct(),
        2 * k <= s.len(),
        forall|i: int| 0 <= i < s.len() ==> g.contains(#[trigger] s[i]),
    ensures
        (g.digraphs(s, k, false) matches Some(e) && e.len() == 2 * k && g.digraphs(e, k, true)
            == Some(s.take(2 * k as int))),
    decreases k,
{
    if k == 0 {
        assert(s.take(0) =~= Seq::<char>::empty());
    } else {
        let j = (k - 1) as nat;
        lemma_round_trip_pairs(g, s, j);
        let prev = g.digraphs(s, j, false)->0;
        let a = s[2 * k - 2];
        let b = s[2 * k - 1];
        lemma_pair_round_trip(g, a, b);
        let (x, y) = g.encoded_pair(a, b)->0;
        let e = prev.push(x).push(y);
        assert(g.digraphs(s, k, false) == Some(e));
        lemma_digraphs_prefix(g, e, prev, j, true);
        assert(e[2 * k - 2] == x && e[2 * k - 1] == y);
        assert(s.take(2 * j as int).push(a).push(b) =~= s.take(2 * k as int));
    }
}

/// With a grid of distinct letters, decoding the encoding of an even-length
/// run of grid letters gives it back.
pub proof fn lemma_letters_round_trip(g: Playfair, s: Seq<char>)
    requires
        g.distinct(),
        s.len() % 2 == 0,
        forall|i: int| 0 <= i < s.len() ==> g.contains(#[trigger] s[i]),
    ensures
        (g.encoded(s) matches Some(e) && g.decoded(e) == Some(s)),
{
    lemma_round_trip_pairs(g, s, s.len() / 2);
    assert(s.take(s.len() as int) =~= s);
}

/// With a grid of distinct letters, decoding the encoding of prepared text
/// gives the prepared text back, whenever all its letters are in the grid.
pub proof fn lemma_round_trip(g: Playfair, upper: Seq<char>)
    requires
        g.distinct(),
        forall|i: int|
            0 <= i < prepared(upper).len() ==> g.contains(#[trigger] prepared(upper)[i]),
    ensures
        (g.encoded(prepared(upper)) matches Some(e) && g.decoded(e) == Some(prepared(upper))),
{
    lemma_letters_round_trip(g, prepared(upper));
}

/// In a grid of distinct letters, two letters of the last row encode to the
/// letters of the first row in their columns, which decode back to them.
pub proof fn lemma_wrap_last_row(g: Playfair, a: char, b: char)
    requires
        g.distinct(),
        g.position(a) matches Some((r, _)) && r == 4,
        g.position(b) matches Some((r, _)) && r == 4,
    ensures
        (g.position(a) matches Some((_, ca)) && g.position(b) matches Some((_, cb))
            && g.encoded_pair(a, b) == Some((g.letter_at(0, ca), g.letter_at(0, cb)))
            && g.decoded_pair(g.letter_at(0, ca), g.letter_at(0, cb)) == Some((a, b))),
{
    lemma_pair_round_trip(g, a, b);
}

/// In a grid of distinct letters, two letters of the last column, in different
/// rows, encode to the letters of the first column in their rows, which decode
/// back to them.
pub proof fn lemma_wrap_last_column(g: Playfair, a: char, b: char)
    requires
        g.distinct(),
        g.position(a) matches Some((_, c)) && c == 4,
        g.position(b) matches Some((_, c)) && c == 4,
        a != b,
    ensures
        (g.position(a) matches Some((ra, _)) && g.position(b) matches Some((rb, _))
            && g.encoded_pair(a, b) == Some((g.letter_at(ra, 0), g.letter_at(rb, 0)))
            && g.decoded_pair(g.letter_at(ra, 0), g.letter_at(rb, 0)) == Some((a, b))),
{
    lemma_pair_round_trip(g, a, b);
    g.lemma_position_cell(a);
    g.lemma_position_cell(b);
}

} // verus!
