//! Text preparation: turning free text into digraph-ready letters, and
//! checking encoded text before it is decoded.
use vstd::prelude::*;

use crate::error::PlayfairError;

verus! {

/// What `str::to_uppercase` makes of a text.
pub uninterp spec fn upper_of(s: Seq<char>) -> Seq<char>;

/// Relies on `str::to_uppercase`: the upper-case form of a text, which
/// depends on its characters alone.
#[verifier::external_body]
fn to_upper(s: &str) -> (r: String)
    ensures
        r@ == upper_of(s@),
{
    s.to_uppercase()
}

/// Every 'J' replaced by 'I'.
pub open spec fn unify_j(s: Seq<char>) -> Seq<char> {
    s.map_values(|c: char| if c == 'J' { 'I' } else { c })
}

/// The left-to-right pairing pass: where the two letters of a pair are equal,
/// an 'X' goes between them and the second letter starts the next pair.
pub open spec fn split_doubles(s: Seq<char>) -> Seq<char>
    decreases s.len(),
{
    if s.len() < 2 {
        s
    } else if s[0] == s[1] {
        seq![s[0], 'X'] + split_doubles(s.drop_first())
    } else {
        seq![s[0], s[1]] + split_doubles(s.subrange(2, s.len() as int))
    }
}

/// A trailing 'Z' when the length is odd.
pub open spec fn pad_even(s: Seq<char>) -> Seq<char> {
    if s.len() % 2 == 1 {
        s.push('Z')
    } else {
        s
    }
}

/// The digraph-ready letters of a text that is already upper case.
pub open spec fn prepared(upper: Seq<char>) -> Seq<char> {
    pad_even(split_doubles(unify_j(upper)))
}

/// The letters of `text`, upper-cased and prepared for encoding.
pub fn prepare(text: &str) -> (r: Vec<char>)
    ensures
        r@ == prepared(upper_of(text@)),
{
    let upper = to_upper(text);
    prepare_uppercase(upper.as_str())
}

/// The digraph-ready letters of a text that is already upper case:
/// 'J' becomes 'I', doubled pairs are split by 'X', odd length gets a 'Z'.
pub fn prepare_uppercase(upper: &str) -> (r: Vec<char>)
    ensures
        r@ == prepared(upper@),
{
    let mut chars: Vec<char> = Vec::new();
    for c in it: upper.chars()
        invariant
            it.seq() == upper@,
            chars@ == unify_j(upper@.take(it.index() as int)),
    {
        proof {
            assert(upper@.take(it.index() + 1) =~= upper@.take(it.index() as int).push(c));
        }
        if c == 'J' {
            chars.push('I');
        } else {
            chars.push(c);
        }
        assert(chars@ =~= unify_j(upper@.take(it.index() + 1)));
    }
    assert(upper@.take(upper@.len() as int) =~= upper@);
    let ghost unified = chars@;
    let mut i: usize = 0;
    assert(chars@.subrange(0, chars@.len() as int) =~= unified);
    assert(chars@.subrange(0, 0) + split_doubles(unified) =~= split_doubles(unified));
    while chars.len() - i > 1
        invariant
            i <= chars.len(),
            split_doubles(unified) == chars@.subrange(0, i as int) + split_doubles(
                chars@.subrange(i as int, chars@.len() as int),
            ),
        decreases chars.len() - i,
    {
        let ghost before = chars@;
        let ghost rest = before.subrange(i as int, before.len() as int);
        if chars[i] == chars[i + 1] {
            chars.insert(i + 1, 'X');
            assert(rest.drop_first() =~= chars@.subrange(i + 2, chars@.len() as int));
            assert(chars@.subrange(0, i + 2) =~= before.subrange(0, i as int) + seq![
                before[i as int],
                'X',
            ]);
        } else {
            assert(rest.subrange(2, rest.len() as int) =~= chars@.subrange(
                i + 2,
                chars@.len() as int,
            ));
            assert(chars@.subrange(0, i + 2) =~= before.subrange(0, i as int) + seq![
                before[i as int],
                before[i + 1],
            ]);
        }
        i = i + 2;
    }
    assert(chars@ =~= split_doubles(unified));
    if chars.len() % 2 != 0 {
        chars.push('Z');
    }
    chars
}

/// Checks encoded text and returns its upper-case letters: odd length is
/// refused first, then any 'J'.
pub fn prepare_decode(encoded: &str) -> (r: Result<Vec<char>, PlayfairError>)
    ensures
        encoded@.len() % 2 == 1 ==> r == Err::<Vec<char>, PlayfairError>(
            PlayfairError::OddLength,
        ),
        encoded@.len() % 2 == 0 && encoded@.contains('J') ==> r == Err::<
            Vec<char>,
            PlayfairError,
        >(PlayfairError::ForbiddenCharacter),
        encoded@.len() % 2 == 0 && !encoded@.contains('J') ==> (r matches Ok(v) && v@
            == upper_of(encoded@)),
{
    let n = encoded.unicode_len();
    if n % 2 != 0 {
        return Err(PlayfairError::OddLength);
    }
    for c in it: encoded.chars()
        invariant
            it.seq() == encoded@,
            encoded@.len() % 2 == 0,
            forall|j: int| 0 <= j < it.index() ==> encoded@[j] != 'J',
    {
        if c == 'J' {
            return Err(PlayfairError::ForbiddenCharacter);
        }
    }
    let upper = to_upper(encoded);
    let mut letters: Vec<char> = Vec::new();
    for c in it: upper.as_str().chars()
        invariant
            it.seq() == upper@,
            letters@ == upper@.take(it.index() as int),
    {
        letters.push(c);
        assert(letters@ =~= upper@.take(it.index() + 1));
    }
    assert(letters@ =~= upper@);
    Ok(letters)
}

} // verus!
