//! The digraph transform: encoding and decoding letter pairs with the grid.
use vstd::prelude::*;

use crate::error::PlayfairError;
use crate::grid::Playfair;
use crate::text::{prepare, prepare_decode, prepared, upper_of};

verus! {

/// Relies on `String::push`: appends one character.
#[verifier::external_body]
fn push_char(s: &mut String, c: char)
    ensures
        final(s)@ == old(s)@.push(c),
{
    s.push(c);
}

impl Playfair {
    /// The encoding of the pair `(a, b)`: one row down (wrapped) when both share a
    /// row, one column right (wrapped) when both share a column, otherwise each
    /// letter keeps its row and takes the other's column. `None` when either
    /// letter is not in the grid.
    pub open spec fn encoded_pair(&self, a: char, b: char) -> Option<(char, char)> {
        match (self.position(a), self.position(b)) {
            (Some((r0, c0)), Some((r1, c1))) => Some(
                if r0 == r1 {
                    (self.letter_at(r0 + 1, c0), self.letter_at(r1 + 1, c1))
                } else if c0 == c1 {
                    (self.letter_at(r0, c0 + 1), self.letter_at(r1, c1 + 1))
                } else {
                    (self.letter_at(r0, c1), self.letter_at(r1, c0))
                },
            ),
            _ => None,
        }
    }

    /// The decoding of the pair `(a, b)`: the mirror of `encoded_pair`, one row
    /// up or one column left (wrapped), and the same rectangle rule.
    pub open spec fn decoded_pair(&self, a: char, b: char) -> Option<(char, char)> {
        match (self.position(a), self.position(b)) {
            (Some((r0, c0)), Some((r1, c1))) => Some(
                if r0 == r1 {
                    (self.letter_at(r0 - 1, c0), self.letter_at(r1 - 1, c1))
                } else if c0 == c1 {
                    (self.letter_at(r0, c0 - 1), self.letter_at(r1, c1 - 1))
                } else {
                    (self.letter_at(r0, c1), self.letter_at(r1, c0))
                },
            ),
            _ => None,
        }
    }

    /// One pair, encoded or decoded.
    pub open spec fn pair_image(&self, a: char, b: char, decoding: bool) -> Option<(char, char)> {
        if decoding {
            self.decoded_pair(a, b)
        } else {
            self.encoded_pair(a, b)
        }
    }

    /// The first `k` pairs of `s` transformed one after the other; `None` as
    /// soon as one of them has a letter outside the grid.
    pub open spec fn digraphs(&self, s: Seq<char>, k: nat, decoding: bool) -> Option<Seq<char>>
        decreases k,
    {
        if k == 0 {
            Some(Seq::empty())
        } else {
            match self.digraphs(s, (k - 1) as nat, decoding) {
                None => None,
                Some(t) => match self.pair_image(s[2 * k - 2], s[2 * k - 1], decoding) {
                    None => None,
                    Some((x, y)) => Some(t.push(x).push(y)),
                },
            }
        }
    }

    /// The encoding of the letters `s`, pair by pair; an odd last letter is dropped.
    pub open spec fn encoded(&self, s: Seq<char>) -> Option<Seq<char>> {
        self.digraphs(s, s.len() / 2, false)
    }

    /// The decoding of the letters `s`, pair by pair; an odd last letter is dropped.
    pub open spec fn decoded(&self, s: Seq<char>) -> Option<Seq<char>> {
        self.digraphs(s, s.len() / 2, true)
    }

    /// Once a pair fails, every longer run of pairs fails too.
    pub proof fn lemma_digraphs_fail_onward(&self, s: Seq<char>, k: nat, m: nat, decoding: bool)
        requires
            k <= m,
            self.digraphs(s, k, decoding) is None,
        ensures
            self.digraphs(s, m, decoding) is None,
        decreases m - k,
    {
        if k < m {
            self.lemma_digraphs_fail_onward(s, k, (m - 1) as nat, decoding);
        }
    }

    fn encode_pair(&self, pair: (char, char)) -> (r: Option<(char, char)>)
        ensures
            r == self.encoded_pair(pair.0, pair.1),
    {
        let (r0, c0) = match self.lookup(pair.0) {
            Some(p) => p,
            None => return None,
        };
        let (r1, c1) = match self.lookup(pair.1) {
            Some(p) => p,
            None => return None,
        };
        Some(
            if r0 == r1 {
                (self.char_at(r0 + 1, c0), self.char_at(r1 + 1, c1))
            } else if c0 == c1 {
                (self.char_at(r0, c0 + 1), self.char_at(r1, c1 + 1))
            } else {
                (self.char_at(r0, c1), self.char_at(r1, c0))
            },
        )
    }

    fn decode_pair(&self, pair: (char, char)) -> (r: Option<(char, char)>)
        ensures
            r == self.decoded_pair(pair.0, pair.1),
    {
        let (r0, c0) = match self.lookup(pair.0) {
            Some(p) => p,
            None => return None,
        };
        let (r1, c1) = match self.lookup(pair.1) {
            Some(p) => p,
            None => return None,
        };
        // Stepping back by one is stepping forward by four, modulo five.
        Some(
            if r0 == r1 {
                (self.char_at(r0 + 4, c0), self.char_at(r1 + 4, c1))
            } else if c0 == c1 {
                (self.char_at(r0, c0 + 4), self.char_at(r1, c1 + 4))
            } else {
                (self.char_at(r0, c1), self.char_at(r1, c0))
            },
        )
    }

    /// Transforms `letters` pair by pair, stopping at the first failing pair.
    fn transform(&self, letters: &Vec<char>, decoding: bool) -> (r: Result<String, PlayfairError>)
        ensures
            match self.digraphs(letters@, letters@.len() / 2, decoding) {
                Some(t) => r matches Ok(out) && out@ == t,
                None => r == Err::<String, PlayfairError>(PlayfairError::CharacterNotInGrid),
            },
    {
        let mut out = String::new();
        let n_pairs: usize = letters.len() / 2;
        let mut k: usize = 0;
        while k < n_pairs
            invariant
                n_pairs == letters@.len() / 2,
                k <= n_pairs,
                self.digraphs(letters@, k as nat, decoding) == Some(out@),
            decreases n_pairs - k,
        {
            assert(2 * k + 1 < letters.len()) by (nonlinear_arith)
                requires
                    k < n_pairs,
                    n_pairs == letters.len() / 2,
            ;
            let pair = (letters[2 * k], letters[2 * k + 1]);
            let image = if decoding {
                self.decode_pair(pair)
            } else {
                self.encode_pair(pair)
            };
            match image {
                Some((x, y)) => {
                    push_char(&mut out, x);
                    push_char(&mut out, y);
                },
                None => {
                    proof {
                        self.lemma_digraphs_fail_onward(
                            letters@,
                            (k + 1) as nat,
                            n_pairs as nat,
                            decoding,
                        );
                    }
                    return Err(PlayfairError::CharacterNotInGrid);
                },
            }
            k = k + 1;
        }
        Ok(out)
    }

    /// Encodes letters that are already prepared, pair by pair.
    pub fn encode_letters(&self, letters: &Vec<char>) -> (r: Result<String, PlayfairError>)
        ensures
            match self.encoded(letters@) {
                Some(t) => r matches Ok(out) && out@ == t,
                None => r == Err::<String, PlayfairError>(PlayfairError::CharacterNotInGrid),
            },
    {
        self.transform(letters, false)
    }

    /// Decodes letters that are already checked and upper case, pair by pair.
    pub fn decode_letters(&self, letters: &Vec<char>) -> (r: Result<String, PlayfairError>)
        ensures
            match self.decoded(letters@) {
                Some(t) => r matches Ok(out) && out@ == t,
                None => r == Err::<String, PlayfairError>(PlayfairError::CharacterNotInGrid),
            },
    {
        self.transform(letters, true)
    }

    /// Prepares `text` and encodes it. Fails only when a prepared letter is
    /// not in the grid.
    pub fn encode(&self, text: &str) -> (r: Result<String, PlayfairError>)
        ensures
            match self.encoded(prepared(upper_of(text@))) {
                Some(t) => r matches Ok(out) && out@ == t,
                None => r == Err::<String, PlayfairError>(PlayfairError::CharacterNotInGrid),
            },
    {
        let letters = prepare(text);
        self.encode_letters(&letters)
    }

    /// Checks `encoded` and decodes it: odd length and any 'J' are refused,
    /// in that order, before a letter outside the grid.
    pub fn decode(&self, encoded: &str) -> (r: Result<String, PlayfairError>)
        ensures
            encoded@.len() % 2 == 1 ==> r == Err::<String, PlayfairError>(
                PlayfairError::OddLength,
            ),
            encoded@.len() % 2 == 0 && encoded@.contains('J') ==> r == Err::<
                String,
                PlayfairError,
            >(PlayfairError::ForbiddenCharacter),
            encoded@.len() % 2 == 0 && !encoded@.contains('J') ==> match self.decoded(
                upper_of(encoded@),
            ) {
                Some(t) => r matches Ok(out) && out@ == t,
                None => r == Err::<String, PlayfairError>(PlayfairError::CharacterNotInGrid),
            },
    {
        let letters = match prepare_decode(encoded) {
            Ok(v) => v,
            Err(e) => return Err(e),
        };
        self.decode_letters(&letters)
    }
}

} // verus!
