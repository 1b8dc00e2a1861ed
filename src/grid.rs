//! The 5×5 key grid: construction, position lookup and wrapped addressing.
use vstd::prelude::*;

verus! {

/// Number of rows, and of columns, of the key grid.
pub const SIDE: usize = 5;

/// Number of cells of the key grid.
pub const CELLS: usize = 25;

/// A Playfair cipher, holding its 5×5 key grid.
pub struct Playfair {
    key: [[char; 5]; 5],
}

/// The first index at or after `i` where `grid` holds `ch`.
pub open spec fn first_from(grid: Seq<char>, ch: char, i: int) -> Option<int>
    decreases grid.len() - i,
{
    if i < 0 || i >= grid.len() {
        None
    } else if grid[i] == ch {
        Some(i)
    } else {
        first_from(grid, ch, i + 1)
    }
}

/// A found index lies in range, holds the letter, and nothing before it from
/// `i` on does.
pub proof fn lemma_first_from_found(grid: Seq<char>, ch: char, i: int)
    requires
        0 <= i,
    ensures
        match first_from(grid, ch, i) {
            Some(j) => i <= j < grid.len() && grid[j] == ch && forall|m: int|
                i <= m < j ==> grid[m] != ch,
            None => forall|m: int| i <= m < grid.len() ==> grid[m] != ch,
        },
    decreases grid.len() - i,
{
    if i < grid.len() && grid[i] != ch {
        lemma_first_from_found(grid, ch, i + 1);
    }
}

/// In a sequence without repeats, the search for the letter at `j` from any
/// `i <= j` finds `j`.
pub proof fn lemma_first_from_distinct(grid: Seq<char>, i: int, j: int)
    requires
        0 <= i <= j < grid.len(),
        forall|a: int, b: int| 0 <= a < b < grid.len() ==> grid[a] != grid[b],
    ensures
        first_from(grid, grid[j], i) == Some(j),
    decreases j - i,
{
    if i < j {
        assert(grid[i] != grid[j]);
        lemma_first_from_distinct(grid, i + 1, j);
    }
}

impl View for Playfair {
    type V = Seq<char>;

    /// The grid's letters in row-major order: cell `(r, c)` is at index `5 * r + c`.
    closed spec fn view(&self) -> Seq<char> {
        Seq::new(25, |i: int| self.key[i / 5][i % 5])
    }
}

impl Playfair {
    /// A position found for a letter is a cell of the grid that holds it.
    pub proof fn lemma_position_cell(&self, ch: char)
        requires
            self.position(ch) is Some,
        ensures
            (self.position(ch) matches Some((r, c)) && 0 <= r < 5 && 0 <= c < 5
                && self.letter_at(r, c) == ch),
    {
        lemma_first_from_found(self@, ch, 0);
        let i = first_from(self@, ch, 0)->0;
        assert(0 <= i < 25);
        assert((i / 5) % 5 == i / 5);
        assert((i % 5) % 5 == i % 5);
        assert((i / 5) * 5 + i % 5 == i);
    }

    /// In a grid of distinct letters, the letter of a cell is found at that cell.
    pub proof fn lemma_cell_position(&self, r: int, c: int)
        requires
            self.distinct(),
            0 <= r < 5,
            0 <= c < 5,
        ensures
            self.position(self.letter_at(r, c)) == Some((r, c)),
    {
        let i = r * 5 + c;
        assert(r % 5 == r && c % 5 == c);
        assert(i / 5 == r && i % 5 == c);
        lemma_first_from_distinct(self@, 0, i);
    }

    /// The letter at `(r mod 5, c mod 5)`: addressing wraps around both edges.
    pub open spec fn letter_at(&self, r: int, c: int) -> char {
        self@[(r % 5) * 5 + (c % 5)]
    }

    /// Where `ch` first occurs in the grid, scanning rows top to bottom and
    /// each row left to right; `None` when it does not occur.
    pub open spec fn position(&self, ch: char) -> Option<(int, int)> {
        match first_from(self@, ch, 0) {
            Some(i) => Some((i / 5, i % 5)),
            None => None,
        }
    }

    /// Whether `ch` has a position in the grid.
    pub open spec fn contains(&self, ch: char) -> bool {
        self.position(ch) is Some
    }

    /// No letter occurs twice in the grid.
    pub open spec fn distinct(&self) -> bool {
        forall|i: int, j: int| 0 <= i < j < self@.len() ==> self@[i] != self@[j]
    }

    /// Builds the grid from a key of 25 letters, filled row by row.
    pub fn new(key_str: &str) -> (r: Self)
        requires
            key_str@.len() == 25,
        ensures
            r@ == key_str@,
    {
        let mut key = [['a'; 5]; 5];
        let mut i: usize = 0;
        for c in it: key_str.chars()
            invariant
                i == it.index(),
                it.seq() == key_str@,
                key_str@.len() == 25,
                forall|j: int| 0 <= j < i ==> key[j / 5][j % 5] == key_str@[j],
        {
            assert(i < 25);
            let row: usize = i / SIDE;
            let col: usize = i % SIDE;
            key[row][col] = c;
            i = i + 1;
        }
        let r = Playfair { key };
        assert(r@ =~= key_str@);
        r
    }
    /// The `(row, column)` where `target` first occurs, or `None`.
    pub fn lookup(&self, target: char) -> (r: Option<(usize, usize)>)
        ensures
            match r {
                Some((row, col)) => row < 5 && col < 5 && self.position(target) == Some(
                    (row as int, col as int),
                ),
                None => self.position(target) is None,
            },
    {
        let mut i: usize = 0;
        while i < CELLS
            invariant
                i <= 25,
                first_from(self@, target, 0) == first_from(self@, target, i as int),
            decreases 25 - i,
        {
            let row: usize = i / SIDE;
            let col: usize = i % SIDE;
            if self.key[row][col] == target {
                return Some((row, col));
            }
            i = i + 1;
        }
        None
    }

    /// The letter at `(row mod 5, col mod 5)`.
    pub fn char_at(&self, row: usize, col: usize) -> (r: char)
        ensures
            r == self.letter_at(row as int, col as int),
    {
        let r = self.key[row % SIDE][col % SIDE];
        assert((row % 5) * 5 + (col % 5) < 25);
        assert(((row % 5) * 5 + (col % 5)) / 5 == row % 5);
        assert(((row % 5) * 5 + (col % 5)) % 5 == col % 5);
        r
    }
}

} // verus!
