use vstd::prelude::*;
use vstd::arithmetic::div_mod::lemma_fundamental_div_mod_converse;
use crate::tile::Tile;
use crate::grid::{Grid, MAX_SIZE, cell_index, player_count, lemma_cell_index_bound};

verus! {

/// A cell of the grid.
#[derive(Clone, Copy, Debug, PartialEq, Eq, Structural)]
pub struct Position {
    pub col: usize,
    pub row: usize,
}

/// A decoded level: its grid and where the player starts.
pub struct Level {
    pub grid: Grid,
    pub start: Position,
}

/// Why level data could not be decoded.
#[derive(Clone, Copy, Debug, PartialEq, Eq, Structural)]
pub enum DecodeError {
    /// The bytes are not UTF-8 text.
    InvalidText,
}

/// Whether `b` is valid UTF-8.
pub uninterp spec fn is_utf8(b: Seq<u8>) -> bool;

/// Relies on `std::str::from_utf8`: it succeeds exactly on valid UTF-8.
#[verifier::external_body]
fn check_utf8(b: &[u8]) -> (r: bool)
    ensures
        r == is_utf8(b@),
{
    std::str::from_utf8(b).is_ok()
}

/// `s` with each carriage return that precedes a line feed taken out.
pub open spec fn crlf_to_lf(s: Seq<u8>) -> Seq<u8>
    decreases s.len(),
{
    if s.len() == 0 {
        s
    } else if s.len() >= 2 && s[0] == 13 && s[1] == 10 {
        seq![10u8] + crlf_to_lf(s.subrange(2, s.len() as int))
    } else {
        seq![s[0]] + crlf_to_lf(s.subrange(1, s.len() as int))
    }
}

/// The tile that the text of a level of side `n` gives to `(col, row)`.
/// Rows are written from the top down, each followed by a line feed, so
/// row `row` is line `n - 1 - row`; a character that is not a digit, or is
/// missing, gives `Blank`.
pub open spec fn source_tile(text: Seq<u8>, n: nat, col: nat, row: nat) -> Tile {
    let k = (n - 1 - row) * (n + 1) + col;
    if k < text.len() {
        Tile::from_char_spec(text[k])
    } else {
        Tile::Blank
    }
}

/// Removes every carriage return that precedes a line feed.
pub fn normalize_newlines(s: &[u8]) -> (r: Vec<u8>)
    ensures
        r@ == crlf_to_lf(s@),
{
    let mut out: Vec<u8> = Vec::new();
    let mut i: usize = 0;
    assert(s@.subrange(0, s@.len() as int) =~= s@);
    assert(out@ + crlf_to_lf(s@) =~= crlf_to_lf(s@));
    while i < s.len()
        invariant
            i <= s@.len(),
            out@ + crlf_to_lf(s@.subrange(i as int, s@.len() as int)) == crlf_to_lf(s@),
        decreases s@.len() - i,
    {
        let ghost rest = s@.subrange(i as int, s@.len() as int);
        if i + 1 < s.len() && s[i] == 13 && s[i + 1] == 10 {
            assert(rest.subrange(2, rest.len() as int) =~= s@.subrange(i + 2, s@.len() as int));
            out.push(10);
            i = i + 2;
        } else {
            assert(rest.subrange(1, rest.len() as int) =~= s@.subrange(i + 1, s@.len() as int));
            out.push(s[i]);
            i = i + 1;
        }
        assert(out@ + crlf_to_lf(s@.subrange(i as int, s@.len() as int)) =~= crlf_to_lf(s@));
    }
    assert(s@.subrange(i as int, s@.len() as int) =~= Seq::<u8>::empty());
    assert(out@ =~= out@ + crlf_to_lf(Seq::<u8>::empty()));
    out
}

/// The place within the text of the character for `(col, row)`.
proof fn lemma_source_index_bound(n: nat, col: nat, row: nat)
    requires
        0 < n <= MAX_SIZE,
        col < n,
        row < n,
    ensures
        (n - 1 - row) * (n + 1) + col < MAX_SIZE * (MAX_SIZE + 1),
{
    assert((n - 1 - row) * (n + 1) + col < MAX_SIZE * (MAX_SIZE + 1)) by (nonlinear_arith)
        requires
            0 < n <= MAX_SIZE,
            col < n,
            row < n,
    ;
}

impl Level {
    /// This level is what `text` gives for a grid of side `n`: each cell is
    /// `source_tile` of the text with its line breaks made plain; the start
    /// is a cell that faces down, or `(0, 0)` where there is none.
    pub open spec fn decoded_from(&self, text: Seq<u8>, n: nat) -> bool {
        let no_start = forall|col: nat, row: nat|
            col < n && row < n ==> self.grid.at(col, row) != Tile::PlayerFacingDown;
        &&& self.grid.wf()
        &&& self.grid.size == n
        &&& forall|col: nat, row: nat|
            col < n && row < n ==> self.grid.at(col, row) == source_tile(crlf_to_lf(text), n, col, row)
        &&& self.start.col < n
        &&& self.start.row < n
        &&& no_start ==> self.start == (Position { col: 0, row: 0 })
        &&& !no_start ==> self.grid.at(self.start.col as nat, self.start.row as nat)
            == Tile::PlayerFacingDown
    }

    /// The level can be played: one cell shows the player, at the start.
    pub open spec fn wf(&self) -> bool {
        &&& self.grid.wf()
        &&& self.start.col < self.grid.size
        &&& self.start.row < self.grid.size
        &&& self.grid.at(self.start.col as nat, self.start.row as nat).is_player()
        &&& player_count(self.grid.cells@) == 1
    }

    /// Whether the level can be played; a decoded level may show the player
    /// in no cell or in several.
    pub fn is_playable(&self) -> (r: bool)
        requires
            self.grid.wf(),
        ensures
            r == self.wf(),
    {
        if self.start.col >= self.grid.size || self.start.row >= self.grid.size {
            return false;
        }
        self.grid.get(self.start.col, self.start.row).is_player_tile()
            && self.grid.count_players() == 1
    }

    /// Reads the level of side `size` from `text`, which is taken to be
    /// valid text. Line breaks may be `\r\n` or `\n`. The lenient reading
    /// never fails: a cell whose character is not a digit, or is missing,
    /// is `Blank`. The start is a cell that faces down; where there is none
    /// it is `(0, 0)`.
    pub fn decode_text(text: &[u8], size: usize) -> (r: Level)
        requires
            0 < size <= MAX_SIZE,
        ensures
            r.decoded_from(text@, size as nat),
    {
        let t = normalize_newlines(text);
        let n = size;
        let ghost ns = n as nat;
        proof {
            lemma_cell_index_bound(ns, 0, 0);
        }
        let total: usize = n * n;
        let mut cells: Vec<Tile> = Vec::new();
        let mut col: usize = 0;
        let mut row: usize = 0;
        let mut found = false;
        let mut start = Position { col: 0, row: 0 };
        while cells.len() < total
            invariant
                total == n * n,
                ns == n as nat,
                0 < n <= MAX_SIZE,
                cells@.len() <= total,
                cells@.len() == row * n + col,
                col < n,
                cells@.len() < total ==> row < n,
                forall|j: int|
                    0 <= j < cells@.len() ==> cells@[j] == source_tile(
                        t@,
                        ns,
                        (j % (n as int)) as nat,
                        (j / (n as int)) as nat,
                    ),
                found ==> start.col < n && start.row < n && (start.row * n + start.col)
                    < cells@.len() && cells@[start.row * n + start.col] == Tile::PlayerFacingDown,
                !found ==> start == (Position { col: 0, row: 0 }),
                !found ==> forall|j: int| 0 <= j < cells@.len() ==> cells@[j] != Tile::PlayerFacingDown,
            decreases total - cells@.len(),
        {
            proof {
                lemma_source_index_bound(ns, col as nat, row as nat);
                lemma_fundamental_div_mod_converse(cells@.len() as int, n as int, row as int, col as int);
            }
            let k: usize = (n - 1 - row) * (n + 1) + col;
            let tile = if k < t.len() {
                Tile::from_char(t[k])
            } else {
                Tile::Blank
            };
            if !found && tile == Tile::PlayerFacingDown {
                found = true;
                start = Position { col, row };
            }
            cells.push(tile);
            if col + 1 == n {
                proof {
                    assert((row + 1) * n == row * n + n) by (nonlinear_arith);
                    assert((row + 1) * n < n * n ==> row + 1 < n) by (nonlinear_arith)
                        requires
                            0 < n,
                    ;
                }
                col = 0;
                row = row + 1;
            } else {
                col = col + 1;
            }
        }
        let grid = Grid { size: n, cells };
        assert forall|c: nat, r: nat| c < size && r < size implies grid.at(c, r) == source_tile(
            t@,
            ns,
            c,
            r,
        ) by {
            lemma_cell_index_bound(ns, c, r);
            lemma_fundamental_div_mod_converse((r * ns + c) as int, n as int, r as int, c as int);
        }
        if !found {
            assert forall|c: nat, r: nat| c < size && r < size implies grid.at(c, r)
                != Tile::PlayerFacingDown by {
                lemma_cell_index_bound(ns, c, r);
            }
        }
        Level { grid, start }
    }

    /// Decodes level data of side `size`: fails exactly where the bytes are
    /// not valid UTF-8, and otherwise reads them as `decode_text` does.
    pub fn decode(bytes: &[u8], size: usize) -> (r: Result<Level, DecodeError>)
        requires
            0 < size <= MAX_SIZE,
        ensures
            r is Err <==> !is_utf8(bytes@),
            r is Err ==> r->Err_0 == DecodeError::InvalidText,
            r is Ok ==> r->Ok_0.decoded_from(bytes@, size as nat),
    {
        if !check_utf8(bytes) {
            return Err(DecodeError::InvalidText);
        }
        Ok(Level::decode_text(bytes, size))
    }
}

/// Whether the text of a level of side `n` holds a digit for `(col, row)`.
pub open spec fn source_has_digit(text: Seq<u8>, n: nat, col: nat, row: nat) -> bool {
    let k = (n - 1 - row) * (n + 1) + col;
    k < text.len() && 48 <= text[k] && text[k] <= 57
}

/// How many of the first `j` cells, in row-by-row order from the bottom,
/// have no digit in the text and so are read as `Blank`.
pub open spec fn defaulted_cells(text: Seq<u8>, n: nat, j: nat) -> nat
    decreases j,
{
    if j == 0 || n == 0 {
        0
    } else {
        let k = (j - 1) as nat;
        defaulted_cells(text, n, k) + if source_has_digit(text, n, k % n, k / n) {
            0nat
        } else {
            1nat
        }
    }
}

/// The number of cells of a level of side `size` that `text` gives no digit
/// for, because the character is something else or is missing. Decoding
/// reads each of them as `Blank` without failing; this count tells a caller
/// how many there were.
pub fn count_defaulted_cells(text: &[u8], size: usize) -> (r: usize)
    requires
        0 < size <= MAX_SIZE,
    ensures
        r == defaulted_cells(crlf_to_lf(text@), size as nat, (size * size) as nat),
{
    let t = normalize_newlines(text);
    let n = size;
    let ghost ns = n as nat;
    proof {
        lemma_cell_index_bound(ns, 0, 0);
    }
    let total: usize = n * n;
    let mut seen: usize = 0;
    let mut col: usize = 0;
    let mut row: usize = 0;
    let mut r: usize = 0;
    while seen < total
        invariant
            total == n * n,
            ns == n as nat,
            0 < n <= MAX_SIZE,
            seen <= total,
            seen == row * n + col,
            col < n,
            seen < total ==> row < n,
            r <= seen,
            r == defaulted_cells(t@, ns, seen as nat),
        decreases total - seen,
    {
        proof {
            lemma_source_index_bound(ns, col as nat, row as nat);
            lemma_fundamental_div_mod_converse(seen as int, n as int, row as int, col as int);
        }
        let k: usize = (n - 1 - row) * (n + 1) + col;
        if !(k < t.len() && 48 <= t[k] && t[k] <= 57) {
            r = r + 1;
        }
        seen = seen + 1;
        if col + 1 == n {
            proof {
                assert((row + 1) * n == row * n + n) by (nonlinear_arith);
                assert((row + 1) * n < n * n ==> row + 1 < n) by (nonlinear_arith)
                    requires
                        0 < n,
                ;
            }
            col = 0;
            row = row + 1;
        } else {
            col = col + 1;
        }
    }
    r
}

/// `s` with a carriage return put before each line feed.
pub open spec fn with_crlf(s: Seq<u8>) -> Seq<u8>
    decreases s.len(),
{
    if s.len() == 0 {
        s
    } else if s[0] == 10 {
        seq![13u8, 10u8] + with_crlf(s.subrange(1, s.len() as int))
    } else {
        seq![s[0]] + with_crlf(s.subrange(1, s.len() as int))
    }
}

proof fn lemma_crlf_round_trip(s: Seq<u8>)
    ensures
        crlf_to_lf(with_crlf(s)) == s,
        !s.contains(13) ==> crlf_to_lf(s) == s,
    decreases s.len(),
{
    if s.len() > 0 {
        let rest = s.subrange(1, s.len() as int);
        lemma_crlf_round_trip(rest);
        let w = with_crlf(rest);
        if rest.len() > 0 {
            assert(w[0] != 10);
        }
        if s[0] == 10 {
            let x = seq![13u8, 10u8] + w;
            assert(x.subrange(2, x.len() as int) =~= w);
        } else {
            let x = seq![s[0]] + w;
            assert(x.subrange(1, x.len() as int) =~= w);
        }
        assert(s =~= seq![s[0]] + rest);
        if !s.contains(13) {
            assert(!rest.contains(13)) by {
                if rest.contains(13) {
                    let i = choose|i: int| 0 <= i < rest.len() && rest[i] == 13;
                    assert(s[i + 1] == 13);
                }
            }
            assert(s[0] != 13);
        }
    }
}

/// A level written with `\r\n` line breaks decodes as the same level
/// written with `\n` line breaks.
pub proof fn lemma_crlf_text_decodes_alike(level: Level, text: Seq<u8>, n: nat)
    requires
        !text.contains(13),
    ensures
        level.decoded_from(with_crlf(text), n) == level.decoded_from(text, n),
{
    lemma_crlf_round_trip(text);
}

} // verus!
