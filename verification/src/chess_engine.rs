//! An 8x8 two-player board with per-piece move legality checking.
//!
//! The board stores optional occupants in a `grid::Grid`; the legality
//! engine decides, for a requested relocation, whether the piece-specific
//! geometric and path-obstruction rules allow it, and performs the
//! relocation only when they do.

use vstd::prelude::*;
use vstd::string::StrSliceExecFns;

verus! {

/// The closed set of piece kinds a cell may hold.
#[derive(Clone, Copy, Debug, PartialEq, Eq, Structural)]
pub enum PieceKind {
    Pawn,
    Rook,
    Knight,
    Bishop,
    Queen,
    King,
}

/// A piece of a given kind belonging to one of two owners (0 or 1).
#[derive(Clone, Copy, Debug, PartialEq, Eq, Structural)]
pub struct Piece {
    pub kind: PieceKind,
    pub owner: usize,
}

impl Default for Piece {
    /// The default piece is a pawn of owner 0.
    fn default() -> (p: Piece)
        ensures
            p == (Piece { kind: PieceKind::Pawn, owner: 0 }),
    {
        Piece { kind: PieceKind::Pawn, owner: 0 }
    }
}

impl Piece {
    pub fn new(kind: PieceKind, owner: usize) -> (p: Piece)
        ensures
            p == (Piece { kind, owner }),
    {
        Piece { kind, owner }
    }
}

/// The characters on which tokens are separated: the Unicode white-space
/// set, the one `str::split_whitespace` splits on.
pub open spec fn is_space(c: char) -> bool {
    ||| c == '\u{9}'
    ||| c == '\u{a}'
    ||| c == '\u{b}'
    ||| c == '\u{c}'
    ||| c == '\u{d}'
    ||| c == ' '
    ||| c == '\u{85}'
    ||| c == '\u{a0}'
    ||| c == '\u{1680}'
    ||| c == '\u{2000}'
    ||| c == '\u{2001}'
    ||| c == '\u{2002}'
    ||| c == '\u{2003}'
    ||| c == '\u{2004}'
    ||| c == '\u{2005}'
    ||| c == '\u{2006}'
    ||| c == '\u{2007}'
    ||| c == '\u{2008}'
    ||| c == '\u{2009}'
    ||| c == '\u{200a}'
    ||| c == '\u{2028}'
    ||| c == '\u{2029}'
    ||| c == '\u{202f}'
    ||| c == '\u{205f}'
    ||| c == '\u{3000}'
}

/// The first position at or after `i` holding a non-space character, or the
/// string's length if there is none.
pub open spec fn skip_spaces(s: Seq<char>, i: int) -> int
    decreases s.len() - i,
{
    if i < 0 || i >= s.len() {
        s.len() as int
    } else if is_space(s[i]) {
        skip_spaces(s, i + 1)
    } else {
        i
    }
}

/// The first position at or after `i` holding a space, or the string's
/// length if there is none.
pub open spec fn token_end(s: Seq<char>, i: int) -> int
    decreases s.len() - i,
{
    if i < 0 || i >= s.len() {
        s.len() as int
    } else if !is_space(s[i]) {
        token_end(s, i + 1)
    } else {
        i
    }
}

/// The coordinates a move string denotes: two whitespace-separated tokens,
/// each read at its first two characters, a file letter and a rank digit.
/// The rank digit gives the row, `digit - '1'`, and the file letter the
/// column, `letter - 'a'`, so a parsed pair addresses the board the same
/// way the board's own accessors do: (row, column). `None` when a token is
/// missing, has a single character, or holds a character below the range
/// the mapping subtracts from.
pub open spec fn spec_parse(s: Seq<char>) -> Option<((int, int), (int, int))> {
    let i0 = skip_spaces(s, 0);
    let j0 = token_end(s, i0);
    let i1 = skip_spaces(s, j0);
    let j1 = token_end(s, i1);
    if i0 >= s.len() || i1 >= s.len() {
        None
    } else if j0 < i0 + 2 || j1 < i1 + 2 {
        None
    } else {
        let a = s[i0] as int;
        let b = s[i0 + 1] as int;
        let x = s[i1] as int;
        let y = s[i1 + 1] as int;
        if a < 'a' as int || b < '1' as int || x < 'a' as int || y < '1' as int {
            None
        } else {
            Some(((b - '1' as int, a - 'a' as int), (y - '1' as int, x - 'a' as int)))
        }
    }
}

/// A request to relocate the occupant of one cell to another. Coordinates
/// are not validated here; the legality engine rejects out-of-range ones.
pub struct Move {
    pub from: (usize, usize),
    pub to: (usize, usize),
}

/// Reports whether the character is one tokens are separated on.
fn char_is_space(c: char) -> (r: bool)
    ensures
        r == is_space(c),
{
    c == '\u{9}' || c == '\u{a}' || c == '\u{b}' || c == '\u{c}' || c == '\u{d}' || c == ' '
        || c == '\u{85}' || c == '\u{a0}' || c == '\u{1680}' || c == '\u{2000}' || c == '\u{2001}'
        || c == '\u{2002}' || c == '\u{2003}' || c == '\u{2004}' || c == '\u{2005}'
        || c == '\u{2006}' || c == '\u{2007}' || c == '\u{2008}' || c == '\u{2009}'
        || c == '\u{200a}' || c == '\u{2028}' || c == '\u{2029}' || c == '\u{202f}'
        || c == '\u{205f}' || c == '\u{3000}'
}

/// Scans past spaces, returning the first non-space position at or after
/// `start`, or the string's length.
fn scan_past_spaces(s: &str, start: usize) -> (r: usize)
    requires
        start as int <= s@.len(),
    ensures
        r as int == skip_spaces(s@, start as int),
        start <= r,
        r as int <= s@.len(),
{
    let n = s.unicode_len();
    let mut i = start;
    while i < n
        invariant
            start <= i,
            i as int <= s@.len(),
            n as int == s@.len(),
            skip_spaces(s@, start as int) == skip_spaces(s@, i as int),
        decreases n - i,
    {
        if !char_is_space(s.get_char(i)) {
            return i;
        }
        i = i + 1;
    }
    i
}

/// Scans to the end of the token beginning at `start`: the first space at
/// or after it, or the string's length.
fn scan_token_end(s: &str, start: usize) -> (r: usize)
    requires
        start as int <= s@.len(),
    ensures
        r as int == token_end(s@, start as int),
        start <= r,
        r as int <= s@.len(),
{
    let n = s.unicode_len();
    let mut i = start;
    while i < n
        invariant
            start <= i,
            i as int <= s@.len(),
            n as int == s@.len(),
            token_end(s@, start as int) == token_end(s@, i as int),
        decreases n - i,
    {
        if char_is_space(s.get_char(i)) {
            return i;
        }
        i = i + 1;
    }
    i
}

impl Move {
    pub fn new(from: (usize, usize), to: (usize, usize)) -> (m: Move)
        ensures
            m.from == from,
            m.to == to,
    {
        Move { from, to }
    }

    /// Reads two whitespace-separated coordinate tokens such as "e2 e4",
    /// mapping each to a zero-based (row, column) pair: the rank digit
    /// gives the row and the file letter the column, so "e2" denotes the
    /// cell at row 1, column 4 and a parsed request addresses the same
    /// cells the board's accessors do. A missing or malformed token yields
    /// `None`; nothing here checks the indices against the board.
    pub fn parse(input: &str) -> (r: Option<Move>)
        ensures
            match r {
                Some(m) => spec_parse(input@) == Some(
                    ((m.from.0 as int, m.from.1 as int), (m.to.0 as int, m.to.1 as int)),
                ),
                None => spec_parse(input@) is None,
            },
    {
        let n = input.unicode_len();
        let i0 = scan_past_spaces(input, 0);
        if i0 >= n {
            return None;
        }
        let j0 = scan_token_end(input, i0);
        let i1 = scan_past_spaces(input, j0);
        if i1 >= n {
            return None;
        }
        let j1 = scan_token_end(input, i1);
        if j0 - i0 < 2 || j1 - i1 < 2 {
            return None;
        }
        let c0 = input.get_char(i0);
        let c1 = input.get_char(i0 + 1);
        let c2 = input.get_char(i1);
        let c3 = input.get_char(i1 + 1);
        if (c0 as u32) < ('a' as u32) || (c1 as u32) < ('1' as u32) || (c2 as u32) < ('a' as u32)
            || (c3 as u32) < ('1' as u32) {
            return None;
        }
        let from = ((c1 as usize) - ('1' as usize), (c0 as usize) - ('a' as usize));
        let to = ((c3 as usize) - ('1' as usize), (c2 as usize) - ('a' as usize));
        Some(Move::new(from, to))
    }
}

// ---------------------------------------------------------------------------
// Trusted boundary: the `grid` crate's 2D container.
//
// The board's cells live in a `grid::Grid<Option<Piece>>`. Verus cannot look
// inside that type, so its contents and dimensions are given names below, and
// each method the board uses is reached through a wrapper whose contract
// states what the crate's source shows.
// ---------------------------------------------------------------------------

/// Declares `grid::Grid` so that it can stand in fields and signatures.
#[verifier::external_type_specification]
#[verifier::external_body]
#[verifier::reject_recursive_types(T)]
pub struct ExGrid<T>(grid::Grid<T>);

/// The cells of a grid of optional pieces, as a map from (row, col) to the
/// cell's content. Its domain is the grid's full index rectangle.
pub uninterp spec fn grid_cells(g: grid::Grid<Option<Piece>>) -> Map<(int, int), Option<Piece>>;

/// The number of rows the grid was made with.
pub uninterp spec fn grid_rows(g: grid::Grid<Option<Piece>>) -> int;

/// The number of columns the grid was made with.
pub uninterp spec fn grid_cols(g: grid::Grid<Option<Piece>>) -> int;

/// Relies on `grid::Grid::new`: a rows x cols grid filled with the default
/// value, which for `Option<Piece>` is `None`. It panics only when
/// `rows * cols` overflows, and collapses to an empty grid when either
/// dimension is zero; both are kept out by `requires`.
#[verifier::external_body]
fn grid_new(rows: usize, cols: usize) -> (g: grid::Grid<Option<Piece>>)
    requires
        1 <= rows,
        1 <= cols,
        rows * cols <= usize::MAX,
    ensures
        grid_rows(g) == rows as int,
        grid_cols(g) == cols as int,
        grid_cells(g) == Map::new(
            |p: (int, int)| 0 <= p.0 < rows as int && 0 <= p.1 < cols as int,
            |p: (int, int)| None::<Piece>,
        ),
{
    grid::Grid::new(rows, cols)
}

/// Relies on `grid::Grid::rows`: returns the row count.
#[verifier::external_body]
fn grid_row_count(g: &grid::Grid<Option<Piece>>) -> (n: usize)
    ensures
        n as int == grid_rows(*g),
{
    g.rows()
}

/// Relies on `grid::Grid::cols`: returns the column count.
#[verifier::external_body]
fn grid_col_count(g: &grid::Grid<Option<Piece>>) -> (n: usize)
    ensures
        n as int == grid_cols(*g),
{
    g.cols()
}

/// Relies on `grid::Grid`'s `Index` impl: returns the cell at (row, col),
/// panicking out of bounds, which `requires` keeps out.
#[verifier::external_body]
fn grid_read(g: &grid::Grid<Option<Piece>>, row: usize, col: usize) -> (p: Option<Piece>)
    requires
        (row as int) < grid_rows(*g),
        (col as int) < grid_cols(*g),
    ensures
        p == grid_cells(*g)[(row as int, col as int)],
{
    g[(row, col)]
}

/// Relies on `grid::Grid`'s `IndexMut` impl: overwrites the cell at
/// (row, col), panicking out of bounds, which `requires` keeps out.
#[verifier::external_body]
fn grid_write(g: &mut grid::Grid<Option<Piece>>, row: usize, col: usize, value: Option<Piece>)
    requires
        (row as int) < grid_rows(*old(g)),
        (col as int) < grid_cols(*old(g)),
    ensures
        grid_rows(*final(g)) == grid_rows(*old(g)),
        grid_cols(*final(g)) == grid_cols(*old(g)),
        grid_cells(*final(g)) == grid_cells(*old(g)).insert((row as int, col as int), value),
{
    g[(row, col)] = value;
}

// ---------------------------------------------------------------------------
// Legality rules, as mathematics over the board's cell map
// ---------------------------------------------------------------------------

/// A move's machine coordinates as an integer pair.
pub open spec fn pt(p: (usize, usize)) -> (int, int) {
    (p.0 as int, p.1 as int)
}

/// A coordinate pair lies on the board.
pub open spec fn in_bounds(p: (int, int)) -> bool {
    0 <= p.0 < 8 && 0 <= p.1 < 8
}

/// The absolute difference of two coordinates.
pub open spec fn dist(a: int, b: int) -> int {
    if a >= b {
        a - b
    } else {
        b - a
    }
}

/// The coordinate reached after k unit steps from a toward b.
pub open spec fn step_coord(a: int, b: int, k: int) -> int {
    if b > a {
        a + k
    } else if b < a {
        a - k
    } else {
        a
    }
}

/// The cell reached after k unit steps from `from` toward `to`, moving one
/// step on each axis that has not yet arrived.
pub open spec fn walk_cell(from: (int, int), to: (int, int), k: int) -> (int, int) {
    (step_coord(from.0, to.0, k), step_coord(from.1, to.1, k))
}

/// The number of unit steps a straight or diagonal walk takes.
pub open spec fn walk_len(from: (int, int), to: (int, int)) -> int {
    if dist(from.0, to.0) >= dist(from.1, to.1) {
        dist(from.0, to.0)
    } else {
        dist(from.1, to.1)
    }
}

/// Every cell strictly between `from` and `to` along the walk is empty.
pub open spec fn path_clear(
    b: Map<(int, int), Option<Piece>>,
    from: (int, int),
    to: (int, int),
) -> bool {
    forall|k: int| 1 <= k < walk_len(from, to) ==> b[walk_cell(from, to, k)] is None
}

/// Pawns move strictly forward (owner 0 toward increasing rows, owner 1
/// toward decreasing rows), at most 2 rows and 1 column at a time; the
/// one-by-one diagonal step demands an opposing occupant at the destination.
/// Open point: nothing ties the two-row step to a pawn's starting rank, nor
/// asks that the cell stepped over be empty, so a pawn already advanced may
/// take a two-row step again.
pub open spec fn pawn_rule(
    b: Map<(int, int), Option<Piece>>,
    owner: usize,
    from: (int, int),
    to: (int, int),
) -> bool {
    &&& owner == 0 ==> to.0 > from.0
    &&& owner == 1 ==> to.0 < from.0
    &&& dist(from.0, to.0) <= 2
    &&& dist(from.1, to.1) <= 1
    &&& (dist(from.0, to.0) == 1 && dist(from.1, to.1) == 1) ==> (b[to] is Some && b[to]->0.owner
        != owner)
}

/// Rooks move along a single rank or file; no cell between is examined.
pub open spec fn rook_rule(from: (int, int), to: (int, int)) -> bool {
    !(dist(from.0, to.0) > 0 && dist(from.1, to.1) > 0)
}

/// Knights are refused exactly on the two stated non-L patterns; any other
/// difference pair, such as (1, 1), passes this rule.
pub open spec fn knight_rule(from: (int, int), to: (int, int)) -> bool {
    !((dist(from.0, to.0) == 2 && dist(from.1, to.1) != 1) || (dist(from.1, to.1) == 2 && dist(
        from.0,
        to.0,
    ) != 1))
}

/// Bishops move on a diagonal with every cell between empty.
pub open spec fn bishop_rule(
    b: Map<(int, int), Option<Piece>>,
    from: (int, int),
    to: (int, int),
) -> bool {
    dist(from.0, to.0) == dist(from.1, to.1) && path_clear(b, from, to)
}

/// Queens move on a diagonal or a straight line, with every cell between
/// empty.
pub open spec fn queen_rule(
    b: Map<(int, int), Option<Piece>>,
    from: (int, int),
    to: (int, int),
) -> bool {
    &&& dist(from.0, to.0) == dist(from.1, to.1) || dist(from.0, to.0) == 0 || dist(from.1, to.1)
        == 0
    &&& path_clear(b, from, to)
}

/// Kings move at most one cell on each axis.
pub open spec fn king_rule(from: (int, int), to: (int, int)) -> bool {
    dist(from.0, to.0) <= 1 && dist(from.1, to.1) <= 1
}

/// The piece-specific rule for the given piece.
pub open spec fn piece_rule(
    b: Map<(int, int), Option<Piece>>,
    piece: Piece,
    from: (int, int),
    to: (int, int),
) -> bool {
    match piece.kind {
        PieceKind::Pawn => pawn_rule(b, piece.owner, from, to),
        PieceKind::Rook => rook_rule(from, to),
        PieceKind::Knight => knight_rule(from, to),
        PieceKind::Bishop => bishop_rule(b, from, to),
        PieceKind::Queen => queen_rule(b, from, to),
        PieceKind::King => king_rule(from, to),
    }
}

/// The full legality decision: both endpoints on the board, an occupant at
/// the source, a destination different from the source, and the occupant's
/// piece-specific rule satisfied.
pub open spec fn move_legal(
    b: Map<(int, int), Option<Piece>>,
    from: (int, int),
    to: (int, int),
) -> bool {
    &&& in_bounds(from)
    &&& in_bounds(to)
    &&& b[from] is Some
    &&& from != to
    &&& piece_rule(b, b[from]->0, from, to)
}

/// The board after a successful move: the source's occupant is written to
/// the destination, overwriting whatever was there, and the source is
/// emptied.
pub open spec fn board_after_move(
    b: Map<(int, int), Option<Piece>>,
    from: (int, int),
    to: (int, int),
) -> Map<(int, int), Option<Piece>> {
    b.insert(to, b[from]).insert(from, None)
}

// ---------------------------------------------------------------------------
// Board state
// ---------------------------------------------------------------------------

/// An 8x8 board of cells, each holding at most one occupant.
pub struct ChessBoard {
    pub grid: grid::Grid<Option<Piece>>,
}

impl View for ChessBoard {
    type V = Map<(int, int), Option<Piece>>;

    open spec fn view(&self) -> Map<(int, int), Option<Piece>> {
        grid_cells(self.grid)
    }
}

/// The canonical starting occupant of a cell: a rank of pawns for each
/// owner, and mirrored back ranks of rooks, knights, bishops, queen and
/// king.
pub open spec fn initial_cell(r: int, c: int) -> Option<Piece> {
    if r == 1 {
        Some(Piece { kind: PieceKind::Pawn, owner: 0 })
    } else if r == 6 {
        Some(Piece { kind: PieceKind::Pawn, owner: 1 })
    } else if r == 0 || r == 7 {
        let owner: usize = if r == 0 {
            0
        } else {
            1
        };
        if c == 0 || c == 7 {
            Some(Piece { kind: PieceKind::Rook, owner })
        } else if c == 1 || c == 6 {
            Some(Piece { kind: PieceKind::Knight, owner })
        } else if c == 2 || c == 5 {
            Some(Piece { kind: PieceKind::Bishop, owner })
        } else if c == 3 {
            Some(Piece { kind: PieceKind::Queen, owner })
        } else {
            Some(Piece { kind: PieceKind::King, owner })
        }
    } else {
        None
    }
}

/// The canonical starting board.
pub open spec fn initial_board() -> Map<(int, int), Option<Piece>> {
    Map::new(|p: (int, int)| in_bounds(p), |p: (int, int)| initial_cell(p.0, p.1))
}

impl ChessBoard {
    /// The board is an 8x8 grid whose cell map covers exactly that rectangle.
    pub open spec fn wf(self) -> bool {
        &&& grid_rows(self.grid) == 8
        &&& grid_cols(self.grid) == 8
        &&& forall|p: (int, int)|
            self@.contains_key(p) <==> (0 <= p.0 < 8 && 0 <= p.1 < 8)
    }

    /// Builds the canonical starting arrangement: both pawn ranks and both
    /// back ranks, mirrored across the board's horizontal midline.
    pub fn normal_setup() -> (board: ChessBoard)
        ensures
            board.wf(),
            board@ == initial_board(),
    {
        let mut board = ChessBoard { grid: grid_new(8, 8) };
        proof {
            assert forall|p: (int, int)|
                board@.contains_key(p) <==> (0 <= p.0 < 8 && 0 <= p.1 < 8) by {}
        }
        for col in 0..8usize
            invariant
                board.wf(),
                forall|p: (int, int)|
                    in_bounds(p) ==> board@[p] == (if p.0 == 1 && p.1 < col {
                        Some(Piece { kind: PieceKind::Pawn, owner: 0 })
                    } else if p.0 == 6 && p.1 < col {
                        Some(Piece { kind: PieceKind::Pawn, owner: 1 })
                    } else {
                        None
                    }),
        {
            board.set_piece(1, col, Piece::new(PieceKind::Pawn, 0));
            board.set_piece(6, col, Piece::new(PieceKind::Pawn, 1));
        }

        board.set_piece(0, 0, Piece::new(PieceKind::Rook, 0));
        board.set_piece(0, 7, Piece::new(PieceKind::Rook, 0));
        board.set_piece(7, 0, Piece::new(PieceKind::Rook, 1));
        board.set_piece(7, 7, Piece::new(PieceKind::Rook, 1));

        board.set_piece(0, 1, Piece::new(PieceKind::Knight, 0));
        board.set_piece(0, 6, Piece::new(PieceKind::Knight, 0));
        board.set_piece(7, 1, Piece::new(PieceKind::Knight, 1));
        board.set_piece(7, 6, Piece::new(PieceKind::Knight, 1));

        board.set_piece(0, 2, Piece::new(PieceKind::Bishop, 0));
        board.set_piece(0, 5, Piece::new(PieceKind::Bishop, 0));
        board.set_piece(7, 2, Piece::new(PieceKind::Bishop, 1));
        board.set_piece(7, 5, Piece::new(PieceKind::Bishop, 1));

        board.set_piece(0, 3, Piece::new(PieceKind::Queen, 0));
        board.set_piece(7, 3, Piece::new(PieceKind::Queen, 1));

        board.set_piece(0, 4, Piece::new(PieceKind::King, 0));
        board.set_piece(7, 4, Piece::new(PieceKind::King, 1));

        proof {
            assert(board@ =~= initial_board());
        }
        board
    }

    /// Places an occupant, overwriting whatever the cell held.
    pub fn set_piece(&mut self, row: usize, col: usize, piece: Piece)
        requires
            old(self).wf(),
            row < 8,
            col < 8,
        ensures
            final(self).wf(),
            final(self)@ == old(self)@.insert((row as int, col as int), Some(piece)),
    {
        grid_write(&mut self.grid, row, col, Some(piece));
        proof {
            assert forall|p: (int, int)|
                self@.contains_key(p) <==> (0 <= p.0 < 8 && 0 <= p.1 < 8) by {
                assert(self@ == old(self)@.insert((row as int, col as int), Some(piece)));
            }
        }
    }

    /// Returns the occupant at a cell, or `None` for an empty cell.
    pub fn get_piece(&self, row: usize, col: usize) -> (p: Option<Piece>)
        requires
            self.wf(),
            row < 8,
            col < 8,
        ensures
            p == self@[(row as int, col as int)],
    {
        grid_read(&self.grid, row, col)
    }

    /// Empties a cell.
    pub fn remove_piece(&mut self, row: usize, col: usize)
        requires
            old(self).wf(),
            row < 8,
            col < 8,
        ensures
            final(self).wf(),
            final(self)@ == old(self)@.insert((row as int, col as int), None),
    {
        grid_write(&mut self.grid, row, col, None);
        proof {
            assert forall|p: (int, int)|
                self@.contains_key(p) <==> (0 <= p.0 < 8 && 0 <= p.1 < 8) by {
                assert(self@ == old(self)@.insert((row as int, col as int), None));
            }
        }
    }

    /// True iff no occupant is present at the cell.
    pub fn is_empty(&self, row: usize, col: usize) -> (r: bool)
        requires
            self.wf(),
            row < 8,
            col < 8,
        ensures
            r == (self@[(row as int, col as int)] is None),
    {
        self.get_piece(row, col).is_none()
    }

    /// Walks one unit step at a time from `from` toward `to` and reports
    /// whether every cell strictly between the two is empty.
    fn path_is_clear(&self, from: (usize, usize), to: (usize, usize)) -> (r: bool)
        requires
            self.wf(),
            in_bounds(pt(from)),
            in_bounds(pt(to)),
            from != to,
            dist(from.0 as int, to.0 as int) == dist(from.1 as int, to.1 as int) || from.0 == to.0
                || from.1 == to.1,
        ensures
            r == path_clear(self@, pt(from), pt(to)),
    {
        let rd = if to.0 >= from.0 {
            to.0 - from.0
        } else {
            from.0 - to.0
        };
        let cd = if to.1 >= from.1 {
            to.1 - from.1
        } else {
            from.1 - to.1
        };
        let steps = if rd >= cd {
            rd
        } else {
            cd
        };
        assert(steps as int == walk_len(pt(from), pt(to)));
        for k in 1..steps
            invariant
                self.wf(),
                in_bounds(pt(from)),
                in_bounds(pt(to)),
                from != to,
                dist(from.0 as int, to.0 as int) == dist(from.1 as int, to.1 as int) || from.0
                    == to.0 || from.1 == to.1,
                steps as int == walk_len(pt(from), pt(to)),
                forall|j: int| 1 <= j < k ==> self@[walk_cell(pt(from), pt(to), j)] is None,
        {
            let row = if to.0 > from.0 {
                from.0 + k
            } else if to.0 < from.0 {
                from.0 - k
            } else {
                from.0
            };
            let col = if to.1 > from.1 {
                from.1 + k
            } else if to.1 < from.1 {
                from.1 - k
            } else {
                from.1
            };
            assert((row as int, col as int) == walk_cell(pt(from), pt(to), k as int));
            assert(row < 8 && col < 8);
            if !self.is_empty(row, col) {
                assert(!path_clear(self@, pt(from), pt(to))) by {
                    assert(self@[walk_cell(pt(from), pt(to), k as int)] is Some);
                }
                return false;
            }
        }
        true
    }

    /// Evaluates the destination-differs check and the piece-specific rule
    /// for a piece standing at `from`.
    fn rules_allow(&self, piece: Piece, from: (usize, usize), to: (usize, usize)) -> (r: bool)
        requires
            self.wf(),
            in_bounds(pt(from)),
            in_bounds(pt(to)),
        ensures
            r == (pt(from) != pt(to) && piece_rule(self@, piece, pt(from), pt(to))),
    {
        if from.0 == to.0 && from.1 == to.1 {
            return false;
        }
        let rd = if to.0 >= from.0 {
            to.0 - from.0
        } else {
            from.0 - to.0
        };
        let cd = if to.1 >= from.1 {
            to.1 - from.1
        } else {
            from.1 - to.1
        };
        match piece.kind {
            PieceKind::Pawn => {
                if piece.owner == 0 && to.0 <= from.0 {
                    return false;
                }
                if piece.owner == 1 && to.0 >= from.0 {
                    return false;
                }
                if rd > 2 || cd > 1 {
                    return false;
                }
                if rd == 1 && cd == 1 {
                    match self.get_piece(to.0, to.1) {
                        None => {
                            return false;
                        },
                        Some(target) => {
                            if target.owner == piece.owner {
                                return false;
                            }
                        },
                    }
                }
                true
            },
            PieceKind::Rook => !(rd > 0 && cd > 0),
            PieceKind::Knight => !((rd == 2 && cd != 1) || (cd == 2 && rd != 1)),
            PieceKind::Bishop => rd == cd && self.path_is_clear(from, to),
            PieceKind::Queen => {
                if rd == cd || rd == 0 || cd == 0 {
                    self.path_is_clear(from, to)
                } else {
                    false
                }
            },
            PieceKind::King => rd <= 1 && cd <= 1,
        }
    }

    /// Decides whether the requested relocation is legal and, exactly when
    /// it is, writes the source's occupant to the destination and empties
    /// the source. A rejected request leaves the board untouched.
    pub fn move_piece(&mut self, move_to_perform: Move) -> (r: bool)
        requires
            old(self).wf(),
        ensures
            final(self).wf(),
            r == move_legal(old(self)@, pt(move_to_perform.from), pt(move_to_perform.to)),
            r ==> final(self)@ == board_after_move(
                old(self)@,
                pt(move_to_perform.from),
                pt(move_to_perform.to),
            ),
            !r ==> final(self)@ == old(self)@,
    {
        let from = move_to_perform.from;
        let to = move_to_perform.to;
        let rows = grid_row_count(&self.grid);
        let cols = grid_col_count(&self.grid);
        if from.0 >= rows || from.1 >= cols || to.0 >= rows || to.1 >= cols {
            return false;
        }
        let piece_at_from = self.get_piece(from.0, from.1);
        if piece_at_from.is_none() {
            return false;
        }
        let piece = piece_at_from.unwrap();
        let can_move = self.rules_allow(piece, from, to);
        if can_move {
            self.set_piece(to.0, to.1, piece);
            self.remove_piece(from.0, from.1);
        }
        can_move
    }
}

// ---------------------------------------------------------------------------
// Laws of the legality rules
// ---------------------------------------------------------------------------

/// A move whose destination equals its source is never legal, on any board.
pub proof fn lemma_same_cell_move_illegal(b: Map<(int, int), Option<Piece>>, p: (int, int))
    ensures
        !move_legal(b, p, p),
{
}

/// A move with either endpoint off the board is never legal, on any board.
pub proof fn lemma_out_of_bounds_illegal(
    b: Map<(int, int), Option<Piece>>,
    from: (int, int),
    to: (int, int),
)
    requires
        !in_bounds(from) || !in_bounds(to),
    ensures
        !move_legal(b, from, to),
{
}

/// A pawn of owner 0 at (1,4) may step to (2,5) exactly when an opposing
/// occupant sits there; it may not when (2,5) is empty or holds a
/// same-owner occupant. When the occupants are drawn from the two sides
/// alone, "opposing" is exactly owner 1.
pub proof fn lemma_pawn_diagonal_capture(b: Map<(int, int), Option<Piece>>)
    requires
        b[(1, 4)] == (Some(Piece { kind: PieceKind::Pawn, owner: 0 })),
    ensures
        move_legal(b, (1, 4), (2, 5)) <==> (b[(2, 5)] is Some && b[(2, 5)]->0.owner != 0),
        (b[(2, 5)] is Some && b[(2, 5)]->0.owner <= 1) ==> (move_legal(b, (1, 4), (2, 5)) <==> b[(
            2,
            5,
        )]->0.owner == 1),
{
}

/// A rook at (0,0) may move along its rank to (0,7) when the cells between
/// are empty; the rule checks the line only, so no cell between is in fact
/// consulted.
pub proof fn lemma_rook_rank_move(b: Map<(int, int), Option<Piece>>, owner: usize)
    requires
        b[(0, 0)] == (Some(Piece { kind: PieceKind::Rook, owner })),
        forall|c: int| 1 <= c < 7 ==> b[(0, c)] is None,
    ensures
        move_legal(b, (0, 0), (0, 7)),
{
}

/// A rook at (0,0) may never move to (3,3), off its rank and file, whatever
/// the rest of the board holds.
pub proof fn lemma_rook_off_line_illegal(b: Map<(int, int), Option<Piece>>, owner: usize)
    requires
        b[(0, 0)] == (Some(Piece { kind: PieceKind::Rook, owner })),
    ensures
        !move_legal(b, (0, 0), (3, 3)),
{
}

/// A bishop at (0,2) may move to (2,4) exactly when the one cell between,
/// (1,3), is empty.
pub proof fn lemma_bishop_obstruction(b: Map<(int, int), Option<Piece>>, owner: usize)
    requires
        b[(0, 2)] == (Some(Piece { kind: PieceKind::Bishop, owner })),
    ensures
        move_legal(b, (0, 2), (2, 4)) <==> b[(1, 3)] is None,
{
    assert(walk_cell((0, 2), (2, 4), 1) == (1int, 3int));
    if b[(1, 3)] is None {
        assert forall|k: int| 1 <= k < walk_len((0, 2), (2, 4)) implies b[walk_cell(
            (0, 2),
            (2, 4),
            k,
        )] is None by {
            assert(k == 1);
        }
    }
}

/// A knight at (0,1) may move to (2,2); it may not move to (2,3); and the
/// step to (1,1) is not refused by the rule as stated, whatever the
/// destination holds.
pub proof fn lemma_knight_moves(b: Map<(int, int), Option<Piece>>, owner: usize)
    requires
        b[(0, 1)] == (Some(Piece { kind: PieceKind::Knight, owner })),
    ensures
        move_legal(b, (0, 1), (2, 2)),
        !move_legal(b, (0, 1), (2, 3)),
        move_legal(b, (0, 1), (1, 1)),
{
}

} // verus!
