//! Text rendering of a board: a deterministic row-major grid, one glyph
//! per occupant kind and a filler for empty cells.

use vstd::prelude::*;
use vstd::string::StringExecFns;

use crate::chess_engine::ChessBoard;
use crate::chess_engine::Piece;
use crate::chess_engine::PieceKind;

verus! {

/// The single-character glyph of a piece kind.
pub open spec fn glyph(k: PieceKind) -> char {
    match k {
        PieceKind::Pawn => 'P',
        PieceKind::Rook => 'R',
        PieceKind::Knight => 'N',
        PieceKind::Bishop => 'B',
        PieceKind::Queen => 'Q',
        PieceKind::King => 'K',
    }
}

/// The two characters printed for one cell: its glyph, or '.' when empty,
/// followed by a space.
pub open spec fn cell_text(cell: Option<Piece>) -> Seq<char> {
    match cell {
        Some(p) => seq![glyph(p.kind), ' '],
        None => seq!['.', ' '],
    }
}

/// The text of a row from column `c` on, closed by a newline.
pub open spec fn row_text(b: Map<(int, int), Option<Piece>>, r: int, c: int) -> Seq<char>
    decreases 8 - c,
{
    if c < 0 || c >= 8 {
        seq!['\n']
    } else {
        cell_text(b[(r, c)]) + row_text(b, r, c + 1)
    }
}

/// The text of the board from row `r` on, rows printed top to bottom.
pub open spec fn board_text(b: Map<(int, int), Option<Piece>>, r: int) -> Seq<char>
    decreases 8 - r,
{
    if r < 0 || r >= 8 {
        Seq::empty()
    } else {
        row_text(b, r, 0) + board_text(b, r + 1)
    }
}

/// Appends the two-character text of one cell.
fn push_cell(out: &mut String, cell: Option<Piece>)
    ensures
        final(out)@ == old(out)@ + cell_text(cell),
{
    match cell {
        Some(p) => {
            match p.kind {
                PieceKind::Pawn => {
                    proof {
                        reveal_strlit("P ");
                        assert("P "@ =~= cell_text(cell));
                    }
                    out.append("P ");
                },
                PieceKind::Rook => {
                    proof {
                        reveal_strlit("R ");
                        assert("R "@ =~= cell_text(cell));
                    }
                    out.append("R ");
                },
                PieceKind::Knight => {
                    proof {
                        reveal_strlit("N ");
                        assert("N "@ =~= cell_text(cell));
                    }
                    out.append("N ");
                },
                PieceKind::Bishop => {
                    proof {
                        reveal_strlit("B ");
                        assert("B "@ =~= cell_text(cell));
                    }
                    out.append("B ");
                },
                PieceKind::Queen => {
                    proof {
                        reveal_strlit("Q ");
                        assert("Q "@ =~= cell_text(cell));
                    }
                    out.append("Q ");
                },
                PieceKind::King => {
                    proof {
                        reveal_strlit("K ");
                        assert("K "@ =~= cell_text(cell));
                    }
                    out.append("K ");
                },
            }
        },
        None => {
            proof {
                reveal_strlit(". ");
                assert(". "@ =~= cell_text(cell));
            }
            out.append(". ");
        },
    }
}

/// Renders a board as a row-major text grid.
pub struct ChessTextRenderer {}

impl ChessTextRenderer {
    /// The board's full text: rows 0 to 7 top to bottom, each cell as its
    /// glyph (or '.') and a space, each row closed by a newline.
    pub fn draw_board(board: &ChessBoard) -> (out: String)
        requires
            board.wf(),
        ensures
            out@ == board_text(board@, 0),
    {
        let mut out = String::new();
        proof {
            assert(out@ + board_text(board@, 0) =~= board_text(board@, 0));
        }
        for row in 0..8usize
            invariant
                board.wf(),
                out@ + board_text(board@, row as int) == board_text(board@, 0),
        {
            let ghost row_start = out@;
            for col in 0..8usize
                invariant
                    board.wf(),
                    row < 8,
                    row_start + board_text(board@, row as int) == board_text(board@, 0),
                    out@ + row_text(board@, row as int, col as int) == row_start + row_text(
                        board@,
                        row as int,
                        0,
                    ),
            {
                let cell = board.get_piece(row, col);
                push_cell(&mut out, cell);
                proof {
                    assert(out@ + row_text(board@, row as int, col + 1 as int) =~= row_start
                        + row_text(board@, row as int, 0));
                }
            }
            proof {
                reveal_strlit("\n");
            }
            out.append("\n");
            proof {
                assert("\n"@ =~= seq!['\n']);
                assert(out@ =~= row_start + row_text(board@, row as int, 0));
                assert(out@ + board_text(board@, row + 1 as int) =~= board_text(board@, 0));
            }
        }
        proof {
            assert(out@ =~= board_text(board@, 0));
        }
        out
    }
}

} // verus!
