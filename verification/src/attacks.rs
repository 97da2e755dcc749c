//! The squares that the opponents of one side attack.
use vstd::prelude::*;
use vstd::seq_lib::lemma_seq_concat_contains_all_elements;
use crate::chess::{same_color, Chess_Board};

verus! {

impl Chess_Board {
    /// What the piece on square `i` adds to the squares attacked by the
    /// opponents of `color`: nothing if the square is empty, holds a piece
    /// of `color` or holds a king; else the destinations of that piece, for
    /// a pawn its attacks only.
    pub open spec fn attack_part(&self, color: i8, i: int) -> Seq<usize> {
        let piece = self.board@[i];
        if piece == 0 || same_color(color, piece) {
            Seq::empty()
        } else if piece == 4 || piece == -4 {
            self.rook_destinations(piece, i)
        } else if piece == 2 || piece == -2 {
            self.knight_destinations(piece, i)
        } else if piece == 3 || piece == -3 {
            self.bishop_destinations(piece, i)
        } else if piece == 5 || piece == -5 {
            self.queen_destinations(piece, i)
        } else if piece == 1 || piece == -1 {
            self.pawn_attacks(piece, i)
        } else {
            Seq::empty()
        }
    }

    /// The parts of the squares before `n`, in the order of the squares.
    pub open spec fn attacks_before(&self, color: i8, n: int) -> Seq<usize>
        decreases n,
    {
        if n <= 0 {
            Seq::empty()
        } else {
            self.attacks_before(color, n - 1) + self.attack_part(color, n - 1)
        }
    }

    /// The attacks are the union of the parts: a destination is listed
    /// for the squares before `n` exactly if the piece on one of those
    /// squares adds it.
    pub proof fn lemma_attacks_are_union(&self, color: i8, n: int, dest: usize)
        requires
            0 <= n <= 64,
        ensures
            self.attacks_before(color, n).contains(dest) <==> exists|i: int|
                0 <= i < n && #[trigger] self.attack_part(color, i).contains(dest),
        decreases n,
    {
        if n > 0 {
            self.lemma_attacks_are_union(color, n - 1, dest);
            lemma_seq_concat_contains_all_elements(
                self.attacks_before(color, n - 1),
                self.attack_part(color, n - 1),
                dest,
            );
        }
    }

    /// Every destination of every piece that is not of `color`, square by
    /// square in the order of the squares: what the other side attacks. A
    /// square that several pieces attack is listed once for each of them.
    pub fn check_opponent_attacks(&self, color: i8) -> (results: Vec<usize>)
        requires
            self.distances_ready(),
        ensures
            results@ == self.attacks_before(color, 64),
    {
        let mut results: Vec<usize> = Vec::new();
        for i_idx in 0..64usize
            invariant
                self.distances_ready(),
                results@ == self.attacks_before(color, i_idx as int),
        {
            let current_piece = self.board[i_idx];
            if current_piece != 0 && !Self::match_color(color, current_piece) {
                if current_piece == 4 || current_piece == -4 {
                    let mut found = self.rook_moves(current_piece, i_idx);
                    results.append(&mut found);
                } else if current_piece == 2 || current_piece == -2 {
                    let mut found = self.knight_moves(current_piece, i_idx);
                    results.append(&mut found);
                } else if current_piece == 3 || current_piece == -3 {
                    let mut found = self.bishop_moves(current_piece, i_idx);
                    results.append(&mut found);
                } else if current_piece == 5 || current_piece == -5 {
                    let mut found = self.queen_moves(current_piece, i_idx);
                    results.append(&mut found);
                } else if current_piece == 1 || current_piece == -1 {
                    let mut found = self.pawn_captures(current_piece, i_idx);
                    results.append(&mut found);
                }
            }
            assert(results@ =~= self.attacks_before(color, i_idx as int + 1));
        }
        results
    }
}

} // verus!
