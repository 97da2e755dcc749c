//! Pseudo-legal chess move generation.
//!
//! The core is a flat board of sixty-four piece codes (`chess`) with a
//! table of distances to the edge of the board (`geometry`) and one move
//! generator for each kind of piece (`pawn`, `knight`, `sliders`, `king`).
//! `attacks` joins the generators into the squares that one side attacks,
//! and `render` turns the board into text.
//!
//! A move that would leave the mover's own king in check is not sorted
//! out: that is left to the caller.
//!
//! `chess_core`, `piece` and `board` hold a second representation of the
//! board, by rows and columns, with squares and directions that can be
//! added.
#![allow(non_camel_case_types)]

pub mod geometry;
pub mod chess;
pub mod pawn;
pub mod king;
pub mod knight;
pub mod sliders;
pub mod attacks;
pub mod render;
pub mod chess_core;
pub mod piece;
pub mod board;
