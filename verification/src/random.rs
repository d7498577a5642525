//! The one place where chance enters: drawing the kind of a new piece.

use vstd::prelude::*;
use rand::rngs::ThreadRng;
use rand::seq::SliceRandom;
use crate::catalog::{PieceKind, PIECE_KIND_COUNT};

verus! {

/// `rand::rngs::ThreadRng`, the handle to the random number generator of
/// the current thread. It is carried through as it is; nothing is known of
/// the state of the generator.
#[verifier::external_type_specification]
#[verifier::external_body]
pub struct ExThreadRng(ThreadRng);

/// `rand::thread_rng` returns a handle to the generator of the current
/// thread, which the operating system seeds on first use. Nothing is
/// claimed of the handle. Not proved: this is taken from the `rand` crate.
/// The call panics when the operating system cannot supply the seed; no
/// argument decides that, so no precondition can leave it out.
pub assume_specification[ rand::thread_rng ]() -> (rng: ThreadRng);

/// Calls `rand::seq::SliceRandom::choose` on the items of `options`, with
/// `rng` as the source of chance. Taken from the `rand` crate and not
/// proved: the call returns `None` when there is no item, and otherwise one
/// of the items. Which of them is left open, and so is the new state of the
/// generator.
#[verifier::external_body]
fn choose_index(options: &Vec<usize>, rng: &mut ThreadRng) -> (picked: Option<usize>)
    ensures
        options@.len() == 0 ==> picked is None,
        options@.len() > 0 ==> picked is Some && options@.contains(picked->0),
{
    options.choose(rng).copied()
}

/// The indices of all piece kinds, in order.
fn kind_indices() -> (indices: Vec<usize>)
    ensures
        indices@.len() == PIECE_KIND_COUNT,
        forall|i: int| 0 <= i < PIECE_KIND_COUNT ==> indices@[i] == i,
{
    let mut indices: Vec<usize> = Vec::new();
    let mut i: usize = 0;
    while i < PIECE_KIND_COUNT
        invariant
            i <= PIECE_KIND_COUNT,
            indices@.len() == i,
            forall|j: int| 0 <= j < i ==> indices@[j] == j,
        decreases PIECE_KIND_COUNT - i,
    {
        indices.push(i);
        i += 1;
    }
    indices
}

/// Draws one of the seven piece kinds with the given generator: one index
/// is chosen among the indices of all kinds, each with the same chance.
/// Which kind comes out is a matter of chance, so nothing is promised of it.
pub fn draw_piece_kind(rng: &mut ThreadRng) -> (kind: PieceKind) {
    let indices = kind_indices();
    let index: usize = choose_index(&indices, rng).unwrap();
    PieceKind::from_index(index)
}

/// Draws one of the seven piece kinds with the generator of the current
/// thread.
pub fn random_piece_kind() -> (kind: PieceKind) {
    let mut rng = rand::thread_rng();
    draw_piece_kind(&mut rng)
}

} // verus!
