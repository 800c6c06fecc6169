//! Conway's Game of Life on a bounded rectangular grid.
//!
//! A [`Grid`] is read from text, made to tick and written back as text.
//! [`World`] does the same and counts the generations.
//!
//! # Grid format
//!
//! Grids must be rectangular. Whitespace is ignored.
//!
//! '·' (U+00B7 MIDDLE DOT) is a dead cell. Anything else is a living cell.
use vstd::prelude::*;

pub mod cell;
pub mod error;
pub mod grid;
pub mod life;
pub mod text;

pub use cell::Cell;
pub use error::{GridSizeError, ParseGridError};
pub use grid::Grid;

use life::{evolve, step, Board};
use text::{board_text, decimal, decimal_text, push_str, read_text};

verus! {

/// The text of a world: the text of its grid, then a line with the grid's
/// dimensions and the generation.
pub open spec fn world_text(b: Board, dim: (usize, usize), generation: nat) -> Seq<char> {
    board_text(b) + seq!['\n', '('] + decimal(dim.0 as nat) + seq![',', ' '] + decimal(dim.1 as nat)
        + "), generation: "@ + decimal(generation)
}

/// A grid that keeps track of its generation.
///
/// Its text gives the size of the grid and the generation as well.
#[derive(Clone)]
pub struct World {
    /// The grid of cells.
    grid: Grid,
    /// Number of generations passed: zero for the seed, one more after every
    /// tick.
    generation: u64,
    /// The grid that the world started from.
    seed: Ghost<Board>,
}

impl World {
    /// The world is well formed: its grid is, and it is the seed after as many
    /// generations as the counter says.
    pub closed spec fn wf(&self) -> bool {
        &&& self.grid.wf()
        &&& self.grid@ == evolve(self.seed@, self.generation as nat)
    }

    /// The grid of cells.
    pub closed spec fn spec_grid(&self) -> Grid {
        self.grid
    }

    /// Number of generations passed.
    pub closed spec fn spec_generation(&self) -> nat {
        self.generation as nat
    }

    /// The board that the world started from.
    pub closed spec fn spec_seed(&self) -> Board {
        self.seed@
    }

    /// Creates a new `World` from a seed (generation 0).
    pub fn new(seed: Grid) -> (r: World)
        requires
            seed.wf(),
        ensures
            r.wf(),
            r.spec_grid() == seed,
            r.spec_generation() == 0,
            r.spec_seed() == seed@,
    {
        World { seed: Ghost(seed@), grid: seed, generation: 0 }
    }

    /// Reads the seed of a world from text, as [`Grid::parse`] does.
    pub fn parse(s: &str) -> (r: Result<World, ParseGridError>)
        ensures
            match r {
                Ok(w) => {
                    &&& w.wf()
                    &&& w.spec_generation() == 0
                    &&& w.spec_grid()@ == w.spec_seed()
                    &&& read_text(s@) == Ok::<Board, ParseGridError>(w.spec_seed())
                },
                Err(e) => read_text(s@) == Err::<Board, ParseGridError>(e),
            },
    {
        match Grid::parse(s) {
            Ok(g) => Ok(World::new(g)),
            Err(e) => Err(e),
        }
    }

    /// Makes time tick: the next generation of cells replaces the current one,
    /// and the generation goes up by one.
    ///
    /// Births and deaths happen simultaneously according to the rules of
    /// Conway's Game of Life.
    pub fn tick(&mut self)
        requires
            old(self).wf(),
            old(self).spec_generation() < u64::MAX,
        ensures
            final(self).wf(),
            final(self).spec_generation() == old(self).spec_generation() + 1,
            final(self).spec_grid()@ == step(old(self).spec_grid()@),
            final(self).spec_grid().spec_dim() == old(self).spec_grid().spec_dim(),
            final(self).spec_seed() == old(self).spec_seed(),
    {
        self.generation += 1;
        self.grid.tick();
    }

    /// Returns the number of generations passed.
    pub fn generation(&self) -> (r: u64)
        ensures
            r as nat == self.spec_generation(),
    {
        self.generation
    }

    /// Returns the grid of cells.
    pub fn grid(&self) -> (r: &Grid)
        ensures
            *r == self.spec_grid(),
    {
        &self.grid
    }

    /// Writes the world as text: the grid, then its dimensions and the
    /// generation, as in `(3, 4), generation: 7`.
    pub fn to_string(&self) -> (r: String)
        requires
            self.wf(),
        ensures
            r@ == world_text(self.spec_grid()@, self.spec_grid().spec_dim(), self.spec_generation()),
    {
        let mut out = self.grid.to_string();
        let (nrow, ncol) = self.grid.dim();
        proof {
            reveal_strlit("\n(");
            reveal_strlit(", ");
            reveal_strlit("), generation: ");
        }
        push_str(&mut out, "\n(");
        let text = decimal_text(nrow as u64);
        push_str(&mut out, text.as_str());
        push_str(&mut out, ", ");
        let text = decimal_text(ncol as u64);
        push_str(&mut out, text.as_str());
        push_str(&mut out, "), generation: ");
        let text = decimal_text(self.generation);
        push_str(&mut out, text.as_str());
        proof {
            assert(out@ =~= world_text(self.grid@, self.grid.spec_dim(), self.spec_generation()));
        }
        out
    }
}

/// Counting generations: the grid of a well-formed world is its seed after
/// exactly as many ticks as the generation counter says. A world starts at
/// generation 0 with its seed and every tick adds one to both, so after `n`
/// ticks the generation is `n` and the seed has been ticked `n` times.
pub proof fn lemma_generation_counts_ticks(w: &World)
    requires
        w.wf(),
    ensures
        w.spec_grid()@ == evolve(w.spec_seed(), w.spec_generation()),
{
}

impl std::str::FromStr for World {
    type Err = ParseGridError;

    fn from_str(s: &str) -> Result<World, ParseGridError> {
        World::parse(s)
    }
}

} // verus!
