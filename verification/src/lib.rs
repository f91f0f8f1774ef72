//! Authoritative server core of a small multiplayer platformer: the framing
//! codec, the peer registry, the per-connection session, the fixed-tick game
//! with its world of entities and systems, and the built-in level.
//!
//! Sockets, threads, clocks that sleep and the encoding of messages stay with
//! the program around this library. So does the arithmetic on coordinates:
//! the world is generic in its scalar and is handed the sums it needs.

use vstd::prelude::*;

pub mod collision;
pub mod components;
pub mod game;
pub mod resources;
pub mod sync;
pub mod systems;
pub mod world;

verus! {

/// One solid tile of a level.
#[derive(Debug, Clone, Copy, PartialEq, Eq, Structural)]
pub struct Block {}

/// A level: the grid positions that hold a block, each at most once.
#[derive(Debug, Clone)]
pub struct TileMap {
    pub elements: Vec<((i32, i32), Block)>,
}

/// The grid positions of the built-in level: a stair on the left, the ground,
/// and a wall on the right.
pub open spec fn debug_positions() -> Seq<(i32, i32)> {
    seq![
        (-6i32, 4i32),
        (-6i32, 3i32),
        (-5i32, 3i32),
        (-5i32, 2i32),
        (-4i32, 2i32),
        (-4i32, 1i32),
        (-3i32, 1i32),
        (-3i32, 0i32),
        (-2i32, 0i32),
        (-1i32, 0i32),
        (0i32, 0i32),
        (1i32, 0i32),
        (2i32, 0i32),
        (3i32, 0i32),
        (4i32, 0i32),
        (5i32, 0i32),
        (5i32, 1i32),
        (5i32, 2i32),
        (5i32, 3i32),
        (5i32, 4i32),
    ]
}

impl TileMap {
    /// The grid positions that hold a block, in the order of `elements`.
    pub open spec fn positions(&self) -> Seq<(i32, i32)> {
        self.elements@.map_values(|element: ((i32, i32), Block)| element.0)
    }

    /// Whether a block stands at the position.
    pub fn has_block(&self, x: i32, y: i32) -> (found: bool)
        ensures
            found == self.positions().contains((x, y)),
    {
        let mut i: usize = 0;
        while i < self.elements.len()
            invariant
                i <= self.elements@.len(),
                forall|j: int| 0 <= j < i ==> self.positions()[j] != (x, y),
            decreases self.elements@.len() - i,
        {
            let at: (i32, i32) = self.elements[i].0;
            if at.0 == x && at.1 == y {
                assert(self.positions()[i as int] == (x, y));
                return true;
            }
            i += 1;
        }
        false
    }
}

impl Default for TileMap {
    /// The built-in level.
    fn default() -> (level: Self)
        ensures
            level.positions() == debug_positions(),
            level.positions().no_duplicates(),
    {
        let elements: Vec<((i32, i32), Block)> = vec![
            ((-6i32, 4i32), Block {  }),
            ((-6i32, 3i32), Block {  }),
            ((-5i32, 3i32), Block {  }),
            ((-5i32, 2i32), Block {  }),
            ((-4i32, 2i32), Block {  }),
            ((-4i32, 1i32), Block {  }),
            ((-3i32, 1i32), Block {  }),
            ((-3i32, 0i32), Block {  }),
            ((-2i32, 0i32), Block {  }),
            ((-1i32, 0i32), Block {  }),
            ((0i32, 0i32), Block {  }),
            ((1i32, 0i32), Block {  }),
            ((2i32, 0i32), Block {  }),
            ((3i32, 0i32), Block {  }),
            ((4i32, 0i32), Block {  }),
            ((5i32, 0i32), Block {  }),
            ((5i32, 1i32), Block {  }),
            ((5i32, 2i32), Block {  }),
            ((5i32, 3i32), Block {  }),
            ((5i32, 4i32), Block {  }),
        ];
        let level = TileMap { elements };
        proof {
            assert(level.positions() =~= debug_positions());
        }
        level
    }
}

} // verus!
