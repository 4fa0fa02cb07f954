//! A race-to-the-end board game simulator.
//!
//! The library models the board (an ordered sequence of spaces with
//! special tiles, shortcuts and sticky spaces), the card deck, the
//! per-turn movement resolution, the game loop with reshuffle and
//! infinite-loop detection, and the aggregation of results over a
//! batch of games.

use vstd::prelude::*;

pub mod board;
pub mod deck;
pub mod game;
pub mod movement;

pub use board::Space;
pub use board::get_board;
pub use deck::get_infinite_two_person_deck;
pub use deck::make_deck;
pub use deck::write_deck;
pub use game::Stats;
pub use game::Summary;
pub use game::calculate;
pub use game::play;
pub use game::skip_if_stuck;
pub use movement::move_player;

verus! {

/// The category of a board space or of a drawn card.
///
/// Color tiles repeat along the board; each special tile
/// (`IceCreamCone` through `BonBon`) appears exactly once, as do the
/// `Start` and `End` boundary tiles.
#[derive(Clone, Copy, Debug, PartialEq, Eq, Structural)]
pub enum Tile {
    Start,
    Red,
    Orange,
    Yellow,
    Green,
    Blue,
    Purple,
    IceCreamCone,
    Gumdrop,
    Lollipop,
    Peppermint,
    BonBon,
    End,
}

/// True of the five unique tiles that cause an absolute teleport when drawn.
pub open spec fn is_special(t: Tile) -> bool {
    t == Tile::IceCreamCone || t == Tile::Gumdrop || t == Tile::Lollipop
        || t == Tile::Peppermint || t == Tile::BonBon
}

/// True of the six ordinary color tiles.
pub open spec fn is_color(t: Tile) -> bool {
    t == Tile::Red || t == Tile::Orange || t == Tile::Yellow || t == Tile::Green
        || t == Tile::Blue || t == Tile::Purple
}

/// A drawn instruction: a tile and a magnitude.
///
/// Color cards advance past the `num`-th matching colored space ahead;
/// special cards (always magnitude 1) teleport to the tile's fixed
/// board position.
#[derive(Clone, Copy, Debug, PartialEq, Eq, Structural)]
pub struct Card {
    pub tile: Tile,
    pub num: u32,
}

/// A card the movement resolver accepts: a color card with a positive
/// magnitude, or a special card with magnitude 1. Boundary tiles never
/// appear on cards.
pub open spec fn card_ok(c: Card) -> bool {
    (is_color(c.tile) && c.num >= 1) || (is_special(c.tile) && c.num == 1)
}

/// How many players sit at the table.
#[derive(Clone, Copy, Debug)]
pub enum PlayerCount {
    Two,
    Three,
    Four,
}

impl PlayerCount {
    /// The number of players as an integer.
    pub open spec fn spec_value(&self) -> u32 {
        match *self {
            PlayerCount::Two => 2,
            PlayerCount::Three => 3,
            PlayerCount::Four => 4,
        }
    }

    /// The number of players as an integer.
    #[verifier::when_used_as_spec(spec_value)]
    pub fn value(&self) -> (r: u32)
        ensures
            r == self.spec_value(),
    {
        match *self {
            PlayerCount::Two => 2,
            PlayerCount::Three => 3,
            PlayerCount::Four => 4,
        }
    }
}

/// One player's state: a stable 1-based identity, the index of the
/// space currently stood on, and whether the next turn is forfeited.
#[derive(Clone, Copy, Debug)]
pub struct Player {
    pub order: u32,
    pub space: usize,
    pub stuck: bool,
}

} // verus!
