//! The fixed board: an ordered sequence of spaces, each with a tile,
//! an optional shortcut target, a stickiness flag and an occupancy flag.

use vstd::prelude::*;
use crate::{Tile, is_special};

verus! {

/// One positional slot of the board. Only `occupied` ever changes
/// after construction; the movement resolver sets and clears it as
/// players arrive and leave.
#[derive(Clone, Copy, Debug)]
pub struct Space {
    pub tile: Tile,
    pub shortcut: Option<usize>,
    pub sticky: bool,
    pub occupied: bool,
}

/// An ordinary space of the given tile: no shortcut, not sticky, free.
pub open spec fn plain_space(t: Tile) -> Space {
    Space { tile: t, shortcut: None, sticky: false, occupied: false }
}

/// A free, non-sticky space that redirects to space `k` on landing.
pub open spec fn shortcut_space(t: Tile, k: usize) -> Space {
    Space { tile: t, shortcut: Some(k), sticky: false, occupied: false }
}

/// A free sticky space: landing here forfeits the player's next turn.
pub open spec fn sticky_space(t: Tile) -> Space {
    Space { tile: t, shortcut: None, sticky: true, occupied: false }
}

/// The same space as `s` with its occupancy flag set to `b`.
pub open spec fn with_occupied(s: Space, b: bool) -> Space {
    Space { tile: s.tile, shortcut: s.shortcut, sticky: s.sticky, occupied: b }
}

/// There is at least one space of tile `t` on the board.
pub open spec fn has_tile(s: Seq<Space>, t: Tile) -> bool {
    exists|j: int| 0 <= j < s.len() && #[trigger] s[j].tile == t
}

/// The index of the first space at or after `i` whose tile is `t`,
/// or `s.len()` when no such space exists.
pub open spec fn first_from(s: Seq<Space>, t: Tile, i: int) -> int
    decreases s.len() - i,
{
    if i < 0 || i >= s.len() {
        s.len() as int
    } else if s[i].tile == t {
        i
    } else {
        first_from(s, t, i + 1)
    }
}

/// What `first_from` returns: the least matching index in `[i, len)`
/// when a match exists, and `len` otherwise.
pub proof fn lemma_first_from(s: Seq<Space>, t: Tile, i: int)
    requires
        0 <= i <= s.len(),
    ensures
        i <= first_from(s, t, i) <= s.len(),
        first_from(s, t, i) < s.len() ==> s[first_from(s, t, i)].tile == t,
        forall|j: int| i <= j < first_from(s, t, i) ==> s[j].tile != t,
        (exists|j: int| i <= j < s.len() && #[trigger] s[j].tile == t) ==> first_from(s, t, i)
            < s.len(),
    decreases s.len() - i,
{
    if i < s.len() && s[i].tile != t {
        lemma_first_from(s, t, i + 1);
    }
}

/// Well-formedness of a board: it starts with the unique `Start`
/// space, ends with an `End` space, holds every special tile, and
/// every shortcut targets a space on the board.
pub open spec fn board_ok(s: Seq<Space>) -> bool {
    &&& s.len() >= 2
    &&& s[0].tile == Tile::Start
    &&& s[s.len() - 1].tile == Tile::End
    &&& forall|t: Tile| is_special(t) ==> has_tile(s, t)
    &&& forall|i: int|
        0 <= i < s.len() ==> ((#[trigger] s[i].shortcut) matches Some(k) ==> k < s.len())
}

/// Boards that agree in tiles and shortcuts everywhere are equally
/// well formed: occupancy and stickiness play no part in `board_ok`.
pub proof fn lemma_board_ok_same_layout(a: Seq<Space>, b: Seq<Space>)
    requires
        board_ok(a),
        a.len() == b.len(),
        forall|i: int|
            0 <= i < a.len() ==> #[trigger] b[i].tile == a[i].tile && b[i].shortcut
                == a[i].shortcut,
    ensures
        board_ok(b),
{
    assert forall|t: Tile| is_special(t) implies has_tile(b, t) by {
        let j = choose|j: int| 0 <= j < a.len() && #[trigger] a[j].tile == t;
        assert(b[j].tile == t);
    }
    assert forall|i: int|
        0 <= i < b.len() implies ((#[trigger] b[i].shortcut) matches Some(k) ==> k
        < b.len()) by {
        assert(b[i].tile == a[i].tile && b[i].shortcut == a[i].shortcut);
    }
    assert(b[0].tile == a[0].tile);
    assert(b[b.len() - 1].tile == a[a.len() - 1].tile);
}

/// The canonical board: 84 spaces, `Start` at index 0, `End` at the
/// last index, each special tile once, two shortcuts and two sticky
/// spaces, with the color tiles cycling in between.
pub open spec fn spec_board() -> Seq<Space> {
    seq![
        plain_space(Tile::Start),
        plain_space(Tile::Red),
        plain_space(Tile::Purple),
        plain_space(Tile::Yellow),
        shortcut_space(Tile::Blue, 36),
        plain_space(Tile::Orange),
        plain_space(Tile::Green),
        plain_space(Tile::Red),
        plain_space(Tile::Purple),
        plain_space(Tile::Yellow),
        plain_space(Tile::Blue),
        plain_space(Tile::Orange),
        shortcut_space(Tile::Green, 18),
        plain_space(Tile::Red),
        plain_space(Tile::Purple),
        plain_space(Tile::Yellow),
        plain_space(Tile::Blue),
        plain_space(Tile::Orange),
        plain_space(Tile::Green),
        plain_space(Tile::Red),
        plain_space(Tile::Purple),
        plain_space(Tile::Peppermint),
        plain_space(Tile::Yellow),
        plain_space(Tile::Blue),
        plain_space(Tile::Orange),
        plain_space(Tile::Green),
        plain_space(Tile::Red),
        sticky_space(Tile::Purple),
        plain_space(Tile::Yellow),
        plain_space(Tile::Blue),
        plain_space(Tile::Orange),
        plain_space(Tile::Green),
        plain_space(Tile::Red),
        plain_space(Tile::Gumdrop),
        plain_space(Tile::Purple),
        plain_space(Tile::Yellow),
        plain_space(Tile::Blue),
        plain_space(Tile::Orange),
        plain_space(Tile::Green),
        plain_space(Tile::Red),
        plain_space(Tile::Purple),
        plain_space(Tile::Yellow),
        plain_space(Tile::Blue),
        plain_space(Tile::Orange),
        plain_space(Tile::BonBon),
        plain_space(Tile::Red),
        plain_space(Tile::Purple),
        plain_space(Tile::Yellow),
        plain_space(Tile::Blue),
        plain_space(Tile::Orange),
        plain_space(Tile::Green),
        plain_space(Tile::Red),
        plain_space(Tile::Lollipop),
        plain_space(Tile::Purple),
        sticky_space(Tile::Yellow),
        plain_space(Tile::Blue),
        plain_space(Tile::Orange),
        plain_space(Tile::Green),
        plain_space(Tile::Red),
        plain_space(Tile::Purple),
        plain_space(Tile::Yellow),
        plain_space(Tile::Blue),
        plain_space(Tile::Orange),
        plain_space(Tile::Green),
        plain_space(Tile::Red),
        plain_space(Tile::Purple),
        plain_space(Tile::Yellow),
        plain_space(Tile::IceCreamCone),
        plain_space(Tile::Blue),
        plain_space(Tile::Orange),
        plain_space(Tile::Green),
        plain_space(Tile::Red),
        plain_space(Tile::Purple),
        plain_space(Tile::Yellow),
        plain_space(Tile::Blue),
        plain_space(Tile::Orange),
        plain_space(Tile::Green),
        plain_space(Tile::Red),
        plain_space(Tile::Purple),
        plain_space(Tile::Yellow),
        plain_space(Tile::Blue),
        plain_space(Tile::Orange),
        plain_space(Tile::Green),
        plain_space(Tile::End),
    ]
}

fn push_plain(b: &mut Vec<Space>, t: Tile)
    ensures
        final(b)@ == old(b)@.push(plain_space(t)),
{
    b.push(Space { tile: t, shortcut: None, sticky: false, occupied: false });
}

fn push_shortcut(b: &mut Vec<Space>, t: Tile, k: usize)
    ensures
        final(b)@ == old(b)@.push(shortcut_space(t, k)),
{
    b.push(Space { tile: t, shortcut: Some(k), sticky: false, occupied: false });
}

fn push_sticky(b: &mut Vec<Space>, t: Tile)
    ensures
        final(b)@ == old(b)@.push(sticky_space(t)),
{
    b.push(Space { tile: t, shortcut: None, sticky: true, occupied: false });
}

/// Tile `t` occurs exactly once on `s`, at index `j`.
pub open spec fn unique_tile_at(s: Seq<Space>, t: Tile, j: int) -> bool {
    &&& 0 <= j < s.len()
    &&& s[j].tile == t
    &&& forall|i: int| 0 <= i < s.len() && i != j ==> (#[trigger] s[i]).tile != t
}

/// The canonical board is well formed: `Start` stands exactly once,
/// at index 0, `End` exactly once, at the last index, and each of the
/// five special tiles exactly once.
#[verifier::rlimit(100)]
pub proof fn lemma_board_fixture_ok()
    ensures
        board_ok(spec_board()),
        spec_board().len() == 84,
        unique_tile_at(spec_board(), Tile::Start, 0),
        unique_tile_at(spec_board(), Tile::End, 83),
        unique_tile_at(spec_board(), Tile::Peppermint, 21),
        unique_tile_at(spec_board(), Tile::Gumdrop, 33),
        unique_tile_at(spec_board(), Tile::BonBon, 44),
        unique_tile_at(spec_board(), Tile::Lollipop, 52),
        unique_tile_at(spec_board(), Tile::IceCreamCone, 67),
{
    let s = spec_board();
    assert(s[21].tile == Tile::Peppermint);
    assert(s[33].tile == Tile::Gumdrop);
    assert(s[44].tile == Tile::BonBon);
    assert(s[52].tile == Tile::Lollipop);
    assert(s[67].tile == Tile::IceCreamCone);
    assert(has_tile(s, Tile::Peppermint));
    assert(has_tile(s, Tile::Gumdrop));
    assert(has_tile(s, Tile::BonBon));
    assert(has_tile(s, Tile::Lollipop));
    assert(has_tile(s, Tile::IceCreamCone));
}

/// Build the canonical board, all spaces unoccupied.
#[verifier::rlimit(100)]
pub fn get_board() -> (r: Vec<Space>)
    ensures
        r@ == spec_board(),
{
    let mut b: Vec<Space> = Vec::new();
    push_plain(&mut b, Tile::Start);
    push_plain(&mut b, Tile::Red);
    push_plain(&mut b, Tile::Purple);
    push_plain(&mut b, Tile::Yellow);
    push_shortcut(&mut b, Tile::Blue, 36);
    push_plain(&mut b, Tile::Orange);
    push_plain(&mut b, Tile::Green);
    push_plain(&mut b, Tile::Red);
    push_plain(&mut b, Tile::Purple);
    push_plain(&mut b, Tile::Yellow);
    push_plain(&mut b, Tile::Blue);
    push_plain(&mut b, Tile::Orange);
    push_shortcut(&mut b, Tile::Green, 18);
    push_plain(&mut b, Tile::Red);
    push_plain(&mut b, Tile::Purple);
    push_plain(&mut b, Tile::Yellow);
    push_plain(&mut b, Tile::Blue);
    push_plain(&mut b, Tile::Orange);
    push_plain(&mut b, Tile::Green);
    push_plain(&mut b, Tile::Red);
    push_plain(&mut b, Tile::Purple);
    push_plain(&mut b, Tile::Peppermint);
    push_plain(&mut b, Tile::Yellow);
    push_plain(&mut b, Tile::Blue);
    push_plain(&mut b, Tile::Orange);
    push_plain(&mut b, Tile::Green);
    push_plain(&mut b, Tile::Red);
    push_sticky(&mut b, Tile::Purple);
    push_plain(&mut b, Tile::Yellow);
    push_plain(&mut b, Tile::Blue);
    push_plain(&mut b, Tile::Orange);
    push_plain(&mut b, Tile::Green);
    push_plain(&mut b, Tile::Red);
    push_plain(&mut b, Tile::Gumdrop);
    push_plain(&mut b, Tile::Purple);
    push_plain(&mut b, Tile::Yellow);
    push_plain(&mut b, Tile::Blue);
    push_plain(&mut b, Tile::Orange);
    push_plain(&mut b, Tile::Green);
    push_plain(&mut b, Tile::Red);
    push_plain(&mut b, Tile::Purple);
    push_plain(&mut b, Tile::Yellow);
    push_plain(&mut b, Tile::Blue);
    push_plain(&mut b, Tile::Orange);
    push_plain(&mut b, Tile::BonBon);
    push_plain(&mut b, Tile::Red);
    push_plain(&mut b, Tile::Purple);
    push_plain(&mut b, Tile::Yellow);
    push_plain(&mut b, Tile::Blue);
    push_plain(&mut b, Tile::Orange);
    push_plain(&mut b, Tile::Green);
    push_plain(&mut b, Tile::Red);
    push_plain(&mut b, Tile::Lollipop);
    push_plain(&mut b, Tile::Purple);
    push_sticky(&mut b, Tile::Yellow);
    push_plain(&mut b, Tile::Blue);
    push_plain(&mut b, Tile::Orange);
    push_plain(&mut b, Tile::Green);
    push_plain(&mut b, Tile::Red);
    push_plain(&mut b, Tile::Purple);
    push_plain(&mut b, Tile::Yellow);
    push_plain(&mut b, Tile::Blue);
    push_plain(&mut b, Tile::Orange);
    push_plain(&mut b, Tile::Green);
    push_plain(&mut b, Tile::Red);
    push_plain(&mut b, Tile::Purple);
    push_plain(&mut b, Tile::Yellow);
    push_plain(&mut b, Tile::IceCreamCone);
    push_plain(&mut b, Tile::Blue);
    push_plain(&mut b, Tile::Orange);
    push_plain(&mut b, Tile::Green);
    push_plain(&mut b, Tile::Red);
    push_plain(&mut b, Tile::Purple);
    push_plain(&mut b, Tile::Yellow);
    push_plain(&mut b, Tile::Blue);
    push_plain(&mut b, Tile::Orange);
    push_plain(&mut b, Tile::Green);
    push_plain(&mut b, Tile::Red);
    push_plain(&mut b, Tile::Purple);
    push_plain(&mut b, Tile::Yellow);
    push_plain(&mut b, Tile::Blue);
    push_plain(&mut b, Tile::Orange);
    push_plain(&mut b, Tile::Green);
    push_plain(&mut b, Tile::End);
    b
}

} // verus!
