//! The movement resolver: given the board, a player's current space
//! and a drawn card, compute the landing space, update occupancy, and
//! apply shortcut redirection and stickiness.

use vstd::prelude::*;
use crate::{Card, Player, Tile, card_ok, is_color, is_special};
use crate::board::{
    Space, board_ok, first_from, has_tile, lemma_first_from, with_occupied,
};

verus! {

/// The index of the `End` space (the first one, and on a well-formed
/// board the only one).
pub open spec fn end_index(s: Seq<Space>) -> int {
    first_from(s, Tile::End, 0)
}

/// Where a forward scan for tile `t` starting at index `i` stops,
/// with `k` matches still owed. A matching space consumes one owed
/// match; once the count is satisfied the scan stops at the first
/// unoccupied match. When no match remains ahead, the player is sent
/// to the `End` space instead.
pub open spec fn color_landing(s: Seq<Space>, i: int, t: Tile, k: int) -> int
    decreases s.len() - i,
{
    if i < 0 || i >= s.len() {
        end_index(s)
    } else if s[i].tile == t {
        if k <= 1 && !s[i].occupied {
            i
        } else if k <= 1 {
            color_landing(s, i + 1, t, 1)
        } else {
            color_landing(s, i + 1, t, k - 1)
        }
    } else {
        color_landing(s, i + 1, t, k)
    }
}

/// The space a drawn card sends a player standing at `pos` to, before
/// shortcut redirection: special cards teleport to the tile's fixed
/// position; color cards scan forward from `pos` (exclusive).
pub open spec fn landing_index(s: Seq<Space>, pos: int, c: Card) -> int {
    if is_special(c.tile) {
        first_from(s, c.tile, 0)
    } else {
        color_landing(s, pos + 1, c.tile, c.num as int)
    }
}

/// A color scan always stops on the board, provided an `End` space exists.
pub proof fn lemma_color_landing_bound(s: Seq<Space>, i: int, t: Tile, k: int)
    requires
        has_tile(s, Tile::End),
    ensures
        0 <= color_landing(s, i, t, k) < s.len(),
    decreases s.len() - i,
{
    lemma_first_from(s, Tile::End, 0);
    if 0 <= i < s.len() {
        if s[i].tile == t {
            if k <= 1 && !s[i].occupied {
            } else if k <= 1 {
                lemma_color_landing_bound(s, i + 1, t, 1);
            } else {
                lemma_color_landing_bound(s, i + 1, t, k - 1);
            }
        } else {
            lemma_color_landing_bound(s, i + 1, t, k);
        }
    }
}

/// The landing space of any accepted card is on the board.
pub proof fn lemma_landing_index_bound(s: Seq<Space>, pos: int, c: Card)
    requires
        board_ok(s),
        card_ok(c),
    ensures
        0 <= landing_index(s, pos, c) < s.len(),
{
    if is_special(c.tile) {
        lemma_first_from(s, c.tile, 0);
    } else {
        assert(has_tile(s, Tile::End)) by {
            assert(s[s.len() - 1].tile == Tile::End);
        }
        lemma_color_landing_bound(s, pos + 1, c.tile, c.num as int);
    }
}

/// The number of spaces of tile `t` with index in `[lo, hi)`.
pub open spec fn count_matches(s: Seq<Space>, t: Tile, lo: int, hi: int) -> int
    decreases hi - lo,
{
    if lo >= hi {
        0
    } else {
        (if 0 <= lo < s.len() && s[lo].tile == t {
            1int
        } else {
            0int
        }) + count_matches(s, t, lo + 1, hi)
    }
}

/// The number of unoccupied spaces of tile `t` with index in `[lo, hi)`.
pub open spec fn count_free_matches(s: Seq<Space>, t: Tile, lo: int, hi: int) -> int
    decreases hi - lo,
{
    if lo >= hi {
        0
    } else {
        (if 0 <= lo < s.len() && s[lo].tile == t && !s[lo].occupied {
            1int
        } else {
            0int
        }) + count_free_matches(s, t, lo + 1, hi)
    }
}

/// Space `i` is where a color scan from `pos` for `m` matches of `t`
/// may stop: an unoccupied match with the magnitude already satisfied,
/// counting every match — occupied or not — ahead of `pos` up to and
/// including `i`.
pub open spec fn qualifies(s: Seq<Space>, pos: int, t: Tile, m: int, i: int) -> bool {
    &&& pos < i < s.len()
    &&& s[i].tile == t
    &&& !s[i].occupied
    &&& count_matches(s, t, pos + 1, i + 1) >= m
}

proof fn lemma_scan_characterized(s: Seq<Space>, i: int, t: Tile, k: int)
    requires
        1 <= k,
        0 <= i,
        count_free_matches(s, t, i, s.len() as int) >= k,
    ensures
        ({
            let land = color_landing(s, i, t, k);
            &&& i <= land < s.len()
            &&& s[land].tile == t
            &&& !s[land].occupied
            &&& count_matches(s, t, i, land + 1) >= k
            &&& forall|j: int|
                i <= j < land ==> !(s[j].tile == t && !s[j].occupied && #[trigger] count_matches(
                    s,
                    t,
                    i,
                    j + 1,
                ) >= k)
        }),
    decreases s.len() - i,
{
    let land = color_landing(s, i, t, k);
    if i >= s.len() {
        // no free matches remain, contradicting the requirement
        assert(count_free_matches(s, t, i, s.len() as int) == 0);
    } else if s[i].tile == t {
        if k <= 1 && !s[i].occupied {
            // land == i; nothing lies before it
            assert(count_matches(s, t, i + 1, i + 1) == 0);
            assert(count_matches(s, t, i, i + 1) == 1);
        } else if k <= 1 {
            lemma_scan_characterized(s, i + 1, t, 1);
            assert forall|j: int|
                i <= j < land implies !(s[j].tile == t && !s[j].occupied
                && #[trigger] count_matches(s, t, i, j + 1) >= k) by {
                if i < j && s[j].tile == t && !s[j].occupied {
                    // j would already have stopped the tail scan
                    lemma_count_matches_split(s, t, i + 1, j, j + 1);
                    lemma_count_matches_nonneg(s, t, i + 1, j);
                    assert(count_matches(s, t, j + 1, j + 1) == 0);
                    assert(count_matches(s, t, j, j + 1) == 1);
                    assert(count_matches(s, t, i + 1, j + 1) >= 1);
                }
            }
        } else {
            lemma_scan_characterized(s, i + 1, t, k - 1);
            assert forall|j: int|
                i <= j < land implies !(s[j].tile == t && !s[j].occupied
                && #[trigger] count_matches(s, t, i, j + 1) >= k) by {
                if i < j {
                    assert(count_matches(s, t, i, j + 1) == 1 + count_matches(s, t, i + 1, j + 1));
                }
            }
        }
    } else {
        lemma_scan_characterized(s, i + 1, t, k);
        assert forall|j: int|
            i <= j < land implies !(s[j].tile == t && !s[j].occupied && #[trigger] count_matches(
                s,
                t,
                i,
                j + 1,
            ) >= k) by {
            if i < j {
                assert(count_matches(s, t, i, j + 1) == count_matches(s, t, i + 1, j + 1));
            }
        }
    }
}

/// A count of matches is never negative.
pub proof fn lemma_count_matches_nonneg(s: Seq<Space>, t: Tile, lo: int, hi: int)
    ensures
        count_matches(s, t, lo, hi) >= 0,
    decreases hi - lo,
{
    if lo < hi {
        lemma_count_matches_nonneg(s, t, lo + 1, hi);
    }
}

/// Counting over `[lo, hi)` splits at any `mid` in between.
pub proof fn lemma_count_matches_split(s: Seq<Space>, t: Tile, lo: int, mid: int, hi: int)
    requires
        lo <= mid <= hi,
    ensures
        count_matches(s, t, lo, hi) == count_matches(s, t, lo, mid) + count_matches(s, t, mid, hi),
    decreases mid - lo,
{
    if lo < mid {
        lemma_count_matches_split(s, t, lo + 1, mid, hi);
    }
}

/// Where at least `magnitude` unoccupied spaces of the card's color
/// lie ahead of `pos`, the resolver lands on the first qualifying
/// space — the first unoccupied match preceded, inclusively and
/// counting occupied matches too, by at least `magnitude` matches
/// ahead of `pos` — and on no earlier space. In particular, when no
/// match ahead is occupied, it lands on exactly the `magnitude`-th
/// match.
pub proof fn lemma_color_card_lands_on_qualifying(s: Seq<Space>, pos: int, c: Card)
    requires
        is_color(c.tile),
        c.num >= 1,
        0 <= pos,
        count_free_matches(s, c.tile, pos + 1, s.len() as int) >= c.num,
    ensures
        qualifies(s, pos, c.tile, c.num as int, landing_index(s, pos, c)),
        forall|j: int|
            pos < j < landing_index(s, pos, c) ==> !qualifies(s, pos, c.tile, c.num as int, j),
{
    lemma_scan_characterized(s, pos + 1, c.tile, c.num as int);
}

/// A special card teleports to the tile's fixed board index, whatever
/// the starting position.
pub proof fn lemma_special_landing_fixed(s: Seq<Space>, pos1: int, pos2: int, c: Card)
    requires
        is_special(c.tile),
    ensures
        landing_index(s, pos1, c) == first_from(s, c.tile, 0),
        landing_index(s, pos1, c) == landing_index(s, pos2, c),
{
}

/// Whether a tile is one of the five teleporting specials.
pub fn tile_is_special(t: Tile) -> (r: bool)
    ensures
        r == is_special(t),
{
    match t {
        Tile::IceCreamCone | Tile::Gumdrop | Tile::Lollipop | Tile::Peppermint
            | Tile::BonBon => true,
        _ => false,
    }
}

/// The index of the first space of tile `t`, which must exist.
pub fn find_first(board: &Vec<Space>, t: Tile) -> (r: usize)
    requires
        has_tile(board@, t),
    ensures
        r as int == first_from(board@, t, 0),
        r < board@.len(),
        board@[r as int].tile == t,
{
    proof {
        lemma_first_from(board@, t, 0);
    }
    let n = board.len();
    let mut i: usize = 0;
    while board[i].tile != t
        invariant
            0 <= i <= first_from(board@, t, 0),
            first_from(board@, t, 0) < board@.len(),
            n == board@.len(),
        decreases board@.len() - i,
    {
        proof {
            lemma_first_from(board@, t, 0);
        }
        i = i + 1;
    }
    proof {
        lemma_first_from(board@, t, 0);
    }
    i
}

/// Resolve one move. The drawn card sends the player from its current
/// space to `landing_index`; the departure space is freed and the
/// landing space marked occupied. If the landing space carries a
/// shortcut, the player's recorded position becomes the shortcut
/// target, while occupancy stays at the space physically landed on.
/// Landing on a sticky space sets the player's stuck flag.
pub fn move_player(board: &mut Vec<Space>, player: &mut Player, card: Card)
    requires
        board_ok(old(board)@),
        old(player).space < old(board)@.len(),
        card_ok(card),
    ensures
        ({
            let s0 = old(board)@;
            let pos = old(player).space as int;
            let land = landing_index(s0, pos, card);
            let s1 = s0.update(pos, with_occupied(s0[pos], false));
            &&& 0 <= land < s0.len()
            &&& final(board)@ == s1.update(land, with_occupied(s1[land], true))
            &&& final(player).order == old(player).order
            &&& final(player).stuck == s0[land].sticky
            &&& (match s0[land].shortcut {
                Some(k) => final(player).space == k,
                None => final(player).space as int == land,
            })
            &&& final(player).space < final(board)@.len()
            &&& final(board)@.len() == s0.len()
            &&& board_ok(final(board)@)
        }),
{
    let ghost s0 = board@;
    let n = board.len();
    let pos = player.space;
    let t = card.tile;
    proof {
        lemma_landing_index_bound(s0, pos as int, card);
    }
    let mut land: usize = 0;
    if tile_is_special(t) {
        land = find_first(board, t);
    } else {
        let mut i: usize = pos + 1;
        let mut k: u32 = card.num;
        proof {
            assert(has_tile(s0, Tile::End)) by {
                assert(s0[s0.len() - 1].tile == Tile::End);
            }
        }
        loop
            invariant_except_break
                board@ == s0,
                board_ok(s0),
                has_tile(s0, Tile::End),
                n == s0.len(),
                pos < s0.len(),
                i >= 1,
                k >= 1,
                color_landing(s0, i as int, t, k as int) == color_landing(
                    s0,
                    pos + 1,
                    t,
                    card.num as int,
                ),
            ensures
                board@ == s0,
                land as int == color_landing(s0, pos + 1, t, card.num as int),
                land < s0.len(),
            decreases s0.len() - i,
        {
            if i >= n {
                land = find_first(board, Tile::End);
                break;
            }
            if board[i].tile == t {
                if k <= 1 {
                    if !board[i].occupied {
                        land = i;
                        break;
                    }
                    k = 1;
                } else {
                    k = k - 1;
                }
            }
            i = i + 1;
        }
    }

    // Free the departure space, then occupy the landing space.
    let mut dep = board[pos];
    dep.occupied = false;
    board[pos] = dep;
    let mut arr = board[land];
    arr.occupied = true;
    board[land] = arr;

    player.space = land;
    player.stuck = arr.sticky;
    match arr.shortcut {
        Some(target) => {
            player.space = target;
        },
        None => {},
    }
    proof {
        crate::board::lemma_board_ok_same_layout(s0, board@);
    }
}

} // verus!
