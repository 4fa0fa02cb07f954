//! The game loop: turn scheduling with stuck-turn skipping, deck
//! exhaustion and reshuffling, the infinite-loop guard for fixed
//! decks, and aggregation of results over a batch of games.

use vstd::prelude::*;
use crate::{Card, Player, PlayerCount};
use crate::board::{Space, board_ok, get_board, spec_board, with_occupied};
use crate::deck::{deck_ok, lemma_deck_ok_multiset, make_deck, shuffle_cards};
use crate::movement::{landing_index, move_player};

verus! {

/// The outcome of one game: how many player-turns elapsed and who
/// won, or a report that the game cannot finish.
pub struct Stats {
    pub turns: u32,
    pub winner: u32,
    pub infinite: bool,
}

/// Results gathered across a batch of games: the turn count of each
/// completed game, and one win tally per player.
pub struct Summary {
    pub turns: Vec<u32>,
    pub winners: Vec<u32>,
}

/// The total number of wins a tally records.
pub open spec fn sum_wins(s: Seq<u32>) -> int
    decreases s.len(),
{
    if s.len() == 0 {
        0
    } else {
        sum_wins(s.drop_last()) + s.last()
    }
}

/// A tally's total is never negative.
pub proof fn lemma_sum_wins_nonneg(s: Seq<u32>)
    ensures
        sum_wins(s) >= 0,
    decreases s.len(),
{
    if s.len() > 0 {
        lemma_sum_wins_nonneg(s.drop_last());
    }
}

/// An all-zero tally totals zero.
pub proof fn lemma_sum_wins_zero(s: Seq<u32>)
    requires
        forall|i: int| 0 <= i < s.len() ==> s[i] == 0,
    ensures
        sum_wins(s) == 0,
    decreases s.len(),
{
    if s.len() > 0 {
        lemma_sum_wins_zero(s.drop_last());
    }
}

/// No single entry exceeds the tally's total.
pub proof fn lemma_sum_wins_elem(s: Seq<u32>, i: int)
    requires
        0 <= i < s.len(),
    ensures
        s[i] <= sum_wins(s),
    decreases s.len(),
{
    if i == s.len() - 1 {
        lemma_sum_wins_nonneg(s.drop_last());
    } else {
        lemma_sum_wins_elem(s.drop_last(), i);
    }
}

/// Raising one entry raises the total by the same amount.
pub proof fn lemma_sum_wins_update(s: Seq<u32>, i: int, v: u32)
    requires
        0 <= i < s.len(),
    ensures
        sum_wins(s.update(i, v)) == sum_wins(s) - s[i] + v,
    decreases s.len(),
{
    if i == s.len() - 1 {
        assert(s.update(i, v).drop_last() =~= s.drop_last());
    } else {
        assert(s.update(i, v).drop_last() =~= s.drop_last().update(i, v));
        lemma_sum_wins_update(s.drop_last(), i, v);
    }
}

/// Begin a player's turn: a player whose stuck flag is set forfeits
/// this turn — drawing nothing and not moving — and the flag is
/// cleared, so only one turn is ever forfeited per sticky landing.
pub fn skip_if_stuck(player: &mut Player) -> (skipped: bool)
    ensures
        skipped == old(player).stuck,
        final(player).stuck == false,
        final(player).space == old(player).space,
        final(player).order == old(player).order,
{
    let r = player.stuck;
    player.stuck = false;
    r
}

/// How many players currently hold a stuck flag.
pub open spec fn count_stuck(ps: Seq<Player>) -> int
    decreases ps.len(),
{
    if ps.len() == 0 {
        0
    } else {
        count_stuck(ps.drop_last()) + (if ps.last().stuck {
            1int
        } else {
            0int
        })
    }
}

/// A stuck count is never negative.
pub proof fn lemma_count_stuck_nonneg(ps: Seq<Player>)
    ensures
        count_stuck(ps) >= 0,
    decreases ps.len(),
{
    if ps.len() > 0 {
        lemma_count_stuck_nonneg(ps.drop_last());
    }
}

/// Replacing one player changes the stuck count by the flags' difference.
pub proof fn lemma_count_stuck_update(ps: Seq<Player>, i: int, pl: Player)
    requires
        0 <= i < ps.len(),
    ensures
        count_stuck(ps.update(i, pl)) == count_stuck(ps) - (if ps[i].stuck {
            1int
        } else {
            0int
        }) + (if pl.stuck {
            1int
        } else {
            0int
        }),
    decreases ps.len(),
{
    if i == ps.len() - 1 {
        assert(ps.update(i, pl).drop_last() =~= ps.drop_last());
    } else {
        assert(ps.update(i, pl).drop_last() =~= ps.drop_last().update(i, pl));
        lemma_count_stuck_update(ps.drop_last(), i, pl);
    }
}

/// The players as a game begins: in seating order, all on `Start`,
/// none stuck.
pub open spec fn spec_initial_players(count: int) -> Seq<Player> {
    Seq::new(count as nat, |i: int| Player { order: (i + 1) as u32, space: 0, stuck: false })
}

/// One player-turn of a fixed-deck game, continued until a win or the
/// reshuffle guard. The state is the board, the players, whose turn
/// it is, the position of the next card, how often the deck has been
/// rebuilt, and the turns elapsed. A stuck player forfeits the turn;
/// otherwise the front card is drawn — rebuilding the exhausted deck
/// verbatim, and giving the game up as infinite on the third rebuild
/// — and resolved exactly as `move_player` does.
pub open spec fn spec_fixed_game_from(
    board: Seq<Space>,
    players: Seq<Player>,
    deck: Seq<Card>,
    idx: int,
    cursor: int,
    reshuffles: u32,
    turns: u32,
) -> Stats
    decreases 3 - reshuffles, deck.len() - cursor, count_stuck(players),
        via spec_fixed_game_from_decreases
{
    if !(0 <= idx < players.len()) || deck.len() == 0 || !(0 <= cursor <= deck.len())
        || reshuffles >= 3 {
        Stats { turns: 0, winner: 0, infinite: true }
    } else {
        let turns1 = if turns < u32::MAX {
            (turns + 1) as u32
        } else {
            turns
        };
        let next = if idx + 1 >= players.len() {
            0int
        } else {
            idx + 1
        };
        let pl = players[idx];
        if pl.stuck {
            let ps1 = players.update(idx, Player { order: pl.order, space: pl.space, stuck: false });
            spec_fixed_game_from(board, ps1, deck, next, cursor, reshuffles, turns1)
        } else {
            let resh1 = if cursor >= deck.len() {
                if reshuffles < u32::MAX {
                    (reshuffles + 1) as u32
                } else {
                    reshuffles
                }
            } else {
                reshuffles
            };
            if cursor >= deck.len() && resh1 >= 3 {
                Stats { turns: 0, winner: 0, infinite: true }
            } else {
                let cur0 = if cursor >= deck.len() {
                    0int
                } else {
                    cursor
                };
                let c = deck[cur0];
                let pos = pl.space as int;
                let land = landing_index(board, pos, c);
                let b1 = board.update(pos, with_occupied(board[pos], false));
                let b2 = b1.update(land, with_occupied(b1[land], true));
                let space2 = match board[land].shortcut {
                    Some(k) => k,
                    None => land as usize,
                };
                let pl2 = Player { order: pl.order, space: space2, stuck: board[land].sticky };
                if pl2.space == board.len() - 1 {
                    Stats { turns: turns1, winner: pl.order, infinite: false }
                } else {
                    spec_fixed_game_from(b2, players.update(idx, pl2), deck, next, cur0 + 1, resh1, turns1)
                }
            }
        }
    }
}

#[via_fn]
proof fn spec_fixed_game_from_decreases(
    board: Seq<Space>,
    players: Seq<Player>,
    deck: Seq<Card>,
    idx: int,
    cursor: int,
    reshuffles: u32,
    turns: u32,
) {
    lemma_count_stuck_nonneg(players);
    if 0 <= idx < players.len() {
        let pl = players[idx];
        if pl.stuck {
            let cleared = Player { order: pl.order, space: pl.space, stuck: false };
            lemma_count_stuck_update(players, idx, cleared);
            lemma_count_stuck_nonneg(players.update(idx, cleared));
        }
    }
}

/// The outcome of one whole game played with `count` players and the
/// caller-fixed deck `deck`, replayed verbatim on exhaustion and
/// given up as infinite on the third rebuild: the fixed-deck game is
/// a deterministic function of its inputs.
pub open spec fn spec_fixed_game(count: u32, deck: Seq<Card>) -> Stats {
    spec_fixed_game_from(spec_board(), spec_initial_players(count as int), deck, 0, 0, 0, 0)
}

/// Play one game. With `deck` absent, a freshly shuffled canonical
/// deck is used and reshuffled whenever exhausted; the game then runs
/// until some player wins. With a caller-fixed `deck`, the game is
/// the deterministic one that `spec_fixed_game` describes: the same
/// ordering is replayed verbatim on exhaustion, and a game that runs
/// through it three times without a win is abandoned as infinite.
/// A game that somehow outlasted the turn counter's range would be
/// abandoned the same way rather than let the counter overflow.
#[verifier::loop_isolation(false)]
pub fn play(p: &PlayerCount, deck: Option<Vec<Card>>) -> (r: Stats)
    requires
        (deck matches Some(d) ==> deck_ok(d@) && d@.len() >= 1),
    ensures
        !r.infinite ==> 1 <= r.winner <= p.spec_value() && r.turns >= 1,
        r.infinite ==> r.winner == 0 && r.turns == 0,
        (deck matches Some(d) ==> r == spec_fixed_game(p.spec_value(), d@)),
{
    let count = p.value();
    let ghost fixed: bool = deck is Some;
    let ghost d_in: Seq<Card> = match &deck {
        Some(v) => v@,
        None => Seq::empty(),
    };
    let ghost goal: Stats = spec_fixed_game(count, d_in);

    let mut players: Vec<Player> = Vec::new();
    let mut i: u32 = 0;
    while i < count
        invariant
            i <= count,
            players@.len() == i,
            forall|j: int|
                0 <= j < players@.len() ==> (#[trigger] players@[j]) == (Player {
                    order: (j + 1) as u32,
                    space: 0,
                    stuck: false,
                }),
        decreases count - i,
    {
        players.push(Player { order: i + 1, space: 0, stuck: false });
        i = i + 1;
    }
    proof {
        assert(players@ =~= spec_initial_players(count as int));
    }

    let allow_reshuffle = deck.is_none();
    let mut d: Vec<Card> = match deck {
        Some(v) => v,
        None => make_deck(),
    };
    if allow_reshuffle {
        let ghost d1 = d@;
        shuffle_cards(&mut d);
        proof {
            lemma_deck_ok_multiset(d1, d@);
        }
    }

    let mut board = get_board();
    proof {
        crate::board::lemma_board_fixture_ok();
    }
    let n = board.len();
    let mut idx: usize = 0;
    let mut cursor: usize = 0;
    let mut reshuffles: u32 = 0;
    let mut num_turns: u32 = 0;
    let mut winner: u32 = 0;
    let mut player_won = false;

    while !player_won && (!allow_reshuffle || num_turns < u32::MAX)
        invariant
            board_ok(board@),
            board@.len() == n,
            players@.len() == count,
            forall|j: int|
                0 <= j < players@.len() ==> (#[trigger] players@[j]).space < board@.len()
                    && players@[j].order == j + 1,
            deck_ok(d@),
            d@.len() >= 1,
            cursor <= d@.len(),
            idx < players@.len(),
            fixed ==> d@ == d_in,
            fixed ==> reshuffles <= 2,
            fixed && !player_won ==> goal == spec_fixed_game_from(
                board@,
                players@,
                d@,
                idx as int,
                cursor as int,
                reshuffles,
                num_turns,
            ),
            fixed && player_won ==> goal == (Stats {
                turns: num_turns,
                winner: winner,
                infinite: false,
            }),
            player_won ==> 1 <= winner <= count && num_turns >= 1,
        decreases (if allow_reshuffle {
            u32::MAX - num_turns
        } else {
            3 - (reshuffles as int)
        }), (if allow_reshuffle {
            0int
        } else {
            d@.len() - cursor
        }), (if allow_reshuffle {
            0int
        } else {
            count_stuck(players@)
        }),
    {
        let ghost b_pre = board@;
        let ghost ps_pre = players@;
        let ghost dseq = d@;
        let ghost cur_pre = cursor as int;
        let ghost resh_pre = reshuffles;
        let ghost turns_pre = num_turns;
        let ghost idx_pre = idx as int;
        num_turns = if num_turns < u32::MAX {
            num_turns + 1
        } else {
            num_turns
        };
        let mut pl = players[idx];
        if skip_if_stuck(&mut pl) {
            players[idx] = pl;
            proof {
                lemma_count_stuck_update(ps_pre, idx_pre, pl);
                lemma_count_stuck_nonneg(players@);
                if fixed {
                    // one spec turn: the stuck player forfeits it
                    assert(spec_fixed_game_from(
                        b_pre,
                        ps_pre,
                        dseq,
                        idx_pre,
                        cur_pre,
                        resh_pre,
                        turns_pre,
                    ) == spec_fixed_game_from(
                        board@,
                        players@,
                        d@,
                        (if idx_pre + 1 >= ps_pre.len() {
                            0int
                        } else {
                            idx_pre + 1
                        }),
                        cur_pre,
                        resh_pre,
                        num_turns,
                    ));
                }
            }
            idx = if idx + 1 >= players.len() {
                0
            } else {
                idx + 1
            };
        } else {
            if cursor >= d.len() {
                // the deck ran out: rebuild it, counting reshuffles
                reshuffles = if reshuffles < u32::MAX {
                    reshuffles + 1
                } else {
                    reshuffles
                };
                if reshuffles >= 3 && !allow_reshuffle {
                    // a fixed deck dealt three times over without a win
                    // repeats forever
                    proof {
                        assert(spec_fixed_game_from(
                            b_pre,
                            ps_pre,
                            dseq,
                            idx_pre,
                            cur_pre,
                            resh_pre,
                            turns_pre,
                        ) == (Stats { turns: 0, winner: 0, infinite: true }));
                    }
                    return Stats { turns: 0, winner: 0, infinite: true };
                }
                if allow_reshuffle {
                    let ghost d1 = d@;
                    shuffle_cards(&mut d);
                    proof {
                        lemma_deck_ok_multiset(d1, d@);
                    }
                }
                cursor = 0;
            }
            let c = d[cursor];
            cursor = cursor + 1;
            move_player(&mut board, &mut pl, c);
            players[idx] = pl;
            proof {
                lemma_count_stuck_nonneg(players@);
            }
            if pl.space == n - 1 {
                winner = pl.order;
                player_won = true;
                proof {
                    if fixed {
                        // the spec run ends on the same turn, with the
                        // same winner and turn count
                        assert(spec_fixed_game_from(
                            b_pre,
                            ps_pre,
                            dseq,
                            idx_pre,
                            cur_pre,
                            resh_pre,
                            turns_pre,
                        ) == (Stats { turns: num_turns, winner: winner, infinite: false }));
                    }
                }
            } else {
                proof {
                    if fixed {
                        // one spec turn: the drawn card is resolved
                        assert(spec_fixed_game_from(
                            b_pre,
                            ps_pre,
                            dseq,
                            idx_pre,
                            cur_pre,
                            resh_pre,
                            turns_pre,
                        ) == spec_fixed_game_from(
                            board@,
                            players@,
                            d@,
                            (if idx_pre + 1 >= ps_pre.len() {
                                0int
                            } else {
                                idx_pre + 1
                            }),
                            cursor as int,
                            reshuffles,
                            num_turns,
                        ));
                    }
                }
                idx = if idx + 1 >= players.len() {
                    0
                } else {
                    idx + 1
                };
            }
        }
    }
    if player_won {
        Stats { turns: num_turns, winner, infinite: false }
    } else {
        // the turn counter's whole range elapsed without a win
        Stats { turns: 0, winner: 0, infinite: true }
    }
}

/// Run `num_games` independent games and gather their statistics.
/// The whole batch is abandoned — `None` — as soon as one game is
/// reported infinite: with a caller-fixed deck the same deck would
/// loop identically in every later game, so for such a deck the
/// batch is abandoned exactly when `spec_fixed_game` is infinite. A
/// completed batch records one turn count per game, and its win
/// tallies total `num_games`.
pub fn calculate(p: PlayerCount, num_games: u32, deck: Option<Vec<Card>>) -> (r: Option<Summary>)
    requires
        (deck matches Some(d) ==> deck_ok(d@) && d@.len() >= 1),
    ensures
        (r matches Some(s) ==> {
            &&& s.winners@.len() == p.spec_value()
            &&& s.turns@.len() == num_games
            &&& sum_wins(s.winners@) == num_games
        }),
        (deck matches Some(d) ==> ((r is None) <==> (num_games >= 1 && spec_fixed_game(
            p.spec_value(),
            d@,
        ).infinite))),
{
    let count = p.value();
    let mut turns: Vec<u32> = Vec::new();
    let mut winners: Vec<u32> = vec![0u32; count as usize];
    proof {
        lemma_sum_wins_zero(winners@);
    }
    let mut g: u32 = 0;
    while g < num_games
        invariant
            g <= num_games,
            count == p.spec_value(),
            winners@.len() == count,
            turns@.len() == g,
            sum_wins(winners@) == g,
            (deck matches Some(d) ==> deck_ok(d@) && d@.len() >= 1),
            g > 0 ==> (deck matches Some(d) ==> !spec_fixed_game(p.spec_value(), d@).infinite),
        decreases num_games - g,
    {
        let game_deck: Option<Vec<Card>> = match &deck {
            Some(v) => {
                let w = v.clone();
                proof {
                    assert(w@ =~= v@);
                }
                Some(w)
            },
            None => None,
        };
        let stats = play(&p, game_deck);
        if stats.infinite {
            return None;
        }
        turns.push(stats.turns);
        let widx = (stats.winner - 1) as usize;
        let cur = winners[widx];
        proof {
            lemma_sum_wins_elem(winners@, widx as int);
            lemma_sum_wins_update(winners@, widx as int, (cur + 1) as u32);
        }
        winners[widx] = cur + 1;
        g = g + 1;
    }
    Some(Summary { turns, winners })
}

} // verus!
