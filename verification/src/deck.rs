//! The card deck: canonical construction, a fixed diagnostic deck,
//! shuffling, and the one-letter-per-card diagnostic encoding.

use vstd::prelude::*;
use vstd::string::StringExecFns;
use rand::prelude::SliceRandom;
use crate::{Card, Tile, card_ok};

verus! {

/// A card literal.
pub open spec fn card(t: Tile, n: u32) -> Card {
    Card { tile: t, num: n }
}

/// Every card of the deck is one the movement resolver accepts.
pub open spec fn deck_ok(s: Seq<Card>) -> bool {
    forall|i: int| 0 <= i < s.len() ==> card_ok(#[trigger] s[i])
}

/// The block of nine color cards that the canonical deck holds three
/// copies of.
pub open spec fn deck_nine_block() -> Seq<Card> {
    seq![
        card(Tile::Red, 1),
        card(Tile::Blue, 1),
        card(Tile::Purple, 1),
        card(Tile::Red, 2),
        card(Tile::Orange, 2),
        card(Tile::Yellow, 2),
        card(Tile::Green, 2),
        card(Tile::Blue, 2),
        card(Tile::Purple, 2),
    ]
}

/// The block of three color cards that the canonical deck holds four
/// copies of.
pub open spec fn deck_three_block() -> Seq<Card> {
    seq![card(Tile::Orange, 1), card(Tile::Yellow, 1), card(Tile::Green, 1)]
}

/// The five special cards, one each.
pub open spec fn deck_special_block() -> Seq<Card> {
    seq![
        card(Tile::IceCreamCone, 1),
        card(Tile::Gumdrop, 1),
        card(Tile::Lollipop, 1),
        card(Tile::Peppermint, 1),
        card(Tile::BonBon, 1),
    ]
}

/// The canonical deck in generation order: three nine-blocks, four
/// three-blocks, then the five specials.
pub open spec fn spec_deck() -> Seq<Card> {
    deck_nine_block() + deck_nine_block() + deck_nine_block() + deck_three_block()
        + deck_three_block() + deck_three_block() + deck_three_block() + deck_special_block()
}

fn push_card(c: &mut Vec<Card>, t: Tile, n: u32)
    ensures
        final(c)@ == old(c)@.push(card(t, n)),
{
    c.push(Card { tile: t, num: n });
}

/// Push one copy of the nine-block onto `c`.
fn push_nine_block(c: &mut Vec<Card>)
    ensures
        final(c)@ == old(c)@ + deck_nine_block(),
{
    let ghost c0 = c@;
    push_card(c, Tile::Red, 1);
    push_card(c, Tile::Blue, 1);
    push_card(c, Tile::Purple, 1);
    push_card(c, Tile::Red, 2);
    push_card(c, Tile::Orange, 2);
    push_card(c, Tile::Yellow, 2);
    push_card(c, Tile::Green, 2);
    push_card(c, Tile::Blue, 2);
    push_card(c, Tile::Purple, 2);
    proof {
        assert(c@ =~= c0 + deck_nine_block());
    }
}

/// Push one copy of the three-block onto `c`.
fn push_three_block(c: &mut Vec<Card>)
    ensures
        final(c)@ == old(c)@ + deck_three_block(),
{
    let ghost c0 = c@;
    push_card(c, Tile::Orange, 1);
    push_card(c, Tile::Yellow, 1);
    push_card(c, Tile::Green, 1);
    proof {
        assert(c@ =~= c0 + deck_three_block());
    }
}

/// Build the canonical deck, unshuffled, in its fixed generation order.
pub fn make_deck() -> (r: Vec<Card>)
    ensures
        r@ == spec_deck(),
        deck_ok(r@),
        r@.len() == 44,
{
    let mut c: Vec<Card> = Vec::new();
    push_nine_block(&mut c);
    push_nine_block(&mut c);
    push_nine_block(&mut c);
    push_three_block(&mut c);
    push_three_block(&mut c);
    push_three_block(&mut c);
    push_three_block(&mut c);
    push_card(&mut c, Tile::IceCreamCone, 1);
    push_card(&mut c, Tile::Gumdrop, 1);
    push_card(&mut c, Tile::Lollipop, 1);
    push_card(&mut c, Tile::Peppermint, 1);
    push_card(&mut c, Tile::BonBon, 1);
    proof {
        assert(c@ =~= spec_deck());
        lemma_spec_deck_ok();
    }
    c
}

/// The canonical deck consists only of accepted cards.
pub proof fn lemma_spec_deck_ok()
    ensures
        deck_ok(spec_deck()),
        spec_deck().len() == 44,
{
}

/// A fixed 44-card ordering that, dealt verbatim to two players
/// without shuffling, never reaches the `End` space: it exercises the
/// game loop's infinite-loop guard.
pub open spec fn spec_infinite_two_person_deck() -> Seq<Card> {
    seq![
        card(Tile::Peppermint, 1),
        card(Tile::Gumdrop, 1),
        card(Tile::Yellow, 1),
        card(Tile::Purple, 1),
        card(Tile::Blue, 1),
        card(Tile::Yellow, 1),
        card(Tile::Orange, 1),
        card(Tile::Blue, 1),
        card(Tile::Green, 1),
        card(Tile::Orange, 1),
        card(Tile::Red, 1),
        card(Tile::Green, 1),
        card(Tile::Purple, 1),
        card(Tile::Red, 2),
        card(Tile::Purple, 1),
        card(Tile::Yellow, 1),
        card(Tile::Yellow, 1),
        card(Tile::Blue, 1),
        card(Tile::Blue, 2),
        card(Tile::Orange, 2),
        card(Tile::Orange, 2),
        card(Tile::Red, 2),
        card(Tile::Purple, 2),
        card(Tile::Purple, 2),
        card(Tile::Yellow, 2),
        card(Tile::Yellow, 2),
        card(Tile::BonBon, 1),
        card(Tile::Orange, 1),
        card(Tile::Green, 2),
        card(Tile::Green, 2),
        card(Tile::Red, 1),
        card(Tile::Orange, 1),
        card(Tile::Purple, 2),
        card(Tile::Green, 2),
        card(Tile::Yellow, 2),
        card(Tile::Lollipop, 1),
        card(Tile::Green, 1),
        card(Tile::Blue, 2),
        card(Tile::Red, 1),
        card(Tile::Orange, 2),
        card(Tile::IceCreamCone, 1),
        card(Tile::Green, 1),
        card(Tile::Blue, 2),
        card(Tile::Red, 2),
    ]
}

/// Build the fixed ordering of `spec_infinite_two_person_deck`.
#[verifier::rlimit(60)]
pub fn get_infinite_two_person_deck() -> (r: Vec<Card>)
    ensures
        r@ == spec_infinite_two_person_deck(),
        deck_ok(r@),
        r@.len() == 44,
{
    let mut c: Vec<Card> = Vec::new();
    push_card(&mut c, Tile::Peppermint, 1);
    push_card(&mut c, Tile::Gumdrop, 1);
    push_card(&mut c, Tile::Yellow, 1);
    push_card(&mut c, Tile::Purple, 1);
    push_card(&mut c, Tile::Blue, 1);
    push_card(&mut c, Tile::Yellow, 1);
    push_card(&mut c, Tile::Orange, 1);
    push_card(&mut c, Tile::Blue, 1);
    push_card(&mut c, Tile::Green, 1);
    push_card(&mut c, Tile::Orange, 1);
    push_card(&mut c, Tile::Red, 1);
    push_card(&mut c, Tile::Green, 1);
    push_card(&mut c, Tile::Purple, 1);
    push_card(&mut c, Tile::Red, 2);
    push_card(&mut c, Tile::Purple, 1);
    push_card(&mut c, Tile::Yellow, 1);
    push_card(&mut c, Tile::Yellow, 1);
    push_card(&mut c, Tile::Blue, 1);
    push_card(&mut c, Tile::Blue, 2);
    push_card(&mut c, Tile::Orange, 2);
    push_card(&mut c, Tile::Orange, 2);
    push_card(&mut c, Tile::Red, 2);
    push_card(&mut c, Tile::Purple, 2);
    push_card(&mut c, Tile::Purple, 2);
    push_card(&mut c, Tile::Yellow, 2);
    push_card(&mut c, Tile::Yellow, 2);
    push_card(&mut c, Tile::BonBon, 1);
    push_card(&mut c, Tile::Orange, 1);
    push_card(&mut c, Tile::Green, 2);
    push_card(&mut c, Tile::Green, 2);
    push_card(&mut c, Tile::Red, 1);
    push_card(&mut c, Tile::Orange, 1);
    push_card(&mut c, Tile::Purple, 2);
    push_card(&mut c, Tile::Green, 2);
    push_card(&mut c, Tile::Yellow, 2);
    push_card(&mut c, Tile::Lollipop, 1);
    push_card(&mut c, Tile::Green, 1);
    push_card(&mut c, Tile::Blue, 2);
    push_card(&mut c, Tile::Red, 1);
    push_card(&mut c, Tile::Orange, 2);
    push_card(&mut c, Tile::IceCreamCone, 1);
    push_card(&mut c, Tile::Green, 1);
    push_card(&mut c, Tile::Blue, 2);
    push_card(&mut c, Tile::Red, 2);
    c
}

/// How many cards equal to `c` the sequence holds.
pub open spec fn count_card(s: Seq<Card>, c: Card) -> int
    decreases s.len(),
{
    if s.len() == 0 {
        0
    } else {
        count_card(s.drop_last(), c) + (if s.last() == c {
            1int
        } else {
            0int
        })
    }
}

/// Counting cards distributes over concatenation.
pub proof fn lemma_count_card_split(a: Seq<Card>, b: Seq<Card>, c: Card)
    ensures
        count_card(a + b, c) == count_card(a, c) + count_card(b, c),
    decreases b.len(),
{
    if b.len() == 0 {
        assert(a + b =~= a);
    } else {
        assert((a + b).drop_last() =~= a + b.drop_last());
        lemma_count_card_split(a, b.drop_last(), c);
    }
}

/// The canonical deck's composition: 44 cards in all — 27 from three
/// copies of the nine-block, 12 from four copies of the three-block,
/// and the 5 specials — so each nine-block card occurs three times,
/// each three-block card four times, and each special card once.
pub proof fn lemma_deck_composition()
    ensures
        spec_deck().len() == 44,
        deck_nine_block().len() == 9,
        deck_three_block().len() == 3,
        deck_special_block().len() == 5,
        forall|c: Card| #[trigger]
            count_card(spec_deck(), c) == 3 * count_card(deck_nine_block(), c) + 4 * count_card(
                deck_three_block(),
                c,
            ) + count_card(deck_special_block(), c),
{
    assert forall|c: Card| #[trigger]
        count_card(spec_deck(), c) == 3 * count_card(deck_nine_block(), c) + 4 * count_card(
            deck_three_block(),
            c,
        ) + count_card(deck_special_block(), c) by {
        let n = deck_nine_block();
        let t = deck_three_block();
        let sp = deck_special_block();
        lemma_count_card_split(n, n, c);
        lemma_count_card_split(n + n, n, c);
        lemma_count_card_split(n + n + n, t, c);
        lemma_count_card_split(n + n + n + t, t, c);
        lemma_count_card_split(n + n + n + t + t, t, c);
        lemma_count_card_split(n + n + n + t + t + t, t, c);
        lemma_count_card_split(n + n + n + t + t + t + t, sp, c);
    }
}

/// Relies on rand's `SliceRandom::shuffle` (a Fisher-Yates shuffle of
/// in-place swaps driven by `rand::thread_rng`): it permutes the
/// slice, so the cards are rearranged but none is added or dropped.
#[verifier::external_body]
pub(crate) fn shuffle_cards(cards: &mut Vec<Card>)
    ensures
        final(cards)@.to_multiset() == old(cards)@.to_multiset(),
        final(cards)@.len() == old(cards)@.len(),
{
    cards.shuffle(&mut rand::thread_rng());
}

/// The diagnostic encoding of one card: color cards map to their
/// fixed letter, lower-case for magnitude 1 and upper-case for
/// magnitude 2 or more; special cards map to fixed upper-case
/// letters; a boundary tile — which no well-formed deck holds — maps
/// to a sentinel error token.
pub open spec fn encode_card(c: Card) -> Seq<char> {
    match c.tile {
        Tile::Red => if c.num > 1 {
            seq!['R']
        } else {
            seq!['r']
        },
        Tile::Orange => if c.num > 1 {
            seq!['O']
        } else {
            seq!['o']
        },
        Tile::Yellow => if c.num > 1 {
            seq!['Y']
        } else {
            seq!['y']
        },
        Tile::Green => if c.num > 1 {
            seq!['G']
        } else {
            seq!['g']
        },
        Tile::Blue => if c.num > 1 {
            seq!['B']
        } else {
            seq!['b']
        },
        Tile::Purple => if c.num > 1 {
            seq!['P']
        } else {
            seq!['p']
        },
        Tile::IceCreamCone => seq!['I'],
        Tile::Gumdrop => seq!['U'],
        Tile::Lollipop => seq!['L'],
        Tile::Peppermint => seq!['E'],
        Tile::BonBon => seq!['N'],
        Tile::Start | Tile::End => seq!['E', 'R', 'R', 'O', 'R'],
    }
}

/// The diagnostic encoding of a whole deck: the cards' encodings in
/// deck order.
pub open spec fn encode_deck(s: Seq<Card>) -> Seq<char>
    decreases s.len(),
{
    if s.len() == 0 {
        Seq::empty()
    } else {
        encode_deck(s.drop_last()) + encode_card(s.last())
    }
}

/// The letter (or sentinel token) for one card.
fn card_code(c: Card) -> (r: &'static str)
    ensures
        r@ == encode_card(c),
{
    proof {
        reveal_strlit("r");
        reveal_strlit("R");
        reveal_strlit("o");
        reveal_strlit("O");
        reveal_strlit("y");
        reveal_strlit("Y");
        reveal_strlit("g");
        reveal_strlit("G");
        reveal_strlit("b");
        reveal_strlit("B");
        reveal_strlit("p");
        reveal_strlit("P");
        reveal_strlit("I");
        reveal_strlit("U");
        reveal_strlit("L");
        reveal_strlit("E");
        reveal_strlit("N");
        reveal_strlit("ERROR");
        assert("r"@ =~= seq!['r']);
        assert("R"@ =~= seq!['R']);
        assert("o"@ =~= seq!['o']);
        assert("O"@ =~= seq!['O']);
        assert("y"@ =~= seq!['y']);
        assert("Y"@ =~= seq!['Y']);
        assert("g"@ =~= seq!['g']);
        assert("G"@ =~= seq!['G']);
        assert("b"@ =~= seq!['b']);
        assert("B"@ =~= seq!['B']);
        assert("p"@ =~= seq!['p']);
        assert("P"@ =~= seq!['P']);
        assert("I"@ =~= seq!['I']);
        assert("U"@ =~= seq!['U']);
        assert("L"@ =~= seq!['L']);
        assert("E"@ =~= seq!['E']);
        assert("N"@ =~= seq!['N']);
        assert("ERROR"@ =~= seq!['E', 'R', 'R', 'O', 'R']);
    }
    match c.tile {
        Tile::Red => if c.num > 1 {
            "R"
        } else {
            "r"
        },
        Tile::Orange => if c.num > 1 {
            "O"
        } else {
            "o"
        },
        Tile::Yellow => if c.num > 1 {
            "Y"
        } else {
            "y"
        },
        Tile::Green => if c.num > 1 {
            "G"
        } else {
            "g"
        },
        Tile::Blue => if c.num > 1 {
            "B"
        } else {
            "b"
        },
        Tile::Purple => if c.num > 1 {
            "P"
        } else {
            "p"
        },
        Tile::IceCreamCone => "I",
        Tile::Gumdrop => "U",
        Tile::Lollipop => "L",
        Tile::Peppermint => "E",
        Tile::BonBon => "N",
        Tile::Start | Tile::End => "ERROR",
    }
}

/// Encode a deck for diagnostics, one letter per card.
pub fn write_deck(cards: &Vec<Card>) -> (r: String)
    ensures
        r@ == encode_deck(cards@),
{
    let mut s = String::new();
    let mut i: usize = 0;
    while i < cards.len()
        invariant
            i <= cards@.len(),
            s@ == encode_deck(cards@.take(i as int)),
        decreases cards@.len() - i,
    {
        let piece = card_code(cards[i]);
        s.append(piece);
        proof {
            assert(cards@.take(i + 1).drop_last() =~= cards@.take(i as int));
            assert(cards@.take(i + 1).last() == cards@[i as int]);
        }
        i = i + 1;
    }
    proof {
        assert(cards@.take(cards@.len() as int) =~= cards@);
    }
    s
}

/// A permutation of an accepted deck is an accepted deck.
pub proof fn lemma_deck_ok_multiset(a: Seq<Card>, b: Seq<Card>)
    requires
        deck_ok(a),
        a.to_multiset() == b.to_multiset(),
    ensures
        deck_ok(b),
{
    assert forall|i: int| 0 <= i < b.len() implies card_ok(#[trigger] b[i]) by {
        a.to_multiset_ensures();
        b.to_multiset_ensures();
        assert(b.contains(b[i]));
        assert(a.to_multiset().count(b[i]) > 0);
        assert(a.contains(b[i]));
        let j = choose|j: int| 0 <= j < a.len() && a[j] == b[i];
        assert(card_ok(a[j]));
    }
}

} // verus!
