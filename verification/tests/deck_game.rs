use candy_land::{
    calculate, get_infinite_two_person_deck, make_deck, play, skip_if_stuck, write_deck, Card,
    Player, PlayerCount, Tile,
};

fn count(deck: &[Card], tile: Tile, num: u32) -> usize {
    deck.iter().filter(|c| c.tile == tile && c.num == num).count()
}

#[test]
fn deck_has_forty_four_cards() {
    assert_eq!(make_deck().len(), 44);
}

#[test]
fn deck_composition() {
    let d = make_deck();
    // three copies of each nine-block card
    for (t, n) in [
        (Tile::Red, 1),
        (Tile::Blue, 1),
        (Tile::Purple, 1),
        (Tile::Red, 2),
        (Tile::Orange, 2),
        (Tile::Yellow, 2),
        (Tile::Green, 2),
        (Tile::Blue, 2),
        (Tile::Purple, 2),
    ] {
        assert_eq!(count(&d, t, n), 3);
    }
    // four copies of each three-block card
    for (t, n) in [(Tile::Orange, 1), (Tile::Yellow, 1), (Tile::Green, 1)] {
        assert_eq!(count(&d, t, n), 4);
    }
    // one copy of each special card
    for t in [
        Tile::IceCreamCone,
        Tile::Gumdrop,
        Tile::Lollipop,
        Tile::Peppermint,
        Tile::BonBon,
    ] {
        assert_eq!(count(&d, t, 1), 1);
    }
}

#[test]
fn encode_red_one_blue_two() {
    let d = vec![
        Card { tile: Tile::Red, num: 1 },
        Card { tile: Tile::Blue, num: 2 },
    ];
    assert_eq!(write_deck(&d), "rB");
}

#[test]
fn encode_canonical_deck() {
    assert_eq!(
        write_deck(&make_deck()),
        "rbpROYGBPrbpROYGBPrbpROYGBPoygoygoygoygIULEN"
    );
}

#[test]
fn encode_specials_ignore_magnitude_case() {
    let d = vec![
        Card { tile: Tile::IceCreamCone, num: 1 },
        Card { tile: Tile::Gumdrop, num: 1 },
        Card { tile: Tile::Lollipop, num: 1 },
        Card { tile: Tile::Peppermint, num: 1 },
        Card { tile: Tile::BonBon, num: 1 },
    ];
    assert_eq!(write_deck(&d), "IULEN");
}

#[test]
fn encode_boundary_tile_gives_sentinel() {
    let d = vec![Card { tile: Tile::Start, num: 1 }];
    assert_eq!(write_deck(&d), "ERROR");
}

#[test]
fn infinite_deck_shape() {
    let d = get_infinite_two_person_deck();
    assert_eq!(d.len(), 44);
    assert_eq!(d[0].tile, Tile::Peppermint);
    assert_eq!(d[43].tile, Tile::Red);
    assert_eq!(d[43].num, 2);
}

#[test]
fn player_count_values() {
    assert_eq!(PlayerCount::Two.value(), 2);
    assert_eq!(PlayerCount::Three.value(), 3);
    assert_eq!(PlayerCount::Four.value(), 4);
}

#[test]
fn stuck_player_skips_exactly_once() {
    let mut pl = Player { order: 1, space: 5, stuck: true };
    assert!(skip_if_stuck(&mut pl));
    assert!(!pl.stuck);
    assert_eq!(pl.space, 5);
    assert_eq!(pl.order, 1);
    // the next turn is played normally
    assert!(!skip_if_stuck(&mut pl));
    assert!(!pl.stuck);
}

#[test]
fn random_game_finishes_with_a_winner() {
    let stats = play(&PlayerCount::Two, None);
    assert!(!stats.infinite);
    assert!(stats.winner == 1 || stats.winner == 2);
    assert!(stats.turns >= 1);
}

#[test]
fn fixed_deck_game_is_deterministic() {
    let a = play(&PlayerCount::Two, Some(make_deck()));
    let b = play(&PlayerCount::Two, Some(make_deck()));
    assert_eq!(a.infinite, b.infinite);
    assert_eq!(a.winner, b.winner);
    assert_eq!(a.turns, b.turns);
}

#[test]
fn fixed_deck_is_reported_infinite() {
    let stats = play(&PlayerCount::Two, Some(get_infinite_two_person_deck()));
    assert!(stats.infinite);
    assert_eq!(stats.winner, 0);
    assert_eq!(stats.turns, 0);
}

#[test]
fn infinite_deck_aborts_the_batch() {
    let r = calculate(PlayerCount::Two, 5, Some(get_infinite_two_person_deck()));
    assert!(r.is_none());
}

#[test]
fn thousand_game_batch_completes() {
    let r = calculate(PlayerCount::Two, 1000, None);
    let s = r.expect("a batch of shuffled decks completes");
    assert_eq!(s.turns.len(), 1000);
    assert_eq!(s.winners.len(), 2);
    assert_eq!(s.winners.iter().map(|w| *w as u64).sum::<u64>(), 1000);
}

#[test]
fn empty_batch_completes() {
    let r = calculate(PlayerCount::Three, 0, None);
    let s = r.expect("an empty batch completes");
    assert!(s.turns.is_empty());
    assert_eq!(s.winners, vec![0, 0, 0]);
}
