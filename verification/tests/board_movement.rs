use candy_land::{get_board, move_player, Card, Player, Tile};

#[test]
fn board_shape() {
    let b = get_board();
    assert_eq!(b.len(), 84);
    assert_eq!(b[0].tile, Tile::Start);
    assert_eq!(b[83].tile, Tile::End);
    assert_eq!(b[21].tile, Tile::Peppermint);
    assert_eq!(b[33].tile, Tile::Gumdrop);
    assert_eq!(b[44].tile, Tile::BonBon);
    assert_eq!(b[52].tile, Tile::Lollipop);
    assert_eq!(b[67].tile, Tile::IceCreamCone);
    assert_eq!(b[4].shortcut, Some(36));
    assert_eq!(b[12].shortcut, Some(18));
    assert!(b[27].sticky);
    assert!(b[54].sticky);
    for s in &b {
        assert!(!s.occupied);
    }
}

#[test]
fn board_unique_tiles() {
    let b = get_board();
    for unique in [
        Tile::Start,
        Tile::End,
        Tile::IceCreamCone,
        Tile::Gumdrop,
        Tile::Lollipop,
        Tile::Peppermint,
        Tile::BonBon,
    ] {
        let n = b.iter().filter(|s| s.tile == unique).count();
        assert_eq!(n, 1);
    }
}

#[test]
fn special_teleport_ignores_position() {
    for start in [0usize, 10, 50, 80] {
        let mut board = get_board();
        let mut pl = Player { order: 1, space: start, stuck: false };
        move_player(&mut board, &mut pl, Card { tile: Tile::Peppermint, num: 1 });
        assert_eq!(pl.space, 21);
        assert!(board[21].occupied);
    }
}

#[test]
fn color_advance_single_and_double() {
    let mut board = get_board();
    let mut pl = Player { order: 1, space: 0, stuck: false };
    move_player(&mut board, &mut pl, Card { tile: Tile::Red, num: 1 });
    assert_eq!(pl.space, 1);

    let mut board = get_board();
    let mut pl = Player { order: 1, space: 0, stuck: false };
    move_player(&mut board, &mut pl, Card { tile: Tile::Red, num: 2 });
    assert_eq!(pl.space, 7);
}

#[test]
fn occupied_final_match_is_skipped() {
    let mut board = get_board();
    board[1].occupied = true;
    let mut pl = Player { order: 1, space: 0, stuck: false };
    move_player(&mut board, &mut pl, Card { tile: Tile::Red, num: 1 });
    assert_eq!(pl.space, 7);
    // the occupied space that was passed over keeps its occupant
    assert!(board[1].occupied);
    assert!(board[7].occupied);
}

#[test]
fn occupied_intermediate_match_still_counts() {
    let mut board = get_board();
    board[1].occupied = true;
    let mut pl = Player { order: 1, space: 0, stuck: false };
    // the first Red (occupied) still counts toward the magnitude;
    // the second Red is free, so the move stops there
    move_player(&mut board, &mut pl, Card { tile: Tile::Red, num: 2 });
    assert_eq!(pl.space, 7);
}

#[test]
fn occupied_second_match_pushes_to_third() {
    let mut board = get_board();
    board[7].occupied = true;
    let mut pl = Player { order: 1, space: 0, stuck: false };
    // magnitude reached at the occupied second Red: scan on to the third
    move_player(&mut board, &mut pl, Card { tile: Tile::Red, num: 2 });
    assert_eq!(pl.space, 13);
}

#[test]
fn overshoot_lands_on_end() {
    let mut board = get_board();
    let mut pl = Player { order: 1, space: 77, stuck: false };
    // no two Reds remain ahead of 77: the move ends on the End space
    move_player(&mut board, &mut pl, Card { tile: Tile::Red, num: 2 });
    assert_eq!(pl.space, 83);
}

#[test]
fn shortcut_redirects_position_not_occupancy() {
    let mut board = get_board();
    let mut pl = Player { order: 1, space: 0, stuck: false };
    move_player(&mut board, &mut pl, Card { tile: Tile::Blue, num: 1 });
    assert_eq!(pl.space, 36);
    assert!(board[4].occupied);
    assert!(!board[36].occupied);
}

#[test]
fn sticky_landing_sets_stuck() {
    let mut board = get_board();
    let mut pl = Player { order: 1, space: 26, stuck: false };
    move_player(&mut board, &mut pl, Card { tile: Tile::Purple, num: 1 });
    assert_eq!(pl.space, 27);
    assert!(pl.stuck);
}

#[test]
fn two_players_never_share_a_color_space() {
    let mut board = get_board();
    let mut p1 = Player { order: 1, space: 0, stuck: false };
    let mut p2 = Player { order: 2, space: 0, stuck: false };
    move_player(&mut board, &mut p1, Card { tile: Tile::Red, num: 1 });
    move_player(&mut board, &mut p2, Card { tile: Tile::Red, num: 1 });
    assert_eq!(p1.space, 1);
    assert_eq!(p2.space, 7);
}

#[test]
fn departure_space_is_freed() {
    let mut board = get_board();
    board[1].occupied = true;
    let mut pl = Player { order: 1, space: 1, stuck: false };
    move_player(&mut board, &mut pl, Card { tile: Tile::Red, num: 1 });
    assert_eq!(pl.space, 7);
    assert!(!board[1].occupied);
    assert!(board[7].occupied);
}
