use wwb::{
    next_directive, roll_d6, save_game, Directive, Game, Outcome, Player, SavePlan, BOARD_SIZE,
    LUCKY_ROLL, PLAYER_COUNT,
};

fn game(turn_count: u128, first: (u16, u16), second: (u16, u16)) -> Game {
    Game {
        turn_count,
        players: [
            Player { current_space: first.0, high_score: first.1 },
            Player { current_space: second.0, high_score: second.1 },
        ],
    }
}

#[test]
fn constants_are_those_of_the_board() {
    assert_eq!(PLAYER_COUNT, 2);
    assert_eq!(BOARD_SIZE, 100);
    assert_eq!(LUCKY_ROLL, 5);
}

#[test]
fn a_fresh_game_is_all_zero() {
    assert_eq!(Game::default(), game(0, (0, 0), (0, 0)));
    assert_eq!(Player::default(), Player { current_space: 0, high_score: 0 });
}

#[test]
fn odd_turns_belong_to_player_one_and_even_turns_to_player_zero() {
    let mut g = Game::default();
    let first = g.resolve_turn(1, 1);
    assert_eq!((first.turn, first.player), (1, 1));
    let second = g.resolve_turn(1, 1);
    assert_eq!((second.turn, second.player), (2, 0));
    let third = g.resolve_turn(1, 1);
    assert_eq!((third.turn, third.player), (3, 1));
}

#[test]
fn two_fives_move_the_player_one_space() {
    // Player 0 acts on even turns.
    let mut g = game(1, (0, 0), (0, 0));
    assert!(g.awaits_second_roll(5));
    let report = g.resolve_turn(5, 5);
    assert_eq!(g, game(2, (1, 1), (0, 0)));
    assert_eq!(report.player, 0);
    assert_eq!(report.turn, 2);
    assert_eq!(report.outcome, Outcome::Stayed);
    assert_eq!(report.landing, Some(1));
    assert_eq!(report.space, 1);
    // The new best space asks for a save of the game as it stood then.
    assert_eq!(report.checkpoint, Some(game(2, (0, 1), (0, 0))));
}

#[test]
fn two_fives_on_the_first_turn_move_player_one() {
    let mut g = Game::default();
    let report = g.resolve_turn(5, 5);
    assert_eq!(g, game(1, (0, 0), (1, 1)));
    assert_eq!(report.player, 1);
    assert_eq!(report.outcome, Outcome::Stayed);
    assert_eq!(report.space, 1);
    assert_eq!(report.checkpoint, Some(game(1, (0, 0), (0, 1))));
}

#[test]
fn a_five_and_a_three_send_the_player_back() {
    let mut g = game(1, (0, 0), (0, 0));
    assert!(g.awaits_second_roll(5));
    let report = g.resolve_turn(5, 3);
    assert_eq!(g, game(2, (0, 1), (0, 0)));
    assert_eq!(report.outcome, Outcome::SentBack);
    assert_eq!(report.landing, Some(1));
    assert_eq!(report.space, 0);
    assert_eq!(report.checkpoint, Some(game(2, (0, 1), (0, 0))));
}

#[test]
fn a_player_sent_back_from_far_out_keeps_the_best_space() {
    let mut g = game(1, (41, 60), (7, 7));
    let report = g.resolve_turn(5, 6);
    assert_eq!(g, game(2, (0, 60), (7, 7)));
    assert_eq!(report.outcome, Outcome::SentBack);
    assert_eq!(report.checkpoint, None);
}

#[test]
fn a_collision_sends_both_players_back_and_skips_the_second_roll() {
    let mut g = game(1, (4, 9), (5, 5));
    assert!(!g.awaits_second_roll(5));
    // The second roll is a five, and still nobody keeps a space.
    let report = g.resolve_turn(5, 5);
    assert_eq!(g, game(2, (0, 9), (0, 5)));
    assert_eq!(report.player, 0);
    assert_eq!(report.outcome, Outcome::Collided);
    assert_eq!(report.landing, Some(5));
    assert_eq!(report.space, 0);
    assert_eq!(report.checkpoint, None);
}

#[test]
fn a_collision_on_a_new_best_space_still_asks_for_a_save() {
    let mut g = game(2, (5, 5), (4, 4));
    let report = g.resolve_turn(5, 1);
    assert_eq!(report.player, 1);
    assert_eq!(report.outcome, Outcome::Collided);
    assert_eq!(g, game(3, (0, 5), (0, 5)));
    assert_eq!(report.checkpoint, Some(game(3, (5, 5), (4, 5))));
}

#[test]
fn players_share_the_start_without_a_collision() {
    let mut g = game(1, (0, 3), (0, 3));
    let report = g.resolve_turn(5, 2);
    assert_eq!(report.outcome, Outcome::SentBack);
    assert_eq!(g, game(2, (0, 3), (0, 3)));
    let report = g.resolve_turn(5, 5);
    assert_eq!(report.outcome, Outcome::Stayed);
    assert_eq!(g, game(3, (0, 3), (1, 3)));
}

#[test]
fn a_player_behind_the_other_does_not_collide() {
    let mut g = game(1, (2, 2), (5, 5));
    let report = g.resolve_turn(5, 5);
    assert_eq!(report.outcome, Outcome::Stayed);
    assert_eq!(g, game(2, (3, 3), (5, 5)));
}

#[test]
fn a_step_past_the_last_space_wins_and_changes_no_position() {
    let mut g = game(7, (BOARD_SIZE, BOARD_SIZE), (3, 40));
    assert!(!g.awaits_second_roll(5));
    let report = g.resolve_turn(5, 5);
    assert_eq!(report.player, 0);
    assert_eq!(report.turn, 8);
    assert_eq!(report.outcome, Outcome::Won);
    assert_eq!(report.landing, Some(BOARD_SIZE + 1));
    assert_eq!(report.space, BOARD_SIZE);
    assert_eq!(report.checkpoint, None);
    assert_eq!(g, game(8, (BOARD_SIZE, BOARD_SIZE), (3, 40)));
    assert_eq!(next_directive(report.outcome, false), Directive::Finish);
}

#[test]
fn the_last_space_can_be_reached_and_kept() {
    let mut g = game(1, (99, 99), (0, 0));
    let report = g.resolve_turn(5, 5);
    assert_eq!(report.outcome, Outcome::Stayed);
    assert_eq!(g, game(2, (100, 100), (0, 0)));
    assert_eq!(report.checkpoint, Some(game(2, (99, 100), (0, 0))));
}

#[test]
fn any_roll_but_a_five_only_counts_the_turn() {
    for roll in [0u8, 1, 2, 3, 4, 6, 7, 255] {
        let mut g = game(4, (17, 30), (8, 8));
        assert!(!g.awaits_second_roll(roll));
        let report = g.resolve_turn(roll, 5);
        assert_eq!(g, game(5, (17, 30), (8, 8)));
        assert_eq!(report.player, 1);
        assert_eq!(report.turn, 5);
        assert_eq!(report.outcome, Outcome::Passed);
        assert_eq!(report.landing, None);
        assert_eq!(report.space, 8);
        assert_eq!(report.checkpoint, None);
    }
}

#[test]
fn a_space_below_the_best_space_asks_for_no_save() {
    let mut g = game(1, (2, 10), (0, 0));
    let report = g.resolve_turn(5, 5);
    assert_eq!(g, game(2, (3, 10), (0, 0)));
    assert_eq!(report.checkpoint, None);
}

#[test]
fn a_turn_needs_room_in_the_counter_and_on_the_space() {
    assert!(Game::default().can_play());
    assert!(game(u128::MAX - 1, (100, 100), (100, 100)).can_play());
    assert!(!game(u128::MAX, (0, 0), (0, 0)).can_play());
    // Player 0 acts next and has no room; player 1 would have had some.
    assert!(!game(1, (u16::MAX, 0), (0, 0)).can_play());
    assert!(game(2, (u16::MAX, 0), (0, 0)).can_play());
    assert!(game(1, (u16::MAX - 1, 0), (0, 0)).can_play());
}

#[test]
fn a_huge_turn_count_is_counted_on() {
    let mut g = game(u128::MAX - 1, (3, 3), (4, 4));
    let report = g.resolve_turn(2, 2);
    assert_eq!(report.turn, u128::MAX);
    assert_eq!(report.player, 1);
    assert_eq!(g, game(u128::MAX, (3, 3), (4, 4)));
}

#[test]
fn a_shutdown_is_honoured_after_the_turn_by_one_last_save() {
    let mut g = game(1, (0, 0), (0, 0));
    let report = g.resolve_turn(5, 5);
    assert_eq!(next_directive(report.outcome, true), Directive::SaveAndExit);
    match save_game(&g, "race.sav") {
        SavePlan::Write(bytes) => assert_eq!(bytes, vec![2, 1, 1, 0, 0]),
        other => panic!("expected bytes to write, got {:?}", other),
    }
    // Without a save file the game stops all the same, and nothing is written.
    assert_eq!(save_game(&g, ""), SavePlan::Skip);
}

#[test]
fn the_next_step_depends_on_the_outcome_and_the_shutdown_flag() {
    for outcome in [Outcome::Passed, Outcome::Collided, Outcome::Stayed, Outcome::SentBack] {
        assert_eq!(next_directive(outcome, false), Directive::Continue);
        assert_eq!(next_directive(outcome, true), Directive::SaveAndExit);
    }
    assert_eq!(next_directive(Outcome::Won, false), Directive::Finish);
    assert_eq!(next_directive(Outcome::Won, true), Directive::Finish);
}

#[test]
fn the_die_shows_every_face_from_one_to_six_and_no_other() {
    let mut seen = [false; 7];
    for _ in 0..10_000 {
        let roll = roll_d6();
        assert!((1..=6).contains(&roll));
        seen[roll as usize] = true;
    }
    assert_eq!(seen, [false, true, true, true, true, true, true]);
}

#[test]
fn every_turn_is_counted_once() {
    let mut g = Game::default();
    for n in 1..=5_000u128 {
        let report = g.take_turn();
        assert_eq!(g.turn_count, n);
        assert_eq!(report.turn, n);
        assert_eq!(report.player as u128, n % 2);
        if report.outcome == Outcome::Won {
            break;
        }
    }
}

#[test]
fn players_stay_on_the_board_in_a_long_game() {
    let mut g = game(0, (97, 97), (98, 99));
    for _ in 0..20_000 {
        let report = g.take_turn();
        for player in g.players.iter() {
            assert!(player.current_space <= BOARD_SIZE);
            assert!(player.high_score <= BOARD_SIZE);
        }
        assert!(report.space <= BOARD_SIZE);
        if report.outcome == Outcome::Won {
            assert_eq!(g.players[report.player].current_space, BOARD_SIZE);
            break;
        }
    }
}

#[test]
fn a_rolled_turn_follows_the_rules_of_some_pair_of_rolls() {
    let mut seen_stay = false;
    let mut seen_back = false;
    let mut seen_pass = false;
    for _ in 0..5_000 {
        let before = game(1, (3, 8), (9, 9));
        let mut g = before;
        let report = g.take_turn();
        let mut matched = false;
        for first in 1..=6u8 {
            for second in 1..=6u8 {
                let mut expected = before;
                let expected_report = expected.resolve_turn(first, second);
                if expected == g && expected_report == report {
                    matched = true;
                }
            }
        }
        assert!(matched);
        match report.outcome {
            Outcome::Stayed => seen_stay = true,
            Outcome::SentBack => seen_back = true,
            Outcome::Passed => seen_pass = true,
            other => panic!("no such outcome from here: {:?}", other),
        }
    }
    assert!(seen_stay && seen_back && seen_pass);
}

#[test]
fn after_a_collision_everyone_involved_is_at_the_start() {
    let mut collisions = 0;
    for _ in 0..20_000 {
        let before = game(2, (6, 6), (5, 5));
        let mut g = before;
        let report = g.take_turn();
        if report.outcome == Outcome::Collided {
            collisions += 1;
            assert_eq!(report.player, 1);
            assert_eq!(g.players[0].current_space, 0);
            assert_eq!(g.players[1].current_space, 0);
            assert_eq!(report.space, 0);
        } else {
            assert_eq!(report.outcome, Outcome::Passed);
            assert_eq!(g.players, before.players);
        }
    }
    assert!(collisions > 0);
}

#[test]
fn a_best_space_never_falls_and_is_the_highest_space_reached() {
    let mut g = Game::default();
    let mut peak = [0u16; PLAYER_COUNT];
    for _ in 0..50_000 {
        let before = g;
        let report = g.take_turn();
        if matches!(report.outcome, Outcome::Collided | Outcome::Stayed | Outcome::SentBack) {
            let landing = before.players[report.player].current_space + 1;
            assert_eq!(report.landing, Some(landing));
            if landing > peak[report.player] {
                peak[report.player] = landing;
                assert!(report.checkpoint.is_some());
            } else {
                assert!(report.checkpoint.is_none());
            }
        }
        for i in 0..PLAYER_COUNT {
            assert!(g.players[i].high_score >= before.players[i].high_score);
            assert!(g.players[i].high_score >= g.players[i].current_space);
            assert_eq!(g.players[i].high_score, peak[i]);
        }
        if report.outcome == Outcome::Won {
            break;
        }
    }
    assert!(peak[0] > 0 && peak[1] > 0);
}
