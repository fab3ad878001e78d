use binbreak::bits::Bits;
use binbreak::game::{get_fps_mode, BinaryNumbersGame, FpsMode};
use binbreak::high_scores::HighScores;
use binbreak::keys::Key;
use binbreak::puzzle::{time_limit, BinaryNumbersPuzzle, GameState, GuessResult};

fn select_answer(g: &mut BinaryNumbersGame) {
    let answer = g.puzzle.current_number;
    for _ in 0..10 {
        if g.puzzle.selected_suggestion == Some(answer) {
            return;
        }
        g.handle_game_input(Key::Right);
    }
    panic!("the answer is not among the suggestions");
}

fn select_wrong(g: &mut BinaryNumbersGame) {
    let answer = g.puzzle.current_number;
    for _ in 0..10 {
        if g.puzzle.selected_suggestion != Some(answer) {
            return;
        }
        g.handle_game_input(Key::Right);
    }
    panic!("no wrong answer among the suggestions");
}

#[test]
fn correct_answer_with_enter_scores_and_reports_new_best() {
    let mut g = BinaryNumbersGame::new(Bits::Eight, HighScores::empty());
    select_answer(&mut g);
    let saved = g.handle_game_input(Key::Enter);
    assert!(saved);
    assert_eq!(g.score, 10);
    assert_eq!(g.streak, 1);
    assert_eq!(g.rounds, 1);
    assert_eq!(g.puzzle.guess_result, Some(GuessResult::Correct));
    assert_eq!(g.game_state, GameState::Result);
    assert_eq!(g.high_scores.get(8), 10);
    assert!(g.new_high_score_reached);
    assert_eq!(g.prev_high_score_for_display, 0);
}

#[test]
fn streak_bonus_adds_two_points_per_earlier_answer() {
    let mut g = BinaryNumbersGame::new(Bits::Four, HighScores::empty());
    g.streak = 3;
    g.score = 100;
    g.puzzle.guess_result = Some(GuessResult::Correct);
    g.finalize_round();
    assert_eq!(g.streak, 4);
    assert_eq!(g.puzzle.last_points_awarded, 16);
    assert_eq!(g.score, 116);
    assert_eq!(g.max_streak, 4);
}

#[test]
fn no_extra_life_beyond_the_maximum() {
    let mut g = BinaryNumbersGame::new(Bits::Four, HighScores::empty());
    g.streak = 9;
    g.puzzle.guess_result = Some(GuessResult::Correct);
    g.finalize_round();
    assert_eq!(g.streak, 10);
    assert_eq!(g.lives, 3);
}

#[test]
fn wrong_answer_with_enter_costs_a_life() {
    let mut g = BinaryNumbersGame::new(Bits::Four, HighScores::empty());
    select_wrong(&mut g);
    let saved = g.handle_game_input(Key::Enter);
    assert!(!saved);
    assert_eq!(g.lives, 2);
    assert_eq!(g.streak, 0);
    assert_eq!(g.puzzle.guess_result, Some(GuessResult::Incorrect));
    assert_eq!(g.puzzle.last_points_awarded, 0);
}

#[test]
fn skip_key_counts_as_timeout() {
    let mut g = BinaryNumbersGame::new(Bits::Four, HighScores::empty());
    g.streak = 2;
    g.handle_game_input(Key::Char('S'));
    assert_eq!(g.puzzle.guess_result, Some(GuessResult::Timeout));
    assert_eq!(g.lives, 2);
    assert_eq!(g.streak, 0);
    assert_eq!(g.rounds, 1);
}

#[test]
fn exit_keys_ask_to_leave() {
    let mut g = BinaryNumbersGame::new(Bits::Four, HighScores::empty());
    assert!(!g.is_exit_intended());
    g.handle_game_input(Key::Char('q'));
    assert!(g.is_exit_intended());
    let mut g2 = BinaryNumbersGame::new(Bits::Four, HighScores::empty());
    g2.handle_game_input(Key::Esc);
    assert!(g2.exit_intended);
}

#[test]
fn right_then_left_returns_to_the_selection() {
    let mut g = BinaryNumbersGame::new(Bits::Sixteen, HighScores::empty());
    for _ in 0..8 {
        let before = g.puzzle.selected_suggestion;
        g.handle_game_input(Key::Char('l'));
        g.handle_game_input(Key::Char('h'));
        assert_eq!(g.puzzle.selected_suggestion, before);
        g.handle_game_input(Key::Right);
    }
}

#[test]
fn right_wraps_around_the_suggestions() {
    let mut g = BinaryNumbersGame::new(Bits::Twelve, HighScores::empty());
    let first = g.puzzle.suggestions[0];
    assert_eq!(g.puzzle.selected_suggestion, Some(first));
    for _ in 0..5 {
        g.handle_game_input(Key::Right);
    }
    assert_eq!(g.puzzle.selected_suggestion, Some(first));
    g.handle_game_input(Key::Left);
    assert_eq!(g.puzzle.selected_suggestion, Some(g.puzzle.suggestions[4]));
}

#[test]
fn right_without_selection_picks_the_first() {
    let mut g = BinaryNumbersGame::new(Bits::Four, HighScores::empty());
    g.puzzle.selected_suggestion = None;
    g.handle_game_input(Key::Left);
    assert_eq!(g.puzzle.selected_suggestion, None);
    g.handle_game_input(Key::Enter);
    assert_eq!(g.puzzle.guess_result, None);
    g.handle_game_input(Key::Right);
    assert_eq!(g.puzzle.selected_suggestion, Some(g.puzzle.suggestions[0]));
}

#[test]
fn enter_moves_on_to_the_next_puzzle() {
    let mut g = BinaryNumbersGame::new(Bits::Four, HighScores::empty());
    select_answer(&mut g);
    g.handle_game_input(Key::Enter);
    assert_eq!(g.game_state, GameState::Result);
    g.handle_game_input(Key::Enter);
    assert_eq!(g.game_state, GameState::Active);
    assert!(!g.puzzle_resolved);
    assert_eq!(g.puzzle.guess_result, None);
    assert_eq!(g.puzzle.time_total, 7500);
    assert_eq!(g.puzzle.time_left, 7500);
    assert_eq!(g.score, 10);
}

#[test]
fn last_life_leads_to_summary_and_restart() {
    let mut g = BinaryNumbersGame::new(Bits::Four, HighScores::empty());
    g.lives = 1;
    g.handle_game_input(Key::Char('s'));
    assert_eq!(g.game_state, GameState::PendingGameOver);
    assert_eq!(get_fps_mode(&g), FpsMode::Performance);
    g.handle_game_input(Key::Enter);
    assert_eq!(g.game_state, GameState::GameOver);
    g.handle_game_input(Key::Right);
    assert_eq!(g.game_state, GameState::GameOver);
    g.handle_game_input(Key::Enter);
    assert_eq!(g.game_state, GameState::Active);
    assert_eq!(g.lives, 3);
    assert_eq!(g.rounds, 0);
    assert_eq!(g.score, 0);
    assert_eq!(get_fps_mode(&g), FpsMode::RealTime);
    let snap = g.puzzle.stats_snapshot.as_ref().unwrap();
    assert_eq!(snap.lives, 3);
    assert_eq!(snap.game_state, GameState::Active);
}

#[test]
fn clock_runs_out_during_play() {
    let mut g = BinaryNumbersGame::new(Bits::Four, HighScores::empty());
    assert!(!g.run(3000)); // the first tick is skipped
    assert_eq!(g.puzzle.time_left, 8000);
    g.run(3000);
    assert_eq!(g.puzzle.time_left, 5000);
    assert_eq!(g.game_state, GameState::Active);
    g.run(6000);
    assert_eq!(g.puzzle.time_left, 0);
    assert_eq!(g.puzzle.guess_result, Some(GuessResult::Timeout));
    assert_eq!(g.game_state, GameState::Result);
    assert_eq!(g.lives, 2);
    let snap = g.puzzle.stats_snapshot.as_ref().unwrap();
    assert_eq!(snap.lives, 2);
    assert_eq!(snap.hearts, "♥♥·");
    assert_eq!(snap.rounds, 1);
}

#[test]
fn summary_screen_freezes_the_clock() {
    let mut g = BinaryNumbersGame::new(Bits::Four, HighScores::empty());
    g.lives = 1;
    g.handle_game_input(Key::Char('s'));
    g.handle_game_input(Key::Enter);
    let rounds = g.rounds;
    g.run(100000);
    assert_eq!(g.game_state, GameState::GameOver);
    assert_eq!(g.rounds, rounds);
}

#[test]
fn best_score_shown_is_the_table_s() {
    let mut table = HighScores::empty();
    table.update(44, 70);
    let g = BinaryNumbersGame::new(Bits::FourShift4, table);
    assert_eq!(g.prev_high_score_for_display, 70);
    assert_eq!(g.lives, 3);
    let snap = g.puzzle.stats_snapshot.as_ref().unwrap();
    assert_eq!(snap.prev_high_score, 70);
    assert_eq!(snap.bits, Bits::FourShift4);
}

#[test]
fn score_below_the_best_leaves_the_table_alone() {
    let mut table = HighScores::empty();
    table.update(4, 500);
    let mut g = BinaryNumbersGame::new(Bits::Four, table);
    g.puzzle.guess_result = Some(GuessResult::Correct);
    assert!(!g.finalize_round());
    assert!(!g.new_high_score_reached);
    assert_eq!(g.high_scores.get(4), 500);
}

#[test]
fn lives_start_at_most_three() {
    let g = BinaryNumbersGame::new_with_max_lives(Bits::Four, 5, HighScores::empty());
    assert_eq!(g.lives, 3);
    assert_eq!(g.lives_hearts(), "♥♥♥··");
    let g2 = BinaryNumbersGame::new_with_max_lives(Bits::Four, 2, HighScores::empty());
    assert_eq!(g2.lives, 2);
    assert_eq!(g2.lives_hearts(), "♥♥");
}

#[test]
fn time_given_shrinks_with_the_streak() {
    assert_eq!(time_limit(Bits::Four, 0), 8000);
    assert_eq!(time_limit(Bits::Four, 5), 5500);
    assert_eq!(time_limit(Bits::Four, 10), 5000);
    assert_eq!(time_limit(Bits::Sixteen, 2), 19000);
    assert_eq!(time_limit(Bits::Twelve, u32::MAX), 5000);
    let p = BinaryNumbersPuzzle::new(Bits::Eight, 4);
    assert_eq!(p.time_total, 10000);
}

#[test]
fn two_s_complement_puzzles_use_raw_patterns() {
    let p = BinaryNumbersPuzzle::new(Bits::FourTwosComplement, 0);
    assert_eq!(p.suggestions().len(), 3);
    for &s in p.suggestions() {
        assert!(s < 16);
    }
    assert_eq!(p.raw_current_number, p.current_number);
    assert_eq!(p.selected_suggestion, Some(p.suggestions()[0]));
}

#[test]
fn sixteen_bit_puzzles_stay_in_range() {
    for _ in 0..20 {
        let p = BinaryNumbersPuzzle::new(Bits::Sixteen, 0);
        let mut sorted = p.suggestions().to_vec();
        sorted.sort_unstable();
        sorted.dedup();
        assert_eq!(sorted.len(), 6);
        assert!(p.suggestions().iter().all(|&s| s <= 65535));
        assert!(p.is_correct_guess(p.current_number));
        for &s in p.suggestions() {
            assert_eq!(p.is_correct_guess(s), s == p.current_number);
        }
    }
}

#[test]
fn shifted_mode_binary_string_shows_raw_bits() {
    let mut p = BinaryNumbersPuzzle::new(Bits::FourShift12, 0);
    p.raw_current_number = 9;
    assert_eq!(p.current_to_binary_string(), "1001");
    let mut p16 = BinaryNumbersPuzzle::new(Bits::Sixteen, 0);
    p16.raw_current_number = 0xABCD;
    assert_eq!(p16.current_to_binary_string(), "1010 1011 1100 1101");
    let mut p4 = BinaryNumbersPuzzle::new(Bits::Four, 0);
    p4.raw_current_number = 300;
    assert_eq!(p4.current_to_binary_string(), "1001 0110 0");
}

#[test]
fn counters_near_the_limit_are_refused_only_where_they_would_overflow() {
    let mut g = BinaryNumbersGame::new(Bits::Four, HighScores::empty());
    g.score = u32::MAX - 5;
    assert!(!g.result_fits(GuessResult::Correct));
    assert!(g.result_fits(GuessResult::Incorrect));
    assert!(g.can_take_key(Key::Left));
    assert!(g.can_take_key(Key::Char('s')));
    let answer = g.puzzle.current_number;
    g.puzzle.selected_suggestion = Some(answer);
    assert!(!g.can_take_key(Key::Enter));
    g.rounds = u32::MAX;
    assert!(!g.can_take_key(Key::Char('S')));
    assert!(g.can_take_key(Key::Esc));
    assert!(g.can_take_tick(1));
    g.puzzle.skip_first_dt = false;
    assert!(g.can_take_tick(1));
    assert!(!g.can_take_tick(g.puzzle.time_left));
}

#[test]
fn moving_right_needs_a_suggestion_only_without_a_selection() {
    let mut g = BinaryNumbersGame::new(Bits::Four, HighScores::empty());
    g.puzzle.suggestions.clear();
    assert!(g.can_take_key(Key::Right));
    g.handle_game_input(Key::Right);
    g.puzzle.selected_suggestion = None;
    assert!(!g.can_take_key(Key::Right));
    assert!(g.can_take_key(Key::Left));
}

#[test]
fn status_and_best_score_texts() {
    let mut g = BinaryNumbersGame::new(Bits::Four, HighScores::empty());
    assert_eq!(g.puzzle.status_lines(), None);
    g.streak = 2;
    g.puzzle.guess_result = Some(GuessResult::Correct);
    g.finalize_round();
    assert_eq!(
        g.puzzle.status_lines(),
        Some((":) success".to_string(), "gained 14 points".to_string()))
    );
    g.run(0);
    let snap = g.puzzle.stats_snapshot.as_ref().unwrap();
    assert_eq!(snap.hi_score_label(), "Hi-Score: 14*  ");
    let mut g2 = BinaryNumbersGame::new(Bits::Four, HighScores::empty());
    g2.puzzle.guess_result = Some(GuessResult::Timeout);
    g2.finalize_round();
    assert_eq!(
        g2.puzzle.status_lines(),
        Some((":( time's up".to_string(), "timeout".to_string()))
    );
    g2.puzzle.guess_result = Some(GuessResult::Incorrect);
    assert_eq!(
        g2.puzzle.status_lines(),
        Some((":( incorrect".to_string(), "lost a life".to_string()))
    );
    let mut table = HighScores::empty();
    table.update(4, 250);
    let g3 = BinaryNumbersGame::new(Bits::Four, table);
    assert_eq!(g3.puzzle.stats_snapshot.as_ref().unwrap().hi_score_label(), "Hi-Score: 250  ");
}
