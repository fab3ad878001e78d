//! The game: rounds, score, streak, lives, high scores and the keys that
//! drive it.
use crate::bits::Bits;
use crate::high_scores::{score_of, HighScores};
use crate::keys::{
    is_exit, is_left, is_right, is_select, spec_is_exit, spec_is_left, spec_is_right,
    spec_is_select, Key,
};
use crate::puzzle::{BinaryNumbersPuzzle, GameState, GuessResult, StatsSnapshot};
use crate::text::{push_repeated, repeated};
use vstd::prelude::*;

verus! {

/// A game in progress. The high-score table is handed in by the caller,
/// which also writes it back when a round reports that it changed.
pub struct BinaryNumbersGame {
    pub puzzle: BinaryNumbersPuzzle,
    pub bits: Bits,
    pub exit_intended: bool,
    pub score: u32,
    pub streak: u32,
    pub rounds: u32,
    pub puzzle_resolved: bool,
    pub lives: u32,
    pub max_lives: u32,
    pub game_state: GameState,
    pub max_streak: u32,
    pub high_scores: HighScores,
    pub prev_high_score_for_display: u32,
    pub new_high_score_reached: bool,
}

/// Hearts for the lives left, then dots for the lives lost.
pub open spec fn hearts(lives: u32, max_lives: u32) -> Seq<char> {
    let full = if lives < max_lives { lives } else { max_lives };
    let empty = if max_lives > lives { max_lives - lives } else { 0 };
    repeated('\u{2665}', full as nat) + repeated('\u{b7}', empty as nat)
}

/// Points for a correct answer that brings the streak to `streak`
/// (at least 1): ten, and two more for every earlier answer of the streak.
pub open spec fn points_for(streak: nat) -> nat {
    (10 + 2 * (streak - 1)) as nat
}

/// The answer that moves the selection one place to the right, wrapping
/// around; with nothing selected, the first suggestion.
pub open spec fn select_right(s: Seq<u32>, selected: Option<u32>) -> Option<u32> {
    match selected {
        Some(x) => match s.index_of_first(x) {
            Some(i) => Some(s[(i + 1) % (s.len() as int)]),
            None => selected,
        },
        None => Some(s[0]),
    }
}

/// The answer that moves the selection one place to the left, wrapping
/// around; with nothing selected, nothing.
pub open spec fn select_left(s: Seq<u32>, selected: Option<u32>) -> Option<u32> {
    match selected {
        Some(x) => match s.index_of_first(x) {
            Some(i) => Some(s[if i == 0 { s.len() - 1 } else { i - 1 }]),
            None => selected,
        },
        None => None,
    }
}

/// The puzzle parts that no key, tick or round result touches.
pub open spec fn puzzle_kept(a: &BinaryNumbersPuzzle, b: &BinaryNumbersPuzzle) -> bool {
    &&& b.bits == a.bits
    &&& b.current_number == a.current_number
    &&& b.raw_current_number == a.raw_current_number
    &&& b.suggestions@ == a.suggestions@
    &&& b.selected_suggestion == a.selected_suggestion
    &&& b.time_total == a.time_total
}

impl BinaryNumbersGame {
    /// The figures the display shows, as `s` holds them.
    pub open spec fn shows(&self, s: StatsSnapshot) -> bool {
        &&& s.score == self.score
        &&& s.streak == self.streak
        &&& s.max_streak == self.max_streak
        &&& s.rounds == self.rounds
        &&& s.lives == self.lives
        &&& s.bits == self.bits
        &&& s.hearts@ == hearts(self.lives, self.max_lives)
        &&& s.game_state == self.game_state
        &&& s.prev_high_score == self.prev_high_score_for_display
        &&& s.new_high_score == self.new_high_score_reached
    }

    /// The puzzle carries a snapshot of the game's current figures.
    pub open spec fn snapshot_current(&self) -> bool {
        self.puzzle.stats_snapshot matches Some(s) && self.shows(s)
    }

    pub open spec fn key(&self) -> u32 {
        self.bits.spec_key() as u32
    }

    /// The best score of this game's mode.
    pub open spec fn best(&self) -> u32 {
        score_of(self.high_scores@, self.key())
    }

    /// What the game keeps from round to round: a well formed puzzle of the
    /// game's mode; lives within the maximum; the streak within the best
    /// streak; the table's best at least the score, and equal to it once a
    /// new best has been reached; Active exactly while no guess is in, a
    /// guess resolved exactly when one is in; a round result shown only
    /// with lives left, a game over only with none.
    pub open spec fn consistent(&self) -> bool {
        &&& self.puzzle.wf()
        &&& self.puzzle.bits == self.bits
        &&& self.lives <= self.max_lives
        &&& self.streak <= self.max_streak
        &&& self.best() >= self.score
        &&& self.new_high_score_reached ==> self.best() == self.score
        &&& (self.game_state == GameState::Active) == (self.puzzle.guess_result is None)
        &&& self.puzzle_resolved == (self.puzzle.guess_result is Some)
        &&& self.game_state == GameState::Result ==> self.lives > 0
        &&& (self.game_state == GameState::PendingGameOver || self.game_state
            == GameState::GameOver) ==> self.lives == 0
    }

    /// A round ending with `result` can be counted, and scored, without
    /// leaving the range of `u32`.
    pub open spec fn fits_result(&self, result: GuessResult) -> bool {
        &&& self.rounds < u32::MAX
        &&& result == GuessResult::Correct ==> self.score + 2 * self.streak + 10 <= u32::MAX
    }

    /// The round with the guess now in can be settled without leaving the
    /// range of `u32`.
    pub open spec fn finalize_fits(&self) -> bool {
        match self.puzzle.guess_result {
            Some(r) => self.fits_result(r),
            None => true,
        }
    }

    /// `key` can be handled without an index out of range or a counter
    /// leaving the range of `u32`: moving right from no selection needs a
    /// suggestion, and an answer or a skip needs room to count the round.
    pub open spec fn accepts_key(&self, key: Key) -> bool {
        let sel = self.puzzle.selected_suggestion;
        if spec_is_exit(key) || self.game_state == GameState::GameOver
            || self.puzzle.guess_result is Some {
            true
        } else if spec_is_right(key) {
            sel is None ==> self.puzzle.suggestions@.len() > 0
        } else if spec_is_left(key) {
            true
        } else if spec_is_select(key) {
            match sel {
                Some(x) => self.fits_result(
                    if x == self.puzzle.current_number {
                        GuessResult::Correct
                    } else {
                        GuessResult::Incorrect
                    },
                ),
                None => true,
            }
        } else if key == Key::Char('s') || key == Key::Char('S') {
            self.fits_result(GuessResult::Timeout)
        } else {
            true
        }
    }

    /// A tick of `dt` milliseconds can be handled without a counter
    /// leaving the range of `u32`.
    pub open spec fn accepts_tick(&self, dt: u64) -> bool {
        self.game_state == GameState::GameOver || self.puzzle_resolved || match self.puzzle.tick_guess(dt) {
            Some(r) => self.fits_result(r),
            None => true,
        }
    }

    /// `post` is `pre` after a round that ended with `result`: the round is
    /// counted; a correct answer extends the streak, scores
    /// `points_for(streak)` and gives back a life on every fifth answer of
    /// a streak (up to the maximum); a wrong answer or a timeout ends the
    /// streak and costs a life; a score above the mode's best becomes the
    /// new best; the game waits for Enter, on a game over if no life is
    /// left. The guess, the timer and the snapshot are stated by the
    /// caller.
    pub open spec fn round_finished(pre: &Self, post: &Self, result: GuessResult) -> bool {
        let correct = result == GuessResult::Correct;
        let streak: int = if correct { pre.streak + 1 } else { 0 };
        let points: int = if correct { points_for(streak as nat) as int } else { 0 };
        let score: int = pre.score + points;
        let lives: int = if correct {
            if streak % 5 == 0 && pre.lives < pre.max_lives { pre.lives + 1 } else { pre.lives as int }
        } else if pre.lives > 0 {
            pre.lives - 1
        } else {
            0
        };
        let prev = pre.best();
        &&& post.rounds == pre.rounds + 1
        &&& post.streak == streak
        &&& post.max_streak == if streak > pre.max_streak { streak } else { pre.max_streak as int }
        &&& post.score == score
        &&& post.puzzle.last_points_awarded == points
        &&& post.lives == lives
        &&& post.high_scores@ == if score > prev {
            pre.high_scores@.insert(pre.key(), score as u32)
        } else {
            pre.high_scores@
        }
        &&& post.new_high_score_reached == (pre.new_high_score_reached || score > prev)
        &&& post.prev_high_score_for_display == if score > prev && !pre.new_high_score_reached {
            prev
        } else {
            pre.prev_high_score_for_display
        }
        &&& post.game_state == if lives == 0 {
            GameState::PendingGameOver
        } else {
            GameState::Result
        }
        &&& post.puzzle_resolved
        &&& post.bits == pre.bits
        &&& post.exit_intended == pre.exit_intended
        &&& post.max_lives == pre.max_lives
        &&& puzzle_kept(&pre.puzzle, &post.puzzle)
    }

    /// `post` is a new game of `pre`'s mode and table, with its snapshot
    /// taken.
    pub open spec fn restarted(pre: &Self, post: &Self) -> bool {
        &&& post.score == 0
        &&& post.streak == 0
        &&& post.rounds == 0
        &&& post.lives == if pre.max_lives < 3 { pre.max_lives } else { 3 }
        &&& post.game_state == GameState::Active
        &&& post.max_streak == 0
        &&& post.prev_high_score_for_display == pre.best()
        &&& !post.new_high_score_reached
        &&& post.puzzle.is_dealt(pre.bits, 0)
        &&& !post.puzzle_resolved
        &&& post.bits == pre.bits
        &&& post.exit_intended == pre.exit_intended
        &&& post.max_lives == pre.max_lives
        &&& post.high_scores@ == pre.high_scores@
        &&& post.snapshot_current()
    }

    /// `post` is `pre` with only the selection changed, to `selected`.
    pub open spec fn reselected(pre: &Self, post: &Self, selected: Option<u32>) -> bool {
        &&& post.puzzle.selected_suggestion == selected
        &&& post.puzzle.bits == pre.puzzle.bits
        &&& post.puzzle.current_number == pre.puzzle.current_number
        &&& post.puzzle.raw_current_number == pre.puzzle.raw_current_number
        &&& post.puzzle.suggestions@ == pre.puzzle.suggestions@
        &&& post.puzzle.time_total == pre.puzzle.time_total
        &&& post.puzzle.time_left == pre.puzzle.time_left
        &&& post.puzzle.guess_result == pre.puzzle.guess_result
        &&& post.puzzle.last_points_awarded == pre.puzzle.last_points_awarded
        &&& post.puzzle.stats_snapshot == pre.puzzle.stats_snapshot
        &&& post.puzzle.skip_first_dt == pre.puzzle.skip_first_dt
        &&& Self::game_kept(pre, post)
    }

    /// The game's own figures (all but the puzzle) are the same in `pre`
    /// and `post`.
    pub open spec fn game_kept(pre: &Self, post: &Self) -> bool {
        &&& post.bits == pre.bits
        &&& post.exit_intended == pre.exit_intended
        &&& post.score == pre.score
        &&& post.streak == pre.streak
        &&& post.rounds == pre.rounds
        &&& post.puzzle_resolved == pre.puzzle_resolved
        &&& post.lives == pre.lives
        &&& post.max_lives == pre.max_lives
        &&& post.game_state == pre.game_state
        &&& post.max_streak == pre.max_streak
        &&& post.high_scores@ == pre.high_scores@
        &&& post.prev_high_score_for_display == pre.prev_high_score_for_display
        &&& post.new_high_score_reached == pre.new_high_score_reached
    }

    /// `post` is `pre` after a key press while a puzzle waits for an answer:
    /// left and right move the selection, Enter answers with the selection
    /// (if any), S gives the puzzle up as a timeout; other keys do nothing.
    pub open spec fn answering(pre: &Self, post: &Self, key: Key) -> bool {
        let s = pre.puzzle.suggestions@;
        let sel = pre.puzzle.selected_suggestion;
        if spec_is_right(key) {
            Self::reselected(pre, post, select_right(s, sel))
        } else if spec_is_left(key) {
            Self::reselected(pre, post, select_left(s, sel))
        } else if spec_is_select(key) && sel is Some {
            let result = if sel->0 == pre.puzzle.current_number {
                GuessResult::Correct
            } else {
                GuessResult::Incorrect
            };
            &&& Self::round_finished(pre, post, result)
            &&& post.puzzle.guess_result == Some(result)
            &&& post.puzzle.time_left == pre.puzzle.time_left
            &&& post.puzzle.skip_first_dt == pre.puzzle.skip_first_dt
            &&& post.puzzle.stats_snapshot == pre.puzzle.stats_snapshot
        } else if key == Key::Char('s') || key == Key::Char('S') {
            &&& Self::round_finished(pre, post, GuessResult::Timeout)
            &&& post.puzzle.guess_result == Some(GuessResult::Timeout)
            &&& post.puzzle.time_left == pre.puzzle.time_left
            &&& post.puzzle.skip_first_dt == pre.puzzle.skip_first_dt
            &&& post.puzzle.stats_snapshot == pre.puzzle.stats_snapshot
        } else {
            *post == *pre
        }
    }

    /// `post` is `pre` after a key press once a round is over: Enter shows
    /// the summary after the last life, or deals the next puzzle (timed for
    /// the current streak) otherwise; other keys do nothing.
    pub open spec fn continuing(pre: &Self, post: &Self, key: Key) -> bool {
        if spec_is_select(key) && pre.game_state == GameState::PendingGameOver {
            *post == Self { game_state: GameState::GameOver, ..*pre }
        } else if spec_is_select(key) && pre.game_state == GameState::Result {
            &&& post.puzzle.is_fresh(pre.bits, pre.streak)
            &&& !post.puzzle_resolved
            &&& post.game_state == GameState::Active
            &&& post.bits == pre.bits
            &&& post.exit_intended == pre.exit_intended
            &&& post.score == pre.score
            &&& post.streak == pre.streak
            &&& post.rounds == pre.rounds
            &&& post.lives == pre.lives
            &&& post.max_lives == pre.max_lives
            &&& post.max_streak == pre.max_streak
            &&& post.high_scores@ == pre.high_scores@
            &&& post.prev_high_score_for_display == pre.prev_high_score_for_display
            &&& post.new_high_score_reached == pre.new_high_score_reached
        } else {
            *post == *pre
        }
    }

    /// `post` is `pre` after `dt` milliseconds: unless the summary is up,
    /// the puzzle's clock ticks, and a round lost to the clock is settled;
    /// in every case the snapshot is taken anew.
    pub open spec fn ticked(pre: &Self, post: &Self, dt: u64) -> bool {
        &&& post.snapshot_current()
        &&& if pre.game_state == GameState::GameOver {
            &&& Self::game_kept(pre, post)
            &&& puzzle_kept(&pre.puzzle, &post.puzzle)
            &&& post.puzzle.time_left == pre.puzzle.time_left
            &&& post.puzzle.guess_result == pre.puzzle.guess_result
            &&& post.puzzle.skip_first_dt == pre.puzzle.skip_first_dt
            &&& post.puzzle.last_points_awarded == pre.puzzle.last_points_awarded
        } else {
            let guess = pre.puzzle.tick_guess(dt);
            &&& post.puzzle.time_left == pre.puzzle.tick_time(dt)
            &&& post.puzzle.guess_result == guess
            &&& post.puzzle.skip_first_dt == pre.puzzle.tick_skip()
            &&& if guess is Some && !pre.puzzle_resolved {
                Self::round_finished(pre, post, guess->0)
            } else {
                &&& Self::game_kept(pre, post)
                &&& puzzle_kept(&pre.puzzle, &post.puzzle)
                &&& post.puzzle.last_points_awarded == pre.puzzle.last_points_awarded
            }
        }
    }

    /// `post` is `pre` after a key press: Esc or Q asks to leave; on the
    /// game-over summary Enter starts a new game; otherwise the key answers
    /// the puzzle or moves on from a finished round.
    pub open spec fn after_key(pre: &Self, post: &Self, key: Key) -> bool {
        if spec_is_exit(key) {
            *post == Self { exit_intended: true, ..*pre }
        } else if pre.game_state == GameState::GameOver {
            if spec_is_select(key) {
                Self::restarted(pre, post)
            } else {
                *post == *pre
            }
        } else if pre.puzzle.guess_result is None {
            Self::answering(pre, post, key)
        } else {
            Self::continuing(pre, post, key)
        }
    }

    /// A new game of mode `bits` with three lives.
    pub fn new(bits: Bits, high_scores: HighScores) -> (r: Self)
        ensures
            r.is_new(bits, 3, high_scores@),
            r.consistent(),
    {
        Self::new_with_max_lives(bits, 3, high_scores)
    }

    /// `self` is a game of mode `bits` that has not started: nothing
    /// scored, `max_lives` allowed but at most three given, the best of
    /// `table` on display, its snapshot taken.
    pub open spec fn is_new(&self, bits: Bits, max_lives: u32, table: Map<u32, u32>) -> bool {
        &&& self.bits == bits
        &&& self.puzzle.is_dealt(bits, 0)
        &&& self.snapshot_current()
        &&& !self.exit_intended
        &&& self.score == 0
        &&& self.streak == 0
        &&& self.rounds == 0
        &&& !self.puzzle_resolved
        &&& self.lives == if max_lives < 3 { max_lives } else { 3 }
        &&& self.max_lives == max_lives
        &&& self.game_state == GameState::Active
        &&& self.max_streak == 0
        &&& self.high_scores@ == table
        &&& self.prev_high_score_for_display == score_of(table, bits.spec_key() as u32)
        &&& !self.new_high_score_reached
    }

    /// A new game of mode `bits` allowing up to `max_lives` lives, of which
    /// it gives at most three to start with.
    pub fn new_with_max_lives(bits: Bits, max_lives: u32, high_scores: HighScores) -> (r: Self)
        ensures
            r.is_new(bits, max_lives, high_scores@),
            r.consistent(),
    {
        let starting_prev = high_scores.get(bits.high_score_key());
        let mut game = BinaryNumbersGame {
            puzzle: Self::init_puzzle(bits, 0),
            bits,
            exit_intended: false,
            score: 0,
            streak: 0,
            rounds: 0,
            puzzle_resolved: false,
            lives: if max_lives < 3 { max_lives } else { 3 },
            max_lives,
            game_state: GameState::Active,
            max_streak: 0,
            high_scores,
            prev_high_score_for_display: starting_prev,
            new_high_score_reached: false,
        };
        game.refresh_stats_snapshot();
        game
    }

    /// Deals a puzzle of mode `bits` for a streak of `streak`.
    pub fn init_puzzle(bits: Bits, streak: u32) -> (r: BinaryNumbersPuzzle)
        ensures
            r.is_fresh(bits, streak),
    {
        BinaryNumbersPuzzle::new(bits, streak)
    }

    pub fn is_active(&self) -> (r: bool)
        ensures
            r == (self.game_state == GameState::Active),
    {
        self.game_state == GameState::Active
    }

    pub fn is_exit_intended(&self) -> (r: bool)
        ensures
            r == self.exit_intended,
    {
        self.exit_intended
    }

    /// The lives as a row of hearts, lost ones as dots.
    pub fn lives_hearts(&self) -> (r: String)
        ensures
            r@ == hearts(self.lives, self.max_lives),
    {
        let full_count = if self.lives < self.max_lives { self.lives } else { self.max_lives };
        let empty_count = self.max_lives.saturating_sub(self.lives);
        let mut out = String::new();
        push_repeated(&mut out, '\u{2665}', full_count);
        push_repeated(&mut out, '\u{b7}', empty_count);
        out
    }

    /// Settles the round once a guess is in (does nothing otherwise).
    /// Returns whether the high-score table changed, so that the caller
    /// can write it back.
    pub fn finalize_round(&mut self) -> (saved: bool)
        requires
            old(self).finalize_fits(),
        ensures
            old(self).puzzle.guess_result is None ==> *final(self) == *old(self) && !saved,
            old(self).puzzle.guess_result matches Some(result) ==> {
                &&& Self::round_finished(old(self), final(self), result)
                &&& final(self).puzzle.guess_result == old(self).puzzle.guess_result
                &&& final(self).puzzle.time_left == old(self).puzzle.time_left
                &&& final(self).puzzle.skip_first_dt == old(self).puzzle.skip_first_dt
                &&& final(self).puzzle.stats_snapshot == old(self).puzzle.stats_snapshot
                &&& saved == (final(self).score > old(self).best())
            },
            saved == (final(self).high_scores@ != old(self).high_scores@),
            old(self).puzzle.guess_result is Some ==> final(self).best() >= final(self).score,
            old(self).best() >= old(self).score ==> final(self).best() >= final(self).score,
            old(self).lives <= old(self).max_lives ==> final(self).lives <= final(self).max_lives,
            old(self).streak <= old(self).max_streak
                ==> final(self).streak <= final(self).max_streak,
    {
        let result = match self.puzzle.guess_result {
            Some(r) => r,
            None => {
                return false;
            },
        };
        self.rounds = self.rounds + 1;
        match result {
            GuessResult::Correct => {
                self.streak = self.streak + 1;
                if self.streak > self.max_streak {
                    self.max_streak = self.streak;
                }
                let streak_bonus = (self.streak - 1) * 2;
                let points = 10 + streak_bonus;
                self.score = self.score + points;
                self.puzzle.last_points_awarded = points;
                if self.streak % 5 == 0 && self.lives < self.max_lives {
                    self.lives = self.lives + 1;
                }
            },
            GuessResult::Incorrect | GuessResult::Timeout => {
                self.streak = 0;
                self.puzzle.last_points_awarded = 0;
                if self.lives > 0 {
                    self.lives = self.lives - 1;
                }
            },
        }
        let bits_key = self.bits.high_score_key();
        let prev = self.high_scores.get(bits_key);
        let mut saved = false;
        if self.score > prev {
            if !self.new_high_score_reached {
                self.prev_high_score_for_display = prev;
            }
            self.high_scores.update(bits_key, self.score);
            self.new_high_score_reached = true;
            saved = true;
        }
        if self.lives == 0 {
            self.game_state = GameState::PendingGameOver;
        } else {
            self.game_state = GameState::Result;
        }
        self.puzzle_resolved = true;
        saved
    }

    /// Whether a round ending with `result` fits (see `fits_result`).
    pub fn result_fits(&self, result: GuessResult) -> (r: bool)
        ensures
            r == self.fits_result(result),
    {
        let room = (self.score as u64) + 2 * (self.streak as u64) + 10 <= (u32::MAX as u64);
        self.rounds < u32::MAX && (result != GuessResult::Correct || room)
    }

    /// Whether `handle_game_input` can take `key` (see `accepts_key`).
    pub fn can_take_key(&self, key: Key) -> (r: bool)
        ensures
            r == self.accepts_key(key),
    {
        if is_exit(key) || self.game_state == GameState::GameOver
            || self.puzzle.guess_result.is_some() {
            true
        } else if is_right(key) {
            self.puzzle.selected_suggestion.is_some() || self.puzzle.suggestions.len() > 0
        } else if is_left(key) {
            true
        } else if is_select(key) {
            match self.puzzle.selected_suggestion {
                Some(x) => self.result_fits(
                    if x == self.puzzle.current_number {
                        GuessResult::Correct
                    } else {
                        GuessResult::Incorrect
                    },
                ),
                None => true,
            }
        } else if key == Key::Char('s') || key == Key::Char('S') {
            self.result_fits(GuessResult::Timeout)
        } else {
            true
        }
    }

    /// Whether `run` can take a tick of `dt` milliseconds (see
    /// `accepts_tick`).
    pub fn can_take_tick(&self, dt: u64) -> (r: bool)
        ensures
            r == self.accepts_tick(dt),
    {
        if self.game_state == GameState::GameOver || self.puzzle_resolved {
            return true;
        }
        let p = &self.puzzle;
        let guess = match p.guess_result {
            Some(g) => Some(g),
            None => {
                if !p.skip_first_dt && p.time_left <= dt {
                    Some(GuessResult::Timeout)
                } else {
                    None
                }
            },
        };
        match guess {
            Some(g) => self.result_fits(g),
            None => true,
        }
    }

    /// Lets `dt` milliseconds of play pass. Returns whether the high-score
    /// table changed, so that the caller can write it back.
    pub fn run(&mut self, dt: u64) -> (saved: bool)
        requires
            old(self).accepts_tick(dt),
        ensures
            Self::ticked(old(self), final(self), dt),
            saved == (final(self).high_scores@ != old(self).high_scores@),
            old(self).consistent() ==> final(self).consistent(),
    {
        self.refresh_stats_snapshot();
        if self.game_state == GameState::GameOver {
            return false;
        }
        self.puzzle.run(dt);
        let mut saved = false;
        if self.puzzle.guess_result.is_some() && !self.puzzle_resolved {
            saved = self.finalize_round();
        }
        self.refresh_stats_snapshot();
        saved
    }

    /// Reacts to a key. Returns whether the high-score table changed, so
    /// that the caller can write it back.
    pub fn handle_game_input(&mut self, input: Key) -> (saved: bool)
        requires
            old(self).accepts_key(input),
        ensures
            Self::after_key(old(self), final(self), input),
            saved == (final(self).high_scores@ != old(self).high_scores@),
            old(self).consistent() ==> final(self).consistent(),
    {
        if is_exit(input) {
            self.exit_intended = true;
            return false;
        }
        if self.game_state == GameState::GameOver {
            self.handle_game_over_input(input);
            return false;
        }
        match self.puzzle.guess_result {
            None => self.handle_no_result_yet(input),
            Some(_) => {
                self.handle_result_available(input);
                false
            },
        }
    }

    fn handle_game_over_input(&mut self, key: Key)
        requires
            old(self).game_state == GameState::GameOver,
            !spec_is_exit(key),
        ensures
            Self::after_key(old(self), final(self), key),
            old(self).consistent() ==> final(self).consistent(),
    {
        if is_select(key) {
            self.reset_game_state();
        } else if is_exit(key) {
            self.exit_intended = true;
        }
    }

    fn reset_game_state(&mut self)
        ensures
            Self::restarted(old(self), final(self)),
            final(self).consistent(),
    {
        self.score = 0;
        self.streak = 0;
        self.rounds = 0;
        self.lives = if self.max_lives < 3 { self.max_lives } else { 3 };
        self.game_state = GameState::Active;
        self.max_streak = 0;
        self.prev_high_score_for_display = self.high_scores.get(self.bits.high_score_key());
        self.new_high_score_reached = false;
        self.puzzle = Self::init_puzzle(self.bits, 0);
        self.puzzle_resolved = false;
        self.refresh_stats_snapshot();
    }

    fn handle_no_result_yet(&mut self, input: Key) -> (saved: bool)
        requires
            old(self).puzzle.guess_result is None,
            old(self).game_state != GameState::GameOver,
            !spec_is_exit(input),
            old(self).accepts_key(input),
        ensures
            Self::answering(old(self), final(self), input),
            saved == (final(self).high_scores@ != old(self).high_scores@),
            old(self).consistent() ==> final(self).consistent(),
    {
        let len = self.puzzle.suggestions.len();
        if is_right(input) {
            match self.puzzle.selected_suggestion {
                Some(selected) => {
                    match position_of(&self.puzzle.suggestions, selected) {
                        Some(index) => {
                            let next_index = (index + 1) % len;
                            self.puzzle.selected_suggestion = Some(
                                self.puzzle.suggestions[next_index],
                            );
                        },
                        None => {},
                    }
                },
                None => {
                    self.puzzle.selected_suggestion = Some(self.puzzle.suggestions[0]);
                },
            }
            false
        } else if is_left(input) {
            match self.puzzle.selected_suggestion {
                Some(selected) => {
                    match position_of(&self.puzzle.suggestions, selected) {
                        Some(index) => {
                            let prev_index = if index == 0 {
                                len - 1
                            } else {
                                index - 1
                            };
                            self.puzzle.selected_suggestion = Some(
                                self.puzzle.suggestions[prev_index],
                            );
                        },
                        None => {},
                    }
                },
                None => {},
            }
            false
        } else if is_select(input) {
            match self.puzzle.selected_suggestion {
                Some(selected) => {
                    if self.puzzle.is_correct_guess(selected) {
                        self.puzzle.guess_result = Some(GuessResult::Correct);
                    } else {
                        self.puzzle.guess_result = Some(GuessResult::Incorrect);
                    }
                    self.finalize_round()
                },
                None => false,
            }
        } else if input == Key::Char('s') || input == Key::Char('S') {
            self.puzzle.guess_result = Some(GuessResult::Timeout);
            self.finalize_round()
        } else {
            false
        }
    }

    fn handle_result_available(&mut self, key: Key)
        requires
            old(self).puzzle.guess_result is Some,
            old(self).game_state != GameState::GameOver,
            !spec_is_exit(key),
        ensures
            Self::continuing(old(self), final(self), key),
            old(self).consistent() ==> final(self).consistent(),
    {
        if is_select(key) {
            match self.game_state {
                GameState::PendingGameOver => {
                    self.game_state = GameState::GameOver;
                },
                GameState::Result => {
                    self.puzzle = Self::init_puzzle(self.bits, self.streak);
                    self.puzzle_resolved = false;
                    self.game_state = GameState::Active;
                },
                GameState::GameOver => {},
                GameState::Active => {},
            }
        } else if is_exit(key) {
            self.exit_intended = true;
        }
    }

    /// Copies the game's figures into the puzzle's snapshot.
    fn refresh_stats_snapshot(&mut self)
        ensures
            final(self).snapshot_current(),
            final(self).puzzle.bits == old(self).puzzle.bits,
            final(self).puzzle.current_number == old(self).puzzle.current_number,
            final(self).puzzle.raw_current_number == old(self).puzzle.raw_current_number,
            final(self).puzzle.suggestions@ == old(self).puzzle.suggestions@,
            final(self).puzzle.selected_suggestion == old(self).puzzle.selected_suggestion,
            final(self).puzzle.time_total == old(self).puzzle.time_total,
            final(self).puzzle.time_left == old(self).puzzle.time_left,
            final(self).puzzle.guess_result == old(self).puzzle.guess_result,
            final(self).puzzle.last_points_awarded == old(self).puzzle.last_points_awarded,
            final(self).puzzle.skip_first_dt == old(self).puzzle.skip_first_dt,
            final(self).bits == old(self).bits,
            final(self).exit_intended == old(self).exit_intended,
            final(self).score == old(self).score,
            final(self).streak == old(self).streak,
            final(self).rounds == old(self).rounds,
            final(self).puzzle_resolved == old(self).puzzle_resolved,
            final(self).lives == old(self).lives,
            final(self).max_lives == old(self).max_lives,
            final(self).game_state == old(self).game_state,
            final(self).max_streak == old(self).max_streak,
            final(self).high_scores@ == old(self).high_scores@,
            final(self).prev_high_score_for_display == old(self).prev_high_score_for_display,
            final(self).new_high_score_reached == old(self).new_high_score_reached,
    {
        let hearts = self.lives_hearts();
        self.puzzle.stats_snapshot = Some(
            StatsSnapshot {
                score: self.score,
                streak: self.streak,
                max_streak: self.max_streak,
                rounds: self.rounds,
                lives: self.lives,
                bits: self.bits,
                hearts,
                game_state: self.game_state,
                prev_high_score: self.prev_high_score_for_display,
                new_high_score: self.new_high_score_reached,
            },
        );
    }
}

/// The first place where `x` stands in `v`, if any.
fn position_of(v: &Vec<u32>, x: u32) -> (r: Option<usize>)
    ensures
        r matches Some(i) ==> i < v@.len() && v@[i as int] == x && v@.index_of_first(x) == Some(
            i as int,
        ),
        r is None ==> v@.index_of_first(x) is None,
{
    let mut i: usize = 0;
    while i < v.len()
        invariant
            i <= v@.len(),
            forall|j: int| 0 <= j < i ==> v@[j] != x,
        decreases v.len() - i,
    {
        if v[i] == x {
            proof {
                v@.index_of_first_ensures(x);
                assert(v@.contains(x)) by {
                    assert(v@[i as int] == x);
                }
                let k = v@.index_of_first(x)->0;
                assert(k == i);
            }
            return Some(i);
        }
        i = i + 1;
    }
    proof {
        v@.index_of_first_ensures(x);
        if v@.index_of_first(x) is Some {
            let k = v@.index_of_first(x)->0;
            assert(v@[k] == x);
        }
    }
    None
}

/// How the main loop waits for input.
#[derive(Clone, Copy, PartialEq, Eq, Debug, Structural)]
pub enum FpsMode {
    /// About thirty frames a second, polling for keys: the clock runs.
    RealTime,
    /// Block until a key comes: nothing moves on its own.
    Performance,
}

/// The real-time loop while a puzzle's clock runs, the blocking one
/// otherwise.
pub fn get_fps_mode(game: &BinaryNumbersGame) -> (r: FpsMode)
    ensures
        r == if game.game_state == GameState::Active {
            FpsMode::RealTime
        } else {
            FpsMode::Performance
        },
{
    if game.is_active() {
        FpsMode::RealTime
    } else {
        FpsMode::Performance
    }
}

/// In a sequence without repeats, the first place of its `k`-th value is
/// `k`.
proof fn lemma_first_index_distinct(s: Seq<u32>, k: int)
    requires
        s.no_duplicates(),
        0 <= k < s.len(),
    ensures
        s.index_of_first(s[k]) == Some(k),
{
    s.index_of_first_ensures(s[k]);
    assert(s.contains(s[k]));
    let i = s.index_of_first(s[k])->0;
    assert(s[i] == s[k]);
}

/// Moving the selection right and then left gives back the answer that was
/// selected, when the suggestions are all different and hold it.
pub proof fn lemma_right_then_left(s: Seq<u32>, x: u32)
    requires
        s.no_duplicates(),
        s.contains(x),
    ensures
        select_left(s, select_right(s, Some(x))) == Some(x),
{
    let k = choose|k: int| 0 <= k < s.len() && s[k] == x;
    lemma_first_index_distinct(s, k);
    let len = s.len() as int;
    lemma_wrap_next(k, len);
    let n = (k + 1) % len;
    lemma_first_index_distinct(s, n);
}

/// Moving the selection left and then right gives back the answer that was
/// selected, when the suggestions are all different and hold it.
pub proof fn lemma_left_then_right(s: Seq<u32>, x: u32)
    requires
        s.no_duplicates(),
        s.contains(x),
    ensures
        select_right(s, select_left(s, Some(x))) == Some(x),
{
    let k = choose|k: int| 0 <= k < s.len() && s[k] == x;
    lemma_first_index_distinct(s, k);
    let p = if k == 0 { s.len() - 1 } else { k - 1 };
    lemma_first_index_distinct(s, p);
    lemma_wrap_next(p, s.len() as int);
}

/// Moving the selection never leaves the suggestions: from any suggestion
/// (or from none, to the right) the selection lands on a suggestion.
pub proof fn lemma_selection_stays(s: Seq<u32>, sel: Option<u32>)
    requires
        s.len() > 0,
        sel matches Some(x) ==> s.contains(x),
    ensures
        select_right(s, sel) matches Some(y) && s.contains(y),
        select_left(s, sel) matches Some(y) ==> s.contains(y),
{
    if sel is Some {
        s.index_of_first_ensures(sel->0);
        let n = (s.index_of_first(sel->0)->0 + 1) % (s.len() as int);
        assert(s[n] == s[n]);
        if s.index_of_first(sel->0)->0 > 0 {
            let p = s.index_of_first(sel->0)->0 - 1;
            assert(s[p] == s[p]);
        } else {
            assert(s[s.len() - 1] == s[s.len() - 1]);
        }
    } else {
        assert(s[0] == s[0]);
    }
}

/// The row of hearts always has one symbol per life the game allows, when
/// the lives are within that number.
pub proof fn lemma_hearts_length(lives: u32, max_lives: u32)
    requires
        lives <= max_lives,
    ensures
        hearts(lives, max_lives) == repeated('\u{2665}', lives as nat) + repeated(
            '\u{b7}',
            (max_lives - lives) as nat,
        ),
        hearts(lives, max_lives).len() == max_lives,
{
}

/// The place after `k` in a ring of `len` places.
proof fn lemma_wrap_next(k: int, len: int)
    requires
        0 <= k < len,
    ensures
        (k + 1) % len == if k + 1 < len { k + 1 } else { 0 },
{
    if k + 1 < len {
        vstd::arithmetic::div_mod::lemma_small_mod((k + 1) as nat, len as nat);
    } else {
        vstd::arithmetic::div_mod::lemma_mod_self_0(len);
    }
}

/// The longer the streak, the more points a correct answer brings.
pub proof fn lemma_points_grow_with_streak(s1: nat, s2: nat)
    requires
        1 <= s1 <= s2,
    ensures
        points_for(s1) <= points_for(s2),
        points_for(1) == 10,
{
}

/// A round never lowers the score, leaves the best score of the mode at
/// least the score, and touches no other mode's best score.
pub proof fn lemma_round_effects(
    pre: &BinaryNumbersGame,
    post: &BinaryNumbersGame,
    result: GuessResult,
    other: u32,
)
    requires
        BinaryNumbersGame::round_finished(pre, post, result),
        other != pre.key(),
    ensures
        post.score >= pre.score,
        post.best() >= post.score,
        score_of(post.high_scores@, other) == score_of(pre.high_scores@, other),
        result != GuessResult::Correct ==> post.score == pre.score && post.streak == 0,
{
}

/// A correct answer extends the streak by one and scores ten points plus
/// two for every earlier answer of the streak; when it brings the streak
/// to a multiple of five (5, 10, 15, ...) a life comes back, as long as
/// the game is below its maximum; at any other streak the lives stay.
pub proof fn lemma_correct_answer(pre: &BinaryNumbersGame, post: &BinaryNumbersGame, k: nat)
    requires
        BinaryNumbersGame::round_finished(pre, post, GuessResult::Correct),
        k >= 1,
    ensures
        post.streak == pre.streak + 1,
        post.score == pre.score + 10 + 2 * pre.streak,
        post.rounds == pre.rounds + 1,
        pre.streak + 1 == 5 * k && pre.lives < pre.max_lives ==> post.lives == pre.lives + 1,
        pre.streak + 1 == 5 * k && pre.lives >= pre.max_lives ==> post.lives == pre.lives,
        (pre.streak + 1) % 5 != 0 ==> post.lives == pre.lives,
{
    vstd::arithmetic::div_mod::lemma_mod_multiples_basic(k as int, 5);
    assert((k * 5) == 5 * k) by (nonlinear_arith);
}

/// A wrong answer or a timeout ends the streak, scores nothing and costs a
/// life (none below zero).
pub proof fn lemma_lost_round(pre: &BinaryNumbersGame, post: &BinaryNumbersGame, result: GuessResult)
    requires
        BinaryNumbersGame::round_finished(pre, post, result),
        result != GuessResult::Correct,
    ensures
        post.streak == 0,
        post.score == pre.score,
        post.rounds == pre.rounds + 1,
        post.lives == if pre.lives > 0 { pre.lives - 1 } else { 0 },
{
}

/// Enter while a puzzle waits judges the selected answer against the
/// puzzle's answer, in every mode: the very answer wins the round (the
/// streak grows and the points come), any other value loses it.
pub proof fn lemma_enter_judges_selection(pre: &BinaryNumbersGame, post: &BinaryNumbersGame, x: u32)
    requires
        pre.puzzle.guess_result is None,
        pre.game_state != GameState::GameOver,
        pre.puzzle.selected_suggestion == Some(x),
        BinaryNumbersGame::after_key(pre, post, Key::Enter),
    ensures
        x == pre.puzzle.current_number ==> {
            &&& post.puzzle.guess_result == Some(GuessResult::Correct)
            &&& post.streak == pre.streak + 1
            &&& post.score == pre.score + 10 + 2 * pre.streak
        },
        x != pre.puzzle.current_number ==> {
            &&& post.puzzle.guess_result == Some(GuessResult::Incorrect)
            &&& post.streak == 0
            &&& post.score == pre.score
        },
        post.rounds == pre.rounds + 1,
{
}

} // verus!
