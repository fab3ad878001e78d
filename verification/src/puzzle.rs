//! One round of the game: the number to name, the answers offered, the
//! timer and the outcome.
use crate::bits::{two_pow, Bits};
use crate::random::{random_below, shuffle_values};
use crate::text::{binary_padded, decimal, grouped_binary, grouped_by_four, push_decimal};
use vstd::arithmetic::div_mod::lemma_mod_multiples_basic;
use vstd::arithmetic::power2::{lemma2_to64, pow2};
use vstd::prelude::*;

verus! {

broadcast use vstd::seq_lib::group_to_multiset_ensures;

/// How a round ended.
#[derive(Clone, Copy, PartialEq, Eq, Debug, Structural)]
pub enum GuessResult {
    Correct,
    Incorrect,
    Timeout,
}

/// Where the game stands between rounds.
#[derive(Clone, Copy, PartialEq, Eq, Debug, Structural)]
pub enum GameState {
    /// A puzzle is waiting for an answer.
    Active,
    /// The round is over and the next one starts on Enter.
    Result,
    /// The last life is gone; the summary shows on Enter.
    PendingGameOver,
    /// The summary is shown; Enter starts a new game.
    GameOver,
}

/// The figures shown beside the puzzle, copied from the game.
pub struct StatsSnapshot {
    pub score: u32,
    pub streak: u32,
    pub max_streak: u32,
    pub rounds: u32,
    pub lives: u32,
    pub bits: Bits,
    pub hearts: String,
    pub game_state: GameState,
    pub prev_high_score: u32,
    pub new_high_score: bool,
}

impl StatsSnapshot {
    /// The best-score label: the score with a star once it is a new best,
    /// the earlier best otherwise.
    pub open spec fn spec_hi_score_label(&self) -> Seq<char> {
        if self.new_high_score {
            "Hi-Score: "@ + decimal(self.score as nat) + "*  "@
        } else {
            "Hi-Score: "@ + decimal(self.prev_high_score as nat) + "  "@
        }
    }

    pub fn hi_score_label(&self) -> (r: String)
        ensures
            r@ == self.spec_hi_score_label(),
    {
        let mut out = String::new();
        out.append("Hi-Score: ");
        if self.new_high_score {
            push_decimal(&mut out, self.score);
            out.append("*  ");
        } else {
            push_decimal(&mut out, self.prev_high_score);
            out.append("  ");
        }
        out
    }
}

/// A puzzle. Times are in milliseconds.
pub struct BinaryNumbersPuzzle {
    pub bits: Bits,
    /// The answer, scaled as the suggestions are.
    pub current_number: u32,
    /// The bit pattern shown to the player.
    pub raw_current_number: u32,
    pub suggestions: Vec<u32>,
    pub selected_suggestion: Option<u32>,
    pub time_total: u64,
    pub time_left: u64,
    pub guess_result: Option<GuessResult>,
    pub last_points_awarded: u32,
    pub stats_snapshot: Option<StatsSnapshot>,
    /// The first tick after a puzzle appears is not counted.
    pub skip_first_dt: bool,
}

/// The time a mode gives for one puzzle before any streak, in milliseconds.
pub open spec fn base_time_ms(bits: Bits) -> int {
    match bits {
        Bits::Eight => 12000,
        Bits::Twelve => 16000,
        Bits::Sixteen => 20000,
        _ => 8000,
    }
}

/// The time given for a puzzle: the mode's base time, half a second less
/// for each point of streak, and never less than five seconds.
pub open spec fn time_limit_ms(bits: Bits, streak: nat) -> int {
    if base_time_ms(bits) - 500 * streak < 5000 {
        5000
    } else {
        base_time_ms(bits) - 500 * streak
    }
}

/// A value a puzzle of mode `bits` can offer: a multiple of the scale
/// factor no greater than the mode's upper bound.
pub open spec fn is_offerable(bits: Bits, v: u32) -> bool {
    &&& (v as nat) % bits.spec_scale() == 0
    &&& v <= bits.spec_upper_bound()
}

impl BinaryNumbersPuzzle {
    /// What every puzzle keeps: the suggestions are as many as the mode
    /// asks, all different, all offerable, and the answer is among them;
    /// the shown pattern scaled is the answer; a selection is always one
    /// of the suggestions; the time left never exceeds the time given.
    pub open spec fn wf(&self) -> bool {
        let s = self.suggestions@;
        &&& s.len() == self.bits.spec_suggestions()
        &&& s.no_duplicates()
        &&& forall|i: int| 0 <= i < s.len() ==> is_offerable(self.bits, #[trigger] s[i])
        &&& s.contains(self.current_number)
        &&& self.raw_current_number < pow2(self.bits.spec_width())
        &&& self.raw_current_number * self.bits.spec_scale() == self.current_number
        &&& (self.selected_suggestion matches Some(x) ==> s.contains(x))
        &&& self.time_left <= self.time_total
    }

    /// A puzzle as it is handed out: well formed, of mode `bits`, with the
    /// full time for `streak`, the first suggestion selected, nothing
    /// guessed yet and no snapshot taken.
    pub open spec fn is_fresh(&self, bits: Bits, streak: u32) -> bool {
        self.is_dealt(bits, streak) && self.stats_snapshot is None
    }

    /// As `is_fresh`, whatever the snapshot.
    pub open spec fn is_dealt(&self, bits: Bits, streak: u32) -> bool {
        &&& self.wf()
        &&& self.bits == bits
        &&& self.time_total == time_limit_ms(bits, streak as nat)
        &&& self.time_left == self.time_total
        &&& self.selected_suggestion == Some(self.suggestions@[0])
        &&& self.guess_result is None
        &&& self.last_points_awarded == 0
        &&& self.skip_first_dt
    }

    /// Deals a new puzzle of mode `bits` for a player on a streak of
    /// `streak`: draws the offsets of a partial Fisher-Yates shuffle of the
    /// mode's patterns, shuffles the values they give, and deals them with
    /// `deal_from`.
    pub fn new(bits: Bits, streak: u32) -> (r: Self)
        ensures
            r.is_fresh(bits, streak),
            exists|offsets: Seq<u32>|
                {
                    &&& #[trigger] offsets_fit(pow2(bits.spec_width()), offsets)
                    &&& offsets.len() == bits.spec_suggestions()
                    &&& r.raw_current_number == offsets[0]
                    &&& r.current_number == dealt_values(bits, offsets)[0]
                    &&& r.suggestions@.to_multiset() == dealt_values(bits, offsets).to_multiset()
                },
    {
        let mut rng = rand::rng();
        let range = two_pow(bits.to_int());
        let count = bits.suggestion_count();
        proof {
            lemma2_to64();
        }
        let mut offsets: Vec<u32> = Vec::new();
        let mut i: usize = 0;
        while i < count
            invariant
                i <= count == bits.spec_suggestions(),
                range == pow2(bits.spec_width()),
                count <= range,
                offsets@.len() == i,
                offsets_fit(range as nat, offsets@),
            decreases count - i,
        {
            let offset = random_below(&mut rng, range - (i as u32));
            offsets.push(offset);
            i = i + 1;
        }
        let mut order = Self::values_from_offsets(bits, &offsets);
        shuffle_values(&mut order, &mut rng);
        let r = Self::deal_from(bits, streak, &offsets, &order);
        assert(offsets_fit(pow2(bits.spec_width()), offsets@));
        r
    }

    /// The values that `offsets` draw for mode `bits`: the first
    /// `offsets.len()` patterns of the shuffled pool, each times the mode's
    /// scale factor.
    pub fn values_from_offsets(bits: Bits, offsets: &Vec<u32>) -> (r: Vec<u32>)
        requires
            offsets_fit(pow2(bits.spec_width()), offsets@),
        ensures
            r@ == dealt_values(bits, offsets@),
    {
        proof {
            lemma2_to64();
        }
        let range = two_pow(bits.to_int());
        let scale = bits.scale_factor();
        let raws = draw_from_pool(range, offsets);
        let mut out: Vec<u32> = Vec::new();
        let mut k: usize = 0;
        proof {
            lemma_pool(range as nat, offsets@);
        }
        while k < raws.len()
            invariant
                k <= raws@.len(),
                raws@ == drawn_values(range as nat, offsets@),
                range == pow2(bits.spec_width()),
                scale == bits.spec_scale(),
                bits.spec_width() <= 16,
                pow2(4) == 16,
                pow2(8) == 256,
                pow2(12) == 4096,
                pow2(16) == 65536,
                forall|i: int| 0 <= i < raws@.len() ==> #[trigger] raws@[i] < range,
                out@ == raws@.take(k as int).map_values(|v: u32| (v * bits.spec_scale()) as u32),
            decreases raws.len() - k,
        {
            let raw = raws[k];
            assert(raw * scale <= 65535) by (nonlinear_arith)
                requires
                    raw < range,
                    (range == 16 && scale <= 4096) || (range <= 65536 && scale == 1),
            ;
            out.push(raw * scale);
            proof {
                assert(raws@.take(k + 1) == raws@.take(k as int).push(raw));
            }
            k = k + 1;
        }
        proof {
            assert(raws@.take(raws@.len() as int) == raws@);
        }
        out
    }

    /// Deals the puzzle that the draws `offsets` give, with the suggestions
    /// in the order `order` (a reordering of the values the offsets give):
    /// the answer is the first value drawn, the first suggestion is
    /// selected, and the clock is set for `streak`.
    pub fn deal_from(bits: Bits, streak: u32, offsets: &Vec<u32>, order: &Vec<u32>) -> (r: Self)
        requires
            offsets@.len() == bits.spec_suggestions(),
            offsets_fit(pow2(bits.spec_width()), offsets@),
            order@.to_multiset() == dealt_values(bits, offsets@).to_multiset(),
        ensures
            r.is_fresh(bits, streak),
            r.raw_current_number == offsets@[0],
            r.current_number == offsets@[0] * bits.spec_scale(),
            r.current_number == dealt_values(bits, offsets@)[0],
            r.suggestions@ == order@,
    {
        proof {
            lemma2_to64();
            lemma_dealt_values(bits, offsets@);
            lemma_permutation_keeps(dealt_values(bits, offsets@), order@);
        }
        let scale = bits.scale_factor();
        let raw_current_number = offsets[0];
        proof {
            assert(offsets@[0] + 0 < pow2(bits.spec_width()));
            assert(raw_current_number * scale <= 65535) by (nonlinear_arith)
                requires
                    raw_current_number < pow2(bits.spec_width()),
                    (pow2(bits.spec_width()) == 16 && scale <= 4096) || (pow2(bits.spec_width())
                        <= 65536 && scale == 1),
            ;
        }
        let current_number = raw_current_number * scale;
        proof {
            assert(dealt_values(bits, offsets@).contains(current_number)) by {
                assert(dealt_values(bits, offsets@)[0] == current_number);
            }
            assert forall|i: int| 0 <= i < order@.len() implies
                is_offerable(bits, #[trigger] order@[i]) by {
                assert(dealt_values(bits, offsets@).contains(order@[i]));
            }
        }
        let suggestions = order.clone();
        let time_total = time_limit(bits, streak);
        let selected_suggestion = Some(suggestions[0]);
        BinaryNumbersPuzzle {
            bits,
            current_number,
            raw_current_number,
            suggestions,
            selected_suggestion,
            time_total,
            time_left: time_total,
            guess_result: None,
            last_points_awarded: 0,
            stats_snapshot: None,
            skip_first_dt: true,
        }
    }

    /// The two lines that report how the round ended, if it has: a face
    /// and the outcome, then the points gained or what was lost.
    pub open spec fn spec_status(&self) -> Option<(Seq<char>, Seq<char>)> {
        match self.guess_result {
            Some(GuessResult::Correct) => Some(
                (
                    ":) success"@,
                    "gained "@ + decimal(self.last_points_awarded as nat) + " points"@,
                ),
            ),
            Some(GuessResult::Incorrect) => Some((":( incorrect"@, "lost a life"@)),
            Some(GuessResult::Timeout) => Some((":( time's up"@, "timeout"@)),
            None => None,
        }
    }

    pub fn status_lines(&self) -> (r: Option<(String, String)>)
        ensures
            match (r, self.spec_status()) {
                (Some((a, b)), Some((x, y))) => a@ == x && b@ == y,
                (None, None) => true,
                _ => false,
            },
    {
        match self.guess_result {
            Some(GuessResult::Correct) => {
                let mut gained = String::new();
                gained.append("gained ");
                push_decimal(&mut gained, self.last_points_awarded);
                gained.append(" points");
                Some((":) success".to_owned(), gained))
            },
            Some(GuessResult::Incorrect) => Some((":( incorrect".to_owned(), "lost a life".to_owned())),
            Some(GuessResult::Timeout) => Some((":( time's up".to_owned(), "timeout".to_owned())),
            None => None,
        }
    }

    /// The answers offered, in the order shown.
    pub fn suggestions(&self) -> (r: &[u32])
        ensures
            r@ == self.suggestions@,
    {
        self.suggestions.as_slice()
    }

    pub fn is_correct_guess(&self, guess: u32) -> (r: bool)
        ensures
            r == (guess == self.current_number),
    {
        guess == self.current_number
    }

    /// The shown pattern in binary, as many digits as the mode has (more
    /// if the pattern needs them), in groups of four.
    pub fn current_to_binary_string(&self) -> (r: String)
        ensures
            r@ == grouped_by_four(
                binary_padded(self.raw_current_number as nat, self.bits.spec_width()),
            ),
    {
        grouped_binary(self.raw_current_number, self.bits.to_int())
    }

    /// The time left after `dt` milliseconds pass: unchanged once a guess
    /// is in or on the first tick, otherwise down by `dt` but not below
    /// zero.
    pub open spec fn tick_time(&self, dt: u64) -> u64 {
        if self.guess_result is Some || self.skip_first_dt {
            self.time_left
        } else if self.time_left > dt {
            (self.time_left - dt) as u64
        } else {
            0
        }
    }

    /// The outcome after `dt` milliseconds pass: a guess already in stays;
    /// otherwise the round is lost to the clock when the time runs out.
    pub open spec fn tick_guess(&self, dt: u64) -> Option<GuessResult> {
        if self.guess_result is Some {
            self.guess_result
        } else if !self.skip_first_dt && self.tick_time(dt) == 0 {
            Some(GuessResult::Timeout)
        } else {
            None
        }
    }

    /// Whether the next tick is still to be skipped after this one.
    pub open spec fn tick_skip(&self) -> bool {
        if self.guess_result is Some {
            self.skip_first_dt
        } else {
            false
        }
    }

    /// Lets `dt` milliseconds pass. Nothing happens once a guess is in, and
    /// the first tick of a puzzle is skipped; otherwise the time left goes
    /// down (not below zero), and when it reaches zero the round is lost
    /// to the clock.
    pub fn run(&mut self, dt: u64)
        ensures
            final(self).bits == old(self).bits,
            final(self).current_number == old(self).current_number,
            final(self).raw_current_number == old(self).raw_current_number,
            final(self).suggestions@ == old(self).suggestions@,
            final(self).selected_suggestion == old(self).selected_suggestion,
            final(self).time_total == old(self).time_total,
            final(self).last_points_awarded == old(self).last_points_awarded,
            final(self).stats_snapshot == old(self).stats_snapshot,
            final(self).time_left == old(self).tick_time(dt),
            final(self).guess_result == old(self).tick_guess(dt),
            final(self).skip_first_dt == old(self).tick_skip(),
            old(self).wf() ==> final(self).wf(),
    {
        if self.guess_result.is_some() {
            return;
        }
        if self.skip_first_dt {
            self.skip_first_dt = false;
            return;
        }
        self.time_left = self.time_left.saturating_sub(dt);
        if self.time_left == 0 {
            self.guess_result = Some(GuessResult::Timeout);
        }
    }
}

/// The time given for a puzzle, in milliseconds.
pub fn time_limit(bits: Bits, streak: u32) -> (r: u64)
    ensures
        r == time_limit_ms(bits, streak as nat),
        r == if 4000 + 1000 * bits.spec_width() - 500 * streak < 5000 {
            5000
        } else {
            4000 + 1000 * bits.spec_width() - 500 * streak
        },
{
    let base: u64 = match bits {
        Bits::Eight => 12000,
        Bits::Twelve => 16000,
        Bits::Sixteen => 20000,
        _ => 8000,
    };
    let penalty: u64 = 500 * (streak as u64);
    if penalty > base || base - penalty < 5000 {
        5000
    } else {
        base - penalty
    }
}

/// Draws are fit for a pool of `range` values: at most `range` of them,
/// and the `i`-th below `range - i`.
pub open spec fn offsets_fit(range: nat, offsets: Seq<u32>) -> bool {
    &&& offsets.len() <= range
    &&& forall|i: int| 0 <= i < offsets.len() ==> #[trigger] offsets[i] + i < range
}

/// The pool `0, 1, ..., range - 1` after the swaps of a partial
/// Fisher-Yates shuffle: step `i` swaps the places `i` and
/// `i + offsets[i]`.
pub open spec fn shuffled_pool(range: nat, offsets: Seq<u32>) -> Seq<u32>
    decreases offsets.len(),
{
    if offsets.len() == 0 {
        Seq::new(range, |k: int| k as u32)
    } else {
        let p = shuffled_pool(range, offsets.drop_last());
        let i = offsets.len() - 1;
        let j = i + offsets.last();
        p.update(i, p[j]).update(j, p[i])
    }
}

/// The patterns the draws `offsets` pick: the first `offsets.len()`
/// places of the shuffled pool.
pub open spec fn drawn_values(range: nat, offsets: Seq<u32>) -> Seq<u32> {
    shuffled_pool(range, offsets).take(offsets.len() as int)
}

/// The values a puzzle of mode `bits` deals for the draws `offsets`: the
/// drawn patterns times the mode's scale factor.
pub open spec fn dealt_values(bits: Bits, offsets: Seq<u32>) -> Seq<u32> {
    drawn_values(pow2(bits.spec_width()), offsets).map_values(
        |v: u32| (v * bits.spec_scale()) as u32,
    )
}

/// The shuffled pool holds each value below `range` once, and its first
/// place holds the first draw.
proof fn lemma_pool(range: nat, offsets: Seq<u32>)
    requires
        offsets_fit(range, offsets),
        range <= 0x1_0000_0000,
    ensures
        shuffled_pool(range, offsets).len() == range,
        shuffled_pool(range, offsets).no_duplicates(),
        forall|k: int|
            0 <= k < range ==> #[trigger] shuffled_pool(range, offsets)[k] < range,
        offsets.len() > 0 ==> shuffled_pool(range, offsets)[0] == offsets[0],
    decreases offsets.len(),
{
    if offsets.len() > 0 {
        let prev = offsets.drop_last();
        assert forall|i: int| 0 <= i < prev.len() implies #[trigger] prev[i] + i < range by {
            assert(prev[i] == offsets[i]);
        }
        lemma_pool(range, prev);
        let p = shuffled_pool(range, prev);
        let i = offsets.len() - 1;
        let j = i + offsets.last();
        assert(offsets[i] + i < range);
        let q = shuffled_pool(range, offsets);
        assert(q == p.update(i, p[j]).update(j, p[i]));
        assert forall|a: int, b: int| 0 <= a < q.len() && 0 <= b < q.len() && a != b implies q[a]
            != q[b] by {
            assert(p[a] != p[b] || a == b);
        }
        if i == 0 {
            assert(p[j] == j);
        } else {
            assert(prev[0] == offsets[0]);
        }
    } else {
        let q = shuffled_pool(range, offsets);
        assert forall|a: int, b: int| 0 <= a < q.len() && 0 <= b < q.len() && a != b implies q[a]
            != q[b] by {}
    }
}

/// The values dealt for fitting draws are as many as the draws, all
/// different, all offerable, and the first is the first draw scaled.
proof fn lemma_dealt_values(bits: Bits, offsets: Seq<u32>)
    requires
        offsets_fit(pow2(bits.spec_width()), offsets),
        offsets.len() > 0,
    ensures
        dealt_values(bits, offsets).len() == offsets.len(),
        dealt_values(bits, offsets).no_duplicates(),
        forall|i: int|
            0 <= i < offsets.len() ==> is_offerable(bits, #[trigger] dealt_values(bits, offsets)[i]),
        dealt_values(bits, offsets)[0] == offsets[0] * bits.spec_scale(),
{
    lemma2_to64();
    let range = pow2(bits.spec_width());
    let scale = bits.spec_scale();
    lemma_pool(range, offsets);
    let raws = drawn_values(range, offsets);
    let d = dealt_values(bits, offsets);
    assert forall|i: int| 0 <= i < raws.len() implies #[trigger] raws[i] * scale <= 65535 && d[i]
        == raws[i] * scale by {
        assert(raws[i] == shuffled_pool(range, offsets)[i]);
        let r = raws[i];
        assert(r * scale <= 65535) by (nonlinear_arith)
            requires
                r < range,
                (range == 16 && scale <= 4096) || (range <= 65536 && scale == 1),
        ;
    }
    assert forall|i: int| 0 <= i < d.len() implies is_offerable(bits, #[trigger] d[i]) by {
        assert(raws[i] == shuffled_pool(range, offsets)[i]);
        lemma_mod_multiples_basic(raws[i] as int, scale as int);
        assert(raws[i] * scale <= (range - 1) * scale) by (nonlinear_arith)
            requires
                raws[i] <= range - 1,
                scale >= 1,
        ;
    }
    assert forall|i: int, j: int| 0 <= i < d.len() && 0 <= j < d.len() && i != j implies d[i]
        != d[j] by {
        assert(raws[i] == shuffled_pool(range, offsets)[i]);
        assert(raws[j] == shuffled_pool(range, offsets)[j]);
        assert(raws[i] != raws[j]);
        if raws[i] * scale == raws[j] * scale {
            assert(raws[i] == raws[j]) by (nonlinear_arith)
                requires
                    raws[i] * scale == raws[j] * scale,
                    scale >= 1,
            ;
        }
    }
}

/// The patterns the draws `offsets` pick from the pool `0..range`.
fn draw_from_pool(range: u32, offsets: &Vec<u32>) -> (r: Vec<u32>)
    requires
        offsets_fit(range as nat, offsets@),
    ensures
        r@ == drawn_values(range as nat, offsets@),
{
    let mut pool: Vec<u32> = Vec::new();
    let mut x: u32 = 0;
    while x < range
        invariant
            x <= range,
            pool@ == Seq::new(x as nat, |k: int| k as u32),
        decreases range - x,
    {
        pool.push(x);
        x = x + 1;
        assert(pool@ == Seq::new(x as nat, |k: int| k as u32));
    }
    let count = offsets.len();
    let mut i: usize = 0;
    while i < count
        invariant
            i <= count == offsets@.len(),
            offsets_fit(range as nat, offsets@),
            pool@ == shuffled_pool(range as nat, offsets@.take(i as int)),
            pool@.len() == range,
        decreases count - i,
    {
        assert(offsets@.take(i + 1).drop_last() == offsets@.take(i as int));
        assert(offsets@[i as int] + i < range);
        let j: usize = i + (offsets[i] as usize);
        let a = pool[i];
        let b = pool[j];
        pool.set(i, b);
        pool.set(j, a);
        i = i + 1;
    }
    assert(offsets@.take(count as int) == offsets@);
    let mut out: Vec<u32> = Vec::new();
    let mut k: usize = 0;
    while k < count
        invariant
            k <= count <= pool@.len(),
            out@ == pool@.take(k as int),
        decreases count - k,
    {
        out.push(pool[k]);
        k = k + 1;
    }
    out
}

/// Reordering a sequence keeps what it holds: a permutation of a sequence
/// without repeats has none either, and holds the same values.
proof fn lemma_permutation_keeps(a: Seq<u32>, b: Seq<u32>)
    requires
        a.to_multiset() == b.to_multiset(),
        a.no_duplicates(),
    ensures
        b.no_duplicates(),
        b.len() == a.len(),
        forall|x: u32| a.contains(x) <==> b.contains(x),
{
    a.to_multiset_ensures();
    b.to_multiset_ensures();
    a.lemma_multiset_has_no_duplicates();
    b.lemma_multiset_has_no_duplicates_conv();
    assert forall|x: u32| a.contains(x) <==> b.contains(x) by {
        a.to_multiset_ensures();
        b.to_multiset_ensures();
        assert(a.contains(x) <==> a.to_multiset().count(x) > 0);
        assert(b.contains(x) <==> b.to_multiset().count(x) > 0);
    }
}

/// The longer the streak, the less time a puzzle gives, but never less
/// than five seconds.
pub proof fn lemma_time_shrinks_with_streak(bits: Bits, s1: nat, s2: nat)
    requires
        s1 <= s2,
    ensures
        time_limit_ms(bits, s2) <= time_limit_ms(bits, s1),
        time_limit_ms(bits, s2) >= 5000,
        time_limit_ms(bits, 0) == base_time_ms(bits),
{
}

/// A puzzle gives four seconds plus one second per bit of the mode, less
/// half a second per point of streak, but never less than five seconds:
/// 8 s for the four-bit modes, 12 s for eight bits, 16 s for twelve and
/// 20 s for sixteen, before any streak.
pub proof fn lemma_time_by_width(bits: Bits, streak: nat)
    ensures
        time_limit_ms(bits, streak) == if 4000 + 1000 * bits.spec_width() - 500 * streak < 5000 {
            5000
        } else {
            4000 + 1000 * bits.spec_width() - 500 * streak
        },
        bits.spec_width() == 4 ==> time_limit_ms(bits, 0) == 8000,
        bits.spec_width() == 8 ==> time_limit_ms(bits, 0) == 12000,
        bits.spec_width() == 12 ==> time_limit_ms(bits, 0) == 16000,
        bits.spec_width() == 16 ==> time_limit_ms(bits, 0) == 20000,
        time_limit_ms(Bits::Twelve, streak) == if 16000 - 500 * streak < 5000 {
            5000
        } else {
            16000 - 500 * streak
        },
{
}

} // verus!
