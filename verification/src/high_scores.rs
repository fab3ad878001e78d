//! The table of best scores, one per game mode, and its text file format.
use crate::bits::Bits;
use crate::text::{decimal, digit_char, push_char, push_decimal};
use std::collections::HashMap;
use vstd::prelude::*;

verus! {

broadcast use vstd::std_specs::hash::group_hash_axioms;

/// Best score per high-score key (see `Bits::high_score_key`).
pub struct HighScores {
    scores: HashMap<u32, u32>,
}

/// The score recorded for `key`, or 0 where none is.
pub open spec fn score_of(table: Map<u32, u32>, key: u32) -> u32 {
    if table.contains_key(key) {
        table[key]
    } else {
        0
    }
}

impl View for HighScores {
    type V = Map<u32, u32>;

    closed spec fn view(&self) -> Map<u32, u32> {
        self.scores@
    }
}

impl HighScores {
    /// A table with no score in it.
    pub fn empty() -> (r: Self)
        ensures
            r@ == Map::<u32, u32>::empty(),
    {
        HighScores { scores: HashMap::new() }
    }

    /// The best score under `bits`, 0 if there is none.
    pub fn get(&self, bits: u32) -> (r: u32)
        ensures
            r == score_of(self@, bits),
    {
        match self.scores.get(&bits) {
            Some(v) => *v,
            None => 0,
        }
    }

    /// A copy of the table.
    pub fn duplicate(&self) -> (r: Self)
        ensures
            r@ == self@,
    {
        HighScores { scores: self.scores.clone() }
    }

    /// Records `score` under `bits`, replacing what was there.
    pub fn update(&mut self, bits: u32, score: u32)
        ensures
            final(self)@ == old(self)@.insert(bits, score),
    {
        self.scores.insert(bits, score);
    }
}

// ---------------------------------------------------------------------
// The file format: one line `key=value` per mode.
// ---------------------------------------------------------------------

/// Unicode white space, the characters `char::is_whitespace` accepts.
pub open spec fn is_space(c: char) -> bool {
    let u = c as u32;
    ||| 0x9 <= u <= 0xd
    ||| u == 0x20
    ||| u == 0x85
    ||| u == 0xa0
    ||| u == 0x1680
    ||| 0x2000 <= u <= 0x200a
    ||| u == 0x2028
    ||| u == 0x2029
    ||| u == 0x202f
    ||| u == 0x205f
    ||| u == 0x3000
}

/// `s` without the white space at its start.
pub open spec fn trim_start(s: Seq<char>) -> Seq<char>
    decreases s.len(),
{
    if s.len() > 0 && is_space(s[0]) {
        trim_start(s.drop_first())
    } else {
        s
    }
}

/// `s` without the white space at its end.
pub open spec fn trim_end(s: Seq<char>) -> Seq<char>
    decreases s.len(),
{
    if s.len() > 0 && is_space(s.last()) {
        trim_end(s.drop_last())
    } else {
        s
    }
}

/// `s` without white space at either end (as `str::trim`).
pub open spec fn trim(s: Seq<char>) -> Seq<char> {
    trim_end(trim_start(s))
}

pub open spec fn is_digit(c: char) -> bool {
    48 <= (c as u32) <= 57
}

pub open spec fn all_digits(s: Seq<char>) -> bool {
    forall|i: int| 0 <= i < s.len() ==> is_digit(#[trigger] s[i])
}

/// The number that the decimal digits `s` write.
pub open spec fn digits_value(s: Seq<char>) -> nat
    decreases s.len(),
{
    if s.len() == 0 {
        0
    } else {
        digits_value(s.drop_last()) * 10 + ((s.last() as u32) - 48) as nat
    }
}

/// What `str::parse::<u32>` makes of `s`: an optional `+`, then one or
/// more decimal digits whose value fits in a `u32`; anything else is an
/// error.
pub open spec fn parse_u32(s: Seq<char>) -> Option<u32> {
    let d = if s.len() > 0 && s[0] == '+' {
        s.drop_first()
    } else {
        s
    };
    if d.len() > 0 && all_digits(d) && digits_value(d) <= u32::MAX {
        Some(digits_value(d) as u32)
    } else {
        None
    }
}

/// The key and score of a line `key=value`: split at the first `=`, each
/// side trimmed and read as a `u32`; `None` if either fails.
pub open spec fn parse_line(line: Seq<char>) -> Option<(u32, u32)> {
    match line.index_of_first('=') {
        Some(i) => match (parse_u32(trim(line.take(i))), parse_u32(trim(line.skip(i + 1)))) {
            (Some(k), Some(v)) => Some((k, v)),
            _ => None,
        },
        None => None,
    }
}

/// The table with the entry of `line` written in, if the line holds one.
pub open spec fn apply_line(table: Map<u32, u32>, line: Seq<char>) -> Map<u32, u32> {
    match parse_line(line) {
        Some((k, v)) => table.insert(k, v),
        None => table,
    }
}

/// Reading `text` from the state `start` (the table so far and the line
/// read so far): each newline settles the line before it.
pub open spec fn scan_from(start: (Map<u32, u32>, Seq<char>), text: Seq<char>) -> (
    Map<u32, u32>,
    Seq<char>,
)
    decreases text.len(),
{
    if text.len() == 0 {
        start
    } else {
        let prev = scan_from(start, text.drop_last());
        if text.last() == '\n' {
            (apply_line(prev.0, prev.1), Seq::empty())
        } else {
            (prev.0, prev.1.push(text.last()))
        }
    }
}

/// The table a high-score file holds: its lines, separated by `\n`, read
/// in order, a later line for a key replacing an earlier one, lines that
/// do not parse skipped. (A `\r` before a `\n` is white space, which the
/// trimming removes.)
pub open spec fn parse_scores(text: Seq<char>) -> Map<u32, u32> {
    let end = scan_from((Map::empty(), Seq::empty()), text);
    apply_line(end.0, end.1)
}

/// The keys written to the file, in order.
pub open spec fn score_keys() -> Seq<u32> {
    seq![4, 42, 44, 48, 412, 8, 12, 16]
}

/// The line `key=value\n`.
pub open spec fn score_line(key: u32, value: u32) -> Seq<char> {
    decimal(key as nat) + seq!['='] + decimal(value as nat) + seq!['\n']
}

/// The file written for `table`: a line for each of `keys`, with the
/// key's score (0 where there is none).
pub open spec fn text_for(keys: Seq<u32>, table: Map<u32, u32>) -> Seq<char>
    decreases keys.len(),
{
    if keys.len() == 0 {
        Seq::empty()
    } else {
        text_for(keys.drop_last(), table) + score_line(keys.last(), score_of(table, keys.last()))
    }
}

impl HighScores {
    /// The table a high-score file's text holds (see `parse_scores`).
    pub fn from_text(text: &str) -> (r: Self)
        ensures
            r@ == parse_scores(text@),
    {
        let mut scores: HashMap<u32, u32> = HashMap::new();
        let mut line: Vec<char> = Vec::new();
        let ghost start = (Map::<u32, u32>::empty(), Seq::<char>::empty());
        let ghost chars = text@;
        for c in it: text.chars()
            invariant
                chars == text@,
                it.seq() == chars,
                (scores@, line@) == scan_from(start, chars.take(it.index())),
        {
            proof {
                assert(chars.take(it.index() + 1).drop_last() == chars.take(it.index()));
                assert(chars[it.index()] == c);
            }
            if c == '\n' {
                apply_line_into(&mut scores, &line);
                line = Vec::new();
            } else {
                line.push(c);
            }
        }
        proof {
            assert(chars.take(chars.len() as int) == chars);
        }
        apply_line_into(&mut scores, &line);
        HighScores { scores }
    }

    /// The file text for this table: `key=value` lines for each mode's key,
    /// in a fixed order.
    pub fn to_text(&self) -> (r: String)
        ensures
            r@ == text_for(score_keys(), self@),
    {
        let keys: Vec<u32> = vec![4, 42, 44, 48, 412, 8, 12, 16];
        assert(keys@ == score_keys());
        let mut out = String::new();
        let mut i: usize = 0;
        while i < keys.len()
            invariant
                i <= keys@.len(),
                keys@ == score_keys(),
                out@ == text_for(keys@.take(i as int), self@),
            decreases keys.len() - i,
        {
            let key = keys[i];
            let val = self.get(key);
            proof {
                assert(keys@.take(i + 1).drop_last() == keys@.take(i as int));
            }
            push_decimal(&mut out, key);
            push_char(&mut out, '=');
            push_decimal(&mut out, val);
            push_char(&mut out, '\n');
            i = i + 1;
        }
        assert(keys@.take(keys@.len() as int) == keys@);
        out
    }
}

/// Writes the entry of `line`, if it holds one, into `scores`.
fn apply_line_into(scores: &mut HashMap<u32, u32>, line: &Vec<char>)
    ensures
        final(scores)@ == apply_line(old(scores)@, line@),
{
    let n = line.len();
    match position_of_char(line, '=') {
        Some(i) => {
            let (a, b) = trim_range(line, 0, i);
            let (c, d) = trim_range(line, i + 1, n);
            proof {
                assert(line@.take(i as int) == line@.subrange(0, i as int));
                assert(line@.skip(i + 1) == line@.subrange(i + 1, line@.len() as int));
            }
            let key = parse_u32_range(line, a, b);
            let value = parse_u32_range(line, c, d);
            match (key, value) {
                (Some(k), Some(v)) => {
                    scores.insert(k, v);
                },
                _ => {},
            }
        },
        None => {},
    }
}

/// The first place where `x` stands in `v`, if any.
fn position_of_char(v: &Vec<char>, x: char) -> (r: Option<usize>)
    ensures
        r matches Some(i) ==> i < v@.len() && v@.index_of_first(x) == Some(i as int),
        r is None ==> v@.index_of_first(x) is None,
{
    let mut i: usize = 0;
    while i < v.len()
        invariant
            i <= v@.len(),
            forall|j: int| 0 <= j < i ==> v@[j] != x,
        decreases v.len() - i,
    {
        if v[i] == x {
            proof {
                v@.index_of_first_ensures(x);
                assert(v@.contains(x)) by {
                    assert(v@[i as int] == x);
                }
                let k = v@.index_of_first(x)->0;
                assert(k == i);
            }
            return Some(i);
        }
        i = i + 1;
    }
    proof {
        v@.index_of_first_ensures(x);
        if v@.index_of_first(x) is Some {
            let k = v@.index_of_first(x)->0;
            assert(v@[k] == x);
        }
    }
    None
}

fn is_space_char(c: char) -> (r: bool)
    ensures
        r == is_space(c),
{
    let u = c as u32;
    (0x9 <= u && u <= 0xd) || u == 0x20 || u == 0x85 || u == 0xa0 || u == 0x1680 || (0x2000 <= u
        && u <= 0x200a) || u == 0x2028 || u == 0x2029 || u == 0x202f || u == 0x205f || u == 0x3000
}

/// The bounds of `v[lo..hi]` without white space at either end.
fn trim_range(v: &Vec<char>, lo: usize, hi: usize) -> (r: (usize, usize))
    requires
        lo <= hi <= v@.len(),
    ensures
        lo <= r.0 <= r.1 <= hi,
        v@.subrange(r.0 as int, r.1 as int) == trim(v@.subrange(lo as int, hi as int)),
{
    let mut a = lo;
    while a < hi && is_space_char(v[a])
        invariant
            lo <= a <= hi <= v@.len(),
            trim_start(v@.subrange(lo as int, hi as int)) == trim_start(
                v@.subrange(a as int, hi as int),
            ),
        decreases hi - a,
    {
        assert(v@.subrange(a as int, hi as int).drop_first() == v@.subrange(a + 1, hi as int));
        a = a + 1;
    }
    let mut b = hi;
    while b > a && is_space_char(v[b - 1])
        invariant
            lo <= a <= b <= hi <= v@.len(),
            trim_end(v@.subrange(a as int, hi as int)) == trim_end(v@.subrange(a as int, b as int)),
        decreases b - a,
    {
        assert(v@.subrange(a as int, b as int).drop_last() == v@.subrange(a as int, b - 1));
        b = b - 1;
    }
    (a, b)
}

/// What `str::parse::<u32>` makes of `v[lo..hi]`.
fn parse_u32_range(v: &Vec<char>, lo: usize, hi: usize) -> (r: Option<u32>)
    requires
        lo <= hi <= v@.len(),
    ensures
        r == parse_u32(v@.subrange(lo as int, hi as int)),
{
    let ghost s = v@.subrange(lo as int, hi as int);
    let start = if lo < hi && v[lo] == '+' {
        lo + 1
    } else {
        lo
    };
    let ghost d = v@.subrange(start as int, hi as int);
    assert(d == if s.len() > 0 && s[0] == '+' {
        s.drop_first()
    } else {
        s
    });
    if start == hi {
        return None;
    }
    let mut acc: u32 = 0;
    let mut i = start;
    while i < hi
        invariant
            start <= i <= hi <= v@.len(),
            start < hi,
            d == v@.subrange(start as int, hi as int),
            s == v@.subrange(lo as int, hi as int),
            d == if s.len() > 0 && s[0] == '+' {
                s.drop_first()
            } else {
                s
            },
            all_digits(d.take(i - start)),
            acc == digits_value(d.take(i - start)),
        decreases hi - i,
    {
        let c = v[i];
        let u = c as u32;
        if u < 48 || u > 57 {
            assert(!is_digit(d[i - start]));
            assert(!all_digits(d));
            return None;
        }
        let digit = u - 48;
        proof {
            assert(d.take(i - start + 1).drop_last() == d.take(i - start));
        }
        if acc > (u32::MAX - digit) / 10 {
            proof {
                assert(digits_value(d.take(i - start + 1)) > u32::MAX);
                if all_digits(d) {
                    lemma_digits_prefix(d, i - start + 1);
                }
                assert(!(all_digits(d) && digits_value(d) <= u32::MAX));
            }
            return None;
        }
        acc = acc * 10 + digit;
        i = i + 1;
    }
    assert(d.take(hi - start) == d);
    Some(acc)
}

/// A prefix of a run of digits writes no larger a number than the run.
proof fn lemma_digits_prefix(d: Seq<char>, k: int)
    requires
        all_digits(d),
        0 <= k <= d.len(),
    ensures
        digits_value(d.take(k)) <= digits_value(d),
    decreases d.len(),
{
    if k < d.len() {
        assert(d.drop_last().take(k) == d.take(k));
        lemma_digits_prefix(d.drop_last(), k);
    } else {
        assert(d.take(k) == d);
    }
}

// ---------------------------------------------------------------------
// Writing a table and reading it back.
// ---------------------------------------------------------------------

/// The table holding, for each of `keys`, that key's score in `table`.
pub open spec fn table_of_keys(keys: Seq<u32>, table: Map<u32, u32>) -> Map<u32, u32>
    decreases keys.len(),
{
    if keys.len() == 0 {
        Map::empty()
    } else {
        table_of_keys(keys.drop_last(), table).insert(keys.last(), score_of(table, keys.last()))
    }
}

/// Reading text in two parts is reading the second from where the first
/// left off.
proof fn lemma_scan_concat(start: (Map<u32, u32>, Seq<char>), a: Seq<char>, b: Seq<char>)
    ensures
        scan_from(start, a + b) == scan_from(scan_from(start, a), b),
    decreases b.len(),
{
    if b.len() == 0 {
        assert(a + b == a);
    } else {
        assert((a + b).drop_last() == a + b.drop_last());
        assert((a + b).last() == b.last());
        lemma_scan_concat(start, a, b.drop_last());
    }
}

/// Text without a newline only adds to the current line.
proof fn lemma_scan_no_newline(start: (Map<u32, u32>, Seq<char>), s: Seq<char>)
    requires
        !s.contains('\n'),
    ensures
        scan_from(start, s) == (start.0, start.1 + s),
    decreases s.len(),
{
    if s.len() == 0 {
        assert(start.1 + s == start.1);
    } else {
        assert(!s.drop_last().contains('\n')) by {
            if s.drop_last().contains('\n') {
                let i = choose|i: int| 0 <= i < s.drop_last().len() && s.drop_last()[i] == '\n';
                assert(s[i] == '\n');
            }
        }
        assert(s.last() != '\n') by {
            assert(s[s.len() - 1] == s.last());
        }
        lemma_scan_no_newline(start, s.drop_last());
        assert(start.1 + s.drop_last().push(s.last()) == start.1 + s);
    }
}

/// A decimal number is a non-empty run of digits that writes that number.
proof fn lemma_decimal(n: nat)
    ensures
        decimal(n).len() > 0,
        all_digits(decimal(n)),
        digits_value(decimal(n)) == n,
    decreases n,
{
    let d = n % 10;
    assert((digit_char(d) as u32) == d + 48);
    assert(decimal(n).last() == digit_char(d));
    assert(digits_value(decimal(n)) == digits_value(decimal(n).drop_last()) * 10 + ((
    decimal(n).last() as u32) - 48) as nat);
    if n >= 10 {
        lemma_decimal(n / 10);
        assert(decimal(n).drop_last() == decimal(n / 10));
        assert(n == (n / 10) * 10 + d);
    } else {
        assert(decimal(n).drop_last() == Seq::<char>::empty());
    }
}

/// Digits are not white space, so a run of digits trims to itself.
proof fn lemma_trim_digits(s: Seq<char>)
    requires
        all_digits(s),
    ensures
        trim(s) == s,
{
    if s.len() > 0 {
        assert(is_digit(s[0]));
        assert(is_digit(s[s.len() - 1]));
    }
    assert(trim_start(s) == s);
}

/// A run of digits reads as the number it writes, when that fits.
proof fn lemma_parse_digits(s: Seq<char>)
    requires
        s.len() > 0,
        all_digits(s),
        digits_value(s) <= u32::MAX,
    ensures
        parse_u32(s) == Some(digits_value(s) as u32),
{
    assert(is_digit(s[0]));
}

/// A line written for a key and score reads back as that key and score.
proof fn lemma_parse_score_line(key: u32, value: u32)
    ensures
        parse_line(decimal(key as nat) + seq!['='] + decimal(value as nat)) == Some((key, value)),
{
    let k = decimal(key as nat);
    let v = decimal(value as nat);
    let line = k + seq!['='] + v;
    lemma_decimal(key as nat);
    lemma_decimal(value as nat);
    line.index_of_first_ensures('=');
    assert(line[k.len() as int] == '=');
    assert(line.contains('='));
    let i = line.index_of_first('=')->0;
    if i < k.len() {
        assert(is_digit(k[i]));
        assert(line[i] == k[i]);
    }
    assert(i == k.len());
    assert(line.take(i) == k);
    assert(line.skip(i + 1) == v);
    lemma_trim_digits(k);
    lemma_trim_digits(v);
    lemma_parse_digits(k);
    lemma_parse_digits(v);
}

/// Reading the lines written for `keys` gives, for each of them, its score.
proof fn lemma_scan_text_for(keys: Seq<u32>, table: Map<u32, u32>)
    ensures
        scan_from((Map::empty(), Seq::empty()), text_for(keys, table)) == (
            table_of_keys(keys, table),
            Seq::<char>::empty(),
        ),
    decreases keys.len(),
{
    let start = (Map::<u32, u32>::empty(), Seq::<char>::empty());
    if keys.len() == 0 {
    } else {
        let key = keys.last();
        let value = score_of(table, key);
        let line = decimal(key as nat) + seq!['='] + decimal(value as nat);
        let before = text_for(keys.drop_last(), table);
        lemma_scan_text_for(keys.drop_last(), table);
        assert(score_line(key, value) == line + seq!['\n']);
        assert(text_for(keys, table) == before + (line + seq!['\n'])) by {
            assert(before + score_line(key, value) == before + (line + seq!['\n']));
        }
        lemma_scan_concat(start, before, line + seq!['\n']);
        let mid = (table_of_keys(keys.drop_last(), table), Seq::<char>::empty());
        lemma_decimal(key as nat);
        lemma_decimal(value as nat);
        assert(!line.contains('\n')) by {
            if line.contains('\n') {
                let i = choose|i: int| 0 <= i < line.len() && line[i] == '\n';
                let kl = decimal(key as nat).len() as int;
                if i < kl {
                    assert(is_digit(decimal(key as nat)[i]));
                } else if i > kl {
                    assert(is_digit(decimal(value as nat)[i - kl - 1]));
                }
            }
        }
        assert((line + seq!['\n']).drop_last() == line);
        lemma_scan_no_newline(mid, line);
        assert(Seq::<char>::empty() + line == line);
        lemma_parse_score_line(key, value);
    }
}

/// Whether `k` is among `keys`, with its score, in `table_of_keys`.
proof fn lemma_table_of_keys(keys: Seq<u32>, table: Map<u32, u32>, k: u32)
    ensures
        score_of(table_of_keys(keys, table), k) == if keys.contains(k) {
            score_of(table, k)
        } else {
            0
        },
    decreases keys.len(),
{
    if keys.len() > 0 {
        lemma_table_of_keys(keys.drop_last(), table, k);
        if k != keys.last() {
            assert(keys.contains(k) == keys.drop_last().contains(k)) by {
                if keys.contains(k) {
                    let i = choose|i: int| 0 <= i < keys.len() && keys[i] == k;
                    assert(keys.drop_last()[i] == k);
                }
                if keys.drop_last().contains(k) {
                    let i = choose|i: int| 0 <= i < keys.drop_last().len() && keys.drop_last()[i] == k;
                    assert(keys[i] == k);
                }
            }
        } else {
            assert(keys[keys.len() - 1] == k);
        }
    }
}

/// Saving the table and loading the file back gives the score of every
/// mode's key as it was, and no score for any other key.
pub proof fn lemma_save_then_load(table: Map<u32, u32>, key: u32)
    ensures
        score_of(parse_scores(text_for(score_keys(), table)), key) == if score_keys().contains(
            key,
        ) {
            score_of(table, key)
        } else {
            0
        },
{
    lemma_scan_text_for(score_keys(), table);
    Seq::<char>::empty().index_of_first_ensures('=');
    assert(parse_line(Seq::<char>::empty()) is None);
    lemma_table_of_keys(score_keys(), table, key);
}

/// The file holds a line for every mode's key, and only those.
pub proof fn lemma_every_mode_saved(b: Bits)
    ensures
        score_keys().contains(b.spec_key() as u32),
        score_keys().len() == 8,
{
    let i: int = match b {
        Bits::Four => 0,
        Bits::FourTwosComplement => 1,
        Bits::FourShift4 => 2,
        Bits::FourShift8 => 3,
        Bits::FourShift12 => 4,
        Bits::Eight => 5,
        Bits::Twelve => 6,
        Bits::Sixteen => 7,
    };
    assert(score_keys()[i] == b.spec_key() as u32);
}

} // verus!
