//! The snake game's shared state and the per-frame decision step.  The
//! terminal, the clock, and the score file stay with the embedding program;
//! this module holds the rules.

use vstd::prelude::*;
use crate::game::game_direction::Direction;
use crate::game::snake::Snake;

pub mod game_direction;
pub mod game_display;
pub mod snake;

verus! {

/// The game's flags and scores.
pub struct GameState {
    game_is_runing: bool,
    game_is_suspend: bool,
    game_score: usize,
    game_historic_score: usize,
}

impl GameState {
    /// Whether the main loop should keep going.
    pub closed spec fn spec_is_runing(&self) -> bool {
        self.game_is_runing
    }

    /// Whether the game sits in its game-over screen.
    pub closed spec fn spec_is_suspend(&self) -> bool {
        self.game_is_suspend
    }

    /// The current score.
    pub closed spec fn spec_score(&self) -> int {
        self.game_score as int
    }

    /// The best score seen so far.
    pub closed spec fn spec_historic_score(&self) -> int {
        self.game_historic_score as int
    }

    /// A fresh state: running, not suspended, both scores zero.  Loading a
    /// saved best score is the embedding program's part; it hands the file's
    /// bytes to `load_historic_score`.
    pub fn new() -> (r: Self)
        ensures
            r.spec_is_runing(),
            !r.spec_is_suspend(),
            r.spec_score() == 0,
            r.spec_historic_score() == 0,
    {
        GameState {
            game_is_runing: true,
            game_is_suspend: false,
            game_score: 0,
            game_historic_score: 0,
        }
    }

    pub fn get_game_is_runing(&self) -> (r: bool)
        ensures
            r == self.spec_is_runing(),
    {
        self.game_is_runing
    }

    pub fn set_game_is_runing(&mut self, new_state: bool)
        ensures
            final(self).spec_is_runing() == new_state,
            final(self).spec_is_suspend() == old(self).spec_is_suspend(),
            final(self).spec_score() == old(self).spec_score(),
            final(self).spec_historic_score() == old(self).spec_historic_score(),
    {
        self.game_is_runing = new_state
    }

    pub fn get_game_is_suspend(&self) -> (r: bool)
        ensures
            r == self.spec_is_suspend(),
    {
        self.game_is_suspend
    }

    pub fn set_game_is_suspend(&mut self, new_state: bool)
        ensures
            final(self).spec_is_suspend() == new_state,
            final(self).spec_is_runing() == old(self).spec_is_runing(),
            final(self).spec_score() == old(self).spec_score(),
            final(self).spec_historic_score() == old(self).spec_historic_score(),
    {
        self.game_is_suspend = new_state
    }

    pub fn get_game_score(&self) -> (r: usize)
        ensures
            r as int == self.spec_score(),
    {
        self.game_score
    }

    pub fn set_game_score(&mut self, new_score: usize)
        ensures
            final(self).spec_score() == new_score,
            final(self).spec_is_runing() == old(self).spec_is_runing(),
            final(self).spec_is_suspend() == old(self).spec_is_suspend(),
            final(self).spec_historic_score() == old(self).spec_historic_score(),
    {
        self.game_score = new_score
    }

    pub fn get_game_historic_score(&self) -> (r: usize)
        ensures
            r as int == self.spec_historic_score(),
    {
        self.game_historic_score
    }

    /// Take the best score out of the score file's bytes: the value of the
    /// first `historic_score` line, zero when there is none.  Reading the
    /// file itself is the embedding program's part.
    pub fn load_historic_score(&mut self, content: &[u8])
        requires
            content@.len() < usize::MAX as int,
        ensures
            final(self).spec_historic_score() == historic_from(content@),
            final(self).spec_is_runing() == old(self).spec_is_runing(),
            final(self).spec_is_suspend() == old(self).spec_is_suspend(),
            final(self).spec_score() == old(self).spec_score(),
    {
        let mut i: usize = 0;
        let mut result: usize = 0;
        let mut found = false;
        while i < content.len() && !found
            invariant
                i <= content@.len() + 1,
                content@.len() < usize::MAX as int,
                !found ==> result == 0 && historic_from(content@) == historic_from_at(
                    content@,
                    i as int,
                ),
                found ==> result as int == historic_from(content@),
            decreases content@.len() + 2 - i + (if found {
                0int
            } else {
                1int
            }),
        {
            let (line, next) = extract_line(content, i);
            let c = first_in(&line, 58);
            if c < line.len() {
                let key = trimmed_copy(&line, 0, c);
                proof {
                    assert(line@.subrange(0, c as int) =~= line@.take(c as int));
                }
                if is_key(&key) {
                    let value = trimmed_copy(&line, c + 1, line.len());
                    proof {
                        assert(line@.subrange(c as int + 1, line@.len() as int) =~= line@.skip(
                            c as int + 1,
                        ));
                    }
                    result = parse_usize_or_zero(&value);
                    found = true;
                } else {
                    i = next;
                }
            } else {
                i = next;
            }
        }
        self.game_historic_score = result;
    }

    /// Store the current score when it beats the best one: the best score
    /// is raised and the score file's new bytes are returned for the
    /// embedding program to write.  A score that does not beat the best one
    /// changes nothing and returns `None`.
    pub fn save_historic_score(&mut self, content: &[u8]) -> (r: Option<Vec<u8>>)
        requires
            content@.len() < usize::MAX as int,
        ensures
            old(self).spec_score() <= old(self).spec_historic_score() ==> r is None && *final(self)
                == *old(self),
            old(self).spec_score() > old(self).spec_historic_score() ==> {
                &&& final(self).spec_historic_score() == old(self).spec_score()
                &&& final(self).spec_is_runing() == old(self).spec_is_runing()
                &&& final(self).spec_is_suspend() == old(self).spec_is_suspend()
                &&& final(self).spec_score() == old(self).spec_score()
                &&& r matches Some(v) && v@ == updated_content(content@, old(self).spec_score())
            },
    {
        if self.game_score <= self.game_historic_score {
            return None;
        }
        let score = self.game_score;
        self.game_historic_score = score;

        let mut out: Vec<u8> = Vec::new();
        let mut i: usize = 0;
        let mut replaced = false;
        proof {
            assert(out@ + updated_from(content@, 0, score as int) =~= updated_content(
                content@,
                score as int,
            ));
        }
        while i < content.len() && !replaced
            invariant
                i <= content@.len() + 1,
                content@.len() < usize::MAX as int,
                !replaced ==> out@ + updated_from(content@, i as int, score as int)
                    == updated_content(content@, score as int),
                replaced ==> out@ + relined(content@, i as int) == updated_content(
                    content@,
                    score as int,
                ),
            decreases content@.len() + 2 - i + (if replaced {
                0int
            } else {
                1int
            }),
        {
            let (line, next) = extract_line(content, i);
            let c = first_in(&line, 58);
            let mut matched = false;
            if c < line.len() {
                let key = trimmed_copy(&line, 0, c);
                proof {
                    assert(line@.subrange(0, c as int) =~= line@.take(c as int));
                }
                if is_key(&key) {
                    matched = true;
                }
            }
            if matched {
                push_new_line(&mut out, score);
                out.push(10);
                replaced = true;
                i = next;
                proof {
                    assert(out@ + relined(content@, i as int) =~= updated_content(
                        content@,
                        score as int,
                    ));
                }
            } else {
                out.extend_from_slice(line.as_slice());
                out.push(10);
                i = next;
                proof {
                    assert(out@ + updated_from(content@, i as int, score as int)
                        =~= updated_content(content@, score as int));
                }
            }
        }
        if !replaced {
            push_new_line(&mut out, score);
            out.push(10);
            proof {
                assert(out@ =~= updated_content(content@, score as int));
            }
        } else {
            while i < content.len()
                invariant
                    i <= content@.len() + 1,
                    content@.len() < usize::MAX as int,
                    out@ + relined(content@, i as int) == updated_content(
                        content@,
                        score as int,
                    ),
                decreases content@.len() + 2 - i,
            {
                let (line, next) = extract_line(content, i);
                out.extend_from_slice(line.as_slice());
                out.push(10);
                i = next;
                proof {
                    assert(out@ + relined(content@, i as int) =~= updated_content(
                        content@,
                        score as int,
                    ));
                }
            }
            proof {
                assert(out@ =~= updated_content(content@, score as int));
            }
        }
        Some(out)
    }
}

/// ASCII whitespace, as trimming removes it.
pub open spec fn is_space(b: u8) -> bool {
    b == 32 || (9 <= b && b <= 13)
}

/// `s` without leading whitespace.
pub open spec fn trim_start(s: Seq<u8>) -> Seq<u8>
    decreases s.len(),
{
    if s.len() > 0 && is_space(s[0]) {
        trim_start(s.drop_first())
    } else {
        s
    }
}

/// `s` without trailing whitespace.
pub open spec fn trim_end(s: Seq<u8>) -> Seq<u8>
    decreases s.len(),
{
    if s.len() > 0 && is_space(s.last()) {
        trim_end(s.drop_last())
    } else {
        s
    }
}

/// `s` without leading or trailing whitespace.
pub open spec fn trim_spec(s: Seq<u8>) -> Seq<u8> {
    trim_end(trim_start(s))
}

/// The bytes of the stored key, `historic_score`.
pub open spec fn key_bytes() -> Seq<u8> {
    seq![104u8, 105u8, 115u8, 116u8, 111u8, 114u8, 105u8, 99u8, 95u8, 115u8, 99u8, 111u8, 114u8, 101u8]
}

/// The first index at which `t` occurs in `s`, or `s.len()`.
pub open spec fn first_at(s: Seq<u8>, t: u8) -> int
    decreases s.len(),
{
    if s.len() == 0 {
        0
    } else if s[0] == t {
        0
    } else {
        1 + first_at(s.drop_first(), t)
    }
}

/// The index of the first newline at or after `i`, or `s.len()`.
pub open spec fn line_end(s: Seq<u8>, i: int) -> int
    recommends
        0 <= i <= s.len(),
    decreases s.len() - i,
{
    if i >= s.len() {
        s.len() as int
    } else if s[i] == 10 {
        i
    } else {
        line_end(s, i + 1)
    }
}

/// A line without its trailing carriage return, if it has one.
pub open spec fn strip_cr(line: Seq<u8>) -> Seq<u8> {
    if line.len() > 0 && line.last() == 13 {
        line.drop_last()
    } else {
        line
    }
}

/// Whether every byte of `s` is a decimal digit.
pub open spec fn all_digits(s: Seq<u8>) -> bool {
    forall|i: int| 0 <= i < s.len() ==> 48 <= #[trigger] s[i] <= 57
}

/// The number the digit bytes of `s` spell.
pub open spec fn digits_val(s: Seq<u8>) -> int
    decreases s.len(),
{
    if s.len() == 0 {
        0
    } else {
        digits_val(s.drop_last()) * 10 + (s.last() - 48)
    }
}

/// What parsing `s` as an unsigned number yields: its value when `s` is
/// non-empty, all digits, and fits; zero otherwise.
pub open spec fn parse_or_zero(s: Seq<u8>) -> int {
    if s.len() > 0 && all_digits(s) && digits_val(s) <= usize::MAX as int {
        digits_val(s)
    } else {
        0
    }
}

/// Whether a stripped line stores the key: a colon exists and what stands
/// before it trims to `historic_score`.
pub open spec fn line_matches(line: Seq<u8>) -> bool {
    first_at(line, 58) < line.len() && trim_spec(line.take(first_at(line, 58))) == key_bytes()
}

/// What a matching stripped line stores: the trimmed text after its first
/// colon, parsed as a number.
pub open spec fn line_value(line: Seq<u8>) -> int {
    parse_or_zero(trim_spec(line.skip(first_at(line, 58) + 1)))
}

/// The stored best score: the value of the first line whose key matches,
/// scanning the lines of `s` from `i`; zero when none matches.
pub open spec fn historic_from_at(s: Seq<u8>, i: int) -> int
    recommends
        0 <= i,
    decreases s.len() + 1 - i,
        when 0 <= i
        via historic_from_at_dec
{
    if i >= s.len() {
        0
    } else {
        let e = line_end(s, i);
        let line = strip_cr(s.subrange(i, e));
        if line_matches(line) {
            line_value(line)
        } else {
            historic_from_at(s, e + 1)
        }
    }
}

/// The stored best score in a score file's bytes.
pub open spec fn historic_from(s: Seq<u8>) -> int {
    historic_from_at(s, 0)
}

/// The decimal digit bytes of `n`, most significant first.
pub open spec fn dec_bytes(n: int) -> Seq<u8>
    recommends
        n >= 0,
    decreases n,
{
    if n < 10 {
        seq![(n + 48) as u8]
    } else {
        dec_bytes(n / 10).push((n % 10 + 48) as u8)
    }
}

/// The line that stores `score`: `historic_score: ` followed by the number.
pub open spec fn new_line_bytes(score: int) -> Seq<u8> {
    key_bytes() + seq![58u8, 32u8] + dec_bytes(score)
}

/// The remaining lines of `s` from `i`, each stripped of its carriage
/// return and ended by one newline.
pub open spec fn relined(s: Seq<u8>, i: int) -> Seq<u8>
    recommends
        0 <= i,
    decreases s.len() + 1 - i,
        when 0 <= i
        via relined_dec
{
    if i >= s.len() {
        Seq::empty()
    } else {
        let e = line_end(s, i);
        strip_cr(s.subrange(i, e)) + seq![10u8] + relined(s, e + 1)
    }
}

/// The score file's bytes after storing `score`: the first line whose key
/// matches is replaced, or the stored line is appended when none matches;
/// every line comes out stripped of carriage returns and newline-ended.
pub open spec fn updated_from(s: Seq<u8>, i: int, score: int) -> Seq<u8>
    recommends
        0 <= i,
    decreases s.len() + 1 - i,
        when 0 <= i
        via updated_from_dec
{
    if i >= s.len() {
        new_line_bytes(score) + seq![10u8]
    } else {
        let e = line_end(s, i);
        let line = strip_cr(s.subrange(i, e));
        if line_matches(line) {
            new_line_bytes(score) + seq![10u8] + relined(s, e + 1)
        } else {
            line + seq![10u8] + updated_from(s, e + 1, score)
        }
    }
}

/// The score file's bytes after storing `score`.
pub open spec fn updated_content(s: Seq<u8>, score: int) -> Seq<u8> {
    updated_from(s, 0, score)
}

/// The end of the line starting at `i` lies between `i` and the end of
/// `s`.
proof fn lemma_line_end_bounds(s: Seq<u8>, i: int)
    requires
        0 <= i <= s.len(),
    ensures
        i <= line_end(s, i) <= s.len(),
    decreases s.len() - i,
{
    if i < s.len() && s[i] != 10 {
        lemma_line_end_bounds(s, i + 1);
    }
}

#[via_fn]
proof fn historic_from_at_dec(s: Seq<u8>, i: int) {
    if i < s.len() {
        lemma_line_end_bounds(s, i);
    }
}

#[via_fn]
proof fn relined_dec(s: Seq<u8>, i: int) {
    if i < s.len() {
        lemma_line_end_bounds(s, i);
    }
}

#[via_fn]
proof fn updated_from_dec(s: Seq<u8>, i: int, score: int) {
    if i < s.len() {
        lemma_line_end_bounds(s, i);
    }
}

/// A scan that saw no `t` up to `e`, and `t` or the end at `e`, found the
/// first occurrence.
proof fn lemma_first_at(s: Seq<u8>, t: u8, e: int)
    requires
        0 <= e <= s.len(),
        forall|j: int| 0 <= j < e ==> s[j] != t,
        e == s.len() || s[e] == t,
    ensures
        first_at(s, t) == e,
    decreases e,
{
    if e == 0 {
    } else {
        assert(forall|j: int|
            0 <= j < e - 1 ==> #[trigger] s.drop_first()[j] == s[j + 1]);
        lemma_first_at(s.drop_first(), t, e - 1);
    }
}

/// A scan that saw no newline in `[i, e)`, and a newline or the end at
/// `e`, found the line end.
proof fn lemma_line_end(s: Seq<u8>, i: int, e: int)
    requires
        0 <= i <= e <= s.len(),
        forall|j: int| i <= j < e ==> s[j] != 10,
        e == s.len() || s[e] == 10,
    ensures
        line_end(s, i) == e,
    decreases e - i,
{
    if i < e {
        lemma_line_end(s, i + 1, e);
    }
}

/// When everything before `k` is whitespace and `k` is the end or not
/// whitespace, trimming the start drops exactly `k` bytes.
proof fn lemma_trim_start(s: Seq<u8>, k: int)
    requires
        0 <= k <= s.len(),
        forall|j: int| 0 <= j < k ==> is_space(#[trigger] s[j]),
        k == s.len() || !is_space(s[k]),
    ensures
        trim_start(s) == s.skip(k),
    decreases k,
{
    if k == 0 {
        assert(trim_start(s) =~= s.skip(0));
    } else {
        assert(forall|j: int|
            0 <= j < s.len() - 1 ==> #[trigger] s.drop_first()[j] == s[j + 1]);
        lemma_trim_start(s.drop_first(), k - 1);
        assert(s.drop_first().skip(k - 1) =~= s.skip(k));
    }
}

/// When everything from `k` on is whitespace and `k` is the start or
/// preceded by non-whitespace, trimming the end keeps exactly `k` bytes.
proof fn lemma_trim_end(s: Seq<u8>, k: int)
    requires
        0 <= k <= s.len(),
        forall|j: int| k <= j < s.len() ==> is_space(#[trigger] s[j]),
        k == 0 || !is_space(s[k - 1]),
    ensures
        trim_end(s) == s.take(k),
    decreases s.len(),
{
    if k == s.len() {
        if s.len() > 0 {
            assert(trim_end(s) =~= s.take(s.len() as int));
        } else {
            assert(trim_end(s) =~= s.take(0));
        }
    } else {
        assert(is_space(s.last()));
        assert(forall|j: int|
            0 <= j < s.len() - 1 ==> #[trigger] s.drop_last()[j] == s[j]);
        lemma_trim_end(s.drop_last(), k);
        assert(s.drop_last().take(k) =~= s.take(k));
    }
}

/// Digit bytes spell a non-negative number.
proof fn lemma_digits_val_nonneg(s: Seq<u8>)
    requires
        all_digits(s),
    ensures
        digits_val(s) >= 0,
    decreases s.len(),
{
    if s.len() > 0 {
        assert(forall|j: int|
            0 <= j < s.len() - 1 ==> #[trigger] s.drop_last()[j] == s[j]);
        lemma_digits_val_nonneg(s.drop_last());
    }
}

/// A prefix of digit bytes spells at most what all of them spell.
proof fn lemma_digits_val_mono(s: Seq<u8>, k: int)
    requires
        all_digits(s),
        0 <= k <= s.len(),
    ensures
        digits_val(s.take(k)) <= digits_val(s),
    decreases s.len(),
{
    if k == s.len() {
        assert(s.take(k) =~= s);
    } else {
        assert(forall|j: int|
            0 <= j < s.len() - 1 ==> #[trigger] s.drop_last()[j] == s[j]);
        lemma_digits_val_mono(s.drop_last(), k);
        assert(s.drop_last().take(k) =~= s.take(k));
        lemma_digits_val_nonneg(s.drop_last());
    }
}

/// The stripped line starting at `start`, and the index one past its end.
fn extract_line(content: &[u8], start: usize) -> (r: (Vec<u8>, usize))
    requires
        start < content@.len(),
        content@.len() < usize::MAX as int,
    ensures
        r.1 as int == line_end(content@, start as int) + 1,
        r.0@ == strip_cr(content@.subrange(start as int, line_end(content@, start as int))),
        start < r.1,
        r.1 as int <= content@.len() + 1,
{
    let mut e: usize = start;
    while e < content.len() && content[e] != 10
        invariant
            start <= e <= content@.len(),
            forall|j: int| start <= j < e ==> content@[j] != 10,
        decreases content@.len() - e,
    {
        e = e + 1;
    }
    proof {
        lemma_line_end(content@, start as int, e as int);
    }
    let stop: usize = if e > start && content[e - 1] == 13 {
        e - 1
    } else {
        e
    };
    let mut line: Vec<u8> = Vec::new();
    let mut j: usize = start;
    proof {
        assert(line@ =~= content@.subrange(start as int, start as int));
    }
    while j < stop
        invariant
            start <= j <= stop <= content@.len(),
            line@ == content@.subrange(start as int, j as int),
        decreases stop - j,
    {
        line.push(content[j]);
        j = j + 1;
        proof {
            assert(line@ =~= content@.subrange(start as int, j as int));
        }
    }
    proof {
        if e > start && content@[e as int - 1] == 13 {
            assert(content@.subrange(start as int, e as int).last() == content@[e as int - 1]);
            assert(line@ =~= strip_cr(content@.subrange(start as int, e as int)));
        } else {
            assert(line@ =~= strip_cr(content@.subrange(start as int, e as int)));
        }
    }
    (line, e + 1)
}

/// The index of the first `t` in `line`, or its length.
fn first_in(line: &Vec<u8>, t: u8) -> (c: usize)
    ensures
        c as int == first_at(line@, t),
        c <= line@.len(),
{
    let mut c: usize = 0;
    while c < line.len() && line[c] != t
        invariant
            c <= line@.len(),
            forall|j: int| 0 <= j < c ==> line@[j] != t,
        decreases line@.len() - c,
    {
        c = c + 1;
    }
    proof {
        lemma_first_at(line@, t, c as int);
    }
    c
}

/// The bytes of `line[lo..hi]` with whitespace trimmed off both ends.
fn trimmed_copy(line: &Vec<u8>, lo: usize, hi: usize) -> (r: Vec<u8>)
    requires
        lo <= hi <= line@.len(),
    ensures
        r@ == trim_spec(line@.subrange(lo as int, hi as int)),
{
    let ghost piece = line@.subrange(lo as int, hi as int);
    let mut ts: usize = lo;
    while ts < hi && (line[ts] == 32 || (9 <= line[ts] && line[ts] <= 13))
        invariant
            lo <= ts <= hi,
            hi <= line@.len(),
            forall|j: int| lo <= j < ts ==> is_space(#[trigger] line@[j]),
        decreases hi - ts,
    {
        ts = ts + 1;
    }
    proof {
        assert(forall|j: int| 0 <= j < piece.len() ==> #[trigger] piece[j] == line@[lo + j]);
        lemma_trim_start(piece, ts as int - lo as int);
        assert(piece.skip(ts as int - lo as int) =~= line@.subrange(ts as int, hi as int));
    }
    let ghost started = line@.subrange(ts as int, hi as int);
    let mut te: usize = hi;
    while te > ts && (line[te - 1] == 32 || (9 <= line[te - 1] && line[te - 1] <= 13))
        invariant
            ts <= te <= hi,
            hi <= line@.len(),
            forall|j: int| te <= j < hi ==> is_space(#[trigger] line@[j]),
        decreases te,
    {
        te = te - 1;
    }
    proof {
        assert(forall|j: int|
            0 <= j < started.len() ==> #[trigger] started[j] == line@[ts + j]);
        lemma_trim_end(started, te as int - ts as int);
        assert(started.take(te as int - ts as int) =~= line@.subrange(ts as int, te as int));
    }
    let mut out: Vec<u8> = Vec::new();
    let mut j: usize = ts;
    proof {
        assert(out@ =~= line@.subrange(ts as int, ts as int));
    }
    while j < te
        invariant
            ts <= j <= te <= line@.len(),
            out@ == line@.subrange(ts as int, j as int),
        decreases te - j,
    {
        out.push(line[j]);
        j = j + 1;
        proof {
            assert(out@ =~= line@.subrange(ts as int, j as int));
        }
    }
    out
}

/// The byte of the stored key at `idx`.
fn key_byte(idx: usize) -> (b: u8)
    requires
        idx < 14,
    ensures
        b == key_bytes()[idx as int],
{
    match idx {
        0 => 104,
        1 => 105,
        2 => 115,
        3 => 116,
        4 => 111,
        5 => 114,
        6 => 105,
        7 => 99,
        8 => 95,
        9 => 115,
        10 => 99,
        11 => 111,
        _ => {
            if idx == 12 {
                114
            } else {
                101
            }
        },
    }
}

/// Whether `bytes` spell exactly the stored key.
fn is_key(bytes: &Vec<u8>) -> (r: bool)
    ensures
        r == (bytes@ == key_bytes()),
{
    if bytes.len() != 14 {
        return false;
    }
    let mut k: usize = 0;
    while k < 14
        invariant
            k <= 14,
            bytes@.len() == 14,
            forall|j: int| 0 <= j < k ==> #[trigger] bytes@[j] == key_bytes()[j],
        decreases 14 - k,
    {
        let expected = key_byte(k);
        if bytes[k] != expected {
            return false;
        }
        k = k + 1;
    }
    proof {
        assert(bytes@ =~= key_bytes());
    }
    true
}

/// The number the bytes spell, or zero when they are empty, hold a
/// non-digit, or overflow.
fn parse_usize_or_zero(bytes: &Vec<u8>) -> (r: usize)
    ensures
        r as int == parse_or_zero(bytes@),
{
    if bytes.len() == 0 {
        return 0;
    }
    let mut k: usize = 0;
    let mut acc: usize = 0;
    while k < bytes.len()
        invariant
            k <= bytes@.len(),
            forall|j: int| 0 <= j < k ==> 48 <= #[trigger] bytes@[j] <= 57,
            acc as int == digits_val(bytes@.take(k as int)),
        decreases bytes@.len() - k,
    {
        let b = bytes[k];
        if b < 48 || b > 57 {
            return 0;
        }
        let d: usize = (b - 48) as usize;
        let shifted = match acc.checked_mul(10) {
            Some(v) => v,
            None => {
                proof {
                    assert(bytes@.take(k as int + 1).drop_last() =~= bytes@.take(k as int));
                    assert(digits_val(bytes@.take(k as int + 1)) > usize::MAX as int);
                    lemma_digits_val_mono_prefix_blocked(bytes@, k as int + 1);
                }
                return 0;
            },
        };
        let next = match shifted.checked_add(d) {
            Some(v) => v,
            None => {
                proof {
                    assert(bytes@.take(k as int + 1).drop_last() =~= bytes@.take(k as int));
                    assert(digits_val(bytes@.take(k as int + 1)) > usize::MAX as int);
                    lemma_digits_val_mono_prefix_blocked(bytes@, k as int + 1);
                }
                return 0;
            },
        };
        acc = next;
        k = k + 1;
        proof {
            assert(bytes@.take(k as int).drop_last() =~= bytes@.take(k as int - 1));
        }
    }
    proof {
        assert(bytes@.take(bytes@.len() as int) =~= bytes@);
    }
    acc
}

/// When some prefix of the digit bytes already exceeds the machine range,
/// parsing yields zero.
proof fn lemma_digits_val_mono_prefix_blocked(s: Seq<u8>, k: int)
    requires
        0 <= k <= s.len(),
        forall|j: int| 0 <= j < k ==> 48 <= #[trigger] s[j] <= 57,
        digits_val(s.take(k)) > usize::MAX as int,
    ensures
        parse_or_zero(s) == 0,
{
    if s.len() > 0 && all_digits(s) && digits_val(s) <= usize::MAX as int {
        lemma_digits_val_mono(s, k);
        assert(false);
    }
}

/// Append the stored line for `score` to `out`.
fn push_new_line(out: &mut Vec<u8>, score: usize)
    ensures
        final(out)@ == old(out)@ + new_line_bytes(score as int),
{
    let mut k: usize = 0;
    proof {
        assert(out@ =~= old(out)@ + key_bytes().take(0));
    }
    while k < 14
        invariant
            k <= 14,
            out@ == old(out)@ + key_bytes().take(k as int),
        decreases 14 - k,
    {
        let b = key_byte(k);
        out.push(b);
        k = k + 1;
        proof {
            assert(out@ =~= old(out)@ + key_bytes().take(k as int));
        }
    }
    proof {
        assert(key_bytes().take(14) =~= key_bytes());
    }
    out.push(58);
    out.push(32);
    push_dec_bytes(out, score);
    proof {
        assert(out@ =~= old(out)@ + new_line_bytes(score as int));
    }
}

/// Append the decimal digit bytes of `n` to `out`.
fn push_dec_bytes(out: &mut Vec<u8>, n: usize)
    ensures
        final(out)@ == old(out)@ + dec_bytes(n as int),
    decreases n,
{
    if n < 10 {
        out.push((48 + n as u8));
        proof {
            assert(out@ =~= old(out)@ + dec_bytes(n as int));
        }
    } else {
        push_dec_bytes(out, n / 10);
        out.push((48 + (n % 10) as u8));
        proof {
            assert(out@ =~= old(out)@ + dec_bytes(n as int));
        }
    }
}

/// What one pass of the game loop decided; the embedding program renders,
/// sleeps, reads keys, and rebuilds on restart.
#[derive(Debug, Clone, Copy, PartialEq, Eq, Structural)]
pub enum TickAction {
    /// The game sits in its game-over screen: draw it and wait.
    Suspended,
    /// The player asked for a fresh game: rebuild everything.
    Restart,
    /// The player quit: leave the loop and wind down.
    Exiting,
    /// A normal step was taken: draw the new frame and wait.
    Stepped,
}

/// One pass of the game loop, given the last input read: on the game-over
/// screen only restart and quit mean anything; otherwise quit ends the
/// game, any other input steers, and the snake takes one step.
pub fn game_tick(
    game_state: &mut GameState,
    snake: &mut Snake,
    input: Option<Direction>,
    canvas_width: usize,
    canvas_height: usize,
) -> (a: TickAction)
    requires
        old(snake).inv(),
        2 <= canvas_width <= 1000000,
        2 <= canvas_height <= 1000000,
    ensures
        final(snake).inv(),
        old(game_state).spec_is_suspend() ==> {
            &&& (input == Some(Direction::Restart) ==> a == TickAction::Restart && *final(snake)
                == *old(snake) && *final(game_state) == *old(game_state))
            &&& (input == Some(Direction::Quit) ==> {
                &&& a == TickAction::Exiting
                &&& *final(snake) == *old(snake)
                &&& !final(game_state).spec_is_runing()
                &&& final(game_state).spec_is_suspend() == old(game_state).spec_is_suspend()
                &&& final(game_state).spec_score() == old(game_state).spec_score()
                &&& final(game_state).spec_historic_score() == old(
                    game_state,
                ).spec_historic_score()
            })
            &&& (input != Some(Direction::Restart) && input != Some(Direction::Quit) ==> a
                == TickAction::Suspended && *final(snake) == *old(snake) && *final(game_state)
                == *old(game_state))
        },
        !old(game_state).spec_is_suspend() ==> {
            &&& (input == Some(Direction::Quit) ==> {
                &&& a == TickAction::Exiting
                &&& *final(snake) == *old(snake)
                &&& !final(game_state).spec_is_runing()
                &&& final(game_state).spec_is_suspend() == old(game_state).spec_is_suspend()
                &&& final(game_state).spec_score() == old(game_state).spec_score()
                &&& final(game_state).spec_historic_score() == old(
                    game_state,
                ).spec_historic_score()
            })
            &&& (input != Some(Direction::Quit) ==> a == TickAction::Stepped
                && snake::move_rel(
                old(snake).with_direction(
                    snake::spec_steer(old(snake).spec_head_direction(), input),
                ),
                *final(snake),
                *old(game_state),
                *final(game_state),
                canvas_width as int,
                canvas_height as int,
            ))
        },
{
    if game_state.get_game_is_suspend() {
        match input {
            Some(Direction::Restart) => TickAction::Restart,
            Some(Direction::Quit) => {
                game_state.set_game_is_runing(false);
                TickAction::Exiting
            },
            _ => TickAction::Suspended,
        }
    } else {
        match input {
            Some(Direction::Quit) => {
                game_state.set_game_is_runing(false);
                TickAction::Exiting
            },
            Some(dir) => {
                match snake.get_head_direction().apply(dir) {
                    Some(new_dir) => snake.set_head_direction(new_dir),
                    None => {
                        proof {
                            snake::lemma_with_direction_self(*snake);
                        }
                    },
                }
                snake.snake_move(game_state, canvas_width, canvas_height);
                TickAction::Stepped
            },
            None => {
                proof {
                    snake::lemma_with_direction_self(*snake);
                }
                snake.snake_move(game_state, canvas_width, canvas_height);
                TickAction::Stepped
            },
        }
    }
}

} // verus!
