//! Scoring, level progression and the speed curve.
//!
//! Time is counted in whole microseconds.

use vstd::prelude::*;

verus! {

/// The drop interval that the speed curve starts from: half a second.
pub const BASE_INTERVAL_MICROS: u64 = 500_000;

/// The speed curve divides the base interval by `1 + level / SPEED_STEPS`:
/// every level adds a fifth of the base speed.
pub const SPEED_STEPS: u64 = 5;

/// How many cleared lines advance the level by one.
pub const LINES_PER_LEVEL: u64 = 10;

/// A count that is held in 64 bits: `n` itself, or the largest value that
/// fits when `n` is beyond it.
pub open spec fn capped(n: nat) -> nat {
    if n > u64::MAX {
        u64::MAX as nat
    } else {
        n
    }
}

/// The points awarded for clearing `lines` rows with one piece at `level`.
/// Only one to four rows score.
pub open spec fn award(lines: nat, level: nat) -> nat {
    if lines == 1 {
        100 * level
    } else if lines == 2 {
        300 * level
    } else if lines == 3 {
        500 * level
    } else if lines == 4 {
        800 * level
    } else {
        0
    }
}

/// The level reached after `total_lines` cleared lines.
pub open spec fn level_for(total_lines: nat) -> nat {
    total_lines / (LINES_PER_LEVEL as nat) + 1
}

/// The time between two automatic descents at `level`, in microseconds: the
/// least whole number of microseconds that is not below
/// `BASE_INTERVAL_MICROS / (1 + level / SPEED_STEPS)`.
pub open spec fn drop_interval(level: nat) -> nat {
    ((BASE_INTERVAL_MICROS * SPEED_STEPS + SPEED_STEPS + level - 1) / (SPEED_STEPS + level)) as nat
}

/// The points awarded for clearing `lines` rows with one piece at `level`:
/// 100, 300, 500 or 800 times the level for one to four rows, nothing
/// otherwise. The result stops at `u64::MAX`.
pub fn line_clear_score(lines: usize, level: u64) -> (points: u64)
    ensures
        points == capped(award(lines as nat, level as nat)),
{
    let factor: u64 = match lines {
        1 => 100,
        2 => 300,
        3 => 500,
        4 => 800,
        _ => 0,
    };
    match factor.checked_mul(level) {
        Some(points) => points,
        None => u64::MAX,
    }
}

/// The level reached after `total_lines` cleared lines: one more than the
/// number of full tens.
pub fn level_for_lines(total_lines: u64) -> (level: u64)
    ensures
        level == level_for(total_lines as nat),
        level >= 1,
{
    total_lines / LINES_PER_LEVEL + 1
}

/// The time between two automatic descents at `level`, in microseconds.
pub fn drop_interval_micros(level: u64) -> (micros: u64)
    ensures
        micros == drop_interval(level as nat),
        1 <= micros <= BASE_INTERVAL_MICROS,
{
    proof {
        lemma_drop_interval_decreases(0, level as nat);
    }
    let steps: u128 = SPEED_STEPS as u128 + level as u128;
    let scaled: u128 = BASE_INTERVAL_MICROS as u128 * SPEED_STEPS as u128;
    ((scaled + steps - 1) / steps) as u64
}

/// An accumulated time has reached the drop interval of a level exactly when
/// it is at least `BASE_INTERVAL_MICROS / (1 + level / SPEED_STEPS)`, here
/// with both sides multiplied by `SPEED_STEPS + level`.
pub proof fn lemma_drop_interval_is_threshold(level: nat, accumulated: nat)
    ensures
        accumulated >= drop_interval(level) <==> accumulated * (SPEED_STEPS + level)
            >= BASE_INTERVAL_MICROS * SPEED_STEPS,
{
    let d: int = SPEED_STEPS + level;
    let n: int = BASE_INTERVAL_MICROS * SPEED_STEPS;
    let q: int = (n + d - 1) / d;
    let a: int = accumulated as int;
    assert(q >= 0 && (a >= q <==> a * d >= n)) by (nonlinear_arith)
        requires
            d > 0,
            n >= 0,
            q == (n + d - 1) / d,
    ;
}

/// The drop interval never grows with the level, is at most the base
/// interval and at least one microsecond.
pub proof fn lemma_drop_interval_decreases(lower: nat, higher: nat)
    requires
        lower <= higher,
    ensures
        1 <= drop_interval(higher) <= drop_interval(lower) <= BASE_INTERVAL_MICROS,
{
    lemma_drop_interval_is_threshold(lower, drop_interval(lower));
    lemma_drop_interval_is_threshold(higher, drop_interval(lower));
    lemma_drop_interval_is_threshold(higher, 0);
    lemma_drop_interval_is_threshold(lower, BASE_INTERVAL_MICROS as nat);
    let t: int = drop_interval(lower) as int;
    let lo: int = lower as int;
    let hi: int = higher as int;
    assert(t * (SPEED_STEPS + hi) >= t * (SPEED_STEPS + lo)) by (nonlinear_arith)
        requires
            t >= 0,
            hi >= lo,
    ;
    assert(BASE_INTERVAL_MICROS * (SPEED_STEPS + lo) >= BASE_INTERVAL_MICROS * SPEED_STEPS)
        by (nonlinear_arith)
        requires
            lo >= 0,
    ;
}

/// The level starts at one, never falls when lines are added, and rises by
/// exactly one with every `LINES_PER_LEVEL` lines.
pub proof fn lemma_level_progression(total_lines: nat, more: nat)
    ensures
        level_for(0) == 1,
        level_for(total_lines) <= level_for(total_lines + more),
        level_for(total_lines + LINES_PER_LEVEL as nat) == level_for(total_lines) + 1,
{
}

} // verus!
