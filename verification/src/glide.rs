//! Pointer moves that take time: one position per millisecond, on a straight
//! line from where the pointer is, and the waiting between them.

use crate::model::MoveMode;
use vstd::prelude::*;

verus! {

/// A pointer move that is made step by step.
#[derive(Debug, Clone, Copy, PartialEq, Eq, Structural)]
pub struct Glide {
    /// The horizontal coordinate, as the mode means it.
    pub x: i32,
    /// The vertical coordinate, as the mode means it.
    pub y: i32,
    /// How long the move takes, in milliseconds: the number of its steps.
    pub duration: u64,
    /// How the coordinates are meant.
    pub mode: MoveMode,
}

/// The coordinate nearest to `v` that a pointer can have.
pub open spec fn clamp(v: int) -> i32 {
    if v < i32::MIN {
        i32::MIN
    } else if v > i32::MAX {
        i32::MAX
    } else {
        v as i32
    }
}

/// `a` divided by `b`, which is above 0, rounded toward 0.
pub open spec fn toward_zero(a: int, b: int) -> int {
    if a >= 0 {
        a / b
    } else {
        -((-a) / b)
    }
}

/// How far the pointer is to go in all, in one direction: to `target` from
/// `start`, or by `target`.
pub open spec fn displacement(mode: MoveMode, target: i32, start: i32) -> int {
    match mode {
        MoveMode::Absolute => target - start,
        MoveMode::Relative => target as int,
    }
}

/// Where the pointer is, in one direction, at the step `tick` of
/// `duration`: at `start` plus the part `tick / duration` of `offset`,
/// rounded toward `start`, or at the nearest coordinate that there is.
pub open spec fn along(start: i32, offset: int, tick: u64, duration: u64) -> i32 {
    clamp(start + toward_zero(offset * tick, duration as int))
}

impl Glide {
    /// Where the pointer is at the step `tick` of the move, which began at
    /// `start`.
    pub open spec fn position(self, start: (i32, i32), tick: u64) -> (i32, i32) {
        (
            along(start.0, displacement(self.mode, self.x, start.0), tick, self.duration),
            along(start.1, displacement(self.mode, self.y, start.1), tick, self.duration),
        )
    }

    /// Where to put the pointer at the step `tick` of the move, which began
    /// at `start`: the steps are 0 up to `duration - 1`, and there is none
    /// from `duration` on.
    pub fn position_at(&self, start: (i32, i32), tick: u64) -> (r: Option<(i32, i32)>)
        ensures
            r == if tick < self.duration {
                Some(self.position(start, tick))
            } else {
                None
            },
    {
        if tick >= self.duration {
            return None;
        }
        let dx = offset_of(self.mode, self.x, start.0);
        let dy = offset_of(self.mode, self.y, start.1);
        Some(
            (
                step_along(start.0, dx, tick, self.duration),
                step_along(start.1, dy, tick, self.duration),
            ),
        )
    }
}

/// Works out how far the pointer is to go in one direction.
pub fn offset_of(mode: MoveMode, target: i32, start: i32) -> (r: i64)
    ensures
        r == displacement(mode, target, start),
{
    match mode {
        MoveMode::Absolute => target as i64 - start as i64,
        MoveMode::Relative => target as i64,
    }
}

/// A part of a length is not longer than the length.
pub proof fn lemma_part_is_shorter(m: int, tick: int, duration: int)
    by (nonlinear_arith)
    requires
        0 <= m,
        0 <= tick,
        0 < duration,
    ensures
        0 <= m * tick,
        0 <= (m * tick) / duration <= m * tick,
        tick < duration ==> (m * tick) / duration <= m,
        (m == 0 || tick == 0) ==> (m * tick) / duration == 0,
{
}

/// Works out where the pointer is in one direction at the step `tick` of a
/// move of `duration` steps.
pub fn step_along(start: i32, offset: i64, tick: u64, duration: u64) -> (r: i32)
    requires
        duration > 0,
    ensures
        r == along(start, offset as int, tick, duration),
{
    let wide: i128 = offset as i128;
    let magnitude: u128 = if wide < 0 {
        (-wide) as u128
    } else {
        wide as u128
    };
    proof {
        lemma_part_is_shorter(magnitude as int, tick as int, duration as int);
        assert(magnitude * tick <= 0x8000_0000_0000_0000 * 0xffff_ffff_ffff_ffff)
            by (nonlinear_arith)
            requires
                0 <= magnitude <= 0x8000_0000_0000_0000,
                0 <= tick <= 0xffff_ffff_ffff_ffff,
        ;
        if offset < 0 {
            assert(-(offset * tick) == magnitude * tick) by (nonlinear_arith)
                requires
                    magnitude == -offset,
            ;
            assert(offset * tick <= 0) by (nonlinear_arith)
                requires
                    offset < 0,
                    tick >= 0,
            ;
        } else {
            assert(offset * tick == magnitude * tick);
        }
    }
    let part: u128 = magnitude * (tick as u128) / (duration as u128);
    let moved: i128 = if wide < 0 {
        -(part as i128)
    } else {
        part as i128
    };
    assert(moved == toward_zero(offset * tick, duration as int));
    let at: i128 = start as i128 + moved;
    if at < i32::MIN as i128 {
        i32::MIN
    } else if at > i32::MAX as i128 {
        i32::MAX
    } else {
        at as i32
    }
}

/// Where a pointer at `start` is after a move by `by` in one direction: the
/// sum, or the nearest coordinate that there is.
pub fn moved_by(start: i32, by: i32) -> (r: i32)
    ensures
        r == clamp(start + by),
{
    let at: i64 = start as i64 + by as i64;
    if at < i32::MIN as i64 {
        i32::MIN
    } else if at > i32::MAX as i64 {
        i32::MAX
    } else {
        at as i32
    }
}

/// A move to a position begins where the pointer is and stays between that
/// and the position.
pub proof fn lemma_glide_stays_between(glide: Glide, start: (i32, i32), tick: u64)
    requires
        glide.mode == MoveMode::Absolute,
        tick < glide.duration,
    ensures
        glide.position(start, 0) == start,
        start.0 <= glide.x ==> start.0 <= glide.position(start, tick).0 <= glide.x,
        start.0 >= glide.x ==> start.0 >= glide.position(start, tick).0 >= glide.x,
        start.1 <= glide.y ==> start.1 <= glide.position(start, tick).1 <= glide.y,
        start.1 >= glide.y ==> start.1 >= glide.position(start, tick).1 >= glide.y,
{
    lemma_between(start.0, glide.x, tick, glide.duration);
    lemma_between(start.1, glide.y, tick, glide.duration);
}

/// In one direction, a move to a position begins where the pointer is and
/// stays between that and the position.
pub proof fn lemma_between(start: i32, target: i32, tick: u64, duration: u64)
    requires
        tick < duration,
    ensures
        along(start, target - start, 0, duration) == start,
        start <= target ==> start <= along(start, target - start, tick, duration) <= target,
        start >= target ==> start >= along(start, target - start, tick, duration) >= target,
{
    let offset = target - start;
    let m = if offset < 0 {
        -offset
    } else {
        offset
    };
    lemma_part_is_shorter(m, tick as int, duration as int);
    lemma_part_is_shorter(m, 0, duration as int);
    assert(offset * 0 == 0) by (nonlinear_arith);
    assert(m * 0 == 0) by (nonlinear_arith);
    if offset < 0 {
        assert(-(offset * tick) == m * tick) by (nonlinear_arith)
            requires
                m == -offset,
        ;
        assert(offset * tick <= 0) by (nonlinear_arith)
            requires
                offset < 0,
                tick >= 0,
        ;
    } else {
        assert(offset * tick >= 0) by (nonlinear_arith)
            requires
                offset >= 0,
                tick >= 0,
        ;
    }
}

/// How long to sleep.
#[derive(Debug, Clone, Copy, PartialEq, Eq, Structural)]
pub struct Wait {
    /// Whole seconds.
    pub secs: u64,
    /// The rest in nanoseconds, below a second.
    pub nanos: u32,
}

/// How long there is to wait for the moment `target_ms` milliseconds into a
/// run or a move, `elapsed_nanos` nanoseconds into it: the time that is
/// left, or nothing where the moment has come or gone.
pub fn remaining_wait(target_ms: u64, elapsed_nanos: u128) -> (r: Option<Wait>)
    ensures
        match r {
            Some(wait) => elapsed_nanos < target_ms * 1_000_000 && wait.nanos < 1_000_000_000
                && wait.secs * 1_000_000_000 + wait.nanos == target_ms * 1_000_000
                - elapsed_nanos,
            None => elapsed_nanos >= target_ms * 1_000_000,
        },
{
    let target: u128 = target_ms as u128 * 1_000_000;
    if elapsed_nanos >= target {
        None
    } else {
        let left: u128 = target - elapsed_nanos;
        Some(Wait { secs: (left / 1_000_000_000) as u64, nanos: (left % 1_000_000_000) as u32 })
    }
}

} // verus!
