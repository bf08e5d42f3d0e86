use vstd::prelude::*;

verus! {

/// A point of the complex plane, held as the exact bit patterns of its two
/// 64-bit floating-point parts. Two points are equal exactly when both parts
/// have the same representation.
#[derive(Clone, Copy, Debug, PartialEq, Eq, Structural)]
pub struct ExactPoint {
    pub re_bits: u64,
    pub im_bits: u64,
}

/// One iterate of an orbit that landed on the raster, with its pixel.
#[derive(Clone, Copy, Debug, PartialEq, Eq, Structural)]
pub struct Waypoint {
    pub img_x: i32,
    pub img_y: i32,
    pub point: ExactPoint,
}

/// The record of one sampled orbit: its seed, the iterates that landed on the
/// raster in the order they were visited, and the number of iterates computed.
#[derive(Clone, Debug)]
pub struct Trajectory {
    pub init_c: ExactPoint,
    pub waypoints: Vec<Waypoint>,
    pub length: i64,
}

/// The color channel a trajectory's waypoints are counted into.
#[derive(Clone, Copy, Debug, PartialEq, Eq, Structural)]
pub enum Channel {
    Red,
    Green,
    Blue,
}

// ---------------------------------------------------------------------------
// Color binning

/// `n / d` rounded toward zero, for a positive `d`.
pub open spec fn div_toward_zero(n: int, d: int) -> int {
    if n >= 0 {
        n / d
    } else {
        -((-n) / d)
    }
}

/// `min_iterations + span * pct / 100` with `span = max_iterations - min_iterations`,
/// rounded toward zero.
pub open spec fn threshold(min_iterations: int, max_iterations: int, pct: int) -> int {
    div_toward_zero((max_iterations - min_iterations) * pct + 100 * min_iterations, 100)
}

/// Percentages of the iteration span above which a trajectory counts as red,
/// and as green: 40 and 10 once `min_iterations` exceeds 100, else 10 and 1.
pub open spec fn red_pct(min_iterations: int) -> int {
    if min_iterations > 100 {
        40
    } else {
        10
    }
}

pub open spec fn green_pct(min_iterations: int) -> int {
    if min_iterations > 100 {
        10
    } else {
        1
    }
}

/// The channel of a trajectory of `length` iterates under the given
/// percentages. Above the red threshold it is red, else above the green one
/// green, else blue. A length equal to the green threshold is blue: the blue
/// range runs up to and including that threshold, so every length has a
/// channel.
pub open spec fn channel_with(
    length: int,
    min_iterations: int,
    max_iterations: int,
    red: int,
    green: int,
) -> Channel {
    let red_min = threshold(min_iterations, max_iterations, red);
    let green_min = threshold(min_iterations, max_iterations, green);
    if length > red_min {
        Channel::Red
    } else if length > green_min {
        Channel::Green
    } else {
        Channel::Blue
    }
}

pub open spec fn spec_channel_for(length: int, min_iterations: int, max_iterations: int) -> Channel {
    channel_with(
        length,
        min_iterations,
        max_iterations,
        red_pct(min_iterations),
        green_pct(min_iterations),
    )
}

fn threshold_exec(min_iterations: i64, max_iterations: i64, pct: i64) -> (r: i128)
    requires
        0 <= pct <= 100,
    ensures
        r as int == threshold(min_iterations as int, max_iterations as int, pct as int),
{
    let span: i128 = max_iterations as i128 - min_iterations as i128;
    assert(-18446744073709551615 <= span <= 18446744073709551615);
    assert(-1844674407370955161500 <= span * pct as i128 <= 1844674407370955161500)
        by (nonlinear_arith)
        requires
            -18446744073709551615 <= span <= 18446744073709551615,
            0 <= pct <= 100,
    ;
    let n: i128 = span * (pct as i128) + 100 * (min_iterations as i128);
    if n >= 0 {
        n / 100
    } else {
        -((-n) / 100)
    }
}

/// The channel that `channel_with` picks for the given percentages.
pub fn channel_with_pcts(
    length: i64,
    min_iterations: i64,
    max_iterations: i64,
    red: i64,
    green: i64,
) -> (r: Channel)
    requires
        0 <= red <= 100,
        0 <= green <= 100,
    ensures
        r == channel_with(
            length as int,
            min_iterations as int,
            max_iterations as int,
            red as int,
            green as int,
        ),
{
    let red_min = threshold_exec(min_iterations, max_iterations, red);
    let green_min = threshold_exec(min_iterations, max_iterations, green);
    let len = length as i128;
    if len > red_min {
        Channel::Red
    } else if len > green_min {
        Channel::Green
    } else {
        Channel::Blue
    }
}

/// The channel of a trajectory of `length` iterates in a render whose orbits
/// were kept between `min_iterations` and `max_iterations`.
pub fn channel_for(length: i64, min_iterations: i64, max_iterations: i64) -> (r: Channel)
    ensures
        r == spec_channel_for(length as int, min_iterations as int, max_iterations as int),
{
    let (red, green) = if min_iterations > 100 {
        (40i64, 10i64)
    } else {
        (10i64, 1i64)
    };
    channel_with_pcts(length, min_iterations, max_iterations, red, green)
}

/// Percentages used when replayed trajectories are painted: 70 and 20 once
/// `min_iterations` exceeds 100, else 10 and 1.
pub open spec fn replay_red_pct(min_iterations: int) -> int {
    if min_iterations > 100 {
        70
    } else {
        10
    }
}

pub open spec fn replay_green_pct(min_iterations: int) -> int {
    if min_iterations > 100 {
        20
    } else {
        1
    }
}

/// The channels, red, green and blue, that a replayed trajectory of `length`
/// iterates is painted into: all three when every trajectory has the same
/// length, else the one that `channel_with` picks.
pub open spec fn spec_replay_channels(length: int, min_iterations: int, max_iterations: int) -> (
    bool,
    bool,
    bool,
) {
    if max_iterations == min_iterations {
        (true, true, true)
    } else {
        let c = channel_with(
            length,
            min_iterations,
            max_iterations,
            replay_red_pct(min_iterations),
            replay_green_pct(min_iterations),
        );
        (c == Channel::Red, c == Channel::Green, c == Channel::Blue)
    }
}

pub fn replay_channels(length: i64, min_iterations: i64, max_iterations: i64) -> (r: (
    bool,
    bool,
    bool,
))
    ensures
        r == spec_replay_channels(length as int, min_iterations as int, max_iterations as int),
{
    if max_iterations == min_iterations {
        return (true, true, true);
    }
    let (red, green) = if min_iterations > 100 {
        (70i64, 20i64)
    } else {
        (10i64, 1i64)
    };
    let c = channel_with_pcts(length, min_iterations, max_iterations, red, green);
    (c == Channel::Red, c == Channel::Green, c == Channel::Blue)
}

/// The longest of `lengths` (at least 0) and the shortest (at most `i64::MAX`).
pub open spec fn spec_length_bounds(lengths: Seq<i64>) -> (int, int)
    decreases lengths.len(),
{
    if lengths.len() == 0 {
        (0, i64::MAX as int)
    } else {
        let (hi, lo) = spec_length_bounds(lengths.drop_last());
        let l = lengths.last() as int;
        (if l > hi {
            l
        } else {
            hi
        }, if l < lo {
            l
        } else {
            lo
        })
    }
}

pub fn length_bounds(lengths: &Vec<i64>) -> (r: (i64, i64))
    ensures
        (r.0 as int, r.1 as int) == spec_length_bounds(lengths@),
{
    let mut hi: i64 = 0;
    let mut lo: i64 = i64::MAX;
    let mut i: usize = 0;
    while i < lengths.len()
        invariant
            i <= lengths@.len(),
            (hi as int, lo as int) == spec_length_bounds(lengths@.subrange(0, i as int)),
        decreases lengths@.len() - i,
    {
        let l = lengths[i];
        if l > hi {
            hi = l;
        }
        if l < lo {
            lo = l;
        }
        assert(lengths@.subrange(0, i + 1).drop_last() =~= lengths@.subrange(0, i as int));
        i = i + 1;
    }
    assert(lengths@.subrange(0, lengths@.len() as int) =~= lengths@);
    (hi, lo)
}

/// How many milliseconds a replay waits for one trajectory: 950 plus 100
/// for each iterate of the longest trajectory.
pub fn replay_timeout_ms(max_length: i64) -> (r: u64)
    requires
        0 <= max_length <= i64::MAX / 100,
    ensures
        r as int == 950 + 100 * max_length,
{
    950 + 100 * (max_length as u64)
}

// ---------------------------------------------------------------------------
// Work sharing and the collector's patience

pub open spec fn spec_worker_quota(trajectory_count: int, thread_count: int) -> int {
    if trajectory_count / thread_count >= 1 {
        trajectory_count / thread_count
    } else {
        1
    }
}

/// How many valid trajectories each worker looks for: an even share of the
/// target, and at least one.
pub fn worker_quota(trajectory_count: usize, thread_count: usize) -> (r: usize)
    requires
        thread_count > 0,
    ensures
        r as int == spec_worker_quota(trajectory_count as int, thread_count as int),
{
    let share = trajectory_count / thread_count;
    if share >= 1 {
        share
    } else {
        1
    }
}

pub open spec fn spec_expected_count(trajectory_count: int, thread_count: int) -> int {
    let all = spec_worker_quota(trajectory_count, thread_count) * thread_count;
    if trajectory_count <= all {
        trajectory_count
    } else {
        all
    }
}

/// How many trajectories the collector waits for: the target, or what all
/// workers together produce if that is less.
pub fn expected_count(trajectory_count: usize, thread_count: usize) -> (r: usize)
    requires
        thread_count > 0,
    ensures
        r as int == spec_expected_count(trajectory_count as int, thread_count as int),
{
    let quota = worker_quota(trajectory_count, thread_count);
    if quota == 1 {
        if trajectory_count <= thread_count {
            trajectory_count
        } else {
            thread_count
        }
    } else {
        assert(quota * thread_count <= trajectory_count) by (nonlinear_arith)
            requires
                quota == trajectory_count / thread_count,
                thread_count > 0,
        ;
        let all = quota * thread_count;
        if trajectory_count <= all {
            trajectory_count
        } else {
            all
        }
    }
}

/// How many milliseconds the collector waits for one trajectory before it
/// takes the run as finished: 250 plus 100 for each required iteration.
pub fn receive_timeout_ms(min_iterations: i64) -> (r: u64)
    requires
        0 <= min_iterations <= i64::MAX / 100,
    ensures
        r as int == 250 + 100 * min_iterations,
{
    250 + 100 * (min_iterations as u64)
}

/// The even share of a search over `thread_count` workers, and the total
/// that the shares add up to (at most `trajectory_count`).
pub fn search_shares(trajectory_count: usize, thread_count: usize) -> (r: (usize, usize))
    requires
        thread_count > 0,
    ensures
        r.0 as int == trajectory_count as int / thread_count as int,
        r.1 as int == r.0 * thread_count,
        r.1 <= trajectory_count,
{
    let share = trajectory_count / thread_count;
    assert(share * thread_count <= trajectory_count) by (nonlinear_arith)
        requires
            share == trajectory_count / thread_count,
            thread_count > 0,
    ;
    (share, share * thread_count)
}

} // verus!
