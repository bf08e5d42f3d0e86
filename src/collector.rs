use vstd::prelude::*;

use std::collections::HashMap;

use crate::buddha::{
    channel_for, replay_channels, spec_channel_for, spec_replay_channels, Channel, Trajectory,
    Waypoint,
};
use crate::ppm::{
    max_int,
    lemma_index_in_grid, lemma_index_injective, lemma_update_keeps_wf, Img, ImgView,
};

verus! {

broadcast use vstd::std_specs::hash::group_hash_axioms;

/// `v` after one increment for each waypoint of `wps`, in order.
pub open spec fn incr_all(v: ImgView, wps: Seq<Waypoint>) -> ImgView
    decreases wps.len(),
{
    if wps.len() == 0 {
        v
    } else {
        incr_all(v, wps.drop_last()).incr(wps.last().img_x as int, wps.last().img_y as int)
    }
}

/// The three channel histograms, red, green and blue.
pub struct Channels {
    pub red: ImgView,
    pub green: ImgView,
    pub blue: ImgView,
}

pub open spec fn fresh_channels(height: int, width: int) -> Channels {
    Channels {
        red: ImgView::fresh(height, width),
        green: ImgView::fresh(height, width),
        blue: ImgView::fresh(height, width),
    }
}

/// The channels after trajectory `t`: each of its waypoints is counted once
/// in the channel that its length bins to.
pub open spec fn deposit(c: Channels, t: Trajectory, min_iterations: int, max_iterations: int) -> Channels {
    match spec_channel_for(t.length as int, min_iterations, max_iterations) {
        Channel::Red => Channels { red: incr_all(c.red, t.waypoints@), ..c },
        Channel::Green => Channels { green: incr_all(c.green, t.waypoints@), ..c },
        Channel::Blue => Channels { blue: incr_all(c.blue, t.waypoints@), ..c },
    }
}

/// The channels after each trajectory of `ts`, in order.
pub open spec fn deposit_all(
    c: Channels,
    ts: Seq<Trajectory>,
    min_iterations: int,
    max_iterations: int,
) -> Channels
    decreases ts.len(),
{
    if ts.len() == 0 {
        c
    } else {
        deposit(
            deposit_all(c, ts.drop_last(), min_iterations, max_iterations),
            ts.last(),
            min_iterations,
            max_iterations,
        )
    }
}

/// The number of trajectories of each length, after one more of length `k`
/// (a count stops at `u64::MAX`).
pub open spec fn count_length(m: Map<i64, u64>, k: i64) -> Map<i64, u64> {
    let cur: u64 = if m.contains_key(k) {
        m[k]
    } else {
        0
    };
    m.insert(
        k,
        if cur < u64::MAX {
            (cur + 1) as u64
        } else {
            cur
        },
    )
}

/// What the collector holds between two deliveries.
pub struct CollectorView {
    pub height: int,
    pub width: int,
    pub min_iterations: int,
    pub max_iterations: int,
    pub expected: int,
    pub received: int,
    pub channels: Channels,
    pub lengths: Map<i64, u64>,
    /// Every trajectory received, in order of arrival.
    pub history: Seq<Trajectory>,
}

impl CollectorView {
    pub open spec fn wf(self) -> bool {
        &&& self.channels.red.wf()
        &&& self.channels.green.wf()
        &&& self.channels.blue.wf()
        &&& self.received == self.history.len()
        &&& self.received <= self.expected
        &&& self.channels == deposit_all(
            fresh_channels(self.height, self.width),
            self.history,
            self.min_iterations,
            self.max_iterations,
        )
    }

    pub open spec fn complete(self) -> bool {
        self.received >= self.expected
    }
}

/// One outcome of the collector's wait for the next trajectory.
pub enum Delivery {
    /// A worker handed on this trajectory.
    Arrived(Trajectory),
    /// No trajectory came within the timeout.
    TimedOut,
}

/// The single consumer of the workers' trajectories: it bins each one to a
/// channel and counts its waypoints into that channel's histogram.
pub struct Collector {
    height: i64,
    width: i64,
    min_iterations: i64,
    max_iterations: i64,
    expected: usize,
    received: usize,
    red: Img,
    green: Img,
    blue: Img,
    lengths: HashMap<i64, u64>,
    history: Ghost<Seq<Trajectory>>,
}

impl View for Collector {
    type V = CollectorView;

    closed spec fn view(&self) -> CollectorView {
        CollectorView {
            height: self.height as int,
            width: self.width as int,
            min_iterations: self.min_iterations as int,
            max_iterations: self.max_iterations as int,
            expected: self.expected as int,
            received: self.received as int,
            channels: Channels { red: self.red@, green: self.green@, blue: self.blue@ },
            lengths: self.lengths@,
            history: self.history@,
        }
    }
}

proof fn lemma_incr_all_keeps_wf(v: ImgView, wps: Seq<Waypoint>)
    requires
        v.wf(),
    ensures
        incr_all(v, wps).wf(),
        incr_all(v, wps).height == v.height,
        incr_all(v, wps).width == v.width,
    decreases wps.len(),
{
    if wps.len() > 0 {
        lemma_incr_all_keeps_wf(v, wps.drop_last());
        lemma_update_keeps_wf(
            incr_all(v, wps.drop_last()),
            wps.last().img_x as int,
            wps.last().img_y as int,
            0,
        );
    }
}

/// How many waypoints of `wps` lie on pixel `(x, y)`.
pub open spec fn hits(wps: Seq<Waypoint>, x: int, y: int) -> int
    decreases wps.len(),
{
    if wps.len() == 0 {
        0
    } else {
        hits(wps.drop_last(), x, y) + if wps.last().img_x as int == x && wps.last().img_y as int
            == y {
            1int
        } else {
            0int
        }
    }
}

proof fn lemma_hits_bounded(wps: Seq<Waypoint>, x: int, y: int)
    ensures
        0 <= hits(wps, x, y) <= wps.len(),
    decreases wps.len(),
{
    if wps.len() > 0 {
        lemma_hits_bounded(wps.drop_last(), x, y);
    }
}

/// Counting waypoints into a fresh grid depends only on how many of them
/// fall on each pixel, not on their order: every pixel ends up holding the
/// number of waypoints on it, and the running maximum is the largest of
/// those counts, or 1 when none exceeds 1.
pub proof fn lemma_counts_are_hits(height: int, width: int, wps: Seq<Waypoint>)
    requires
        0 <= height,
        0 <= width,
        height * width <= usize::MAX,
        wps.len() < i64::MAX,
    ensures
        incr_all(ImgView::fresh(height, width), wps).wf(),
        forall|x: int, y: int|
            #![trigger incr_all(ImgView::fresh(height, width), wps).at(x, y)]
            incr_all(ImgView::fresh(height, width), wps).in_bounds(x, y) ==> incr_all(
                ImgView::fresh(height, width),
                wps,
            ).at(x, y) == hits(wps, x, y) && incr_all(ImgView::fresh(height, width), wps).at(x, y)
                <= incr_all(ImgView::fresh(height, width), wps).maximum,
        incr_all(ImgView::fresh(height, width), wps).maximum == 1 || exists|x: int, y: int|
            #![trigger incr_all(ImgView::fresh(height, width), wps).at(x, y)]
            incr_all(ImgView::fresh(height, width), wps).in_bounds(x, y) && incr_all(
                ImgView::fresh(height, width),
                wps,
            ).at(x, y) == incr_all(ImgView::fresh(height, width), wps).maximum,
    decreases wps.len(),
{
    let f = ImgView::fresh(height, width);
    assert(0 <= height * width) by (nonlinear_arith)
        requires
            0 <= height,
            0 <= width,
    ;
    let v = incr_all(f, wps);
    if wps.len() == 0 {
        assert forall|x: int, y: int| #![trigger v.at(x, y)] v.in_bounds(x, y) implies v.at(x, y)
            == hits(wps, x, y) && v.at(x, y) <= v.maximum by {
            lemma_index_in_grid(x, y, width, height);
        }
    } else {
        let prev = wps.drop_last();
        let o = wps.last();
        let (ox, oy) = (o.img_x as int, o.img_y as int);
        lemma_counts_are_hits(height, width, prev);
        let p = incr_all(f, prev);
        lemma_incr_all_keeps_wf(f, prev);
        if p.in_bounds(ox, oy) {
            lemma_index_in_grid(ox, oy, width, height);
            lemma_hits_bounded(prev, ox, oy);
            let nv = p.at(ox, oy) + 1;
            assert(v.maximum == max_int(p.maximum, nv));
            assert forall|x: int, y: int| #![trigger v.at(x, y)] v.in_bounds(x, y) implies v.at(
                x,
                y,
            ) == hits(wps, x, y) && v.at(x, y) <= v.maximum by {
                lemma_index_in_grid(x, y, width, height);
                if x != ox || y != oy {
                    if p.index_of(x, y) == p.index_of(ox, oy) {
                        lemma_index_injective(x, y, ox, oy, width);
                    }
                    assert(p.at(x, y) == hits(prev, x, y) && p.at(x, y) <= p.maximum);
                }
            }
            if v.maximum != 1 && v.maximum != nv {
                let (wx, wy) = choose|x: int, y: int|
                    p.in_bounds(x, y) && #[trigger] p.at(x, y) == p.maximum;
                assert(p.at(ox, oy) <= p.maximum);
                assert(wx != ox || wy != oy);
                lemma_index_in_grid(wx, wy, width, height);
                if p.index_of(wx, wy) == p.index_of(ox, oy) {
                    lemma_index_injective(wx, wy, ox, oy, width);
                }
                assert(v.at(wx, wy) == v.maximum);
            } else if v.maximum == nv {
                assert(v.at(ox, oy) == v.maximum);
            }
        } else {
            assert forall|x: int, y: int| #![trigger v.at(x, y)] v.in_bounds(x, y) implies v.at(
                x,
                y,
            ) == hits(wps, x, y) && v.at(x, y) <= v.maximum by {
                assert(p.at(x, y) == hits(prev, x, y) && p.at(x, y) <= p.maximum);
            }
            if v.maximum != 1 {
                let (wx, wy) = choose|x: int, y: int|
                    p.in_bounds(x, y) && #[trigger] p.at(x, y) == p.maximum;
                assert(v.at(wx, wy) == v.maximum);
            }
        }
    }
}

/// Counting waypoints adds, at each pixel, the number of them on that pixel,
/// as long as the counter does not reach its limit.
pub proof fn lemma_incr_all_adds(v: ImgView, wps: Seq<Waypoint>, x: int, y: int)
    requires
        v.wf(),
        v.in_bounds(x, y),
        v.at(x, y) + wps.len() <= i64::MAX,
    ensures
        incr_all(v, wps).at(x, y) == v.at(x, y) + hits(wps, x, y),
    decreases wps.len(),
{
    if wps.len() > 0 {
        let prev = wps.drop_last();
        let o = wps.last();
        let (ox, oy) = (o.img_x as int, o.img_y as int);
        lemma_incr_all_adds(v, prev, x, y);
        lemma_incr_all_keeps_wf(v, prev);
        lemma_hits_bounded(prev, x, y);
        let p = incr_all(v, prev);
        lemma_index_in_grid(x, y, v.width, v.height);
        if p.in_bounds(ox, oy) {
            lemma_index_in_grid(ox, oy, v.width, v.height);
            if (x != ox || y != oy) && p.index_of(x, y) == p.index_of(ox, oy) {
                lemma_index_injective(x, y, ox, oy, v.width);
            }
        }
    }
}

/// How many waypoints in all of `ts`.
pub open spec fn total_waypoints(ts: Seq<Trajectory>) -> int
    decreases ts.len(),
{
    if ts.len() == 0 {
        0
    } else {
        total_waypoints(ts.drop_last()) + ts.last().waypoints@.len()
    }
}

/// How many waypoints on pixel `(x, y)` belong to trajectories of `ts` that
/// bin to channel `ch`.
pub open spec fn channel_hits(
    ts: Seq<Trajectory>,
    ch: Channel,
    x: int,
    y: int,
    min_iterations: int,
    max_iterations: int,
) -> int
    decreases ts.len(),
{
    if ts.len() == 0 {
        0
    } else {
        channel_hits(ts.drop_last(), ch, x, y, min_iterations, max_iterations) + if spec_channel_for(
            ts.last().length as int,
            min_iterations,
            max_iterations,
        ) == ch {
            hits(ts.last().waypoints@, x, y)
        } else {
            0
        }
    }
}

proof fn lemma_channel_hits_bounded(
    ts: Seq<Trajectory>,
    ch: Channel,
    x: int,
    y: int,
    min_iterations: int,
    max_iterations: int,
)
    ensures
        0 <= channel_hits(ts, ch, x, y, min_iterations, max_iterations) <= total_waypoints(ts),
    decreases ts.len(),
{
    if ts.len() > 0 {
        lemma_channel_hits_bounded(ts.drop_last(), ch, x, y, min_iterations, max_iterations);
        lemma_hits_bounded(ts.last().waypoints@, x, y);
    }
}

proof fn lemma_deposit_all_keeps_wf(c: Channels, ts: Seq<Trajectory>, min_iterations: int, max_iterations: int)
    requires
        c.red.wf(),
        c.green.wf(),
        c.blue.wf(),
    ensures
        ({
            let d = deposit_all(c, ts, min_iterations, max_iterations);
            &&& d.red.wf() && d.red.height == c.red.height && d.red.width == c.red.width
            &&& d.green.wf() && d.green.height == c.green.height && d.green.width == c.green.width
            &&& d.blue.wf() && d.blue.height == c.blue.height && d.blue.width == c.blue.width
        }),
    decreases ts.len(),
{
    if ts.len() > 0 {
        lemma_deposit_all_keeps_wf(c, ts.drop_last(), min_iterations, max_iterations);
        let d = deposit_all(c, ts.drop_last(), min_iterations, max_iterations);
        let wps = ts.last().waypoints@;
        lemma_incr_all_keeps_wf(d.red, wps);
        lemma_incr_all_keeps_wf(d.green, wps);
        lemma_incr_all_keeps_wf(d.blue, wps);
    }
}

/// The histograms hold the received trajectories and nothing else, whatever
/// their order: after the trajectories `ts`, each channel's counter of a
/// pixel is the number of waypoints on that pixel among those of `ts` that
/// bin to the channel.
pub proof fn lemma_channels_count_arrivals(
    height: int,
    width: int,
    ts: Seq<Trajectory>,
    min_iterations: int,
    max_iterations: int,
    x: int,
    y: int,
)
    requires
        0 <= height,
        0 <= width,
        height * width <= usize::MAX,
        0 <= x < width,
        0 <= y < height,
        total_waypoints(ts) <= i64::MAX,
    ensures
        ({
            let c = deposit_all(fresh_channels(height, width), ts, min_iterations, max_iterations);
            &&& c.red.at(x, y) == channel_hits(ts, Channel::Red, x, y, min_iterations, max_iterations)
            &&& c.green.at(x, y) == channel_hits(ts, Channel::Green, x, y, min_iterations, max_iterations)
            &&& c.blue.at(x, y) == channel_hits(ts, Channel::Blue, x, y, min_iterations, max_iterations)
        }),
    decreases ts.len(),
{
    let f = fresh_channels(height, width);
    assert(0 <= height * width) by (nonlinear_arith)
        requires
            0 <= height,
            0 <= width,
    ;
    lemma_index_in_grid(x, y, width, height);
    if ts.len() > 0 {
        let prev = ts.drop_last();
        let t = ts.last();
        let wps = t.waypoints@;
        assert(total_waypoints(prev) <= total_waypoints(ts));
        lemma_channels_count_arrivals(height, width, prev, min_iterations, max_iterations, x, y);
        lemma_deposit_all_keeps_wf(f, prev, min_iterations, max_iterations);
        let d = deposit_all(f, prev, min_iterations, max_iterations);
        lemma_channel_hits_bounded(prev, Channel::Red, x, y, min_iterations, max_iterations);
        lemma_channel_hits_bounded(prev, Channel::Green, x, y, min_iterations, max_iterations);
        lemma_channel_hits_bounded(prev, Channel::Blue, x, y, min_iterations, max_iterations);
        match spec_channel_for(t.length as int, min_iterations, max_iterations) {
            Channel::Red => lemma_incr_all_adds(d.red, wps, x, y),
            Channel::Green => lemma_incr_all_adds(d.green, wps, x, y),
            Channel::Blue => lemma_incr_all_adds(d.blue, wps, x, y),
        }
    }
}

/// Counts each waypoint of `wps` into `img`, in order.
fn count_waypoints(img: &mut Img, wps: &Vec<Waypoint>)
    requires
        old(img).wf(),
    ensures
        final(img).wf(),
        final(img)@ == incr_all(old(img)@, wps@),
{
    let mut i: usize = 0;
    while i < wps.len()
        invariant
            i <= wps@.len(),
            img.wf(),
            img@ == incr_all(old(img)@, wps@.subrange(0, i as int)),
        decreases wps@.len() - i,
    {
        let wp = wps[i];
        img.incr_px(wp.img_x as i64, wp.img_y as i64);
        assert(wps@.subrange(0, i + 1).drop_last() =~= wps@.subrange(0, i as int));
        i = i + 1;
    }
    assert(wps@.subrange(0, wps@.len() as int) =~= wps@);
}

/// Paints a replayed trajectory: each of its waypoints is counted once in
/// every channel that `spec_replay_channels` picks for its length.
pub fn paint_replay(
    red: &mut Img,
    green: &mut Img,
    blue: &mut Img,
    t: &Trajectory,
    min_iterations: i64,
    max_iterations: i64,
)
    requires
        old(red).wf(),
        old(green).wf(),
        old(blue).wf(),
    ensures
        final(red).wf(),
        final(green).wf(),
        final(blue).wf(),
        ({
            let (r, g, b) = spec_replay_channels(
                t.length as int,
                min_iterations as int,
                max_iterations as int,
            );
            &&& final(red)@ == if r {
                incr_all(old(red)@, t.waypoints@)
            } else {
                old(red)@
            }
            &&& final(green)@ == if g {
                incr_all(old(green)@, t.waypoints@)
            } else {
                old(green)@
            }
            &&& final(blue)@ == if b {
                incr_all(old(blue)@, t.waypoints@)
            } else {
                old(blue)@
            }
        }),
{
    let (r, g, b) = replay_channels(t.length, min_iterations, max_iterations);
    if r {
        count_waypoints(red, &t.waypoints);
    }
    if g {
        count_waypoints(green, &t.waypoints);
    }
    if b {
        count_waypoints(blue, &t.waypoints);
    }
}

impl Collector {
    pub open spec fn wf(&self) -> bool {
        self@.wf()
    }

    /// A collector that waits for `expected` trajectories, with empty
    /// `width` x `height` histograms.
    pub fn new(width: i64, height: i64, min_iterations: i64, max_iterations: i64, expected: usize) -> (r: Collector)
        requires
            0 <= width,
            0 <= height,
            height * width <= usize::MAX,
        ensures
            r.wf(),
            r@ == (CollectorView {
                height: height as int,
                width: width as int,
                min_iterations: min_iterations as int,
                max_iterations: max_iterations as int,
                expected: expected as int,
                received: 0,
                channels: fresh_channels(height as int, width as int),
                lengths: Map::empty(),
                history: Seq::empty(),
            }),
    {
        Collector {
            height,
            width,
            min_iterations,
            max_iterations,
            expected,
            received: 0,
            red: Img::new(height, width),
            green: Img::new(height, width),
            blue: Img::new(height, width),
            lengths: HashMap::new(),
            history: Ghost(Seq::empty()),
        }
    }

    /// All expected trajectories have arrived.
    pub fn is_complete(&self) -> (r: bool)
        ensures
            r == self@.complete(),
    {
        self.received >= self.expected
    }

    pub fn received(&self) -> (r: usize)
        ensures
            r as int == self@.received,
    {
        self.received
    }

    pub fn expected(&self) -> (r: usize)
        ensures
            r as int == self@.expected,
    {
        self.expected
    }

    /// Counts trajectory `t` into the histograms and into the tally of lengths.
    fn receive(&mut self, t: Trajectory)
        requires
            old(self).wf(),
            !old(self)@.complete(),
        ensures
            final(self).wf(),
            final(self)@ == (CollectorView {
                received: old(self)@.received + 1,
                channels: deposit(
                    old(self)@.channels,
                    t,
                    old(self)@.min_iterations,
                    old(self)@.max_iterations,
                ),
                lengths: count_length(old(self)@.lengths, t.length),
                history: old(self)@.history.push(t),
                ..old(self)@
            }),
    {
        match channel_for(t.length, self.min_iterations, self.max_iterations) {
            Channel::Red => count_waypoints(&mut self.red, &t.waypoints),
            Channel::Green => count_waypoints(&mut self.green, &t.waypoints),
            Channel::Blue => count_waypoints(&mut self.blue, &t.waypoints),
        }
        let cur: u64 = match self.lengths.get(&t.length) {
            Some(v) => *v,
            None => 0,
        };
        let next: u64 = if cur < u64::MAX {
            cur + 1
        } else {
            cur
        };
        self.lengths.insert(t.length, next);
        self.received = self.received + 1;
        proof {
            let old_history = self.history@;
            self.history = Ghost(old_history.push(t));
            assert(self.history@.drop_last() =~= old_history);
        }
    }

    /// Handles one outcome of the wait for a trajectory, and says whether to
    /// keep waiting. A timeout ends the wait and changes nothing, so the
    /// histograms hold exactly the trajectories that arrived before it.
    pub fn on_event(&mut self, event: Delivery) -> (more: bool)
        requires
            old(self).wf(),
            !old(self)@.complete(),
        ensures
            final(self).wf(),
            match event {
                Delivery::Arrived(t) => {
                    &&& final(self)@ == (CollectorView {
                        received: old(self)@.received + 1,
                        channels: deposit(
                            old(self)@.channels,
                            t,
                            old(self)@.min_iterations,
                            old(self)@.max_iterations,
                        ),
                        lengths: count_length(old(self)@.lengths, t.length),
                        history: old(self)@.history.push(t),
                        ..old(self)@
                    })
                    &&& more == !final(self)@.complete()
                },
                Delivery::TimedOut => {
                    &&& final(self)@ == old(self)@
                    &&& !more
                },
            },
    {
        match event {
            Delivery::Arrived(t) => {
                self.receive(t);
                !self.is_complete()
            },
            Delivery::TimedOut => false,
        }
    }

    /// The tally of trajectory lengths received so far.
    pub fn length_counts(&self) -> (r: &HashMap<i64, u64>)
        ensures
            r@ == self@.lengths,
    {
        &self.lengths
    }

    /// The histograms, in the order red, green, blue.
    pub fn into_images(self) -> (r: Vec<Img>)
        ensures
            r@.len() == 3,
            r@[0]@ == self@.channels.red,
            r@[1]@ == self@.channels.green,
            r@[2]@ == self@.channels.blue,
    {
        let mut v: Vec<Img> = Vec::new();
        v.push(self.red);
        v.push(self.green);
        v.push(self.blue);
        v
    }
}

} // verus!
