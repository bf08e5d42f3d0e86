use vstd::prelude::*;

use crate::buddha::{ExactPoint, Trajectory, Waypoint};

verus! {

/// `n` is a power of two.
pub open spec fn is_pow2(n: nat) -> bool
    decreases n,
{
    if n == 0 {
        false
    } else if n == 1 {
        true
    } else if n % 2 == 1 {
        false
    } else {
        is_pow2(n / 2)
    }
}

/// The iteration indices at which an orbit's value is remembered for cycle
/// detection: zero and the powers of two.
pub open spec fn is_checkpoint(n: nat) -> bool {
    n == 0 || is_pow2(n)
}

/// Pixel `(x, y)` lies on a `width` x `height` raster.
pub open spec fn on_raster(x: int, y: int, width: int, height: int) -> bool {
    0 <= x < width && 0 <= y < height
}

pub open spec fn waypoint_on_raster(w: Waypoint, width: int, height: int) -> bool {
    on_raster(w.img_x as int, w.img_y as int, width, height)
}

/// The state of one orbit while its iterates are being produced.
pub struct OrbitView {
    pub seed: ExactPoint,
    pub max_iterations: int,
    /// The raster that waypoints are kept for.
    pub width: int,
    pub height: int,
    /// How many iterates have been observed.
    pub length: int,
    pub waypoints: Seq<Waypoint>,
    /// The last iterate left the disc of radius 2.
    pub escaped: bool,
    /// An iterate at a checkpoint repeated one remembered earlier.
    pub cycled: bool,
    /// The values remembered at checkpoints, in order.
    pub seen: Seq<ExactPoint>,
}

impl OrbitView {
    pub open spec fn start(seed: ExactPoint, max_iterations: int, width: int, height: int) -> OrbitView {
        OrbitView {
            seed,
            max_iterations,
            width,
            height,
            length: 0,
            waypoints: Seq::empty(),
            escaped: false,
            cycled: false,
            seen: Seq::empty(),
        }
    }

    pub open spec fn wf(self) -> bool {
        &&& 0 <= self.length <= self.max_iterations <= i64::MAX
        &&& self.all_on_raster()
    }

    /// Every waypoint lies on the raster.
    pub open spec fn all_on_raster(self) -> bool {
        forall|i: int|
            0 <= i < self.waypoints.len() ==> #[trigger] waypoint_on_raster(
                self.waypoints[i],
                self.width,
                self.height,
            )
    }

    /// The orbit wants another iterate.
    pub open spec fn running(self) -> bool {
        !self.escaped && !self.cycled && self.length < self.max_iterations
    }

    /// The orbit after its next iterate `point`, which lies on pixel `pixel`
    /// if it landed on the raster, and left the disc of radius 2 if `escaped`.
    /// A pixel off the raster adds no waypoint.
    pub open spec fn observe(
        self,
        pixel: Option<(i32, i32)>,
        point: ExactPoint,
        escaped: bool,
    ) -> OrbitView {
        let check = is_checkpoint(self.length as nat);
        let repeat = check && self.seen.contains(point);
        OrbitView {
            length: self.length + 1,
            waypoints: match pixel {
                Some(p) => if on_raster(p.0 as int, p.1 as int, self.width, self.height) {
                    self.waypoints.push(Waypoint { img_x: p.0, img_y: p.1, point })
                } else {
                    self.waypoints
                },
                None => self.waypoints,
            },
            escaped,
            cycled: repeat,
            seen: if check && !repeat {
                self.seen.push(point)
            } else {
                self.seen
            },
            ..self
        }
    }

    /// The orbit is kept: it escaped, after at least `min_iterations` iterates.
    pub open spec fn retained(self, min_iterations: int) -> bool {
        self.escaped && self.length >= min_iterations
    }

    pub open spec fn matches(self, t: Trajectory) -> bool {
        &&& t.init_c == self.seed
        &&& t.waypoints@ == self.waypoints
        &&& t.length as int == self.length
    }
}

/// `n` is zero or a power of two.
pub fn checkpoint_at(n: i64) -> (r: bool)
    requires
        n >= 0,
    ensures
        r == is_checkpoint(n as nat),
{
    if n == 0 {
        return true;
    }
    let mut m: i64 = n;
    while m > 1 && m % 2 == 0
        invariant
            m >= 1,
            is_pow2(m as nat) == is_pow2(n as nat),
        decreases m,
    {
        m = m / 2;
    }
    m == 1
}

/// One orbit under way: what the sampler has learnt of its iterates so far.
pub struct Orbit {
    seed: ExactPoint,
    max_iterations: i64,
    width: i64,
    height: i64,
    length: i64,
    waypoints: Vec<Waypoint>,
    escaped: bool,
    cycled: bool,
    seen: Vec<ExactPoint>,
}

impl View for Orbit {
    type V = OrbitView;

    closed spec fn view(&self) -> OrbitView {
        OrbitView {
            seed: self.seed,
            max_iterations: self.max_iterations as int,
            width: self.width as int,
            height: self.height as int,
            length: self.length as int,
            waypoints: self.waypoints@,
            escaped: self.escaped,
            cycled: self.cycled,
            seen: self.seen@,
        }
    }
}

fn contains_point(v: &Vec<ExactPoint>, p: ExactPoint) -> (r: bool)
    ensures
        r == v@.contains(p),
{
    let mut i: usize = 0;
    while i < v.len()
        invariant
            i <= v@.len(),
            forall|j: int| 0 <= j < i ==> v@[j] != p,
        decreases v@.len() - i,
    {
        if v[i] == p {
            assert(v@[i as int] == p);
            return true;
        }
        i = i + 1;
    }
    false
}

impl Orbit {
    /// An orbit from `seed`, of at most `max_iterations` iterates, that keeps
    /// the iterates landing on a `width` x `height` raster.
    pub fn new(seed: ExactPoint, max_iterations: i64, width: i64, height: i64) -> (r: Orbit)
        ensures
            r@ == OrbitView::start(
                seed,
                if max_iterations < 0 {
                    0
                } else {
                    max_iterations as int
                },
                width as int,
                height as int,
            ),
            r@.wf(),
    {
        Orbit {
            seed,
            width,
            height,
            max_iterations: if max_iterations < 0 {
                0
            } else {
                max_iterations
            },
            length: 0,
            waypoints: Vec::new(),
            escaped: false,
            cycled: false,
            seen: Vec::new(),
        }
    }

    /// The orbit wants another iterate: it has not escaped, not been caught
    /// in a cycle, and not used up its iterations.
    pub fn is_running(&self) -> (r: bool)
        ensures
            r == self@.running(),
    {
        !self.escaped && !self.cycled && self.length < self.max_iterations
    }

    pub fn length(&self) -> (r: i64)
        ensures
            r as int == self@.length,
    {
        self.length
    }

    pub fn has_escaped(&self) -> (r: bool)
        ensures
            r == self@.escaped,
    {
        self.escaped
    }

    /// Records the next iterate `point`: `pixel` is where it lands on the
    /// raster, if it does, and `escaped` says whether its norm exceeds 2.
    pub fn observe(&mut self, pixel: Option<(i32, i32)>, point: ExactPoint, escaped: bool)
        requires
            old(self)@.wf(),
            old(self)@.running(),
        ensures
            final(self)@ == old(self)@.observe(pixel, point, escaped),
            final(self)@.wf(),
    {
        let ghost w0 = self.waypoints@;
        assert forall|i: int| 0 <= i < w0.len() implies #[trigger] waypoint_on_raster(w0[i], self.width as int, self.height as int) by {
            assert(waypoint_on_raster(old(self)@.waypoints[i], old(self)@.width, old(self)@.height));
            assert(old(self)@.width == self.width as int);
        }
        let check = checkpoint_at(self.length);
        self.length = self.length + 1;
        match pixel {
            Some(p) => {
                if 0 <= p.0 && (p.0 as i64) < self.width && 0 <= p.1 && (p.1 as i64) < self.height {
                    let ghost before = self.waypoints@;
                    self.waypoints.push(Waypoint { img_x: p.0, img_y: p.1, point });
                    assert forall|i: int| 0 <= i < self.waypoints@.len() implies #[trigger] waypoint_on_raster(
                        self.waypoints@[i],
                        self.width as int,
                        self.height as int,
                    ) by {
                        if i < before.len() {
                            assert(self.waypoints@[i] == before[i]);
                            assert(waypoint_on_raster(before[i], self.width as int, self.height as int));
                        }
                    }
                }
            },
            None => {},
        }
        self.escaped = escaped;
        if check {
            if contains_point(&self.seen, point) {
                self.cycled = true;
            } else {
                self.seen.push(point);
            }
        }
    }

    /// The trajectory of the orbit as far as it went, kept or not.
    pub fn into_trajectory(self) -> (r: Trajectory)
        ensures
            self@.matches(r),
    {
        Trajectory { init_c: self.seed, waypoints: self.waypoints, length: self.length }
    }

    /// The trajectory, if the orbit escaped after at least `min_iterations`
    /// iterates; otherwise the orbit is discarded.
    pub fn finish(self, min_iterations: i64) -> (r: Option<Trajectory>)
        requires
            self@.wf(),
        ensures
            r is Some <==> self@.retained(min_iterations as int),
            r matches Some(t) ==> {
                &&& self@.matches(t)
                &&& t.length <= self@.max_iterations
                &&& t.length >= min_iterations
                &&& self@.all_on_raster()
            },
    {
        if self.escaped && self.length >= min_iterations {
            Some(self.into_trajectory())
        } else {
            None
        }
    }
}

/// The decisions of one worker: which seeds to iterate, which orbits to hand
/// on, and when its share of trajectories is complete.
pub struct Sampler {
    quota: usize,
    found: usize,
    max_iterations: i64,
    min_iterations: i64,
    width: i64,
    height: i64,
}

pub struct SamplerView {
    pub quota: int,
    pub found: int,
    pub max_iterations: int,
    pub min_iterations: int,
    pub width: int,
    pub height: int,
}

impl SamplerView {
    /// The most iterates an orbit gets: `max_iterations`, or none if negative.
    pub open spec fn cap(self) -> int {
        if self.max_iterations < 0 {
            0
        } else {
            self.max_iterations
        }
    }

    /// `o` is an orbit that this sampler began.
    pub open spec fn owns(self, o: OrbitView) -> bool {
        &&& o.max_iterations == self.cap()
        &&& o.width == self.width
        &&& o.height == self.height
    }
}

impl View for Sampler {
    type V = SamplerView;

    closed spec fn view(&self) -> SamplerView {
        SamplerView {
            quota: self.quota as int,
            found: self.found as int,
            max_iterations: self.max_iterations as int,
            min_iterations: self.min_iterations as int,
            width: self.width as int,
            height: self.height as int,
        }
    }
}

impl Sampler {
    /// A worker that looks for `quota` orbits that escape after between
    /// `min_iterations` and `max_iterations` iterates, drawing on a `width` x
    /// `height` raster.
    pub fn new(quota: usize, max_iterations: i64, min_iterations: i64, width: i64, height: i64) -> (r: Sampler)
        ensures
            r@ == (SamplerView {
                quota: quota as int,
                found: 0,
                max_iterations: max_iterations as int,
                min_iterations: min_iterations as int,
                width: width as int,
                height: height as int,
            }),
    {
        Sampler { quota, found: 0, max_iterations, min_iterations, width, height }
    }

    /// The worker has handed on its share.
    pub fn is_done(&self) -> (r: bool)
        ensures
            r == (self@.found >= self@.quota),
    {
        self.found >= self.quota
    }

    pub fn found(&self) -> (r: usize)
        ensures
            r as int == self@.found,
    {
        self.found
    }

    /// The orbit to iterate for the candidate `seed`, unless `never_escapes`
    /// says that the seed lies in a region whose orbits stay bounded, in which
    /// case the candidate is dropped without any iteration.
    pub fn begin_orbit(&self, seed: ExactPoint, never_escapes: bool) -> (r: Option<Orbit>)
        ensures
            never_escapes ==> r is None,
            !never_escapes ==> (r matches Some(o) && o@ == OrbitView::start(
                seed,
                self@.cap(),
                self@.width,
                self@.height,
            ) && o@.wf() && self@.owns(o@)),
    {
        if never_escapes {
            None
        } else {
            Some(Orbit::new(seed, self.max_iterations, self.width, self.height))
        }
    }

    /// Ends an orbit that this sampler began: the trajectory to hand on if it
    /// is kept, which counts toward the worker's share. A kept trajectory
    /// escaped, has between `min_iterations` and `max_iterations` iterates,
    /// and has all its waypoints on the raster.
    pub fn complete(&mut self, orbit: Orbit) -> (r: Option<Trajectory>)
        requires
            orbit@.wf(),
            old(self)@.owns(orbit@),
            old(self)@.found < old(self)@.quota,
        ensures
            r is Some <==> orbit@.retained(old(self)@.min_iterations),
            r matches Some(t) ==> {
                &&& orbit@.matches(t)
                &&& orbit@.escaped
                &&& t.length <= old(self)@.cap()
                &&& t.length >= old(self)@.min_iterations
                &&& forall|i: int|
                    0 <= i < t.waypoints@.len() ==> #[trigger] waypoint_on_raster(
                        t.waypoints@[i],
                        old(self)@.width,
                        old(self)@.height,
                    )
            },
            final(self)@ == (SamplerView {
                found: if r is Some {
                    old(self)@.found + 1
                } else {
                    old(self)@.found
                },
                ..old(self)@
            }),
    {
        let r = orbit.finish(self.min_iterations);
        if r.is_some() {
            self.found = self.found + 1;
        }
        r
    }
}

} // verus!
