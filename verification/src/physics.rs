use vstd::prelude::*;

verus! {

/// The direction in which the driving wave travels along the muscles.
#[derive(Clone, Copy, Debug, PartialEq, Eq, Structural)]
pub enum WaveDirection {
    Forward,
    Reverse,
    Manual,
}

/// Where gravity pulls.
#[derive(Clone, Copy, Debug, PartialEq, Eq, Structural)]
pub enum GravityDirection {
    Down,
    Up,
    Off,
}

/// The side wall that a mass touched last.
#[derive(Clone, Copy, Debug, PartialEq, Eq, Structural)]
pub enum WallHit {
    Untouched,
    Left,
    Right,
}

/// Whether the container's surfaces hold masses back or let them slide.
#[derive(Clone, Copy, Debug, PartialEq, Eq, Structural)]
pub enum SurfaceSticky {
    Sticky,
    Slippy,
}

impl WaveDirection {
    /// The sign with which the wave's angle advances: `Forward` counts down,
    /// `Reverse` counts up and `Manual` stands still.
    pub open spec fn spec_factor(self) -> int {
        match self {
            WaveDirection::Forward => -1,
            WaveDirection::Reverse => 1,
            WaveDirection::Manual => 0,
        }
    }

    /// The direction after the wave turns around: `Forward` and `Reverse`
    /// swap, `Manual` stays.
    pub open spec fn spec_reversed(self) -> WaveDirection {
        match self {
            WaveDirection::Forward => WaveDirection::Reverse,
            WaveDirection::Reverse => WaveDirection::Forward,
            WaveDirection::Manual => WaveDirection::Manual,
        }
    }

    pub fn factor(&self) -> (f: i8)
        ensures
            f == self.spec_factor(),
    {
        match self {
            WaveDirection::Forward => -1,
            WaveDirection::Reverse => 1,
            WaveDirection::Manual => 0,
        }
    }

    pub fn reversed(&self) -> (d: WaveDirection)
        ensures
            d == self.spec_reversed(),
    {
        match self {
            WaveDirection::Forward => WaveDirection::Reverse,
            WaveDirection::Reverse => WaveDirection::Forward,
            WaveDirection::Manual => WaveDirection::Manual,
        }
    }
}

impl GravityDirection {
    /// The sign with which gravity enters the vertical force: `Down` pulls
    /// towards the floor, `Up` towards the ceiling, `Off` not at all.
    pub open spec fn spec_factor(self) -> int {
        match self {
            GravityDirection::Down => -1,
            GravityDirection::Up => 1,
            GravityDirection::Off => 0,
        }
    }

    pub fn factor(&self) -> (f: i8)
        ensures
            f == self.spec_factor(),
    {
        match self {
            GravityDirection::Down => -1,
            GravityDirection::Up => 1,
            GravityDirection::Off => 0,
        }
    }
}

impl Default for SurfaceSticky {
    fn default() -> (s: SurfaceSticky)
        ensures
            s == SurfaceSticky::Sticky,
    {
        SurfaceSticky::Sticky
    }
}


/// The wave that drives the muscles. `F` is the scalar type in which its
/// amplitude, speed and phase angle are measured; the simulator advances the
/// angle and evaluates the wave, this library keeps its direction.
#[derive(Clone, Copy, Debug)]
pub struct Wave<F> {
    pub amplitude: F,
    pub speed: F,
    pub angle: F,
    pub autoreverse: bool,
    pub direction: WaveDirection,
}

impl<F> Wave<F> {
    pub fn new(amplitude: F, speed: F, angle: F, autoreverse: bool, direction: WaveDirection) -> (w:
        Wave<F>)
        ensures
            w.amplitude == amplitude,
            w.speed == speed,
            w.angle == angle,
            w.autoreverse == autoreverse,
            w.direction == direction,
    {
        Wave { amplitude, speed, angle, autoreverse, direction }
    }

    pub fn set_direction(&mut self, direction: WaveDirection)
        ensures
            final(self).direction == direction,
            final(self).amplitude == old(self).amplitude,
            final(self).speed == old(self).speed,
            final(self).angle == old(self).angle,
            final(self).autoreverse == old(self).autoreverse,
    {
        self.direction = direction;
    }

    /// Turns the wave around.
    fn reverse(&mut self)
        ensures
            final(self).direction == old(self).direction.spec_reversed(),
            final(self).amplitude == old(self).amplitude,
            final(self).speed == old(self).speed,
            final(self).angle == old(self).angle,
            final(self).autoreverse == old(self).autoreverse,
    {
        self.direction = self.direction.reversed();
    }
}

/// A point mass; `V` is the vector type of its position and velocity.
/// `prv` is the position at the start of the latest step, kept to draw the
/// mass between two steps.
#[derive(Clone, Copy, Debug)]
pub struct Mass<V> {
    pub pos: V,
    pub prv: V,
    pub vel: V,
    pub fixed: bool,
}

impl<V: Copy> Mass<V> {
    pub fn new(pos: V, vel: V, fixed: bool) -> (m: Mass<V>)
        ensures
            m == (Mass { pos, prv: pos, vel, fixed }),
    {
        Mass { pos, prv: pos, vel, fixed }
    }
}

/// A spring between the masses with indices `a` and `b`; `L` is the scalar
/// type of its rest length.
#[derive(Clone, Copy, Debug)]
pub struct Spring<L> {
    pub restlength: L,
    pub a: usize,
    pub b: usize,
}

impl<L> Spring<L> {
    pub fn new(a: usize, b: usize, restlength: L) -> (s: Spring<L>)
        ensures
            s == (Spring { restlength, a, b }),
    {
        Spring { restlength, a, b }
    }
}

/// A muscle: it drives the rest length of the spring with index `spring_idx`
/// around `restlength`, following the wave at phase `phase` with weight `sense`.
#[derive(Clone, Copy, Debug)]
pub struct Muscle<L> {
    pub restlength: L,
    pub phase: L,
    pub sense: L,
    pub spring_idx: usize,
}

/// The abstract contents of a [`Model`].
pub struct ModelView<V, L> {
    pub last_wall_hit: WallHit,
    pub masses: Seq<Mass<V>>,
    pub springs: Seq<Spring<L>>,
    pub muscles: Seq<Muscle<L>>,
}

impl<V, L> ModelView<V, L> {
    /// Every muscle acts on a spring of the model.
    pub open spec fn wf(self) -> bool {
        forall|i: int|
            0 <= i < self.muscles.len() ==> #[trigger] self.muscles[i].spring_idx
                < self.springs.len()
    }
}

/// Whether touching `wall` turns the wave around, the side last touched
/// being `last`: only with auto-reverse on, and only when the wall differs
/// from the one touched last.
pub open spec fn wall_reverses(last: WallHit, wall: WallHit, autoreverse: bool) -> bool {
    autoreverse && last != wall
}

/// The index of the last of the first `k` muscles that acts on spring `j`,
/// or -1 when none of them does.
pub open spec fn last_muscle_on<L>(muscles: Seq<Muscle<L>>, j: int, k: int) -> int
    decreases k,
{
    if k <= 0 {
        -1
    } else if muscles[k - 1].spring_idx == j {
        k - 1
    } else {
        last_muscle_on(muscles, j, k - 1)
    }
}

/// No muscle after muscle `i` acts on the spring that muscle `i` acts on.
pub open spec fn last_on_its_spring<L>(muscles: Seq<Muscle<L>>, i: int) -> bool {
    forall|m: int| i < m < muscles.len() ==> #[trigger] muscles[m].spring_idx != muscles[i].spring_idx
}

/// Spring `j` once the first `k` muscles have set the rest lengths of their
/// springs to `lengths`, in order: the last muscle on a spring wins.
pub open spec fn acted_spring<L>(
    springs: Seq<Spring<L>>,
    muscles: Seq<Muscle<L>>,
    lengths: Seq<L>,
    j: int,
    k: int,
) -> Spring<L> {
    let m = last_muscle_on(muscles, j, k);
    if m >= 0 {
        Spring { restlength: lengths[m], a: springs[j].a, b: springs[j].b }
    } else {
        springs[j]
    }
}

/// A mass–spring model: masses, springs between them, and muscles on springs.
pub struct Model<V, L> {
    last_wall_hit: WallHit,
    masses: Vec<Mass<V>>,
    springs: Vec<Spring<L>>,
    muscles: Vec<Muscle<L>>,
}

impl<V, L> View for Model<V, L> {
    type V = ModelView<V, L>;

    closed spec fn view(&self) -> ModelView<V, L> {
        ModelView {
            last_wall_hit: self.last_wall_hit,
            masses: self.masses@,
            springs: self.springs@,
            muscles: self.muscles@,
        }
    }
}

impl<V: Copy, L: Copy> Model<V, L> {
    pub fn new() -> (m: Model<V, L>)
        ensures
            m@.last_wall_hit == WallHit::Untouched,
            m@.masses == Seq::<Mass<V>>::empty(),
            m@.springs == Seq::<Spring<L>>::empty(),
            m@.muscles == Seq::<Muscle<L>>::empty(),
            m@.wf(),
    {
        Model {
            last_wall_hit: WallHit::Untouched,
            masses: Vec::new(),
            springs: Vec::new(),
            muscles: Vec::new(),
        }
    }

    pub fn get_masses(&self) -> (r: &Vec<Mass<V>>)
        ensures
            r@ == self@.masses,
    {
        &self.masses
    }

    pub fn get_springs(&self) -> (r: &Vec<Spring<L>>)
        ensures
            r@ == self@.springs,
    {
        &self.springs
    }

    pub fn get_muscles(&self) -> (r: &Vec<Muscle<L>>)
        ensures
            r@ == self@.muscles,
    {
        &self.muscles
    }

    pub fn get_mass(&self, idx: usize) -> (m: Mass<V>)
        requires
            idx < self@.masses.len(),
        ensures
            m == self@.masses[idx as int],
    {
        self.masses[idx]
    }

    pub fn get_spring(&self, idx: usize) -> (s: Spring<L>)
        requires
            idx < self@.springs.len(),
        ensures
            s == self@.springs[idx as int],
    {
        self.springs[idx]
    }

    /// Adds a mass and returns the number of masses, so that the new mass has
    /// the index one below the result.
    pub fn add_mass(&mut self, mass: Mass<V>) -> (n: usize)
        ensures
            final(self)@ == (ModelView { masses: old(self)@.masses.push(mass), ..old(self)@ }),
            n == final(self)@.masses.len(),
            final(self)@.masses[n - 1] == mass,
            old(self)@.wf() ==> final(self)@.wf(),
    {
        self.masses.push(mass);
        self.masses.len()
    }

    /// Adds a spring and returns the number of springs, so that the new
    /// spring has the index one below the result.
    pub fn add_spring(&mut self, spring: Spring<L>) -> (n: usize)
        ensures
            final(self)@ == (ModelView { springs: old(self)@.springs.push(spring), ..old(self)@ }),
            n == final(self)@.springs.len(),
            final(self)@.springs[n - 1] == spring,
            old(self)@.wf() ==> final(self)@.wf(),
    {
        self.springs.push(spring);
        self.springs.len()
    }

    /// Puts a muscle on the spring with index `spr_idx`; the muscle takes the
    /// spring's present rest length as its own. Returns the number of muscles.
    pub fn attach_muscle(&mut self, spr_idx: usize, sense: L, phase: L) -> (n: usize)
        requires
            spr_idx < old(self)@.springs.len(),
        ensures
            final(self)@ == (ModelView {
                muscles: old(self)@.muscles.push(
                    Muscle {
                        restlength: old(self)@.springs[spr_idx as int].restlength,
                        phase,
                        sense,
                        spring_idx: spr_idx,
                    },
                ),
                ..old(self)@
            }),
            n == final(self)@.muscles.len(),
            old(self)@.wf() ==> final(self)@.wf(),
    {
        let muscle = Muscle {
            restlength: self.springs[spr_idx].restlength,
            sense,
            phase,
            spring_idx: spr_idx,
        };
        self.muscles.push(muscle);
        self.muscles.len()
    }

    /// Adds `spring` and a muscle on it, as a model file's muscle entry
    /// describes both. Returns the number of muscles.
    pub fn add_muscle(&mut self, spring: Spring<L>, sense: L, phase: L) -> (n: usize)
        ensures
            final(self)@ == (ModelView {
                springs: old(self)@.springs.push(spring),
                muscles: old(self)@.muscles.push(
                    Muscle {
                        restlength: spring.restlength,
                        phase,
                        sense,
                        spring_idx: old(self)@.springs.len() as usize,
                    },
                ),
                ..old(self)@
            }),
            n == final(self)@.muscles.len(),
            old(self)@.wf() ==> final(self)@.wf(),
    {
        let spring_count = self.add_spring(spring);
        self.attach_muscle(spring_count - 1, sense, phase)
    }

    /// Replaces the mass with index `idx`.
    pub fn set_mass(&mut self, idx: usize, mass: Mass<V>)
        requires
            idx < old(self)@.masses.len(),
        ensures
            final(self)@ == (ModelView {
                masses: old(self)@.masses.update(idx as int, mass),
                ..old(self)@
            }),
            old(self)@.wf() ==> final(self)@.wf(),
    {
        self.masses.set(idx, mass);
    }

    /// Records every mass's position as its previous position, at the start
    /// of a step.
    pub fn capture_last(&mut self)
        ensures
            final(self)@.masses.len() == old(self)@.masses.len(),
            forall|i: int|
                0 <= i < old(self)@.masses.len() ==> #[trigger] final(self)@.masses[i] == (Mass {
                    prv: old(self)@.masses[i].pos,
                    ..old(self)@.masses[i]
                }),
            final(self)@.springs == old(self)@.springs,
            final(self)@.muscles == old(self)@.muscles,
            final(self)@.last_wall_hit == old(self)@.last_wall_hit,
            old(self)@.wf() ==> final(self)@.wf(),
    {
        let n = self.masses.len();
        for i in 0..n
            invariant
                n == old(self)@.masses.len(),
                self@.masses.len() == n,
                forall|k: int|
                    0 <= k < i ==> #[trigger] self@.masses[k] == (Mass {
                        prv: old(self)@.masses[k].pos,
                        ..old(self)@.masses[k]
                    }),
                forall|k: int| i <= k < n ==> #[trigger] self@.masses[k] == old(self)@.masses[k],
                self@.springs == old(self)@.springs,
                self@.muscles == old(self)@.muscles,
                self@.last_wall_hit == old(self)@.last_wall_hit,
        {
            let mut mass = self.masses[i];
            mass.prv = mass.pos;
            self.masses.set(i, mass);
        }
    }

    /// A mass touched `wall`: with auto-reverse on, touching a side wall other
    /// than the one touched last turns the wave around and records the wall.
    pub fn hit_wall<F>(&mut self, wall: WallHit, wave: &mut Wave<F>)
        ensures
            wall_reverses(old(self)@.last_wall_hit, wall, old(wave).autoreverse) ==> {
                &&& final(wave).direction == old(wave).direction.spec_reversed()
                &&& final(self)@ == (ModelView { last_wall_hit: wall, ..old(self)@ })
            },
            !wall_reverses(old(self)@.last_wall_hit, wall, old(wave).autoreverse) ==> {
                &&& final(wave).direction == old(wave).direction
                &&& final(self)@ == old(self)@
            },
            final(wave).amplitude == old(wave).amplitude,
            final(wave).speed == old(wave).speed,
            final(wave).angle == old(wave).angle,
            final(wave).autoreverse == old(wave).autoreverse,
            !old(wave).autoreverse ==> final(wave).direction == old(wave).direction,
            !old(wave).autoreverse ==> final(self)@ == old(self)@,
            old(wave).autoreverse && old(self)@.last_wall_hit != wall ==> final(wave).direction
                == old(wave).direction.spec_reversed() && final(self)@.last_wall_hit == wall,
            old(self)@.wf() ==> final(self)@.wf(),
    {
        if wave.autoreverse && self.last_wall_hit != wall {
            wave.reverse();
            self.last_wall_hit = wall;
        }
    }

    /// Sets the rest length of each muscle's spring to the muscle's entry in
    /// `lengths`, muscle by muscle in order.
    pub fn set_acted_lengths(&mut self, lengths: &Vec<L>)
        requires
            old(self)@.wf(),
            lengths@.len() == old(self)@.muscles.len(),
        ensures
            final(self)@.springs.len() == old(self)@.springs.len(),
            forall|j: int|
                0 <= j < old(self)@.springs.len() ==> #[trigger] final(self)@.springs[j]
                    == acted_spring(
                    old(self)@.springs,
                    old(self)@.muscles,
                    lengths@,
                    j,
                    old(self)@.muscles.len() as int,
                ),
            final(self)@.masses == old(self)@.masses,
            final(self)@.muscles == old(self)@.muscles,
            final(self)@.last_wall_hit == old(self)@.last_wall_hit,
            final(self)@.wf(),
            forall|i: int|
                0 <= i < old(self)@.muscles.len() && last_on_its_spring(old(self)@.muscles, i)
                    ==> #[trigger] final(self)@.springs[old(self)@.muscles[i].spring_idx as int].restlength
                    == lengths@[i],
    {
        proof {
            assert forall|i: int|
                0 <= i < old(self)@.muscles.len() && last_on_its_spring(
                    old(self)@.muscles,
                    i,
                ) implies #[trigger] acted_spring(
                old(self)@.springs,
                old(self)@.muscles,
                lengths@,
                old(self)@.muscles[i].spring_idx as int,
                old(self)@.muscles.len() as int,
            ).restlength == lengths@[i] by {
                lemma_last_muscle_takes_its_length(
                    old(self)@.springs,
                    old(self)@.muscles,
                    lengths@,
                    i,
                );
            }
        }
        let n = self.muscles.len();
        for i in 0..n
            invariant
                n == old(self)@.muscles.len(),
                lengths@.len() == n,
                old(self)@.wf(),
                self@.springs.len() == old(self)@.springs.len(),
                forall|j: int|
                    0 <= j < old(self)@.springs.len() ==> #[trigger] self@.springs[j]
                        == acted_spring(old(self)@.springs, old(self)@.muscles, lengths@, j, i as int),
                self@.masses == old(self)@.masses,
                self@.muscles == old(self)@.muscles,
                self@.last_wall_hit == old(self)@.last_wall_hit,
        {
            let idx = self.muscles[i].spring_idx;
            let mut spring = self.springs[idx];
            spring.restlength = lengths[i];
            self.springs.set(idx, spring);
        }
    }
}


/// Turning the wave around twice leaves its direction as it was, and turning
/// it around negates the sign with which its angle advances.
pub proof fn lemma_reversed_twice(d: WaveDirection)
    ensures
        d.spec_reversed().spec_reversed() == d,
        d.spec_reversed().spec_factor() == -d.spec_factor(),
{
}

/// Touching the same wall again right after does not turn the wave around a
/// second time: a wall can reverse the wave only once in a row.
pub proof fn lemma_same_wall_reverses_once(last: WallHit, wall: WallHit, autoreverse: bool)
    ensures
        ({
            let next = if wall_reverses(last, wall, autoreverse) { wall } else { last };
            !wall_reverses(next, wall, autoreverse)
        }),
{
}

/// Setting the acted rest lengths changes only springs that some muscle acts
/// on; no spring's ends ever change; and the spring of the last muscle takes
/// that muscle's length.
pub proof fn lemma_acted_spring<L>(
    springs: Seq<Spring<L>>,
    muscles: Seq<Muscle<L>>,
    lengths: Seq<L>,
    j: int,
)
    requires
        0 <= j < springs.len(),
    ensures
        (forall|i: int| 0 <= i < muscles.len() ==> #[trigger] muscles[i].spring_idx != j)
            ==> acted_spring(springs, muscles, lengths, j, muscles.len() as int) == springs[j],
        acted_spring(springs, muscles, lengths, j, muscles.len() as int).a == springs[j].a,
        acted_spring(springs, muscles, lengths, j, muscles.len() as int).b == springs[j].b,
        muscles.len() > 0 && muscles[muscles.len() - 1].spring_idx == j ==> acted_spring(
            springs,
            muscles,
            lengths,
            j,
            muscles.len() as int,
        ).restlength == lengths[muscles.len() - 1],
{
    lemma_last_muscle_on_range(muscles, j, muscles.len() as int);
}

/// `last_muscle_on` names a muscle among the first `k` that acts on `j`, or
/// is -1 exactly when none of them does.
proof fn lemma_last_muscle_on_range<L>(muscles: Seq<Muscle<L>>, j: int, k: int)
    requires
        0 <= k <= muscles.len(),
    ensures
        -1 <= last_muscle_on(muscles, j, k) < k,
        last_muscle_on(muscles, j, k) >= 0 ==> muscles[last_muscle_on(muscles, j, k)].spring_idx
            == j,
        last_muscle_on(muscles, j, k) == -1 <==> (forall|i: int|
            0 <= i < k ==> #[trigger] muscles[i].spring_idx != j),
    decreases k,
{
    if k > 0 {
        lemma_last_muscle_on_range(muscles, j, k - 1);
    }
}


/// With auto-reverse off, touching a wall never turns the wave, whichever
/// wall was touched last; with it on, touching a wall other than the last one
/// always does.
pub proof fn lemma_wall_turns_only_with_autoreverse(last: WallHit, wall: WallHit)
    ensures
        !wall_reverses(last, wall, false),
        last != wall ==> wall_reverses(last, wall, true),
        !wall_reverses(wall, wall, true),
{
}

/// Every muscle that is the last one on its spring sets that spring's rest
/// length to its own entry of `lengths`; in particular, when each muscle has
/// a spring of its own, every muscle sets its spring.
pub proof fn lemma_last_muscle_takes_its_length<L>(
    springs: Seq<Spring<L>>,
    muscles: Seq<Muscle<L>>,
    lengths: Seq<L>,
    i: int,
)
    requires
        0 <= i < muscles.len(),
        last_on_its_spring(muscles, i),
    ensures
        acted_spring(springs, muscles, lengths, muscles[i].spring_idx as int, muscles.len() as int).restlength
            == lengths[i],
{
    lemma_last_muscle_on_is(muscles, i, muscles.len() as int);
}

/// Among the first `k` muscles, the last one on the spring of muscle `i` is
/// muscle `i` when no later one of them acts on that spring.
proof fn lemma_last_muscle_on_is<L>(muscles: Seq<Muscle<L>>, i: int, k: int)
    requires
        0 <= i < k <= muscles.len(),
        forall|m: int| i < m < k ==> #[trigger] muscles[m].spring_idx != muscles[i].spring_idx,
    ensures
        last_muscle_on(muscles, muscles[i].spring_idx as int, k) == i,
    decreases k,
{
    if k - 1 > i {
        assert(muscles[k - 1].spring_idx != muscles[i].spring_idx);
        lemma_last_muscle_on_is(muscles, i, k - 1);
    }
}

} // verus!
