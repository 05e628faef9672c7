use crate::field::{
    bilerp_in_range, bilerp_value, inside_replaced, interior, is_grid, same_ring, uniform_grid,
    with_cell,
};
use crate::quantity::{half, one, zero, Quantity, Scalar};
use crate::relax::{
    lemma_relaxed_keeps_ring, lemma_relaxed_without_neighbours, relaxed, settled,
};
use crate::vector::{Vector, Vector2, Vector3};
use vstd::prelude::*;

verus! {

/// The number of relaxation passes that a new solver spends on each diffusion.
pub const DIFFUSION_PASSES: usize = 10;

/// The number of relaxation passes that a new solver spends on each pressure
/// solve.
pub const PRESSURE_PASSES: usize = 20;

/// The plane vector `(x, y)`.
pub open spec fn vec2<S: Scalar>(x: S, y: S) -> Vector2<S> {
    Vector::from_seq(seq![x, y])
}

/// The space vector `(x, y, z)`.
pub open spec fn vec3<S: Scalar>(x: S, y: S, z: S) -> Vector3<S> {
    Vector::from_seq(seq![x, y, z])
}

/// The number minus one, as `S` computes it from zero and one.
pub open spec fn minus_one<S: Scalar>() -> S {
    zero::<S>().minus(one::<S>())
}

/// The grid `a` with the cell of `b` added to each cell inside the outer ring.
pub open spec fn grid_sum<S, T: Quantity<S>>(a: Seq<Seq<T>>, b: Seq<Seq<T>>, w: int, h: int) -> Seq<
    Seq<T>,
> {
    inside_replaced(a, w, h, |x: int, y: int| a[x][y].plus(b[x][y]))
}

/// The grid that diffusion makes of `x` with the state before diffusion in `b`:
/// `passes` passes of relaxation towards `x = b + a * Laplacian(x)`, where
/// `a = viscosity * dt`.
pub open spec fn diffused<S: Scalar, T: Quantity<S>>(
    x: Seq<Seq<T>>,
    b: Seq<Seq<T>>,
    w: int,
    h: int,
    viscosity: S,
    dt: S,
    passes: nat,
) -> Seq<Seq<T>> {
    let a = viscosity.times(dt);
    let g = one::<S>().plus(S::from_index(4).times(a));
    relaxed(x, b, w, h, a, one::<S>(), g, passes)
}

/// The estimate of the divergence of the flow `vel` at the cell `(i, j)`: half
/// the sum of the central differences of x along x and of y along y.
pub open spec fn divergence_at<S: Scalar>(vel: Seq<Seq<Vector2<S>>>, i: int, j: int) -> S {
    let dx = vel[i + 1][j]@[0].minus(vel[i - 1][j]@[0]);
    let dy = vel[i][j + 1]@[1].minus(vel[i][j - 1]@[1]);
    dx.plus(dy).times(half::<S>())
}

/// The grid `c` with the divergence of `vel` in each cell inside the outer ring.
pub open spec fn divergence<S: Scalar>(vel: Seq<Seq<Vector2<S>>>, c: Seq<Seq<S>>, w: int, h: int) -> Seq<
    Seq<S>,
> {
    inside_replaced(c, w, h, |i: int, j: int| divergence_at(vel, i, j))
}

/// The grid `p` with zero in each cell inside the outer ring.
pub open spec fn cleared<S: Scalar>(p: Seq<Seq<S>>, w: int, h: int) -> Seq<Seq<S>> {
    inside_replaced(p, w, h, |i: int, j: int| zero::<S>())
}

/// The pressure that answers the divergence `c`, from the start `p`: `passes`
/// passes of relaxation towards `Laplacian(pressure) = c`.
pub open spec fn pressure_for<S: Scalar>(
    p: Seq<Seq<S>>,
    c: Seq<Seq<S>>,
    w: int,
    h: int,
    passes: nat,
) -> Seq<Seq<S>> {
    relaxed(p, c, w, h, one::<S>(), minus_one::<S>(), S::from_index(4), passes)
}

/// The gradient of the pressure `p` at the cell `(i, j)` by central differences.
pub open spec fn gradient_at<S: Scalar>(p: Seq<Seq<S>>, i: int, j: int) -> Vector2<S> {
    vec2(p[i + 1][j], p[i][j + 1]).minus(vec2(p[i - 1][j], p[i][j - 1])).times(half::<S>())
}

/// The flow `vel` with the gradient of `p` taken from each cell inside the outer
/// ring.
pub open spec fn without_gradient<S: Scalar>(
    vel: Seq<Seq<Vector2<S>>>,
    p: Seq<Seq<S>>,
    w: int,
    h: int,
) -> Seq<Seq<Vector2<S>>> {
    inside_replaced(vel, w, h, |i: int, j: int| vel[i][j].minus(gradient_at(p, i, j)))
}

/// Where the flow `vel` brought what is now at the cell `(i, j)` from, one time
/// step `dt` ago, held inside the outer ring of a grid of `w` by `h` cells.
pub open spec fn backtraced<S: Scalar>(
    vel: Seq<Seq<Vector2<S>>>,
    dt: S,
    w: int,
    h: int,
    i: int,
    j: int,
) -> Vector2<S> {
    let position = vec2(S::from_index(i as usize), S::from_index(j as usize));
    let previous = position.minus(vel[i][j].times(dt));
    previous.clamp(
        vec2(one::<S>(), one::<S>()),
        vec2(S::from_index((w - 2) as usize), S::from_index((h - 2) as usize)),
    )
}

/// What advection leaves in the cell `(i, j)` inside the outer ring: the value
/// of `source` at the position that `backtraced` gives. Where the number type
/// places that position outside `source`, the cell keeps the value of `target`.
pub open spec fn advected_at<S: Scalar, T: Quantity<S>>(
    vel: Seq<Seq<Vector2<S>>>,
    source: Seq<Seq<T>>,
    target: Seq<Seq<T>>,
    dt: S,
    w: int,
    h: int,
    i: int,
    j: int,
) -> T {
    let from = backtraced(vel, dt, w, h, i, j);
    if bilerp_in_range(from, w, h) {
        bilerp_value(source, from)
    } else {
        target[i][j]
    }
}

/// The grid `target` with each cell inside the outer ring replaced by what the
/// flow `vel` carries there from `source` in one time step `dt`.
pub open spec fn advected<S: Scalar, T: Quantity<S>>(
    vel: Seq<Seq<Vector2<S>>>,
    source: Seq<Seq<T>>,
    target: Seq<Seq<T>>,
    dt: S,
    w: int,
    h: int,
) -> Seq<Seq<T>> {
    inside_replaced(
        target,
        w,
        h,
        |i: int, j: int| advected_at(vel, source, target, dt, w, h, i, j),
    )
}

/// The curl of the flow `vel` at the cell `(i, j)` by central differences.
pub open spec fn curl_at<S: Scalar>(vel: Seq<Seq<Vector2<S>>>, i: int, j: int) -> S {
    vel[i][j + 1]@[1].minus(vel[i][j - 1]@[1]).minus(vel[i + 1][j]@[0].minus(vel[i - 1][j]@[0]))
}

/// The grid `v` with the curl of `vel` in each cell inside the outer ring.
pub open spec fn curl<S: Scalar>(vel: Seq<Seq<Vector2<S>>>, v: Seq<Seq<S>>, w: int, h: int) -> Seq<
    Seq<S>,
> {
    inside_replaced(v, w, h, |i: int, j: int| curl_at(vel, i, j))
}

/// The state of a solver as contracts see it: the size of its grids, the seven
/// grids, the clock and the settings.
pub struct FluidState<S: Scalar> {
    /// The number of columns of every grid.
    pub width: int,
    /// The number of cells in each column.
    pub height: int,
    /// The flow field.
    pub velocity: Seq<Seq<Vector2<S>>>,
    /// The dye that the flow carries.
    pub density: Seq<Seq<Vector3<S>>>,
    /// The pressure that the last step solved for.
    pub pressure: Seq<Seq<S>>,
    /// The curl of the flow, as of the last step that tracked it.
    pub vorticity: Seq<Seq<S>>,
    /// The simulation clock.
    pub time: S,
    /// Whether the steps to come compute the vorticity.
    pub need_vort: bool,
    /// The back-buffer of the velocity.
    pub velocity_back: Seq<Seq<Vector2<S>>>,
    /// The back-buffer of the density.
    pub density_back: Seq<Seq<Vector3<S>>>,
    /// The divergence of the velocity, as the pressure solve estimates it.
    pub compression: Seq<Seq<S>>,
    /// The time that one step advances the clock by.
    pub delta_time: S,
    /// How strongly the fluid smooths itself.
    pub viscosity: S,
    /// The number of relaxation passes of each diffusion.
    pub diffusion_passes: nat,
    /// The number of relaxation passes of each pressure solve.
    pub pressure_passes: nat,
}

impl<S: Scalar> FluidState<S> {
    /// All seven grids have the size `width` by `height`.
    pub open spec fn wf(self) -> bool {
        &&& 0 <= self.width
        &&& 0 <= self.height
        &&& is_grid(self.velocity, self.width, self.height)
        &&& is_grid(self.density, self.width, self.height)
        &&& is_grid(self.pressure, self.width, self.height)
        &&& is_grid(self.vorticity, self.width, self.height)
        &&& is_grid(self.velocity_back, self.width, self.height)
        &&& is_grid(self.density_back, self.width, self.height)
        &&& is_grid(self.compression, self.width, self.height)
    }

    /// The state of a new solver: every grid holds zero everywhere, the clock
    /// stands at zero, vorticity is not tracked, and relaxation gets ten passes
    /// for diffusion and twenty for the pressure.
    pub open spec fn initial(w: int, h: int, dt: S, viscosity: S) -> Self {
        let zero2 = vec2(zero::<S>(), zero::<S>());
        let zero3 = vec3(zero::<S>(), zero::<S>(), zero::<S>());
        FluidState {
            width: w,
            height: h,
            velocity: uniform_grid(w, h, zero2),
            density: uniform_grid(w, h, zero3),
            pressure: uniform_grid(w, h, zero::<S>()),
            vorticity: uniform_grid(w, h, zero::<S>()),
            time: zero::<S>(),
            need_vort: false,
            velocity_back: uniform_grid(w, h, zero2),
            density_back: uniform_grid(w, h, zero3),
            compression: uniform_grid(w, h, zero::<S>()),
            delta_time: dt,
            viscosity,
            diffusion_passes: DIFFUSION_PASSES as nat,
            pressure_passes: PRESSURE_PASSES as nat,
        }
    }

    /// The state with the force `(fx, fy)` written to the cell `(x, y)` of the
    /// back-buffer of the velocity, where that cell lies inside the outer ring;
    /// the state itself where it does not.
    pub open spec fn with_force(self, x: int, y: int, fx: S, fy: S) -> Self {
        if interior(self.width, self.height, x, y) {
            FluidState { velocity_back: with_cell(self.velocity_back, x, y, vec2(fx, fy)), ..self }
        } else {
            self
        }
    }

    /// The state with the dye `(r, g, b)` written to the cell `(x, y)` of the
    /// back-buffer of the density, where that cell lies inside the outer ring;
    /// the state itself where it does not.
    pub open spec fn with_density(self, x: int, y: int, r: S, g: S, b: S) -> Self {
        if interior(self.width, self.height, x, y) {
            FluidState { density_back: with_cell(self.density_back, x, y, vec3(r, g, b)), ..self }
        } else {
            self
        }
    }

    /// The state after the back-buffers were added to the velocity and the
    /// density inside the outer ring.
    pub open spec fn with_external(self) -> Self {
        FluidState {
            velocity: grid_sum(self.velocity, self.velocity_back, self.width, self.height),
            density: grid_sum(self.density, self.density_back, self.width, self.height),
            ..self
        }
    }

    /// The state with the velocity and the density exchanged with their
    /// back-buffers.
    pub open spec fn swapped(self) -> Self {
        FluidState {
            velocity: self.velocity_back,
            density: self.density_back,
            velocity_back: self.velocity,
            density_back: self.density,
            ..self
        }
    }

    /// The state after the density and the velocity were diffused from the
    /// state that their back-buffers hold.
    pub open spec fn diffused(self) -> Self {
        FluidState {
            density: diffused(
                self.density,
                self.density_back,
                self.width,
                self.height,
                self.viscosity,
                self.delta_time,
                self.diffusion_passes,
            ),
            velocity: diffused(
                self.velocity,
                self.velocity_back,
                self.width,
                self.height,
                self.viscosity,
                self.delta_time,
                self.diffusion_passes,
            ),
            ..self
        }
    }

    /// The state after the pressure was solved for: the compression holds the
    /// divergence of the velocity, and the pressure answers it.
    pub open spec fn with_pressure(self) -> Self {
        let c = divergence(self.velocity, self.compression, self.width, self.height);
        FluidState {
            compression: c,
            pressure: pressure_for(
                cleared(self.pressure, self.width, self.height),
                c,
                self.width,
                self.height,
                self.pressure_passes,
            ),
            ..self
        }
    }

    /// The state after the gradient of the pressure was taken from the velocity.
    pub open spec fn without_pressure_gradient(self) -> Self {
        FluidState {
            velocity: without_gradient(self.velocity, self.pressure, self.width, self.height),
            ..self
        }
    }

    /// The state after projection: the pressure is solved for, then its
    /// gradient is taken from the velocity.
    pub open spec fn projected(self) -> Self {
        self.with_pressure().without_pressure_gradient()
    }

    /// The state after the density and the velocity were carried along the flow
    /// that the back-buffer of the velocity holds, each from its own back-buffer.
    pub open spec fn advected(self) -> Self {
        FluidState {
            density: advected(
                self.velocity_back,
                self.density_back,
                self.density,
                self.delta_time,
                self.width,
                self.height,
            ),
            velocity: advected(
                self.velocity_back,
                self.velocity_back,
                self.velocity,
                self.delta_time,
                self.width,
                self.height,
            ),
            ..self
        }
    }

    /// The state with the curl of the velocity in the vorticity.
    pub open spec fn with_vorticity(self) -> Self {
        FluidState {
            vorticity: curl(self.velocity, self.vorticity, self.width, self.height),
            ..self
        }
    }

    /// The state with both back-buffers and the compression zero everywhere and
    /// the clock advanced by one time step.
    pub open spec fn settled(self) -> Self {
        FluidState {
            velocity_back: uniform_grid(self.width, self.height, vec2(zero::<S>(), zero::<S>())),
            density_back: uniform_grid(
                self.width,
                self.height,
                vec3(zero::<S>(), zero::<S>(), zero::<S>()),
            ),
            compression: uniform_grid(self.width, self.height, zero::<S>()),
            time: self.time.plus(self.delta_time),
            ..self
        }
    }

    /// The state after one simulation step.
    pub open spec fn stepped(self) -> Self {
        let moved = self.with_external().swapped().diffused().projected().swapped().advected().projected();
        let measured = if self.need_vort {
            moved.with_vorticity()
        } else {
            moved
        };
        measured.settled()
    }
}

/// The clock that stood at `start` after `n` time steps of `dt`, added one by
/// one.
pub open spec fn clock<S: Scalar>(start: S, dt: S, n: nat) -> S
    decreases n,
{
    if n == 0 {
        start
    } else {
        clock(start, dt, (n - 1) as nat).plus(dt)
    }
}

/// Whether `z` is a zero that arithmetic leaves alone: it stays what it is
/// when it is added to itself or taken from itself, and when it is multiplied or
/// divided by any number.
pub open spec fn is_still<S, T: Quantity<S>>(z: T) -> bool {
    &&& z.plus(z) == z
    &&& z.minus(z) == z
    &&& forall|k: S| #[trigger] z.times(k) == z
    &&& forall|k: S| #[trigger] z.over(k) == z
}

/// Relaxation of a grid that holds a still zero everywhere, towards a source
/// that does so too, leaves the grid as it is.
proof fn lemma_relaxed_still<S, T: Quantity<S>>(
    z: T,
    w: int,
    h: int,
    alpha: S,
    beta: S,
    gamma: S,
    n: nat,
)
    requires
        0 <= w,
        0 <= h,
        is_still::<S, T>(z),
    ensures
        relaxed(uniform_grid(w, h, z), uniform_grid(w, h, z), w, h, alpha, beta, gamma, n)
            == uniform_grid(w, h, z),
{
    let g = uniform_grid(w, h, z);
    if n > 0 {
        assert(settled(g, g, w, h, beta, gamma) =~~= g);
        lemma_relaxed_without_neighbours(g, g, w, h, alpha, beta, gamma, n);
    }
}

/// Advection from a grid that holds a still zero everywhere into one that does
/// so too leaves the grid as it is, whatever the flow.
proof fn lemma_advected_still<S: Scalar, T: Quantity<S>>(
    z: T,
    vel: Seq<Seq<Vector2<S>>>,
    dt: S,
    w: int,
    h: int,
)
    requires
        0 <= w,
        0 <= h,
        is_still::<S, T>(z),
    ensures
        advected(vel, uniform_grid(w, h, z), uniform_grid(w, h, z), dt, w, h) == uniform_grid(
            w,
            h,
            z,
        ),
{
    let g = uniform_grid(w, h, z);
    assert(advected(vel, g, g, dt, w, h) =~~= g);
}

/// Something that happens to a solver between its making and now.
pub enum FluidEvent<S: Scalar> {
    /// A call of `insert_force` for the cell `(x, y)`.
    Force { x: usize, y: usize, fx: S, fy: S },
    /// A call of `insert_density` for the cell `(x, y)`.
    Dye { x: usize, y: usize, r: S, g: S, b: S },
    /// A call of `set_passes`.
    Passes { diffusion: usize, pressure: usize },
    /// A call of `set_need_vort`.
    Vorticity { on: bool },
    /// A call of `update`.
    Step,
}

impl<S: Scalar> FluidState<S> {
    /// The state after `event`.
    pub open spec fn after(self, event: FluidEvent<S>) -> Self {
        match event {
            FluidEvent::Force { x, y, fx, fy } => self.with_force(x as int, y as int, fx, fy),
            FluidEvent::Dye { x, y, r, g, b } => self.with_density(x as int, y as int, r, g, b),
            FluidEvent::Passes { diffusion, pressure } => FluidState {
                diffusion_passes: diffusion as nat,
                pressure_passes: pressure as nat,
                ..self
            },
            FluidEvent::Vorticity { on } => FluidState { need_vort: on, ..self },
            FluidEvent::Step => self.stepped(),
        }
    }

    /// The state after the `events`, in their order.
    pub open spec fn after_all(self, events: Seq<FluidEvent<S>>) -> Self
        decreases events.len(),
    {
        if events.len() == 0 {
            self
        } else {
            self.after_all(events.drop_last()).after(events.last())
        }
    }

    /// Whether the velocity, the density and the pressure hold on the outer
    /// ring what they hold there in `other`.
    pub open spec fn same_ring_as(self, other: Self) -> bool {
        &&& same_ring(self.velocity, other.velocity, self.width, self.height)
        &&& same_ring(self.density, other.density, self.width, self.height)
        &&& same_ring(self.pressure, other.pressure, self.width, self.height)
    }

    /// Whether both back-buffers hold zero everywhere.
    pub open spec fn back_buffers_clear(self) -> bool {
        &&& self.velocity_back == uniform_grid(
            self.width,
            self.height,
            vec2(zero::<S>(), zero::<S>()),
        )
        &&& self.density_back == uniform_grid(
            self.width,
            self.height,
            vec3(zero::<S>(), zero::<S>(), zero::<S>()),
        )
    }

    /// Projection keeps the size of the grids, writes only the velocity, the
    /// pressure and the compression, and leaves the outer ring of the velocity
    /// and of the pressure as it was.
    proof fn lemma_projected(self)
        requires
            self.wf(),
        ensures
            self.projected().wf(),
            self.projected() == (FluidState {
                velocity: self.projected().velocity,
                pressure: self.projected().pressure,
                compression: self.projected().compression,
                ..self
            }),
            same_ring(self.projected().velocity, self.velocity, self.width, self.height),
            same_ring(self.projected().pressure, self.pressure, self.width, self.height),
    {
        let w = self.width;
        let h = self.height;
        let c = divergence(self.velocity, self.compression, w, h);
        let first_pressure = cleared(self.pressure, w, h);
        lemma_relaxed_keeps_ring(
            first_pressure,
            c,
            w,
            h,
            one::<S>(),
            minus_one::<S>(),
            S::from_index(4),
            self.pressure_passes,
        );
    }

    /// A step keeps the size of the grids, leaves the outer ring of the
    /// velocity, of the density and of the pressure as it was, and leaves both
    /// back-buffers zero everywhere.
    pub proof fn lemma_stepped(self)
        requires
            self.wf(),
        ensures
            self.stepped().wf(),
            self.stepped().width == self.width,
            self.stepped().height == self.height,
            self.stepped().same_ring_as(self),
            self.stepped().back_buffers_clear(),
    {
        let w = self.width;
        let h = self.height;
        let a = self.viscosity.times(self.delta_time);
        let g = one::<S>().plus(S::from_index(4).times(a));
        let s1 = self.with_external();
        let s2 = s1.swapped();
        let n = self.diffusion_passes;
        lemma_relaxed_keeps_ring(s2.density, s2.density_back, w, h, a, one::<S>(), g, n);
        lemma_relaxed_keeps_ring(s2.velocity, s2.velocity_back, w, h, a, one::<S>(), g, n);
        let s3 = s2.diffused();
        s3.lemma_projected();
        let s6 = s3.projected().swapped().advected();
        s6.lemma_projected();
    }

    /// No event changes the size of the grids or breaks their fit.
    pub proof fn lemma_after_keeps_fit(self, events: Seq<FluidEvent<S>>)
        requires
            self.wf(),
        ensures
            self.after_all(events).wf(),
            self.after_all(events).width == self.width,
            self.after_all(events).height == self.height,
        decreases events.len(),
    {
        if events.len() > 0 {
            self.lemma_after_keeps_fit(events.drop_last());
            self.after_all(events.drop_last()).lemma_stepped();
        }
    }

    /// The outer ring is never written: whatever forces and dye are inserted,
    /// whatever is set and however many steps are made, the cells of the
    /// velocity, the density and the pressure on the outer ring hold what they
    /// held at the start. For a new solver that is zero.
    pub proof fn lemma_ring_is_fixed(self, events: Seq<FluidEvent<S>>)
        requires
            self.wf(),
        ensures
            self.after_all(events).same_ring_as(self),
        decreases events.len(),
    {
        if events.len() > 0 {
            let before = self.after_all(events.drop_last());
            self.lemma_ring_is_fixed(events.drop_last());
            self.lemma_after_keeps_fit(events.drop_last());
            before.lemma_stepped();
        }
    }

    /// The outer ring of a new solver stays at the value it was made with:
    /// whatever happens to the solver, each cell of the velocity, the density
    /// and the pressure on the outer ring holds zero.
    pub proof fn lemma_ring_stays_zero(
        w: int,
        h: int,
        dt: S,
        viscosity: S,
        events: Seq<FluidEvent<S>>,
        x: int,
        y: int,
    )
        requires
            0 <= x < w,
            0 <= y < h,
            !interior(w, h, x, y),
        ensures
            ({
                let now = Self::initial(w, h, dt, viscosity).after_all(events);
                &&& now.velocity[x][y] == vec2(zero::<S>(), zero::<S>())
                &&& now.density[x][y] == vec3(zero::<S>(), zero::<S>(), zero::<S>())
                &&& now.pressure[x][y] == zero::<S>()
            }),
    {
        let first = Self::initial(w, h, dt, viscosity);
        first.lemma_ring_is_fixed(events);
        first.lemma_after_keeps_fit(events);
    }

    /// Whether the fluid is at rest: every grid holds zero everywhere.
    pub open spec fn at_rest(self) -> bool {
        let zero2 = vec2(zero::<S>(), zero::<S>());
        let zero3 = vec3(zero::<S>(), zero::<S>(), zero::<S>());
        &&& 0 <= self.width
        &&& 0 <= self.height
        &&& self.velocity == uniform_grid(self.width, self.height, zero2)
        &&& self.density == uniform_grid(self.width, self.height, zero3)
        &&& self.pressure == uniform_grid(self.width, self.height, zero::<S>())
        &&& self.vorticity == uniform_grid(self.width, self.height, zero::<S>())
        &&& self.velocity_back == uniform_grid(self.width, self.height, zero2)
        &&& self.density_back == uniform_grid(self.width, self.height, zero3)
        &&& self.compression == uniform_grid(self.width, self.height, zero::<S>())
    }

    /// A fluid at rest that nothing stirs stays at rest: a step on a state in
    /// which every grid holds zero leaves zero in every grid, and only the clock
    /// moves.
    ///
    /// This holds for a number type whose zero is still, as a number and as
    /// each component of a vector.
    pub proof fn lemma_rest_is_kept(self)
        requires
            self.at_rest(),
            is_still::<S, S>(zero::<S>()),
            is_still::<S, Vector2<S>>(vec2(zero::<S>(), zero::<S>())),
            is_still::<S, Vector3<S>>(vec3(zero::<S>(), zero::<S>(), zero::<S>())),
        ensures
            self.stepped().at_rest(),
            self.stepped() == (FluidState { time: self.time.plus(self.delta_time), ..self }),
    {
        let w = self.width;
        let h = self.height;
        let nought = zero::<S>();
        let zero2 = vec2(nought, nought);
        let zero3 = vec3(nought, nought, nought);
        let still = uniform_grid(w, h, nought);
        let still2 = uniform_grid(w, h, zero2);
        let still3 = uniform_grid(w, h, zero3);
        Vector::<S, 2>::lemma_from_seq(seq![nought, nought]);
        let a = self.viscosity.times(self.delta_time);
        let g = one::<S>().plus(S::from_index(4).times(a));

        let s1 = self.with_external();
        assert(s1.velocity =~~= still2);
        assert(s1.density =~~= still3);
        lemma_relaxed_still(zero3, w, h, a, one::<S>(), g, self.diffusion_passes);
        lemma_relaxed_still(zero2, w, h, a, one::<S>(), g, self.diffusion_passes);
        self.lemma_rest_is_projected();
        lemma_advected_still(zero3, still2, self.delta_time, w, h);
        lemma_advected_still(zero2, still2, self.delta_time, w, h);
        assert(self.with_vorticity().vorticity =~~= still);
    }

    /// The state after `n` steps with nothing inserted between them.
    pub open spec fn stepped_times(self, n: nat) -> Self
        decreases n,
    {
        if n == 0 {
            self
        } else {
            self.stepped_times((n - 1) as nat).stepped()
        }
    }

    /// A fluid at rest that nothing stirs stays at rest for good: after any
    /// number of steps every grid still holds zero everywhere, and the clock
    /// has advanced by one time step for each step made.
    ///
    /// This holds for a number type whose zero is still, as a number and as
    /// each component of a vector.
    pub proof fn lemma_rest_stays_at_rest(self, n: nat)
        requires
            self.at_rest(),
            is_still::<S, S>(zero::<S>()),
            is_still::<S, Vector2<S>>(vec2(zero::<S>(), zero::<S>())),
            is_still::<S, Vector3<S>>(vec3(zero::<S>(), zero::<S>(), zero::<S>())),
        ensures
            self.stepped_times(n).at_rest(),
            self.stepped_times(n) == (FluidState {
                time: clock(self.time, self.delta_time, n),
                ..self
            }),
        decreases n,
    {
        if n > 0 {
            self.lemma_rest_stays_at_rest((n - 1) as nat);
            self.stepped_times((n - 1) as nat).lemma_rest_is_kept();
        }
    }

    /// Projection leaves a fluid at rest as it is.
    proof fn lemma_rest_is_projected(self)
        requires
            self.at_rest(),
            is_still::<S, S>(zero::<S>()),
            is_still::<S, Vector2<S>>(vec2(zero::<S>(), zero::<S>())),
        ensures
            self.projected() == self,
    {
        let w = self.width;
        let h = self.height;
        let nought = zero::<S>();
        let zero2 = vec2(nought, nought);
        let still = uniform_grid(w, h, nought);
        Vector::<S, 2>::lemma_from_seq(seq![nought, nought]);
        let c = divergence(self.velocity, self.compression, w, h);
        assert(c =~~= still);
        assert(cleared(self.pressure, w, h) =~~= still);
        lemma_relaxed_still(
            nought,
            w,
            h,
            one::<S>(),
            minus_one::<S>(),
            S::from_index(4),
            self.pressure_passes,
        );
        assert(without_gradient(self.velocity, self.pressure, w, h) =~~= self.velocity);
    }
}

} // verus!
