use crate::field::{checked_bilerp, interior, passed, DiscreteField};
use crate::quantity::{half, one, zero, Quantity, Scalar};
use crate::relax::relax;
use crate::state::{
    advected, advected_at, cleared, curl, curl_at, diffused, divergence, divergence_at,
    gradient_at, grid_sum, vec2, vec3, without_gradient, FluidState, DIFFUSION_PASSES,
    PRESSURE_PASSES,
};
use crate::vector::{Vector, Vector2, Vector3};
use vstd::prelude::*;

verus! {

/// Whether `t` is what a walk over the cells inside the outer ring that writes
/// `f` has made of the grid `g` when it stands at `(i, j)`.
spec fn replaced_until<T>(
    t: Seq<Seq<T>>,
    g: Seq<Seq<T>>,
    w: int,
    h: int,
    f: spec_fn(int, int) -> T,
    i: int,
    j: int,
) -> bool {
    forall|a: int, c: int|
        0 <= a < w && 0 <= c < h ==> #[trigger] t[a][c] == (if passed(a, c, i, j) && interior(
            w,
            h,
            a,
            c,
        ) {
            f(a, c)
        } else {
            g[a][c]
        })
}

/// Adds to each cell of `target` inside the outer ring the same cell of `source`.
fn add_cells<S, T: Quantity<S>>(target: &mut DiscreteField<T>, source: &DiscreteField<T>)
    requires
        old(target).wf(),
        source.wf(),
        source.width() == old(target).width(),
        source.height() == old(target).height(),
    ensures
        final(target).wf(),
        final(target).width() == old(target).width(),
        final(target).height() == old(target).height(),
        final(target)@ == grid_sum(
            old(target)@,
            source@,
            old(target).width() as int,
            old(target).height() as int,
        ),
{
    let w = target.width();
    let h = target.height();
    let ghost t0 = target@;
    let ghost f = |x: int, y: int| t0[x][y].plus(source@[x][y]);
    let mut i: usize = 1;
    while i + 1 < w
        invariant
            1 <= i,
            i == 1 || i < w,
            target.wf(),
            source.wf(),
            target.width() == w,
            target.height() == h,
            source.width() == w,
            source.height() == h,
            f == (|x: int, y: int| t0[x][y].plus(source@[x][y])),
            replaced_until(target@, t0, w as int, h as int, f, i as int, 1),
        decreases w - i,
    {
        let mut j: usize = 1;
        while j + 1 < h
            invariant
                1 <= i,
                i + 1 < w,
                1 <= j,
                j == 1 || j < h,
                target.wf(),
                source.wf(),
                target.width() == w,
                target.height() == h,
                source.width() == w,
                source.height() == h,
                f == (|x: int, y: int| t0[x][y].plus(source@[x][y])),
                replaced_until(target@, t0, w as int, h as int, f, i as int, j as int),
            decreases h - j,
        {
            let v = target.get(i, j);
            let dv = source.get(i, j);
            target.put(i, j, v.plus(dv));
            j += 1;
        }
        i += 1;
    }
    assert(target@ =~~= grid_sum(t0, source@, w as int, h as int));
}

/// The plane vector `(x, y)`.
fn make2<S: Scalar>(x: S, y: S) -> (r: Vector2<S>)
    ensures
        r == vec2(x, y),
{
    let r = Vector::new([x, y]);
    proof {
        Vector::<S, 2>::lemma_from_seq(seq![x, y]);
        Vector::lemma_same_components(r, vec2(x, y));
    }
    r
}

/// The space vector `(x, y, z)`.
fn make3<S: Scalar>(x: S, y: S, z: S) -> (r: Vector3<S>)
    ensures
        r == vec3(x, y, z),
{
    let r = Vector::new([x, y, z]);
    proof {
        Vector::<S, 3>::lemma_from_seq(seq![x, y, z]);
        Vector::lemma_same_components(r, vec3(x, y, z));
    }
    r
}

/// Writes the divergence of `velocity` to each cell of `compression` inside the
/// outer ring, and zero to the same cells of `pressure`.
fn measure_divergence<S: Scalar>(
    velocity: &DiscreteField<Vector2<S>>,
    compression: &mut DiscreteField<S>,
    pressure: &mut DiscreteField<S>,
)
    requires
        velocity.wf(),
        old(compression).wf(),
        old(pressure).wf(),
        old(compression).width() == velocity.width(),
        old(compression).height() == velocity.height(),
        old(pressure).width() == velocity.width(),
        old(pressure).height() == velocity.height(),
    ensures
        final(compression).wf(),
        final(pressure).wf(),
        final(compression).width() == velocity.width(),
        final(compression).height() == velocity.height(),
        final(pressure).width() == velocity.width(),
        final(pressure).height() == velocity.height(),
        final(compression)@ == divergence(
            velocity@,
            old(compression)@,
            velocity.width() as int,
            velocity.height() as int,
        ),
        final(pressure)@ == cleared(
            old(pressure)@,
            velocity.width() as int,
            velocity.height() as int,
        ),
{
    let w = velocity.width();
    let h = velocity.height();
    let nought = S::from_index(0);
    let halved = S::from_index(1).over(S::from_index(2));
    let ghost t0 = compression@;
    let ghost first_pressure = pressure@;
    let ghost f = |a: int, c: int| divergence_at(velocity@, a, c);
    let ghost z = |a: int, c: int| zero::<S>();
    let mut i: usize = 1;
    while i + 1 < w
        invariant
            1 <= i,
            i == 1 || i < w,
            velocity.wf(),
            compression.wf(),
            pressure.wf(),
            velocity.width() == w,
            velocity.height() == h,
            compression.width() == w,
            compression.height() == h,
            pressure.width() == w,
            pressure.height() == h,
            nought == zero::<S>(),
            halved == half::<S>(),
            f == (|a: int, c: int| divergence_at(velocity@, a, c)),
            z == (|a: int, c: int| zero::<S>()),
            replaced_until(pressure@, first_pressure, w as int, h as int, z, i as int, 1),
            replaced_until(compression@, t0, w as int, h as int, f, i as int, 1),
        decreases w - i,
    {
        let mut j: usize = 1;
        while j + 1 < h
            invariant
                1 <= i,
                i + 1 < w,
                1 <= j,
                j == 1 || j < h,
                velocity.wf(),
                compression.wf(),
                pressure.wf(),
                velocity.width() == w,
                velocity.height() == h,
                compression.width() == w,
                compression.height() == h,
                pressure.width() == w,
                pressure.height() == h,
                nought == zero::<S>(),
                halved == half::<S>(),
                f == (|a: int, c: int| divergence_at(velocity@, a, c)),
                z == (|a: int, c: int| zero::<S>()),
                replaced_until(pressure@, first_pressure, w as int, h as int, z, i as int, j as int),
                replaced_until(compression@, t0, w as int, h as int, f, i as int, j as int),
            decreases h - j,
        {
            let dx = velocity.get(i + 1, j).get(0).minus(velocity.get(i - 1, j).get(0));
            let dy = velocity.get(i, j + 1).get(1).minus(velocity.get(i, j - 1).get(1));
            let dv = dx.plus(dy).times(halved);
            compression.put(i, j, dv);
            pressure.put(i, j, nought);
            j += 1;
        }
        i += 1;
    }
    assert(compression@ =~~= divergence(velocity@, t0, w as int, h as int));
    assert(pressure@ =~~= cleared(first_pressure, w as int, h as int));
}

/// Takes the gradient of `pressure` from each cell of `velocity` inside the
/// outer ring.
fn remove_gradient<S: Scalar>(velocity: &mut DiscreteField<Vector2<S>>, pressure: &DiscreteField<S>)
    requires
        old(velocity).wf(),
        pressure.wf(),
        pressure.width() == old(velocity).width(),
        pressure.height() == old(velocity).height(),
    ensures
        final(velocity).wf(),
        final(velocity).width() == old(velocity).width(),
        final(velocity).height() == old(velocity).height(),
        final(velocity)@ == without_gradient(
            old(velocity)@,
            pressure@,
            old(velocity).width() as int,
            old(velocity).height() as int,
        ),
{
    let w = velocity.width();
    let h = velocity.height();
    let halved = S::from_index(1).over(S::from_index(2));
    let ghost t0 = velocity@;
    let ghost f = |a: int, c: int| t0[a][c].minus(gradient_at(pressure@, a, c));
    let mut i: usize = 1;
    while i + 1 < w
        invariant
            1 <= i,
            i == 1 || i < w,
            velocity.wf(),
            pressure.wf(),
            velocity.width() == w,
            velocity.height() == h,
            pressure.width() == w,
            pressure.height() == h,
            halved == half::<S>(),
            f == (|a: int, c: int| t0[a][c].minus(gradient_at(pressure@, a, c))),
            replaced_until(velocity@, t0, w as int, h as int, f, i as int, 1),
        decreases w - i,
    {
        let mut j: usize = 1;
        while j + 1 < h
            invariant
                1 <= i,
                i + 1 < w,
                1 <= j,
                j == 1 || j < h,
                velocity.wf(),
                pressure.wf(),
                velocity.width() == w,
                velocity.height() == h,
                pressure.width() == w,
                pressure.height() == h,
                halved == half::<S>(),
                f == (|a: int, c: int| t0[a][c].minus(gradient_at(pressure@, a, c))),
                replaced_until(velocity@, t0, w as int, h as int, f, i as int, j as int),
            decreases h - j,
        {
            let ahead = make2(pressure.get(i + 1, j), pressure.get(i, j + 1));
            let behind = make2(pressure.get(i - 1, j), pressure.get(i, j - 1));
            let gradient = ahead.minus(behind).times(halved);
            let v = velocity.get(i, j);
            velocity.put(i, j, v.minus(gradient));
            j += 1;
        }
        i += 1;
    }
    assert(velocity@ =~~= without_gradient(t0, pressure@, w as int, h as int));
}

/// Writes the curl of `velocity` to each cell of `vorticity` inside the outer
/// ring.
fn measure_curl<S: Scalar>(velocity: &DiscreteField<Vector2<S>>, vorticity: &mut DiscreteField<S>)
    requires
        velocity.wf(),
        old(vorticity).wf(),
        old(vorticity).width() == velocity.width(),
        old(vorticity).height() == velocity.height(),
    ensures
        final(vorticity).wf(),
        final(vorticity).width() == velocity.width(),
        final(vorticity).height() == velocity.height(),
        final(vorticity)@ == curl(
            velocity@,
            old(vorticity)@,
            velocity.width() as int,
            velocity.height() as int,
        ),
{
    let w = velocity.width();
    let h = velocity.height();
    let ghost t0 = vorticity@;
    let ghost f = |a: int, c: int| curl_at(velocity@, a, c);
    let mut i: usize = 1;
    while i + 1 < w
        invariant
            1 <= i,
            i == 1 || i < w,
            velocity.wf(),
            vorticity.wf(),
            velocity.width() == w,
            velocity.height() == h,
            vorticity.width() == w,
            vorticity.height() == h,
            f == (|a: int, c: int| curl_at(velocity@, a, c)),
            replaced_until(vorticity@, t0, w as int, h as int, f, i as int, 1),
        decreases w - i,
    {
        let mut j: usize = 1;
        while j + 1 < h
            invariant
                1 <= i,
                i + 1 < w,
                1 <= j,
                j == 1 || j < h,
                velocity.wf(),
                vorticity.wf(),
                velocity.width() == w,
                velocity.height() == h,
                vorticity.width() == w,
                vorticity.height() == h,
                f == (|a: int, c: int| curl_at(velocity@, a, c)),
                replaced_until(vorticity@, t0, w as int, h as int, f, i as int, j as int),
            decreases h - j,
        {
            let dy = velocity.get(i, j + 1).get(1).minus(velocity.get(i, j - 1).get(1));
            let dx = velocity.get(i + 1, j).get(0).minus(velocity.get(i - 1, j).get(0));
            vorticity.put(i, j, dy.minus(dx));
            j += 1;
        }
        i += 1;
    }
    assert(vorticity@ =~~= curl(velocity@, t0, w as int, h as int));
}

/// A solver for the flow of an incompressible fluid on a grid, after the
/// method of stable fluids. It owns the velocity, the dye density, the pressure
/// and the vorticity of the fluid, the back-buffers of the velocity and the
/// density, and a scratch grid for the divergence, all of one size.
pub struct FluidSolver<S: Scalar> {
    /// The flow field.
    pub velocity: DiscreteField<Vector2<S>>,
    /// The dye that the flow carries, as red, green and blue.
    pub density: DiscreteField<Vector3<S>>,
    /// The pressure that the last step solved for.
    pub pressure: DiscreteField<S>,
    /// The curl of the flow, as of the last step that tracked it.
    pub vorticity: DiscreteField<S>,
    /// The simulation clock.
    pub time: S,
    /// Whether the steps to come compute the vorticity.
    pub need_vort: bool,
    /// Before a step, the forces inserted for it; within a step, where the
    /// velocity is diffused to and advected from.
    velocity_back: DiscreteField<Vector2<S>>,
    /// Before a step, the dye inserted for it; within a step, where the density
    /// is diffused to and advected from.
    density_back: DiscreteField<Vector3<S>>,
    /// The divergence of the velocity, as the pressure solve estimates it.
    compression: DiscreteField<S>,
    /// The time that one step advances the clock by.
    delta_time: S,
    /// How strongly the fluid smooths itself.
    viscosity: S,
    /// The number of relaxation passes of each diffusion.
    diffusion_passes: usize,
    /// The number of relaxation passes of each pressure solve.
    pressure_passes: usize,
}

impl<S: Scalar> View for FluidSolver<S> {
    type V = FluidState<S>;

    closed spec fn view(&self) -> FluidState<S> {
        FluidState {
            width: self.velocity.width() as int,
            height: self.velocity.height() as int,
            velocity: self.velocity@,
            density: self.density@,
            pressure: self.pressure@,
            vorticity: self.vorticity@,
            time: self.time,
            need_vort: self.need_vort,
            velocity_back: self.velocity_back@,
            density_back: self.density_back@,
            compression: self.compression@,
            delta_time: self.delta_time,
            viscosity: self.viscosity,
            diffusion_passes: self.diffusion_passes as nat,
            pressure_passes: self.pressure_passes as nat,
        }
    }
}

impl<S: Scalar> FluidSolver<S> {
    /// Each of the seven fields is well formed, and all have one size.
    pub closed spec fn fields_fit(&self) -> bool {
        let w = self.velocity.width();
        let h = self.velocity.height();
        &&& self.velocity.wf()
        &&& self.density.wf()
        &&& self.pressure.wf()
        &&& self.vorticity.wf()
        &&& self.velocity_back.wf()
        &&& self.density_back.wf()
        &&& self.compression.wf()
        &&& self.density.width() == w && self.density.height() == h
        &&& self.pressure.width() == w && self.pressure.height() == h
        &&& self.vorticity.width() == w && self.vorticity.height() == h
        &&& self.velocity_back.width() == w && self.velocity_back.height() == h
        &&& self.density_back.width() == w && self.density_back.height() == h
        &&& self.compression.width() == w && self.compression.height() == h
    }

    /// The solver is well formed: its fields fit, and so do the grids of its
    /// view.
    pub open spec fn wf(&self) -> bool {
        &&& self.fields_fit()
        &&& self@.wf()
    }

    /// A solver for a grid of `width` by `height` cells, with the time step
    /// `dt` and the viscosity `v`. Every field is zero everywhere.
    pub fn new(width: usize, height: usize, dt: S, v: S) -> (r: Self)
        requires
            width * height <= usize::MAX,
        ensures
            r.wf(),
            r@ == FluidState::initial(width as int, height as int, dt, v),
    {
        let nought = S::from_index(0);
        let zero2 = make2(nought, nought);
        let zero3 = make3(nought, nought, nought);
        Self {
            velocity: DiscreteField::new(width, height, zero2),
            density: DiscreteField::new(width, height, zero3),
            pressure: DiscreteField::new(width, height, nought),
            vorticity: DiscreteField::new(width, height, nought),
            time: nought,
            need_vort: false,
            velocity_back: DiscreteField::new(width, height, zero2),
            density_back: DiscreteField::new(width, height, zero3),
            compression: DiscreteField::new(width, height, nought),
            delta_time: dt,
            viscosity: v,
            diffusion_passes: DIFFUSION_PASSES,
            pressure_passes: PRESSURE_PASSES,
        }
    }

    /// Sets the force on the cell `(x, y)` for the next step to `(fx, fy)`,
    /// in place of any force set there before. A cell on the outer ring or
    /// outside the grid takes no force: the call then changes nothing.
    pub fn insert_force(&mut self, x: usize, y: usize, fx: S, fy: S)
        requires
            old(self).wf(),
        ensures
            final(self).wf(),
            final(self)@ == old(self)@.with_force(x as int, y as int, fx, fy),
            !interior(old(self)@.width, old(self)@.height, x as int, y as int) ==> final(self)@
                == old(self)@,
    {
        let w = self.velocity_back.width();
        let h = self.velocity_back.height();
        if w >= 2 && h >= 2 && x >= 1 && x <= w - 2 && y >= 1 && y <= h - 2 {
            self.velocity_back.put(x, y, make2(fx, fy));
        }
    }

    /// Sets the dye on the cell `(x, y)` for the next step to `(r, g, b)`, in
    /// place of any dye set there before. A cell on the outer ring or outside
    /// the grid takes no dye: the call then changes nothing.
    pub fn insert_density(&mut self, x: usize, y: usize, r: S, g: S, b: S)
        requires
            old(self).wf(),
        ensures
            final(self).wf(),
            final(self)@ == old(self)@.with_density(x as int, y as int, r, g, b),
            !interior(old(self)@.width, old(self)@.height, x as int, y as int) ==> final(self)@
                == old(self)@,
    {
        let w = self.density_back.width();
        let h = self.density_back.height();
        if w >= 2 && h >= 2 && x >= 1 && x <= w - 2 && y >= 1 && y <= h - 2 {
            self.density_back.put(x, y, make3(r, g, b));
        }
    }

    /// Advances the simulation by one time step: adds the forces and the dye
    /// that were set since the last step, diffuses, projects, advects, projects
    /// again, computes the vorticity where it is tracked, clears the
    /// back-buffers and the compression, and advances the clock.
    pub fn update(&mut self)
        requires
            old(self).wf(),
        ensures
            final(self).wf(),
            final(self)@ == old(self)@.stepped(),
            final(self)@.same_ring_as(old(self)@),
            final(self)@.back_buffers_clear(),
    {
        proof {
            self@.lemma_stepped();
        }
        self.add_external();
        self.swap_fields();
        let passes = self.diffusion_passes;
        Self::diffuse(&mut self.density, &self.density_back, self.viscosity, self.delta_time, passes);
        Self::diffuse(
            &mut self.velocity,
            &self.velocity_back,
            self.viscosity,
            self.delta_time,
            passes,
        );
        self.project();
        self.swap_fields();
        Self::advect(&self.velocity_back, &self.density_back, &mut self.density, self.delta_time);
        Self::advect(&self.velocity_back, &self.velocity_back, &mut self.velocity, self.delta_time);
        self.project();
        if self.need_vort {
            self.solve_vorticity();
        }
        let nought = S::from_index(0);
        self.velocity_back.set(make2(nought, nought));
        self.density_back.set(make3(nought, nought, nought));
        self.compression.set(nought);
        self.time = self.time.plus(self.delta_time);
    }

    /// The flow field.
    pub fn velocity(&self) -> (r: &DiscreteField<Vector2<S>>)
        ensures
            r@ == self@.velocity,
            self.wf() ==> r.wf() && r.width() == self@.width && r.height() == self@.height,
    {
        &self.velocity
    }

    /// The dye that the flow carries.
    pub fn density(&self) -> (r: &DiscreteField<Vector3<S>>)
        ensures
            r@ == self@.density,
            self.wf() ==> r.wf() && r.width() == self@.width && r.height() == self@.height,
    {
        &self.density
    }

    /// The pressure that the last step solved for.
    pub fn pressure(&self) -> (r: &DiscreteField<S>)
        ensures
            r@ == self@.pressure,
            self.wf() ==> r.wf() && r.width() == self@.width && r.height() == self@.height,
    {
        &self.pressure
    }

    /// The curl of the flow, as of the last step that tracked it.
    pub fn vorticity(&self) -> (r: &DiscreteField<S>)
        ensures
            r@ == self@.vorticity,
            self.wf() ==> r.wf() && r.width() == self@.width && r.height() == self@.height,
    {
        &self.vorticity
    }

    /// The simulation clock: the sum of the time steps made so far.
    pub fn time(&self) -> (r: S)
        ensures
            r == self@.time,
    {
        self.time
    }

    /// Sets the number of relaxation passes that the steps to come spend on each
    /// diffusion and on each pressure solve.
    pub fn set_passes(&mut self, diffusion: usize, pressure: usize)
        ensures
            final(self)@ == (FluidState {
                diffusion_passes: diffusion as nat,
                pressure_passes: pressure as nat,
                ..old(self)@
            }),
            old(self).wf() ==> final(self).wf(),
    {
        self.diffusion_passes = diffusion;
        self.pressure_passes = pressure;
    }

    /// Turns the tracking of vorticity on or off for the steps to come.
    pub fn set_need_vort(&mut self, on: bool)
        ensures
            final(self)@ == (FluidState { need_vort: on, ..old(self)@ }),
            old(self).wf() ==> final(self).wf(),
    {
        self.need_vort = on;
    }

    /// Adds the forces and the dye that were inserted since the last step to
    /// the velocity and the density, inside the outer ring.
    fn add_external(&mut self)
        requires
            old(self).wf(),
        ensures
            final(self).wf(),
            final(self)@ == old(self)@.with_external(),
    {
        add_cells(&mut self.velocity, &self.velocity_back);
        add_cells(&mut self.density, &self.density_back);
    }

    /// Exchanges the velocity and the density with their back-buffers, without
    /// copying a cell.
    fn swap_fields(&mut self)
        requires
            old(self).wf(),
        ensures
            final(self).wf(),
            final(self)@ == old(self)@.swapped(),
    {
        std::mem::swap(&mut self.velocity, &mut self.velocity_back);
        std::mem::swap(&mut self.density, &mut self.density_back);
    }

    /// Diffuses `f` from the state `fb` that it had before: `passes` passes of
    /// relaxation with the coefficient `mul * dt`.
    fn diffuse<T: Quantity<S>>(
        f: &mut DiscreteField<T>,
        fb: &DiscreteField<T>,
        mul: S,
        dt: S,
        passes: usize,
    )
        requires
            old(f).wf(),
            fb.wf(),
            fb.width() == old(f).width(),
            fb.height() == old(f).height(),
        ensures
            final(f).wf(),
            final(f).width() == old(f).width(),
            final(f).height() == old(f).height(),
            final(f)@ == diffused(
                old(f)@,
                fb@,
                old(f).width() as int,
                old(f).height() as int,
                mul,
                dt,
                passes as nat,
            ),
    {
        let a = mul.times(dt);
        let g = S::from_index(1).plus(S::from_index(4).times(a));
        relax(f, fb, a, S::from_index(1), g, passes);
    }

    /// Carries `target_prev` along the flow `velocity` for one time step `dt` into
    /// the cells of `target` inside the outer ring: each cell gets the value that
    /// `target_prev` has at the place the flow came from.
    fn advect<T: Quantity<S>>(
        velocity: &DiscreteField<Vector2<S>>,
        target_prev: &DiscreteField<T>,
        target: &mut DiscreteField<T>,
        dt: S,
    )
        requires
            velocity.wf(),
            target_prev.wf(),
            old(target).wf(),
            target_prev.width() == velocity.width(),
            target_prev.height() == velocity.height(),
            old(target).width() == velocity.width(),
            old(target).height() == velocity.height(),
        ensures
            final(target).wf(),
            final(target).width() == velocity.width(),
            final(target).height() == velocity.height(),
            final(target)@ == advected(
                velocity@,
                target_prev@,
                old(target)@,
                dt,
                velocity.width() as int,
                velocity.height() as int,
            ),
    {
        let w = velocity.width();
        let h = velocity.height();
        let ghost t0 = target@;
        let ghost f = |a: int, c: int|
            advected_at(velocity@, target_prev@, t0, dt, w as int, h as int, a, c);
        if w < 3 || h < 3 {
            assert(target@ =~~= advected(velocity@, target_prev@, t0, dt, w as int, h as int));
            return ;
        }
        let min = make2(S::from_index(1), S::from_index(1));
        let max = make2(S::from_index(w - 2), S::from_index(h - 2));
        let mut i: usize = 1;
        while i + 1 < w
            invariant
                1 <= i,
                i == 1 || i < w,
                3 <= w,
                3 <= h,
                velocity.wf(),
                target_prev.wf(),
                target.wf(),
                velocity.width() == w,
                velocity.height() == h,
                target_prev.width() == w,
                target_prev.height() == h,
                target.width() == w,
                target.height() == h,
                min == vec2(one::<S>(), one::<S>()),
                max == vec2(S::from_index((w - 2) as usize), S::from_index((h - 2) as usize)),
                f == (|a: int, c: int|
                    advected_at(velocity@, target_prev@, t0, dt, w as int, h as int, a, c)),
                replaced_until(target@, t0, w as int, h as int, f, i as int, 1),
            decreases w - i,
        {
            let mut j: usize = 1;
            while j + 1 < h
                invariant
                    1 <= i,
                    i + 1 < w,
                    1 <= j,
                    j == 1 || j < h,
                    3 <= w,
                    3 <= h,
                    velocity.wf(),
                    target_prev.wf(),
                    target.wf(),
                    velocity.width() == w,
                    velocity.height() == h,
                    target_prev.width() == w,
                    target_prev.height() == h,
                    target.width() == w,
                    target.height() == h,
                    min == vec2(one::<S>(), one::<S>()),
                    max == vec2(S::from_index((w - 2) as usize), S::from_index((h - 2) as usize)),
                    f == (|a: int, c: int|
                        advected_at(velocity@, target_prev@, t0, dt, w as int, h as int, a, c)),
                    replaced_until(target@, t0, w as int, h as int, f, i as int, j as int),
                decreases h - j,
            {
                let position = make2(S::from_index(i), S::from_index(j));
                let flow = velocity.get(i, j);
                let previous = position.minus(flow.times(dt));
                let bounded = previous.clamp(min, max);
                if let Some(advected) = checked_bilerp(target_prev, bounded) {
                    target.put(i, j, advected);
                }
                j += 1;
            }
            i += 1;
        }
        assert(target@ =~~= advected(velocity@, target_prev@, t0, dt, w as int, h as int));
    }

    /// Corrects the velocity towards a flow without divergence: solves for the
    /// pressure, then takes its gradient from the velocity.
    fn project(&mut self)
        requires
            old(self).wf(),
        ensures
            final(self).wf(),
            final(self)@ == old(self)@.projected(),
    {
        self.solve_pressure();
        self.subtract_pressure_gradient();
    }

    /// Writes the divergence of the velocity to the compression and solves for
    /// the pressure that answers it.
    fn solve_pressure(&mut self)
        requires
            old(self).wf(),
        ensures
            final(self).wf(),
            final(self)@ == old(self)@.with_pressure(),
    {
        measure_divergence(&self.velocity, &mut self.compression, &mut self.pressure);
        let unit = S::from_index(1);
        relax(
            &mut self.pressure,
            &self.compression,
            unit,
            S::from_index(0).minus(unit),
            S::from_index(4),
            self.pressure_passes,
        );
    }

    /// Takes the gradient of the pressure from the velocity inside the outer
    /// ring.
    fn subtract_pressure_gradient(&mut self)
        requires
            old(self).wf(),
        ensures
            final(self).wf(),
            final(self)@ == old(self)@.without_pressure_gradient(),
    {
        remove_gradient(&mut self.velocity, &self.pressure);
    }

    /// Writes the curl of the velocity to the vorticity inside the outer ring.
    fn solve_vorticity(&mut self)
        requires
            old(self).wf(),
        ensures
            final(self).wf(),
            final(self)@ == old(self)@.with_vorticity(),
    {
        measure_curl(&self.velocity, &mut self.vorticity);
    }
}

} // verus!
