//! Where the units of a launch stand: their positions among all units, the positions of
//! their cubes and those within their cubes, and kernels that write them down.
use crate::ir::CubeDim;
use vstd::arithmetic::div_mod::{
    lemma_breakdown,
    lemma_div_denominator,
    lemma_fundamental_div_mod,
    lemma_mod_mod,
    lemma_multiply_divide_lt,
};
use vstd::prelude::*;

verus! {

/// The cubes of a launch and the units of each cube.
#[derive(Clone, Copy, Debug, PartialEq, Eq, Structural)]
pub struct Topology {
    pub cube_count: CubeDim,
    pub cube_dim: CubeDim,
}

/// A place in a box.
#[derive(Clone, Copy, Debug, PartialEq, Eq, Structural)]
pub struct Position {
    pub x: u32,
    pub y: u32,
    pub z: u32,
}

pub open spec fn along_x(place: int, extent: CubeDim) -> int {
    place % extent.x as int
}

pub open spec fn along_y(place: int, extent: CubeDim) -> int {
    (place / extent.x as int) % extent.y as int
}

pub open spec fn along_z(place: int, extent: CubeDim) -> int {
    place / (extent.x * extent.y)
}

impl Position {
    /// Whether this is the place of a number in a box that is filled along x first.
    pub open spec fn is_place(self, place: int, extent: CubeDim) -> bool {
        &&& self.x == along_x(place, extent)
        &&& self.y == along_y(place, extent)
        &&& self.z == along_z(place, extent)
    }
}

proof fn lemma_sides_are_positive(a: int, b: int, c: int)
    requires
        0 <= a,
        0 <= b,
        0 <= c,
        a * b * c > 0,
    ensures
        a > 0,
        b > 0,
        c > 0,
        a * b > 0,
{
    assert(a > 0 && b > 0 && c > 0 && a * b > 0) by (nonlinear_arith)
        requires
            0 <= a,
            0 <= b,
            0 <= c,
            a * b * c > 0,
    ;
}

/// The place of a number in a box.
fn place_in(place: u32, extent: CubeDim) -> (position: Position)
    requires
        extent.x * extent.y <= u32::MAX,
        place < extent.units(),
    ensures
        position.is_place(place as int, extent),
{
    proof {
        lemma_sides_are_positive(extent.x as int, extent.y as int, extent.z as int);
    }
    Position {
        x: place % extent.x,
        y: (place / extent.x) % extent.y,
        z: place / (extent.x * extent.y),
    }
}

/// A number is found again from its place in a box, which lies within the box. So no
/// two numbers have the same place.
pub proof fn law_places_are_unique(place: int, extent: CubeDim)
    requires
        0 <= place < extent.units(),
    ensures
        0 <= along_x(place, extent) < extent.x,
        0 <= along_y(place, extent) < extent.y,
        0 <= along_z(place, extent) < extent.z,
        place == (along_z(place, extent) * extent.y + along_y(place, extent)) * extent.x + along_x(
            place,
            extent,
        ),
{
    let a = extent.x as int;
    let b = extent.y as int;
    let c = extent.z as int;
    lemma_sides_are_positive(a, b, c);
    lemma_fundamental_div_mod(place, a);
    lemma_fundamental_div_mod(place / a, b);
    lemma_div_denominator(place, a, b);
    lemma_multiply_divide_lt(place, a * b, c);
    assert(0 <= place / a) by (nonlinear_arith)
        requires
            0 <= place,
            a > 0,
    ;
    assert(0 <= place / (a * b)) by (nonlinear_arith)
        requires
            0 <= place,
            a * b > 0,
    ;
    let q = place / a;
    assert(a * q == q * a) by (nonlinear_arith);
    assert(b * (q / b) == (q / b) * b) by (nonlinear_arith);
}

impl Topology {
    /// The number of units of all cubes.
    pub open spec fn units(self) -> int {
        self.cube_count.units() * self.cube_dim.units()
    }

    /// Whether all units can be counted.
    pub open spec fn wf(self) -> bool {
        &&& self.cube_count.x * self.cube_count.y <= u32::MAX
        &&& self.cube_count.units() <= u32::MAX
        &&& self.cube_dim.x * self.cube_dim.y <= u32::MAX
        &&& self.cube_dim.units() <= u32::MAX
        &&& self.units() <= u32::MAX
    }

    /// The number of the cube of a unit.
    pub open spec fn cube_of(self, unit: int) -> int {
        unit / self.cube_dim.units()
    }

    /// The number of a unit within its cube.
    pub open spec fn unit_in_cube(self, unit: int) -> int {
        unit % self.cube_dim.units()
    }

    proof fn lemma_units_are_positive(self, unit: int)
        requires
            0 <= unit < self.units(),
        ensures
            self.cube_dim.units() > 0,
            0 <= self.cube_of(unit) < self.cube_count.units(),
            0 <= self.unit_in_cube(unit) < self.cube_dim.units(),
    {
        let cubes = self.cube_count.units();
        let dim = self.cube_dim.units();
        assert(0 <= cubes) by {
            assert(0 <= self.cube_count.x * self.cube_count.y) by (nonlinear_arith);
            assert(0 <= self.cube_count.x * self.cube_count.y * self.cube_count.z)
                by (nonlinear_arith)
                requires
                    0 <= self.cube_count.x * self.cube_count.y,
            ;
        }
        assert(dim > 0) by (nonlinear_arith)
            requires
                0 <= cubes,
                cubes * dim > 0,
        ;
        assert(cubes * dim == dim * cubes) by (nonlinear_arith);
        lemma_multiply_divide_lt(unit, dim, cubes);
        assert(0 <= unit / dim) by (nonlinear_arith)
            requires
                0 <= unit,
                dim > 0,
        ;
        lemma_fundamental_div_mod(unit, dim);
    }

    /// Count the units.
    pub fn num_units(&self) -> (units: u32)
        requires
            self.wf(),
        ensures
            units == self.units(),
    {
        let cubes: u32 = self.cube_count.num_elems();
        let dim: u32 = self.cube_dim.num_elems();
        assert(0 <= cubes * dim) by (nonlinear_arith);
        cubes * dim
    }

    /// The place of the cube of a unit.
    pub fn cube_pos(&self, unit: u32) -> (position: Position)
        requires
            self.wf(),
            unit < self.units(),
        ensures
            position.is_place(self.cube_of(unit as int), self.cube_count),
    {
        proof {
            self.lemma_units_are_positive(unit as int);
        }
        place_in(unit / self.cube_dim.num_elems(), self.cube_count)
    }

    /// The place of a unit in its cube.
    pub fn unit_pos(&self, unit: u32) -> (position: Position)
        requires
            self.wf(),
            unit < self.units(),
        ensures
            position.is_place(self.unit_in_cube(unit as int), self.cube_dim),
    {
        proof {
            self.lemma_units_are_positive(unit as int);
        }
        place_in(unit % self.cube_dim.num_elems(), self.cube_dim)
    }
}

/// A unit is found again from its cube and its number within the cube.
pub proof fn law_units_are_unique(topology: Topology, unit: int)
    requires
        0 <= unit < topology.units(),
    ensures
        0 <= topology.cube_of(unit) < topology.cube_count.units(),
        0 <= topology.unit_in_cube(unit) < topology.cube_dim.units(),
        unit == topology.cube_of(unit) * topology.cube_dim.units() + topology.unit_in_cube(unit),
{
    topology.lemma_units_are_positive(unit);
    let dim = topology.cube_dim.units();
    lemma_fundamental_div_mod(unit, dim);
    assert(dim * (unit / dim) == (unit / dim) * dim) by (nonlinear_arith);
}

/// The place of a unit along the first two sides of its cube does not depend on its
/// cube: it is the place of its number among all units.
pub proof fn law_unit_places_are_linear(topology: Topology, unit: int)
    requires
        0 <= unit < topology.units(),
    ensures
        along_x(topology.unit_in_cube(unit), topology.cube_dim) == along_x(
            unit,
            topology.cube_dim,
        ),
        along_y(topology.unit_in_cube(unit), topology.cube_dim) == along_y(
            unit,
            topology.cube_dim,
        ),
{
    topology.lemma_units_are_positive(unit);
    let a = topology.cube_dim.x as int;
    let b = topology.cube_dim.y as int;
    let c = topology.cube_dim.z as int;
    lemma_sides_are_positive(a, b, c);
    assert(a * b * c == a * (b * c)) by (nonlinear_arith);
    assert(b * c > 0) by (nonlinear_arith)
        requires
            b > 0,
            c > 0,
    ;
    let inner = unit % (a * (b * c));
    lemma_breakdown(unit, a, b * c);
    let row = (unit / a) % (b * c);
    assert(inner == a * row + unit % a);
    lemma_mod_mod(unit, a, b * c);
    lemma_fundamental_div_mod(inner, a);
    assert(a * (inner / a) == a * row);
    assert(inner / a == row) by (nonlinear_arith)
        requires
            a > 0,
            a * (inner / a) == a * row,
    ;
    lemma_mod_mod(unit / a, b, c);
}

/// What a kernel leaves in an array: what its units write, and what was there where no
/// unit writes.
pub open spec fn written(before: Seq<u32>, units: int, value: spec_fn(int) -> int) -> Seq<u32> {
    Seq::new(
        before.len(),
        |i: int|
            if i < units {
                value(i) as u32
            } else {
                before[i]
            },
    )
}

/// Every unit writes its position among all units, as far as the array goes.
pub fn kernel_absolute_pos(topology: &Topology, output1: &mut Vec<u32>)
    requires
        topology.wf(),
    ensures
        final(output1)@ == written(old(output1)@, topology.units(), |i: int| i),
{
    let units: u32 = topology.num_units();
    let mut unit: u32 = 0;
    let ghost before = output1@;
    assert(output1@ =~= written(before, 0, |i: int| i));
    while unit < units
        invariant
            units == topology.units(),
            unit <= units,
            before.len() == output1.len(),
            output1@ == written(before, unit as int, |i: int| i),
        decreases units - unit,
    {
        if (unit as usize) < output1.len() {
            output1.set(unit as usize, unit);
        }
        assert(output1@ =~= written(before, unit + 1, |i: int| i));
        unit += 1;
    }
}

/// Every unit writes its position among all units, and the places of its cube and of
/// itself along the first side, as far as the first array goes.
pub fn kernel_axis_components(
    topology: &Topology,
    absolute_pos_x: &mut Vec<u32>,
    cube_pos_x: &mut Vec<u32>,
    unit_pos_x: &mut Vec<u32>,
)
    requires
        topology.wf(),
        old(cube_pos_x).len() == old(absolute_pos_x).len(),
        old(unit_pos_x).len() == old(absolute_pos_x).len(),
    ensures
        final(absolute_pos_x)@ == written(old(absolute_pos_x)@, topology.units(), |i: int| i),
        final(cube_pos_x)@ == written(
            old(cube_pos_x)@,
            topology.units(),
            |i: int| along_x(topology.cube_of(i), topology.cube_count),
        ),
        final(unit_pos_x)@ == written(
            old(unit_pos_x)@,
            topology.units(),
            |i: int| along_x(topology.unit_in_cube(i), topology.cube_dim),
        ),
{
    let units: u32 = topology.num_units();
    let mut unit: u32 = 0;
    let ghost first = absolute_pos_x@;
    let ghost second = cube_pos_x@;
    let ghost third = unit_pos_x@;
    let ghost cube = |i: int| along_x(topology.cube_of(i), topology.cube_count);
    let ghost within = |i: int| along_x(topology.unit_in_cube(i), topology.cube_dim);
    assert(absolute_pos_x@ =~= written(first, 0, |i: int| i));
    assert(cube_pos_x@ =~= written(second, 0, cube));
    assert(unit_pos_x@ =~= written(third, 0, within));
    while unit < units
        invariant
            topology.wf(),
            units == topology.units(),
            unit <= units,
            cube == (|i: int| along_x(topology.cube_of(i), topology.cube_count)),
            within == (|i: int| along_x(topology.unit_in_cube(i), topology.cube_dim)),
            first.len() == second.len() == third.len(),
            absolute_pos_x@ == written(first, unit as int, |i: int| i),
            cube_pos_x@ == written(second, unit as int, cube),
            unit_pos_x@ == written(third, unit as int, within),
        decreases units - unit,
    {
        if (unit as usize) < absolute_pos_x.len() {
            absolute_pos_x.set(unit as usize, unit);
            let cube_pos = topology.cube_pos(unit);
            cube_pos_x.set(unit as usize, cube_pos.x);
            let unit_pos = topology.unit_pos(unit);
            unit_pos_x.set(unit as usize, unit_pos.x);
        }
        assert(absolute_pos_x@ =~= written(first, unit + 1, |i: int| i));
        assert(cube_pos_x@ =~= written(second, unit + 1, cube));
        assert(unit_pos_x@ =~= written(third, unit + 1, within));
        unit += 1;
    }
}

/// Every unit writes its position among all units, and its places along the first two
/// sides of its cube, as far as the first array goes.
pub fn kernel_axis_components_2d(
    topology: &Topology,
    absolute_pos_x: &mut Vec<u32>,
    unit_pos_x: &mut Vec<u32>,
    unit_pos_y: &mut Vec<u32>,
)
    requires
        topology.wf(),
        old(unit_pos_x).len() == old(absolute_pos_x).len(),
        old(unit_pos_y).len() == old(absolute_pos_x).len(),
    ensures
        final(absolute_pos_x)@ == written(old(absolute_pos_x)@, topology.units(), |i: int| i),
        final(unit_pos_x)@ == written(
            old(unit_pos_x)@,
            topology.units(),
            |i: int| along_x(topology.unit_in_cube(i), topology.cube_dim),
        ),
        final(unit_pos_y)@ == written(
            old(unit_pos_y)@,
            topology.units(),
            |i: int| along_y(topology.unit_in_cube(i), topology.cube_dim),
        ),
{
    let units: u32 = topology.num_units();
    let mut unit: u32 = 0;
    let ghost first = absolute_pos_x@;
    let ghost second = unit_pos_x@;
    let ghost third = unit_pos_y@;
    let ghost column = |i: int| along_x(topology.unit_in_cube(i), topology.cube_dim);
    let ghost row = |i: int| along_y(topology.unit_in_cube(i), topology.cube_dim);
    assert(absolute_pos_x@ =~= written(first, 0, |i: int| i));
    assert(unit_pos_x@ =~= written(second, 0, column));
    assert(unit_pos_y@ =~= written(third, 0, row));
    while unit < units
        invariant
            topology.wf(),
            units == topology.units(),
            unit <= units,
            column == (|i: int| along_x(topology.unit_in_cube(i), topology.cube_dim)),
            row == (|i: int| along_y(topology.unit_in_cube(i), topology.cube_dim)),
            first.len() == second.len() == third.len(),
            absolute_pos_x@ == written(first, unit as int, |i: int| i),
            unit_pos_x@ == written(second, unit as int, column),
            unit_pos_y@ == written(third, unit as int, row),
        decreases units - unit,
    {
        if (unit as usize) < absolute_pos_x.len() {
            absolute_pos_x.set(unit as usize, unit);
            let unit_pos = topology.unit_pos(unit);
            unit_pos_x.set(unit as usize, unit_pos.x);
            unit_pos_y.set(unit as usize, unit_pos.y);
        }
        assert(absolute_pos_x@ =~= written(first, unit + 1, |i: int| i));
        assert(unit_pos_x@ =~= written(second, unit + 1, column));
        assert(unit_pos_y@ =~= written(third, unit + 1, row));
        unit += 1;
    }
}

/// Every unit writes the place of its cube, as far as the first array goes.
pub fn kernel_cube_components_3d(
    topology: &Topology,
    cube_pos_x_out: &mut Vec<u32>,
    cube_pos_y_out: &mut Vec<u32>,
    cube_pos_z_out: &mut Vec<u32>,
)
    requires
        topology.wf(),
        old(cube_pos_y_out).len() == old(cube_pos_x_out).len(),
        old(cube_pos_z_out).len() == old(cube_pos_x_out).len(),
    ensures
        final(cube_pos_x_out)@ == written(
            old(cube_pos_x_out)@,
            topology.units(),
            |i: int| along_x(topology.cube_of(i), topology.cube_count),
        ),
        final(cube_pos_y_out)@ == written(
            old(cube_pos_y_out)@,
            topology.units(),
            |i: int| along_y(topology.cube_of(i), topology.cube_count),
        ),
        final(cube_pos_z_out)@ == written(
            old(cube_pos_z_out)@,
            topology.units(),
            |i: int| along_z(topology.cube_of(i), topology.cube_count),
        ),
        forall|i: int|
            0 <= i < old(cube_pos_x_out).len() && i < topology.units() ==> (
            final(cube_pos_z_out)@[i] * topology.cube_count.y + final(cube_pos_y_out)@[i])
                * topology.cube_count.x + #[trigger] final(cube_pos_x_out)@[i] == i
                / topology.cube_dim.units(),
{
    let units: u32 = topology.num_units();
    let mut unit: u32 = 0;
    let ghost first = cube_pos_x_out@;
    let ghost second = cube_pos_y_out@;
    let ghost third = cube_pos_z_out@;
    let ghost xs = |i: int| along_x(topology.cube_of(i), topology.cube_count);
    let ghost ys = |i: int| along_y(topology.cube_of(i), topology.cube_count);
    let ghost zs = |i: int| along_z(topology.cube_of(i), topology.cube_count);
    assert(cube_pos_x_out@ =~= written(first, 0, xs));
    assert(cube_pos_y_out@ =~= written(second, 0, ys));
    assert(cube_pos_z_out@ =~= written(third, 0, zs));
    while unit < units
        invariant
            topology.wf(),
            units == topology.units(),
            unit <= units,
            xs == (|i: int| along_x(topology.cube_of(i), topology.cube_count)),
            ys == (|i: int| along_y(topology.cube_of(i), topology.cube_count)),
            zs == (|i: int| along_z(topology.cube_of(i), topology.cube_count)),
            first.len() == second.len() == third.len(),
            cube_pos_x_out@ == written(first, unit as int, xs),
            cube_pos_y_out@ == written(second, unit as int, ys),
            cube_pos_z_out@ == written(third, unit as int, zs),
        decreases units - unit,
    {
        if (unit as usize) < cube_pos_x_out.len() {
            let cube_pos = topology.cube_pos(unit);
            cube_pos_x_out.set(unit as usize, cube_pos.x);
            cube_pos_y_out.set(unit as usize, cube_pos.y);
            cube_pos_z_out.set(unit as usize, cube_pos.z);
        }
        assert(cube_pos_x_out@ =~= written(first, unit + 1, xs));
        assert(cube_pos_y_out@ =~= written(second, unit + 1, ys));
        assert(cube_pos_z_out@ =~= written(third, unit + 1, zs));
        unit += 1;
    }
    proof {
        assert forall|i: int| 0 <= i < first.len() && i < topology.units() implies (
        cube_pos_z_out@[i] * topology.cube_count.y + cube_pos_y_out@[i]) * topology.cube_count.x
            + #[trigger] cube_pos_x_out@[i] == i / topology.cube_dim.units() by {
            law_units_are_unique(*topology, i);
            law_places_are_unique(topology.cube_of(i), topology.cube_count);
            assert(cube_pos_x_out@[i] == xs(i));
            assert(cube_pos_y_out@[i] == ys(i));
            assert(cube_pos_z_out@[i] == zs(i));
        }
    }
}

} // verus!
