//! What the scalar writer computes for each of its units: where the unit stands, and which
//! of the lanes of its plane are there.
use crate::dataflow;
use crate::ir::{ComputeKernel, CubeIndexFlags};
use crate::meaning;
use crate::meaning::{Expr, Operator};
use crate::scalar_writer;
use crate::text;
use crate::topology;
use crate::topology::Topology;
use crate::warp;
use crate::writer;
use vstd::prelude::*;

verus! {

/// Whether the names of a source have the values that they have for a unit of a launch:
/// what is declared before the built-ins, and the built-ins themselves.
pub open spec fn are_names_of(names: Map<Seq<char>, int>, launch: Topology, unit: int) -> bool {
    let cube = launch.cube_of(unit);
    let within = launch.unit_in_cube(unit);
    &&& names["unit_idx"@] == unit
    &&& names["cube_dim_x"@] == launch.cube_dim.x
    &&& names["cube_dim_y"@] == launch.cube_dim.y
    &&& names["cube_dim_z"@] == launch.cube_dim.z
    &&& names["cube_count_x"@] == launch.cube_count.x
    &&& names["cube_count_y"@] == launch.cube_count.y
    &&& names["cube_count_z"@] == launch.cube_count.z
    &&& names["cube_units"@] == launch.cube_dim.units()
    &&& names["flat_cube_pos"@] == cube
    &&& names["unit_pos"@] == within
    &&& names["cube_pos_x"@] == topology::along_x(cube, launch.cube_count)
    &&& names["unit_pos_plane"@] == within % 32
}

/// Whether the names that tell of a tile have their values for the unit at place `at` of a
/// tile that holds `held` units. The lanes of the unit's plane begin in the tile.
pub open spec fn are_names_in_tile(
    names: Map<Seq<char>, int>,
    launch: Topology,
    unit: int,
    at: int,
    held: int,
) -> bool {
    let lane = launch.unit_in_cube(unit) % 32;
    &&& 0 <= lane <= at < held <= u32::MAX
    &&& names["i"@] == at
    &&& names["tile_unit_count"@] == held
    &&& names["tt_plane_base"@] == at - lane
    &&& names["tt_plane_remaining"@] == held - (at - lane)
}

proof fn lemma_places_are_counted(launch: Topology, unit: int)
    requires
        launch.wf(),
        0 <= unit < launch.units(),
    ensures
        0 < launch.cube_dim.units() <= u32::MAX,
        0 < launch.cube_dim.x,
        0 < launch.cube_dim.y,
        0 < launch.cube_count.x,
        0 < launch.cube_count.y,
        0 < launch.cube_dim.x * launch.cube_dim.y <= u32::MAX,
        0 < launch.cube_count.x * launch.cube_count.y <= u32::MAX,
        0 <= launch.cube_of(unit) < launch.cube_count.units() <= u32::MAX,
        0 <= launch.unit_in_cube(unit) < launch.cube_dim.units(),
        unit <= u32::MAX,
{
    topology::law_units_are_unique(launch, unit);
    topology::law_places_are_unique(launch.unit_in_cube(unit), launch.cube_dim);
    topology::law_places_are_unique(launch.cube_of(unit), launch.cube_count);
    assert(0 < launch.cube_dim.x * launch.cube_dim.y) by (nonlinear_arith)
        requires
            0 < launch.cube_dim.x,
            0 < launch.cube_dim.y,
    ;
    assert(0 < launch.cube_count.x * launch.cube_count.y) by (nonlinear_arith)
        requires
            0 < launch.cube_count.x,
            0 < launch.cube_count.y,
    ;
}

proof fn lemma_quotient_is_no_larger(a: int, b: int)
    requires
        0 <= a,
        0 < b,
    ensures
        0 <= a / b <= a,
        0 <= a % b < b,
{
    assert(0 <= a / b <= a && 0 <= a % b < b) by (nonlinear_arith)
        requires
            0 <= a,
            0 < b,
    ;
}

#[verifier::spinoff_prover]
#[verifier::rlimit(60)]
proof fn lemma_cube_units(names: Map<Seq<char>, int>, launch: Topology, unit: int)
    requires
        launch.wf(),
        0 <= unit < launch.units(),
        are_names_of(names, launch, unit),
    ensures
        meaning::declares(scalar_writer::FLAT_POSITIONS@, "cube_units"@, names, launch.cube_dim.units()),
{
    reveal_strlit("            uint32_t cube_units = cube_dim_x * cube_dim_y * cube_dim_z;\n            uint32_t flat_cube_pos = cube_units == 0 ? 0 : (unit_idx / cube_units);\n            uint32_t unit_pos = cube_units == 0 ? 0 : (unit_idx % cube_units);\n");
    reveal_strlit(" * ");
    reveal_strlit(" = ");
    reveal_strlit(";\n");
    reveal_strlit("cube_dim_x");
    reveal_strlit("cube_dim_y");
    reveal_strlit("cube_dim_z");
    reveal_strlit("cube_units");
    reveal_strlit("uint32_t ");
    lemma_places_are_counted(launch, unit);
    reveal_with_fuel(meaning::shown, 4);
    reveal_with_fuel(meaning::value, 4);
    reveal_with_fuel(meaning::is_exact, 4);
    reveal_with_fuel(meaning::is_read_back, 4);
    let e = meaning::binary(Operator::Times, meaning::binary(Operator::Times, meaning::named("cube_dim_x"@), meaning::named("cube_dim_y"@)), meaning::named("cube_dim_z"@));
    let line = meaning::declaration("cube_units"@, e);
    assert(scalar_writer::FLAT_POSITIONS@.subrange(12, 72) =~= line);
    assert(text::stands_at(scalar_writer::FLAT_POSITIONS@, line, 12));
    assert(meaning::comes_to(e, names, launch.cube_dim.units()));
    reveal(meaning::declares);
}

#[verifier::spinoff_prover]
#[verifier::rlimit(60)]
proof fn lemma_flat_cube_pos(names: Map<Seq<char>, int>, launch: Topology, unit: int)
    requires
        launch.wf(),
        0 <= unit < launch.units(),
        are_names_of(names, launch, unit),
    ensures
        meaning::declares(scalar_writer::FLAT_POSITIONS@, "flat_cube_pos"@, names, launch.cube_of(unit)),
{
    reveal_strlit("            uint32_t cube_units = cube_dim_x * cube_dim_y * cube_dim_z;\n            uint32_t flat_cube_pos = cube_units == 0 ? 0 : (unit_idx / cube_units);\n            uint32_t unit_pos = cube_units == 0 ? 0 : (unit_idx % cube_units);\n");
    reveal_strlit(" / ");
    reveal_strlit(" : ");
    reveal_strlit(" = ");
    reveal_strlit(" == ");
    reveal_strlit(" ? ");
    reveal_strlit("(");
    reveal_strlit(")");
    reveal_strlit(";\n");
    reveal_strlit("cube_units");
    reveal_strlit("flat_cube_pos");
    reveal_strlit("uint32_t ");
    reveal_strlit("unit_idx");
    lemma_places_are_counted(launch, unit);
    lemma_quotient_is_no_larger(unit, launch.cube_dim.units());
    reveal_with_fuel(meaning::shown, 5);
    reveal_with_fuel(meaning::value, 5);
    reveal_with_fuel(meaning::is_exact, 5);
    reveal_with_fuel(meaning::is_read_back, 5);
    let e = meaning::choice(meaning::binary(Operator::Equal, meaning::named("cube_units"@), meaning::number(0)), meaning::number(0), meaning::group(meaning::binary(Operator::Over, meaning::named("unit_idx"@), meaning::named("cube_units"@))));
    let line = meaning::declaration("flat_cube_pos"@, e);
    assert(scalar_writer::FLAT_POSITIONS@.subrange(84, 156) =~= line);
    assert(text::stands_at(scalar_writer::FLAT_POSITIONS@, line, 84));
    assert(meaning::comes_to(e, names, launch.cube_of(unit)));
    reveal(meaning::declares);
}

#[verifier::spinoff_prover]
#[verifier::rlimit(60)]
proof fn lemma_unit_pos(names: Map<Seq<char>, int>, launch: Topology, unit: int)
    requires
        launch.wf(),
        0 <= unit < launch.units(),
        are_names_of(names, launch, unit),
    ensures
        meaning::declares(scalar_writer::FLAT_POSITIONS@, "unit_pos"@, names, launch.unit_in_cube(unit)),
{
    reveal_strlit("            uint32_t cube_units = cube_dim_x * cube_dim_y * cube_dim_z;\n            uint32_t flat_cube_pos = cube_units == 0 ? 0 : (unit_idx / cube_units);\n            uint32_t unit_pos = cube_units == 0 ? 0 : (unit_idx % cube_units);\n");
    reveal_strlit(" % ");
    reveal_strlit(" : ");
    reveal_strlit(" = ");
    reveal_strlit(" == ");
    reveal_strlit(" ? ");
    reveal_strlit("(");
    reveal_strlit(")");
    reveal_strlit(";\n");
    reveal_strlit("cube_units");
    reveal_strlit("uint32_t ");
    reveal_strlit("unit_idx");
    reveal_strlit("unit_pos");
    lemma_places_are_counted(launch, unit);
    lemma_quotient_is_no_larger(unit, launch.cube_dim.units());
    reveal_with_fuel(meaning::shown, 5);
    reveal_with_fuel(meaning::value, 5);
    reveal_with_fuel(meaning::is_exact, 5);
    reveal_with_fuel(meaning::is_read_back, 5);
    let e = meaning::choice(meaning::binary(Operator::Equal, meaning::named("cube_units"@), meaning::number(0)), meaning::number(0), meaning::group(meaning::binary(Operator::Modulo, meaning::named("unit_idx"@), meaning::named("cube_units"@))));
    let line = meaning::declaration("unit_pos"@, e);
    assert(scalar_writer::FLAT_POSITIONS@.subrange(168, 235) =~= line);
    assert(text::stands_at(scalar_writer::FLAT_POSITIONS@, line, 168));
    assert(meaning::comes_to(e, names, launch.unit_in_cube(unit)));
    reveal(meaning::declares);
}

#[verifier::spinoff_prover]
#[verifier::rlimit(60)]
proof fn lemma_cube_pos_x(names: Map<Seq<char>, int>, launch: Topology, unit: int)
    requires
        launch.wf(),
        0 <= unit < launch.units(),
        are_names_of(names, launch, unit),
    ensures
        meaning::declares(scalar_writer::POSITION_COMPONENTS@, "cube_pos_x"@, names, topology::along_x(launch.cube_of(unit), launch.cube_count)),
{
    reveal_strlit("            uint32_t cube_pos_x = cube_count_x == 0 ? 0 : (flat_cube_pos % cube_count_x);\n            uint32_t cube_pos_y = (cube_count_x == 0 || cube_count_y == 0) ? 0 : ((flat_cube_pos / cube_count_x) % cube_count_y);\n            uint32_t cube_pos_z = (cube_count_x == 0 || cube_count_y == 0) ? 0 : (flat_cube_pos / (cube_count_x * cube_count_y));\n            uint32_t unit_pos_x = cube_dim_x == 0 ? 0 : (unit_pos % cube_dim_x);\n            uint32_t unit_pos_y = (cube_dim_x == 0 || cube_dim_y == 0) ? 0 : ((unit_pos / cube_dim_x) % cube_dim_y);\n            uint32_t unit_pos_z = (cube_dim_x == 0 || cube_dim_y == 0) ? 0 : (unit_pos / (cube_dim_x * cube_dim_y));\n");
    reveal_strlit(" % ");
    reveal_strlit(" : ");
    reveal_strlit(" = ");
    reveal_strlit(" == ");
    reveal_strlit(" ? ");
    reveal_strlit("(");
    reveal_strlit(")");
    reveal_strlit(";\n");
    reveal_strlit("cube_count_x");
    reveal_strlit("cube_pos_x");
    reveal_strlit("flat_cube_pos");
    reveal_strlit("uint32_t ");
    lemma_places_are_counted(launch, unit);
    topology::law_places_are_unique(launch.cube_of(unit), launch.cube_count);
    lemma_quotient_is_no_larger(launch.cube_of(unit), launch.cube_count.x as int);
    reveal_with_fuel(meaning::shown, 5);
    reveal_with_fuel(meaning::value, 5);
    reveal_with_fuel(meaning::is_exact, 5);
    reveal_with_fuel(meaning::is_read_back, 5);
    let e = meaning::choice(meaning::binary(Operator::Equal, meaning::named("cube_count_x"@), meaning::number(0)), meaning::number(0), meaning::group(meaning::binary(Operator::Modulo, meaning::named("flat_cube_pos"@), meaning::named("cube_count_x"@))));
    let line = meaning::declaration("cube_pos_x"@, e);
    assert(scalar_writer::POSITION_COMPONENTS@.subrange(12, 90) =~= line);
    assert(text::stands_at(scalar_writer::POSITION_COMPONENTS@, line, 12));
    assert(meaning::comes_to(e, names, topology::along_x(launch.cube_of(unit), launch.cube_count)));
    reveal(meaning::declares);
}

#[verifier::spinoff_prover]
#[verifier::rlimit(60)]
proof fn lemma_cube_pos_y(names: Map<Seq<char>, int>, launch: Topology, unit: int)
    requires
        launch.wf(),
        0 <= unit < launch.units(),
        are_names_of(names, launch, unit),
    ensures
        meaning::declares(scalar_writer::POSITION_COMPONENTS@, "cube_pos_y"@, names, topology::along_y(launch.cube_of(unit), launch.cube_count)),
{
    reveal_strlit("            uint32_t cube_pos_x = cube_count_x == 0 ? 0 : (flat_cube_pos % cube_count_x);\n            uint32_t cube_pos_y = (cube_count_x == 0 || cube_count_y == 0) ? 0 : ((flat_cube_pos / cube_count_x) % cube_count_y);\n            uint32_t cube_pos_z = (cube_count_x == 0 || cube_count_y == 0) ? 0 : (flat_cube_pos / (cube_count_x * cube_count_y));\n            uint32_t unit_pos_x = cube_dim_x == 0 ? 0 : (unit_pos % cube_dim_x);\n            uint32_t unit_pos_y = (cube_dim_x == 0 || cube_dim_y == 0) ? 0 : ((unit_pos / cube_dim_x) % cube_dim_y);\n            uint32_t unit_pos_z = (cube_dim_x == 0 || cube_dim_y == 0) ? 0 : (unit_pos / (cube_dim_x * cube_dim_y));\n");
    reveal_strlit(" % ");
    reveal_strlit(" / ");
    reveal_strlit(" : ");
    reveal_strlit(" = ");
    reveal_strlit(" == ");
    reveal_strlit(" ? ");
    reveal_strlit(" || ");
    reveal_strlit("(");
    reveal_strlit(")");
    reveal_strlit(";\n");
    reveal_strlit("cube_count_x");
    reveal_strlit("cube_count_y");
    reveal_strlit("cube_pos_y");
    reveal_strlit("flat_cube_pos");
    reveal_strlit("uint32_t ");
    lemma_places_are_counted(launch, unit);
    topology::law_places_are_unique(launch.cube_of(unit), launch.cube_count);
    lemma_quotient_is_no_larger(launch.cube_of(unit), launch.cube_count.x as int);
    reveal_with_fuel(meaning::shown, 7);
    reveal_with_fuel(meaning::value, 7);
    reveal_with_fuel(meaning::is_exact, 7);
    reveal_with_fuel(meaning::is_read_back, 7);
    let e = meaning::choice(meaning::group(meaning::binary(Operator::Or, meaning::binary(Operator::Equal, meaning::named("cube_count_x"@), meaning::number(0)), meaning::binary(Operator::Equal, meaning::named("cube_count_y"@), meaning::number(0)))), meaning::number(0), meaning::group(meaning::binary(Operator::Modulo, meaning::group(meaning::binary(Operator::Over, meaning::named("flat_cube_pos"@), meaning::named("cube_count_x"@))), meaning::named("cube_count_y"@))));
    let line = meaning::declaration("cube_pos_y"@, e);
    assert(scalar_writer::POSITION_COMPONENTS@.subrange(102, 220) =~= line);
    assert(text::stands_at(scalar_writer::POSITION_COMPONENTS@, line, 102));
    assert(meaning::comes_to(e, names, topology::along_y(launch.cube_of(unit), launch.cube_count)));
    reveal(meaning::declares);
}

#[verifier::spinoff_prover]
#[verifier::rlimit(60)]
proof fn lemma_cube_pos_z(names: Map<Seq<char>, int>, launch: Topology, unit: int)
    requires
        launch.wf(),
        0 <= unit < launch.units(),
        are_names_of(names, launch, unit),
    ensures
        meaning::declares(scalar_writer::POSITION_COMPONENTS@, "cube_pos_z"@, names, topology::along_z(launch.cube_of(unit), launch.cube_count)),
{
    reveal_strlit("            uint32_t cube_pos_x = cube_count_x == 0 ? 0 : (flat_cube_pos % cube_count_x);\n            uint32_t cube_pos_y = (cube_count_x == 0 || cube_count_y == 0) ? 0 : ((flat_cube_pos / cube_count_x) % cube_count_y);\n            uint32_t cube_pos_z = (cube_count_x == 0 || cube_count_y == 0) ? 0 : (flat_cube_pos / (cube_count_x * cube_count_y));\n            uint32_t unit_pos_x = cube_dim_x == 0 ? 0 : (unit_pos % cube_dim_x);\n            uint32_t unit_pos_y = (cube_dim_x == 0 || cube_dim_y == 0) ? 0 : ((unit_pos / cube_dim_x) % cube_dim_y);\n            uint32_t unit_pos_z = (cube_dim_x == 0 || cube_dim_y == 0) ? 0 : (unit_pos / (cube_dim_x * cube_dim_y));\n");
    reveal_strlit(" * ");
    reveal_strlit(" / ");
    reveal_strlit(" : ");
    reveal_strlit(" = ");
    reveal_strlit(" == ");
    reveal_strlit(" ? ");
    reveal_strlit(" || ");
    reveal_strlit("(");
    reveal_strlit(")");
    reveal_strlit(";\n");
    reveal_strlit("cube_count_x");
    reveal_strlit("cube_count_y");
    reveal_strlit("cube_pos_z");
    reveal_strlit("flat_cube_pos");
    reveal_strlit("uint32_t ");
    lemma_places_are_counted(launch, unit);
    topology::law_places_are_unique(launch.cube_of(unit), launch.cube_count);
    lemma_quotient_is_no_larger(launch.cube_of(unit), launch.cube_count.x as int);
    reveal_with_fuel(meaning::shown, 7);
    reveal_with_fuel(meaning::value, 7);
    reveal_with_fuel(meaning::is_exact, 7);
    reveal_with_fuel(meaning::is_read_back, 7);
    let e = meaning::choice(meaning::group(meaning::binary(Operator::Or, meaning::binary(Operator::Equal, meaning::named("cube_count_x"@), meaning::number(0)), meaning::binary(Operator::Equal, meaning::named("cube_count_y"@), meaning::number(0)))), meaning::number(0), meaning::group(meaning::binary(Operator::Over, meaning::named("flat_cube_pos"@), meaning::group(meaning::binary(Operator::Times, meaning::named("cube_count_x"@), meaning::named("cube_count_y"@))))));
    let line = meaning::declaration("cube_pos_z"@, e);
    assert(scalar_writer::POSITION_COMPONENTS@.subrange(232, 350) =~= line);
    assert(text::stands_at(scalar_writer::POSITION_COMPONENTS@, line, 232));
    assert(meaning::comes_to(e, names, topology::along_z(launch.cube_of(unit), launch.cube_count)));
    reveal(meaning::declares);
}

#[verifier::spinoff_prover]
#[verifier::rlimit(60)]
proof fn lemma_unit_pos_x(names: Map<Seq<char>, int>, launch: Topology, unit: int)
    requires
        launch.wf(),
        0 <= unit < launch.units(),
        are_names_of(names, launch, unit),
    ensures
        meaning::declares(scalar_writer::POSITION_COMPONENTS@, "unit_pos_x"@, names, topology::along_x(launch.unit_in_cube(unit), launch.cube_dim)),
{
    reveal_strlit("            uint32_t cube_pos_x = cube_count_x == 0 ? 0 : (flat_cube_pos % cube_count_x);\n            uint32_t cube_pos_y = (cube_count_x == 0 || cube_count_y == 0) ? 0 : ((flat_cube_pos / cube_count_x) % cube_count_y);\n            uint32_t cube_pos_z = (cube_count_x == 0 || cube_count_y == 0) ? 0 : (flat_cube_pos / (cube_count_x * cube_count_y));\n            uint32_t unit_pos_x = cube_dim_x == 0 ? 0 : (unit_pos % cube_dim_x);\n            uint32_t unit_pos_y = (cube_dim_x == 0 || cube_dim_y == 0) ? 0 : ((unit_pos / cube_dim_x) % cube_dim_y);\n            uint32_t unit_pos_z = (cube_dim_x == 0 || cube_dim_y == 0) ? 0 : (unit_pos / (cube_dim_x * cube_dim_y));\n");
    reveal_strlit(" % ");
    reveal_strlit(" : ");
    reveal_strlit(" = ");
    reveal_strlit(" == ");
    reveal_strlit(" ? ");
    reveal_strlit("(");
    reveal_strlit(")");
    reveal_strlit(";\n");
    reveal_strlit("cube_dim_x");
    reveal_strlit("uint32_t ");
    reveal_strlit("unit_pos");
    reveal_strlit("unit_pos_x");
    lemma_places_are_counted(launch, unit);
    topology::law_places_are_unique(launch.unit_in_cube(unit), launch.cube_dim);
    lemma_quotient_is_no_larger(launch.unit_in_cube(unit), launch.cube_dim.x as int);
    reveal_with_fuel(meaning::shown, 5);
    reveal_with_fuel(meaning::value, 5);
    reveal_with_fuel(meaning::is_exact, 5);
    reveal_with_fuel(meaning::is_read_back, 5);
    let e = meaning::choice(meaning::binary(Operator::Equal, meaning::named("cube_dim_x"@), meaning::number(0)), meaning::number(0), meaning::group(meaning::binary(Operator::Modulo, meaning::named("unit_pos"@), meaning::named("cube_dim_x"@))));
    let line = meaning::declaration("unit_pos_x"@, e);
    assert(scalar_writer::POSITION_COMPONENTS@.subrange(362, 431) =~= line);
    assert(text::stands_at(scalar_writer::POSITION_COMPONENTS@, line, 362));
    assert(meaning::comes_to(e, names, topology::along_x(launch.unit_in_cube(unit), launch.cube_dim)));
    reveal(meaning::declares);
}

#[verifier::spinoff_prover]
#[verifier::rlimit(60)]
proof fn lemma_unit_pos_y(names: Map<Seq<char>, int>, launch: Topology, unit: int)
    requires
        launch.wf(),
        0 <= unit < launch.units(),
        are_names_of(names, launch, unit),
    ensures
        meaning::declares(scalar_writer::POSITION_COMPONENTS@, "unit_pos_y"@, names, topology::along_y(launch.unit_in_cube(unit), launch.cube_dim)),
{
    reveal_strlit("            uint32_t cube_pos_x = cube_count_x == 0 ? 0 : (flat_cube_pos % cube_count_x);\n            uint32_t cube_pos_y = (cube_count_x == 0 || cube_count_y == 0) ? 0 : ((flat_cube_pos / cube_count_x) % cube_count_y);\n            uint32_t cube_pos_z = (cube_count_x == 0 || cube_count_y == 0) ? 0 : (flat_cube_pos / (cube_count_x * cube_count_y));\n            uint32_t unit_pos_x = cube_dim_x == 0 ? 0 : (unit_pos % cube_dim_x);\n            uint32_t unit_pos_y = (cube_dim_x == 0 || cube_dim_y == 0) ? 0 : ((unit_pos / cube_dim_x) % cube_dim_y);\n            uint32_t unit_pos_z = (cube_dim_x == 0 || cube_dim_y == 0) ? 0 : (unit_pos / (cube_dim_x * cube_dim_y));\n");
    reveal_strlit(" % ");
    reveal_strlit(" / ");
    reveal_strlit(" : ");
    reveal_strlit(" = ");
    reveal_strlit(" == ");
    reveal_strlit(" ? ");
    reveal_strlit(" || ");
    reveal_strlit("(");
    reveal_strlit(")");
    reveal_strlit(";\n");
    reveal_strlit("cube_dim_x");
    reveal_strlit("cube_dim_y");
    reveal_strlit("uint32_t ");
    reveal_strlit("unit_pos");
    reveal_strlit("unit_pos_y");
    lemma_places_are_counted(launch, unit);
    topology::law_places_are_unique(launch.unit_in_cube(unit), launch.cube_dim);
    lemma_quotient_is_no_larger(launch.unit_in_cube(unit), launch.cube_dim.x as int);
    reveal_with_fuel(meaning::shown, 7);
    reveal_with_fuel(meaning::value, 7);
    reveal_with_fuel(meaning::is_exact, 7);
    reveal_with_fuel(meaning::is_read_back, 7);
    let e = meaning::choice(meaning::group(meaning::binary(Operator::Or, meaning::binary(Operator::Equal, meaning::named("cube_dim_x"@), meaning::number(0)), meaning::binary(Operator::Equal, meaning::named("cube_dim_y"@), meaning::number(0)))), meaning::number(0), meaning::group(meaning::binary(Operator::Modulo, meaning::group(meaning::binary(Operator::Over, meaning::named("unit_pos"@), meaning::named("cube_dim_x"@))), meaning::named("cube_dim_y"@))));
    let line = meaning::declaration("unit_pos_y"@, e);
    assert(scalar_writer::POSITION_COMPONENTS@.subrange(443, 548) =~= line);
    assert(text::stands_at(scalar_writer::POSITION_COMPONENTS@, line, 443));
    assert(meaning::comes_to(e, names, topology::along_y(launch.unit_in_cube(unit), launch.cube_dim)));
    reveal(meaning::declares);
}

#[verifier::spinoff_prover]
#[verifier::rlimit(60)]
proof fn lemma_unit_pos_z(names: Map<Seq<char>, int>, launch: Topology, unit: int)
    requires
        launch.wf(),
        0 <= unit < launch.units(),
        are_names_of(names, launch, unit),
    ensures
        meaning::declares(scalar_writer::POSITION_COMPONENTS@, "unit_pos_z"@, names, topology::along_z(launch.unit_in_cube(unit), launch.cube_dim)),
{
    reveal_strlit("            uint32_t cube_pos_x = cube_count_x == 0 ? 0 : (flat_cube_pos % cube_count_x);\n            uint32_t cube_pos_y = (cube_count_x == 0 || cube_count_y == 0) ? 0 : ((flat_cube_pos / cube_count_x) % cube_count_y);\n            uint32_t cube_pos_z = (cube_count_x == 0 || cube_count_y == 0) ? 0 : (flat_cube_pos / (cube_count_x * cube_count_y));\n            uint32_t unit_pos_x = cube_dim_x == 0 ? 0 : (unit_pos % cube_dim_x);\n            uint32_t unit_pos_y = (cube_dim_x == 0 || cube_dim_y == 0) ? 0 : ((unit_pos / cube_dim_x) % cube_dim_y);\n            uint32_t unit_pos_z = (cube_dim_x == 0 || cube_dim_y == 0) ? 0 : (unit_pos / (cube_dim_x * cube_dim_y));\n");
    reveal_strlit(" * ");
    reveal_strlit(" / ");
    reveal_strlit(" : ");
    reveal_strlit(" = ");
    reveal_strlit(" == ");
    reveal_strlit(" ? ");
    reveal_strlit(" || ");
    reveal_strlit("(");
    reveal_strlit(")");
    reveal_strlit(";\n");
    reveal_strlit("cube_dim_x");
    reveal_strlit("cube_dim_y");
    reveal_strlit("uint32_t ");
    reveal_strlit("unit_pos");
    reveal_strlit("unit_pos_z");
    lemma_places_are_counted(launch, unit);
    topology::law_places_are_unique(launch.unit_in_cube(unit), launch.cube_dim);
    lemma_quotient_is_no_larger(launch.unit_in_cube(unit), launch.cube_dim.x as int);
    reveal_with_fuel(meaning::shown, 7);
    reveal_with_fuel(meaning::value, 7);
    reveal_with_fuel(meaning::is_exact, 7);
    reveal_with_fuel(meaning::is_read_back, 7);
    let e = meaning::choice(meaning::group(meaning::binary(Operator::Or, meaning::binary(Operator::Equal, meaning::named("cube_dim_x"@), meaning::number(0)), meaning::binary(Operator::Equal, meaning::named("cube_dim_y"@), meaning::number(0)))), meaning::number(0), meaning::group(meaning::binary(Operator::Over, meaning::named("unit_pos"@), meaning::group(meaning::binary(Operator::Times, meaning::named("cube_dim_x"@), meaning::named("cube_dim_y"@))))));
    let line = meaning::declaration("unit_pos_z"@, e);
    assert(scalar_writer::POSITION_COMPONENTS@.subrange(560, 665) =~= line);
    assert(text::stands_at(scalar_writer::POSITION_COMPONENTS@, line, 560));
    assert(meaning::comes_to(e, names, topology::along_z(launch.unit_in_cube(unit), launch.cube_dim)));
    reveal(meaning::declares);
}

#[verifier::spinoff_prover]
#[verifier::rlimit(60)]
proof fn lemma_absolute_pos(names: Map<Seq<char>, int>, launch: Topology, unit: int)
    requires
        launch.wf(),
        0 <= unit < launch.units(),
        are_names_of(names, launch, unit),
    ensures
        meaning::declares(scalar_writer::ABSOLUTE_POS@, "absolute_pos"@, names, unit),
{
    reveal_strlit("            uint32_t absolute_pos = unit_idx;\n");
    reveal_strlit(" = ");
    reveal_strlit(";\n");
    reveal_strlit("absolute_pos");
    reveal_strlit("uint32_t ");
    reveal_strlit("unit_idx");
    lemma_places_are_counted(launch, unit);
    reveal_with_fuel(meaning::shown, 2);
    reveal_with_fuel(meaning::value, 2);
    reveal_with_fuel(meaning::is_exact, 2);
    reveal_with_fuel(meaning::is_read_back, 2);
    let e = meaning::named("unit_idx"@);
    let line = meaning::declaration("absolute_pos"@, e);
    assert(scalar_writer::ABSOLUTE_POS@.subrange(12, 46) =~= line);
    assert(text::stands_at(scalar_writer::ABSOLUTE_POS@, line, 12));
    assert(meaning::comes_to(e, names, unit));
    reveal(meaning::declares);
}

#[verifier::spinoff_prover]
#[verifier::rlimit(60)]
proof fn lemma_cube_dim(names: Map<Seq<char>, int>, launch: Topology, unit: int)
    requires
        launch.wf(),
        0 <= unit < launch.units(),
        are_names_of(names, launch, unit),
    ensures
        meaning::declares(scalar_writer::CUBE_DIM@, "cube_dim"@, names, launch.cube_dim.units()),
{
    reveal_strlit("            uint32_t cube_dim = cube_dim_x * cube_dim_y * cube_dim_z;\n");
    reveal_strlit(" * ");
    reveal_strlit(" = ");
    reveal_strlit(";\n");
    reveal_strlit("cube_dim");
    reveal_strlit("cube_dim_x");
    reveal_strlit("cube_dim_y");
    reveal_strlit("cube_dim_z");
    reveal_strlit("uint32_t ");
    lemma_places_are_counted(launch, unit);
    reveal_with_fuel(meaning::shown, 4);
    reveal_with_fuel(meaning::value, 4);
    reveal_with_fuel(meaning::is_exact, 4);
    reveal_with_fuel(meaning::is_read_back, 4);
    let e = meaning::binary(Operator::Times, meaning::binary(Operator::Times, meaning::named("cube_dim_x"@), meaning::named("cube_dim_y"@)), meaning::named("cube_dim_z"@));
    let line = meaning::declaration("cube_dim"@, e);
    assert(scalar_writer::CUBE_DIM@.subrange(12, 70) =~= line);
    assert(text::stands_at(scalar_writer::CUBE_DIM@, line, 12));
    assert(meaning::comes_to(e, names, launch.cube_dim.units()));
    reveal(meaning::declares);
}

#[verifier::spinoff_prover]
#[verifier::rlimit(60)]
proof fn lemma_cube_count(names: Map<Seq<char>, int>, launch: Topology, unit: int)
    requires
        launch.wf(),
        0 <= unit < launch.units(),
        are_names_of(names, launch, unit),
    ensures
        meaning::declares(scalar_writer::CUBE_COUNT@, "cube_count"@, names, launch.cube_count.units()),
{
    reveal_strlit("            uint32_t cube_count = cube_count_x * cube_count_y * cube_count_z;\n");
    reveal_strlit(" * ");
    reveal_strlit(" = ");
    reveal_strlit(";\n");
    reveal_strlit("cube_count");
    reveal_strlit("cube_count_x");
    reveal_strlit("cube_count_y");
    reveal_strlit("cube_count_z");
    reveal_strlit("uint32_t ");
    lemma_places_are_counted(launch, unit);
    reveal_with_fuel(meaning::shown, 4);
    reveal_with_fuel(meaning::value, 4);
    reveal_with_fuel(meaning::is_exact, 4);
    reveal_with_fuel(meaning::is_read_back, 4);
    let e = meaning::binary(Operator::Times, meaning::binary(Operator::Times, meaning::named("cube_count_x"@), meaning::named("cube_count_y"@)), meaning::named("cube_count_z"@));
    let line = meaning::declaration("cube_count"@, e);
    assert(scalar_writer::CUBE_COUNT@.subrange(12, 78) =~= line);
    assert(text::stands_at(scalar_writer::CUBE_COUNT@, line, 12));
    assert(meaning::comes_to(e, names, launch.cube_count.units()));
    reveal(meaning::declares);
}

#[verifier::spinoff_prover]
#[verifier::rlimit(60)]
proof fn lemma_cube_pos(names: Map<Seq<char>, int>, launch: Topology, unit: int)
    requires
        launch.wf(),
        0 <= unit < launch.units(),
        are_names_of(names, launch, unit),
    ensures
        meaning::declares(scalar_writer::CUBE_POS@, "cube_pos"@, names, topology::along_x(launch.cube_of(unit), launch.cube_count)),
{
    reveal_strlit("            uint32_t cube_pos = cube_pos_x;\n");
    reveal_strlit(" = ");
    reveal_strlit(";\n");
    reveal_strlit("cube_pos");
    reveal_strlit("cube_pos_x");
    reveal_strlit("uint32_t ");
    lemma_places_are_counted(launch, unit);
    topology::law_places_are_unique(launch.cube_of(unit), launch.cube_count);
    reveal_with_fuel(meaning::shown, 2);
    reveal_with_fuel(meaning::value, 2);
    reveal_with_fuel(meaning::is_exact, 2);
    reveal_with_fuel(meaning::is_read_back, 2);
    let e = meaning::named("cube_pos_x"@);
    let line = meaning::declaration("cube_pos"@, e);
    assert(scalar_writer::CUBE_POS@.subrange(12, 44) =~= line);
    assert(text::stands_at(scalar_writer::CUBE_POS@, line, 12));
    assert(meaning::comes_to(e, names, topology::along_x(launch.cube_of(unit), launch.cube_count)));
    reveal(meaning::declares);
}

#[verifier::spinoff_prover]
#[verifier::rlimit(60)]
proof fn lemma_plane_dim(names: Map<Seq<char>, int>, launch: Topology, unit: int)
    requires
        launch.wf(),
        0 <= unit < launch.units(),
        are_names_of(names, launch, unit),
    ensures
        meaning::declares(scalar_writer::PLANE_DIM@, "plane_dim"@, names, 32),
{
    reveal_strlit("            uint32_t plane_dim = 32;\n");
    reveal_strlit(" = ");
    reveal_strlit(";\n");
    reveal_strlit("plane_dim");
    reveal_strlit("uint32_t ");
    lemma_places_are_counted(launch, unit);
    reveal_with_fuel(meaning::shown, 2);
    reveal_with_fuel(meaning::value, 2);
    reveal_with_fuel(meaning::is_exact, 2);
    reveal_with_fuel(meaning::is_read_back, 2);
    reveal_with_fuel(text::dec, 3);
    let e = meaning::number(32);
    let line = meaning::declaration("plane_dim"@, e);
    assert(scalar_writer::PLANE_DIM@.subrange(12, 37) =~= line);
    assert(text::stands_at(scalar_writer::PLANE_DIM@, line, 12));
    assert(meaning::comes_to(e, names, 32));
    reveal(meaning::declares);
}

#[verifier::spinoff_prover]
#[verifier::rlimit(60)]
proof fn lemma_unit_pos_plane(names: Map<Seq<char>, int>, launch: Topology, unit: int)
    requires
        launch.wf(),
        0 <= unit < launch.units(),
        are_names_of(names, launch, unit),
    ensures
        meaning::declares(scalar_writer::PLANE@, "unit_pos_plane"@, names, launch.unit_in_cube(unit) % 32),
{
    reveal_strlit("            uint32_t unit_pos_plane = unit_pos % 32;\n            uint32_t tt_plane_base = i - unit_pos_plane;\n            uint32_t tt_plane_remaining = tile_unit_count > tt_plane_base ? (tile_unit_count - tt_plane_base) : 0;\n");
    reveal_strlit(" % ");
    reveal_strlit(" = ");
    reveal_strlit(";\n");
    reveal_strlit("uint32_t ");
    reveal_strlit("unit_pos");
    reveal_strlit("unit_pos_plane");
    lemma_places_are_counted(launch, unit);
    reveal_with_fuel(meaning::shown, 3);
    reveal_with_fuel(meaning::value, 3);
    reveal_with_fuel(meaning::is_exact, 3);
    reveal_with_fuel(meaning::is_read_back, 3);
    reveal_with_fuel(text::dec, 3);
    let e = meaning::binary(Operator::Modulo, meaning::named("unit_pos"@), meaning::number(32));
    let line = meaning::declaration("unit_pos_plane"@, e);
    assert(scalar_writer::PLANE@.subrange(12, 53) =~= line);
    assert(text::stands_at(scalar_writer::PLANE@, line, 12));
    assert(meaning::comes_to(e, names, launch.unit_in_cube(unit) % 32));
    reveal(meaning::declares);
}

#[verifier::spinoff_prover]
#[verifier::rlimit(60)]
proof fn lemma_tt_plane_base(names: Map<Seq<char>, int>, launch: Topology, unit: int, at: int, held: int)
    requires
        launch.wf(),
        0 <= unit < launch.units(),
        are_names_of(names, launch, unit),
        are_names_in_tile(names, launch, unit, at, held),
    ensures
        meaning::declares(scalar_writer::PLANE@, "tt_plane_base"@, names, at - launch.unit_in_cube(unit) % 32),
{
    reveal_strlit("            uint32_t unit_pos_plane = unit_pos % 32;\n            uint32_t tt_plane_base = i - unit_pos_plane;\n            uint32_t tt_plane_remaining = tile_unit_count > tt_plane_base ? (tile_unit_count - tt_plane_base) : 0;\n");
    reveal_strlit(" - ");
    reveal_strlit(" = ");
    reveal_strlit(";\n");
    reveal_strlit("i");
    reveal_strlit("tt_plane_base");
    reveal_strlit("uint32_t ");
    reveal_strlit("unit_pos_plane");
    lemma_places_are_counted(launch, unit);
    reveal_with_fuel(meaning::shown, 3);
    reveal_with_fuel(meaning::value, 3);
    reveal_with_fuel(meaning::is_exact, 3);
    reveal_with_fuel(meaning::is_read_back, 3);
    let e = meaning::binary(Operator::Minus, meaning::named("i"@), meaning::named("unit_pos_plane"@));
    let line = meaning::declaration("tt_plane_base"@, e);
    assert(scalar_writer::PLANE@.subrange(65, 110) =~= line);
    assert(text::stands_at(scalar_writer::PLANE@, line, 65));
    assert(meaning::comes_to(e, names, at - launch.unit_in_cube(unit) % 32));
    reveal(meaning::declares);
}

#[verifier::spinoff_prover]
#[verifier::rlimit(60)]
proof fn lemma_tt_plane_remaining(names: Map<Seq<char>, int>, launch: Topology, unit: int, at: int, held: int)
    requires
        launch.wf(),
        0 <= unit < launch.units(),
        are_names_of(names, launch, unit),
        are_names_in_tile(names, launch, unit, at, held),
    ensures
        meaning::declares(scalar_writer::PLANE@, "tt_plane_remaining"@, names, held - (at - launch.unit_in_cube(unit) % 32)),
{
    reveal_strlit("            uint32_t unit_pos_plane = unit_pos % 32;\n            uint32_t tt_plane_base = i - unit_pos_plane;\n            uint32_t tt_plane_remaining = tile_unit_count > tt_plane_base ? (tile_unit_count - tt_plane_base) : 0;\n");
    reveal_strlit(" - ");
    reveal_strlit(" : ");
    reveal_strlit(" = ");
    reveal_strlit(" > ");
    reveal_strlit(" ? ");
    reveal_strlit("(");
    reveal_strlit(")");
    reveal_strlit(";\n");
    reveal_strlit("tile_unit_count");
    reveal_strlit("tt_plane_base");
    reveal_strlit("tt_plane_remaining");
    reveal_strlit("uint32_t ");
    lemma_places_are_counted(launch, unit);
    reveal_with_fuel(meaning::shown, 5);
    reveal_with_fuel(meaning::value, 5);
    reveal_with_fuel(meaning::is_exact, 5);
    reveal_with_fuel(meaning::is_read_back, 5);
    let e = meaning::choice(meaning::binary(Operator::Greater, meaning::named("tile_unit_count"@), meaning::named("tt_plane_base"@)), meaning::group(meaning::binary(Operator::Minus, meaning::named("tile_unit_count"@), meaning::named("tt_plane_base"@))), meaning::number(0));
    let line = meaning::declaration("tt_plane_remaining"@, e);
    assert(scalar_writer::PLANE@.subrange(122, 225) =~= line);
    assert(text::stands_at(scalar_writer::PLANE@, line, 122));
    assert(meaning::comes_to(e, names, held - (at - launch.unit_in_cube(unit) % 32)));
    reveal(meaning::declares);
}

#[verifier::spinoff_prover]
#[verifier::rlimit(60)]
proof fn lemma_plane_dim_checked(names: Map<Seq<char>, int>, launch: Topology, unit: int, at: int, held: int)
    requires
        launch.wf(),
        0 <= unit < launch.units(),
        are_names_of(names, launch, unit),
        are_names_in_tile(names, launch, unit, at, held),
    ensures
        meaning::declares(scalar_writer::PLANE_DIM_CHECKED@, "plane_dim_checked"@, names, scalar_writer::smaller((held - (at - launch.unit_in_cube(unit) % 32)) as nat, 32) as int),
{
    reveal_strlit("            uint32_t plane_dim_checked = tt_plane_remaining < 32 ? tt_plane_remaining : 32;\n");
    reveal_strlit(" : ");
    reveal_strlit(" < ");
    reveal_strlit(" = ");
    reveal_strlit(" ? ");
    reveal_strlit(";\n");
    reveal_strlit("plane_dim_checked");
    reveal_strlit("tt_plane_remaining");
    reveal_strlit("uint32_t ");
    lemma_places_are_counted(launch, unit);
    reveal_with_fuel(meaning::shown, 4);
    reveal_with_fuel(meaning::value, 4);
    reveal_with_fuel(meaning::is_exact, 4);
    reveal_with_fuel(meaning::is_read_back, 4);
    reveal_with_fuel(text::dec, 3);
    let e = meaning::choice(meaning::binary(Operator::Less, meaning::named("tt_plane_remaining"@), meaning::number(32)), meaning::named("tt_plane_remaining"@), meaning::number(32));
    let line = meaning::declaration("plane_dim_checked"@, e);
    assert(scalar_writer::PLANE_DIM_CHECKED@.subrange(12, 92) =~= line);
    assert(text::stands_at(scalar_writer::PLANE_DIM_CHECKED@, line, 12));
    assert(meaning::comes_to(e, names, scalar_writer::smaller((held - (at - launch.unit_in_cube(unit) % 32)) as nat, 32) as int));
    reveal(meaning::declares);
}

#[verifier::spinoff_prover]
#[verifier::rlimit(60)]
proof fn lemma_plane_pos(names: Map<Seq<char>, int>, launch: Topology, unit: int)
    requires
        launch.wf(),
        0 <= unit < launch.units(),
        are_names_of(names, launch, unit),
    ensures
        meaning::declares(scalar_writer::PLANE_POS@, "plane_pos"@, names, launch.unit_in_cube(unit) % 32),
{
    reveal_strlit("            uint32_t plane_pos = unit_pos_plane;\n");
    reveal_strlit(" = ");
    reveal_strlit(";\n");
    reveal_strlit("plane_pos");
    reveal_strlit("uint32_t ");
    reveal_strlit("unit_pos_plane");
    lemma_places_are_counted(launch, unit);
    reveal_with_fuel(meaning::shown, 2);
    reveal_with_fuel(meaning::value, 2);
    reveal_with_fuel(meaning::is_exact, 2);
    reveal_with_fuel(meaning::is_read_back, 2);
    let e = meaning::named("unit_pos_plane"@);
    let line = meaning::declaration("plane_pos"@, e);
    assert(scalar_writer::PLANE_POS@.subrange(12, 49) =~= line);
    assert(text::stands_at(scalar_writer::PLANE_POS@, line, 12));
    assert(meaning::comes_to(e, names, launch.unit_in_cube(unit) % 32));
    reveal(meaning::declares);
}

/// Whether a source declares the built-ins that a kernel reads, and each of them as what it
/// is for the unit: its number among all units, the place of its cube and its own within
/// the cube, and its lane in its plane.
pub open spec fn tells_where_units_are(
    source: Seq<char>,
    indexes: CubeIndexFlags,
    names: Map<Seq<char>, int>,
    launch: Topology,
    unit: int,
) -> bool {
    let cube = launch.cube_of(unit);
    let within = launch.unit_in_cube(unit);
    &&& indexes.absolute_pos ==> meaning::declares(source, "absolute_pos"@, names, unit)
    &&& indexes.unit_pos ==> meaning::declares(source, "unit_pos"@, names, within)
    &&& indexes.unit_pos_tuple ==> {
        &&& meaning::declares(source, "unit_pos_x"@, names, topology::along_x(within, launch.cube_dim))
        &&& meaning::declares(source, "unit_pos_y"@, names, topology::along_y(within, launch.cube_dim))
        &&& meaning::declares(source, "unit_pos_z"@, names, topology::along_z(within, launch.cube_dim))
    }
    &&& indexes.cube_pos_tuple ==> {
        &&& meaning::declares(source, "cube_pos_x"@, names, topology::along_x(cube, launch.cube_count))
        &&& meaning::declares(source, "cube_pos_y"@, names, topology::along_y(cube, launch.cube_count))
        &&& meaning::declares(source, "cube_pos_z"@, names, topology::along_z(cube, launch.cube_count))
    }
    &&& indexes.cube_pos ==> meaning::declares(
        source,
        "cube_pos"@,
        names,
        topology::along_x(cube, launch.cube_count),
    )
    &&& indexes.cube_dim ==> meaning::declares(source, "cube_dim"@, names, launch.cube_dim.units())
    &&& indexes.cube_count ==> meaning::declares(
        source,
        "cube_count"@,
        names,
        launch.cube_count.units(),
    )
    &&& indexes.plane_dim ==> meaning::declares(source, "plane_dim"@, names, 32)
    &&& indexes.unit_pos_plane ==> meaning::declares(source, "unit_pos_plane"@, names, within % 32)
    &&& indexes.plane_pos ==> meaning::declares(source, "plane_pos"@, names, within % 32)
    &&& indexes.absolute_pos || indexes.unit_pos || indexes.unit_pos_tuple || indexes.cube_pos
        || indexes.cube_pos_tuple || indexes.unit_pos_plane || indexes.plane_pos
        || indexes.plane_dim_checked ==> {
        &&& meaning::declares(source, "cube_units"@, names, launch.cube_dim.units())
        &&& meaning::declares(source, "flat_cube_pos"@, names, cube)
        &&& meaning::declares(source, "unit_pos"@, names, within)
    }
}

/// Whether a source declares how many lanes of a unit's plane are there: all that are left
/// of the tile from the first lane of the plane on, and 32 at most.
pub open spec fn tells_which_lanes_are_there(
    source: Seq<char>,
    indexes: CubeIndexFlags,
    names: Map<Seq<char>, int>,
    launch: Topology,
    unit: int,
    at: int,
    held: int,
) -> bool {
    let lane = launch.unit_in_cube(unit) % 32;
    let left = held - (at - lane);
    &&& indexes.unit_pos_plane || indexes.plane_pos || indexes.plane_dim_checked ==> {
        &&& meaning::declares(source, "unit_pos_plane"@, names, lane)
        &&& meaning::declares(source, "tt_plane_base"@, names, at - lane)
        &&& meaning::declares(source, "tt_plane_remaining"@, names, left)
    }
    &&& indexes.plane_dim_checked ==> meaning::declares(
        source,
        "plane_dim_checked"@,
        names,
        if left < 32 {
            left
        } else {
            32
        },
    )
}

proof fn lemma_built_ins_have_their_parts(indexes: CubeIndexFlags)
    ensures
        scalar_writer::needs_positions(indexes) ==> text::contains(
            scalar_writer::builtin_locals(indexes),
            scalar_writer::FLAT_POSITIONS@,
        ),
        indexes.cube_pos || indexes.cube_pos_tuple || indexes.unit_pos_tuple ==> text::contains(
            scalar_writer::builtin_locals(indexes),
            scalar_writer::POSITION_COMPONENTS@,
        ),
        indexes.absolute_pos ==> text::contains(
            scalar_writer::builtin_locals(indexes),
            scalar_writer::ABSOLUTE_POS@,
        ),
        indexes.cube_dim ==> text::contains(
            scalar_writer::builtin_locals(indexes),
            scalar_writer::CUBE_DIM@,
        ),
        indexes.cube_count ==> text::contains(
            scalar_writer::builtin_locals(indexes),
            scalar_writer::CUBE_COUNT@,
        ),
        indexes.cube_pos ==> text::contains(
            scalar_writer::builtin_locals(indexes),
            scalar_writer::CUBE_POS@,
        ),
        indexes.plane_dim ==> text::contains(
            scalar_writer::builtin_locals(indexes),
            scalar_writer::PLANE_DIM@,
        ),
        scalar_writer::needs_plane(indexes) ==> text::contains(
            scalar_writer::builtin_locals(indexes),
            scalar_writer::PLANE@,
        ),
        indexes.plane_dim_checked ==> text::contains(
            scalar_writer::builtin_locals(indexes),
            scalar_writer::PLANE_DIM_CHECKED@,
        ),
        indexes.plane_pos ==> text::contains(
            scalar_writer::builtin_locals(indexes),
            scalar_writer::PLANE_POS@,
        ),
{
    let parts = seq![
        text::given(scalar_writer::needs_positions(indexes), scalar_writer::FLAT_POSITIONS@),
        text::given(indexes.cube_pos || indexes.cube_pos_tuple || indexes.unit_pos_tuple, scalar_writer::POSITION_COMPONENTS@),
        text::given(indexes.absolute_pos, scalar_writer::ABSOLUTE_POS@),
        text::given(indexes.cube_dim, scalar_writer::CUBE_DIM@),
        text::given(indexes.cube_count, scalar_writer::CUBE_COUNT@),
        text::given(indexes.cube_pos, scalar_writer::CUBE_POS@),
        text::given(indexes.plane_dim, scalar_writer::PLANE_DIM@),
        text::given(scalar_writer::needs_plane(indexes), scalar_writer::PLANE@),
        text::given(indexes.plane_dim_checked, scalar_writer::PLANE_DIM_CHECKED@),
        text::given(indexes.plane_pos, scalar_writer::PLANE_POS@),
    ];
    reveal_with_fuel(text::joined, 11);
    assert(text::joined(parts, 10) == scalar_writer::builtin_locals(indexes));
    text::law_joined_parts_are_contained(parts, 10, 0);
    text::law_joined_parts_are_contained(parts, 10, 1);
    text::law_joined_parts_are_contained(parts, 10, 2);
    text::law_joined_parts_are_contained(parts, 10, 3);
    text::law_joined_parts_are_contained(parts, 10, 4);
    text::law_joined_parts_are_contained(parts, 10, 5);
    text::law_joined_parts_are_contained(parts, 10, 6);
    text::law_joined_parts_are_contained(parts, 10, 7);
    text::law_joined_parts_are_contained(parts, 10, 8);
    text::law_joined_parts_are_contained(parts, 10, 9);
}

/// The built-ins of the scalar writer are what they are called, for every unit of every
/// launch.
pub proof fn law_units_know_where_they_are(
    indexes: CubeIndexFlags,
    names: Map<Seq<char>, int>,
    launch: Topology,
    unit: int,
)
    requires
        launch.wf(),
        0 <= unit < launch.units(),
        are_names_of(names, launch, unit),
    ensures
        tells_where_units_are(scalar_writer::builtin_locals(indexes), indexes, names, launch, unit),
{
    let all = scalar_writer::builtin_locals(indexes);
    lemma_built_ins_have_their_parts(indexes);
    lemma_cube_units(names, launch, unit);
    if scalar_writer::needs_positions(indexes) {
        meaning::law_parts_declare(all, scalar_writer::FLAT_POSITIONS@, "cube_units"@, names, launch.cube_dim.units());
    }
    lemma_flat_cube_pos(names, launch, unit);
    if scalar_writer::needs_positions(indexes) {
        meaning::law_parts_declare(all, scalar_writer::FLAT_POSITIONS@, "flat_cube_pos"@, names, launch.cube_of(unit));
    }
    lemma_unit_pos(names, launch, unit);
    if scalar_writer::needs_positions(indexes) {
        meaning::law_parts_declare(all, scalar_writer::FLAT_POSITIONS@, "unit_pos"@, names, launch.unit_in_cube(unit));
    }
    lemma_cube_pos_x(names, launch, unit);
    if indexes.cube_pos || indexes.cube_pos_tuple || indexes.unit_pos_tuple {
        meaning::law_parts_declare(all, scalar_writer::POSITION_COMPONENTS@, "cube_pos_x"@, names, topology::along_x(launch.cube_of(unit), launch.cube_count));
    }
    lemma_cube_pos_y(names, launch, unit);
    if indexes.cube_pos || indexes.cube_pos_tuple || indexes.unit_pos_tuple {
        meaning::law_parts_declare(all, scalar_writer::POSITION_COMPONENTS@, "cube_pos_y"@, names, topology::along_y(launch.cube_of(unit), launch.cube_count));
    }
    lemma_cube_pos_z(names, launch, unit);
    if indexes.cube_pos || indexes.cube_pos_tuple || indexes.unit_pos_tuple {
        meaning::law_parts_declare(all, scalar_writer::POSITION_COMPONENTS@, "cube_pos_z"@, names, topology::along_z(launch.cube_of(unit), launch.cube_count));
    }
    lemma_unit_pos_x(names, launch, unit);
    if indexes.cube_pos || indexes.cube_pos_tuple || indexes.unit_pos_tuple {
        meaning::law_parts_declare(all, scalar_writer::POSITION_COMPONENTS@, "unit_pos_x"@, names, topology::along_x(launch.unit_in_cube(unit), launch.cube_dim));
    }
    lemma_unit_pos_y(names, launch, unit);
    if indexes.cube_pos || indexes.cube_pos_tuple || indexes.unit_pos_tuple {
        meaning::law_parts_declare(all, scalar_writer::POSITION_COMPONENTS@, "unit_pos_y"@, names, topology::along_y(launch.unit_in_cube(unit), launch.cube_dim));
    }
    lemma_unit_pos_z(names, launch, unit);
    if indexes.cube_pos || indexes.cube_pos_tuple || indexes.unit_pos_tuple {
        meaning::law_parts_declare(all, scalar_writer::POSITION_COMPONENTS@, "unit_pos_z"@, names, topology::along_z(launch.unit_in_cube(unit), launch.cube_dim));
    }
    lemma_absolute_pos(names, launch, unit);
    if indexes.absolute_pos {
        meaning::law_parts_declare(all, scalar_writer::ABSOLUTE_POS@, "absolute_pos"@, names, unit);
    }
    lemma_cube_dim(names, launch, unit);
    if indexes.cube_dim {
        meaning::law_parts_declare(all, scalar_writer::CUBE_DIM@, "cube_dim"@, names, launch.cube_dim.units());
    }
    lemma_cube_count(names, launch, unit);
    if indexes.cube_count {
        meaning::law_parts_declare(all, scalar_writer::CUBE_COUNT@, "cube_count"@, names, launch.cube_count.units());
    }
    lemma_cube_pos(names, launch, unit);
    if indexes.cube_pos {
        meaning::law_parts_declare(all, scalar_writer::CUBE_POS@, "cube_pos"@, names, topology::along_x(launch.cube_of(unit), launch.cube_count));
    }
    lemma_plane_dim(names, launch, unit);
    if indexes.plane_dim {
        meaning::law_parts_declare(all, scalar_writer::PLANE_DIM@, "plane_dim"@, names, 32);
    }
    lemma_unit_pos_plane(names, launch, unit);
    if scalar_writer::needs_plane(indexes) {
        meaning::law_parts_declare(all, scalar_writer::PLANE@, "unit_pos_plane"@, names, launch.unit_in_cube(unit) % 32);
    }
    lemma_plane_pos(names, launch, unit);
    if indexes.plane_pos {
        meaning::law_parts_declare(all, scalar_writer::PLANE_POS@, "plane_pos"@, names, launch.unit_in_cube(unit) % 32);
    }
}

/// Every unit knows which lanes of its plane are there.
pub proof fn law_units_know_their_lanes(
    indexes: CubeIndexFlags,
    names: Map<Seq<char>, int>,
    launch: Topology,
    unit: int,
    at: int,
    held: int,
)
    requires
        launch.wf(),
        0 <= unit < launch.units(),
        are_names_of(names, launch, unit),
        are_names_in_tile(names, launch, unit, at, held),
    ensures
        tells_which_lanes_are_there(
            scalar_writer::builtin_locals(indexes),
            indexes,
            names,
            launch,
            unit,
            at,
            held,
        ),
{
    let all = scalar_writer::builtin_locals(indexes);
    lemma_built_ins_have_their_parts(indexes);
    lemma_unit_pos_plane(names, launch, unit);
    lemma_tt_plane_base(names, launch, unit, at, held);
    lemma_tt_plane_remaining(names, launch, unit, at, held);
    lemma_plane_dim_checked(names, launch, unit, at, held);
    if scalar_writer::needs_plane(indexes) {
        meaning::law_parts_declare(all, scalar_writer::PLANE@, "unit_pos_plane"@, names, launch.unit_in_cube(unit) % 32);
    }
    if scalar_writer::needs_plane(indexes) {
        meaning::law_parts_declare(all, scalar_writer::PLANE@, "tt_plane_base"@, names, at - launch.unit_in_cube(unit) % 32);
    }
    if scalar_writer::needs_plane(indexes) {
        meaning::law_parts_declare(all, scalar_writer::PLANE@, "tt_plane_remaining"@, names, held - (at - launch.unit_in_cube(unit) % 32));
    }
    if indexes.plane_dim_checked {
        meaning::law_parts_declare(all, scalar_writer::PLANE_DIM_CHECKED@, "plane_dim_checked"@, names, scalar_writer::smaller((held - (at - launch.unit_in_cube(unit) % 32)) as nat, 32) as int);
    }
}

/// Whether the names of a source have the values that they have in a tile: the core starts
/// at tile `start`, this is the tile behind `behind` others, each tile has room for `room`
/// units, and the launch has `units` units.
pub open spec fn are_names_of_tile(
    names: Map<Seq<char>, int>,
    start: int,
    behind: int,
    room: int,
    units: int,
) -> bool {
    &&& 0 <= start
    &&& 0 <= behind
    &&& 0 <= room <= u32::MAX
    &&& 0 <= units <= u32::MAX
    &&& start + behind <= u32::MAX
    &&& 0 <= (start + behind) * room <= u32::MAX
    &&& names["start_tile"@] == start
    &&& names["tile_idx"@] == behind
    &&& names["tile_units"@] == room
    &&& names["num_units"@] == units
    &&& names["global_tile_idx"@] == start + behind
    &&& names["tile_start_unit"@] == (start + behind) * room
}

/// The units of a launch that a tile holds: all that are left, as far as there is room.
pub open spec fn held_units(tile: int, room: int, units: int) -> int {
    if units <= tile * room {
        0
    } else if units - tile * room < room {
        units - tile * room
    } else {
        room
    }
}

#[verifier::spinoff_prover]
#[verifier::rlimit(60)]
proof fn lemma_global_tile_idx(names: Map<Seq<char>, int>, start: int, behind: int, room: int, units: int)
    requires
        are_names_of_tile(names, start, behind, room, units),
    ensures
        meaning::declares(scalar_writer::TILE_LOOP@, "global_tile_idx"@, names, start + behind),
{
    reveal_strlit("\n    for (uint32_t tile_idx = 0; tile_idx < num_tiles; ++tile_idx) {\n        uint32_t global_tile_idx = start_tile + tile_idx;\n        uint32_t tile_start_unit = global_tile_idx * tile_units;\n        uint32_t tile_unit_count = num_units > tile_start_unit ? std::min(tile_units, num_units - tile_start_unit) : 0;\n");
    reveal_strlit(" + ");
    reveal_strlit(" = ");
    reveal_strlit(";\n");
    reveal_strlit("global_tile_idx");
    reveal_strlit("start_tile");
    reveal_strlit("tile_idx");
    reveal_strlit("uint32_t ");
    reveal_with_fuel(meaning::shown, 3);
    reveal_with_fuel(meaning::value, 3);
    reveal_with_fuel(meaning::is_exact, 3);
    reveal_with_fuel(meaning::is_read_back, 3);
    let e = meaning::binary(Operator::Plus, meaning::named("start_tile"@), meaning::named("tile_idx"@));
    let line = meaning::declaration("global_tile_idx"@, e);
    assert(scalar_writer::TILE_LOOP@.subrange(77, 127) =~= line);
    assert(text::stands_at(scalar_writer::TILE_LOOP@, line, 77));
    assert(meaning::comes_to(e, names, start + behind));
    reveal(meaning::declares);
}

#[verifier::spinoff_prover]
#[verifier::rlimit(60)]
proof fn lemma_tile_start_unit(names: Map<Seq<char>, int>, start: int, behind: int, room: int, units: int)
    requires
        are_names_of_tile(names, start, behind, room, units),
    ensures
        meaning::declares(scalar_writer::TILE_LOOP@, "tile_start_unit"@, names, (start + behind) * room),
{
    reveal_strlit("\n    for (uint32_t tile_idx = 0; tile_idx < num_tiles; ++tile_idx) {\n        uint32_t global_tile_idx = start_tile + tile_idx;\n        uint32_t tile_start_unit = global_tile_idx * tile_units;\n        uint32_t tile_unit_count = num_units > tile_start_unit ? std::min(tile_units, num_units - tile_start_unit) : 0;\n");
    reveal_strlit(" * ");
    reveal_strlit(" = ");
    reveal_strlit(";\n");
    reveal_strlit("global_tile_idx");
    reveal_strlit("tile_start_unit");
    reveal_strlit("tile_units");
    reveal_strlit("uint32_t ");
    reveal_with_fuel(meaning::shown, 3);
    reveal_with_fuel(meaning::value, 3);
    reveal_with_fuel(meaning::is_exact, 3);
    reveal_with_fuel(meaning::is_read_back, 3);
    let e = meaning::binary(Operator::Times, meaning::named("global_tile_idx"@), meaning::named("tile_units"@));
    let line = meaning::declaration("tile_start_unit"@, e);
    assert(scalar_writer::TILE_LOOP@.subrange(135, 192) =~= line);
    assert(text::stands_at(scalar_writer::TILE_LOOP@, line, 135));
    assert(meaning::comes_to(e, names, (start + behind) * room));
    reveal(meaning::declares);
}

#[verifier::spinoff_prover]
#[verifier::rlimit(60)]
proof fn lemma_tile_unit_count(names: Map<Seq<char>, int>, start: int, behind: int, room: int, units: int)
    requires
        are_names_of_tile(names, start, behind, room, units),
    ensures
        meaning::declares(scalar_writer::TILE_LOOP@, "tile_unit_count"@, names, held_units(start + behind, room, units)),
{
    reveal_strlit("\n    for (uint32_t tile_idx = 0; tile_idx < num_tiles; ++tile_idx) {\n        uint32_t global_tile_idx = start_tile + tile_idx;\n        uint32_t tile_start_unit = global_tile_idx * tile_units;\n        uint32_t tile_unit_count = num_units > tile_start_unit ? std::min(tile_units, num_units - tile_start_unit) : 0;\n");
    reveal_strlit(" - ");
    reveal_strlit(" : ");
    reveal_strlit(" = ");
    reveal_strlit(" > ");
    reveal_strlit(" ? ");
    reveal_strlit(")");
    reveal_strlit(", ");
    reveal_strlit(";\n");
    reveal_strlit("num_units");
    reveal_strlit("std::min(");
    reveal_strlit("tile_start_unit");
    reveal_strlit("tile_unit_count");
    reveal_strlit("tile_units");
    reveal_strlit("uint32_t ");
    reveal_with_fuel(meaning::shown, 5);
    reveal_with_fuel(meaning::value, 5);
    reveal_with_fuel(meaning::is_exact, 5);
    reveal_with_fuel(meaning::is_read_back, 5);
    let e = meaning::choice(meaning::binary(Operator::Greater, meaning::named("num_units"@), meaning::named("tile_start_unit"@)), Expr::Least(Box::new(meaning::named("tile_units"@)), Box::new(meaning::binary(Operator::Minus, meaning::named("num_units"@), meaning::named("tile_start_unit"@)))), meaning::number(0));
    let line = meaning::declaration("tile_unit_count"@, e);
    assert(scalar_writer::TILE_LOOP@.subrange(200, 312) =~= line);
    assert(text::stands_at(scalar_writer::TILE_LOOP@, line, 200));
    assert(meaning::comes_to(e, names, held_units(start + behind, room, units)));
    reveal(meaning::declares);
}

#[verifier::spinoff_prover]
#[verifier::rlimit(60)]
proof fn lemma_unit_idx(names: Map<Seq<char>, int>, start: int, behind: int, room: int, units: int, at: int)
    requires
        are_names_of_tile(names, start, behind, room, units),
        names["i"@] == at,
        0 <= at,
        (start + behind) * room + at <= u32::MAX,
    ensures
        meaning::declares(scalar_writer::UNIT_LOOP@, "unit_idx"@, names, (start + behind) * room + at),
{
    reveal_strlit("\n        for (uint32_t i = 0; i < tile_units; ++i) {\n            uint32_t unit_idx = global_tile_idx * tile_units + i;\n            if (unit_idx >= num_units) break;\n");
    reveal_strlit(" * ");
    reveal_strlit(" + ");
    reveal_strlit(" = ");
    reveal_strlit(";\n");
    reveal_strlit("global_tile_idx");
    reveal_strlit("i");
    reveal_strlit("tile_units");
    reveal_strlit("uint32_t ");
    reveal_strlit("unit_idx");
    reveal_with_fuel(meaning::shown, 4);
    reveal_with_fuel(meaning::value, 4);
    reveal_with_fuel(meaning::is_exact, 4);
    reveal_with_fuel(meaning::is_read_back, 4);
    let e = meaning::binary(Operator::Plus, meaning::binary(Operator::Times, meaning::named("global_tile_idx"@), meaning::named("tile_units"@)), meaning::named("i"@));
    let line = meaning::declaration("unit_idx"@, e);
    assert(scalar_writer::UNIT_LOOP@.subrange(65, 119) =~= line);
    assert(text::stands_at(scalar_writer::UNIT_LOOP@, line, 65));
    assert(meaning::comes_to(e, names, (start + behind) * room + at));
    reveal(meaning::declares);
}

pub(crate) proof fn lemma_writer_has_its_sections(kernel: ComputeKernel, num_inputs: nat, outputs: Seq<usize>, units: nat)
    ensures
        text::contains(scalar_writer::scalar_writer(kernel, num_inputs, outputs, units), scalar_writer::writer_head(kernel, num_inputs, outputs.len(), units)),
        text::contains(scalar_writer::scalar_writer(kernel, num_inputs, outputs, units), scalar_writer::tile_head(kernel, num_inputs, outputs)),
        text::contains(scalar_writer::scalar_writer(kernel, num_inputs, outputs, units), scalar_writer::unit_loop(kernel)),
        text::contains(scalar_writer::scalar_writer(kernel, num_inputs, outputs, units), scalar_writer::tile_end(scalar_writer::leaves_kernel(kernel.body.instructions@), num_inputs, outputs.len())),
{
    let parts = seq![
        scalar_writer::writer_head(kernel, num_inputs, outputs.len(), units),
        scalar_writer::tile_head(kernel, num_inputs, outputs),
        scalar_writer::unit_loop(kernel),
        scalar_writer::tile_end(scalar_writer::leaves_kernel(kernel.body.instructions@), num_inputs, outputs.len()),
    ];
    reveal_with_fuel(text::joined, 5);
    assert(text::joined(parts, 4) == scalar_writer::scalar_writer(kernel, num_inputs, outputs, units));
    text::law_joined_parts_are_contained(parts, 4, 0);
    text::law_joined_parts_are_contained(parts, 4, 1);
    text::law_joined_parts_are_contained(parts, 4, 2);
    text::law_joined_parts_are_contained(parts, 4, 3);
}

/// The places of the scalar writer's arguments behind the addresses of its outputs.
pub open spec fn argument_places(num_outputs: nat) -> Seq<Seq<char>> {
    seq![
        text::dec(num_outputs),
        text::dec(num_outputs + 1),
        text::dec(num_outputs + 2),
        text::dec(num_outputs + 3),
        text::dec(num_outputs + 4),
        text::dec(num_outputs + 5),
    ]
}

/// What the scalar writer is told of its tiles and its cube.
pub open spec fn cube_extents(kernel: ComputeKernel, units: nat) -> Seq<Seq<char>> {
    seq![
        text::dec(units),
        text::dec(kernel.cube_dim.x as nat),
        text::dec(kernel.cube_dim.y as nat),
        text::dec(kernel.cube_dim.z as nat),
    ]
}

pub(crate) proof fn lemma_head_has_its_parts(kernel: ComputeKernel, num_inputs: nat, num_outputs: nat, units: nat)
    ensures
        text::contains(scalar_writer::writer_head(kernel, num_inputs, num_outputs, units), scalar_writer::HEADERS@),
        text::contains(scalar_writer::writer_head(kernel, num_inputs, num_outputs, units), scalar_writer::vector_definitions(kernel.items@, kernel.items.len() as nat)),
        text::contains(scalar_writer::writer_head(kernel, num_inputs, num_outputs, units), kernel.info.definition@),
        text::contains(scalar_writer::writer_head(kernel, num_inputs, num_outputs, units), "\nvoid kernel_main() {\n"@),
        text::contains(scalar_writer::writer_head(kernel, num_inputs, num_outputs, units), text::numbered(writer::TARGET_ADDRESS@, 0, num_outputs)),
        text::contains(scalar_writer::writer_head(kernel, num_inputs, num_outputs, units), text::fill(scalar_writer::ARGUMENTS@, argument_places(num_outputs))),
        text::contains(scalar_writer::writer_head(kernel, num_inputs, num_outputs, units), text::fill(scalar_writer::CUBE@, cube_extents(kernel, units))),
        text::contains(scalar_writer::writer_head(kernel, num_inputs, num_outputs, units), text::numbered(dataflow::INPUT_BUFFER@, 0, num_inputs)),
        text::contains(scalar_writer::writer_head(kernel, num_inputs, num_outputs, units), dataflow::output_buffers(num_outputs)),
        text::contains(scalar_writer::writer_head(kernel, num_inputs, num_outputs, units), "\n"@),
        text::contains(scalar_writer::writer_head(kernel, num_inputs, num_outputs, units), dataflow::accessors("c"@, "dst"@, num_outputs)),
        text::contains(scalar_writer::writer_head(kernel, num_inputs, num_outputs, units), scalar_writer::info_block(kernel, scalar_writer::info_offset(num_outputs))),
        text::contains(scalar_writer::writer_head(kernel, num_inputs, num_outputs, units), scalar_writer::const_arrays(kernel.body.const_arrays@, kernel.body.const_arrays.len() as nat)),
{
    let parts = seq![
        scalar_writer::HEADERS@,
        scalar_writer::vector_definitions(kernel.items@, kernel.items.len() as nat),
        kernel.info.definition@,
        "\nvoid kernel_main() {\n"@,
        text::numbered(writer::TARGET_ADDRESS@, 0, num_outputs),
        text::fill(scalar_writer::ARGUMENTS@, argument_places(num_outputs)),
        text::fill(scalar_writer::CUBE@, cube_extents(kernel, units)),
        text::numbered(dataflow::INPUT_BUFFER@, 0, num_inputs),
        dataflow::output_buffers(num_outputs),
        "\n"@,
        dataflow::accessors("c"@, "dst"@, num_outputs),
        scalar_writer::info_block(kernel, scalar_writer::info_offset(num_outputs)),
        scalar_writer::const_arrays(kernel.body.const_arrays@, kernel.body.const_arrays.len() as nat),
    ];
    reveal_with_fuel(text::joined, 14);
    assert(text::joined(parts, 13) == scalar_writer::writer_head(kernel, num_inputs, num_outputs, units));
    text::law_joined_parts_are_contained(parts, 13, 0);
    text::law_joined_parts_are_contained(parts, 13, 1);
    text::law_joined_parts_are_contained(parts, 13, 2);
    text::law_joined_parts_are_contained(parts, 13, 3);
    text::law_joined_parts_are_contained(parts, 13, 4);
    text::law_joined_parts_are_contained(parts, 13, 5);
    text::law_joined_parts_are_contained(parts, 13, 6);
    text::law_joined_parts_are_contained(parts, 13, 7);
    text::law_joined_parts_are_contained(parts, 13, 8);
    text::law_joined_parts_are_contained(parts, 13, 9);
    text::law_joined_parts_are_contained(parts, 13, 10);
    text::law_joined_parts_are_contained(parts, 13, 11);
    text::law_joined_parts_are_contained(parts, 13, 12);
}

/// Whether a source declares a constant of the given value.
pub open spec fn has_constant(source: Seq<char>, name: Seq<char>, value: nat) -> bool {
    text::contains(source, "constexpr uint32_t "@ + name + " = "@ + text::dec(value) + ";\n"@)
}

/// Whether a source reads a number from the runtime argument at the given place.
pub open spec fn reads_argument(source: Seq<char>, name: Seq<char>, place: nat) -> bool {
    text::contains(
        source,
        "uint32_t "@ + name + " = get_arg_val<uint32_t>("@ + text::dec(place) + ");\n"@,
    )
}

#[verifier::spinoff_prover]
#[verifier::rlimit(60)]
proof fn lemma_cube_is_declared(kernel: ComputeKernel, units: nat)
    ensures
        has_constant(text::fill(scalar_writer::CUBE@, cube_extents(kernel, units)), "tile_units"@, units),
        has_constant(text::fill(scalar_writer::CUBE@, cube_extents(kernel, units)), "cube_dim_x"@, kernel.cube_dim.x as nat),
        has_constant(text::fill(scalar_writer::CUBE@, cube_extents(kernel, units)), "cube_dim_y"@, kernel.cube_dim.y as nat),
        has_constant(text::fill(scalar_writer::CUBE@, cube_extents(kernel, units)), "cube_dim_z"@, kernel.cube_dim.z as nat),
{
    reveal_strlit("    constexpr uint32_t tile_units = $0;\n    constexpr uint32_t cube_dim_x = $1;\n    constexpr uint32_t cube_dim_y = $2;\n    constexpr uint32_t cube_dim_z = $3;\n    uint32_t cube_units = cube_dim_x * cube_dim_y * cube_dim_z;\n");
    reveal_strlit(" = ");
    reveal_strlit(";\n");
    reveal_strlit("constexpr uint32_t ");
    reveal_strlit("cube_dim_x");
    reveal_strlit("cube_dim_y");
    reveal_strlit("cube_dim_z");
    reveal_strlit("tile_units");
    let args = cube_extents(kernel, units);
    let h0 = "constexpr uint32_t "@ + "tile_units"@ + " = "@;
    let line0 = h0 + text::placeholder(0) + ";\n"@;
    assert(scalar_writer::CUBE@.subrange(4, 40) =~= line0);
    assert(text::stands_at(scalar_writer::CUBE@, line0, 4));
    text::law_line_holds_its_argument(scalar_writer::CUBE@, h0, 0, ";\n"@, 4, args);
    let h1 = "constexpr uint32_t "@ + "cube_dim_x"@ + " = "@;
    let line1 = h1 + text::placeholder(1) + ";\n"@;
    assert(scalar_writer::CUBE@.subrange(44, 80) =~= line1);
    assert(text::stands_at(scalar_writer::CUBE@, line1, 44));
    text::law_line_holds_its_argument(scalar_writer::CUBE@, h1, 1, ";\n"@, 44, args);
    let h2 = "constexpr uint32_t "@ + "cube_dim_y"@ + " = "@;
    let line2 = h2 + text::placeholder(2) + ";\n"@;
    assert(scalar_writer::CUBE@.subrange(84, 120) =~= line2);
    assert(text::stands_at(scalar_writer::CUBE@, line2, 84));
    text::law_line_holds_its_argument(scalar_writer::CUBE@, h2, 2, ";\n"@, 84, args);
    let h3 = "constexpr uint32_t "@ + "cube_dim_z"@ + " = "@;
    let line3 = h3 + text::placeholder(3) + ";\n"@;
    assert(scalar_writer::CUBE@.subrange(124, 160) =~= line3);
    assert(text::stands_at(scalar_writer::CUBE@, line3, 124));
    text::law_line_holds_its_argument(scalar_writer::CUBE@, h3, 3, ";\n"@, 124, args);
}

#[verifier::spinoff_prover]
#[verifier::rlimit(60)]
proof fn lemma_arguments_are_read(num_outputs: nat)
    ensures
        reads_argument(text::fill(scalar_writer::ARGUMENTS@, argument_places(num_outputs)), "num_tiles"@, num_outputs + 0),
        reads_argument(text::fill(scalar_writer::ARGUMENTS@, argument_places(num_outputs)), "start_tile"@, num_outputs + 1),
        reads_argument(text::fill(scalar_writer::ARGUMENTS@, argument_places(num_outputs)), "num_units"@, num_outputs + 2),
        reads_argument(text::fill(scalar_writer::ARGUMENTS@, argument_places(num_outputs)), "cube_count_x"@, num_outputs + 3),
        reads_argument(text::fill(scalar_writer::ARGUMENTS@, argument_places(num_outputs)), "cube_count_y"@, num_outputs + 4),
        reads_argument(text::fill(scalar_writer::ARGUMENTS@, argument_places(num_outputs)), "cube_count_z"@, num_outputs + 5),
{
    reveal_strlit("    uint32_t num_tiles = get_arg_val<uint32_t>($0);\n    uint32_t start_tile = get_arg_val<uint32_t>($1);\n    uint32_t num_units = get_arg_val<uint32_t>($2);\n    uint32_t cube_count_x = get_arg_val<uint32_t>($3);\n    uint32_t cube_count_y = get_arg_val<uint32_t>($4);\n    uint32_t cube_count_z = get_arg_val<uint32_t>($5);\n");
    reveal_strlit(" = get_arg_val<uint32_t>(");
    reveal_strlit(");\n");
    reveal_strlit("cube_count_x");
    reveal_strlit("cube_count_y");
    reveal_strlit("cube_count_z");
    reveal_strlit("num_tiles");
    reveal_strlit("num_units");
    reveal_strlit("start_tile");
    reveal_strlit("uint32_t ");
    let args = argument_places(num_outputs);
    let h0 = "uint32_t "@ + "num_tiles"@ + " = get_arg_val<uint32_t>("@;
    let line0 = h0 + text::placeholder(0) + ");\n"@;
    assert(scalar_writer::ARGUMENTS@.subrange(4, 52) =~= line0);
    assert(text::stands_at(scalar_writer::ARGUMENTS@, line0, 4));
    text::law_line_holds_its_argument(scalar_writer::ARGUMENTS@, h0, 0, ");\n"@, 4, args);
    let h1 = "uint32_t "@ + "start_tile"@ + " = get_arg_val<uint32_t>("@;
    let line1 = h1 + text::placeholder(1) + ");\n"@;
    assert(scalar_writer::ARGUMENTS@.subrange(56, 105) =~= line1);
    assert(text::stands_at(scalar_writer::ARGUMENTS@, line1, 56));
    text::law_line_holds_its_argument(scalar_writer::ARGUMENTS@, h1, 1, ");\n"@, 56, args);
    let h2 = "uint32_t "@ + "num_units"@ + " = get_arg_val<uint32_t>("@;
    let line2 = h2 + text::placeholder(2) + ");\n"@;
    assert(scalar_writer::ARGUMENTS@.subrange(109, 157) =~= line2);
    assert(text::stands_at(scalar_writer::ARGUMENTS@, line2, 109));
    text::law_line_holds_its_argument(scalar_writer::ARGUMENTS@, h2, 2, ");\n"@, 109, args);
    let h3 = "uint32_t "@ + "cube_count_x"@ + " = get_arg_val<uint32_t>("@;
    let line3 = h3 + text::placeholder(3) + ");\n"@;
    assert(scalar_writer::ARGUMENTS@.subrange(161, 212) =~= line3);
    assert(text::stands_at(scalar_writer::ARGUMENTS@, line3, 161));
    text::law_line_holds_its_argument(scalar_writer::ARGUMENTS@, h3, 3, ");\n"@, 161, args);
    let h4 = "uint32_t "@ + "cube_count_y"@ + " = get_arg_val<uint32_t>("@;
    let line4 = h4 + text::placeholder(4) + ");\n"@;
    assert(scalar_writer::ARGUMENTS@.subrange(216, 267) =~= line4);
    assert(text::stands_at(scalar_writer::ARGUMENTS@, line4, 216));
    text::law_line_holds_its_argument(scalar_writer::ARGUMENTS@, h4, 4, ");\n"@, 216, args);
    let h5 = "uint32_t "@ + "cube_count_z"@ + " = get_arg_val<uint32_t>("@;
    let line5 = h5 + text::placeholder(5) + ");\n"@;
    assert(scalar_writer::ARGUMENTS@.subrange(271, 322) =~= line5);
    assert(text::stands_at(scalar_writer::ARGUMENTS@, line5, 271));
    text::law_line_holds_its_argument(scalar_writer::ARGUMENTS@, h5, 5, ");\n"@, 271, args);
}

/// The scalar writer declares the extents of the kernel's cube and the number of units of a
/// tile as they are, each under its own name.
pub proof fn law_writer_declares_its_cube(kernel: ComputeKernel, num_inputs: nat, outputs: Seq<usize>, units: nat)
    ensures
        has_constant(
            scalar_writer::scalar_writer(kernel, num_inputs, outputs, units),
            "tile_units"@,
            units,
        ),
        has_constant(
            scalar_writer::scalar_writer(kernel, num_inputs, outputs, units),
            "cube_dim_x"@,
            kernel.cube_dim.x as nat,
        ),
        has_constant(
            scalar_writer::scalar_writer(kernel, num_inputs, outputs, units),
            "cube_dim_y"@,
            kernel.cube_dim.y as nat,
        ),
        has_constant(
            scalar_writer::scalar_writer(kernel, num_inputs, outputs, units),
            "cube_dim_z"@,
            kernel.cube_dim.z as nat,
        ),
{
    let source = scalar_writer::scalar_writer(kernel, num_inputs, outputs, units);
    let head = scalar_writer::writer_head(kernel, num_inputs, outputs.len(), units);
    let part = text::fill(scalar_writer::CUBE@, cube_extents(kernel, units));
    lemma_writer_has_its_sections(kernel, num_inputs, outputs, units);
    lemma_head_has_its_parts(kernel, num_inputs, outputs.len(), units);
    lemma_cube_is_declared(kernel, units);
    text::law_containment_is_transitive(source, head, part);
    text::law_containment_is_transitive(
        source,
        part,
        "constexpr uint32_t "@ + "tile_units"@ + " = "@ + text::dec(units) + ";\n"@,
    );
    text::law_containment_is_transitive(
        source,
        part,
        "constexpr uint32_t "@ + "cube_dim_x"@ + " = "@ + text::dec(kernel.cube_dim.x as nat) + ";\n"@,
    );
    text::law_containment_is_transitive(
        source,
        part,
        "constexpr uint32_t "@ + "cube_dim_y"@ + " = "@ + text::dec(kernel.cube_dim.y as nat) + ";\n"@,
    );
    text::law_containment_is_transitive(
        source,
        part,
        "constexpr uint32_t "@ + "cube_dim_z"@ + " = "@ + text::dec(kernel.cube_dim.z as nat) + ";\n"@,
    );
}

/// The scalar writer reads its numbers of tiles and units and the extents of the cube count
/// from the arguments behind the addresses of the outputs, in this order.
pub proof fn law_writer_reads_its_arguments(kernel: ComputeKernel, num_inputs: nat, outputs: Seq<usize>, units: nat)
    ensures
        reads_argument(
            scalar_writer::scalar_writer(kernel, num_inputs, outputs, units),
            "num_tiles"@,
            outputs.len() + 0,
        ),
        reads_argument(
            scalar_writer::scalar_writer(kernel, num_inputs, outputs, units),
            "start_tile"@,
            outputs.len() + 1,
        ),
        reads_argument(
            scalar_writer::scalar_writer(kernel, num_inputs, outputs, units),
            "num_units"@,
            outputs.len() + 2,
        ),
        reads_argument(
            scalar_writer::scalar_writer(kernel, num_inputs, outputs, units),
            "cube_count_x"@,
            outputs.len() + 3,
        ),
        reads_argument(
            scalar_writer::scalar_writer(kernel, num_inputs, outputs, units),
            "cube_count_y"@,
            outputs.len() + 4,
        ),
        reads_argument(
            scalar_writer::scalar_writer(kernel, num_inputs, outputs, units),
            "cube_count_z"@,
            outputs.len() + 5,
        ),
{
    let source = scalar_writer::scalar_writer(kernel, num_inputs, outputs, units);
    let head = scalar_writer::writer_head(kernel, num_inputs, outputs.len(), units);
    let part = text::fill(scalar_writer::ARGUMENTS@, argument_places(outputs.len()));
    lemma_writer_has_its_sections(kernel, num_inputs, outputs, units);
    lemma_head_has_its_parts(kernel, num_inputs, outputs.len(), units);
    lemma_arguments_are_read(outputs.len());
    text::law_containment_is_transitive(source, head, part);
    text::law_containment_is_transitive(
        source,
        part,
        "uint32_t "@ + "num_tiles"@ + " = get_arg_val<uint32_t>("@ + text::dec(outputs.len() + 0) + ");\n"@,
    );
    text::law_containment_is_transitive(
        source,
        part,
        "uint32_t "@ + "start_tile"@ + " = get_arg_val<uint32_t>("@ + text::dec(outputs.len() + 1) + ");\n"@,
    );
    text::law_containment_is_transitive(
        source,
        part,
        "uint32_t "@ + "num_units"@ + " = get_arg_val<uint32_t>("@ + text::dec(outputs.len() + 2) + ");\n"@,
    );
    text::law_containment_is_transitive(
        source,
        part,
        "uint32_t "@ + "cube_count_x"@ + " = get_arg_val<uint32_t>("@ + text::dec(outputs.len() + 3) + ");\n"@,
    );
    text::law_containment_is_transitive(
        source,
        part,
        "uint32_t "@ + "cube_count_y"@ + " = get_arg_val<uint32_t>("@ + text::dec(outputs.len() + 4) + ");\n"@,
    );
    text::law_containment_is_transitive(
        source,
        part,
        "uint32_t "@ + "cube_count_z"@ + " = get_arg_val<uint32_t>("@ + text::dec(outputs.len() + 5) + ");\n"@,
    );
}

proof fn lemma_unit_loop_has_its_parts(kernel: ComputeKernel)
    ensures
        text::contains(scalar_writer::unit_loop(kernel), scalar_writer::UNIT_LOOP@),
        text::contains(scalar_writer::unit_loop(kernel), scalar_writer::builtin_locals(kernel.indexes)),
        text::contains(scalar_writer::unit_loop(kernel), scalar_writer::local_arrays(kernel.body.local_arrays@, kernel.body.local_arrays.len() as nat)),
        text::contains(scalar_writer::unit_loop(kernel), scalar_writer::unit_body(warp::rendered_all(kernel.body.instructions@), scalar_writer::leaves_kernel(kernel.body.instructions@), kernel.body.instructions@.len())),
        text::contains(scalar_writer::unit_loop(kernel), scalar_writer::UNIT_LOOP_END@),
{
    let parts = seq![
        scalar_writer::UNIT_LOOP@,
        scalar_writer::builtin_locals(kernel.indexes),
        scalar_writer::local_arrays(kernel.body.local_arrays@, kernel.body.local_arrays.len() as nat),
        scalar_writer::unit_body(warp::rendered_all(kernel.body.instructions@), scalar_writer::leaves_kernel(kernel.body.instructions@), kernel.body.instructions@.len()),
        scalar_writer::UNIT_LOOP_END@,
    ];
    reveal_with_fuel(text::joined, 6);
    assert(text::joined(parts, 5) == scalar_writer::unit_loop(kernel));
    text::law_joined_parts_are_contained(parts, 5, 0);
    text::law_joined_parts_are_contained(parts, 5, 1);
    text::law_joined_parts_are_contained(parts, 5, 2);
    text::law_joined_parts_are_contained(parts, 5, 3);
    text::law_joined_parts_are_contained(parts, 5, 4);
}

proof fn lemma_tile_head_has_its_parts(kernel: ComputeKernel, num_inputs: nat, outputs: Seq<usize>)
    ensures
        text::contains(scalar_writer::tile_head(kernel, num_inputs, outputs), scalar_writer::TILE_LOOP@),
        text::contains(scalar_writer::tile_head(kernel, num_inputs, outputs), text::numbered(scalar_writer::WAIT_INPUT@, 0, num_inputs)),
        text::contains(scalar_writer::tile_head(kernel, num_inputs, outputs), text::given(scalar_writer::leaves_kernel(kernel.body.instructions@), scalar_writer::TERMINATE_FLAG@)),
        text::contains(scalar_writer::tile_head(kernel, num_inputs, outputs), text::numbered(scalar_writer::RESERVE_OUTPUT@, 0, outputs.len())),
        text::contains(scalar_writer::tile_head(kernel, num_inputs, outputs), text::numbered(scalar_writer::PREFILL@, 0, outputs.len())),
        text::contains(scalar_writer::tile_head(kernel, num_inputs, outputs), text::given(outputs.len() > 0, scalar_writer::READ_BARRIER@)),
        text::contains(scalar_writer::tile_head(kernel, num_inputs, outputs), scalar_writer::buffer_pointers(kernel.buffers@, outputs, kernel.buffers.len() as nat)),
        text::contains(scalar_writer::tile_head(kernel, num_inputs, outputs), scalar_writer::shared_memories(kernel.body.shared_memories@, kernel.body.shared_memories.len() as nat)),
        text::contains(scalar_writer::tile_head(kernel, num_inputs, outputs), scalar_writer::snapshots(warp::lowering(kernel.body.instructions@).snapshots, warp::lowering(kernel.body.instructions@).snapshots.len())),
{
    let parts = seq![
        scalar_writer::TILE_LOOP@,
        text::numbered(scalar_writer::WAIT_INPUT@, 0, num_inputs),
        text::given(scalar_writer::leaves_kernel(kernel.body.instructions@), scalar_writer::TERMINATE_FLAG@),
        text::numbered(scalar_writer::RESERVE_OUTPUT@, 0, outputs.len()),
        text::numbered(scalar_writer::PREFILL@, 0, outputs.len()),
        text::given(outputs.len() > 0, scalar_writer::READ_BARRIER@),
        scalar_writer::buffer_pointers(kernel.buffers@, outputs, kernel.buffers.len() as nat),
        scalar_writer::shared_memories(kernel.body.shared_memories@, kernel.body.shared_memories.len() as nat),
        scalar_writer::snapshots(warp::lowering(kernel.body.instructions@).snapshots, warp::lowering(kernel.body.instructions@).snapshots.len()),
    ];
    reveal_with_fuel(text::joined, 10);
    assert(text::joined(parts, 9) == scalar_writer::tile_head(kernel, num_inputs, outputs));
    text::law_joined_parts_are_contained(parts, 9, 0);
    text::law_joined_parts_are_contained(parts, 9, 1);
    text::law_joined_parts_are_contained(parts, 9, 2);
    text::law_joined_parts_are_contained(parts, 9, 3);
    text::law_joined_parts_are_contained(parts, 9, 4);
    text::law_joined_parts_are_contained(parts, 9, 5);
    text::law_joined_parts_are_contained(parts, 9, 6);
    text::law_joined_parts_are_contained(parts, 9, 7);
    text::law_joined_parts_are_contained(parts, 9, 8);
}

/// A declaration of the built-ins is one of the writer.
proof fn lemma_built_ins_are_declared(
    kernel: ComputeKernel,
    num_inputs: nat,
    outputs: Seq<usize>,
    units: nat,
)
    ensures
        text::contains(
            scalar_writer::scalar_writer(kernel, num_inputs, outputs, units),
            scalar_writer::builtin_locals(kernel.indexes),
        ),
{
    lemma_writer_has_its_sections(kernel, num_inputs, outputs, units);
    lemma_unit_loop_has_its_parts(kernel);
    text::law_containment_is_transitive(
        scalar_writer::scalar_writer(kernel, num_inputs, outputs, units),
        scalar_writer::unit_loop(kernel),
        scalar_writer::builtin_locals(kernel.indexes),
    );
}

/// In the scalar writer of a kernel every unit of every launch knows where it stands: the
/// places that it computes are those of the kernel's cube and the launch's cube count.
pub proof fn law_writer_places_its_units(
    kernel: ComputeKernel,
    num_inputs: nat,
    outputs: Seq<usize>,
    units: nat,
    names: Map<Seq<char>, int>,
    launch: Topology,
    unit: int,
)
    requires
        launch.wf(),
        launch.cube_dim == kernel.cube_dim,
        0 <= unit < launch.units(),
        are_names_of(names, launch, unit),
    ensures
        tells_where_units_are(
            scalar_writer::scalar_writer(kernel, num_inputs, outputs, units),
            kernel.indexes,
            names,
            launch,
            unit,
        ),
        has_constant(
            scalar_writer::scalar_writer(kernel, num_inputs, outputs, units),
            "cube_dim_x"@,
            launch.cube_dim.x as nat,
        ),
        has_constant(
            scalar_writer::scalar_writer(kernel, num_inputs, outputs, units),
            "cube_dim_y"@,
            launch.cube_dim.y as nat,
        ),
        has_constant(
            scalar_writer::scalar_writer(kernel, num_inputs, outputs, units),
            "cube_dim_z"@,
            launch.cube_dim.z as nat,
        ),
{
    let source = scalar_writer::scalar_writer(kernel, num_inputs, outputs, units);
    let part = scalar_writer::builtin_locals(kernel.indexes);
    let indexes = kernel.indexes;
    let cube = launch.cube_of(unit);
    let within = launch.unit_in_cube(unit);
    law_writer_declares_its_cube(kernel, num_inputs, outputs, units);
    lemma_built_ins_are_declared(kernel, num_inputs, outputs, units);
    law_units_know_where_they_are(indexes, names, launch, unit);
    if meaning::declares(part, "absolute_pos"@, names, unit) {
        meaning::law_parts_declare(source, part, "absolute_pos"@, names, unit);
    }
    if meaning::declares(part, "unit_pos"@, names, within) {
        meaning::law_parts_declare(source, part, "unit_pos"@, names, within);
    }
    if meaning::declares(part, "unit_pos_x"@, names, topology::along_x(within, launch.cube_dim)) {
        meaning::law_parts_declare(source, part, "unit_pos_x"@, names, topology::along_x(within, launch.cube_dim));
    }
    if meaning::declares(part, "unit_pos_y"@, names, topology::along_y(within, launch.cube_dim)) {
        meaning::law_parts_declare(source, part, "unit_pos_y"@, names, topology::along_y(within, launch.cube_dim));
    }
    if meaning::declares(part, "unit_pos_z"@, names, topology::along_z(within, launch.cube_dim)) {
        meaning::law_parts_declare(source, part, "unit_pos_z"@, names, topology::along_z(within, launch.cube_dim));
    }
    if meaning::declares(part, "cube_pos_x"@, names, topology::along_x(cube, launch.cube_count)) {
        meaning::law_parts_declare(source, part, "cube_pos_x"@, names, topology::along_x(cube, launch.cube_count));
    }
    if meaning::declares(part, "cube_pos_y"@, names, topology::along_y(cube, launch.cube_count)) {
        meaning::law_parts_declare(source, part, "cube_pos_y"@, names, topology::along_y(cube, launch.cube_count));
    }
    if meaning::declares(part, "cube_pos_z"@, names, topology::along_z(cube, launch.cube_count)) {
        meaning::law_parts_declare(source, part, "cube_pos_z"@, names, topology::along_z(cube, launch.cube_count));
    }
    if meaning::declares(part, "cube_pos"@, names, topology::along_x(cube, launch.cube_count)) {
        meaning::law_parts_declare(source, part, "cube_pos"@, names, topology::along_x(cube, launch.cube_count));
    }
    if meaning::declares(part, "cube_dim"@, names, launch.cube_dim.units()) {
        meaning::law_parts_declare(source, part, "cube_dim"@, names, launch.cube_dim.units());
    }
    if meaning::declares(part, "cube_count"@, names, launch.cube_count.units()) {
        meaning::law_parts_declare(source, part, "cube_count"@, names, launch.cube_count.units());
    }
    if meaning::declares(part, "plane_dim"@, names, 32) {
        meaning::law_parts_declare(source, part, "plane_dim"@, names, 32);
    }
    if meaning::declares(part, "unit_pos_plane"@, names, within % 32) {
        meaning::law_parts_declare(source, part, "unit_pos_plane"@, names, within % 32);
    }
    if meaning::declares(part, "plane_pos"@, names, within % 32) {
        meaning::law_parts_declare(source, part, "plane_pos"@, names, within % 32);
    }
    if meaning::declares(part, "cube_units"@, names, launch.cube_dim.units()) {
        meaning::law_parts_declare(source, part, "cube_units"@, names, launch.cube_dim.units());
    }
    if meaning::declares(part, "flat_cube_pos"@, names, cube) {
        meaning::law_parts_declare(source, part, "flat_cube_pos"@, names, cube);
    }
}

/// In the scalar writer of a kernel the tiles of a core follow each other, each holds the
/// units of the launch that fall into it, and the units follow each other within a tile.
pub proof fn law_writer_walks_over_all_units(
    kernel: ComputeKernel,
    num_inputs: nat,
    outputs: Seq<usize>,
    room: nat,
    names: Map<Seq<char>, int>,
    start: int,
    behind: int,
    units: int,
    at: int,
)
    requires
        are_names_of_tile(names, start, behind, room as int, units),
        names["i"@] == at,
        0 <= at,
        (start + behind) * room + at <= u32::MAX,
    ensures
        ({
            let source = scalar_writer::scalar_writer(kernel, num_inputs, outputs, room);
            let tile = start + behind;
            &&& meaning::declares(source, "global_tile_idx"@, names, tile)
            &&& meaning::declares(source, "tile_start_unit"@, names, tile * room)
            &&& meaning::declares(
                source,
                "tile_unit_count"@,
                names,
                held_units(tile, room as int, units),
            )
            &&& meaning::declares(source, "unit_idx"@, names, tile * room + at)
            &&& has_constant(source, "tile_units"@, room)
        }),
{
    let source = scalar_writer::scalar_writer(kernel, num_inputs, outputs, room);
    let head = scalar_writer::tile_head(kernel, num_inputs, outputs);
    let body = scalar_writer::unit_loop(kernel);
    let tile = start + behind;
    law_writer_declares_its_cube(kernel, num_inputs, outputs, room);
    lemma_writer_has_its_sections(kernel, num_inputs, outputs, room);
    lemma_tile_head_has_its_parts(kernel, num_inputs, outputs);
    lemma_unit_loop_has_its_parts(kernel);
    text::law_containment_is_transitive(source, head, scalar_writer::TILE_LOOP@);
    text::law_containment_is_transitive(source, body, scalar_writer::UNIT_LOOP@);
    lemma_global_tile_idx(names, start, behind, room as int, units);
    lemma_tile_start_unit(names, start, behind, room as int, units);
    lemma_tile_unit_count(names, start, behind, room as int, units);
    lemma_unit_idx(names, start, behind, room as int, units, at);
    meaning::law_parts_declare(source, scalar_writer::TILE_LOOP@, "global_tile_idx"@, names, tile);
    meaning::law_parts_declare(
        source,
        scalar_writer::TILE_LOOP@,
        "tile_start_unit"@,
        names,
        tile * room,
    );
    meaning::law_parts_declare(
        source,
        scalar_writer::TILE_LOOP@,
        "tile_unit_count"@,
        names,
        held_units(tile, room as int, units),
    );
    meaning::law_parts_declare(
        source,
        scalar_writer::UNIT_LOOP@,
        "unit_idx"@,
        names,
        tile * room + at,
    );
}

} // verus!
