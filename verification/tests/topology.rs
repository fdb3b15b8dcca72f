use tt_metal::ir::CubeDim;
use tt_metal::topology::{
    kernel_absolute_pos, kernel_axis_components, kernel_axis_components_2d,
    kernel_cube_components_3d, Topology,
};

fn topology(cube_count: (u32, u32, u32), cube_dim: (u32, u32, u32)) -> Topology {
    Topology {
        cube_count: CubeDim {
            x: cube_count.0,
            y: cube_count.1,
            z: cube_count.2,
        },
        cube_dim: CubeDim {
            x: cube_dim.0,
            y: cube_dim.1,
            z: cube_dim.2,
        },
    }
}

fn run_topology_axis_components_case(
    cube_count: (u32, u32, u32),
    cube_dim: (u32, u32, u32),
    length: u32,
) {
    let topology = topology(cube_count, cube_dim);
    let mut actual_absolute = vec![u32::MAX; length as usize];
    let mut actual_cube = vec![u32::MAX; length as usize];
    let mut actual_unit = vec![u32::MAX; length as usize];
    kernel_axis_components(
        &topology,
        &mut actual_absolute,
        &mut actual_cube,
        &mut actual_unit,
    );

    let expect_absolute: Vec<u32> = (0..length).collect();
    let expect_cube: Vec<u32> = (0..length).map(|index| index / cube_dim.0).collect();
    let expect_unit: Vec<u32> = (0..length).map(|index| index % cube_dim.0).collect();

    assert_eq!(actual_absolute, expect_absolute);
    assert_eq!(actual_cube, expect_cube);
    assert_eq!(actual_unit, expect_unit);
}

fn run_topology_axis_components_2d_case(cube_dim: (u32, u32, u32), length: u32) {
    let topology = topology((1, 1, 1), cube_dim);
    let mut actual_absolute = vec![u32::MAX; length as usize];
    let mut actual_unit_x = vec![u32::MAX; length as usize];
    let mut actual_unit_y = vec![u32::MAX; length as usize];
    kernel_axis_components_2d(
        &topology,
        &mut actual_absolute,
        &mut actual_unit_x,
        &mut actual_unit_y,
    );

    let expect_absolute: Vec<u32> = (0..length).collect();
    let expect_unit_x: Vec<u32> = (0..length).map(|index| index % cube_dim.0).collect();
    let expect_unit_y: Vec<u32> = (0..length)
        .map(|index| (index / cube_dim.0) % cube_dim.1)
        .collect();

    assert_eq!(actual_absolute, expect_absolute);
    assert_eq!(actual_unit_x, expect_unit_x);
    assert_eq!(actual_unit_y, expect_unit_y);
}

fn run_absolute_pos_case(cube_count: (u32, u32, u32), cube_dim: (u32, u32, u32)) {
    let length = cube_count.0 * cube_count.1 * cube_count.2 * cube_dim.0 * cube_dim.1 * cube_dim.2;
    let mut actual = vec![u32::MAX; length as usize];
    kernel_absolute_pos(&topology(cube_count, cube_dim), &mut actual);
    let expect: Vec<u32> = (0..length).collect();
    assert_eq!(actual, expect);
}

#[test]
fn test_kernel_topology_absolute_pos() {
    run_absolute_pos_case((3, 5, 7), (16, 16, 1));
}

#[test]
fn test_kernel_topology_absolute_pos_linearized() {
    run_absolute_pos_case((105, 1, 1), (256, 1, 1));
}

#[test]
fn test_kernel_topology_axis_components_linearized() {
    run_topology_axis_components_case((105, 1, 1), (256, 1, 1), 105 * 256);
}

#[test]
fn test_kernel_topology_axis_components_linearized_tail() {
    run_topology_axis_components_case((5, 1, 1), (64, 1, 1), 5 * 64 - 13);
}

#[test]
fn test_kernel_topology_axis_components_2d_single_cube() {
    run_topology_axis_components_2d_case((12, 3, 1), 12 * 3);
}

#[test]
fn test_kernel_topology_axis_components_2d_single_cube_tail() {
    run_topology_axis_components_2d_case((12, 3, 1), 12 * 3 - 5);
}

#[test]
fn test_kernel_topology_cube_components_3d() {
    let cube_count = (3, 5, 7);
    let cube_dim = (4, 2, 1);
    let length = cube_count.0 * cube_count.1 * cube_count.2 * cube_dim.0 * cube_dim.1 * cube_dim.2;
    let mut actual_cube_x = vec![u32::MAX; length as usize];
    let mut actual_cube_y = vec![u32::MAX; length as usize];
    let mut actual_cube_z = vec![u32::MAX; length as usize];
    kernel_cube_components_3d(
        &topology(cube_count, cube_dim),
        &mut actual_cube_x,
        &mut actual_cube_y,
        &mut actual_cube_z,
    );

    let cube_units = cube_dim.0 * cube_dim.1 * cube_dim.2;
    let expect_cube_x: Vec<u32> = (0..length)
        .map(|index| (index / cube_units) % cube_count.0)
        .collect();
    let expect_cube_y: Vec<u32> = (0..length)
        .map(|index| ((index / cube_units) / cube_count.0) % cube_count.1)
        .collect();
    let expect_cube_z: Vec<u32> = (0..length)
        .map(|index| (index / cube_units) / (cube_count.0 * cube_count.1))
        .collect();

    assert_eq!(actual_cube_x, expect_cube_x);
    assert_eq!(actual_cube_y, expect_cube_y);
    assert_eq!(actual_cube_z, expect_cube_z);
}

#[test]
fn elements_beyond_the_units_keep_their_values() {
    let mut output = vec![7u32; 6];
    kernel_absolute_pos(&topology((2, 1, 1), (2, 1, 1)), &mut output);
    assert_eq!(output, vec![0, 1, 2, 3, 7, 7]);
}

#[test]
fn a_launch_without_cubes_has_no_units() {
    let empty = topology((3, 0, 5), (4, 4, 4));
    assert_eq!(empty.num_units(), 0);
    let mut output = vec![9u32; 3];
    kernel_absolute_pos(&empty, &mut output);
    assert_eq!(output, vec![9, 9, 9]);
}

#[test]
fn units_are_found_again_from_their_positions() {
    let topology = topology((3, 4, 2), (5, 2, 3));
    assert_eq!(topology.num_units(), 720);
    for unit in 0..topology.num_units() {
        let cube = topology.cube_pos(unit);
        let place = topology.unit_pos(unit);
        let cube_number = (cube.z * 4 + cube.y) * 3 + cube.x;
        let unit_number = (place.z * 2 + place.y) * 5 + place.x;
        assert_eq!(cube_number * 30 + unit_number, unit);
        assert_eq!(place.x, unit % 5);
        assert_eq!(place.y, (unit / 5) % 2);
    }
}
