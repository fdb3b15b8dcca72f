use tt_metal::bundle::{
    BindingInfo, KernelInfo, MetaliumCompilationOptions, MetaliumCompiler, MetaliumSourceBundle,
    ScalarInfo,
};
use tt_metal::device::DeviceId;
use tt_metal::ir::{CubeDim, Visibility};
use tt_metal::metalium::{
    info_bytes, ordered_bytes, resolve_cube_count, resolve_cube_count_in, MetaliumBridge,
    MetaliumCubeCount, MetaliumDevice, MetaliumError, MetaliumLaunchDescriptor, MetaliumRead,
    MetaliumRuntime, MetaliumServer, UnavailableBridge,
};

fn binding(id: u32, visibility: Visibility, ty: &str) -> BindingInfo {
    BindingInfo {
        id,
        visibility,
        ty: ty.to_string(),
    }
}

fn sample_kernel() -> KernelInfo {
    KernelInfo {
        name: "axpy_like".to_string(),
        buffers: vec![
            binding(0, Visibility::Read, "bf16"),
            binding(1, Visibility::ReadWrite, "bf16"),
        ],
        tensor_maps: vec![],
        scalars: vec![ScalarInfo {
            ty: "u32".to_string(),
            count: 2,
        }],
        cube_dim: CubeDim { x: 8, y: 4, z: 1 },
    }
}

fn empty_kernel() -> KernelInfo {
    KernelInfo {
        name: "test".to_string(),
        buffers: vec![],
        tensor_maps: vec![],
        scalars: vec![],
        cube_dim: CubeDim { x: 1, y: 1, z: 1 },
    }
}

fn compiled(kernel: &KernelInfo, include_host_stub: bool) -> MetaliumSourceBundle {
    MetaliumCompiler.compile(
        kernel,
        &MetaliumCompilationOptions { include_host_stub },
        "Checked",
        "u32",
    )
}

#[test]
fn emits_bundle_sections() {
    let bundle = compiled(&sample_kernel(), true);

    assert!(bundle.host_source().unwrap().contains("CreateProgram"));
    assert!(bundle.reader_source().unwrap().contains("Buffer 0"));
    assert!(bundle.compute_source().unwrap().contains("Scalar group 0"));
    assert!(bundle
        .writer_source()
        .unwrap()
        .contains("Writable buffer 1"));
    assert!(bundle.to_text().contains("TT-Metalium source bundle"));
}

#[test]
fn the_reader_of_a_bundle() {
    let mut kernel = sample_kernel();
    kernel.tensor_maps = vec![binding(5, Visibility::Read, "f32")];
    let bundle = compiled(&kernel, true);
    let expected = "#include <cstdint>
#include \"api/dataflow/dataflow_api.h\"

void kernel_main() {
    // Reader scaffold for `axpy_like`.
    // TODO: Lower CubeCL buffer/tensor-map reads into TT-Metalium DRAM -> L1 or circular-buffer transfers.
    // Buffer 0: id=0, visibility=read, type=bf16
    // Buffer 1: id=1, visibility=read_write, type=bf16
    // Tensor map 0: id=5, visibility=read, type=f32
    // Suggested next step: group contiguous reads into page- or tile-sized transfers and push them into circular buffers.
}
";
    assert_eq!(bundle.reader_source().unwrap(), expected);
    assert_eq!(bundle.notes.len(), 7);
    assert!(bundle.notes[6].contains("Tensor-map bindings"));
}

#[test]
fn the_host_program_is_left_out_where_it_is_not_asked_for() {
    let bundle = compiled(&sample_kernel(), false);
    assert!(bundle.host_source().is_none());
    assert_eq!(bundle.sections.len(), 3);
    assert!(bundle.section("reader").is_some());
    assert!(bundle.section("nothing").is_none());
    assert!(MetaliumCompilationOptions::default().include_host_stub);
    assert_eq!(MetaliumCompiler.extension(), "ttmetal.cpp");
}

#[test]
fn notes_say_what_the_kernel_has() {
    let bundle = compiled(&sample_kernel(), true);
    assert_eq!(bundle.notes.len(), 6);
    assert_eq!(
        bundle.notes[2],
        "Kernel uses 2 buffer bindings, 0 tensor-map bindings, and 1 scalar groups."
    );
    assert_eq!(
        bundle.notes[3],
        "Cube dimensions are (8, 4, 1); TT core mapping must be chosen by the runtime/program builder."
    );
    assert_eq!(bundle.notes[4], "Execution mode during compilation: Checked.");
    assert_eq!(bundle.notes[5], "Kernel address type: u32.");
    let text = bundle.to_text();
    assert!(text.starts_with("// TT-Metalium source bundle for `axpy_like`\n// Notes:\n// - CubeCL"));
    assert!(text.contains("// - Kernel address type: u32.\n\n// ===== host =====\n#include"));
    let host = text.find("// ===== host =====").unwrap();
    let reader = text.find("// ===== reader =====").unwrap();
    let compute = text.find("// ===== compute =====").unwrap();
    let writer = text.find("// ===== writer =====").unwrap();
    assert!(host < reader && reader < compute && compute < writer);
    assert!(compiled(&empty_kernel(), true)
        .compute_source()
        .unwrap()
        .contains("No scalar groups were captured for this kernel."));
    let copy = bundle.duplicate();
    assert_eq!(copy.to_text(), text);
}

#[test]
fn launch_surfaces_missing_bridge() {
    let mut server = MetaliumServer::new(UnavailableBridge);
    server.launch(
        1,
        "test".to_string(),
        &MetaliumCubeCount::Static(1, 1, 1),
        Ok(compiled(&empty_kernel(), true)),
        0,
        0,
        None,
    );

    let result = server.ensure_healthy();
    assert!(result.is_err());
    assert_eq!(
        result.unwrap_err().reason(),
        "TT-Metalium bundle for `test` was generated, but no host API bridge is linked yet. Next step: connect this launch path to a `cxx` bridge over `tt_metal::Program`, `CreateKernel`, buffer setup, and command queue submission.\n\nGenerated sections: host, reader, compute, writer"
    );
}

#[derive(Debug)]
struct RecordingBridge {
    launches: Vec<MetaliumLaunchDescriptor>,
    refuse: bool,
}

impl MetaliumBridge for RecordingBridge {
    fn submit(&mut self, launch: MetaliumLaunchDescriptor) -> Result<(), MetaliumError> {
        self.launches.push(launch);
        if self.refuse {
            Err(MetaliumError::Launch("refused".to_string()))
        } else {
            Ok(())
        }
    }
}

fn recording() -> MetaliumServer<RecordingBridge> {
    MetaliumServer::new(RecordingBridge {
        launches: vec![],
        refuse: false,
    })
}

#[test]
fn launches_are_handed_to_the_bridge() {
    let mut server = recording();
    server.launch(
        1,
        "first".to_string(),
        &MetaliumCubeCount::Static(2, 3, 4),
        Ok(compiled(&sample_kernel(), true)),
        5,
        6,
        None,
    );
    assert!(server.ensure_healthy().is_ok());
    assert!(server.is_compiled(1));
    // A kernel that was compiled before is not compiled again.
    server.launch(
        1,
        "first".to_string(),
        &MetaliumCubeCount::Static(1, 1, 1),
        Err("never used".to_string()),
        0,
        0,
        None,
    );
    assert!(server.ensure_healthy().is_ok());
    let launch = &server.bridge.launches[0];
    assert_eq!(launch.kernel_id, 1);
    assert_eq!(launch.kernel_name, "first");
    assert_eq!(launch.cube_count, [2, 3, 4]);
    assert_eq!((launch.buffer_count, launch.tensor_map_count), (5, 6));
    assert_eq!(launch.source_bundle.kernel_name, "axpy_like");
    let again = &server.bridge.launches[1];
    assert_eq!(again.source_bundle.kernel_name, "axpy_like");

    server.bridge.refuse = true;
    server.launch(
        1,
        "first".to_string(),
        &MetaliumCubeCount::Static(1, 1, 1),
        Err("never used".to_string()),
        0,
        0,
        None,
    );
    assert_eq!(server.ensure_healthy().unwrap_err().reason(), "refused");
    // A server with an error hands nothing on.
    server.launch(
        2,
        "second".to_string(),
        &MetaliumCubeCount::Static(1, 1, 1),
        Ok(compiled(&sample_kernel(), true)),
        0,
        0,
        None,
    );
    assert_eq!(server.bridge.launches.len(), 3);
    assert!(!server.is_compiled(2));
}

#[test]
fn launches_are_stopped_before_the_bridge() {
    let mut server = recording();
    server.launch(
        1,
        "kernel".to_string(),
        &MetaliumCubeCount::Dynamic(Ok(vec![0; 11])),
        Ok(compiled(&sample_kernel(), true)),
        0,
        0,
        None,
    );
    assert_eq!(
        server.ensure_healthy().unwrap_err().reason(),
        "Dynamic cube-count buffer must contain at least 3 u32 values"
    );
    assert!(!server.is_compiled(1));

    let mut server = recording();
    server.launch(
        1,
        "kernel".to_string(),
        &MetaliumCubeCount::Static(1, 1, 1),
        Err("no such type".to_string()),
        0,
        0,
        None,
    );
    assert_eq!(server.ensure_healthy().unwrap_err().reason(), "no such type");
    assert!(server.bridge.launches.is_empty());
}

#[test]
fn dynamic_counts_are_read_in_the_order_of_the_machine() {
    let mut bytes = Vec::new();
    for word in [7u32, 0x0102_0304, 9, 77] {
        bytes.extend(word.to_ne_bytes());
    }
    assert_eq!(
        resolve_cube_count(&MetaliumCubeCount::Dynamic(Ok(bytes))).unwrap(),
        [7, 0x0102_0304, 9]
    );
    assert!(matches!(
        resolve_cube_count(&MetaliumCubeCount::Dynamic(Err("gone".to_string()))),
        Err(MetaliumError::Resource(reason)) if reason == "gone"
    ));
}

#[test]
fn blocks_are_written_and_read_in_either_order() {
    let words = vec![0x0102_0304_0506_0708u64, 9];
    assert_eq!(
        ordered_bytes(&words, true),
        vec![8, 7, 6, 5, 4, 3, 2, 1, 9, 0, 0, 0, 0, 0, 0, 0]
    );
    assert_eq!(
        ordered_bytes(&words, false),
        vec![1, 2, 3, 4, 5, 6, 7, 8, 0, 0, 0, 0, 0, 0, 0, 9]
    );
    let count = MetaliumCubeCount::Dynamic(Ok(vec![1, 2, 3, 4, 7, 0, 0, 0, 0, 0, 0, 255]));
    assert_eq!(
        resolve_cube_count_in(&count, true).unwrap(),
        [0x0403_0201, 7, 0xff00_0000]
    );
    assert_eq!(
        resolve_cube_count_in(&count, false).unwrap(),
        [0x0102_0304, 0x0700_0000, 255]
    );
}

#[test]
fn a_lost_info_block_is_kept_but_stops_no_launch() {
    let mut server = recording();
    server.launch(
        1,
        "kernel".to_string(),
        &MetaliumCubeCount::Static(1, 1, 1),
        Ok(compiled(&sample_kernel(), true)),
        0,
        0,
        Some("gone".to_string()),
    );
    assert_eq!(server.bridge.launches.len(), 1);
    assert_eq!(server.ensure_healthy().unwrap_err().reason(), "gone");

    let mut server = recording();
    server.bridge.refuse = true;
    server.launch(
        1,
        "kernel".to_string(),
        &MetaliumCubeCount::Static(1, 1, 1),
        Ok(compiled(&sample_kernel(), true)),
        0,
        0,
        Some("gone".to_string()),
    );
    assert_eq!(server.ensure_healthy().unwrap_err().reason(), "refused");
}

#[test]
fn parts_behind_a_refused_part_are_not_looked_at() {
    let huge = || MetaliumRead {
        shape: vec![1, usize::MAX, usize::MAX],
        strides: vec![1, 1, 1],
        resource: Ok(vec![]),
        size: 9,
    };
    let mut server = recording();
    let error = server
        .read(&vec![part(vec![3, 1], Err("gone".to_string()), 1), huge()])
        .unwrap_err();
    assert_eq!(error.reason(), "gone");
    assert!(!server.admit_write(&vec![2, 3], &vec![4, 1], None));
    assert_eq!(
        server.read(&vec![huge()]).unwrap_err().reason(),
        "unsupported strides"
    );
    assert!(!server.admit_write(&vec![1, usize::MAX, usize::MAX], &vec![1, 1, 1], None));
}

#[test]
fn info_is_written_in_the_order_of_the_machine() {
    let words = vec![0x0102_0304_0506_0708u64, 9];
    let mut expected = Vec::new();
    for word in &words {
        expected.extend(word.to_ne_bytes());
    }
    assert_eq!(info_bytes(&words), expected);
    assert_eq!(info_bytes(&vec![]), Vec::<u8>::new());
}

fn part(strides: Vec<usize>, resource: Result<Vec<u8>, String>, size: usize) -> MetaliumRead {
    MetaliumRead {
        shape: vec![2, 3],
        strides,
        resource,
        size,
    }
}

#[test]
fn the_used_bytes_are_read() {
    let server = recording();
    let bytes = server
        .read(&vec![
            part(vec![3, 1], Ok(vec![1, 2, 3, 4]), 3),
            part(vec![3, 1], Ok(vec![5]), 1),
        ])
        .unwrap();
    assert_eq!(bytes, vec![vec![1, 2, 3], vec![5]]);
    let error = server
        .read(&vec![
            part(vec![3, 1], Ok(vec![1]), 1),
            part(vec![1, 2], Err("gone".to_string()), 1),
        ])
        .unwrap_err();
    assert!(matches!(error, MetaliumError::UnsupportedStrides));
    let error = server
        .read(&vec![part(vec![3, 1], Err("gone".to_string()), 1)])
        .unwrap_err();
    assert_eq!(error.reason(), "gone");
}

#[test]
fn refused_writes_leave_an_error() {
    let mut server = recording();
    assert!(server.admit_write(&vec![2, 3], &vec![3, 1], None));
    assert!(server.ensure_healthy().is_ok());
    assert!(!server.admit_write(&vec![2, 3], &vec![4, 1], None));
    assert_eq!(
        server.ensure_healthy().unwrap_err().reason(),
        "unsupported strides"
    );
    assert!(!server.admit_write(&vec![2, 3], &vec![3, 1], None));
    assert_eq!(
        server.read(&vec![]).unwrap_err().reason(),
        "unsupported strides"
    );
    let mut server = recording();
    assert!(!server.admit_write(&vec![2, 3], &vec![3, 1], Some("gone".to_string())));
    assert_eq!(server.staging().reason(), "gone");
    assert_eq!(
        recording().staging().reason(),
        "unsupported I/O operation"
    );
}

#[test]
fn the_runtime_of_bundles() {
    assert_eq!(MetaliumRuntime::name(), "metalium");
    assert!(MetaliumRuntime::require_array_lengths());
    assert_eq!(MetaliumRuntime::max_cube_count(), (65535, 65535, 1));
    assert!(MetaliumRuntime::can_read_tensor(&vec![], &vec![]));
    assert!(MetaliumRuntime::can_read_tensor(
        &vec![2, 3, 4],
        &vec![12, 4, 1]
    ));
    assert!(!MetaliumRuntime::can_read_tensor(
        &vec![2, 3, 4],
        &vec![16, 4, 1]
    ));
    assert!(!MetaliumRuntime::can_read_tensor(&vec![2, 3], &vec![1]));
    assert_eq!(
        MetaliumRuntime::enumerate_devices(),
        vec![DeviceId {
            type_id: 0,
            index_id: 0
        }]
    );
    let hardware = MetaliumRuntime::hardware_properties();
    assert_eq!(hardware.load_width, 64);
    assert_eq!(hardware.max_shared_memory_size, 1024 * 1024);
    assert_eq!(hardware.min_tensor_cores_dim, Some(32));
    let memory = MetaliumRuntime::memory_properties();
    assert_eq!(memory.max_page_size, 128 * 1024 * 1024);
    assert_eq!(memory.alignment, 64);
    let info = MetaliumRuntime::info();
    assert_eq!(info.bridge_name, "unavailable");
    assert!(!info.ffi_available);
    let device = MetaliumDevice::from_id(DeviceId {
        type_id: 4,
        index_id: 9,
    });
    assert_eq!(device.device_id, 9);
    assert_eq!(MetaliumDevice::from_id(device.to_id()), device);
    assert_eq!(device.to_id().type_id, 0);
}
