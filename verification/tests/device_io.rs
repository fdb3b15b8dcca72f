use tt_metal::command::{
    adapt_launch, bridge_prepared_launch, check_read, check_write, finish_output,
    is_native_block_float_format, launch_target_for_resources, logical_host_elem_size_bytes,
    pad_input, plan_temps, read_resource_bytes, write_resource_bytes, write_to_cpu, write_to_gpu,
    BridgeError, IoError, LaunchPhase, TempBuffer, TempPlan, Tilization, Transfer, TtLaunchTarget,
};
use tt_metal::ir::Visibility;
use tt_metal::kernel::{TtIoDataLayout, TtKernelSources};
use tt_metal::launch::{PreparedLaunch, RuntimeBinding};
use tt_metal::runtime::TT_DEFAULT_BUFFER_PAGE_SIZE_BYTES;
use tt_metal::storage::{StorageHandle, TtBufferLayout, TtResource, TtStorage};

fn resource(offset: u64, size: u64, allocation_size: u64) -> TtResource {
    TtResource {
        storage_id: 3,
        owner_stream: 0,
        address: 0x100,
        size,
        allocation_size,
        allocation_offset: offset,
        compile_args: vec![2, 2048],
        layout: TtBufferLayout::Replicated,
    }
}

fn sharded() -> TtResource {
    TtResource {
        layout: TtBufferLayout::Sharded,
        ..resource(0, 8, 2048)
    }
}

#[test]
fn padded_allocation_io_preserves_logical_size() {
    let input = (0u8..24).collect::<Vec<_>>();
    let mut storage = TtStorage::new();
    let size = input.len() as u64;
    let allocation_size = storage.aligned_size(size);
    let handle = storage.insert(size, 0x400, allocation_size, vec![2, 2048]);
    let resource = storage.get(&handle);

    assert_eq!(resource.size, input.len() as u64);
    assert!(resource.allocation_size >= TT_DEFAULT_BUFFER_PAGE_SIZE_BYTES);

    assert!(check_write(&resource, size).unwrap());
    let allocation =
        write_resource_bytes(&resource, vec![0; allocation_size as usize], &input);
    assert_eq!(allocation.len() as u64, allocation_size);
    assert!(check_read(&resource, size).is_ok());
    let output = read_resource_bytes(&resource, &allocation, input.len());
    assert_eq!(output.len(), input.len());
    assert_eq!(output, input);
}

#[test]
fn buffers_consist_of_whole_pages() {
    let storage = TtStorage::new();
    assert_eq!(storage.alignment(), 32);
    assert_eq!(storage.aligned_size(0), 0);
    assert_eq!(storage.aligned_size(1), 2048);
    assert_eq!(storage.aligned_size(2048), 2048);
    assert_eq!(storage.aligned_size(2049), 4096);
}

#[test]
fn handles_name_parts_of_buffers() {
    let mut storage = TtStorage::new();
    let first = storage.insert(10, 0x1000, 2048, vec![2, 2048]);
    let second = storage.insert(20, 0x2000, 4096, vec![3, 2048]);
    assert_ne!(first.id, second.id);
    assert_eq!(storage.get_layout(second.id), TtBufferLayout::Replicated);
    let part = storage.get(&StorageHandle {
        id: second.id,
        offset: 64,
        size: 8,
    });
    assert_eq!(part.storage_id, second.id);
    assert_eq!(part.address, 0x2040);
    assert_eq!(part.size, 8);
    assert_eq!(part.allocation_size, 4096);
    assert_eq!(part.allocation_offset, 64);
    assert_eq!(part.compile_args, vec![3, 2048]);
    storage.dealloc(first.id);
    assert_eq!(storage.get(&second).address, 0x2000);
    let third = storage.insert(1, 0x3000, 2048, vec![]);
    assert_ne!(third.id, first.id);
}

#[test]
fn writes_change_only_their_bytes() {
    let part = resource(3, 4, 10);
    let written = write_resource_bytes(&part, (0u8..10).collect(), &vec![90, 91, 92]);
    assert_eq!(written, vec![0, 1, 2, 90, 91, 92, 6, 7, 8, 9]);
    assert_eq!(read_resource_bytes(&part, &written, 3), vec![90, 91, 92]);
    assert_eq!(read_resource_bytes(&part, &written, 4), vec![90, 91, 92, 6]);
}

#[test]
fn only_whole_writes_need_not_read_first() {
    assert_eq!(check_write(&resource(0, 2048, 2048), 2048), Ok(false));
    assert_eq!(check_write(&resource(0, 2048, 2048), 2047), Ok(true));
    assert_eq!(check_write(&resource(8, 16, 2048), 16), Ok(true));
}

#[test]
fn transfers_are_refused_with_their_reasons() {
    assert_eq!(
        check_read(&resource(0, 8, 2048), 9),
        Err(IoError::ReadTooLong { asked: 9, size: 8 })
    );
    assert_eq!(
        check_read(&resource(0, 8, 2048), 9).unwrap_err().reason(),
        "read_resource_bytes: logical read 9 exceeds resource size 8"
    );
    assert_eq!(
        check_write(&resource(0, 8, 2048), 9).unwrap_err().reason(),
        "write_resource_bytes: logical write 9 exceeds resource size 8"
    );
    assert_eq!(
        check_read(&sharded(), 1).unwrap_err(),
        IoError::NotReplicated(Transfer::ReadResource)
    );
    assert_eq!(
        check_write(&sharded(), 1).unwrap_err().reason(),
        "write_resource_bytes only supports replicated TT buffers today"
    );
    assert_eq!(
        write_to_cpu(&sharded(), &vec![2], 4).unwrap_err().reason(),
        "write_to_cpu only supports replicated TT buffers today"
    );
    assert_eq!(
        write_to_gpu(&sharded(), &vec![2], &vec![1], 4, 8)
            .unwrap_err()
            .reason(),
        "write_to_gpu only supports replicated TT buffers today"
    );
}

#[test]
fn tensors_are_copied_to_the_device() {
    let whole = resource(0, 48, 2048);
    assert_eq!(
        write_to_gpu(&whole, &vec![3, 4], &vec![4, 1], 4, 48),
        Ok((48, true))
    );
    // Rows may be padded.
    assert_eq!(
        write_to_gpu(&whole, &vec![3, 4], &vec![8, 1], 4, 60),
        Ok((48, true))
    );
    assert_eq!(
        write_to_gpu(&whole, &vec![3, 4], &vec![1, 3], 4, 48),
        Err(IoError::UnsupportedStrides)
    );
    let short = write_to_gpu(&whole, &vec![3, 4], &vec![4, 1], 4, 47).unwrap_err();
    assert_eq!(short.reason(), "write_to_gpu: data size 47 < expected 48");
    assert_eq!(
        write_to_gpu(&resource(0, 40, 2048), &vec![3, 4], &vec![4, 1], 4, 48),
        Err(IoError::WriteTooLong {
            asked: 48,
            size: 40
        })
    );
}

#[test]
fn tensors_are_copied_to_the_host() {
    assert_eq!(write_to_cpu(&resource(0, 48, 2048), &vec![3, 4], 4), Ok(48));
    assert_eq!(write_to_cpu(&resource(0, 48, 2048), &vec![], 4), Ok(4));
    assert_eq!(
        write_to_cpu(&resource(0, 40, 2048), &vec![3, 4], 4),
        Err(IoError::ReadTooLong {
            asked: 48,
            size: 40
        })
    );
}

#[test]
fn launches_run_on_replicated_buffers() {
    assert_eq!(
        launch_target_for_resources(&vec![resource(0, 8, 2048)]),
        Ok(TtLaunchTarget::FullMesh)
    );
    let refused = launch_target_for_resources(&vec![resource(0, 8, 2048), sharded()]);
    assert_eq!(refused, Err(BridgeError::Sharded));
    assert_eq!(
        refused.unwrap_err().reason(),
        "TT-Metal sharded/distributed buffer layouts are not launchable yet"
    );
}

fn prepared(sources: TtKernelSources, visibilities: Vec<Visibility>) -> PreparedLaunch {
    PreparedLaunch {
        sources,
        input_addrs: vec![1],
        output_addrs: vec![2],
        bindings: visibilities
            .into_iter()
            .map(|visibility| RuntimeBinding {
                visibility,
                address: 1,
                logical_size_bytes: 24,
                allocation_size_bytes: 2048,
                compile_args: vec![],
                item_size_bytes: 4,
            })
            .collect(),
    }
}

fn copy_of(num_tiles: u32, tile_size: u32, format: u8) -> PreparedLaunch {
    prepared(
        TtKernelSources::copy_kernel_with_format(num_tiles, tile_size, format, 4),
        vec![Visibility::Read, Visibility::ReadWrite],
    )
}

#[test]
fn tiled_launches_are_bridged() {
    let bridge = bridge_prepared_launch(&copy_of(3, 4096, 0), 2)
        .unwrap()
        .unwrap();
    assert_eq!(bridge.row_major_rows, 32);
    assert_eq!(bridge.row_major_cols, 96);
    assert_eq!(bridge.logical_elem_size_bytes, 4);
    assert_eq!(bridge.padded_bytes, 12288);
    assert_eq!(bridge.tiled_bytes, 12288);
    assert_eq!(bridge.page_size, 4096);

    // Block floats are handed over as single-precision numbers.
    let block = bridge_prepared_launch(&copy_of(2, 1088, 6), 2)
        .unwrap()
        .unwrap();
    assert_eq!(block.logical_elem_size_bytes, 4);
    assert_eq!(block.padded_bytes, 8192);
    assert_eq!(block.tiled_bytes, 2176);

    let mut logical = copy_of(1, 4096, 0);
    logical.sources = logical.sources.with_io_layout(TtIoDataLayout::Logical);
    assert_eq!(bridge_prepared_launch(&logical, 7), Ok(None));
}

#[test]
fn bridges_are_refused_with_their_reasons() {
    let count = bridge_prepared_launch(&copy_of(1, 4096, 0), 3).unwrap_err();
    assert_eq!(
        count.reason(),
        "TT tiled I/O bridge expected 2 resources but got 3"
    );
    let zero = bridge_prepared_launch(&copy_of(1, 512, 0), 2).unwrap_err();
    assert_eq!(
        zero.reason(),
        "TT tiled I/O bridge computed a zero scalar element width"
    );
    let short = finish_output(&vec![1, 2, 3], 4).unwrap_err();
    assert_eq!(
        short.reason(),
        "TT tiled output bridge produced 3 bytes, expected at least 4"
    );
}

#[test]
fn padding_is_cut_off_again() {
    let padded = pad_input(vec![1, 2, 3], 6);
    assert_eq!(padded, vec![1, 2, 3, 0, 0, 0]);
    assert_eq!(finish_output(&padded, 3), Ok(vec![1, 2, 3]));
}

#[test]
fn block_floats_are_known_by_their_codes() {
    for code in 0..=255u8 {
        let block = code == 6 || code == 7 || code == 15;
        assert_eq!(is_native_block_float_format(code), block);
        assert_eq!(
            logical_host_elem_size_bytes(code, 2),
            if block { 4 } else { 2 }
        );
    }
}

#[test]
fn stand_ins_take_the_place_of_the_bindings() {
    let launch = prepared(
        TtKernelSources::copy_kernel(1, 2048),
        vec![
            Visibility::Read,
            Visibility::ReadWrite,
            Visibility::Read,
        ],
    );
    let temps = vec![
        TempBuffer {
            address: 10,
            compile_args: vec![1, 2],
        },
        TempBuffer {
            address: 20,
            compile_args: vec![3],
        },
        TempBuffer {
            address: 30,
            compile_args: vec![4],
        },
    ];
    let adapted = adapt_launch(launch, &temps);
    assert_eq!(adapted.input_addrs, vec![10, 30]);
    assert_eq!(adapted.output_addrs, vec![20]);
    assert_eq!(adapted.sources.reader_compile_args, vec![1, 2, 4]);
    assert_eq!(adapted.sources.writer_compile_args, vec![3]);
    assert_eq!(adapted.bindings.len(), 3);
}

#[test]
fn stand_ins_are_filled_by_what_the_kernel_does_with_them() {
    let launch = copy_of(3, 4096, 0);
    let bridge = bridge_prepared_launch(&launch, 2).unwrap().unwrap();
    assert_eq!(bridge.tilization(), Tilization::ByElementSize(4));
    assert_eq!(
        plan_temps(&launch, &bridge),
        vec![
            TempPlan::Input {
                logical_size_bytes: 24
            },
            TempPlan::Output {
                zeros: 12288,
                logical_size_bytes: 24
            },
        ]
    );

    let block = bridge_prepared_launch(&copy_of(2, 1088, 6), 2)
        .unwrap()
        .unwrap();
    assert_eq!(block.tilization(), Tilization::ByFormat(6));
}

#[test]
fn launches_go_through_their_phases() {
    let mut phase = LaunchPhase::Prepare;
    let mut tiled = vec![];
    while phase != LaunchPhase::Done {
        phase = phase.next(true, true);
        tiled.push(phase);
    }
    assert_eq!(
        tiled,
        vec![
            LaunchPhase::Bridge,
            LaunchPhase::Compile,
            LaunchPhase::Target,
            LaunchPhase::FlushPending,
            LaunchPhase::Submit,
            LaunchPhase::FinishBridge,
            LaunchPhase::Done,
        ]
    );

    assert_eq!(
        LaunchPhase::Target.next(false, true),
        LaunchPhase::Queue
    );
    assert_eq!(LaunchPhase::Queue.next(false, true), LaunchPhase::Done);
    assert_eq!(LaunchPhase::Done.next(false, false), LaunchPhase::Done);
}

#[test]
fn a_failed_phase_ends_the_launch() {
    for tiled in [false, true] {
        let mut phase = LaunchPhase::Prepare;
        while phase != LaunchPhase::Done {
            assert_eq!(phase.next(tiled, false), LaunchPhase::Failed);
            phase = phase.next(tiled, true);
        }
        assert_eq!(LaunchPhase::Failed.next(tiled, true), LaunchPhase::Failed);
    }
}

#[test]
fn logical_launches_of_any_size_need_no_bridge() {
    let mut logical = copy_of(1 << 27, 4096, 0);
    logical.sources = logical.sources.with_io_layout(TtIoDataLayout::Logical);
    assert_eq!(bridge_prepared_launch(&logical, 2), Ok(None));

    // The number of resources is looked at before any size.
    assert_eq!(
        bridge_prepared_launch(&copy_of(1 << 27, 4096, 0), 3),
        Err(BridgeError::ResourceCount {
            expected: 2,
            found: 3
        })
    );
}

#[test]
fn refused_copies_need_no_sizes() {
    let huge = vec![usize::MAX, usize::MAX];
    assert_eq!(
        write_to_gpu(&sharded(), &huge, &vec![], 8, 0),
        Err(IoError::NotReplicated(Transfer::WriteToGpu))
    );
    assert_eq!(
        write_to_cpu(&sharded(), &huge, 8),
        Err(IoError::NotReplicated(Transfer::WriteToCpu))
    );
    assert_eq!(
        write_to_gpu(&resource(0, 8, 2048), &huge, &vec![1, 0], 8, 0),
        Err(IoError::UnsupportedStrides)
    );
}
