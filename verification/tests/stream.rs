use tt_metal::fence::Fence;
use tt_metal::profile::{nanos, LaunchProfileSnapshot};
use tt_metal::server::Operation;
use tt_metal::stream::{PendingWork, Stream, StreamErrorMode, SyncStep, TtEvent};

#[test]
fn tt_stream_flush_clears_launch_errors() {
    let mut stream = Stream::new();
    stream.error("boom".to_string());

    let err = stream
        .flush_errors(StreamErrorMode {
            ignore: false,
            flush: true,
        })
        .expect_err("flush should surface the pending launch error");
    assert_eq!(err, vec!["boom".to_string()]);
    assert!(stream.errors.is_empty());

    stream
        .flush_errors(StreamErrorMode {
            ignore: false,
            flush: true,
        })
        .expect("a second flush should succeed after clearing errors");
}

#[test]
fn errors_are_kept_until_they_are_flushed() {
    let mut stream = Stream::new();
    assert!(stream.is_healthy());
    stream.error("first".to_string());
    stream.error("second".to_string());
    assert!(!stream.is_healthy());

    let launch = Operation::Launch.error_mode();
    assert_eq!(stream.flush_errors(launch), Ok(()));
    assert_eq!(stream.errors.len(), 2);

    let usage = Operation::MemoryUsage.error_mode();
    let all = vec!["first".to_string(), "second".to_string()];
    assert_eq!(stream.flush_errors(usage), Err(all.clone()));
    assert_eq!(stream.errors.len(), 2);

    let sync = Operation::Sync.error_mode();
    assert_eq!(stream.flush_errors(sync), Err(all));
    assert!(stream.is_healthy());
    assert_eq!(stream.flush_errors(sync), Ok(()));
}

#[test]
fn operations_look_at_errors_in_their_own_way() {
    let reporting = StreamErrorMode {
        ignore: false,
        flush: true,
    };
    let passing = StreamErrorMode {
        ignore: true,
        flush: false,
    };
    for operation in vec![Operation::Read, Operation::Flush, Operation::Sync] {
        assert_eq!(operation.error_mode(), reporting);
    }
    assert_eq!(
        Operation::MemoryUsage.error_mode(),
        StreamErrorMode {
            ignore: false,
            flush: false,
        }
    );
    for operation in vec![
        Operation::Staging,
        Operation::InitializeMemory,
        Operation::Write,
        Operation::Launch,
        Operation::LaunchFromSources,
        Operation::GetResource,
        Operation::MemoryCleanup,
        Operation::AllocationMode,
    ] {
        assert_eq!(operation.error_mode(), passing);
    }
}

#[test]
fn work_is_submitted_in_order_and_completed() {
    let mut stream = Stream::new();
    assert_eq!(stream.enqueue_full_mesh_program(), 1);
    assert_eq!(stream.enqueue_replicated_write(7, vec![1, 2]), 2);
    assert_eq!(stream.enqueue_full_mesh_program(), 3);
    assert_eq!(stream.last_queued_seq(), 3);
    assert_eq!(stream.latest_resource_seq(7), 2);
    assert_eq!(stream.latest_resource_seq(8), 0);
    assert_eq!(stream.sync_through(0), SyncStep::Done);
    assert_eq!(stream.sync_through(2), SyncStep::Submit);

    let batch = stream.begin_flush().unwrap();
    assert_eq!(batch.highest_seq, 3);
    assert_eq!(batch.workload_ops, 2);
    assert_eq!(batch.write_ops, 1);
    assert_eq!(batch.ops[1].seq, 2);
    assert!(matches!(batch.ops[0].work, PendingWork::Workload));
    match &batch.ops[1].work {
        PendingWork::WriteReplicated { storage_id, staged } => {
            assert_eq!(*storage_id, 7);
            assert_eq!(*staged, vec![1, 2]);
        }
        PendingWork::Workload => panic!("the second operation is a write"),
    }
    stream.finish_flush(batch.highest_seq);
    assert!(stream.begin_flush().is_none());
    assert_eq!(stream.in_flight_count(), 3);
    assert_eq!(stream.sync_through(2), SyncStep::Wait);

    let page = stream.begin_fence().unwrap();
    assert_eq!(page.len(), 2048);
    assert_eq!(page[..5], [1, 0, 0, 0, 0]);
    stream.finish_fence();
    assert_eq!(stream.last_completed_seq(), 3);
    assert_eq!(stream.in_flight_count(), 0);
    assert_eq!(stream.sync_through(3), SyncStep::Done);
    assert!(stream.begin_fence().is_none());

    let progress = stream.progress();
    assert_eq!(progress.queued, 3);
    assert_eq!(progress.completed, 3);
    assert_eq!(progress.max_pending_batch_size, 3);
    assert_eq!(progress.submit_calls, 1);
    assert_eq!(progress.completion_waits, 1);
}

#[test]
fn fences_are_numbered_and_wrap_around() {
    let mut stream = Stream::new();
    stream.fence_value = u32::MAX - 1;
    for expected in [[255u8, 255, 255, 255], [0, 0, 0, 0], [1, 0, 0, 0]] {
        stream.enqueue_full_mesh_program();
        let batch = stream.begin_flush().unwrap();
        stream.finish_flush(batch.highest_seq);
        let page = stream.begin_fence().unwrap();
        assert_eq!(page[..4], expected);
        stream.finish_fence();
    }
    stream.fence_value = 0x0102_0304 - 1;
    stream.enqueue_full_mesh_program();
    let batch = stream.begin_flush().unwrap();
    stream.finish_flush(batch.highest_seq);
    assert_eq!(stream.begin_fence().unwrap()[..4], [4, 3, 2, 1]);
}

#[test]
fn a_full_batch_asks_to_be_submitted() {
    let mut stream = Stream::new();
    for _ in 0..2047 {
        stream.enqueue_full_mesh_program();
    }
    assert!(!stream.batch_is_full());
    stream.enqueue_full_mesh_program();
    assert!(stream.batch_is_full());
    for _ in 0..2048 {
        stream.enqueue_full_mesh_program();
    }
    assert!(!stream.device_is_full());
    let batch = stream.begin_flush().unwrap();
    stream.finish_flush(batch.highest_seq);
    assert!(stream.device_is_full());
}

#[test]
fn buffers_depend_on_their_last_write() {
    let mut stream = Stream::new();
    stream.note_workload_outputs(5, &vec![1, 2]);
    stream.note_resource_sequence(2, 4);
    assert_eq!(stream.latest_resource_seq(1), 5);
    assert_eq!(stream.latest_resource_seq(2), 5);
    assert_eq!(stream.binding_cursor(Some(3), Some(1)), 5);
    assert_eq!(stream.binding_cursor(Some(9), Some(1)), 9);
    assert_eq!(stream.binding_cursor(None, None), 0);
}

#[test]
fn events_move_completion_forward_only() {
    let mut stream = Stream::new();
    stream.wait_event(TtEvent { completed_seq: 8 });
    assert_eq!(stream.last_completed_seq(), 8);
    assert_eq!(stream.progress().completed, 8);
    stream.wait_event(TtEvent { completed_seq: 3 });
    assert_eq!(stream.event(), TtEvent { completed_seq: 8 });
    stream.mark_dependency_flush();
    stream.mark_readback_completion();
    assert_eq!(stream.progress().producer_flushes, 1);
    assert_eq!(stream.progress().readback_completions, 1);
}

#[test]
fn fences_have_nothing_to_wait_for() {
    assert_eq!(Fence::new().wait_sync(), Ok(()));
    assert_eq!(Fence::default().wait_sync(), Ok(()));
}

#[test]
fn counters_add_up_and_stay_at_their_largest_value() {
    let mut profile = LaunchProfileSnapshot::default();
    profile.record_kernel_cube_launch(true);
    profile.record_kernel_cube_launch(false);
    profile.record_prepare(5);
    profile.record_prepare(7);
    profile.record_bridge(1);
    profile.record_compile(2);
    profile.record_immediate_submit(3);
    profile.record_pending_submit(4, 3, 1, 10);
    profile.record_completion_wait(11);
    assert_eq!(profile.kernel_cube_launches, 2);
    assert_eq!(profile.queued_launches, 1);
    assert_eq!(profile.immediate_launches, 1);
    assert_eq!((profile.prepare_calls, profile.prepare_ns), (2, 12));
    assert_eq!((profile.bridge_calls, profile.bridge_ns), (1, 1));
    assert_eq!((profile.compile_calls, profile.compile_ns), (1, 2));
    assert_eq!(
        (profile.immediate_submit_calls, profile.immediate_submit_ns),
        (1, 3)
    );
    assert_eq!(profile.pending_submit_batches, 1);
    assert_eq!(profile.pending_submit_ops, 4);
    assert_eq!(profile.pending_submit_workloads, 3);
    assert_eq!(profile.pending_submit_writes, 1);
    assert_eq!(profile.pending_submit_ns, 10);
    assert_eq!(
        (profile.completion_wait_calls, profile.completion_wait_ns),
        (1, 11)
    );
    profile.record_prepare(u128::MAX);
    assert_eq!(profile.prepare_ns, u64::MAX);
    assert_eq!(nanos(u64::MAX as u128 + 1), u64::MAX);
    assert_eq!(nanos(17), 17);
}

#[test]
fn pressure_is_relieved_by_a_submission_and_a_wait() {
    let mut stream = Stream::new();
    for _ in 0..2047 {
        stream.enqueue_full_mesh_program();
    }
    assert_eq!(stream.apply_backpressure(), SyncStep::Done);
    stream.enqueue_full_mesh_program();
    assert_eq!(stream.apply_backpressure(), SyncStep::Submit);
    let batch = stream.begin_flush().unwrap();
    stream.finish_flush(batch.highest_seq);
    assert_eq!(stream.apply_backpressure(), SyncStep::Done);

    for _ in 0..2048 {
        stream.enqueue_full_mesh_program();
    }
    let batch = stream.begin_flush().unwrap();
    stream.finish_flush(batch.highest_seq);
    assert_eq!(stream.in_flight_count(), 4096);
    assert_eq!(stream.apply_backpressure(), SyncStep::Wait);
    stream.begin_fence().unwrap();
    stream.finish_fence();
    assert_eq!(stream.apply_backpressure(), SyncStep::Done);
}
