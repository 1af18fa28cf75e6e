use rhi::backend::BackendConfig;
use rhi::backend::BackendCore;
use rhi::tasks::Task;
use rhi::tasks::TaskOp;
use rhi::tasks::TaskOpOutput;
use rhi::tasks::TaskOutput;
use rhi::tasks::dispatch_task;
use rhi::types::BufferUsage;
use rhi::types::MemoryLocation;
use rhi::types::Resolution2D;

fn test_backend() -> BackendCore {
    BackendCore::new(BackendConfig {
        swapchain_res: Resolution2D { width: 64, height: 64 },
        swapchain_image_count: 2,
        descriptor_pool_max_sets: 16,
    })
}

fn buffer_op() -> TaskOp {
    TaskOp::CreateBuffer {
        size: 128,
        usage: BufferUsage { storage: true, ..Default::default() },
        memory_location: MemoryLocation::GPU,
    }
}

#[test]
fn ordered_list_of_three_leaves_keeps_order_and_count() {
    let mut backend = test_backend();
    let task = Task::Ordered(vec![
        Task::Op(TaskOp::CreateFence { signaled: false }),
        Task::Op(buffer_op()),
        Task::Op(TaskOp::CreateCommandBuffer),
    ]);
    let out = dispatch_task(&mut backend, task);
    match out {
        TaskOutput::Ordered(os) => {
            assert_eq!(os.len(), 3);
            assert!(matches!(os[0], TaskOutput::Op(TaskOpOutput::FenceCreated(Ok(_)))));
            assert!(matches!(os[1], TaskOutput::Op(TaskOpOutput::BufferCreated(Ok(_)))));
            assert!(matches!(
                os[2],
                TaskOutput::Op(TaskOpOutput::CommandBufferCreated(Ok(_)))
            ));
        },
        other => panic!("expected an ordered list of outputs, got {other:?}"),
    }
}

#[test]
fn nested_tree_keeps_nesting() {
    let mut backend = test_backend();
    let task = Task::Ordered(vec![
        Task::Op(TaskOp::CreateFence { signaled: true }),
        Task::Unordered(vec![Task::Op(buffer_op()), Task::Op(buffer_op())]),
    ]);
    let out = dispatch_task(&mut backend, task);
    match out {
        TaskOutput::Ordered(os) => {
            assert_eq!(os.len(), 2);
            assert!(matches!(os[0], TaskOutput::Op(TaskOpOutput::FenceCreated(Ok(_)))));
            match &os[1] {
                TaskOutput::Unordered(inner) => {
                    assert_eq!(inner.len(), 2);
                    for o in inner {
                        assert!(matches!(o, TaskOutput::Op(TaskOpOutput::BufferCreated(Ok(_)))));
                    }
                },
                other => panic!("expected an unordered pair, got {other:?}"),
            }
        },
        other => panic!("expected an ordered list of outputs, got {other:?}"),
    }
}

#[test]
fn empty_group_yields_empty_group() {
    let mut backend = test_backend();
    let out = dispatch_task(&mut backend, Task::Unordered(vec![]));
    assert_eq!(out, TaskOutput::Unordered(vec![]));
}

#[test]
fn ordered_leaves_run_in_sequence() {
    let mut backend = test_backend();
    // The second leaf's call depends on state the first one made: the fence
    // created first gets handle 0, and waiting on it succeeds only because
    // it was created signaled before the wait ran.
    let out = dispatch_task(
        &mut backend,
        Task::Ordered(vec![
            Task::Op(TaskOp::CreateFence { signaled: true }),
            Task::Op(TaskOp::CreateFence { signaled: false }),
        ]),
    );
    match out {
        TaskOutput::Ordered(os) => {
            let first = match &os[0] {
                TaskOutput::Op(TaskOpOutput::FenceCreated(Ok(f))) => *f,
                other => panic!("expected a fence, got {other:?}"),
            };
            let second = match &os[1] {
                TaskOutput::Op(TaskOpOutput::FenceCreated(Ok(f))) => *f,
                other => panic!("expected a fence, got {other:?}"),
            };
            assert_eq!(first.0, 0);
            assert_eq!(second.0, 1);
            assert_eq!(backend.wait_for_fence(first), Ok(()));
        },
        other => panic!("expected an ordered list of outputs, got {other:?}"),
    }
}
