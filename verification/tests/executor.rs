use futures::channel::oneshot;
use futures::task::noop_waker;
use std::ops::ControlFlow;
use std::task;
use tl_async_runtime::executor::delivery::OutputSender;
use tl_async_runtime::executor::{
    complete, worker_name, AcquireAction, BlockOnAction, BlockOnInput, Context, Executor,
    JoinHandle, Settled, TaskWaker, WorkerAction, WorkerInput,
};
use tl_async_runtime::{block_on, Poll};

#[test]
fn context_calls_on_the_registered_executor() {
    let mut context = Context::new();
    assert!(!context.is_registered());
    context.register(3);
    assert!(context.is_registered());
    assert_eq!(context.context(|executor| executor + 1), 4);
    context.register(8);
    assert_eq!(context.context(|executor| executor + 1), 9);
}

/// Keeps the books of an executor in which nothing becomes ready, and goes on.
fn run<T>(executor: &mut Executor<T>) -> WorkerAction<T> {
    assert!(matches!(
        executor.run_task(WorkerInput::Start),
        WorkerAction::BookKeep
    ));
    executor.run_task(WorkerInput::BookKept(0))
}

#[test]
fn a_woken_task_is_ready_once() {
    let mut executor = Executor::new(Some(2));
    let mut waker = TaskWaker::new();
    let (flow, finished) = waker.polled("task", true, &mut executor.ready);
    assert!(matches!(flow, ControlFlow::Continue(())));
    assert_eq!(finished, None);
    assert!(executor.ready.should_wait());
    assert!(waker.wake(&mut executor.ready));
    assert!(!waker.wake(&mut executor.ready));
    assert!(matches!(run(&mut executor), WorkerAction::Poll("task")));
    assert!(matches!(run(&mut executor), WorkerAction::Wait));
}

#[test]
fn a_task_that_is_woken_while_it_is_polled_is_ready_again() {
    let mut executor = Executor::new(Some(2));
    let mut waker = TaskWaker::new();
    assert!(!waker.wake(&mut executor.ready));
    assert!(!waker.wake(&mut executor.ready));
    assert!(executor.ready.should_wait());
    let (flow, finished) = waker.polled("task", true, &mut executor.ready);
    assert!(matches!(flow, ControlFlow::Continue(())));
    assert_eq!(finished, None);
    assert!(matches!(run(&mut executor), WorkerAction::Poll("task")));
    assert!(matches!(run(&mut executor), WorkerAction::Wait));
}

#[test]
fn a_finished_task_is_given_back() {
    let mut executor = Executor::new(Some(2));
    let mut waker = TaskWaker::new();
    waker.wake(&mut executor.ready);
    let (flow, finished) = waker.polled(5, false, &mut executor.ready);
    assert!(matches!(flow, ControlFlow::Continue(())));
    assert_eq!(finished, Some(5));
    assert!(executor.ready.should_wait());
    assert_eq!(waker.rouse(), None);
}

#[test]
fn settling_a_task() {
    let mut waker = TaskWaker::new();
    assert!(matches!(waker.settle(1, true), Settled::Kept));
    assert_eq!(waker.rouse(), Some(1));
    assert_eq!(waker.rouse(), None);
    assert!(matches!(waker.settle(2, true), Settled::Ready(2)));
    assert!(matches!(waker.settle(3, false), Settled::Finished(3)));
}

#[test]
fn a_worker_keeps_the_books_before_it_requests_a_task() {
    let mut executor: Executor<u8> = Executor::new(Some(2));
    executor.ready.signal(3);
    assert!(matches!(
        executor.acquire_task(WorkerInput::Start),
        AcquireAction::BookKeep
    ));
    assert!(matches!(
        executor.acquire_task(WorkerInput::BookKept(0)),
        AcquireAction::Done(ControlFlow::Continue(Some(3)))
    ));
    assert!(matches!(
        executor.acquire_task(WorkerInput::BookKept(1)),
        AcquireAction::Done(ControlFlow::Continue(None))
    ));
    assert!(matches!(
        executor.acquire_task(WorkerInput::BookKept(0)),
        AcquireAction::Wait
    ));
    executor.ready.signal(4);
    assert!(matches!(
        executor.acquire_task(WorkerInput::Woken),
        AcquireAction::Done(ControlFlow::Continue(Some(4)))
    ));
}

#[test]
fn a_worker_without_a_task_begins_anew() {
    let mut executor: Executor<u8> = Executor::new(Some(1));
    assert!(matches!(
        executor.run_task(WorkerInput::BookKept(0)),
        WorkerAction::Return(ControlFlow::Continue(()))
    ));
}

#[test]
fn a_pending_task_goes_to_the_back() {
    let mut executor = Executor::new(Some(1));
    executor.ready.signal(1);
    executor.ready.signal(2);
    let mut waker = TaskWaker::new();
    match run(&mut executor) {
        WorkerAction::Poll(task) => {
            assert_eq!(task, 1);
            waker.polled(task, true, &mut executor.ready);
        }
        _ => panic!("no task"),
    }
    waker.wake(&mut executor.ready);
    assert!(matches!(run(&mut executor), WorkerAction::Poll(2)));
    assert!(matches!(run(&mut executor), WorkerAction::Poll(1)));
}

fn poll<R>(handle: &mut JoinHandle<R>) -> Poll<Result<R, oneshot::Canceled>> {
    handle
        .poll_channel(&mut task::Context::from_waker(&noop_waker()))
        .into_polled()
}

#[test]
fn a_handle_gives_the_output_of_its_own_task() {
    let mut executor: Executor<OutputSender<u32>> = Executor::new(Some(2));
    let mut first = executor.spawn(|sender| sender);
    let mut second = executor.spawn(|sender| sender);
    assert!(matches!(poll(&mut first), Poll::Pending));
    for output in [17, 18] {
        match run(&mut executor) {
            WorkerAction::Poll(sender) => assert!(complete(sender, output).is_ok()),
            _ => panic!("no task"),
        }
    }
    assert!(matches!(poll(&mut second), Poll::Ready(Ok(18))));
    assert!(matches!(poll(&mut first), Poll::Ready(Ok(17))));
}

#[test]
fn an_unclaimed_output_comes_back() {
    let mut executor: Executor<OutputSender<u32>> = Executor::new(Some(2));
    drop(executor.spawn(|sender| sender));
    match run(&mut executor) {
        WorkerAction::Poll(sender) => match complete(sender, 17) {
            Ok(_) => panic!("nobody waits for it"),
            Err(refused) => assert_eq!(refused.into_output(), 17),
        },
        _ => panic!("no task"),
    }
}

#[test]
fn a_delivered_output_is_the_first_answer() {
    let mut executor: Executor<OutputSender<u32>> = Executor::new(Some(2));
    let mut handle = executor.spawn(|sender| sender);
    assert!(matches!(poll(&mut handle), Poll::Pending));
    let delivered = match run(&mut executor) {
        WorkerAction::Poll(sender) => complete(sender, 5).ok(),
        _ => None,
    };
    let delivered = match delivered {
        Some(delivered) => delivered,
        None => panic!("not delivered"),
    };
    let waker = noop_waker();
    let mut context = task::Context::from_waker(&waker);
    assert!(matches!(
        handle.poll_delivered(&delivered, &mut context).into_polled(),
        Poll::Ready(Ok(5))
    ));
    assert!(matches!(
        handle.poll_delivered(&delivered, &mut context).into_polled(),
        Poll::Ready(Err(_))
    ));
}

#[test]
fn a_task_that_is_dropped_cancels_its_handle() {
    let mut executor: Executor<OutputSender<u32>> = Executor::new(Some(2));
    let mut handle = executor.spawn(|sender| sender);
    drop(run(&mut executor));
    assert!(matches!(
        poll(&mut handle),
        Poll::Ready(Err(oneshot::Canceled))
    ));
}

#[test]
fn join_handle_gives_the_output() {
    assert!(matches!(JoinHandle::poll(Poll::Ready(Ok(3))), Poll::Ready(3)));
    assert!(matches!(JoinHandle::<u8>::poll(Poll::Pending), Poll::Pending));
}

#[test]
fn workers_are_named_by_number() {
    assert_eq!(worker_name(0), "tl-async-runtime-worker-0");
    assert_eq!(worker_name(7), "tl-async-runtime-worker-7");
    assert_eq!(worker_name(10), "tl-async-runtime-worker-10");
    assert_eq!(
        worker_name(usize::MAX),
        format!("tl-async-runtime-worker-{}", usize::MAX)
    );
}

#[test]
fn block_on_launches_spawns_and_polls() {
    let (executor, first) = block_on::<u8, u8>(Some(3));
    match first {
        BlockOnAction::Launch(names) => assert_eq!(
            names,
            vec![
                "tl-async-runtime-worker-1".to_string(),
                "tl-async-runtime-worker-2".to_string()
            ]
        ),
        _ => panic!("no launch"),
    }
    let step = |input: BlockOnInput<u8>| executor.block_on(input);
    assert!(matches!(step(BlockOnInput::Launched), BlockOnAction::Spawn));
    assert!(matches!(step(BlockOnInput::Spawned), BlockOnAction::PollHandle));
    assert!(matches!(
        step(BlockOnInput::Polled(Poll::Pending)),
        BlockOnAction::RunTask
    ));
    assert!(matches!(step(BlockOnInput::RanTask), BlockOnAction::PollHandle));
    assert!(matches!(
        step(BlockOnInput::Polled(Poll::Ready(Ok(6)))),
        BlockOnAction::Return(6)
    ));
}

#[test]
fn block_on_defaults_to_four_workers() {
    let (executor, _) = block_on::<u8, u8>(None);
    assert_eq!(executor.worker_names().len(), 3);
    let alone: Executor<u8> = Executor::new(Some(1));
    assert!(alone.worker_names().is_empty());
    let nobody: Executor<u8> = Executor::new(Some(0));
    assert!(nobody.worker_names().is_empty());
}

#[test]
fn no_task_is_lost_or_doubled() {
    let mut executor = Executor::new(Some(1));
    for task in 0..6 {
        executor.ready.signal(task);
    }
    let mut wakers = vec![];
    let mut finished = vec![];
    for _ in 0..6 {
        if let WorkerAction::Poll(task) = run(&mut executor) {
            let mut waker = TaskWaker::new();
            if task >= 4 {
                waker.wake(&mut executor.ready);
            }
            let (_, done) = waker.polled(task, task % 2 == 0, &mut executor.ready);
            finished.extend(done);
            wakers.push(waker);
        }
    }
    assert_eq!(finished, vec![1, 3, 5]);
    for waker in &mut wakers {
        waker.wake(&mut executor.ready);
        waker.wake(&mut executor.ready);
    }
    let mut ready = vec![];
    while let WorkerAction::Poll(task) = run(&mut executor) {
        ready.push(task);
    }
    assert_eq!(ready, vec![4, 0, 2]);
}
