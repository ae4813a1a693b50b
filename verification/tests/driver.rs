use std::ops::ControlFlow;
use tl_async_runtime::driver::{
    executor_context, run_acquired, AcquireAction, DriverAction, DriverInput, Executor, ParkAction,
    TryRecvError,
};
use tl_async_runtime::executor::Context;

#[test]
fn executor_context_calls_on_the_executor_of_the_thread() {
    let mut context = Context::new();
    context.register("driver");
    assert_eq!(executor_context(&context, |driver| driver.len()), 6);
}

/// Keeps the books, in which nothing becomes ready, and goes on.
fn run<T, H>(executor: &mut Executor<T, H>) -> DriverAction<T> {
    assert!(matches!(executor.run_task(DriverInput::Start), DriverAction::BookKeep));
    executor.run_task(DriverInput::BookKept(0))
}

#[test]
fn a_task_in_the_channel_is_polled() {
    let (sender, receiver) = crossbeam_channel::unbounded();
    let mut executor: Executor<u8, ()> = Executor::new(receiver);
    sender.send(1).unwrap();
    sender.send(2).unwrap();
    assert!(matches!(run(&mut executor), DriverAction::Poll(1)));
    assert!(matches!(
        executor.acquire_task(DriverInput::BookKept(5)),
        AcquireAction::Done(ControlFlow::Continue(Some(2)))
    ));
    assert!(matches!(
        run(&mut executor),
        DriverAction::Return(ControlFlow::Continue(()))
    ));
}

#[test]
fn a_closed_channel_ends_the_worker() {
    let (sender, receiver) = crossbeam_channel::unbounded::<u8>();
    let mut executor: Executor<u8, ()> = Executor::new(receiver);
    drop(sender);
    assert!(matches!(
        run(&mut executor),
        DriverAction::Return(ControlFlow::Break(()))
    ));
}

#[test]
fn the_last_thread_is_not_parked() {
    let (_sender, receiver) = crossbeam_channel::unbounded::<u8>();
    let mut executor: Executor<u8, char> = Executor::new(receiver);
    executor.register('a');
    assert_eq!(executor.park_thread(DriverInput::BookKept(0)), ParkAction::Return);
    executor.register('b');
    assert_eq!(executor.threads(), &vec!['a', 'b']);
    assert_eq!(executor.park_thread(DriverInput::Start), ParkAction::BookKeep);
    assert_eq!(executor.park_thread(DriverInput::BookKept(2)), ParkAction::Return);
    assert_eq!(executor.park_thread(DriverInput::BookKept(0)), ParkAction::Park);
    assert_eq!(executor.parked(), 1);
    assert_eq!(executor.park_thread(DriverInput::BookKept(0)), ParkAction::Return);
    assert_eq!(executor.parked(), 1);
    assert_eq!(executor.park_thread(DriverInput::Unparked), ParkAction::Return);
    assert_eq!(executor.parked(), 0);
}

#[test]
fn a_parked_worker_goes_on_without_a_task() {
    let (_sender, receiver) = crossbeam_channel::unbounded::<u8>();
    let mut executor: Executor<u8, char> = Executor::new(receiver);
    executor.register('a');
    executor.register('b');
    assert!(matches!(run(&mut executor), DriverAction::Park));
    assert!(matches!(
        executor.run_task(DriverInput::Unparked),
        DriverAction::Return(ControlFlow::Continue(()))
    ));
    assert!(matches!(
        executor.run_task(DriverInput::BookKept(1)),
        DriverAction::Return(ControlFlow::Continue(()))
    ));
}

#[test]
fn what_the_channel_gave_decides() {
    let (_sender, receiver) = crossbeam_channel::unbounded::<u8>();
    let mut executor: Executor<u8, char> = Executor::new(receiver);
    assert!(matches!(
        executor.acquire_polled(0, Ok(3)),
        AcquireAction::Done(ControlFlow::Continue(Some(3)))
    ));
    assert!(matches!(
        executor.acquire_polled(0, Err(TryRecvError::Empty)),
        AcquireAction::Done(ControlFlow::Continue(None))
    ));
    executor.register('a');
    executor.register('b');
    assert!(matches!(
        executor.acquire_polled(1, Err(TryRecvError::Empty)),
        AcquireAction::Done(ControlFlow::Continue(None))
    ));
    assert!(matches!(
        executor.acquire_polled(0, Err(TryRecvError::Empty)),
        AcquireAction::Park
    ));
    assert_eq!(executor.parked(), 1);
    assert!(matches!(
        executor.acquire_polled(0, Err(TryRecvError::Disconnected)),
        AcquireAction::Done(ControlFlow::Break(()))
    ));
    assert!(matches!(
        run_acquired(AcquireAction::<u8>::Done(ControlFlow::Break(()))),
        DriverAction::Return(ControlFlow::Break(()))
    ));
}
