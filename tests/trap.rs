use wasmer_core::tls::TlsSwap;
use wasmer_core::trap::{CallOutcome, FaultAction, HandlerStack, Trap, TrapCode};

#[test]
fn out_of_bounds_access_traps_and_next_call_succeeds() {
    let mut handlers = HandlerStack::new();
    let r: Result<u32, Trap> =
        handlers.catch_traps(|| CallOutcome::Unwound(TrapCode::OutOfBoundsMemoryAccess));
    assert_eq!(r, Err(Trap { code: TrapCode::OutOfBoundsMemoryAccess }));
    assert_eq!(handlers.depth(), 0);
    let r = handlers.catch_traps(|| CallOutcome::Returned(7u32));
    assert_eq!(r, Ok(7));
    assert_eq!(handlers.depth(), 0);
}

#[test]
fn fault_outside_any_scope_is_fatal() {
    let mut handlers = HandlerStack::new();
    assert_eq!(handlers.on_fault(Some(TrapCode::StackOverflow)), FaultAction::Fatal);
}

#[test]
fn fault_outside_guest_code_is_fatal() {
    let mut handlers = HandlerStack::new();
    handlers.enter();
    assert_eq!(handlers.on_fault(None), FaultAction::Fatal);
    assert_eq!(handlers.leave(Some(1u8)), Ok(1));
}

#[test]
fn fault_unwinds_innermost_scope() {
    let mut handlers = HandlerStack::new();
    handlers.enter();
    handlers.enter();
    assert_eq!(handlers.on_fault(Some(TrapCode::IntegerDivisionByZero)), FaultAction::Unwind);
    // A second fault while unwinding cannot be handled.
    assert_eq!(handlers.on_fault(Some(TrapCode::IntegerOverflow)), FaultAction::Fatal);
    assert_eq!(
        handlers.leave::<u8>(None),
        Err(Trap { code: TrapCode::IntegerDivisionByZero })
    );
    assert_eq!(handlers.depth(), 1);
    assert_eq!(handlers.leave(Some(2u8)), Ok(2));
}

#[test]
fn user_and_library_traps_abort_the_call() {
    let mut handlers = HandlerStack::new();
    handlers.enter();
    handlers.raise_user_trap("host said no".to_string());
    assert_eq!(
        handlers.leave::<()>(None),
        Err(Trap { code: TrapCode::User("host said no".to_string()) })
    );
    handlers.enter();
    handlers.raise_lib_trap(TrapCode::UnreachableReached);
    assert_eq!(handlers.leave::<()>(None), Err(Trap { code: TrapCode::UnreachableReached }));
}

#[test]
fn snapshot_moves_scopes_between_threads() {
    let mut task_thread = HandlerStack::new();
    task_thread.enter();
    let snap = task_thread.take();
    assert_eq!(task_thread.depth(), 0);
    let mut other = HandlerStack::new();
    other.replace(snap);
    assert_eq!(other.depth(), 1);
    other.raise_lib_trap(TrapCode::StackOverflow);
    assert_eq!(other.leave::<()>(None), Err(Trap { code: TrapCode::StackOverflow }));
}

/// A call that suspends once inside a host import and is resumed with a
/// value: the scope it entered before suspending is there again after
/// resumption, and it finishes with what the synchronous computation gives.
#[test]
fn yield_and_resume_gives_synchronous_result() {
    let mut swap = TlsSwap::new();
    let mut driver = HandlerStack::new();
    // First poll: the task starts running.
    swap.on_poll(&mut driver);
    driver.enter();
    // The host import suspends: its scopes are taken off the thread.
    swap.on_poll(&mut driver);
    assert_eq!(driver.depth(), 0);
    // Resumed, possibly elsewhere, with 52.
    let mut resumed = HandlerStack::new();
    swap.on_poll(&mut resumed);
    assert_eq!(resumed.depth(), 1);
    let v: u32 = 52;
    let a: u32 = 3;
    assert_eq!(resumed.leave(Some(v * a)), Ok(156));
    assert_eq!(resumed.depth(), 0);
}
