//! Trap classification and the per-thread stack of trap-handling scopes.

use vstd::prelude::*;

verus! {

/// Why a call into guest code was aborted.
#[derive(Debug, Clone, PartialEq, Eq)]
pub enum TrapCode {
    OutOfBoundsMemoryAccess,
    OutOfBoundsTableAccess,
    IndirectCallTypeMismatch,
    IntegerOverflow,
    IntegerDivisionByZero,
    UnreachableReached,
    StackOverflow,
    UninitializedElement,
    /// Raised by host code, with its message.
    User(String),
}

/// A call that was aborted, and why.
#[derive(Debug, Clone, PartialEq, Eq)]
pub struct Trap {
    pub code: TrapCode,
}

/// How a body run under `catch_traps` ended: it returned, or it was unwound
/// to the boundary of its scope with a trap recorded there.
#[derive(Debug)]
pub enum CallOutcome<T> {
    Returned(T),
    Unwound(TrapCode),
}

/// What a fault handler does with a fault.
#[derive(Debug, Clone, Copy, PartialEq, Eq, Structural)]
pub enum FaultAction {
    /// Unwind to the innermost scope, which recorded the trap.
    Unwind,
    /// Nothing here can handle the fault: it is fatal.
    Fatal,
}

/// The scopes a thread has entered, innermost last, each with the trap it
/// recorded while unwinding, if any.
#[derive(Debug)]
pub struct HandlerStack {
    scopes: Vec<Option<TrapCode>>,
}

/// Scopes taken off a thread, to be put back on this or another thread.
#[derive(Debug)]
pub struct HandlerSnapshot {
    scopes: Vec<Option<TrapCode>>,
}

impl View for HandlerStack {
    type V = Seq<Option<TrapCode>>;

    closed spec fn view(&self) -> Seq<Option<TrapCode>> {
        self.scopes@
    }
}

impl View for HandlerSnapshot {
    type V = Seq<Option<TrapCode>>;

    closed spec fn view(&self) -> Seq<Option<TrapCode>> {
        self.scopes@
    }
}

/// The result `catch_traps` gives for a body that ended with `out`.
pub open spec fn outcome_result<T>(out: CallOutcome<T>) -> Result<T, Trap> {
    match out {
        CallOutcome::Returned(v) => Ok(v),
        CallOutcome::Unwound(code) => Err(Trap { code }),
    }
}

impl HandlerStack {
    /// A thread that has entered no scope.
    pub fn new() -> (r: HandlerStack)
        ensures
            r@ == Seq::<Option<TrapCode>>::empty(),
    {
        HandlerStack { scopes: Vec::new() }
    }

    /// The number of scopes entered and not left.
    pub fn depth(&self) -> (r: usize)
        ensures
            r == self@.len(),
    {
        self.scopes.len()
    }

    /// Enter a scope: faults from here on unwind to it.
    pub fn enter(&mut self)
        ensures
            final(self)@ == old(self)@.push(None),
    {
        self.scopes.push(None);
    }

    /// Decide what to do with a hardware fault, given the trap that the
    /// faulting instruction stands for, if it lies in guest code. It is
    /// handled only inside a scope that is not already unwinding.
    pub fn on_fault(&mut self, code: Option<TrapCode>) -> (r: FaultAction)
        ensures
            r == FaultAction::Unwind <==> old(self)@.len() > 0 && code is Some && old(self)@.last()
                is None,
            r == FaultAction::Unwind ==> final(self)@ == old(self)@.update(
                old(self)@.len() - 1,
                code,
            ),
            r == FaultAction::Fatal ==> final(self)@ == old(self)@,
    {
        let n = self.scopes.len();
        if n == 0 || code.is_none() || self.scopes[n - 1].is_some() {
            return FaultAction::Fatal;
        }
        self.scopes.set(n - 1, code);
        FaultAction::Unwind
    }

    /// Abort the innermost call with a trap raised by host code.
    pub fn raise_user_trap(&mut self, message: String)
        requires
            old(self)@.len() > 0,
        ensures
            final(self)@ == old(self)@.update(old(self)@.len() - 1, Some(TrapCode::User(message))),
    {
        let n = self.scopes.len();
        self.scopes.set(n - 1, Some(TrapCode::User(message)));
    }

    /// Abort the innermost call with a trap raised by the runtime library.
    pub fn raise_lib_trap(&mut self, code: TrapCode)
        requires
            old(self)@.len() > 0,
        ensures
            final(self)@ == old(self)@.update(old(self)@.len() - 1, Some(code)),
    {
        let n = self.scopes.len();
        self.scopes.set(n - 1, Some(code));
    }

    /// Leave the innermost scope: its recorded trap, or else `value`, which
    /// the body returned.
    pub fn leave<T>(&mut self, value: Option<T>) -> (r: Result<T, Trap>)
        requires
            old(self)@.len() > 0,
            old(self)@.last() is None ==> value is Some,
        ensures
            final(self)@ == old(self)@.drop_last(),
            r == match old(self)@.last() {
                Some(code) => Err::<T, Trap>(Trap { code }),
                None => Ok(value->Some_0),
            },
    {
        let top = self.scopes.pop().unwrap();
        match top {
            Some(code) => Err(Trap { code }),
            None => Ok(value.unwrap()),
        }
    }

    /// Run `body` inside a new scope. Whether it returned or was unwound,
    /// the scope is left and the thread's stack is as before.
    pub fn catch_traps<T, F: Fn() -> CallOutcome<T>>(&mut self, body: F) -> (r: Result<T, Trap>)
        requires
            body.requires(()),
        ensures
            final(self)@ == old(self)@,
            exists|out: CallOutcome<T>| body.ensures((), out) && r == outcome_result(out),
    {
        self.enter();
        let out = body();
        let ghost g = out;
        let r = match out {
            CallOutcome::Returned(v) => self.leave(Some(v)),
            CallOutcome::Unwound(code) => {
                let n = self.scopes.len();
                self.scopes.set(n - 1, Some(code));
                self.leave(None)
            },
        };
        proof {
            assert(self@ =~= old(self)@);
            assert(body.ensures((), g) && r == outcome_result(g));
        }
        r
    }

    /// Take every scope off this thread, leaving it with none.
    pub fn take(&mut self) -> (r: HandlerSnapshot)
        ensures
            r@ == old(self)@,
            final(self)@ == Seq::<Option<TrapCode>>::empty(),
    {
        let mut scopes: Vec<Option<TrapCode>> = Vec::new();
        std::mem::swap(&mut scopes, &mut self.scopes);
        HandlerSnapshot { scopes }
    }

    /// Put the scopes of `snapshot` back on this thread, innermost last.
    pub fn replace(&mut self, snapshot: HandlerSnapshot)
        ensures
            final(self)@ == old(self)@ + snapshot@,
    {
        let mut scopes = snapshot.scopes;
        self.scopes.append(&mut scopes);
    }
}

} // verus!
