//! Hand-over of a task's trap-handling scopes across suspensions, so that a
//! call suspended on one thread can resume on another.

use vstd::prelude::*;
use crate::trap::{HandlerSnapshot, HandlerStack, TrapCode};

verus! {

/// Scopes of one thread, innermost last.
pub type Scopes = Seq<Option<TrapCode>>;

/// The hand-over state, as plain values: whether the task was polled
/// before, and the scopes it left behind at its last suspension.
pub ghost struct SwapModel {
    pub init: bool,
    pub saved: Option<Scopes>,
}

/// What one poll does to the hand-over state and to the polling thread's
/// scopes. The first poll only marks the task as started; after that, scopes
/// saved at a suspension are put back, and otherwise the thread's scopes are
/// saved and taken off it.
pub open spec fn poll_effect(s: SwapModel, thread: Scopes) -> (SwapModel, Scopes) {
    if !s.init {
        (SwapModel { init: true, saved: s.saved }, thread)
    } else {
        match s.saved {
            Some(saved) => (SwapModel { init: true, saved: None }, thread + saved),
            None => (SwapModel { init: true, saved: Some(thread) }, Seq::empty()),
        }
    }
}

/// Runs before and after each poll of a task that executes on its own stack.
#[derive(Debug)]
pub struct TlsSwap {
    init: bool,
    saved: Option<HandlerSnapshot>,
}

impl View for TlsSwap {
    type V = SwapModel;

    closed spec fn view(&self) -> SwapModel {
        SwapModel {
            init: self.init,
            saved: match self.saved {
                Some(snap) => Some(snap@),
                None => None,
            },
        }
    }
}

impl TlsSwap {
    /// A task not yet polled.
    pub fn new() -> (r: TlsSwap)
        ensures
            r@ == (SwapModel { init: false, saved: None }),
    {
        TlsSwap { init: false, saved: None }
    }

    /// Hand the scopes over at one poll boundary.
    pub fn on_poll(&mut self, handlers: &mut HandlerStack)
        ensures
            (final(self)@, final(handlers)@) == poll_effect(old(self)@, old(handlers)@),
    {
        if self.init {
            match self.saved.take() {
                Some(snapshot) => {
                    handlers.replace(snapshot);
                },
                None => {
                    let snapshot = handlers.take();
                    self.saved = Some(snapshot);
                },
            }
        } else {
            self.init = true;
        }
    }
}

/// Across a suspension and the resumption that follows, a started task gets
/// back exactly the scopes it had, on a thread that had none of its own, and
/// the thread that drove the suspension is left with none of them.
pub proof fn lemma_suspend_resume_restores(s: SwapModel, task: Scopes)
    requires
        s.init,
        s.saved is None,
    ensures
        ({
            let (after_suspend, driver) = poll_effect(s, task);
            let (after_resume, resumed) = poll_effect(after_suspend, Seq::empty());
            &&& driver == Seq::<Option<TrapCode>>::empty()
            &&& resumed == task
            &&& after_resume == s
        }),
{
    assert(Seq::<Option<TrapCode>>::empty() + task =~= task);
}

} // verus!
