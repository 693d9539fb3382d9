//! Closing the main window: asked once, confirmed by the user, completed
//! after the closing sync, and finished exactly once.
use vstd::prelude::*;

verus! {

/// Where closing the main window stands: finished, the confirmation shown,
/// the window waiting to close once the sync completes, the sync completed.
#[derive(Clone, Copy, Debug, PartialEq, Eq, Structural)]
pub struct CloseFlow {
    pub finalized: bool,
    pub prompt_open: bool,
    pub pending_window: Option<u64>,
    pub sync_completed: bool,
}

/// What confirming the close asks for.
#[derive(Clone, Copy, Debug, PartialEq, Eq, Structural)]
pub enum ConfirmedClose {
    /// The sync has completed: finish closing the window now.
    FinishNow,
    /// Let the closing sync go on; the window closes when it completes.
    AwaitSync,
}

/// What finishing the close gives from state `f`: whether this finish did
/// it, and the state after.
pub open spec fn finalized_from(f: CloseFlow) -> (bool, CloseFlow) {
    if f.finalized {
        (false, f)
    } else {
        (true, CloseFlow { finalized: true, prompt_open: false, ..f })
    }
}

/// What asking to close gives from state `f`: whether to show the
/// confirmation and start the closing sync, and the state after.
pub open spec fn requested_from(f: CloseFlow) -> (bool, CloseFlow) {
    if f.finalized || f.prompt_open || f.pending_window is Some {
        (false, f)
    } else {
        (true, CloseFlow { prompt_open: true, ..f })
    }
}

impl CloseFlow {
    /// Nothing is closing yet.
    pub fn new() -> (r: Self)
        ensures
            r == (CloseFlow {
                finalized: false,
                prompt_open: false,
                pending_window: None,
                sync_completed: false,
            }),
    {
        CloseFlow { finalized: false, prompt_open: false, pending_window: None, sync_completed: false }
    }

    /// The user asks to close the window: returns whether to show the
    /// confirmation and start the closing sync, which happens unless the
    /// window already closed, the confirmation is already shown, or the
    /// window already waits for the sync.
    pub fn request(&mut self) -> (ask: bool)
        ensures
            (ask, *final(self)) == requested_from(*old(self)),
    {
        if self.finalized || self.prompt_open || self.pending_window.is_some() {
            return false;
        }
        self.prompt_open = true;
        true
    }

    /// Whether the window may close at the platform's request: only once
    /// closing finished; otherwise closing is asked for (`request`).
    pub fn window_should_close(&mut self) -> (r: (bool, bool))
        ensures
            r.0 == old(self).finalized,
            old(self).finalized ==> !r.1 && *final(self) == *old(self),
            !old(self).finalized ==> (r.1, *final(self)) == requested_from(*old(self)),
    {
        if self.finalized {
            return (true, false);
        }
        let ask = self.request();
        (false, ask)
    }

    /// The confirmation was dismissed.
    pub fn prompt_closed(&mut self)
        ensures
            *final(self) == (CloseFlow { prompt_open: false, ..*old(self) }),
    {
        self.prompt_open = false;
    }

    /// The user cancelled: the window stays.
    pub fn cancelled(&mut self)
        ensures
            *final(self) == (CloseFlow { prompt_open: false, pending_window: None, ..*old(self) }),
    {
        self.prompt_open = false;
        self.pending_window = None;
    }

    /// The closing sync completed.
    pub fn sync_finished(&mut self)
        ensures
            *final(self) == (CloseFlow { sync_completed: true, ..*old(self) }),
    {
        self.sync_completed = true;
    }

    /// The user confirmed closing window `window`: it closes now when the
    /// sync has completed, otherwise it waits for the sync.
    pub fn confirmed(&mut self, window: u64) -> (r: ConfirmedClose)
        ensures
            old(self).sync_completed ==> r == ConfirmedClose::FinishNow && *final(self) == (
            CloseFlow { prompt_open: false, pending_window: None, ..*old(self) }),
            !old(self).sync_completed ==> r == ConfirmedClose::AwaitSync && *final(self) == (
            CloseFlow { prompt_open: false, pending_window: Some(window), ..*old(self) }),
    {
        self.prompt_open = false;
        self.pending_window = Some(window);
        if self.sync_completed {
            self.pending_window = None;
            ConfirmedClose::FinishNow
        } else {
            ConfirmedClose::AwaitSync
        }
    }

    /// The sync let a waiting close go on: the window waiting to close, if
    /// any, no longer waits.
    pub fn approve_pending(&mut self) -> (r: Option<u64>)
        ensures
            r == old(self).pending_window,
            *final(self) == (CloseFlow { pending_window: None, ..*old(self) }),
    {
        let window = self.pending_window;
        self.pending_window = None;
        window
    }

    /// Closing the approved window failed: the user may ask again.
    pub fn approval_failed(&mut self)
        ensures
            *final(self) == (CloseFlow { prompt_open: false, ..*old(self) }),
    {
        self.prompt_open = false;
    }

    /// Finishes closing; returns whether this call did it (the window's
    /// state is then to be saved and its resources released).
    pub fn finalize(&mut self) -> (first: bool)
        ensures
            (first, *final(self)) == finalized_from(*old(self)),
    {
        if self.finalized {
            return false;
        }
        self.finalized = true;
        self.prompt_open = false;
        true
    }
}

/// Closing finishes at most once: once a finish did it, finishing again
/// does nothing and reports so, and asking to close again shows no
/// confirmation and changes nothing.
pub proof fn closing_finishes_once(f: CloseFlow)
    ensures
        ({
            let (first, g) = finalized_from(f);
            let (again, h) = finalized_from(g);
            let (ask, k) = requested_from(g);
            &&& !again && h == g
            &&& !ask && k == g
        }),
{
}

} // verus!
