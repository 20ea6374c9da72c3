//! The decisions of the streaming driver: what to do with each signal that
//! a step of the codec engine returns.
//!
//! The caller runs the loop. It steps the engine, hands the signal to
//! [`DeltaDriver::on_signal`], performs the action that comes back (read
//! input, write output, fetch a source block) and steps again, until the
//! action is [`Action::Finish`] or [`Action::Fail`].

use vstd::prelude::*;

verus! {

/// Which of the engine's two step operations a pass uses.
#[derive(Debug, Clone, Copy, PartialEq, Eq)]
pub enum Mode {
    Encode,
    Decode,
}

/// The outcome of one step of the codec engine.
#[derive(Debug, Clone, Copy, PartialEq, Eq)]
pub enum Signal {
    NeedInput,
    ProducedOutput,
    NeedSourceBlock,
    HeaderParsed,
    WindowStart,
    WindowFinish,
    TooFarBack,
    Internal,
    Invalid,
    InvalidInput,
    NoSecondCompressor,
    Unimplemented,
}

/// The engine's numeric code for each signal.
pub open spec fn signal_code(s: Signal) -> int {
    match s {
        Signal::NeedInput => -17703,
        Signal::ProducedOutput => -17704,
        Signal::NeedSourceBlock => -17705,
        Signal::HeaderParsed => -17706,
        Signal::WindowStart => -17707,
        Signal::WindowFinish => -17708,
        Signal::TooFarBack => -17709,
        Signal::Internal => -17710,
        Signal::Invalid => -17711,
        Signal::InvalidInput => -17712,
        Signal::NoSecondCompressor => -17713,
        Signal::Unimplemented => -17714,
    }
}

/// Signals after which the pass cannot go on.
pub open spec fn is_fatal(s: Signal) -> bool {
    match s {
        Signal::TooFarBack | Signal::Internal | Signal::Invalid | Signal::InvalidInput
        | Signal::NoSecondCompressor | Signal::Unimplemented => true,
        _ => false,
    }
}

impl Signal {
    /// The engine's numeric code for this signal.
    pub fn code(&self) -> (r: i32)
        ensures
            r == signal_code(*self),
    {
        match self {
            Signal::NeedInput => -17703,
            Signal::ProducedOutput => -17704,
            Signal::NeedSourceBlock => -17705,
            Signal::HeaderParsed => -17706,
            Signal::WindowStart => -17707,
            Signal::WindowFinish => -17708,
            Signal::TooFarBack => -17709,
            Signal::Internal => -17710,
            Signal::Invalid => -17711,
            Signal::InvalidInput => -17712,
            Signal::NoSecondCompressor => -17713,
            Signal::Unimplemented => -17714,
        }
    }

    /// The signal an engine step returned as `code`, if it is one.
    pub fn from_code(code: i32) -> (r: Option<Signal>)
        ensures
            match r {
                Some(s) => signal_code(s) == code,
                None => forall|s: Signal| signal_code(s) != code,
            },
    {
        let r = if code == -17703 {
            Some(Signal::NeedInput)
        } else if code == -17704 {
            Some(Signal::ProducedOutput)
        } else if code == -17705 {
            Some(Signal::NeedSourceBlock)
        } else if code == -17706 {
            Some(Signal::HeaderParsed)
        } else if code == -17707 {
            Some(Signal::WindowStart)
        } else if code == -17708 {
            Some(Signal::WindowFinish)
        } else if code == -17709 {
            Some(Signal::TooFarBack)
        } else if code == -17710 {
            Some(Signal::Internal)
        } else if code == -17711 {
            Some(Signal::Invalid)
        } else if code == -17712 {
            Some(Signal::InvalidInput)
        } else if code == -17713 {
            Some(Signal::NoSecondCompressor)
        } else if code == -17714 {
            Some(Signal::Unimplemented)
        } else {
            None
        };
        proof {
            if r is None {
                assert forall|s: Signal| signal_code(s) != code by {
                    match s {
                        _ => {},
                    }
                }
            }
        }
        r
    }

    /// Whether the pass cannot go on after this signal.
    pub fn is_fatal(&self) -> (r: bool)
        ensures
            r == is_fatal(*self),
    {
        match self {
            Signal::TooFarBack | Signal::Internal | Signal::Invalid | Signal::InvalidInput
            | Signal::NoSecondCompressor | Signal::Unimplemented => true,
            _ => false,
        }
    }
}

/// What the caller does next.
#[derive(Debug, Clone, Copy, PartialEq, Eq)]
pub enum Action {
    /// Read up to a window of input and hand it to the engine.
    ReadInput,
    /// Write the engine's output out in full and mark it consumed.
    WriteOutput,
    /// Serve the engine's source block request from the cache.
    FetchSourceBlock,
    /// Step the engine again.
    Continue,
    /// The pass is complete: flush the output.
    Finish,
    /// The engine failed with this signal: the pass is over.
    Fail(Signal),
}

/// Where a pass stands.
#[derive(Debug, Clone, Copy, PartialEq, Eq)]
pub enum Phase {
    Running,
    Done,
    Failed(Signal),
}

/// The action for signal `s` of a running pass, given whether the input has
/// ended.
pub open spec fn action_for(eof: bool, s: Signal) -> Action {
    match s {
        Signal::NeedInput => if eof {
            Action::Finish
        } else {
            Action::ReadInput
        },
        Signal::ProducedOutput => Action::WriteOutput,
        Signal::NeedSourceBlock => Action::FetchSourceBlock,
        Signal::HeaderParsed | Signal::WindowStart | Signal::WindowFinish => Action::Continue,
        _ => Action::Fail(s),
    }
}

/// The phase a pass enters on `action`.
pub open spec fn phase_after(action: Action) -> Phase {
    match action {
        Action::Finish => Phase::Done,
        Action::Fail(s) => Phase::Failed(s),
        _ => Phase::Running,
    }
}

/// The state of one encode or decode pass.
pub struct DeltaDriver {
    mode: Mode,
    window_size: usize,
    eof: bool,
    phase: Phase,
}

/// What a driver stands for.
pub struct DriverModel {
    pub mode: Mode,
    pub window_size: nat,
    pub eof: bool,
    pub phase: Phase,
}

impl View for DeltaDriver {
    type V = DriverModel;

    closed spec fn view(&self) -> DriverModel {
        DriverModel { mode: self.mode, window_size: self.window_size as nat, eof: self.eof, phase: self.phase }
    }
}

impl DeltaDriver {
    /// A pass in `mode` that reads its input `window_size` bytes at a time.
    pub fn new(mode: Mode, window_size: usize) -> (r: Self)
        ensures
            r@ == (DriverModel { mode, window_size: window_size as nat, eof: false, phase: Phase::Running }),
    {
        DeltaDriver { mode, window_size, eof: false, phase: Phase::Running }
    }

    pub fn mode(&self) -> (r: Mode)
        ensures
            r == self@.mode,
    {
        self.mode
    }

    /// Size of the buffer the input is read into.
    pub fn input_buffer_size(&self) -> (r: usize)
        ensures
            r == self@.window_size,
    {
        self.window_size
    }

    /// Whether the input has ended.
    pub fn eof(&self) -> (r: bool)
        ensures
            r == self@.eof,
    {
        self.eof
    }

    pub fn phase(&self) -> (r: Phase)
        ensures
            r == self@.phase,
    {
        self.phase
    }

    /// Decides what to do with signal `s`. A pass that has ended stays as it
    /// is and repeats its last action.
    pub fn on_signal(&mut self, s: Signal) -> (r: Action)
        ensures
            final(self)@.mode == old(self)@.mode,
            final(self)@.window_size == old(self)@.window_size,
            final(self)@.eof == old(self)@.eof,
            old(self)@.phase == Phase::Running ==> r == action_for(old(self)@.eof, s),
            old(self)@.phase == Phase::Done ==> r == Action::Finish,
            old(self)@.phase matches Phase::Failed(f) ==> r == Action::Fail(f),
            final(self)@.phase == phase_after(r),
    {
        match self.phase {
            Phase::Done => {
                return Action::Finish;
            },
            Phase::Failed(f) => {
                return Action::Fail(f);
            },
            Phase::Running => {},
        }
        let r = match s {
            Signal::NeedInput => if self.eof {
                Action::Finish
            } else {
                Action::ReadInput
            },
            Signal::ProducedOutput => Action::WriteOutput,
            Signal::NeedSourceBlock => Action::FetchSourceBlock,
            Signal::HeaderParsed | Signal::WindowStart | Signal::WindowFinish => Action::Continue,
            _ => Action::Fail(s),
        };
        self.phase = match r {
            Action::Finish => Phase::Done,
            Action::Fail(f) => Phase::Failed(f),
            _ => Phase::Running,
        };
        r
    }

    /// Takes note of a read of `n` bytes of input. An empty read means the
    /// input has ended: the result says to set the engine's flush flag.
    pub fn on_input(&mut self, n: usize) -> (flush: bool)
        ensures
            flush == (n == 0),
            final(self)@ == (DriverModel { eof: old(self)@.eof || n == 0, ..old(self)@ }),
    {
        if n == 0 {
            self.eof = true;
        }
        n == 0
    }
}

/// Every fatal signal ends a running pass in failure, whatever the state of
/// its input: an engine that rejects its input never leads to a finished
/// pass.
pub proof fn lemma_fatal_signal_fails(eof: bool, s: Signal)
    requires
        is_fatal(s),
    ensures
        action_for(eof, s) == Action::Fail(s),
        phase_after(action_for(eof, s)) == Phase::Failed(s),
{
}

/// A running pass finishes only on a request for input after the input has
/// ended.
pub proof fn lemma_finish_only_at_end(eof: bool, s: Signal)
    ensures
        action_for(eof, s) == Action::Finish <==> (eof && s == Signal::NeedInput),
{
}

} // verus!
