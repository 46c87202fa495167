//! The decisions of the real-time pipeline's dispatcher task: its
//! configuration, and what it does with each thing it wakes up to (a
//! frame, the end of the frame stream, a shutdown signal).

use vstd::prelude::*;

verus! {

/// Configuration for the real-time pipeline.
#[derive(Debug, Clone)]
pub struct RtosConfig {
    /// Frames buffered before new ones are dropped.
    pub frame_buffer_size: usize,
    /// Event channel capacity.
    pub event_buffer_size: usize,
    /// Whether task transitions are logged.
    pub trace_tasks: bool,
}

impl Default for RtosConfig {
    /// Four frames of buffer (about 130 ms at 30 fps), 256 events, no
    /// tracing.
    fn default() -> (c: Self)
        ensures
            c.frame_buffer_size == 4,
            c.event_buffer_size == 256,
            !c.trace_tasks,
    {
        RtosConfig { frame_buffer_size: 4, event_buffer_size: 256, trace_tasks: false }
    }
}

/// What the dispatcher woke up to.
#[derive(Debug, Clone, Copy, PartialEq, Eq, Structural)]
pub enum DispatchEvent {
    /// A frame arrived.
    FrameReceived,
    /// Every frame sender is gone.
    FramesClosed,
    /// The shutdown flag changed; it now holds this value.
    ShutdownChanged(bool),
}

/// What the dispatcher does next.
#[derive(Debug, Clone, Copy, PartialEq, Eq, Structural)]
pub enum DispatchAction {
    /// Feed the frame to every enabled node; it is the frame with this
    /// number (counting from 1).
    Process { frame_index: u64 },
    /// Keep waiting.
    Wait,
    /// Leave the loop.
    Stop,
}

/// State of the dispatcher: frames received so far, and whether it has
/// stopped.
pub struct Dispatcher {
    frames: u64,
    stopped: bool,
}

impl Dispatcher {
    /// Frames received so far.
    pub closed spec fn frame_count(&self) -> u64 {
        self.frames
    }

    /// The dispatcher has left its loop.
    pub closed spec fn has_stopped(&self) -> bool {
        self.stopped
    }

    /// A dispatcher that has received nothing.
    pub fn new() -> (d: Self)
        ensures
            d.frame_count() == 0,
            !d.has_stopped(),
    {
        Dispatcher { frames: 0, stopped: false }
    }

    /// Frames received so far.
    pub fn frames_seen(&self) -> (n: u64)
        ensures
            n == self.frame_count(),
    {
        self.frames
    }

    /// Whether the dispatcher has stopped.
    pub fn stopped(&self) -> (b: bool)
        ensures
            b == self.has_stopped(),
    {
        self.stopped
    }

    /// Decides what to do about `e`: a frame is numbered and processed,
    /// the end of the frame stream stops the dispatcher, and so does a
    /// shutdown flag that is now set; a cleared flag changes nothing. Once
    /// stopped, it stays stopped and processes nothing more.
    pub fn on_event(&mut self, e: DispatchEvent) -> (a: DispatchAction)
        requires
            !old(self).has_stopped() && e == DispatchEvent::FrameReceived ==> old(self).frame_count()
                < u64::MAX,
        ensures
            old(self).has_stopped() ==> a == DispatchAction::Stop && final(self).frame_count()
                == old(self).frame_count() && final(self).has_stopped(),
            !old(self).has_stopped() ==> match e {
                DispatchEvent::FrameReceived => {
                    &&& a == DispatchAction::Process { frame_index: (old(self).frame_count() + 1) as u64 }
                    &&& final(self).frame_count() == old(self).frame_count() + 1
                    &&& !final(self).has_stopped()
                },
                DispatchEvent::FramesClosed => {
                    &&& a == DispatchAction::Stop
                    &&& final(self).frame_count() == old(self).frame_count()
                    &&& final(self).has_stopped()
                },
                DispatchEvent::ShutdownChanged(set) => {
                    &&& a == (if set {
                        DispatchAction::Stop
                    } else {
                        DispatchAction::Wait
                    })
                    &&& final(self).frame_count() == old(self).frame_count()
                    &&& final(self).has_stopped() == set
                },
            },
    {
        if self.stopped {
            return DispatchAction::Stop;
        }
        match e {
            DispatchEvent::FrameReceived => {
                self.frames = self.frames + 1;
                DispatchAction::Process { frame_index: self.frames }
            },
            DispatchEvent::FramesClosed => {
                self.stopped = true;
                DispatchAction::Stop
            },
            DispatchEvent::ShutdownChanged(set) => {
                if set {
                    self.stopped = true;
                    DispatchAction::Stop
                } else {
                    DispatchAction::Wait
                }
            },
        }
    }
}

} // verus!
