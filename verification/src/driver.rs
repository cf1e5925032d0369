//! The window loop's decisions: which events stop the loop, when the
//! swapchain and the surface-bound state that depends on it (viewport,
//! depth buffer, framebuffers) must be recreated, and how a frame that
//! could not be acquired or presented is skipped and retried instead
//! of crashing. The loop itself — polling, drawing, presenting — runs
//! outside; it feeds every observation into these transitions and
//! obeys the step they return.

use vstd::prelude::*;

verus! {

/// An input or window observation the event poll hands the driver.
#[derive(Clone, Copy, Debug, PartialEq, Eq, Structural)]
pub enum WindowEvent {
    CloseRequested,
    EscapePressed,
    Resized { width: u32, height: u32 },
    Other,
}

/// What the loop must do with the current iteration.
#[derive(Clone, Copy, Debug, PartialEq, Eq, Structural)]
pub enum FrameStep {
    /// Leave the loop.
    Stop,
    /// Recreate the swapchain and its dependent state before drawing.
    Recreate,
    /// Draw and present a frame.
    Render,
}

/// How recreating the swapchain went. `Recreated` carries the
/// dimensions the new swapchain and its dependent state were built
/// for; `UnsupportedDimensions` is the transient failure seen while a
/// resize is still in progress.
#[derive(Clone, Copy, Debug, PartialEq, Eq, Structural)]
pub enum RecreateOutcome {
    Recreated { width: u32, height: u32 },
    UnsupportedDimensions,
}

/// How acquiring the next swapchain image went.
#[derive(Clone, Copy, Debug, PartialEq, Eq, Structural)]
pub enum AcquireOutcome {
    Acquired,
    OutOfDate,
}

/// How presenting the finished frame went. `Lost` is any other
/// presentation error: the frame is dropped and the loop carries on
/// with a fresh frame, without recreating anything.
#[derive(Clone, Copy, Debug, PartialEq, Eq, Structural)]
pub enum PresentOutcome {
    Presented,
    OutOfDate,
    Lost,
}

/// The loop driver's state between iterations: whether the loop keeps
/// running, whether the swapchain must be recreated before the next
/// draw, the dimensions the surface currently reports, the dimensions
/// the surface-bound state (viewport, depth buffer) was last built
/// for, and how many frames have been presented.
#[derive(Clone, Copy, Debug, PartialEq, Eq, Structural)]
pub struct DriverState {
    pub running: bool,
    pub recreate_swapchain: bool,
    pub surface_width: u32,
    pub surface_height: u32,
    pub viewport_width: u32,
    pub viewport_height: u32,
    pub frames_presented: u64,
}

impl DriverState {
    /// Whenever no recreation is pending, the surface-bound state
    /// matches the surface: a frame is only ever drawn against
    /// up-to-date dimensions.
    pub open spec fn wf(self) -> bool {
        !self.recreate_swapchain ==> self.viewport_width == self.surface_width
            && self.viewport_height == self.surface_height
    }

    pub open spec fn spec_new(width: u32, height: u32) -> DriverState {
        DriverState {
            running: true,
            recreate_swapchain: false,
            surface_width: width,
            surface_height: height,
            viewport_width: width,
            viewport_height: height,
            frames_presented: 0,
        }
    }

    /// A fresh driver for a surface of the given dimensions.
    pub fn new(width: u32, height: u32) -> (s: DriverState)
        ensures
            s == Self::spec_new(width, height),
            s.wf(),
    {
        DriverState {
            running: true,
            recreate_swapchain: false,
            surface_width: width,
            surface_height: height,
            viewport_width: width,
            viewport_height: height,
            frames_presented: 0,
        }
    }

    /// The state after one polled event: close or escape stops the
    /// loop; a resize records the new surface dimensions and marks the
    /// swapchain for recreation; anything else changes nothing.
    pub open spec fn spec_handle_event(self, event: WindowEvent) -> DriverState {
        match event {
            WindowEvent::CloseRequested => DriverState { running: false, ..self },
            WindowEvent::EscapePressed => DriverState { running: false, ..self },
            WindowEvent::Resized { width, height } => DriverState {
                recreate_swapchain: true,
                surface_width: width,
                surface_height: height,
                ..self
            },
            WindowEvent::Other => self,
        }
    }

    pub fn handle_event(&mut self, event: WindowEvent)
        requires
            old(self).wf(),
        ensures
            *final(self) == old(self).spec_handle_event(event),
            final(self).wf(),
    {
        match event {
            WindowEvent::CloseRequested => {
                self.running = false;
            },
            WindowEvent::EscapePressed => {
                self.running = false;
            },
            WindowEvent::Resized { width, height } => {
                self.recreate_swapchain = true;
                self.surface_width = width;
                self.surface_height = height;
            },
            WindowEvent::Other => {},
        }
    }

    /// What the next iteration must do: stop once the loop is no
    /// longer running, otherwise recreate if a recreation is pending,
    /// otherwise render.
    pub open spec fn spec_next_step(self) -> FrameStep {
        if !self.running {
            FrameStep::Stop
        } else if self.recreate_swapchain {
            FrameStep::Recreate
        } else {
            FrameStep::Render
        }
    }

    pub fn next_step(&self) -> (step: FrameStep)
        ensures
            step == self.spec_next_step(),
    {
        if !self.running {
            FrameStep::Stop
        } else if self.recreate_swapchain {
            FrameStep::Recreate
        } else {
            FrameStep::Render
        }
    }

    /// The state after a recreation attempt: success installs the new
    /// dimensions for both the surface and the state rebuilt against
    /// it and clears the pending mark; unsupported dimensions leave
    /// the mark standing, so the frame is skipped and the attempt
    /// retried on the next iteration.
    pub open spec fn spec_on_recreate(self, outcome: RecreateOutcome) -> DriverState {
        match outcome {
            RecreateOutcome::Recreated { width, height } => DriverState {
                recreate_swapchain: false,
                surface_width: width,
                surface_height: height,
                viewport_width: width,
                viewport_height: height,
                ..self
            },
            RecreateOutcome::UnsupportedDimensions => self,
        }
    }

    pub fn on_recreate(&mut self, outcome: RecreateOutcome)
        requires
            old(self).wf(),
        ensures
            *final(self) == old(self).spec_on_recreate(outcome),
            final(self).wf(),
    {
        match outcome {
            RecreateOutcome::Recreated { width, height } => {
                self.recreate_swapchain = false;
                self.surface_width = width;
                self.surface_height = height;
                self.viewport_width = width;
                self.viewport_height = height;
            },
            RecreateOutcome::UnsupportedDimensions => {},
        }
    }

    /// The state after trying to acquire the next swapchain image: an
    /// out-of-date surface marks the swapchain for recreation, and the
    /// frame is skipped.
    pub open spec fn spec_on_acquire(self, outcome: AcquireOutcome) -> DriverState {
        match outcome {
            AcquireOutcome::Acquired => self,
            AcquireOutcome::OutOfDate => DriverState { recreate_swapchain: true, ..self },
        }
    }

    pub fn on_acquire(&mut self, outcome: AcquireOutcome)
        requires
            old(self).wf(),
        ensures
            *final(self) == old(self).spec_on_acquire(outcome),
            final(self).wf(),
    {
        match outcome {
            AcquireOutcome::Acquired => {},
            AcquireOutcome::OutOfDate => {
                self.recreate_swapchain = true;
            },
        }
    }

    /// The state after presenting: success counts the frame; an
    /// out-of-date surface marks the swapchain for recreation; any
    /// other loss drops the frame and changes nothing else.
    pub open spec fn spec_on_present(self, outcome: PresentOutcome) -> DriverState {
        match outcome {
            PresentOutcome::Presented => DriverState {
                frames_presented: if self.frames_presented < u64::MAX {
                    (self.frames_presented + 1) as u64
                } else {
                    self.frames_presented
                },
                ..self
            },
            PresentOutcome::OutOfDate => DriverState { recreate_swapchain: true, ..self },
            PresentOutcome::Lost => self,
        }
    }

    pub fn on_present(&mut self, outcome: PresentOutcome)
        requires
            old(self).wf(),
        ensures
            *final(self) == old(self).spec_on_present(outcome),
            final(self).wf(),
    {
        match outcome {
            PresentOutcome::Presented => {
                if self.frames_presented < u64::MAX {
                    self.frames_presented = self.frames_presented + 1;
                }
            },
            PresentOutcome::OutOfDate => {
                self.recreate_swapchain = true;
            },
            PresentOutcome::Lost => {},
        }
    }
}

/// A resize followed by a successful recreation at the new dimensions
/// leaves a driver that renders again, with no surface-bound state
/// built for the old dimensions: the viewport matches the new surface
/// exactly, and no recreation is pending.
pub proof fn lemma_resize_recovers(s: DriverState, width: u32, height: u32)
    requires
        s.wf(),
        s.running,
    ensures
        ({
            let resized = s.spec_handle_event(WindowEvent::Resized { width, height });
            &&& resized.spec_next_step() == FrameStep::Recreate
            &&& ({
                let recreated = resized.spec_on_recreate(
                    RecreateOutcome::Recreated { width, height },
                );
                &&& recreated.spec_next_step() == FrameStep::Render
                &&& recreated.viewport_width == width
                &&& recreated.viewport_height == height
                &&& recreated.surface_width == width
                &&& recreated.surface_height == height
                &&& !recreated.recreate_swapchain
            })
        }),
{
}

/// An out-of-date result while acquiring or presenting frame N marks
/// the swapchain for recreation and moves on: the loop is still
/// running, frame N is not counted, and the next iteration goes to
/// recreation rather than stopping.
pub proof fn lemma_out_of_date_skips_frame(s: DriverState)
    requires
        s.wf(),
        s.spec_next_step() == FrameStep::Render,
    ensures
        ({
            let after_acquire = s.spec_on_acquire(AcquireOutcome::OutOfDate);
            &&& after_acquire.running
            &&& after_acquire.recreate_swapchain
            &&& after_acquire.frames_presented == s.frames_presented
            &&& after_acquire.spec_next_step() == FrameStep::Recreate
        }),
        ({
            let after_present = s.spec_on_present(PresentOutcome::OutOfDate);
            &&& after_present.running
            &&& after_present.recreate_swapchain
            &&& after_present.frames_presented == s.frames_presented
            &&& after_present.spec_next_step() == FrameStep::Recreate
        }),
{
}

/// A recreation that fails with unsupported dimensions skips the
/// frame but gives nothing up: the pending mark stands, and the next
/// iteration retries the recreation.
pub proof fn lemma_unsupported_dimensions_retries(s: DriverState)
    requires
        s.wf(),
        s.spec_next_step() == FrameStep::Recreate,
    ensures
        ({
            let after = s.spec_on_recreate(RecreateOutcome::UnsupportedDimensions);
            &&& after == s
            &&& after.spec_next_step() == FrameStep::Recreate
        }),
{
}

} // verus!
