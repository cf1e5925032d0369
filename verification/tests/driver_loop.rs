use engine::driver::{
    AcquireOutcome, DriverState, FrameStep, PresentOutcome, RecreateOutcome, WindowEvent,
};

#[test]
fn fresh_driver_renders() {
    let d = DriverState::new(1280, 720);
    assert!(d.running);
    assert!(!d.recreate_swapchain);
    assert_eq!(d.next_step(), FrameStep::Render);
    assert_eq!((d.surface_width, d.surface_height), (1280, 720));
    assert_eq!((d.viewport_width, d.viewport_height), (1280, 720));
}

#[test]
fn resize_recreates_dependent_state() {
    let mut d = DriverState::new(1280, 720);
    d.handle_event(WindowEvent::Resized { width: 800, height: 600 });
    assert!(d.recreate_swapchain);
    assert_eq!((d.surface_width, d.surface_height), (800, 600));
    assert_eq!(d.next_step(), FrameStep::Recreate);
    d.on_recreate(RecreateOutcome::Recreated { width: 800, height: 600 });
    assert!(!d.recreate_swapchain);
    assert_eq!((d.viewport_width, d.viewport_height), (800, 600));
    assert_eq!((d.surface_width, d.surface_height), (800, 600));
    assert_eq!(d.next_step(), FrameStep::Render);
}

#[test]
fn out_of_date_acquire_skips_frame_and_recovers() {
    let mut d = DriverState::new(1280, 720);
    assert_eq!(d.next_step(), FrameStep::Render);
    d.on_acquire(AcquireOutcome::OutOfDate);
    assert!(d.running);
    assert!(d.recreate_swapchain);
    assert_eq!(d.frames_presented, 0);
    assert_eq!(d.next_step(), FrameStep::Recreate);
    d.on_recreate(RecreateOutcome::Recreated { width: 1280, height: 720 });
    assert_eq!(d.next_step(), FrameStep::Render);
}

#[test]
fn out_of_date_present_marks_recreation() {
    let mut d = DriverState::new(1280, 720);
    d.on_acquire(AcquireOutcome::Acquired);
    d.on_present(PresentOutcome::OutOfDate);
    assert!(d.running);
    assert!(d.recreate_swapchain);
    assert_eq!(d.frames_presented, 0);
    assert_eq!(d.next_step(), FrameStep::Recreate);
}

#[test]
fn unsupported_dimensions_retries_next_iteration() {
    let mut d = DriverState::new(1280, 720);
    d.handle_event(WindowEvent::Resized { width: 0, height: 0 });
    assert_eq!(d.next_step(), FrameStep::Recreate);
    d.on_recreate(RecreateOutcome::UnsupportedDimensions);
    assert!(d.running);
    assert!(d.recreate_swapchain);
    assert_eq!(d.next_step(), FrameStep::Recreate);
}

#[test]
fn close_and_escape_stop_the_loop() {
    let mut d = DriverState::new(1280, 720);
    d.handle_event(WindowEvent::CloseRequested);
    assert!(!d.running);
    assert_eq!(d.next_step(), FrameStep::Stop);

    let mut d2 = DriverState::new(1280, 720);
    d2.handle_event(WindowEvent::EscapePressed);
    assert!(!d2.running);
    assert_eq!(d2.next_step(), FrameStep::Stop);
}

#[test]
fn other_events_change_nothing() {
    let mut d = DriverState::new(1280, 720);
    let before = d;
    d.handle_event(WindowEvent::Other);
    assert_eq!(d, before);
}

#[test]
fn presented_frames_are_counted() {
    let mut d = DriverState::new(1280, 720);
    d.on_present(PresentOutcome::Presented);
    d.on_present(PresentOutcome::Presented);
    assert_eq!(d.frames_presented, 2);
    d.on_present(PresentOutcome::Lost);
    assert_eq!(d.frames_presented, 2);
    assert!(!d.recreate_swapchain);
}
