use std::cell::RefCell;
use std::rc::Rc;

use capture_pipeline::channel::{ChannelItem, FrameChannel};
use capture_pipeline::encoder::{BackendFailure, Encoder, Readiness};
use capture_pipeline::error::ErrorKind;
use capture_pipeline::frame::{Frame, Payload, PixelLayout};
use capture_pipeline::output::OutputRegistry;
use capture_pipeline::pipeline::{PipelineController, PipelineReport, Progress};
use capture_pipeline::session::EncoderSession;
use capture_pipeline::settings::{ContainerSettings, VideoSettings};
use capture_pipeline::time::{MonotonicInstant, PresentationTimestamp};

type Log = Rc<RefCell<Vec<String>>>;

/// A backend that answers from a script and writes down what it is asked.
struct Recorder {
    replies: Vec<Result<Readiness, BackendFailure>>,
    log: Log,
}

impl Encoder for Recorder {
    fn configure(
        _video: &VideoSettings,
        _container: &ContainerSettings,
        _output: &str,
    ) -> Result<Self, BackendFailure> {
        Ok(Recorder { replies: Vec::new(), log: Rc::new(RefCell::new(Vec::new())) })
    }

    fn append_frame(
        &mut self,
        frame: &Frame,
        pts: PresentationTimestamp,
        _first: bool,
    ) -> Result<Readiness, BackendFailure> {
        self.log.borrow_mut().push(format!(
            "frame {} at {} as {}x{}",
            frame.capture_time().as_nanos(),
            pts.as_nanos(),
            frame.width(),
            frame.height()
        ));
        self.replies.pop().unwrap_or(Ok(Readiness::Ready))
    }

    fn flush(&mut self, _end: PresentationTimestamp) -> Result<(), BackendFailure> {
        self.log.borrow_mut().push("flush".to_string());
        Ok(())
    }

    fn finish(&mut self) -> Result<(), BackendFailure> {
        self.log.borrow_mut().push("finish".to_string());
        Ok(())
    }
}

fn fresh_session() -> EncoderSession<Recorder> {
    EncoderSession::new("video.mp4".to_string(), &mut OutputRegistry::new()).expect("a free output")
}

fn controller(
    replies: Vec<Result<Readiness, BackendFailure>>,
) -> (PipelineController<Recorder>, Log) {
    let log: Log = Rc::new(RefCell::new(Vec::new()));
    let mut replies = replies;
    replies.reverse();
    let mut session = fresh_session();
    assert_eq!(session.open(Recorder { replies, log: log.clone() }), Ok(()));
    (PipelineController::new(session, PixelLayout::PackedBGRA8, 2, 2), log)
}

fn frame(n: u64) -> ChannelItem {
    ChannelItem::Frame(
        Frame::new(
            2,
            2,
            PixelLayout::PackedBGRA8,
            MonotonicInstant::from_nanos(n),
            Payload::Bytes(vec![n as u8; 16]),
        )
        .unwrap(),
    )
}

fn surface(n: u64) -> ChannelItem {
    ChannelItem::Frame(
        Frame::new(
            2,
            2,
            PixelLayout::OpaqueSurfaceHandle,
            MonotonicInstant::from_nanos(n),
            Payload::Surface(1),
        )
        .unwrap(),
    )
}

#[test]
fn end_of_stream_with_no_frames_still_finalizes() {
    let (mut c, log) = controller(vec![]);
    assert_eq!(c.handle(ChannelItem::EndOfStream), Progress::Finished);
    assert_eq!(*log.borrow(), vec!["flush", "finish"]);
    assert_eq!(
        c.report(),
        PipelineReport { frames_written: 0, frames_dropped: 0, error: None, finished: true }
    );
    assert!(c.is_finished());
}

#[test]
fn frames_are_stamped_and_submitted_in_order() {
    let (mut c, log) = controller(vec![]);
    assert_eq!(c.handle(frame(1000)), Progress::Continue);
    assert_eq!(c.handle(frame(1016)), Progress::Continue);
    assert_eq!(c.handle(frame(1033)), Progress::Continue);
    assert!(!c.is_finished());
    assert_eq!(c.handle(ChannelItem::EndOfStream), Progress::Finished);
    assert_eq!(
        *log.borrow(),
        vec![
            "frame 1000 at 0 as 2x2",
            "frame 1016 at 16 as 2x2",
            "frame 1033 at 33 as 2x2",
            "flush",
            "finish"
        ]
    );
    assert_eq!(
        c.report(),
        PipelineReport { frames_written: 3, frames_dropped: 0, error: None, finished: true }
    );
}

#[test]
fn frames_are_adapted_before_they_are_submitted() {
    let log: Log = Rc::new(RefCell::new(Vec::new()));
    let mut session = fresh_session();
    assert_eq!(session.open(Recorder { replies: vec![], log: log.clone() }), Ok(()));
    let mut c = PipelineController::new(session, PixelLayout::PackedBGRA8, 4, 1);
    assert_eq!(c.handle(frame(7)), Progress::Continue);
    assert_eq!(*log.borrow(), vec!["frame 7 at 0 as 4x1"]);
}

#[test]
fn a_frame_the_backend_is_not_ready_for_is_dropped_and_the_next_goes_on() {
    let (mut c, log) = controller(vec![Ok(Readiness::Ready), Ok(Readiness::NotReady)]);
    assert_eq!(c.handle(frame(10)), Progress::Continue);
    assert_eq!(c.handle(frame(20)), Progress::Continue);
    assert_eq!(c.handle(frame(30)), Progress::Continue);
    assert_eq!(c.handle(ChannelItem::EndOfStream), Progress::Finished);
    // frame 20 was offered once and never again
    assert_eq!(
        *log.borrow(),
        vec![
            "frame 10 at 0 as 2x2",
            "frame 20 at 10 as 2x2",
            "frame 30 at 20 as 2x2",
            "flush",
            "finish"
        ]
    );
    assert_eq!(
        c.report(),
        PipelineReport { frames_written: 2, frames_dropped: 1, error: None, finished: true }
    );
}

#[test]
fn a_frame_that_cannot_be_adapted_is_dropped_and_the_next_goes_on() {
    let (mut c, log) = controller(vec![]);
    assert_eq!(c.handle(frame(10)), Progress::Continue);
    assert_eq!(c.handle(surface(20)), Progress::Continue);
    assert_eq!(c.handle(frame(30)), Progress::Continue);
    assert_eq!(*log.borrow(), vec!["frame 10 at 0 as 2x2", "frame 30 at 20 as 2x2"]);
    assert_eq!(
        c.report(),
        PipelineReport { frames_written: 2, frames_dropped: 1, error: None, finished: false }
    );
}

#[test]
fn a_backend_failure_ends_the_recording() {
    let (mut c, log) = controller(vec![Ok(Readiness::Ready), Err(BackendFailure { code: 1 })]);
    assert_eq!(c.handle(frame(10)), Progress::Continue);
    assert_eq!(c.handle(frame(20)), Progress::Finished);
    assert_eq!(*log.borrow(), vec!["frame 10 at 0 as 2x2", "frame 20 at 10 as 2x2", "finish"]);
    // what follows is ignored
    assert_eq!(c.handle(frame(30)), Progress::Finished);
    assert_eq!(c.handle(ChannelItem::EndOfStream), Progress::Finished);
    assert_eq!(log.borrow().len(), 3);
    assert_eq!(
        c.report(),
        PipelineReport {
            frames_written: 1,
            frames_dropped: 0,
            error: Some(ErrorKind::BackendFatalError),
            finished: true
        }
    );
}

#[test]
fn a_second_marker_finalizes_nothing() {
    let (mut c, log) = controller(vec![]);
    assert_eq!(c.handle(ChannelItem::EndOfStream), Progress::Finished);
    assert_eq!(c.handle(ChannelItem::EndOfStream), Progress::Finished);
    assert_eq!(*log.borrow(), vec!["flush", "finish"]);
    assert_eq!(c.report().error, None);
}

#[test]
fn a_session_that_is_not_writing_ends_the_recording() {
    let session = fresh_session();
    let mut c = PipelineController::new(session, PixelLayout::PackedBGRA8, 2, 2);
    assert_eq!(c.handle(frame(1)), Progress::Finished);
    assert_eq!(c.report().error, Some(ErrorKind::SessionClosed));
    let session = fresh_session();
    let mut c = PipelineController::new(session, PixelLayout::PackedBGRA8, 2, 2);
    assert_eq!(c.handle(ChannelItem::EndOfStream), Progress::Finished);
    assert_eq!(c.report().error, Some(ErrorKind::SessionClosed));
}

#[test]
fn a_closed_channel_finalizes_what_was_received() {
    let (mut c, log) = controller(vec![]);
    assert_eq!(c.handle(frame(10)), Progress::Continue);
    assert_eq!(c.channel_closed(), Progress::Finished);
    assert_eq!(*log.borrow(), vec!["frame 10 at 0 as 2x2", "flush", "finish"]);
    assert_eq!(
        c.report(),
        PipelineReport {
            frames_written: 1,
            frames_dropped: 0,
            error: Some(ErrorKind::ChannelClosedUnexpectedly),
            finished: true
        }
    );
    // and only once
    assert_eq!(c.channel_closed(), Progress::Finished);
    assert_eq!(log.borrow().len(), 3);
}

#[test]
fn pump_takes_everything_up_to_the_marker() {
    let (mut c, log) = controller(vec![]);
    let mut channel = FrameChannel::new();
    assert!(channel.send(frame(5)));
    assert!(channel.send(frame(6)));
    assert_eq!(c.pump(&mut channel), Progress::Continue);
    assert!(channel.is_empty());
    assert_eq!(log.borrow().len(), 2);
    // nothing waiting: nothing happens
    assert_eq!(c.pump(&mut channel), Progress::Continue);
    assert_eq!(log.borrow().len(), 2);
    assert!(channel.send(frame(9)));
    assert!(channel.send(ChannelItem::EndOfStream));
    assert_eq!(c.pump(&mut channel), Progress::Finished);
    assert!(channel.is_empty());
    assert_eq!(
        *log.borrow(),
        vec![
            "frame 5 at 0 as 2x2",
            "frame 6 at 1 as 2x2",
            "frame 9 at 4 as 2x2",
            "flush",
            "finish"
        ]
    );
    assert_eq!(c.report().frames_written, 3);
}

#[test]
fn pump_stops_where_the_recording_ends() {
    let (mut c, log) = controller(vec![Err(BackendFailure { code: 1 })]);
    let mut channel = FrameChannel::new();
    assert!(channel.send(frame(5)));
    assert!(channel.send(frame(6)));
    assert!(channel.send(ChannelItem::EndOfStream));
    assert_eq!(c.pump(&mut channel), Progress::Finished);
    // the frame that failed was taken, the rest was left
    assert_eq!(channel.recv(), Ok(Some(frame(6))));
    assert_eq!(*log.borrow(), vec!["frame 5 at 0 as 2x2", "finish"]);
}

#[test]
fn pump_notices_a_producer_that_left() {
    let (mut c, log) = controller(vec![]);
    let mut channel = FrameChannel::new();
    assert!(channel.send(frame(5)));
    channel.hang_up();
    assert_eq!(c.pump(&mut channel), Progress::Finished);
    assert_eq!(*log.borrow(), vec!["frame 5 at 0 as 2x2", "flush", "finish"]);
    assert_eq!(c.report().error, Some(ErrorKind::ChannelClosedUnexpectedly));
    assert_eq!(c.report().frames_written, 1);
}

#[test]
fn the_output_is_given_back_when_the_recording_is_over() {
    let mut outputs = OutputRegistry::new();
    let log: Log = Rc::new(RefCell::new(Vec::new()));
    let made: Option<EncoderSession<Recorder>> =
        EncoderSession::new("video.mp4".to_string(), &mut outputs);
    let mut session = made.expect("a free output");
    assert_eq!(session.open(Recorder { replies: vec![], log: log.clone() }), Ok(()));
    let mut c = PipelineController::new(session, PixelLayout::PackedBGRA8, 2, 2);
    assert_eq!(c.handle(frame(1)), Progress::Continue);
    assert!(!c.release_output(&mut outputs));
    assert!(outputs.is_active("video.mp4"));
    assert_eq!(c.handle(ChannelItem::EndOfStream), Progress::Finished);
    assert!(c.release_output(&mut outputs));
    assert!(!outputs.is_active("video.mp4"));
    assert!(!c.release_output(&mut outputs));
    assert_eq!(log.borrow().len(), 3);
}
