use std::cell::RefCell;
use std::rc::Rc;

use capture_pipeline::encoder::{BackendFailure, Encoder, Readiness};
use capture_pipeline::error::ErrorKind;
use capture_pipeline::frame::{Frame, Payload, PixelLayout};
use capture_pipeline::output::OutputRegistry;
use capture_pipeline::session::{
    finalize_outcome, submit_outcome, EncoderSession, SessionState, SubmitOutcome,
};
use capture_pipeline::settings::{
    ContainerSettings, ContainerSettingsSubType, VideoSettings, VideoSettingsBuilder,
    VideoSettingsSubType,
};
use capture_pipeline::time::{MonotonicInstant, PresentationTimestamp};

type Log = Rc<RefCell<Vec<String>>>;

/// A backend that answers from a script and writes down what it is asked.
struct Scripted {
    replies: Vec<Result<Readiness, BackendFailure>>,
    flush: Result<(), BackendFailure>,
    finish: Result<(), BackendFailure>,
    log: Log,
}

impl Scripted {
    fn new(replies: Vec<Result<Readiness, BackendFailure>>, log: &Log) -> Self {
        let mut replies = replies;
        replies.reverse();
        Scripted { replies, flush: Ok(()), finish: Ok(()), log: log.clone() }
    }
}

impl Encoder for Scripted {
    fn configure(
        video: &VideoSettings,
        container: &ContainerSettings,
        output: &str,
    ) -> Result<Self, BackendFailure> {
        if output == "refused.mp4" {
            return Err(BackendFailure { code: -3 });
        }
        let log: Log = Rc::new(RefCell::new(Vec::new()));
        log.borrow_mut().push(format!(
            "configure {}x{} {} {} {} {}",
            video.width,
            video.height,
            video.bitrate,
            video.frame_rate,
            video.sub_type.as_str(),
            container.sub_type.as_str()
        ));
        Ok(Scripted { replies: Vec::new(), flush: Ok(()), finish: Ok(()), log })
    }

    fn append_frame(
        &mut self,
        frame: &Frame,
        pts: PresentationTimestamp,
        first: bool,
    ) -> Result<Readiness, BackendFailure> {
        self.log.borrow_mut().push(format!(
            "frame {} at {}{}",
            frame.capture_time().as_nanos(),
            pts.as_nanos(),
            if first { " first" } else { "" }
        ));
        self.replies.pop().unwrap_or(Ok(Readiness::Ready))
    }

    fn flush(&mut self, end: PresentationTimestamp) -> Result<(), BackendFailure> {
        self.log.borrow_mut().push(format!("flush at {}", end.as_nanos()));
        self.flush
    }

    fn finish(&mut self) -> Result<(), BackendFailure> {
        self.log.borrow_mut().push("finish".to_string());
        self.finish
    }
}

fn frame(n: u64) -> Frame {
    Frame::new(
        1,
        1,
        PixelLayout::PackedBGRA8,
        MonotonicInstant::from_nanos(n),
        Payload::Bytes(vec![0; 4]),
    )
    .unwrap()
}

fn pts(n: u64) -> PresentationTimestamp {
    PresentationTimestamp::from_nanos(n)
}

fn session(output: &str) -> EncoderSession<Scripted> {
    EncoderSession::new(output.to_string(), &mut OutputRegistry::new()).expect("a free output")
}

fn writing(replies: Vec<Result<Readiness, BackendFailure>>) -> (EncoderSession<Scripted>, Log) {
    let log: Log = Rc::new(RefCell::new(Vec::new()));
    let mut s = session("out.mp4");
    assert_eq!(s.open(Scripted::new(replies, &log)), Ok(()));
    (s, log)
}

#[test]
fn new_session_is_uninitialized() {
    let s = session("a.mp4");
    assert_eq!(s.state(), SessionState::Uninitialized);
    assert_eq!(s.first_ts(), None);
    assert_eq!(s.last_ts(), None);
    assert_eq!(s.frames_written(), 0);
    assert_eq!(s.output(), "a.mp4");
}

#[test]
fn uninitialized_session_refuses_frames_and_finalize() {
    let mut s = session("a.mp4");
    assert_eq!(s.submit(&frame(1), pts(0)), Err(ErrorKind::SessionClosed));
    assert_eq!(s.flush_and_finalize(), Err(ErrorKind::SessionClosed));
    assert_eq!(s.state(), SessionState::Uninitialized);
}

#[test]
fn init_sets_the_backend_up_with_the_defaults() {
    let mut s = session("a.mp4");
    assert_eq!(s.init(1280, 720), Ok(()));
    assert_eq!(s.state(), SessionState::Writing);
    assert_eq!(s.submit(&frame(1), pts(0)), Ok(SubmitOutcome::Accepted));
    // a second init is refused and changes nothing
    assert_eq!(s.init(1, 1), Err(ErrorKind::SessionClosed));
    assert_eq!(s.state(), SessionState::Writing);
    assert_eq!(s.frames_written(), 1);
}

#[test]
fn init_with_hands_the_settings_on() {
    let mut s = session("a.mp4");
    let video = VideoSettingsBuilder::new(640, 480)
        .sub_type(VideoSettingsSubType::H264)
        .bitrate(1000)
        .frame_rate(25)
        .build();
    let container = ContainerSettings { sub_type: ContainerSettingsSubType::AVI };
    assert_eq!(s.init_with(video, container), Ok(()));
    assert_eq!(s.state(), SessionState::Writing);
}

#[test]
fn a_backend_that_cannot_be_set_up_closes_the_session() {
    let mut s = session("refused.mp4");
    assert_eq!(s.init(1280, 720), Err(ErrorKind::BackendFatalError));
    assert_eq!(s.state(), SessionState::Closed);
    assert_eq!(s.init(1280, 720), Err(ErrorKind::SessionClosed));
    assert_eq!(s.submit(&frame(1), pts(0)), Err(ErrorKind::SessionClosed));
}

#[test]
fn open_is_for_uninitialized_sessions_only() {
    let (mut s, log) = writing(vec![]);
    assert_eq!(s.open(Scripted::new(vec![], &log)), Err(ErrorKind::SessionClosed));
    assert_eq!(s.state(), SessionState::Writing);
    assert_eq!(s.flush_and_finalize(), Ok(()));
    assert_eq!(s.open(Scripted::new(vec![], &log)), Err(ErrorKind::SessionClosed));
    assert_eq!(s.state(), SessionState::Closed);
}

#[test]
fn accepted_frames_are_counted_and_remembered() {
    let (mut s, log) = writing(vec![]);
    assert_eq!(s.submit(&frame(1000), pts(0)), Ok(SubmitOutcome::Accepted));
    assert_eq!(s.submit(&frame(1016), pts(16)), Ok(SubmitOutcome::Accepted));
    assert_eq!(s.state(), SessionState::Writing);
    assert_eq!(s.frames_written(), 2);
    assert_eq!(s.first_ts(), Some(MonotonicInstant::from_nanos(1000)));
    assert_eq!(s.last_ts(), Some(pts(16)));
    assert_eq!(*log.borrow(), vec!["frame 1000 at 0 first", "frame 1016 at 16"]);
}

#[test]
fn backpressure_is_no_error_and_changes_nothing() {
    let (mut s, log) = writing(vec![Ok(Readiness::NotReady), Ok(Readiness::Ready)]);
    assert_eq!(s.submit(&frame(10), pts(0)), Ok(SubmitOutcome::Backpressured));
    assert_eq!(s.state(), SessionState::Writing);
    assert_eq!(s.frames_written(), 0);
    assert_eq!(s.first_ts(), None);
    assert_eq!(s.last_ts(), None);
    // offered once, not again behind the caller's back
    assert_eq!(*log.borrow(), vec!["frame 10 at 0 first"]);
    // the backend has still taken none, so the next frame is the first again
    assert_eq!(s.submit(&frame(20), pts(10)), Ok(SubmitOutcome::Accepted));
    assert_eq!(s.first_ts(), Some(MonotonicInstant::from_nanos(20)));
    assert_eq!(s.submit(&frame(30), pts(20)), Ok(SubmitOutcome::Accepted));
    assert_eq!(
        *log.borrow(),
        vec!["frame 10 at 0 first", "frame 20 at 10 first", "frame 30 at 20"]
    );
}

#[test]
fn a_backend_failure_closes_the_session_after_sealing_what_it_has() {
    let (mut s, log) = writing(vec![Ok(Readiness::Ready), Err(BackendFailure { code: 5 })]);
    assert_eq!(s.submit(&frame(1), pts(0)), Ok(SubmitOutcome::Accepted));
    assert_eq!(s.submit(&frame(2), pts(1)), Err(ErrorKind::BackendFatalError));
    assert_eq!(s.state(), SessionState::Closed);
    assert_eq!(s.frames_written(), 1);
    assert_eq!(*log.borrow(), vec!["frame 1 at 0 first", "frame 2 at 1", "finish"]);
    assert_eq!(s.submit(&frame(3), pts(2)), Err(ErrorKind::SessionClosed));
    assert_eq!(s.flush_and_finalize(), Err(ErrorKind::SessionClosed));
    assert_eq!(log.borrow().len(), 3);
}

#[test]
fn finalize_flushes_then_seals() {
    let (mut s, log) = writing(vec![]);
    assert_eq!(s.submit(&frame(1), pts(0)), Ok(SubmitOutcome::Accepted));
    assert_eq!(s.submit(&frame(9), pts(8)), Ok(SubmitOutcome::Accepted));
    assert_eq!(s.last_ts(), Some(pts(8)));
    assert_eq!(s.flush_and_finalize(), Ok(()));
    assert_eq!(s.state(), SessionState::Closed);
    // the stream ends at the last timestamp, which the session then lets go
    assert_eq!(*log.borrow(), vec!["frame 1 at 0 first", "frame 9 at 8", "flush at 8", "finish"]);
    assert_eq!(s.last_ts(), None);
    assert_eq!(s.first_ts(), Some(MonotonicInstant::from_nanos(1)));
    assert_eq!(s.frames_written(), 2);
}

#[test]
fn a_stream_without_frames_ends_at_zero() {
    let (mut s, log) = writing(vec![]);
    assert_eq!(s.flush_and_finalize(), Ok(()));
    assert_eq!(*log.borrow(), vec!["flush at 0", "finish"]);
    assert_eq!(s.last_ts(), None);
}

#[test]
fn many_frames_reach_the_backend_once_each_and_in_order() {
    let (mut s, log) = writing(vec![]);
    let mut expected = Vec::new();
    for n in 0..50u64 {
        assert_eq!(s.submit(&frame(100 + n), pts(n)), Ok(SubmitOutcome::Accepted));
        expected.push(format!("frame {} at {}{}", 100 + n, n, if n == 0 { " first" } else { "" }));
    }
    assert_eq!(*log.borrow(), expected);
    assert_eq!(s.frames_written(), 50);
}

#[test]
fn an_output_is_written_by_one_session_at_a_time() {
    let mut outputs = OutputRegistry::new();
    let first: Option<EncoderSession<Scripted>> =
        EncoderSession::new("a.mp4".to_string(), &mut outputs);
    let mut first = first.expect("a free output");
    assert!(outputs.is_active("a.mp4"));
    let second: Option<EncoderSession<Scripted>> =
        EncoderSession::new("a.mp4".to_string(), &mut outputs);
    assert!(second.is_none());
    let other: Option<EncoderSession<Scripted>> =
        EncoderSession::new("b.mp4".to_string(), &mut outputs);
    assert!(other.is_some());

    // a running session keeps its file
    let log: Log = Rc::new(RefCell::new(Vec::new()));
    assert_eq!(first.open(Scripted::new(vec![], &log)), Ok(()));
    assert!(!first.release_output(&mut outputs));
    assert!(outputs.is_active("a.mp4"));

    // a closed one gives it back, once
    assert_eq!(first.flush_and_finalize(), Ok(()));
    assert!(first.release_output(&mut outputs));
    assert!(!outputs.is_active("a.mp4"));
    assert!(outputs.is_active("b.mp4"));
    assert!(!first.release_output(&mut outputs));
    let again: Option<EncoderSession<Scripted>> =
        EncoderSession::new("a.mp4".to_string(), &mut outputs);
    assert!(again.is_some());
}

#[test]
fn a_session_that_never_started_is_closed_by_giving_its_output_back() {
    let mut outputs = OutputRegistry::new();
    let s: Option<EncoderSession<Scripted>> = EncoderSession::new("a.mp4".to_string(), &mut outputs);
    let mut s = s.expect("a free output");
    assert!(s.release_output(&mut outputs));
    assert!(!outputs.is_active("a.mp4"));
    assert_eq!(s.state(), SessionState::Closed);
    assert_eq!(s.init(640, 480), Err(ErrorKind::SessionClosed));
    assert!(!s.release_output(&mut outputs));
}

#[test]
fn second_finalize_fails_and_calls_nothing() {
    let (mut s, log) = writing(vec![]);
    assert_eq!(s.flush_and_finalize(), Ok(()));
    let calls = log.borrow().len();
    assert_eq!(s.flush_and_finalize(), Err(ErrorKind::SessionClosed));
    assert_eq!(s.flush_and_finalize(), Err(ErrorKind::SessionClosed));
    assert_eq!(log.borrow().len(), calls);
    assert_eq!(s.state(), SessionState::Closed);
    assert_eq!(s.submit(&frame(1), pts(0)), Err(ErrorKind::SessionClosed));
    assert_eq!(log.borrow().len(), calls);
}

#[test]
fn a_failed_flush_still_seals() {
    let log: Log = Rc::new(RefCell::new(Vec::new()));
    let mut backend = Scripted::new(vec![], &log);
    backend.flush = Err(BackendFailure { code: 1 });
    let mut s = session("out.mp4");
    assert_eq!(s.open(backend), Ok(()));
    assert_eq!(s.flush_and_finalize(), Err(ErrorKind::BackendFatalError));
    assert_eq!(s.state(), SessionState::Closed);
    assert_eq!(*log.borrow(), vec!["flush at 0", "finish"]);
}

#[test]
fn a_failed_seal_is_reported() {
    let log: Log = Rc::new(RefCell::new(Vec::new()));
    let mut backend = Scripted::new(vec![], &log);
    backend.finish = Err(BackendFailure { code: 2 });
    let mut s = session("out.mp4");
    assert_eq!(s.open(backend), Ok(()));
    assert_eq!(s.flush_and_finalize(), Err(ErrorKind::BackendFatalError));
    assert_eq!(s.state(), SessionState::Closed);
}

#[test]
fn outcomes_for_each_answer() {
    assert_eq!(submit_outcome(Ok(Readiness::Ready)), Ok(SubmitOutcome::Accepted));
    assert_eq!(submit_outcome(Ok(Readiness::NotReady)), Ok(SubmitOutcome::Backpressured));
    assert_eq!(
        submit_outcome(Err(BackendFailure { code: 9 })),
        Err(ErrorKind::BackendFatalError)
    );
    let bad = Err(BackendFailure { code: 9 });
    assert_eq!(finalize_outcome(Ok(()), Ok(())), Ok(()));
    assert_eq!(finalize_outcome(bad, Ok(())), Err(ErrorKind::BackendFatalError));
    assert_eq!(finalize_outcome(Ok(()), bad), Err(ErrorKind::BackendFatalError));
    assert_eq!(finalize_outcome(bad, bad), Err(ErrorKind::BackendFatalError));
}

#[test]
fn error_messages_and_fatality() {
    assert_eq!(ErrorKind::UnsupportedPixelFormat.message(), "unsupported pixel format");
    assert_eq!(ErrorKind::BackendFatalError.message(), "encoder backend failed");
    assert_eq!(ErrorKind::SessionClosed.message(), "encoder session is closed");
    assert_eq!(
        ErrorKind::ChannelClosedUnexpectedly.message(),
        "frame channel closed without end of stream"
    );
    assert!(!ErrorKind::UnsupportedPixelFormat.fatal());
    assert!(ErrorKind::BackendFatalError.fatal());
    assert!(ErrorKind::SessionClosed.fatal());
    assert!(ErrorKind::ChannelClosedUnexpectedly.fatal());
}
