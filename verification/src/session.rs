//! The encoder session: the only owner of a backend, and the state machine
//! that decides which calls reach it.

use crate::encoder::{BackendCall, BackendFailure, Encoder, Handle, Readiness};
use crate::error::ErrorKind;
use crate::frame::{Frame, FrameView};
use crate::output::OutputRegistry;
use crate::settings::{
    ContainerSettings, ContainerSettingsBuilder, ContainerSettingsSubType, VideoSettings,
    VideoSettingsBuilder,
};
use crate::time::{MonotonicInstant, PresentationTimestamp};
use vstd::prelude::*;

verus! {

/// Where a session stands.
#[derive(Clone, Copy, Debug, PartialEq, Eq, Structural)]
pub enum SessionState {
    /// No backend yet.
    Uninitialized,
    /// Frames are accepted.
    Writing,
    /// Flushing and sealing. A session is here only while
    /// `flush_and_finalize` runs.
    Finishing,
    /// The backend is gone. Nothing is accepted any more.
    Closed,
}

/// What became of a submitted frame.
#[derive(Clone, Copy, Debug, PartialEq, Eq, Structural)]
pub enum SubmitOutcome {
    /// The backend took the frame.
    Accepted,
    /// The backend was not ready. The frame was not written and the
    /// session goes on; to offer it again or to drop it is the caller's
    /// choice.
    Backpressured,
}

/// The outcome of `submit` for each answer of the backend.
pub open spec fn submit_result(reply: Result<Readiness, BackendFailure>) -> Result<
    SubmitOutcome,
    ErrorKind,
> {
    match reply {
        Ok(Readiness::Ready) => Ok(SubmitOutcome::Accepted),
        Ok(Readiness::NotReady) => Ok(SubmitOutcome::Backpressured),
        Err(_) => Err(ErrorKind::BackendFatalError),
    }
}

/// The outcome of `flush_and_finalize` for each pair of answers of the
/// backend.
pub open spec fn finalize_result(
    flushed: Result<(), BackendFailure>,
    sealed: Result<(), BackendFailure>,
) -> Result<(), ErrorKind> {
    if flushed is Ok && sealed is Ok {
        Ok(())
    } else {
        Err(ErrorKind::BackendFatalError)
    }
}

/// One more, unless the counter is full.
pub open spec fn bump(n: int) -> int {
    if n < u64::MAX {
        n + 1
    } else {
        n
    }
}

/// A session as a mathematical value.
pub struct SessionView {
    pub state: SessionState,
    /// Capture time of the first frame the backend took.
    pub first_ts: Option<int>,
    /// Presentation timestamp of the last frame the backend took.
    pub last_ts: Option<int>,
    /// Where the container is written.
    pub output: Seq<char>,
    /// Frames the backend took.
    pub frames_written: int,
    /// Every call made on the backend, oldest first.
    pub calls: Seq<BackendCall>,
    /// The session still has its claim on the output file.
    pub holds_output: bool,
}

impl SessionView {
    /// A session that was just made for `output`.
    pub open spec fn fresh(output: Seq<char>) -> Self {
        SessionView {
            state: SessionState::Uninitialized,
            first_ts: None,
            last_ts: None,
            output,
            frames_written: 0,
            calls: Seq::empty(),
            holds_output: true,
        }
    }

    /// The session after `open`.
    pub open spec fn after_open(self) -> Self {
        if self.state == SessionState::Uninitialized {
            SessionView { state: SessionState::Writing, ..self }
        } else {
            self
        }
    }

    /// The session after `init_with`, where the backend answered the
    /// configure call with success (`configured`) or failure.
    pub open spec fn after_init(
        self,
        video: VideoSettings,
        container: ContainerSettings,
        configured: bool,
    ) -> Self {
        if self.state == SessionState::Uninitialized {
            SessionView {
                state: if configured {
                    SessionState::Writing
                } else {
                    SessionState::Closed
                },
                calls: self.calls.push(
                    BackendCall::Configure { video, container, output: self.output },
                ),
                ..self
            }
        } else {
            self
        }
    }

    /// The session after `submit(frame, pts)`, where the backend answered
    /// the offer with `reply`.
    ///
    /// A session that is not writing stays as it is. A writing session
    /// offers the frame once, and tells the backend whether it has taken
    /// none before. If the backend takes it, the frame is counted
    /// and its times are remembered. If the backend is not ready, nothing
    /// else changes. If the backend fails, it is asked once to seal what it
    /// has, and the session is closed.
    pub open spec fn after_submit(
        self,
        frame: FrameView,
        pts: int,
        reply: Result<Readiness, BackendFailure>,
    ) -> Self {
        if self.state != SessionState::Writing {
            self
        } else {
            let offered = self.calls.push(
                BackendCall::AppendFrame { frame, pts, first: self.first_ts is None },
            );
            match reply {
                Ok(Readiness::Ready) => SessionView {
                    first_ts: if self.first_ts is None {
                        Some(frame.capture_time)
                    } else {
                        self.first_ts
                    },
                    last_ts: Some(pts),
                    frames_written: bump(self.frames_written),
                    calls: offered,
                    ..self
                },
                Ok(Readiness::NotReady) => SessionView { calls: offered, ..self },
                Err(_) => SessionView {
                    state: SessionState::Closed,
                    calls: offered.push(BackendCall::Finish),
                    ..self
                },
            }
        }
    }

    /// The time at which a stream ends: the timestamp of the last frame
    /// the backend took, or zero if it took none.
    pub open spec fn end_time(self) -> int {
        match self.last_ts {
            Some(t) => t,
            None => 0,
        }
    }

    /// The session after `flush_and_finalize`: a writing session ends the
    /// stream at `end_time`, seals the container and lets go of its
    /// backend, and the last timestamp is taken out of it; any other stays
    /// as it is.
    pub open spec fn after_finalize(self) -> Self {
        if self.state != SessionState::Writing {
            self
        } else {
            SessionView {
                state: SessionState::Closed,
                last_ts: None,
                calls: self.calls.push(BackendCall::Flush { end: self.end_time() }).push(
                    BackendCall::Finish,
                ),
                ..self
            }
        }
    }

    /// Whether the session can give its output file back: it has the claim
    /// and it is not running.
    pub open spec fn releasable(self) -> bool {
        self.holds_output && (self.state == SessionState::Closed || self.state
            == SessionState::Uninitialized)
    }

    /// The session after `release_output`: one that can give its file back
    /// has given it back and is closed; any other stays as it is.
    pub open spec fn after_release(self) -> Self {
        if self.releasable() {
            SessionView { state: SessionState::Closed, holds_output: false, ..self }
        } else {
            self
        }
    }

    /// The session after the frames `frames`, submitted in order at the
    /// timestamps `pts`, where the backend answered the offers with
    /// `replies`.
    pub open spec fn after_submits(
        self,
        frames: Seq<FrameView>,
        pts: Seq<int>,
        replies: Seq<Result<Readiness, BackendFailure>>,
    ) -> Self
        decreases frames.len(),
    {
        if frames.len() == 0 {
            self
        } else {
            self.after_submits(
                frames.drop_last(),
                pts.drop_last(),
                replies.drop_last(),
            ).after_submit(frames.last(), pts.last(), replies.last())
        }
    }
}

/// Decides `submit_result`.
pub fn submit_outcome(reply: Result<Readiness, BackendFailure>) -> (r: Result<
    SubmitOutcome,
    ErrorKind,
>)
    ensures
        r == submit_result(reply),
{
    match reply {
        Ok(Readiness::Ready) => Ok(SubmitOutcome::Accepted),
        Ok(Readiness::NotReady) => Ok(SubmitOutcome::Backpressured),
        Err(_) => Err(ErrorKind::BackendFatalError),
    }
}

/// Decides `finalize_result`.
pub fn finalize_outcome(
    flushed: Result<(), BackendFailure>,
    sealed: Result<(), BackendFailure>,
) -> (r: Result<(), ErrorKind>)
    ensures
        r == finalize_result(flushed, sealed),
{
    if flushed.is_ok() && sealed.is_ok() {
        Ok(())
    } else {
        Err(ErrorKind::BackendFatalError)
    }
}

/// One recording: a backend and the rules for calling it.
pub struct EncoderSession<E: Encoder> {
    handle: Handle<E>,
    started: bool,
    finishing: bool,
    holds_output: bool,
    first_ts: Option<MonotonicInstant>,
    last_ts: Option<PresentationTimestamp>,
    output: String,
    frames_written: u64,
}

impl<E: Encoder> View for EncoderSession<E> {
    type V = SessionView;

    closed spec fn view(&self) -> SessionView {
        SessionView {
            state: if self.handle.held() is Some {
                if self.finishing {
                    SessionState::Finishing
                } else {
                    SessionState::Writing
                }
            } else if self.started {
                SessionState::Closed
            } else {
                SessionState::Uninitialized
            },
            first_ts: match self.first_ts {
                Some(t) => Some(t@),
                None => None,
            },
            last_ts: match self.last_ts {
                Some(t) => Some(t@),
                None => None,
            },
            output: self.output@,
            frames_written: self.frames_written as int,
            calls: self.handle.calls(),
            holds_output: self.holds_output,
        }
    }
}

impl<E: Encoder> EncoderSession<E> {
    /// The backend, while the session holds one.
    pub closed spec fn backend(&self) -> Option<E> {
        self.handle.held()
    }

    /// A session holds a backend exactly while it is writing or finishing.
    pub proof fn lemma_backend_held_while_running(self)
        ensures
            self.backend() is Some <==> self@.state == SessionState::Writing || self@.state
                == SessionState::Finishing,
    {
    }

    /// A session for the container at `output`, without a backend yet.
    ///
    /// The session claims `output` in `outputs`. If another session has
    /// the claim, no session is made: a file is written by one session at
    /// a time.
    pub fn new(output: String, outputs: &mut OutputRegistry) -> (r: Option<Self>)
        ensures
            r is Some <==> !old(outputs)@.contains(output@),
            final(outputs)@ == old(outputs)@.insert(output@),
            r matches Some(s) ==> s@ == SessionView::fresh(output@) && s.backend() is None,
    {
        if outputs.claim(output.as_str()) {
            Some(
                EncoderSession {
                    handle: Handle::empty(),
                    started: false,
                    finishing: false,
                    holds_output: true,
                    first_ts: None,
                    last_ts: None,
                    output,
                    frames_written: 0,
                },
            )
        } else {
            None
        }
    }

    /// Gives the output file back to `outputs` and says whether it did.
    ///
    /// A session gives its file back once, and only while it is not
    /// running. A session that never started is closed by it.
    pub fn release_output(&mut self, outputs: &mut OutputRegistry) -> (released: bool)
        ensures
            released == old(self)@.releasable(),
            final(self)@ == old(self)@.after_release(),
            final(self).backend() == old(self).backend(),
            final(outputs)@ == if released {
                old(outputs)@.remove(old(self)@.output)
            } else {
                old(outputs)@
            },
    {
        if self.holds_output && !self.handle.is_held() {
            outputs.release(self.output.as_str());
            self.holds_output = false;
            self.started = true;
            true
        } else {
            false
        }
    }

    /// Takes a backend that the caller has set up: an uninitialized
    /// session starts writing; any other fails with `SessionClosed` and
    /// stays as it is, and the backend offered is let go.
    pub fn open(&mut self, backend: E) -> (r: Result<(), ErrorKind>)
        ensures
            r is Ok <==> old(self)@.state == SessionState::Uninitialized,
            r matches Err(e) ==> e == ErrorKind::SessionClosed && *final(self) == *old(self),
            final(self)@ == old(self)@.after_open(),
            r is Ok ==> final(self).backend() == Some(backend),
    {
        if self.started || self.handle.is_held() {
            return Err(ErrorKind::SessionClosed);
        }
        self.handle.adopt(backend);
        self.started = true;
        self.finishing = false;
        Ok(())
    }

    /// Sets a backend up with the given settings and starts writing.
    ///
    /// Only an uninitialized session can be set up; any other fails with
    /// `SessionClosed` and stays as it is. If the backend cannot be set up
    /// the session is closed, holds no backend, and the call fails with
    /// `BackendFatalError`.
    pub fn init_with(&mut self, video: VideoSettings, container: ContainerSettings) -> (r: Result<
        (),
        ErrorKind,
    >)
        ensures
            old(self)@.state != SessionState::Uninitialized ==> r == Err::<(), ErrorKind>(
                ErrorKind::SessionClosed,
            ) && *final(self) == *old(self),
            old(self)@.state == SessionState::Uninitialized ==> final(self)@ == old(
                self,
            )@.after_init(video, container, r is Ok) && (r is Err ==> r == Err::<(), ErrorKind>(
                ErrorKind::BackendFatalError,
            )) && (r is Ok <==> final(self).backend() is Some),
    {
        if self.started || self.handle.is_held() {
            return Err(ErrorKind::SessionClosed);
        }
        self.started = true;
        self.finishing = false;
        match self.handle.configure(&video, &container, self.output.as_str()) {
            Ok(()) => Ok(()),
            Err(_) => Err(ErrorKind::BackendFatalError),
        }
    }

    /// Sets a backend up for a picture of the given size, with the default
    /// video settings and an MPEG-4 container, and starts writing.
    pub fn init(&mut self, width: u32, height: u32) -> (r: Result<(), ErrorKind>)
        ensures
            old(self)@.state != SessionState::Uninitialized ==> r == Err::<(), ErrorKind>(
                ErrorKind::SessionClosed,
            ) && *final(self) == *old(self),
            old(self)@.state == SessionState::Uninitialized ==> final(self)@ == old(
                self,
            )@.after_init(
                VideoSettingsBuilder::defaults(width, height),
                ContainerSettings { sub_type: ContainerSettingsSubType::MPEG4 },
                r is Ok,
            ) && (r is Err ==> r == Err::<(), ErrorKind>(ErrorKind::BackendFatalError)) && (r
                is Ok <==> final(self).backend() is Some),
    {
        let video = VideoSettingsBuilder::new(width, height).build();
        let container = ContainerSettingsBuilder::default().build();
        self.init_with(video, container)
    }

    /// Offers `frame` to the backend, to be shown at `pts`.
    ///
    /// A session that is not writing fails with `SessionClosed` and calls
    /// nothing. A writing session makes the offer exactly once, whatever
    /// the answer; what the answer does to the session is `after_submit`,
    /// and what is returned is `submit_result`. The backend is kept unless
    /// it failed.
    pub fn submit(&mut self, frame: &Frame, pts: PresentationTimestamp) -> (r: Result<
        SubmitOutcome,
        ErrorKind,
    >)
        ensures
            old(self)@.state != SessionState::Writing ==> r == Err::<SubmitOutcome, ErrorKind>(
                ErrorKind::SessionClosed,
            ) && *final(self) == *old(self),
            old(self)@.state == SessionState::Writing ==> exists|
                reply: Result<Readiness, BackendFailure>,
            |
                final(self)@ == #[trigger] old(self)@.after_submit(frame@, pts@, reply) && r
                    == submit_result(reply),
            old(self)@.state == SessionState::Writing ==> (r is Ok <==> final(self).backend()
                is Some),
    {
        if !self.handle.is_held() || self.finishing {
            return Err(ErrorKind::SessionClosed);
        }
        let first = self.first_ts.is_none();
        let reply = self.handle.append_frame(frame, pts, first);
        match reply {
            Ok(Readiness::Ready) => {
                if first {
                    self.first_ts = Some(frame.capture_time());
                }
                self.last_ts = Some(pts);
                if self.frames_written < u64::MAX {
                    self.frames_written = self.frames_written + 1;
                }
            },
            Ok(Readiness::NotReady) => {},
            Err(_) => {
                let _ = self.handle.finish();
                self.started = true;
            },
        }
        proof {
            assert(self@ == old(self)@.after_submit(frame@, pts@, reply));
        }
        submit_outcome(reply)
    }

    /// Ends the stream at the last timestamp taken, seals the container
    /// and lets go of the backend, in that order.
    ///
    /// Only a writing session can be finalized. Any other, a closed one
    /// above all, fails with `SessionClosed` and is left exactly as it was:
    /// no call reaches a backend. A writing session ends closed whatever
    /// the backend answers; both calls are made even if the first fails,
    /// and the result is `finalize_result` of their answers.
    pub fn flush_and_finalize(&mut self) -> (r: Result<(), ErrorKind>)
        ensures
            old(self)@.state != SessionState::Writing ==> r == Err::<(), ErrorKind>(
                ErrorKind::SessionClosed,
            ) && *final(self) == *old(self),
            final(self)@ == old(self)@.after_finalize(),
            old(self)@.state == SessionState::Writing ==> final(self).backend() is None && exists|
                flushed: Result<(), BackendFailure>,
                sealed: Result<(), BackendFailure>,
            | r == #[trigger] finalize_result(flushed, sealed),
    {
        if !self.handle.is_held() || self.finishing {
            return Err(ErrorKind::SessionClosed);
        }
        self.finishing = true;
        let end = match self.last_ts.take() {
            Some(t) => t,
            None => PresentationTimestamp::zero(),
        };
        let flushed = self.handle.flush(end);
        let sealed = self.handle.finish();
        self.finishing = false;
        self.started = true;
        finalize_outcome(flushed, sealed)
    }

    /// Where the session stands.
    pub fn state(&self) -> (r: SessionState)
        ensures
            r == self@.state,
    {
        if self.handle.is_held() {
            if self.finishing {
                SessionState::Finishing
            } else {
                SessionState::Writing
            }
        } else if self.started {
            SessionState::Closed
        } else {
            SessionState::Uninitialized
        }
    }

    /// Capture time of the first frame the backend took.
    pub fn first_ts(&self) -> (r: Option<MonotonicInstant>)
        ensures
            r is Some == self@.first_ts is Some,
            r is Some ==> r->0@ == self@.first_ts->0,
    {
        self.first_ts
    }

    /// Presentation timestamp of the last frame the backend took, until
    /// the session is finalized.
    pub fn last_ts(&self) -> (r: Option<PresentationTimestamp>)
        ensures
            r is Some == self@.last_ts is Some,
            r is Some ==> r->0@ == self@.last_ts->0,
    {
        self.last_ts
    }

    /// Frames the backend took.
    pub fn frames_written(&self) -> (r: u64)
        ensures
            r == self@.frames_written,
    {
        self.frames_written
    }

    /// Where the container is written.
    pub fn output(&self) -> (r: &str)
        ensures
            r@ == self@.output,
    {
        self.output.as_str()
    }
}

impl SessionView {
    /// What every session that started fresh satisfies: a flush is
    /// followed by the sealing call and by nothing else, the sealing call
    /// is the last call ever made, and once it was made the session is
    /// closed.
    pub open spec fn sealed_last(self) -> bool {
        &&& forall|i: int|
            0 <= i < self.calls.len() && #[trigger] self.calls[i] is Finish ==> i
                == self.calls.len() - 1 && self.state == SessionState::Closed
        &&& forall|i: int|
            0 <= i < self.calls.len() && #[trigger] self.calls[i] is Flush ==> i == self.calls.len()
                - 2 && self.calls[i + 1] is Finish
    }
}

/// A second `flush_and_finalize` finds the session not writing, so it
/// fails with `SessionClosed`, and it leaves the session as the first one
/// left it: no further call is made on any backend.
pub proof fn lemma_finalize_twice(s: SessionView)
    ensures
        s.after_finalize().state != SessionState::Writing,
        s.after_finalize().after_finalize() == s.after_finalize(),
        s.after_finalize().after_finalize().calls == s.after_finalize().calls,
{
}

/// A closed session stays closed and calls nothing, whatever is asked of
/// it and whatever a backend would have answered.
pub proof fn lemma_closed_is_final(
    s: SessionView,
    frame: FrameView,
    pts: int,
    reply: Result<Readiness, BackendFailure>,
    video: VideoSettings,
    container: ContainerSettings,
    configured: bool,
)
    requires
        s.state == SessionState::Closed,
    ensures
        s.after_submit(frame, pts, reply) == s,
        s.after_finalize() == s,
        s.after_open() == s,
        s.after_init(video, container, configured) == s,
{
}

/// Finalizing a writing session calls flush, then the sealing call, and
/// nothing else.
pub proof fn lemma_flush_before_seal(s: SessionView)
    requires
        s.state == SessionState::Writing,
    ensures
        s.after_finalize().calls.len() == s.calls.len() + 2,
        s.after_finalize().calls.take(s.calls.len() as int) == s.calls,
        s.after_finalize().calls[s.calls.len() as int] == (BackendCall::Flush { end: s.end_time() }),
        s.after_finalize().last_ts is None,
        s.after_finalize().calls[s.calls.len() as int + 1] == BackendCall::Finish,
        s.after_finalize().state == SessionState::Closed,
{
    assert(s.after_finalize().calls.take(s.calls.len() as int) =~= s.calls);
}

/// Every step of a session keeps the sealing call last: the container is
/// sealed at most once, after every frame that was offered, and a flush
/// comes directly before it.
pub proof fn lemma_sealed_last_is_kept(
    s: SessionView,
    frame: FrameView,
    pts: int,
    reply: Result<Readiness, BackendFailure>,
    video: VideoSettings,
    container: ContainerSettings,
    configured: bool,
)
    requires
        s.sealed_last(),
    ensures
        SessionView::fresh(s.output).sealed_last(),
        s.after_open().sealed_last(),
        s.after_init(video, container, configured).sealed_last(),
        s.after_submit(frame, pts, reply).sealed_last(),
        s.after_finalize().sealed_last(),
        s.after_release().sealed_last(),
{
    // a session that may still call its backend has not sealed anything
    if s.state != SessionState::Closed {
        assert forall|i: int| 0 <= i < s.calls.len() implies !(#[trigger] s.calls[i] is Finish) by {}
        assert forall|i: int| 0 <= i < s.calls.len() implies !(#[trigger] s.calls[i] is Flush) by {
            if s.calls[i] is Flush {
                assert(s.calls[i + 1] is Finish);
            }
        }
    }
}

/// Whether entry `base + i` of `calls` is the offer of `frames[i]` at
/// `pts[i]`.
pub open spec fn offer_at(
    calls: Seq<BackendCall>,
    base: int,
    i: int,
    frames: Seq<FrameView>,
    pts: Seq<int>,
) -> bool {
    match calls[base + i] {
        BackendCall::AppendFrame { frame, pts: at, first } => frame == frames[i] && at == pts[i],
        _ => false,
    }
}

/// Frames that the backend does not fail on all reach it, each once and in
/// the order in which they were submitted: after `frames.len()` calls of
/// `submit` on a writing session, the call log has grown by exactly one
/// offer for each frame, with that frame and its timestamp, in order, and
/// the session is still writing. None is offered twice, moved or left out.
pub proof fn lemma_every_offer_arrives(
    s: SessionView,
    frames: Seq<FrameView>,
    pts: Seq<int>,
    replies: Seq<Result<Readiness, BackendFailure>>,
)
    requires
        s.state == SessionState::Writing,
        pts.len() == frames.len(),
        replies.len() == frames.len(),
        forall|i: int| 0 <= i < replies.len() ==> replies[i] is Ok,
    ensures
        s.after_submits(frames, pts, replies).state == SessionState::Writing,
        s.after_submits(frames, pts, replies).calls.len() == s.calls.len() + frames.len(),
        s.after_submits(frames, pts, replies).calls.take(s.calls.len() as int) == s.calls,
        forall|i: int|
            0 <= i < frames.len() ==> #[trigger] offer_at(
                s.after_submits(frames, pts, replies).calls,
                s.calls.len() as int,
                i,
                frames,
                pts,
            ),
    decreases frames.len(),
{
    let after = s.after_submits(frames, pts, replies);
    if frames.len() == 0 {
        assert(after.calls.take(s.calls.len() as int) =~= s.calls);
    } else {
        let n = frames.len() - 1;
        let before = s.after_submits(frames.drop_last(), pts.drop_last(), replies.drop_last());
        assert forall|i: int| 0 <= i < replies.drop_last().len() implies replies.drop_last()[i]
            is Ok by {
            assert(replies.drop_last()[i] == replies[i]);
        }
        lemma_every_offer_arrives(s, frames.drop_last(), pts.drop_last(), replies.drop_last());
        assert(replies.last() is Ok);
        let offer = BackendCall::AppendFrame {
            frame: frames.last(),
            pts: pts.last(),
            first: before.first_ts is None,
        };
        assert(after.calls == before.calls.push(offer));
        assert(after.calls.take(s.calls.len() as int) =~= before.calls.take(s.calls.len() as int));
        assert forall|i: int| 0 <= i < frames.len() implies #[trigger] offer_at(
            after.calls,
            s.calls.len() as int,
            i,
            frames,
            pts,
        ) by {
            if i < n {
                assert(offer_at(
                    before.calls,
                    s.calls.len() as int,
                    i,
                    frames.drop_last(),
                    pts.drop_last(),
                ));
                assert(after.calls[s.calls.len() + i] == before.calls[s.calls.len() + i]);
                assert(frames.drop_last()[i] == frames[i]);
                assert(pts.drop_last()[i] == pts[i]);
            }
        }
    }
}

} // verus!
