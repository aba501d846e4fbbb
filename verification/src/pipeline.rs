//! The consumer side of the pipeline: takes what the channel delivers,
//! stamps it, adapts it and submits it, and finalizes the session when the
//! stream ends.

use crate::adapter::{adapt, adapted, convertible, passes_through};
use crate::channel::{ChannelItem, ChannelItemView, ChannelView, FrameChannel};
use crate::encoder::{BackendCall, BackendFailure, Encoder, Readiness};
use crate::error::ErrorKind;
use crate::frame::{FrameView, PixelLayout};
use crate::output::OutputRegistry;
use crate::session::{bump, EncoderSession, SessionState, SessionView, SubmitOutcome};
use crate::time::{NormalizerState, TimestampNormalizer};
use vstd::prelude::*;

verus! {

/// Whether the consumer goes on taking items.
#[derive(Clone, Copy, Debug, PartialEq, Eq, Structural)]
pub enum Progress {
    /// The next item is welcome.
    Continue,
    /// The recording is over. Nothing more will be written.
    Finished,
}

/// What a recording amounted to.
#[derive(Clone, Copy, Debug, PartialEq, Eq, Structural)]
pub struct PipelineReport {
    /// Frames the backend took.
    pub frames_written: u64,
    /// Frames lost to backpressure or to a layout that cannot be adapted.
    pub frames_dropped: u64,
    /// The error that ended the recording, if one did.
    pub error: Option<ErrorKind>,
    /// Whether the recording is over.
    pub finished: bool,
}

/// What the backend answered while one item was handled. A frame uses
/// `reply`, the answer to the offer; the end of the stream uses `sealed`,
/// whether flushing and sealing both went well.
pub struct Answer {
    pub reply: Result<Readiness, BackendFailure>,
    pub sealed: bool,
}

/// A controller as a mathematical value.
pub struct ControllerView {
    pub normalizer: NormalizerState,
    pub session: SessionView,
    pub target: PixelLayout,
    pub target_w: int,
    pub target_h: int,
    pub dropped: int,
    pub error: Option<ErrorKind>,
    pub finished: bool,
}

impl ControllerView {
    /// Whether the adapter can give `frame` the target layout and size.
    pub open spec fn adaptable(self, frame: FrameView) -> bool {
        passes_through(frame, self.target, self.target_w, self.target_h) || convertible(
            frame,
            self.target,
            self.target_w,
            self.target_h,
        )
    }

    /// The controller after a frame, where the backend answered the offer,
    /// if one was made, with `reply`.
    ///
    /// Every frame is stamped. A frame that cannot be adapted is dropped
    /// and the recording goes on. An adapted frame is submitted once: if
    /// the backend is not ready the frame is dropped and the recording goes
    /// on; if the session refuses or the backend fails, the recording is
    /// over.
    pub open spec fn after_frame(
        self,
        frame: FrameView,
        reply: Result<Readiness, BackendFailure>,
    ) -> Self {
        if self.finished {
            self
        } else {
            let pts = self.normalizer.stamp(frame.capture_time);
            let normalizer = self.normalizer.advance(frame.capture_time);
            if !self.adaptable(frame) {
                ControllerView { normalizer, dropped: bump(self.dropped), ..self }
            } else if self.session.state != SessionState::Writing {
                ControllerView {
                    normalizer,
                    error: Some(ErrorKind::SessionClosed),
                    finished: true,
                    ..self
                }
            } else {
                let session = self.session.after_submit(
                    adapted(frame, self.target, self.target_w, self.target_h),
                    pts,
                    reply,
                );
                match reply {
                    Ok(Readiness::Ready) => ControllerView { normalizer, session, ..self },
                    Ok(Readiness::NotReady) => ControllerView {
                        normalizer,
                        session,
                        dropped: bump(self.dropped),
                        ..self
                    },
                    Err(_) => ControllerView {
                        normalizer,
                        session,
                        error: Some(ErrorKind::BackendFatalError),
                        finished: true,
                        ..self
                    },
                }
            }
        }
    }

    /// The controller after the end-of-stream marker, where flushing and
    /// sealing went well (`sealed`) or not: the session is finalized and
    /// the recording is over.
    pub open spec fn after_end_of_stream(self, sealed: bool) -> Self {
        if self.finished {
            self
        } else {
            ControllerView {
                session: self.session.after_finalize(),
                error: if self.session.state != SessionState::Writing {
                    Some(ErrorKind::SessionClosed)
                } else if sealed {
                    self.error
                } else {
                    Some(ErrorKind::BackendFatalError)
                },
                finished: true,
                ..self
            }
        }
    }

    /// The controller after one item.
    pub open spec fn after_item(self, item: ChannelItemView, answer: Answer) -> Self {
        match item {
            ChannelItemView::Frame(frame) => self.after_frame(frame, answer.reply),
            ChannelItemView::EndOfStream => self.after_end_of_stream(answer.sealed),
        }
    }

    /// The controller after the channel closed without a marker: the
    /// session is finalized with what it has, and the recording is over
    /// with `ChannelClosedUnexpectedly`.
    pub open spec fn after_channel_closed(self) -> Self {
        if self.finished {
            self
        } else {
            ControllerView {
                session: self.session.after_finalize(),
                error: Some(ErrorKind::ChannelClosedUnexpectedly),
                finished: true,
                ..self
            }
        }
    }

    /// The controller after `pump` took the `n` oldest items off `channel`
    /// while the backend gave `answers`. A channel that was emptied and
    /// whose producer went away without a marker ends the recording.
    pub open spec fn after_pump(self, channel: ChannelView, n: int, answers: Seq<Answer>) -> Self {
        let taken = self.after_items(channel.pending.take(n), answers);
        if n == channel.pending.len() && channel.hung_up && !channel.sealed {
            taken.after_channel_closed()
        } else {
            taken
        }
    }

    /// Whether `pump` takes exactly the `n` oldest items off `channel` when
    /// the backend gives `answers`: it stops at the first item that ends
    /// the recording, and otherwise takes everything.
    pub open spec fn pump_takes(self, channel: ChannelView, n: int, answers: Seq<Answer>) -> bool {
        &&& 0 <= n <= channel.pending.len()
        &&& answers.len() == n
        &&& n > 0 ==> !self.after_items(
            channel.pending.take(n - 1),
            answers.take(n - 1),
        ).finished
        &&& n < channel.pending.len() ==> self.after_items(channel.pending.take(n), answers).finished
    }

    /// The controller after `items`, handled in order, with `answers[i]`
    /// the backend's answer while `items[i]` was handled.
    pub open spec fn after_items(self, items: Seq<ChannelItemView>, answers: Seq<Answer>) -> Self
        decreases items.len(),
    {
        if items.len() == 0 {
            self
        } else {
            self.after_items(items.drop_last(), answers.drop_last()).after_item(
                items.last(),
                answers.last(),
            )
        }
    }
}

/// Runs the consumer's side of one recording.
pub struct PipelineController<E: Encoder> {
    normalizer: TimestampNormalizer,
    session: EncoderSession<E>,
    target: PixelLayout,
    target_w: u32,
    target_h: u32,
    dropped: u64,
    error: Option<ErrorKind>,
    finished: bool,
}

impl<E: Encoder> View for PipelineController<E> {
    type V = ControllerView;

    closed spec fn view(&self) -> ControllerView {
        ControllerView {
            normalizer: self.normalizer@,
            session: self.session@,
            target: self.target,
            target_w: self.target_w as int,
            target_h: self.target_h as int,
            dropped: self.dropped as int,
            error: self.error,
            finished: self.finished,
        }
    }
}

impl<E: Encoder> PipelineController<E> {
    /// The session that the controller drives.
    pub closed spec fn session(&self) -> EncoderSession<E> {
        self.session
    }

    /// A controller that feeds `session` frames in layout `target` and of
    /// size `target_w` by `target_h`.
    pub fn new(session: EncoderSession<E>, target: PixelLayout, target_w: u32, target_h: u32) -> (r:
        Self)
        ensures
            r@ == (ControllerView {
                normalizer: NormalizerState::initial(),
                session: session@,
                target,
                target_w: target_w as int,
                target_h: target_h as int,
                dropped: 0,
                error: None,
                finished: false,
            }),
            r.session() == session,
    {
        PipelineController {
            normalizer: TimestampNormalizer::new(),
            session,
            target,
            target_w,
            target_h,
            dropped: 0,
            error: None,
            finished: false,
        }
    }

    /// Handles one item from the channel.
    ///
    /// Once the recording is over, items are ignored: nothing changes and
    /// no call reaches the backend. Otherwise what happens is `after_item`
    /// for whatever the backend answered.
    pub fn handle(&mut self, item: ChannelItem) -> (r: Progress)
        ensures
            old(self)@.finished ==> *final(self) == *old(self),
            exists|answer: Answer| final(self)@ == #[trigger] old(self)@.after_item(item@, answer),
            r == Progress::Finished <==> final(self)@.finished,
    {
        if self.finished {
            proof {
                let answer = Answer { reply: Ok(Readiness::Ready), sealed: true };
                assert(self@ == old(self)@.after_item(item@, answer));
            }
            return Progress::Finished;
        }
        match item {
            ChannelItem::Frame(frame) => {
                let pts = self.normalizer.normalize(frame.capture_time());
                match adapt(frame, self.target, self.target_w, self.target_h) {
                    Err(_) => {
                        if self.dropped < u64::MAX {
                            self.dropped = self.dropped + 1;
                        }
                        proof {
                            let answer = Answer { reply: Ok(Readiness::Ready), sealed: true };
                            assert(self@ == old(self)@.after_item(item@, answer));
                        }
                        Progress::Continue
                    },
                    Ok(fitted) => {
                        let ghost before = self.session@;
                        let outcome = self.session.submit(&fitted, pts);
                        let ghost reply: Result<Readiness, BackendFailure> =
                            if before.state == SessionState::Writing {
                            choose|reply: Result<Readiness, BackendFailure>|
                                self.session@ == #[trigger] before.after_submit(
                                    fitted@,
                                    pts@,
                                    reply,
                                ) && outcome == crate::session::submit_result(reply)
                        } else {
                            Ok(Readiness::Ready)
                        };
                        match outcome {
                            Ok(SubmitOutcome::Accepted) => {},
                            Ok(SubmitOutcome::Backpressured) => {
                                if self.dropped < u64::MAX {
                                    self.dropped = self.dropped + 1;
                                }
                            },
                            Err(e) => {
                                self.error = Some(e);
                                self.finished = true;
                            },
                        }
                        proof {
                            let answer = Answer { reply, sealed: true };
                            assert(self@ == old(self)@.after_item(item@, answer));
                        }
                        if self.finished {
                            Progress::Finished
                        } else {
                            Progress::Continue
                        }
                    },
                }
            },
            ChannelItem::EndOfStream => {
                let sealed = self.session.flush_and_finalize();
                match sealed {
                    Ok(()) => {},
                    Err(e) => {
                        self.error = Some(e);
                    },
                }
                self.finished = true;
                proof {
                    let answer = Answer { reply: Ok(Readiness::Ready), sealed: sealed is Ok };
                    assert(self@ == old(self)@.after_item(item@, answer));
                }
                Progress::Finished
            },
        }
    }

    /// Handles what is waiting in `channel`, oldest first, until the
    /// recording is over or the channel is empty. It never waits.
    ///
    /// Items are taken off the channel one at a time and in order, and each
    /// is handled before the next is taken. What is left in the channel is
    /// what was not taken. If the channel is empty and its producer went
    /// away without a marker, the recording ends as `channel_closed` says.
    pub fn pump(&mut self, channel: &mut FrameChannel) -> (r: Progress)
        ensures
            exists|n: int, answers: Seq<Answer>|
                {
                    &&& #[trigger] old(self)@.pump_takes(old(channel)@, n, answers)
                    &&& final(self)@ == old(self)@.after_pump(old(channel)@, n, answers)
                    &&& final(channel)@ == (ChannelView {
                        pending: old(channel)@.pending.skip(n),
                        ..old(channel)@
                    })
                },
            r == Progress::Finished <==> final(self)@.finished,
    {
        let ghost start = self@;
        let ghost chan = channel@;
        let ghost mut n: int = 0;
        let ghost mut answers: Seq<Answer> = Seq::empty();
        proof {
            assert(chan.pending.take(0) =~= Seq::empty());
            assert(chan.pending.skip(0) =~= chan.pending);
        }
        loop
            invariant_except_break
                0 <= n <= chan.pending.len(),
                answers.len() == n,
                n > 0 ==> !start.after_items(chan.pending.take(n - 1), answers.take(n - 1)).finished,
                self@ == start.after_items(chan.pending.take(n), answers),
                channel@ == (ChannelView { pending: chan.pending.skip(n), ..chan }),
            ensures
                start.pump_takes(chan, n, answers),
                self@ == start.after_pump(chan, n, answers),
                channel@ == (ChannelView { pending: chan.pending.skip(n), ..chan }),
            decreases chan.pending.len() - n,
        {
            if self.finished {
                break ;
            }
            match channel.recv() {
                Ok(Some(item)) => {
                    let ghost before = self@;
                    let ghost view = item@;
                    self.handle(item);
                    proof {
                        let answer = choose|answer: Answer|
                            self@ == #[trigger] before.after_item(view, answer);
                        let items = chan.pending.take(n + 1);
                        let more = answers.push(answer);
                        assert(view == chan.pending[n]);
                        assert(items.drop_last() =~= chan.pending.take(n));
                        assert(more.drop_last() =~= answers);
                        assert(more.take(n) =~= answers);
                        assert(chan.pending.skip(n).drop_first() =~= chan.pending.skip(n + 1));
                        n = n + 1;
                        answers = more;
                    }
                },
                Ok(None) => {
                    proof {
                        assert(chan.pending.take(n) =~= chan.pending);
                    }
                    break ;
                },
                Err(_) => {
                    proof {
                        assert(chan.pending.take(n) =~= chan.pending);
                    }
                    self.channel_closed();
                    break ;
                },
            }
        }
        if self.finished {
            Progress::Finished
        } else {
            Progress::Continue
        }
    }

    /// Ends the recording because the channel closed without a marker. The
    /// session is finalized with the frames it has.
    pub fn channel_closed(&mut self) -> (r: Progress)
        ensures
            old(self)@.finished ==> *final(self) == *old(self),
            final(self)@ == old(self)@.after_channel_closed(),
            r == Progress::Finished,
    {
        if !self.finished {
            let _ = self.session.flush_and_finalize();
            self.error = Some(ErrorKind::ChannelClosedUnexpectedly);
            self.finished = true;
        }
        Progress::Finished
    }

    /// Gives the session's output file back to `outputs`, as the session's
    /// `release_output` does, and says whether it did.
    pub fn release_output(&mut self, outputs: &mut OutputRegistry) -> (released: bool)
        ensures
            released == old(self)@.session.releasable(),
            final(self)@ == (ControllerView {
                session: old(self)@.session.after_release(),
                ..old(self)@
            }),
            final(outputs)@ == if released {
                old(outputs)@.remove(old(self)@.session.output)
            } else {
                old(outputs)@
            },
    {
        self.session.release_output(outputs)
    }

    /// Whether the recording is over.
    pub fn is_finished(&self) -> (r: bool)
        ensures
            r == self@.finished,
    {
        self.finished
    }

    /// What the recording has amounted to so far.
    pub fn report(&self) -> (r: PipelineReport)
        ensures
            r.frames_written == self@.session.frames_written,
            r.frames_dropped == self@.dropped,
            r.error == self@.error,
            r.finished == self@.finished,
    {
        PipelineReport {
            frames_written: self.session.frames_written(),
            frames_dropped: self.dropped,
            error: self.error,
            finished: self.finished,
        }
    }
}

/// The frames that a call log offered to the backend, oldest first.
pub open spec fn offered(calls: Seq<BackendCall>) -> Seq<FrameView>
    decreases calls.len(),
{
    if calls.len() == 0 {
        Seq::empty()
    } else {
        let earlier = offered(calls.drop_last());
        match calls.last() {
            BackendCall::AppendFrame { frame, pts, first } => earlier.push(frame),
            _ => earlier,
        }
    }
}

/// The frames among `items`, each as the adapter hands it on for the
/// given target, in the order of `items`.
pub open spec fn fitted(
    items: Seq<ChannelItemView>,
    target: PixelLayout,
    target_w: int,
    target_h: int,
) -> Seq<FrameView>
    decreases items.len(),
{
    if items.len() == 0 {
        Seq::empty()
    } else {
        let earlier = fitted(items.drop_last(), target, target_w, target_h);
        match items.last() {
            ChannelItemView::Frame(frame) => earlier.push(
                adapted(frame, target, target_w, target_h),
            ),
            ChannelItemView::EndOfStream => earlier,
        }
    }
}

/// Whether `part` can be had from `whole` by leaving elements out, without
/// moving any.
pub open spec fn in_order_within(part: Seq<FrameView>, whole: Seq<FrameView>) -> bool
    decreases whole.len(),
{
    if part.len() == 0 {
        true
    } else if whole.len() == 0 {
        false
    } else {
        (part.last() == whole.last() && in_order_within(part.drop_last(), whole.drop_last()))
            || in_order_within(part, whole.drop_last())
    }
}

proof fn lemma_offered_push(calls: Seq<BackendCall>, call: BackendCall)
    ensures
        offered(calls.push(call)) == match call {
            BackendCall::AppendFrame { frame, pts, first } => offered(calls).push(frame),
            _ => offered(calls),
        },
{
    assert(calls.push(call).drop_last() =~= calls);
}

/// One item adds at most one frame to what was offered, and that frame is
/// the item itself as adapted. Target and size stay as they are.
proof fn lemma_item_offers_itself(c: ControllerView, item: ChannelItemView, answer: Answer)
    ensures
        c.after_item(item, answer).target == c.target,
        c.after_item(item, answer).target_w == c.target_w,
        c.after_item(item, answer).target_h == c.target_h,
        offered(c.after_item(item, answer).session.calls) == offered(c.session.calls) || (item
            matches ChannelItemView::Frame(frame) && offered(
            c.after_item(item, answer).session.calls,
        ) == offered(c.session.calls).push(adapted(frame, c.target, c.target_w, c.target_h))),
{
    let calls = c.session.calls;
    match item {
        ChannelItemView::Frame(frame) => {
            let fit = adapted(frame, c.target, c.target_w, c.target_h);
            let pts = c.normalizer.stamp(frame.capture_time);
            let offer = BackendCall::AppendFrame { frame: fit, pts, first: c.session.first_ts is None };
            lemma_offered_push(calls, offer);
            lemma_offered_push(calls.push(offer), BackendCall::Finish);
        },
        ChannelItemView::EndOfStream => {
            let flush = BackendCall::Flush { end: c.session.end_time() };
            lemma_offered_push(calls, flush);
            lemma_offered_push(calls.push(flush), BackendCall::Finish);
        },
    }
}

proof fn lemma_in_order_grows(part: Seq<FrameView>, whole: Seq<FrameView>, next: FrameView)
    requires
        in_order_within(part, whole),
    ensures
        in_order_within(part, whole.push(next)),
        in_order_within(part.push(next), whole.push(next)),
{
    assert(whole.push(next).drop_last() =~= whole);
    assert(part.push(next).drop_last() =~= part);
}

/// Frames reach the backend in the order in which they were handled, and
/// so, the channel being first-in first-out, in the order in which they
/// were enqueued: whatever the backend answers, what `items` add to the
/// frames offered is a selection of the frames of `items`, none moved.
pub proof fn lemma_submissions_keep_order(
    c: ControllerView,
    items: Seq<ChannelItemView>,
    answers: Seq<Answer>,
)
    ensures
        c.after_items(items, answers).target == c.target,
        c.after_items(items, answers).target_w == c.target_w,
        c.after_items(items, answers).target_h == c.target_h,
        offered(c.session.calls).len() <= offered(c.after_items(items, answers).session.calls).len(),
        offered(c.after_items(items, answers).session.calls).take(
            offered(c.session.calls).len() as int,
        ) == offered(c.session.calls),
        in_order_within(
            offered(c.after_items(items, answers).session.calls).skip(
                offered(c.session.calls).len() as int,
            ),
            fitted(items, c.target, c.target_w, c.target_h),
        ),
    decreases items.len(),
{
    let before = offered(c.session.calls);
    if items.len() == 0 {
        assert(before.take(before.len() as int) =~= before);
        assert(before.skip(before.len() as int) =~= Seq::empty());
    } else {
        let mid = c.after_items(items.drop_last(), answers.drop_last());
        let end = mid.after_item(items.last(), answers.last());
        lemma_submissions_keep_order(c, items.drop_last(), answers.drop_last());
        lemma_item_offers_itself(mid, items.last(), answers.last());
        let so_far = offered(mid.session.calls);
        let all = offered(end.session.calls);
        let part = so_far.skip(before.len() as int);
        let whole = fitted(items.drop_last(), c.target, c.target_w, c.target_h);
        if all == so_far {
            match items.last() {
                ChannelItemView::Frame(frame) => {
                    lemma_in_order_grows(
                        part,
                        whole,
                        adapted(frame, c.target, c.target_w, c.target_h),
                    );
                },
                ChannelItemView::EndOfStream => {},
            }
        } else {
            let frame = items.last()->Frame_0;
            let fit = adapted(frame, c.target, c.target_w, c.target_h);
            lemma_in_order_grows(part, whole, fit);
            assert(all.skip(before.len() as int) =~= part.push(fit));
            assert(all.take(before.len() as int) =~= so_far.take(before.len() as int));
        }
    }
}

/// Backpressure drops a frame and nothing more: when the backend is not
/// ready for a frame, that frame was offered once and is counted as
/// dropped, the session keeps writing and the recording goes on, and the
/// next frame that can be adapted is the next one offered.
pub proof fn lemma_backpressure_moves_on(
    c: ControllerView,
    frame: FrameView,
    next: FrameView,
    reply: Result<Readiness, BackendFailure>,
)
    requires
        !c.finished,
        c.session.state == SessionState::Writing,
        c.adaptable(frame),
    ensures
        ({
            let held = c.after_frame(frame, Ok(Readiness::NotReady));
            let fit = adapted(frame, c.target, c.target_w, c.target_h);
            &&& !held.finished
            &&& held.error == c.error
            &&& held.session.state == SessionState::Writing
            &&& held.session.frames_written == c.session.frames_written
            &&& held.dropped == bump(c.dropped)
            &&& held.session.calls == c.session.calls.push(
                BackendCall::AppendFrame {
                    frame: fit,
                    pts: c.normalizer.stamp(frame.capture_time),
                    first: c.session.first_ts is None,
                },
            )
            &&& held.adaptable(next) ==> offered(held.after_frame(next, reply).session.calls)
                == offered(c.session.calls).push(fit).push(
                adapted(next, c.target, c.target_w, c.target_h),
            )
        }),
{
    let held = c.after_frame(frame, Ok(Readiness::NotReady));
    let fit = adapted(frame, c.target, c.target_w, c.target_h);
    let offer = BackendCall::AppendFrame {
        frame: fit,
        pts: c.normalizer.stamp(frame.capture_time),
        first: c.session.first_ts is None,
    };
    lemma_offered_push(c.session.calls, offer);
    if held.adaptable(next) {
        let second = BackendCall::AppendFrame {
            frame: adapted(next, c.target, c.target_w, c.target_h),
            pts: held.normalizer.stamp(next.capture_time),
            first: held.session.first_ts is None,
        };
        lemma_offered_push(held.session.calls, second);
        lemma_offered_push(held.session.calls.push(second), BackendCall::Finish);
    }
}

/// Once a recording is over it stays over: further items, a second
/// end-of-stream marker among them, change nothing and call nothing.
pub proof fn lemma_finished_is_final(c: ControllerView, item: ChannelItemView, answer: Answer)
    requires
        c.finished,
    ensures
        c.after_item(item, answer) == c,
        c.after_channel_closed() == c,
{
}

/// An end-of-stream marker with no frame before it still finalizes a
/// writing session: the backend is flushed and sealed, and the recording
/// is over with nothing written and, if the backend did its part, without
/// an error.
pub proof fn lemma_empty_stream_is_finalized(c: ControllerView, sealed: bool)
    requires
        !c.finished,
        c.session.state == SessionState::Writing,
    ensures
        c.after_end_of_stream(sealed).finished,
        c.after_end_of_stream(sealed).session.state == SessionState::Closed,
        c.after_end_of_stream(sealed).session.frames_written == c.session.frames_written,
        c.after_end_of_stream(sealed).session.calls == c.session.calls.push(
            BackendCall::Flush { end: c.session.end_time() },
        ).push(BackendCall::Finish),
        c.after_end_of_stream(sealed).session.last_ts is None,
        sealed ==> c.after_end_of_stream(sealed).error == c.error,
{
}

/// The presentation timestamps that a call log offered to the backend,
/// oldest first.
pub open spec fn offered_at(calls: Seq<BackendCall>) -> Seq<int>
    decreases calls.len(),
{
    if calls.len() == 0 {
        Seq::empty()
    } else {
        let earlier = offered_at(calls.drop_last());
        match calls.last() {
            BackendCall::AppendFrame { frame, pts, first } => earlier.push(pts),
            _ => earlier,
        }
    }
}

impl ControllerView {
    /// The timestamps offered so far never ran backwards and none lies
    /// beyond the largest one that the normalizer handed out. A new
    /// controller over a new session is in this state.
    pub open spec fn in_step(self) -> bool {
        let at = offered_at(self.session.calls);
        &&& self.normalizer.high >= 0
        &&& self.normalizer.anchor is None ==> self.normalizer.high == 0 && at.len() == 0
        &&& forall|i: int| 0 <= i < at.len() ==> 0 <= #[trigger] at[i] <= self.normalizer.high
        &&& forall|i: int, j: int| 0 <= i <= j < at.len() ==> at[i] <= at[j]
    }
}

proof fn lemma_offered_at_push(calls: Seq<BackendCall>, call: BackendCall)
    ensures
        offered_at(calls.push(call)) == match call {
            BackendCall::AppendFrame { frame, pts, first } => offered_at(calls).push(pts),
            _ => offered_at(calls),
        },
{
    assert(calls.push(call).drop_last() =~= calls);
}

/// The backend is offered timestamps that never run backwards, whatever
/// the capture times and whatever it answers: each item leaves the
/// controller in step.
pub proof fn lemma_timestamps_stay_in_step(c: ControllerView, item: ChannelItemView, answer: Answer)
    requires
        c.in_step(),
    ensures
        c.after_item(item, answer).in_step(),
        c.after_channel_closed().in_step(),
{
    let calls = c.session.calls;
    let flush = BackendCall::Flush { end: c.session.end_time() };
    lemma_offered_at_push(calls, flush);
    lemma_offered_at_push(calls.push(flush), BackendCall::Finish);
    match item {
        ChannelItemView::Frame(frame) => {
            let fit = adapted(frame, c.target, c.target_w, c.target_h);
            let pts = c.normalizer.stamp(frame.capture_time);
            let offer = BackendCall::AppendFrame { frame: fit, pts, first: c.session.first_ts is None };
            lemma_offered_at_push(calls, offer);
            lemma_offered_at_push(calls.push(offer), BackendCall::Finish);
            let after = c.after_item(item, answer);
            let at = offered_at(after.session.calls);
            let was = offered_at(calls);
            assert(at == was || at == was.push(pts));
            assert forall|i: int| 0 <= i < at.len() implies 0 <= #[trigger] at[i]
                <= after.normalizer.high by {
                if i < was.len() {
                    assert(at[i] == was[i]);
                }
            }
            assert forall|i: int, j: int| 0 <= i <= j < at.len() implies at[i] <= at[j] by {
                if i < was.len() {
                    assert(at[i] == was[i]);
                }
                if j < was.len() {
                    assert(at[j] == was[j]);
                }
            }
        },
        ChannelItemView::EndOfStream => {},
    }
}

impl ControllerView {
    /// Whether `item` is a frame that the adapter can fit.
    pub open spec fn fits(self, item: ChannelItemView) -> bool {
        match item {
            ChannelItemView::Frame(frame) => self.adaptable(frame),
            ChannelItemView::EndOfStream => false,
        }
    }
}

/// While the backend keeps up, nothing is lost: if every item is a frame
/// that can be adapted and the backend takes or declines each without
/// failing, the frames offered are exactly the frames of `items`, each
/// once and in order.
pub proof fn lemma_every_frame_is_offered(
    c: ControllerView,
    items: Seq<ChannelItemView>,
    answers: Seq<Answer>,
)
    requires
        !c.finished,
        c.session.state == SessionState::Writing,
        answers.len() == items.len(),
        forall|i: int| 0 <= i < items.len() ==> c.fits(#[trigger] items[i]),
        forall|i: int| 0 <= i < answers.len() ==> (#[trigger] answers[i]).reply is Ok,
    ensures
        !c.after_items(items, answers).finished,
        c.after_items(items, answers).session.state == SessionState::Writing,
        offered(c.after_items(items, answers).session.calls) == offered(c.session.calls) + fitted(
            items,
            c.target,
            c.target_w,
            c.target_h,
        ),
    decreases items.len(),
{
    if items.len() == 0 {
        assert(offered(c.session.calls) + Seq::<FrameView>::empty() =~= offered(c.session.calls));
    } else {
        let mid = c.after_items(items.drop_last(), answers.drop_last());
        assert forall|i: int| 0 <= i < items.drop_last().len() implies c.fits(
            #[trigger] items.drop_last()[i],
        ) by {
            assert(items.drop_last()[i] == items[i]);
        }
        assert forall|i: int| 0 <= i < answers.drop_last().len() implies (
        #[trigger] answers.drop_last()[i]).reply is Ok by {
            assert(answers.drop_last()[i] == answers[i]);
        }
        lemma_every_frame_is_offered(c, items.drop_last(), answers.drop_last());
        lemma_submissions_keep_order(c, items.drop_last(), answers.drop_last());
        let last = items[items.len() - 1];
        assert(c.fits(last));
        let frame = last->Frame_0;
        let answer = answers[answers.len() - 1];
        assert(answer.reply is Ok);
        let fit = adapted(frame, c.target, c.target_w, c.target_h);
        let offer = BackendCall::AppendFrame {
            frame: fit,
            pts: mid.normalizer.stamp(frame.capture_time),
            first: mid.session.first_ts is None,
        };
        lemma_offered_push(mid.session.calls, offer);
        let end = mid.after_item(last, answer);
        assert(end.session.calls == mid.session.calls.push(offer));
        assert(offered(c.session.calls) + fitted(items, c.target, c.target_w, c.target_h) =~= (
        offered(c.session.calls) + fitted(
            items.drop_last(),
            c.target,
            c.target_w,
            c.target_h,
        )).push(fit));
    }
}

} // verus!
