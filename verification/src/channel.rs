//! The hand-off queue between the capture side and the encoding side.
//!
//! The queue itself never waits. Whoever shares it between two threads
//! wraps it in a lock and lets the consumer sleep while `recv` has nothing
//! for it.

use crate::error::ErrorKind;
use crate::frame::{Frame, FrameView};
use std::collections::VecDeque;
use vstd::prelude::*;

verus! {

/// What travels through the channel.
#[derive(Debug, PartialEq, Eq)]
pub enum ChannelItem {
    Frame(Frame),
    EndOfStream,
}

/// A channel item as a mathematical value.
pub enum ChannelItemView {
    Frame(FrameView),
    EndOfStream,
}

impl View for ChannelItem {
    type V = ChannelItemView;

    open spec fn view(&self) -> ChannelItemView {
        match self {
            ChannelItem::Frame(f) => ChannelItemView::Frame(f@),
            ChannelItem::EndOfStream => ChannelItemView::EndOfStream,
        }
    }
}

/// A channel as a mathematical value.
pub struct ChannelView {
    /// What was sent and not yet received, oldest first.
    pub pending: Seq<ChannelItemView>,
    /// The end-of-stream marker was sent.
    pub sealed: bool,
    /// The producer went away.
    pub hung_up: bool,
}

impl ChannelView {
    /// A new channel: empty, open, producer present.
    pub open spec fn empty() -> Self {
        ChannelView { pending: Seq::empty(), sealed: false, hung_up: false }
    }

    /// The marker, if it is waiting, is the last thing waiting, and it is
    /// only there if it was sent.
    pub open spec fn wf(self) -> bool {
        forall|i: int|
            0 <= i < self.pending.len() && #[trigger] self.pending[i] is EndOfStream ==> self.sealed
                && i == self.pending.len() - 1
    }

    /// Whether `send` takes an item: nothing follows the marker, and a
    /// producer that went away sends nothing.
    pub open spec fn accepts(self) -> bool {
        !self.sealed && !self.hung_up
    }

    /// The channel after `send(item)`.
    pub open spec fn after_send(self, item: ChannelItemView) -> Self {
        if self.accepts() {
            ChannelView { pending: self.pending.push(item), sealed: item is EndOfStream, ..self }
        } else {
            self
        }
    }

    /// The channel after `recv`.
    pub open spec fn after_recv(self) -> Self {
        if self.pending.len() > 0 {
            ChannelView { pending: self.pending.drop_first(), ..self }
        } else {
            self
        }
    }

    /// What `recv` returns.
    pub open spec fn recv_result(self) -> Result<Option<ChannelItemView>, ErrorKind> {
        if self.pending.len() > 0 {
            Ok(Some(self.pending[0]))
        } else if self.hung_up && !self.sealed {
            Err(ErrorKind::ChannelClosedUnexpectedly)
        } else {
            Ok(None)
        }
    }

    /// The channel after `n` calls of `recv`.
    pub open spec fn after_recvs(self, n: nat) -> Self
        decreases n,
    {
        if n == 0 {
            self
        } else {
            self.after_recv().after_recvs((n - 1) as nat)
        }
    }

    /// The channel after sending `items` one after the other.
    pub open spec fn after_send_all(self, items: Seq<ChannelItemView>) -> Self
        decreases items.len(),
    {
        if items.len() == 0 {
            self
        } else {
            self.after_send(items[0]).after_send_all(items.drop_first())
        }
    }
}

/// A first-in, first-out queue of frames that ends with one end-of-stream
/// marker.
///
/// Only frames are stored. The marker is a flag that is raised when it is
/// sent and lowered when it is received, after the last frame, so it cannot
/// stand anywhere but at the end.
pub struct FrameChannel {
    frames: VecDeque<Frame>,
    sealed: bool,
    marker_waiting: bool,
    hung_up: bool,
}

impl View for FrameChannel {
    type V = ChannelView;

    closed spec fn view(&self) -> ChannelView {
        let frames = self.frames@.map_values(|f: Frame| ChannelItemView::Frame(f@));
        ChannelView {
            pending: if self.sealed && self.marker_waiting {
                frames.push(ChannelItemView::EndOfStream)
            } else {
                frames
            },
            sealed: self.sealed,
            hung_up: self.hung_up,
        }
    }
}

impl FrameChannel {
    /// Whatever was done to a channel, its marker waits in the last place
    /// or not at all.
    pub proof fn lemma_marker_last(self)
        ensures
            self@.wf(),
    {
    }

    /// An empty channel.
    pub fn new() -> (r: Self)
        ensures
            r@ == ChannelView::empty(),
    {
        let r = FrameChannel {
            frames: VecDeque::new(),
            sealed: false,
            marker_waiting: false,
            hung_up: false,
        };
        assert(r@.pending =~= Seq::empty());
        r
    }

    /// Puts `item` at the end of the queue and says whether it was taken.
    /// After the marker nothing is taken any more, a second marker
    /// included.
    pub fn send(&mut self, item: ChannelItem) -> (accepted: bool)
        ensures
            accepted == old(self)@.accepts(),
            final(self)@ == old(self)@.after_send(item@),
    {
        if self.sealed || self.hung_up {
            return false;
        }
        let ghost before = self@;
        match item {
            ChannelItem::EndOfStream => {
                self.sealed = true;
                self.marker_waiting = true;
            },
            ChannelItem::Frame(f) => {
                self.frames.push_back(f);
            },
        }
        proof {
            assert(self@.pending =~= before.pending.push(item@));
        }
        true
    }

    /// Takes the oldest item off the queue. `Ok(None)` says that nothing is
    /// waiting. An empty queue whose producer went away without sending
    /// the marker is an error.
    pub fn recv(&mut self) -> (r: Result<Option<ChannelItem>, ErrorKind>)
        ensures
            final(self)@ == old(self)@.after_recv(),
            match r {
                Ok(Some(item)) => old(self)@.recv_result() == Ok::<
                    Option<ChannelItemView>,
                    ErrorKind,
                >(Some(item@)),
                Ok(None) => old(self)@.recv_result() == Ok::<Option<ChannelItemView>, ErrorKind>(
                    None,
                ),
                Err(e) => old(self)@.recv_result() == Err::<Option<ChannelItemView>, ErrorKind>(e),
            },
    {
        let ghost before = self@;
        match self.frames.pop_front() {
            Some(f) => {
                proof {
                    assert(self@.pending =~= before.pending.drop_first());
                }
                Ok(Some(ChannelItem::Frame(f)))
            },
            None => {
                if self.sealed && self.marker_waiting {
                    self.marker_waiting = false;
                    proof {
                        assert(self@.pending =~= before.pending.drop_first());
                    }
                    Ok(Some(ChannelItem::EndOfStream))
                } else {
                    proof {
                        assert(self@.pending =~= before.pending);
                    }
                    if self.hung_up && !self.sealed {
                        Err(ErrorKind::ChannelClosedUnexpectedly)
                    } else {
                        Ok(None)
                    }
                }
            },
        }
    }

    /// Records that the producer went away.
    pub fn hang_up(&mut self)
        ensures
            final(self)@ == (ChannelView { hung_up: true, ..old(self)@ }),
    {
        self.hung_up = true;
    }

    /// Whether nothing is waiting, neither a frame nor the marker.
    pub fn is_empty(&self) -> (r: bool)
        ensures
            r == (self@.pending.len() == 0),
    {
        self.frames.len() == 0 && !(self.sealed && self.marker_waiting)
    }

    /// Whether the end-of-stream marker was sent.
    pub fn is_sealed(&self) -> (r: bool)
        ensures
            r == self@.sealed,
    {
        self.sealed
    }
}

/// What is sent queues up behind what is waiting, in the order in which it
/// was sent, as long as the marker comes last.
pub proof fn lemma_sent_in_order(c: ChannelView, items: Seq<ChannelItemView>)
    requires
        c.accepts(),
        forall|i: int| 0 <= i < items.len() - 1 ==> items[i] is Frame,
    ensures
        c.after_send_all(items).pending == c.pending + items,
        c.after_send_all(items).hung_up == c.hung_up,
        c.after_send_all(items).sealed == (items.len() > 0 && items.last() is EndOfStream),
    decreases items.len(),
{
    if items.len() == 0 {
        assert(c.pending + items =~= c.pending);
    } else {
        let next = c.after_send(items[0]);
        let rest = items.drop_first();
        assert(c.after_send_all(items) == next.after_send_all(rest));
        if rest.len() == 0 {
            assert(next.after_send_all(rest) == next);
            assert(c.pending + items =~= c.pending.push(items[0]));
            assert(items.last() == items[0]);
        } else {
            assert(items[0] is Frame);
            assert forall|i: int| 0 <= i < rest.len() - 1 implies rest[i] is Frame by {
                assert(rest[i] == items[i + 1]);
            }
            lemma_sent_in_order(next, rest);
            assert(next.pending + rest =~= c.pending + items);
            assert(rest.last() == items.last());
        }
    }
}

/// What waits is received oldest first: the `n`-th call of `recv`,
/// counting from zero, returns the `n`-th item that was waiting.
pub proof fn lemma_received_in_order(c: ChannelView, n: nat)
    requires
        n < c.pending.len(),
    ensures
        c.after_recvs(n).pending == c.pending.skip(n as int),
        c.after_recvs(n).recv_result() == Ok::<Option<ChannelItemView>, ErrorKind>(
            Some(c.pending[n as int]),
        ),
    decreases n,
{
    if n == 0 {
        assert(c.pending.skip(0) =~= c.pending);
    } else {
        let next = c.after_recv();
        lemma_received_in_order(next, (n - 1) as nat);
        assert(next.pending.skip(n - 1) =~= c.pending.skip(n as int));
    }
}

/// Sending a second marker, or anything else after the first, changes
/// nothing.
pub proof fn lemma_sealed_takes_nothing(c: ChannelView, item: ChannelItemView)
    requires
        c.sealed,
    ensures
        !c.accepts(),
        c.after_send(item) == c,
{
}

} // verus!
