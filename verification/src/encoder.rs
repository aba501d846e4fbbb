//! What the pipeline asks of an encoder backend.

use crate::frame::{Frame, FrameView};
use crate::settings::{ContainerSettings, VideoSettings};
use crate::time::PresentationTimestamp;
use vstd::prelude::*;

verus! {

/// A backend's own account of why it failed.
#[derive(Clone, Copy, Debug, PartialEq, Eq, Structural)]
pub struct BackendFailure {
    /// The platform's error code.
    pub code: i32,
}

/// A backend's answer to a frame it was offered.
#[derive(Clone, Copy, Debug, PartialEq, Eq, Structural)]
pub enum Readiness {
    /// The frame was taken.
    Ready,
    /// The backend cannot take more data now; the frame was not taken.
    NotReady,
}

/// An encoder and muxer that writes one container file.
///
/// A session calls `finish` once for every backend it was given, as its
/// last call: after `flush` when the recording ends in good order, and
/// alone when `append_frame` has failed. It expects nothing of the
/// answers: whatever a backend returns is handled.
pub trait Encoder: Sized {
    /// Sets the backend up to write `output` with the given settings.
    fn configure(video: &VideoSettings, container: &ContainerSettings, output: &str) -> Result<
        Self,
        BackendFailure,
    >;

    /// Offers one frame to be shown at `pts`. `first` says that the
    /// backend has taken no frame yet, so that its clock starts at `pts` if
    /// it takes this one.
    fn append_frame(&mut self, frame: &Frame, pts: PresentationTimestamp, first: bool) -> Result<
        Readiness,
        BackendFailure,
    >;

    /// Ends the stream at `end`, the timestamp of the last frame taken or
    /// zero if none was, and hands every packet still buffered to the
    /// muxer.
    fn flush(&mut self, end: PresentationTimestamp) -> Result<(), BackendFailure>;

    /// Seals the container.
    fn finish(&mut self) -> Result<(), BackendFailure>;
}

/// One call made on a backend.
pub enum BackendCall {
    Configure { video: VideoSettings, container: ContainerSettings, output: Seq<char> },
    AppendFrame { frame: FrameView, pts: int, first: bool },
    Flush { end: int },
    Finish,
}

/// A backend together with the record of every call made on it.
///
/// Both are private to this type, and each method that adds to the record
/// does so by one entry, for the one call it has just made with the
/// arguments it was given. So whoever holds a `Handle` can add to the
/// record only by calling the backend. The record outlives the backend.
pub struct Handle<E: Encoder> {
    backend: Option<E>,
    calls: Ghost<Seq<BackendCall>>,
}

impl<E: Encoder> Handle<E> {
    /// The backend, while one is held.
    pub closed spec fn held(&self) -> Option<E> {
        self.backend
    }

    /// Every call made through this handle, oldest first.
    pub closed spec fn calls(&self) -> Seq<BackendCall> {
        self.calls@
    }

    /// A handle that holds no backend and has recorded no call.
    pub fn empty() -> (r: Self)
        ensures
            r.held() is None,
            r.calls() == Seq::<BackendCall>::empty(),
    {
        Handle { backend: None, calls: Ghost(Seq::empty()) }
    }

    /// Whether a backend is held.
    pub fn is_held(&self) -> (r: bool)
        ensures
            r == self.held() is Some,
    {
        self.backend.is_some()
    }

    /// Takes a backend that was set up elsewhere. No call is made. A
    /// backend already held is let go.
    pub fn adopt(&mut self, backend: E)
        ensures
            final(self).held() == Some(backend),
            final(self).calls() == old(self).calls(),
    {
        self.backend = Some(backend);
    }

    /// Calls `configure` and holds the backend it gives, if it gives one.
    /// A backend already held is let go.
    pub fn configure(&mut self, video: &VideoSettings, container: &ContainerSettings, output: &str)
        -> (r: Result<(), BackendFailure>)
        ensures
            final(self).calls() == old(self).calls().push(
                BackendCall::Configure { video: *video, container: *container, output: output@ },
            ),
            r is Ok <==> final(self).held() is Some,
    {
        let made = E::configure(video, container, output);
        self.calls = Ghost(
            self.calls@.push(
                BackendCall::Configure { video: *video, container: *container, output: output@ },
            ),
        );
        match made {
            Ok(backend) => {
                self.backend = Some(backend);
                Ok(())
            },
            Err(e) => {
                self.backend = None;
                Err(e)
            },
        }
    }

    /// Calls `append_frame` on the backend held. Without a backend nothing
    /// is called and the answer is a failure.
    pub fn append_frame(&mut self, frame: &Frame, pts: PresentationTimestamp, first: bool) -> (r:
        Result<Readiness, BackendFailure>)
        ensures
            old(self).held() is Some ==> final(self).held() is Some && final(self).calls() == old(
                self,
            ).calls().push(BackendCall::AppendFrame { frame: frame@, pts: pts@, first }),
            old(self).held() is None ==> r is Err && *final(self) == *old(self),
    {
        match self.backend.take() {
            Some(mut backend) => {
                let reply = backend.append_frame(frame, pts, first);
                self.backend = Some(backend);
                self.calls = Ghost(
                    self.calls@.push(
                        BackendCall::AppendFrame { frame: frame@, pts: pts@, first },
                    ),
                );
                reply
            },
            None => Err(BackendFailure { code: 0 }),
        }
    }

    /// Calls `flush` on the backend held. Without a backend nothing is
    /// called and the answer is a failure.
    pub fn flush(&mut self, end: PresentationTimestamp) -> (r: Result<(), BackendFailure>)
        ensures
            old(self).held() is Some ==> final(self).held() is Some && final(self).calls() == old(
                self,
            ).calls().push(BackendCall::Flush { end: end@ }),
            old(self).held() is None ==> r is Err && *final(self) == *old(self),
    {
        match self.backend.take() {
            Some(mut backend) => {
                let reply = backend.flush(end);
                self.backend = Some(backend);
                self.calls = Ghost(self.calls@.push(BackendCall::Flush { end: end@ }));
                reply
            },
            None => Err(BackendFailure { code: 0 }),
        }
    }

    /// Calls `finish` on the backend held and lets go of it. Without a
    /// backend nothing is called and the answer is a failure.
    pub fn finish(&mut self) -> (r: Result<(), BackendFailure>)
        ensures
            final(self).held() is None,
            old(self).held() is Some ==> final(self).calls() == old(self).calls().push(
                BackendCall::Finish,
            ),
            old(self).held() is None ==> r is Err && *final(self) == *old(self),
    {
        match self.backend.take() {
            Some(mut backend) => {
                let reply = backend.finish();
                self.calls = Ghost(self.calls@.push(BackendCall::Finish));
                reply
            },
            None => Err(BackendFailure { code: 0 }),
        }
    }
}

} // verus!
