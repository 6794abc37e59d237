use std::sync::Arc;

use vstd::prelude::*;
use vstd::rwlock::{RwLock, RwLockPredicate};

use crate::audio::{AudioData, AudioMode};
use crate::device::{AudioDevice, HostDevices, Resolved};
use crate::fft::MAX_FFT_SIZE;
use crate::scalar::Real;
use crate::settings::AudioSettings;

verus! {

/// What the frame slot of one capture session may hold: well-formed frames
/// made by that session's callback.
pub struct SessionFrames {
    pub session: u64,
}

impl<R: Real> RwLockPredicate<AudioData<R>> for SessionFrames {
    open spec fn inv(self, v: AudioData<R>) -> bool {
        v.wf() && v.session == self.session
    }
}

/// The mode flag may hold any mode.
pub struct AnyMode;

impl RwLockPredicate<AudioMode> for AnyMode {
    open spec fn inv(self, v: AudioMode) -> bool {
        true
    }
}

/// The shared mode flag: read by the callback once per buffer, written when
/// the mode changes.
pub type ModeFlag = RwLock<AudioMode, AnyMode>;

/// The shared slot that holds the latest frame of one capture session.
pub type FrameSlot<R> = RwLock<AudioData<R>, SessionFrames>;

/// What a hardware callback holds: handles to the shared mode flag and to
/// the frame slot of its own session. It never owns the engine.
pub struct FrameWriter<R: Real> {
    mode: Arc<ModeFlag>,
    slot: Arc<FrameSlot<R>>,
    session: u64,
}

impl<R: Real> FrameWriter<R> {
    pub closed spec fn spec_session(&self) -> u64 {
        self.session
    }

    /// The slot this writer fills; it takes only frames of this session.
    pub closed spec fn spec_slot(&self) -> FrameSlot<R> {
        *self.slot
    }

    pub closed spec fn wf(&self) -> bool {
        self.slot.pred() == (SessionFrames { session: self.session })
    }

    pub fn session(&self) -> (r: u64)
        ensures
            r == self.spec_session(),
    {
        self.session
    }

    /// A second writer for the same session and slot, for the stream's
    /// callback to own.
    pub fn share(&self) -> (r: Self)
        requires
            self.wf(),
        ensures
            r.wf(),
            r.spec_session() == self.spec_session(),
            r.spec_slot() == self.spec_slot(),
    {
        FrameWriter { mode: self.mode.clone(), slot: self.slot.clone(), session: self.session }
    }

    /// Handles one buffer of samples from the hardware: snapshots the mode,
    /// builds the frame outside any lock, then replaces the slot's frame with
    /// it whole, so that a reader sees either the old frame or the new one.
    pub fn on_samples(&self, samples: &[R])
        requires
            self.wf(),
            samples@.len() + MAX_FFT_SIZE + 1 <= usize::MAX,
    {
        let read = self.mode.acquire_read();
        let mode = *read.borrow();
        read.release_read();
        let frame = AudioData::new(samples, mode, self.session);
        let (_previous, write) = self.slot.acquire_write();
        write.release_write(frame);
    }
}

/// The capture engine: owns the active stream, of the caller's stream type
/// `S`, and the handles to the shared mode flag and to the current session's
/// frame slot. It is Idle (no stream, no slot) or Capturing (both).
///
/// Every piece of state that another thread can reach sits behind one of
/// the two locks; the stream and the session counter are touched only
/// through `&mut self`, so one caller at a time switches devices.
pub struct Audio<S, R: Real> {
    mode_flag: Arc<ModeFlag>,
    mode: AudioMode,
    stream: Option<S>,
    receiver: Option<Arc<FrameSlot<R>>>,
    auto_play: bool,
    session: u64,
}

impl<S, R: Real> Audio<S, R> {
    pub closed spec fn spec_mode(&self) -> AudioMode {
        self.mode
    }

    pub closed spec fn spec_auto_play(&self) -> bool {
        self.auto_play
    }

    /// The number of the current (or last) capture session.
    pub closed spec fn spec_session(&self) -> u64 {
        self.session
    }

    pub closed spec fn spec_stream(&self) -> Option<S> {
        self.stream
    }

    pub closed spec fn is_capturing(&self) -> bool {
        self.receiver is Some
    }

    /// The frame slot that readers are served from, while capturing.
    pub closed spec fn spec_slot(&self) -> Option<FrameSlot<R>> {
        match self.receiver {
            Some(slot) => Some(*slot),
            None => None,
        }
    }

    pub closed spec fn wf(&self) -> bool {
        &&& self.stream is Some <==> self.receiver is Some
        &&& self.receiver is Some ==> self.receiver->0.pred() == (SessionFrames {
            session: self.session,
        })
    }

    /// An idle engine in the given mode.
    pub fn new(mode: AudioMode, auto_play: bool) -> (r: Self)
        ensures
            r.wf(),
            !r.is_capturing(),
            r.spec_mode() == mode,
            r.spec_auto_play() == auto_play,
            r.spec_session() == 0,
    {
        let flag = RwLock::new(mode, Ghost(AnyMode));
        Audio {
            mode_flag: Arc::new(flag),
            mode,
            stream: None,
            receiver: None,
            auto_play,
            session: 0,
        }
    }

    /// An idle engine with the mode and start-up policy of `settings`; the
    /// caller then switches it to `settings.device`.
    pub fn from_settings(settings: &AudioSettings) -> (r: Self)
        ensures
            r.wf(),
            !r.is_capturing(),
            r.spec_mode() == settings.mode,
            r.spec_auto_play() == settings.auto_play,
            r.spec_session() == 0,
    {
        Audio::new(settings.mode, settings.auto_play)
    }

    pub fn is_mode_fft(&self) -> (r: bool)
        ensures
            r == self.spec_mode().spec_is_fft(),
    {
        self.mode.is_fft()
    }

    /// The active stream, if capturing.
    pub fn stream(&self) -> (r: &Option<S>)
        ensures
            *r == self.spec_stream(),
    {
        &self.stream
    }

    pub fn mode(&self) -> (r: AudioMode)
        ensures
            r == self.spec_mode(),
    {
        self.mode
    }

    pub fn session(&self) -> (r: u64)
        ensures
            r == self.spec_session(),
    {
        self.session
    }

    /// A copy of the latest frame, or nothing while idle. The slot is locked
    /// only for the copy. Whatever a reader gets is a whole frame of the
    /// current session.
    pub fn data(&self) -> (r: Option<AudioData<R>>)
        requires
            self.wf(),
        ensures
            r is Some <==> self.is_capturing(),
            r matches Some(f) ==> f.wf() && f.session == self.spec_session(),
    {
        match &self.receiver {
            None => None,
            Some(slot) => {
                let read = slot.acquire_read();
                let frame = read.borrow();
                let mut values: Vec<R> = Vec::new();
                let mut i: usize = 0;
                while i < frame.data.len()
                    invariant
                        i <= frame.data@.len(),
                        values@ == frame.data@.subrange(0, i as int),
                    decreases frame.data@.len() - i,
                {
                    values.push(frame.data[i]);
                    i = i + 1;
                }
                assert(values@ =~= frame.data@);
                let copy = AudioData {
                    data: values,
                    sum: frame.sum,
                    mode: frame.mode,
                    session: frame.session,
                };
                read.release_read();
                Some(copy)
            },
        }
    }

    /// Replaces the mode; the callback picks it up on its next buffer. The
    /// stream keeps running.
    pub fn change_mode(&mut self, new_mode: AudioMode)
        requires
            old(self).wf(),
        ensures
            final(self).wf(),
            final(self).spec_mode() == new_mode,
            final(self).is_capturing() == old(self).is_capturing(),
            final(self).spec_session() == old(self).spec_session(),
            final(self).spec_stream() == old(self).spec_stream(),
            final(self).spec_slot() == old(self).spec_slot(),
            final(self).spec_auto_play() == old(self).spec_auto_play(),
    {
        let (_previous, write) = self.mode_flag.acquire_write();
        write.release_write(new_mode);
        self.mode = new_mode;
    }

    /// Stops capture: drops the stream, which stops its callback, and lets go
    /// of the frame slot, so readers get nothing.
    pub fn stop(&mut self)
        requires
            old(self).wf(),
        ensures
            final(self).wf(),
            !final(self).is_capturing(),
            final(self).spec_stream() is None,
            final(self).spec_mode() == old(self).spec_mode(),
            final(self).spec_session() == old(self).spec_session(),
            final(self).spec_auto_play() == old(self).spec_auto_play(),
    {
        self.stream = None;
        self.receiver = None;
    }

    /// Starts a new capture session: stops the current one first, then makes
    /// a fresh frame slot, holding the empty frame of the current mode, and
    /// the writer that the new stream's callback is to hold.
    pub fn open_session(&mut self) -> (w: FrameWriter<R>)
        requires
            old(self).wf(),
            old(self).spec_session() < u64::MAX,
        ensures
            final(self).wf(),
            !final(self).is_capturing(),
            final(self).spec_stream() is None,
            final(self).spec_session() == old(self).spec_session() + 1,
            final(self).spec_mode() == old(self).spec_mode(),
            final(self).spec_auto_play() == old(self).spec_auto_play(),
            w.wf(),
            w.spec_session() == final(self).spec_session(),
    {
        self.stop();
        self.session = self.session + 1;
        let empty: [R; 0] = [];
        let first = AudioData::new(&empty, self.mode, self.session);
        let slot = RwLock::new(first, Ghost(SessionFrames { session: self.session }));
        FrameWriter { mode: self.mode_flag.clone(), slot: Arc::new(slot), session: self.session }
    }

    /// Installs the stream built around `w`'s callback and publishes `w`'s
    /// slot to readers. Returns whether the stream is to be started now.
    pub fn install(&mut self, stream: S, w: &FrameWriter<R>) -> (play: bool)
        requires
            old(self).wf(),
            !old(self).is_capturing(),
            w.wf(),
            w.spec_session() == old(self).spec_session(),
        ensures
            final(self).wf(),
            final(self).is_capturing(),
            final(self).spec_stream() == Some(stream),
            final(self).spec_session() == old(self).spec_session(),
            final(self).spec_mode() == old(self).spec_mode(),
            final(self).spec_auto_play() == old(self).spec_auto_play(),
            play == old(self).spec_auto_play(),
    {
        self.receiver = Some(w.slot.clone());
        self.stream = Some(stream);
        self.auto_play
    }

    /// Switches to the device that `selector` resolves to on `host`. Where it
    /// resolves to nothing, capture stops and nothing is returned. Otherwise
    /// the current session is stopped and a new one opened, and the device
    /// is returned with the writer that the new stream's callback is to
    /// hold; the caller builds that stream and hands it to `install`.
    pub fn change_device(&mut self, selector: &AudioDevice, host: &HostDevices) -> (r: Option<
        (Resolved, FrameWriter<R>),
    >)
        requires
            old(self).wf(),
            old(self).spec_session() < u64::MAX,
        ensures
            final(self).wf(),
            !final(self).is_capturing(),
            final(self).spec_stream() is None,
            final(self).spec_mode() == old(self).spec_mode(),
            final(self).spec_auto_play() == old(self).spec_auto_play(),
            selector.resolves_to(
                host,
                match r {
                    Some(p) => Some(p.0),
                    None => None,
                },
            ),
            r is None ==> final(self).spec_session() == old(self).spec_session(),
            r matches Some(p) ==> {
                &&& final(self).spec_session() == old(self).spec_session() + 1
                &&& p.1.wf()
                &&& p.1.spec_session() == final(self).spec_session()
            },
    {
        match selector.resolve(host) {
            None => {
                self.stop();
                None
            },
            Some(device) => {
                let w = self.open_session();
                Some((device, w))
            },
        }
    }
}

/// After a device switch, a callback of an earlier session can no longer
/// reach readers: the slot they are served from is not the one it writes
/// to, and that slot admits no frame it makes, since every frame carries the
/// number of the session whose callback made it.
pub proof fn lemma_switch_hides_stale_frames<S, R: Real>(
    before: Audio<S, R>,
    after: Audio<S, R>,
    stale: FrameWriter<R>,
)
    requires
        after.wf(),
        stale.wf(),
        after.is_capturing(),
        stale.spec_session() <= before.spec_session(),
        after.spec_session() == before.spec_session() + 1,
    ensures
        after.spec_slot() != Some(stale.spec_slot()),
        forall|f: AudioData<R>|
            #[trigger] after.spec_slot()->0.inv(f) ==> f.session != stale.spec_session(),
{
}

} // verus!
