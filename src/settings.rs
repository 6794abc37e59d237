use vstd::prelude::*;

use crate::audio::AudioMode;
use crate::device::AudioDevice;

verus! {

/// The capture configuration that the settings store keeps: which device,
/// which mode, whether a new stream starts playing at once, and whether the
/// device is applied on start-up.
#[derive(Clone, Debug)]
pub struct AudioSettings {
    pub device: AudioDevice,
    pub mode: AudioMode,
    pub auto_play: bool,
    pub auto_set: bool,
}

impl AudioSettings {
    /// Settings for `device`, in waveform mode, starting streams at once.
    pub fn new(device: AudioDevice) -> (r: Self)
        ensures
            r.device == device,
            r.mode == AudioMode::Wave,
            r.auto_play,
            r.auto_set,
    {
        AudioSettings { device, mode: AudioMode::Wave, auto_play: true, auto_set: true }
    }
}

impl Default for AudioSettings {
    /// The settings for the host's default input device.
    fn default() -> (r: Self)
        ensures
            r.device == AudioDevice::Default,
            r.mode == AudioMode::Wave,
            r.auto_play,
            r.auto_set,
    {
        AudioSettings::new(AudioDevice::Default)
    }
}

} // verus!
