use rusty_visualizer_core::audio::AudioMode;
use rusty_visualizer_core::device::{device_names, AudioDevice, Endpoint, HostDevices, Resolved, StreamKind};
use rusty_visualizer_core::engine::Audio;
use rusty_visualizer_core::fft::FFTSize;
use rusty_visualizer_core::scalar::Real;

#[derive(Clone, Copy, Debug, PartialEq)]
struct G(f32);

impl Real for G {
    fn spec_zero() -> Self {
        Self::zero()
    }

    fn spec_one() -> Self {
        Self::one()
    }

    fn spec_of_usize(n: usize) -> Self {
        Self::of_usize(n)
    }

    fn spec_plus(self, rhs: Self) -> Self {
        self.plus(rhs)
    }

    fn spec_minus(self, rhs: Self) -> Self {
        self.minus(rhs)
    }

    fn spec_times(self, rhs: Self) -> Self {
        self.times(rhs)
    }

    fn spec_over(self, rhs: Self) -> Self {
        self.over(rhs)
    }

    fn spec_negated(self) -> Self {
        self.negated()
    }

    fn spec_square_root(self) -> Self {
        self.square_root()
    }

    fn zero() -> Self {
        G(0.0)
    }

    fn one() -> Self {
        G(1.0)
    }

    fn of_usize(n: usize) -> Self {
        G(n as f32)
    }

    fn plus(self, rhs: Self) -> Self {
        G(self.0 + rhs.0)
    }

    fn minus(self, rhs: Self) -> Self {
        G(self.0 - rhs.0)
    }

    fn times(self, rhs: Self) -> Self {
        G(self.0 * rhs.0)
    }

    fn over(self, rhs: Self) -> Self {
        G(self.0 / rhs.0)
    }

    fn negated(self) -> Self {
        G(-self.0)
    }

    fn square_root(self) -> Self {
        G(self.0.sqrt())
    }
}

/// Stands in for a hardware stream: just a name.
#[derive(Debug, PartialEq)]
struct FakeStream(&'static str);

fn host() -> HostDevices {
    HostDevices {
        has_default_input: true,
        has_default_output: true,
        names: vec![
            Some("Mic".to_string()),
            None,
            Some("Speakers".to_string()),
            Some("Mic".to_string()),
        ],
    }
}

fn bare_host() -> HostDevices {
    HostDevices { has_default_input: false, has_default_output: false, names: vec![] }
}

#[test]
fn no_device_resolves_to_nothing() {
    assert_eq!(AudioDevice::NoDevice.resolve(&host()), None);
    assert_eq!(AudioDevice::NoDevice.resolve(&bare_host()), None);
}

#[test]
fn unknown_name_resolves_to_nothing() {
    let missing = AudioDevice::Input("nonexistent-xyz".to_string());
    assert_eq!(missing.resolve(&host()), None);
    assert_eq!(missing.resolve(&bare_host()), None);
    assert_eq!(AudioDevice::Output("mic".to_string()).resolve(&host()), None);
    assert_eq!(AudioDevice::Input(String::new()).resolve(&host()), None);
}

#[test]
fn named_devices_resolve_to_the_first_match() {
    assert_eq!(
        AudioDevice::Input("Mic".to_string()).resolve(&host()),
        Some(Resolved { endpoint: Endpoint::Listed(0), config: StreamKind::Input })
    );
    assert_eq!(
        AudioDevice::Output("Speakers".to_string()).resolve(&host()),
        Some(Resolved { endpoint: Endpoint::Listed(2), config: StreamKind::Output })
    );
}

#[test]
fn defaults_resolve_to_the_host_defaults() {
    assert_eq!(
        AudioDevice::Default.resolve(&host()),
        Some(Resolved { endpoint: Endpoint::DefaultInput, config: StreamKind::Input })
    );
    assert_eq!(
        AudioDevice::Loopback.resolve(&host()),
        Some(Resolved { endpoint: Endpoint::DefaultOutput, config: StreamKind::Output })
    );
    assert_eq!(AudioDevice::Default.resolve(&bare_host()), None);
    assert_eq!(AudioDevice::Loopback.resolve(&bare_host()), None);
}

#[test]
fn device_listing_skips_unreadable_names() {
    assert_eq!(device_names(&host().names), vec!["Mic", "Speakers", "Mic"]);
    assert!(device_names(&vec![None, None]).is_empty());
}

#[test]
fn new_engine_is_idle() {
    let audio: Audio<FakeStream, G> = Audio::new(AudioMode::Wave, true);
    assert!(audio.data().is_none());
    assert!(audio.stream().is_none());
    assert_eq!(audio.mode(), AudioMode::Wave);
    assert!(!audio.is_mode_fft());
    assert_eq!(audio.session(), 0);
}

#[test]
fn switching_to_an_unresolvable_device_stops_capture() {
    let mut audio: Audio<FakeStream, G> = Audio::new(AudioMode::Wave, false);
    let (device, writer) = audio.change_device(&AudioDevice::Default, &host()).unwrap();
    assert_eq!(device.endpoint, Endpoint::DefaultInput);
    let play = audio.install(FakeStream("default"), &writer);
    assert!(!play);
    assert!(audio.data().is_some());

    let none = audio.change_device(&AudioDevice::Input("nonexistent-xyz".to_string()), &host());
    assert!(none.is_none());
    assert!(audio.data().is_none());
    assert!(audio.stream().is_none());
}

#[test]
fn fresh_slot_holds_the_empty_frame_of_the_current_mode() {
    let mut audio: Audio<FakeStream, G> = Audio::new(AudioMode::FFT(FFTSize::FFT32), true);
    let (_, writer) = audio.change_device(&AudioDevice::Loopback, &host()).unwrap();
    assert!(audio.install(FakeStream("loopback"), &writer));
    let frame = audio.data().unwrap();
    assert_eq!(frame.data.len(), 32);
    assert!(frame.data.iter().all(|v| v.0 == 0.0));
    assert_eq!(frame.mode, AudioMode::FFT(FFTSize::FFT32));
}

#[test]
fn stale_callback_never_reaches_the_new_slot() {
    let mut audio: Audio<FakeStream, G> = Audio::new(AudioMode::Wave, true);
    let (_, first) = audio.change_device(&AudioDevice::Default, &host()).unwrap();
    audio.install(FakeStream("first"), &first);
    first.on_samples(&[G(1.0), G(2.0)]);
    assert_eq!(audio.data().unwrap().data, vec![G(1.0), G(2.0)]);

    let (_, second) = audio.change_device(&AudioDevice::Input("Mic".to_string()), &host()).unwrap();
    assert!(audio.stream().is_none());
    audio.install(FakeStream("second"), &second);
    assert_eq!(audio.stream(), &Some(FakeStream("second")));

    // A delayed callback of the first stream fires after the switch.
    first.on_samples(&[G(9.0), G(9.0), G(9.0)]);
    let seen = audio.data().unwrap();
    assert!(seen.data.is_empty());
    assert_eq!(seen.session, second.session());
    assert_ne!(seen.session, first.session());

    second.on_samples(&[G(0.5)]);
    let seen = audio.data().unwrap();
    assert_eq!(seen.data, vec![G(0.5)]);
    assert_eq!(seen.session, 2);
}

#[test]
fn mode_change_applies_from_the_next_buffer() {
    let mut audio: Audio<FakeStream, G> = Audio::new(AudioMode::Wave, true);
    let (_, writer) = audio.change_device(&AudioDevice::Default, &host()).unwrap();
    audio.install(FakeStream("default"), &writer);
    let samples = vec![G(0.25); 40];
    writer.on_samples(&samples);
    assert_eq!(audio.data().unwrap().data.len(), 40);

    audio.change_mode(AudioMode::FFT(FFTSize::FFT16));
    assert!(audio.is_mode_fft());
    assert_eq!(audio.data().unwrap().mode, AudioMode::Wave);
    assert_eq!(audio.stream(), &Some(FakeStream("default")));

    writer.on_samples(&samples);
    let frame = audio.data().unwrap();
    assert_eq!(frame.mode, AudioMode::FFT(FFTSize::FFT16));
    assert_eq!(frame.data.len(), 16);
}

#[test]
fn every_read_is_a_whole_frame() {
    let mut audio: Audio<FakeStream, G> = Audio::new(AudioMode::FFT(FFTSize::FFT64), true);
    let (_, writer) = audio.change_device(&AudioDevice::Default, &host()).unwrap();
    audio.install(FakeStream("default"), &writer);
    for round in 0..200usize {
        if round % 50 == 25 {
            audio.change_mode(AudioMode::Wave);
        } else if round % 50 == 0 {
            audio.change_mode(AudioMode::FFT(FFTSize::FFT64));
        }
        let samples: Vec<G> = (0..(round % 97)).map(|i| G((i as f32 * 0.37).sin())).collect();
        writer.on_samples(&samples);
        let frame = audio.data().unwrap();
        let expected = match frame.mode {
            AudioMode::FFT(size) => size.size(),
            AudioMode::Wave => samples.len(),
        };
        assert_eq!(frame.data.len(), expected);
        let total: f32 = frame.data.iter().map(|v| v.0).sum();
        assert!((frame.sum.0 - total).abs() < 1e-3);
    }
}

#[test]
fn sine_through_the_callback_peaks_at_its_bin() {
    let mut audio: Audio<FakeStream, G> = Audio::new(AudioMode::FFT(FFTSize::FFT16), true);
    let (_, writer) = audio.change_device(&AudioDevice::Default, &host()).unwrap();
    let callback = writer.share();
    audio.install(FakeStream("default"), &writer);
    // Two cycles over sixteen samples, amplitude one half.
    let samples: Vec<G> = (0..16)
        .map(|i| G(0.5 * (2.0 * std::f32::consts::PI * 2.0 * i as f32 / 16.0).sin()))
        .collect();
    callback.on_samples(&samples);
    let frame = audio.data().unwrap();
    assert_eq!(frame.data.len(), 16);
    let mut best = 0;
    for i in 0..8 {
        if frame.data[i].0 > frame.data[best].0 {
            best = i;
        }
    }
    assert_eq!(best, 2);
}
