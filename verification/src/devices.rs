//! Audio devices as enumerated by the audio host: filtering by direction,
//! default lookup and the sample rates a device supports.

use vstd::prelude::*;

use crate::text::{concat_text, dec_text, has_infix, lowercase_text, push_decimal, to_lowercase};

verus! {

/// Type of audio device.
#[derive(Debug, Clone, Copy, PartialEq, Eq, Structural)]
pub enum DeviceType {
    Input,
    Output,
}

/// Audio errors.
#[derive(Debug)]
pub enum AudioError {
    NoDevice,
    DeviceNotFound(String),
    ConfigError(String),
    StreamError(String),
    PlaybackError(String),
    ChannelClosed,
    SampleRateMismatch { expected: u32, actual: u32 },
    UnsupportedFormat,
}

/// The message of an audio error.
pub open spec fn audio_error_text(e: AudioError) -> Seq<char> {
    match e {
        AudioError::NoDevice => "No audio device available"@,
        AudioError::DeviceNotFound(s) => "Device not found: "@ + s@,
        AudioError::ConfigError(s) => "Failed to get device config: "@ + s@,
        AudioError::StreamError(s) => "Failed to build audio stream: "@ + s@,
        AudioError::PlaybackError(s) => "Stream playback error: "@ + s@,
        AudioError::ChannelClosed => "Audio channel closed"@,
        AudioError::SampleRateMismatch { expected, actual } => "Sample rate mismatch: expected "@
            + dec_text(expected as nat) + ", got "@ + dec_text(actual as nat),
        AudioError::UnsupportedFormat => "Unsupported sample format"@,
    }
}

impl AudioError {
    /// The human-readable message.
    pub fn message(&self) -> (r: String)
        ensures
            r@ == audio_error_text(*self),
    {
        match self {
            AudioError::NoDevice => String::from_str("No audio device available"),
            AudioError::DeviceNotFound(s) => concat_text("Device not found: ", s.as_str()),
            AudioError::ConfigError(s) => concat_text("Failed to get device config: ", s.as_str()),
            AudioError::StreamError(s) => concat_text("Failed to build audio stream: ", s.as_str()),
            AudioError::PlaybackError(s) => concat_text("Stream playback error: ", s.as_str()),
            AudioError::ChannelClosed => String::from_str("Audio channel closed"),
            AudioError::SampleRateMismatch { expected, actual } => {
                let mut r = String::from_str("Sample rate mismatch: expected ");
                push_decimal(&mut r, *expected as u64);
                r.append(", got ");
                push_decimal(&mut r, *actual as u64);
                r
            },
            AudioError::UnsupportedFormat => String::from_str("Unsupported sample format"),
        }
    }
}

/// The model of an audio device.
pub struct AudioDeviceView {
    pub name: Seq<char>,
    pub device_type: DeviceType,
    pub is_default: bool,
    pub sample_rates: Seq<u32>,
    pub max_channels: u16,
}

/// Audio device information.
#[derive(Debug)]
pub struct AudioDevice {
    /// Device name.
    pub name: String,
    /// Device type (input or output).
    pub device_type: DeviceType,
    /// Whether this is the default device.
    pub is_default: bool,
    /// Supported sample rates.
    pub sample_rates: Vec<u32>,
    /// Maximum number of channels.
    pub max_channels: u16,
}

impl View for AudioDevice {
    type V = AudioDeviceView;

    open spec fn view(&self) -> AudioDeviceView {
        AudioDeviceView {
            name: self.name@,
            device_type: self.device_type,
            is_default: self.is_default,
            sample_rates: self.sample_rates@,
            max_channels: self.max_channels,
        }
    }
}

/// A copy of a list of rates.
fn copy_rates(v: &Vec<u32>) -> (r: Vec<u32>)
    ensures
        r@ == v@,
{
    let mut r: Vec<u32> = Vec::new();
    let mut i: usize = 0;
    while i < v.len()
        invariant
            i <= v@.len(),
            r@ == v@.subrange(0, i as int),
        decreases v@.len() - i,
    {
        r.push(v[i]);
        i = i + 1;
        assert(r@ =~= v@.subrange(0, i as int));
    }
    assert(r@ =~= v@);
    r
}

impl Clone for AudioDevice {
    fn clone(&self) -> (r: Self)
        ensures
            r@ == self@,
    {
        AudioDevice {
            name: self.name.clone(),
            device_type: self.device_type,
            is_default: self.is_default,
            sample_rates: copy_rates(&self.sample_rates),
            max_channels: self.max_channels,
        }
    }
}

/// The views of a list of devices.
pub open spec fn device_views(ds: Seq<AudioDevice>) -> Seq<AudioDeviceView> {
    ds.map_values(|d: AudioDevice| d@)
}

/// The devices of one direction, in order.
pub open spec fn of_type(ds: Seq<AudioDeviceView>, t: DeviceType) -> Seq<AudioDeviceView> {
    ds.filter(|d: AudioDeviceView| d.device_type == t)
}

/// The first device with the given property, if any.
pub open spec fn first_where(ds: Seq<AudioDeviceView>, p: spec_fn(AudioDeviceView) -> bool) -> Option<
    AudioDeviceView,
>
    decreases ds.len(),
{
    if ds.len() == 0 {
        None
    } else if p(ds[0]) {
        Some(ds[0])
    } else {
        first_where(ds.drop_first(), p)
    }
}

/// `first_where` skips a prefix in which nothing has the property.
pub proof fn lemma_first_where_skip(ds: Seq<AudioDeviceView>, p: spec_fn(AudioDeviceView) -> bool, i: int)
    requires
        0 <= i <= ds.len(),
        forall|j: int| 0 <= j < i ==> !p(#[trigger] ds[j]),
    ensures
        first_where(ds, p) == first_where(ds.subrange(i, ds.len() as int), p),
    decreases i,
{
    if i > 0 {
        let rest = ds.drop_first();
        assert forall|j: int| 0 <= j < i - 1 implies !p(#[trigger] rest[j]) by {
            assert(rest[j] == ds[j + 1]);
        }
        lemma_first_where_skip(rest, p, i - 1);
        assert(rest.subrange(i - 1, rest.len() as int) =~= ds.subrange(i, ds.len() as int));
    } else {
        assert(ds.subrange(0, ds.len() as int) =~= ds);
    }
}

/// `first_where` finds the entry at `i` when none before it has the property.
pub proof fn lemma_first_where_at(ds: Seq<AudioDeviceView>, p: spec_fn(AudioDeviceView) -> bool, i: int)
    requires
        0 <= i < ds.len(),
        forall|j: int| 0 <= j < i ==> !p(#[trigger] ds[j]),
        p(ds[i]),
    ensures
        first_where(ds, p) == Some(ds[i]),
{
    lemma_first_where_skip(ds, p, i);
    assert(ds.subrange(i, ds.len() as int)[0] == ds[i]);
}

/// `first_where` finds nothing when no entry has the property.
pub proof fn lemma_first_where_none(ds: Seq<AudioDeviceView>, p: spec_fn(AudioDeviceView) -> bool)
    requires
        forall|j: int| 0 <= j < ds.len() ==> !p(#[trigger] ds[j]),
    ensures
        first_where(ds, p).is_none(),
{
    lemma_first_where_skip(ds, p, ds.len() as int);
}

/// Whether a device is its direction's default.
pub open spec fn is_default_device(d: AudioDeviceView) -> bool {
    d.is_default
}

/// The rates a device is probed for, ascending.
pub open spec fn candidate_rates() -> Seq<u32> {
    seq![8000u32, 16000, 22050, 44100, 48000, 96000]
}

/// Whether some configuration range `(min rate, max rate, channels)`
/// includes `rate`.
pub open spec fn in_some_range(configs: Seq<(u32, u32, u16)>, rate: u32) -> bool {
    exists|k: int| 0 <= k < configs.len() && #[trigger] configs[k].0 <= rate && rate <= configs[k].1
}

/// The largest channel count among the configurations, or 0.
pub open spec fn max_channels_of(configs: Seq<(u32, u32, u16)>) -> u16
    decreases configs.len(),
{
    if configs.len() == 0 {
        0
    } else {
        let rest = max_channels_of(configs.drop_last());
        if configs.last().2 > rest {
            configs.last().2
        } else {
            rest
        }
    }
}

/// Filter devices by direction, keeping their order.
pub(crate) fn filter_by_type(devices: &[AudioDevice], t: DeviceType) -> (r: Vec<AudioDevice>)
    ensures
        device_views(r@) == of_type(device_views(devices@), t),
{
    let mut r: Vec<AudioDevice> = Vec::new();
    let mut i: usize = 0;
    let ghost pred = |d: AudioDeviceView| d.device_type == t;
    while i < devices.len()
        invariant
            i <= devices@.len(),
            pred == (|d: AudioDeviceView| d.device_type == t),
            device_views(r@) == device_views(devices@.subrange(0, i as int)).filter(pred),
        decreases devices@.len() - i,
    {
        let ghost prev = device_views(devices@.subrange(0, i as int));
        assert(device_views(devices@.subrange(0, i + 1)) =~= prev.push(devices@[i as int]@));
        proof {
            prev.lemma_filter_push(devices@[i as int]@, pred);
        }
        if devices[i].device_type == t {
            let d = devices[i].clone();
            r.push(d);
            assert(device_views(r@) =~= prev.filter(pred).push(devices@[i as int]@));
        } else {
            assert(device_views(r@) =~= prev.filter(pred));
        }
        i = i + 1;
    }
    assert(devices@.subrange(0, devices@.len() as int) =~= devices@);
    r
}

/// The first default device among `devices` of direction `t`.
fn find_default(devices: &[AudioDevice], t: DeviceType) -> (r: Result<AudioDevice, AudioError>)
    ensures
        r matches Ok(x) ==> first_where(of_type(device_views(devices@), t), |d: AudioDeviceView| is_default_device(d))
            == Some(x@),
        r is Err ==> (r matches Err(AudioError::NoDevice)),
        r is Err <==> first_where(
            of_type(device_views(devices@), t),
            |d: AudioDeviceView| is_default_device(d),
        ) is None,
{
    let list = filter_by_type(devices, t);
    let ghost p = |d: AudioDeviceView| is_default_device(d);
    let ghost ds = device_views(list@);
    let mut i: usize = 0;
    while i < list.len()
        invariant
            i <= list@.len(),
            ds == device_views(list@),
            ds == of_type(device_views(devices@), t),
            p == (|d: AudioDeviceView| is_default_device(d)),
            forall|j: int| 0 <= j < i ==> !p(#[trigger] ds[j]),
        decreases list@.len() - i,
    {
        if list[i].is_default {
            proof {
                lemma_first_where_at(ds, p, i as int);
            }
            let x = list[i].clone();
            assert(x@ == ds[i as int]);
            return Ok(x);
        }
        assert(!p(ds[i as int]));
        i = i + 1;
    }
    proof {
        lemma_first_where_none(ds, p);
    }
    Err(AudioError::NoDevice)
}

impl AudioDevice {
    /// The input devices among an enumeration of all devices, in order.
    pub fn list_inputs(devices: &[AudioDevice]) -> (r: Vec<AudioDevice>)
        ensures
            device_views(r@) == of_type(device_views(devices@), DeviceType::Input),
    {
        filter_by_type(devices, DeviceType::Input)
    }

    /// The output devices among an enumeration of all devices, in order.
    pub fn list_outputs(devices: &[AudioDevice]) -> (r: Vec<AudioDevice>)
        ensures
            device_views(r@) == of_type(device_views(devices@), DeviceType::Output),
    {
        filter_by_type(devices, DeviceType::Output)
    }

    /// The first input device marked default, or `NoDevice`.
    pub fn default_input(devices: &[AudioDevice]) -> (r: Result<AudioDevice, AudioError>)
        ensures
            match first_where(
                of_type(device_views(devices@), DeviceType::Input),
                |d: AudioDeviceView| is_default_device(d),
            ) {
                Some(d) => r matches Ok(x) && x@ == d,
                None => r matches Err(AudioError::NoDevice),
            },
    {
        find_default(devices, DeviceType::Input)
    }

    /// The first output device marked default, or `NoDevice`.
    pub fn default_output(devices: &[AudioDevice]) -> (r: Result<AudioDevice, AudioError>)
        ensures
            match first_where(
                of_type(device_views(devices@), DeviceType::Output),
                |d: AudioDeviceView| is_default_device(d),
            ) {
                Some(d) => r matches Ok(x) && x@ == d,
                None => r matches Err(AudioError::NoDevice),
            },
    {
        find_default(devices, DeviceType::Output)
    }

    /// Check if the device supports the required sample rate.
    pub fn supports_sample_rate(&self, rate: u32) -> (r: bool)
        ensures
            r == self@.sample_rates.contains(rate),
    {
        let mut i: usize = 0;
        while i < self.sample_rates.len()
            invariant
                i <= self.sample_rates@.len(),
                forall|j: int| 0 <= j < i ==> self.sample_rates@[j] != rate,
            decreases self.sample_rates@.len() - i,
        {
            if self.sample_rates[i] == rate {
                assert(self.sample_rates@[i as int] == rate);
                return true;
            }
            i = i + 1;
        }
        false
    }

    /// The capabilities of a device from its supported configuration ranges
    /// `(min rate, max rate, channels)`: the probed rates that fall in some
    /// range, ascending and without repeats, and the largest channel count
    /// (0 when there is no configuration).
    pub fn capabilities_from_configs(configs: &[(u32, u32, u16)]) -> (r: (Vec<u32>, u16))
        ensures
            r.0@ == candidate_rates().filter(|rate: u32| in_some_range(configs@, rate)),
            r.1 == max_channels_of(configs@),
    {
        let mut max_channels: u16 = 0;
        let mut k: usize = 0;
        while k < configs.len()
            invariant
                k <= configs@.len(),
                max_channels == max_channels_of(configs@.subrange(0, k as int)),
            decreases configs@.len() - k,
        {
            let ghost prev = configs@.subrange(0, k as int);
            assert(configs@.subrange(0, k + 1).drop_last() =~= prev);
            if configs[k].2 > max_channels {
                max_channels = configs[k].2;
            }
            k = k + 1;
        }
        assert(configs@.subrange(0, configs@.len() as int) =~= configs@);
        let candidates: [u32; 6] = [8000, 16000, 22050, 44100, 48000, 96000];
        assert(candidates@ =~= candidate_rates());
        let ghost pred = |rate: u32| in_some_range(configs@, rate);
        let mut rates: Vec<u32> = Vec::new();
        let mut c: usize = 0;
        while c < 6
            invariant
                c <= 6,
                candidates@ == candidate_rates(),
                pred == (|rate: u32| in_some_range(configs@, rate)),
                rates@ == candidate_rates().subrange(0, c as int).filter(pred),
            decreases 6 - c,
        {
            let rate = candidates[c];
            let ghost prev = candidate_rates().subrange(0, c as int);
            assert(candidate_rates().subrange(0, c + 1) =~= prev.push(rate));
            proof {
                prev.lemma_filter_push(rate, pred);
            }
            let mut found = false;
            let mut k: usize = 0;
            while k < configs.len()
                invariant
                    k <= configs@.len(),
                    found == exists|j: int| 0 <= j < k && #[trigger] configs@[j].0 <= rate && rate <= configs@[j].1,
                decreases configs@.len() - k,
            {
                if configs[k].0 <= rate && rate <= configs[k].1 {
                    found = true;
                }
                k = k + 1;
            }
            if found {
                rates.push(rate);
            }
            c = c + 1;
        }
        assert(candidate_rates().subrange(0, 6) =~= candidate_rates());
        (rates, max_channels)
    }
}

/// Whether a lowercase device name marks a DANTE device: it contains
/// "dante" or "dvs".
pub open spec fn dante_marked(lower: Seq<char>) -> bool {
    has_infix(lower, seq!['d', 'a', 'n', 't', 'e']) || has_infix(lower, seq!['d', 'v', 's'])
}

/// Whether an already lowercased name marks a DANTE device.
pub fn marks_dante(lower: &str) -> (r: bool)
    ensures
        r == dante_marked(lower@),
{
    let a = crate::text::contains_text(lower, "dante");
    let b = crate::text::contains_text(lower, "dvs");
    proof {
        reveal_strlit("dante");
        reveal_strlit("dvs");
        assert("dante"@ =~= seq!['d', 'a', 'n', 't', 'e']);
        assert("dvs"@ =~= seq!['d', 'v', 's']);
    }
    a || b
}

/// Whether a device name marks a DANTE device, compared in lowercase.
pub fn is_dante_name(name: &str) -> (r: bool)
    ensures
        r == dante_marked(lowercase_text(name@)),
{
    let lower = to_lowercase(name);
    marks_dante(lower.as_str())
}

} // verus!
