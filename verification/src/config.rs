//! Server configuration and audio device selection.

use vstd::prelude::*;

use crate::devices::{
    dante_marked, device_views, first_where, is_dante_name, lemma_first_where_at, lemma_first_where_none, of_type,
    AudioDevice, AudioDeviceView, AudioError, DeviceType,
};
use crate::errors::CoreError;
use crate::signaling::{opt_text, FirebaseConfig};
use crate::text::{lowercase_text, text_eq};
use crate::transport::texts;

verus! {

/// The library version.
pub fn version() -> (r: &'static str)
    ensures
        r@ == "0.1.0"@,
{
    "0.1.0"
}

/// Server configuration.
#[derive(Debug)]
pub struct ServerConfig {
    /// Server name/room name.
    pub name: String,
    /// Room password (optional).
    pub password: Option<String>,
    /// Firebase configuration for signaling.
    pub firebase: FirebaseConfig,
    /// Maximum number of users.
    pub max_users: usize,
    /// Input device name (for server audio monitoring).
    pub input_device: Option<String>,
    /// Output device name (for server audio monitoring).
    pub output_device: Option<String>,
    /// Auto-create default channels.
    pub auto_create_channels: bool,
    /// Default channel names.
    pub default_channels: Vec<String>,
    /// Encryption key (auto-generated if None).
    pub encryption_key: Option<[u8; 32]>,
    /// Prefer DANTE devices when available.
    pub prefer_dante: bool,
}

/// The default channel names.
pub open spec fn default_channel_texts() -> Seq<Seq<char>> {
    seq!["Main"@, "Channel 1"@, "Channel 2"@]
}

/// Whether a configuration holds the defaults in every field but the name.
pub open spec fn defaults_but_name(c: ServerConfig) -> bool {
    &&& c.password.is_none()
    &&& c.firebase.database_url@.len() == 0
    &&& c.firebase.auth_token.is_none()
    &&& c.firebase.poll_interval_ms == 500
    &&& c.max_users == 50
    &&& c.input_device.is_none()
    &&& c.output_device.is_none()
    &&& c.auto_create_channels
    &&& texts(c.default_channels@) == default_channel_texts()
    &&& c.encryption_key.is_none()
    &&& c.prefer_dante
}

impl Default for ServerConfig {
    /// "Intercom Server", no password, the default signaling configuration
    /// (no database URL or token, polling every 500 ms), up to 50 users, the
    /// channels "Main", "Channel 1" and "Channel 2" created automatically, a
    /// generated key, DANTE devices preferred.
    fn default() -> (r: Self)
        ensures
            r.name@ == "Intercom Server"@,
            defaults_but_name(r),
    {
        let mut channels: Vec<String> = Vec::new();
        channels.push(String::from_str("Main"));
        channels.push(String::from_str("Channel 1"));
        channels.push(String::from_str("Channel 2"));
        assert(texts(channels@) =~= default_channel_texts());
        ServerConfig {
            name: String::from_str("Intercom Server"),
            password: None,
            firebase: FirebaseConfig::default(),
            max_users: 50,
            input_device: None,
            output_device: None,
            auto_create_channels: true,
            default_channels: channels,
            encryption_key: None,
            prefer_dante: true,
        }
    }
}

impl ServerConfig {
    /// The default configuration under another name.
    pub fn new(name: &str) -> (r: Self)
        ensures
            r.name@ == name@,
            defaults_but_name(r),
    {
        let mut c = ServerConfig::default();
        c.name = String::from_str(name);
        c
    }

    /// Set the Firebase database URL.
    pub fn with_firebase_url(self, url: &str) -> (r: Self)
        ensures
            r.firebase.database_url@ == url@,
            opt_text(r.firebase.auth_token) == opt_text(self.firebase.auth_token),
            r.firebase.poll_interval_ms == self.firebase.poll_interval_ms,
            r.name == self.name,
            r.password == self.password,
            r.max_users == self.max_users,
            r.input_device == self.input_device,
            r.output_device == self.output_device,
            r.auto_create_channels == self.auto_create_channels,
            r.default_channels == self.default_channels,
            r.encryption_key == self.encryption_key,
            r.prefer_dante == self.prefer_dante,
    {
        let mut c = self;
        c.firebase.database_url = String::from_str(url);
        c
    }

    /// Set the room password.
    pub fn with_password(self, password: &str) -> (r: Self)
        ensures
            opt_text(r.password) == Some(password@),
            r.name == self.name,
            r.firebase == self.firebase,
            r.max_users == self.max_users,
            r.input_device == self.input_device,
            r.output_device == self.output_device,
            r.auto_create_channels == self.auto_create_channels,
            r.default_channels == self.default_channels,
            r.encryption_key == self.encryption_key,
            r.prefer_dante == self.prefer_dante,
    {
        let mut c = self;
        c.password = Some(String::from_str(password));
        c
    }

    /// Set the maximum number of users.
    pub fn with_max_users(self, max: usize) -> (r: Self)
        ensures
            r.max_users == max,
            r.name == self.name,
            r.password == self.password,
            r.firebase == self.firebase,
            r.input_device == self.input_device,
            r.output_device == self.output_device,
            r.auto_create_channels == self.auto_create_channels,
            r.default_channels == self.default_channels,
            r.encryption_key == self.encryption_key,
            r.prefer_dante == self.prefer_dante,
    {
        let mut c = self;
        c.max_users = max;
        c
    }

    /// Set the default channels.
    pub fn with_channels(self, channels: Vec<String>) -> (r: Self)
        ensures
            r.default_channels == channels,
            r.name == self.name,
            r.password == self.password,
            r.firebase == self.firebase,
            r.max_users == self.max_users,
            r.input_device == self.input_device,
            r.output_device == self.output_device,
            r.auto_create_channels == self.auto_create_channels,
            r.encryption_key == self.encryption_key,
            r.prefer_dante == self.prefer_dante,
    {
        let mut c = self;
        c.default_channels = channels;
        c
    }

    /// Set whether to prefer DANTE devices.
    pub fn with_prefer_dante(self, prefer: bool) -> (r: Self)
        ensures
            r.prefer_dante == prefer,
            r.name == self.name,
            r.password == self.password,
            r.firebase == self.firebase,
            r.max_users == self.max_users,
            r.input_device == self.input_device,
            r.output_device == self.output_device,
            r.auto_create_channels == self.auto_create_channels,
            r.default_channels == self.default_channels,
            r.encryption_key == self.encryption_key,
    {
        let mut c = self;
        c.prefer_dante = prefer;
        c
    }
}

/// Whether some device carries the given name.
pub open spec fn has_device_named(ds: Seq<AudioDeviceView>, name: Seq<char>) -> bool {
    exists|i: int| 0 <= i < ds.len() && #[trigger] ds[i].name == name
}

/// Whether a device's name marks it as a DANTE device.
pub open spec fn is_dante_device(d: AudioDeviceView) -> bool {
    dante_marked(lowercase_text(d.name))
}

/// The device name chosen among `ds`: the preferred name when a device
/// carries it; else, when DANTE is preferred, the first DANTE device; else
/// the first default device; else the first device; else none.
pub open spec fn select_spec(ds: Seq<AudioDeviceView>, preferred: Option<Seq<char>>, prefer_dante: bool) -> Option<
    Seq<char>,
> {
    if preferred.is_some() && has_device_named(ds, preferred.unwrap()) {
        preferred
    } else if prefer_dante && first_where(ds, |d: AudioDeviceView| is_dante_device(d)).is_some() {
        Some(first_where(ds, |d: AudioDeviceView| is_dante_device(d)).unwrap().name)
    } else if first_where(ds, |d: AudioDeviceView| d.is_default).is_some() {
        Some(first_where(ds, |d: AudioDeviceView| d.is_default).unwrap().name)
    } else if ds.len() > 0 {
        Some(ds[0].name)
    } else {
        None
    }
}

/// The view of an optional string slice.
pub open spec fn opt_str(o: Option<&str>) -> Option<Seq<char>> {
    match o {
        Some(s) => Some(s@),
        None => None,
    }
}

/// The index of the first device whose name marks DANTE, if any.
fn first_dante(list: &Vec<AudioDevice>) -> (r: Option<usize>)
    ensures
        match r {
            Some(i) => i < list@.len() && first_where(
                device_views(list@),
                |d: AudioDeviceView| is_dante_device(d),
            ) == Some(list@[i as int]@),
            None => first_where(device_views(list@), |d: AudioDeviceView| is_dante_device(d)).is_none(),
        },
{
    let ghost ds = device_views(list@);
    let ghost p = |d: AudioDeviceView| is_dante_device(d);
    let mut i: usize = 0;
    while i < list.len()
        invariant
            i <= list@.len(),
            ds == device_views(list@),
            p == (|d: AudioDeviceView| is_dante_device(d)),
            forall|j: int| 0 <= j < i ==> !p(#[trigger] ds[j]),
        decreases list@.len() - i,
    {
        if is_dante_name(list[i].name.as_str()) {
            proof {
                lemma_first_where_at(ds, p, i as int);
            }
            return Some(i);
        }
        i = i + 1;
    }
    proof {
        lemma_first_where_none(ds, p);
    }
    None
}

/// The index of the first default device, if any.
fn first_default(list: &Vec<AudioDevice>) -> (r: Option<usize>)
    ensures
        match r {
            Some(i) => i < list@.len() && first_where(device_views(list@), |d: AudioDeviceView| d.is_default)
                == Some(list@[i as int]@),
            None => first_where(device_views(list@), |d: AudioDeviceView| d.is_default).is_none(),
        },
{
    let ghost ds = device_views(list@);
    let ghost p = |d: AudioDeviceView| d.is_default;
    let mut i: usize = 0;
    while i < list.len()
        invariant
            i <= list@.len(),
            ds == device_views(list@),
            p == (|d: AudioDeviceView| d.is_default),
            forall|j: int| 0 <= j < i ==> !p(#[trigger] ds[j]),
        decreases list@.len() - i,
    {
        if list[i].is_default {
            proof {
                lemma_first_where_at(ds, p, i as int);
            }
            return Some(i);
        }
        i = i + 1;
    }
    proof {
        lemma_first_where_none(ds, p);
    }
    None
}

/// Whether some device in the list carries `name`.
fn any_named(list: &Vec<AudioDevice>, name: &str) -> (r: bool)
    ensures
        r == has_device_named(device_views(list@), name@),
{
    let ghost ds = device_views(list@);
    let mut i: usize = 0;
    while i < list.len()
        invariant
            i <= list@.len(),
            ds == device_views(list@),
            forall|j: int| 0 <= j < i ==> #[trigger] ds[j].name != name@,
        decreases list@.len() - i,
    {
        if text_eq(list[i].name.as_str(), name) {
            assert(ds[i as int].name == name@);
            return true;
        }
        i = i + 1;
    }
    false
}

/// Choose a device of one direction by `select_spec`.
fn select_device(devices: &[AudioDevice], t: DeviceType, preferred: Option<&str>, prefer_dante: bool) -> (r: Result<
    String,
    CoreError,
>)
    ensures
        match select_spec(of_type(device_views(devices@), t), opt_str(preferred), prefer_dante) {
            Some(n) => r matches Ok(s) && s@ == n,
            None => r matches Err(CoreError::Audio(AudioError::NoDevice)),
        },
{
    let list = crate::devices::filter_by_type(devices, t);
    let ghost ds = device_views(list@);
    if let Some(name) = preferred {
        if any_named(&list, name) {
            return Ok(String::from_str(name));
        }
    }
    if prefer_dante {
        if let Some(i) = first_dante(&list) {
            return Ok(list[i].name.clone());
        }
    }
    if let Some(i) = first_default(&list) {
        return Ok(list[i].name.clone());
    }
    if list.len() > 0 {
        return Ok(list[0].name.clone());
    }
    Err(CoreError::Audio(AudioError::NoDevice))
}

/// The device list entries `(name, is DANTE, is default)` of one direction.
fn with_priority(devices: &[AudioDevice], t: DeviceType) -> (r: Vec<(String, bool, bool)>)
    ensures
        r@.len() == of_type(device_views(devices@), t).len(),
        forall|i: int|
            0 <= i < r@.len() ==> {
                let d = of_type(device_views(devices@), t)[i];
                &&& (#[trigger] r@[i]).0@ == d.name
                &&& r@[i].1 == is_dante_device(d)
                &&& r@[i].2 == d.is_default
            },
{
    let list = crate::devices::filter_by_type(devices, t);
    let ghost ds = device_views(list@);
    let mut r: Vec<(String, bool, bool)> = Vec::new();
    let mut i: usize = 0;
    while i < list.len()
        invariant
            i <= list@.len(),
            ds == device_views(list@),
            ds == of_type(device_views(devices@), t),
            r@.len() == i,
            forall|j: int|
                0 <= j < i ==> {
                    &&& (#[trigger] r@[j]).0@ == ds[j].name
                    &&& r@[j].1 == is_dante_device(ds[j])
                    &&& r@[j].2 == ds[j].is_default
                },
        decreases list@.len() - i,
    {
        let d = &list[i];
        let dante = is_dante_name(d.name.as_str());
        r.push((d.name.clone(), dante, d.is_default));
        i = i + 1;
    }
    r
}

/// Audio device selection helper.
pub struct DeviceSelector;

impl DeviceSelector {
    /// Find the best input device among an enumeration of all devices:
    /// the preferred one when present, else the first DANTE device when
    /// preferred, else the default, else the first.
    pub fn select_input(devices: &[AudioDevice], preferred: Option<&str>, prefer_dante: bool) -> (r: Result<
        String,
        CoreError,
    >)
        ensures
            match select_spec(
                of_type(device_views(devices@), DeviceType::Input),
                opt_str(preferred),
                prefer_dante,
            ) {
                Some(n) => r matches Ok(s) && s@ == n,
                None => r matches Err(CoreError::Audio(AudioError::NoDevice)),
            },
    {
        select_device(devices, DeviceType::Input, preferred, prefer_dante)
    }

    /// Find the best output device, by the same rule as inputs.
    pub fn select_output(devices: &[AudioDevice], preferred: Option<&str>, prefer_dante: bool) -> (r: Result<
        String,
        CoreError,
    >)
        ensures
            match select_spec(
                of_type(device_views(devices@), DeviceType::Output),
                opt_str(preferred),
                prefer_dante,
            ) {
                Some(n) => r matches Ok(s) && s@ == n,
                None => r matches Err(CoreError::Audio(AudioError::NoDevice)),
            },
    {
        select_device(devices, DeviceType::Output, preferred, prefer_dante)
    }

    /// The input devices as `(name, is DANTE, is default)`, in order.
    pub fn list_inputs_with_priority(devices: &[AudioDevice]) -> (r: Vec<(String, bool, bool)>)
        ensures
            r@.len() == of_type(device_views(devices@), DeviceType::Input).len(),
            forall|i: int|
                0 <= i < r@.len() ==> {
                    let d = of_type(device_views(devices@), DeviceType::Input)[i];
                    &&& (#[trigger] r@[i]).0@ == d.name
                    &&& r@[i].1 == is_dante_device(d)
                    &&& r@[i].2 == d.is_default
                },
    {
        with_priority(devices, DeviceType::Input)
    }

    /// The output devices as `(name, is DANTE, is default)`, in order.
    pub fn list_outputs_with_priority(devices: &[AudioDevice]) -> (r: Vec<(String, bool, bool)>)
        ensures
            r@.len() == of_type(device_views(devices@), DeviceType::Output).len(),
            forall|i: int|
                0 <= i < r@.len() ==> {
                    let d = of_type(device_views(devices@), DeviceType::Output)[i];
                    &&& (#[trigger] r@[i]).0@ == d.name
                    &&& r@[i].1 == is_dante_device(d)
                    &&& r@[i].2 == d.is_default
                },
    {
        with_priority(devices, DeviceType::Output)
    }
}

/// A preferred device that is present is always the one selected,
/// whatever the DANTE preference.
pub proof fn law_present_preference_wins(ds: Seq<AudioDeviceView>, name: Seq<char>, prefer_dante: bool)
    requires
        has_device_named(ds, name),
    ensures
        select_spec(ds, Some(name), prefer_dante) == Some(name),
{
}

/// Selection fails only on an empty list, and otherwise names one of the
/// listed devices or the preferred name.
pub proof fn law_selection_names_a_device(ds: Seq<AudioDeviceView>, preferred: Option<Seq<char>>, prefer_dante: bool)
    ensures
        select_spec(ds, preferred, prefer_dante).is_none() <==> ds.len() == 0,
        select_spec(ds, preferred, prefer_dante) matches Some(n) ==> has_device_named(ds, n),
{
    lemma_first_where_member(ds, |d: AudioDeviceView| is_dante_device(d));
    lemma_first_where_member(ds, |d: AudioDeviceView| d.is_default);
    if ds.len() > 0 {
        assert(ds[0].name == ds[0].name);
    }
}

/// What `first_where` finds is a member of the list.
proof fn lemma_first_where_member(ds: Seq<AudioDeviceView>, p: spec_fn(AudioDeviceView) -> bool)
    ensures
        first_where(ds, p) matches Some(d) ==> exists|i: int| 0 <= i < ds.len() && ds[i] == d,
    decreases ds.len(),
{
    if ds.len() > 0 && !p(ds[0]) {
        lemma_first_where_member(ds.drop_first(), p);
        if let Some(d) = first_where(ds.drop_first(), p) {
            let i = choose|i: int| 0 <= i < ds.drop_first().len() && ds.drop_first()[i] == d;
            assert(ds[i + 1] == d);
        }
    } else if ds.len() > 0 {
        assert(ds[0] == ds[0]);
    }
}

} // verus!
