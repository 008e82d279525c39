//! Records and errors offered to foreign-language bindings, and their
//! conversions from the library's own types.

use vstd::prelude::*;

use crate::config::ServerConfig;
use crate::devices::{device_views, of_type, AudioDevice, AudioDeviceView, DeviceType};
use crate::errors::{is_core_error_text, CoreError};
use crate::ids;
use crate::signaling::{opt_text, FirebaseConfig};
use crate::text::{has_infix, lowercase_text, to_lowercase};

verus! {

/// Audio device information for bindings.
#[derive(Debug)]
pub struct AudioDeviceInfo {
    pub name: String,
    pub is_dante: bool,
    pub is_default: bool,
}

/// Client configuration for bindings.
#[derive(Debug)]
pub struct ClientConfiguration {
    pub display_name: String,
    pub input_device: Option<String>,
    pub output_device: Option<String>,
    pub firebase_url: String,
    pub push_to_talk: bool,
    pub prefer_dante: bool,
}

/// Server configuration for bindings.
#[derive(Debug)]
pub struct ServerConfiguration {
    pub name: String,
    pub password: Option<String>,
    pub firebase_url: String,
    pub max_users: u32,
    pub default_channels: Vec<String>,
    pub prefer_dante: bool,
}

/// Channel information for bindings.
#[derive(Debug)]
pub struct ChannelInfo {
    pub id: String,
    pub name: String,
    pub description: Option<String>,
}

/// User information for bindings.
#[derive(Debug)]
pub struct UserInfo {
    pub id: String,
    pub display_name: String,
    pub is_talking: bool,
}

/// Connection state for bindings.
#[derive(Debug, Clone, Copy, PartialEq, Eq, Structural)]
pub enum ConnectionState {
    New,
    Connecting,
    Connected,
    Disconnected,
    Failed,
    Closed,
}

/// Error type for bindings.
#[derive(Debug)]
pub enum IntercomError {
    AudioError { message: String },
    ConnectionError { message: String },
    SignalingError { message: String },
    NotConnected { message: String },
    AlreadyConnected { message: String },
    InvalidConfig { message: String },
    Timeout { message: String },
    Internal { message: String },
}

/// The message carried by an error for bindings.
pub open spec fn intercom_error_message(e: IntercomError) -> Seq<char> {
    match e {
        IntercomError::AudioError { message } => message@,
        IntercomError::ConnectionError { message } => message@,
        IntercomError::SignalingError { message } => message@,
        IntercomError::NotConnected { message } => message@,
        IntercomError::AlreadyConnected { message } => message@,
        IntercomError::InvalidConfig { message } => message@,
        IntercomError::Timeout { message } => message@,
        IntercomError::Internal { message } => message@,
    }
}

/// Whether `b` is the binding error for core error `e`: audio, transport and
/// signaling errors keep their kind with the component's message; not
/// connected, already connected, invalid configuration and timeouts keep
/// their kind with a fixed message or the configuration text; every other
/// error is a connection error with the core error's message.
pub open spec fn binds_core_error(e: CoreError, b: IntercomError) -> bool {
    match e {
        CoreError::Audio(a) => b matches IntercomError::AudioError { message } && message@
            == crate::devices::audio_error_text(a),
        CoreError::Transport(t) => b matches IntercomError::ConnectionError { message } && message@
            == crate::transport::transport_error_text(t),
        CoreError::Signaling(s) => b matches IntercomError::SignalingError { message }
            && crate::signaling::is_signaling_error_text(s, message@),
        CoreError::NotConnected => b matches IntercomError::NotConnected { message } && message@
            == "Not connected"@,
        CoreError::AlreadyConnected => b matches IntercomError::AlreadyConnected { message } && message@
            == "Already connected"@,
        CoreError::InvalidConfig(s) => b matches IntercomError::InvalidConfig { message } && message@ == s@,
        CoreError::Timeout => b matches IntercomError::Timeout { message } && message@ == "Operation timed out"@,
        _ => b matches IntercomError::ConnectionError { message } && is_core_error_text(e, message@),
    }
}

impl IntercomError {
    /// The binding error for a core error.
    pub fn from_core(e: CoreError) -> (r: IntercomError)
        ensures
            binds_core_error(e, r),
    {
        match e {
            CoreError::Audio(a) => IntercomError::AudioError { message: a.message() },
            CoreError::Transport(t) => IntercomError::ConnectionError { message: t.message() },
            CoreError::Signaling(s) => IntercomError::SignalingError { message: s.message() },
            CoreError::NotConnected => IntercomError::NotConnected { message: String::from_str("Not connected") },
            CoreError::AlreadyConnected => IntercomError::AlreadyConnected {
                message: String::from_str("Already connected"),
            },
            CoreError::InvalidConfig(s) => IntercomError::InvalidConfig { message: s },
            CoreError::Timeout => IntercomError::Timeout { message: String::from_str("Operation timed out") },
            other => {
                let m = other.message();
                IntercomError::ConnectionError { message: m }
            },
        }
    }

    /// The carried message.
    pub fn message(&self) -> (r: &String)
        ensures
            r@ == intercom_error_message(*self),
    {
        match self {
            IntercomError::AudioError { message } => message,
            IntercomError::ConnectionError { message } => message,
            IntercomError::SignalingError { message } => message,
            IntercomError::NotConnected { message } => message,
            IntercomError::AlreadyConnected { message } => message,
            IntercomError::InvalidConfig { message } => message,
            IntercomError::Timeout { message } => message,
            IntercomError::Internal { message } => message,
        }
    }
}

/// Whether a device name marks DANTE for bindings: its lowercase form
/// contains "dante".
pub open spec fn dante_named(name: Seq<char>) -> bool {
    has_infix(lowercase_text(name), seq!['d', 'a', 'n', 't', 'e'])
}

/// The devices of one direction as binding records, in order.
pub fn device_infos(devices: &[AudioDevice], t: DeviceType) -> (r: Vec<AudioDeviceInfo>)
    ensures
        r@.len() == of_type(device_views(devices@), t).len(),
        forall|i: int|
            0 <= i < r@.len() ==> {
                let d = of_type(device_views(devices@), t)[i];
                &&& (#[trigger] r@[i]).name@ == d.name
                &&& r@[i].is_dante == dante_named(d.name)
                &&& r@[i].is_default == d.is_default
            },
{
    let list = crate::devices::filter_by_type(devices, t);
    let ghost ds = device_views(list@);
    let mut r: Vec<AudioDeviceInfo> = Vec::new();
    let mut i: usize = 0;
    while i < list.len()
        invariant
            i <= list@.len(),
            ds == device_views(list@),
            ds == of_type(device_views(devices@), t),
            r@.len() == i,
            forall|j: int|
                0 <= j < i ==> {
                    &&& (#[trigger] r@[j]).name@ == ds[j].name
                    &&& r@[j].is_dante == dante_named(ds[j].name)
                    &&& r@[j].is_default == ds[j].is_default
                },
        decreases list@.len() - i,
    {
        let d = &list[i];
        let lower = to_lowercase(d.name.as_str());
        let dante = crate::text::contains_text(lower.as_str(), "dante");
        proof {
            reveal_strlit("dante");
            assert("dante"@ =~= seq!['d', 'a', 'n', 't', 'e']);
        }
        r.push(AudioDeviceInfo { name: d.name.clone(), is_dante: dante, is_default: d.is_default });
        i = i + 1;
    }
    r
}

/// The input devices as binding records.
pub fn list_input_devices(devices: &[AudioDevice]) -> (r: Vec<AudioDeviceInfo>)
    ensures
        r@.len() == of_type(device_views(devices@), DeviceType::Input).len(),
        forall|i: int|
            0 <= i < r@.len() ==> {
                let d = of_type(device_views(devices@), DeviceType::Input)[i];
                &&& (#[trigger] r@[i]).name@ == d.name
                &&& r@[i].is_dante == dante_named(d.name)
                &&& r@[i].is_default == d.is_default
            },
{
    device_infos(devices, DeviceType::Input)
}

/// The output devices as binding records.
pub fn list_output_devices(devices: &[AudioDevice]) -> (r: Vec<AudioDeviceInfo>)
    ensures
        r@.len() == of_type(device_views(devices@), DeviceType::Output).len(),
        forall|i: int|
            0 <= i < r@.len() ==> {
                let d = of_type(device_views(devices@), DeviceType::Output)[i];
                &&& (#[trigger] r@[i]).name@ == d.name
                &&& r@[i].is_dante == dante_named(d.name)
                &&& r@[i].is_default == d.is_default
            },
{
    device_infos(devices, DeviceType::Output)
}

/// The server configuration for a binding configuration: its name,
/// password, database URL, user limit, channels and DANTE preference over
/// the defaults.
pub fn server_config_from(c: ServerConfiguration) -> (r: ServerConfig)
    ensures
        r.name == c.name,
        r.password == c.password,
        r.firebase.database_url == c.firebase_url,
        r.firebase.auth_token.is_none(),
        r.firebase.poll_interval_ms == 500,
        r.max_users == c.max_users as usize,
        r.input_device.is_none(),
        r.output_device.is_none(),
        r.auto_create_channels,
        r.default_channels == c.default_channels,
        r.encryption_key.is_none(),
        r.prefer_dante == c.prefer_dante,
{
    let mut firebase = FirebaseConfig::default();
    firebase.database_url = c.firebase_url;
    let mut r = ServerConfig::default();
    r.name = c.name;
    r.password = c.password;
    r.firebase = firebase;
    r.max_users = c.max_users as usize;
    r.default_channels = c.default_channels;
    r.prefer_dante = c.prefer_dante;
    r
}

/// The binding records of users, in order.
pub fn user_records(users: &[ids::UserInfo]) -> (r: Vec<UserInfo>)
    ensures
        r@.len() == users@.len(),
        forall|i: int|
            0 <= i < r@.len() ==> {
                &&& (#[trigger] r@[i]).id@ == users@[i].id@
                &&& r@[i].display_name@ == users@[i].display_name@
                &&& r@[i].is_talking == users@[i].is_talking
            },
{
    let mut r: Vec<UserInfo> = Vec::new();
    let mut i: usize = 0;
    while i < users.len()
        invariant
            i <= users@.len(),
            r@.len() == i,
            forall|j: int|
                0 <= j < i ==> {
                    &&& (#[trigger] r@[j]).id@ == users@[j].id@
                    &&& r@[j].display_name@ == users@[j].display_name@
                    &&& r@[j].is_talking == users@[j].is_talking
                },
        decreases users@.len() - i,
    {
        let u = &users[i];
        r.push(UserInfo { id: u.id.to_string(), display_name: u.display_name.clone(), is_talking: u.is_talking });
        i = i + 1;
    }
    r
}

/// The binding records of channels, in order.
pub fn channel_records(channels: &[ids::ChannelInfo]) -> (r: Vec<ChannelInfo>)
    ensures
        r@.len() == channels@.len(),
        forall|i: int|
            0 <= i < r@.len() ==> {
                &&& (#[trigger] r@[i]).id@ == channels@[i].id@
                &&& r@[i].name@ == channels@[i].name@
                &&& opt_text(r@[i].description) == opt_text(channels@[i].description)
            },
{
    let mut r: Vec<ChannelInfo> = Vec::new();
    let mut i: usize = 0;
    while i < channels.len()
        invariant
            i <= channels@.len(),
            r@.len() == i,
            forall|j: int|
                0 <= j < i ==> {
                    &&& (#[trigger] r@[j]).id@ == channels@[j].id@
                    &&& r@[j].name@ == channels@[j].name@
                    &&& opt_text(r@[j].description) == opt_text(channels@[j].description)
                },
        decreases channels@.len() - i,
    {
        let c = &channels[i];
        let description = match &c.description {
            Some(d) => Some(d.clone()),
            None => None,
        };
        r.push(ChannelInfo { id: c.id.to_string(), name: c.name.clone(), description });
        i = i + 1;
    }
    r
}

/// The library version as an owned string.
pub fn get_version() -> (r: String)
    ensures
        r@ == "0.1.0"@,
{
    String::from_str(crate::config::version())
}

} // verus!
