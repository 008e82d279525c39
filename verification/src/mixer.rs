//! Routing of audio streams for mixing: channels, the users heard on each,
//! and a jitter buffer, a gain and a mute flag per user stream.
//!
//! The payload `T` and the gain `G` are opaque here: the caller sums the
//! frames handed out per channel with their gains.

use vstd::prelude::*;

use crate::clock::now_millis;
use crate::idmap::IdMap;
use crate::ids::{ChannelId, UserId};
use crate::jitter_buffer::{
    clamp, pop_spec, push_accepts, push_spec, BufferedPacket, JitterBuffer, JitterBufferConfig, JitterView,
};
use crate::text::concat_text;
use crate::transport::texts;

verus! {

/// Mixer errors.
#[derive(Debug)]
pub enum MixerError {
    BufferOverflow,
    BufferUnderflow,
    InvalidSequence,
    ChannelNotFound(String),
    UserNotFound(String),
}

/// The message of a mixer error.
pub open spec fn mixer_error_text(e: MixerError) -> Seq<char> {
    match e {
        MixerError::BufferOverflow => "Buffer overflow"@,
        MixerError::BufferUnderflow => "Buffer underflow"@,
        MixerError::InvalidSequence => "Invalid sequence number"@,
        MixerError::ChannelNotFound(s) => "Channel not found: "@ + s@,
        MixerError::UserNotFound(s) => "User not found: "@ + s@,
    }
}

impl MixerError {
    /// The human-readable message.
    pub fn message(&self) -> (r: String)
        ensures
            r@ == mixer_error_text(*self),
    {
        match self {
            MixerError::BufferOverflow => String::from_str("Buffer overflow"),
            MixerError::BufferUnderflow => String::from_str("Buffer underflow"),
            MixerError::InvalidSequence => String::from_str("Invalid sequence number"),
            MixerError::ChannelNotFound(s) => concat_text("Channel not found: ", s.as_str()),
            MixerError::UserNotFound(s) => concat_text("User not found: ", s.as_str()),
        }
    }
}

/// The model of one user's stream.
pub struct StreamView<T, G> {
    pub buffer: JitterView<T>,
    pub gain: G,
    pub muted: bool,
    pub last_activity: u64,
}

/// The model of one channel.
pub struct ChannelMixView<T, G> {
    pub users: Map<Seq<char>, StreamView<T, G>>,
    pub master_gain: G,
}

/// The model of a mixer.
pub struct MixerView<T, G> {
    pub channels: Map<Seq<char>, ChannelMixView<T, G>>,
    pub master_gain: G,
    pub unit_gain: G,
    pub config: JitterBufferConfig,
}

/// A new jitter buffer's model under a configuration.
pub open spec fn fresh_buffer<T>(cfg: JitterBufferConfig) -> JitterView<T> {
    JitterView {
        packets: Map::empty(),
        next_sequence: None,
        playing: false,
        target_delay_frames: cfg.initial_frames() as u32,
        underrun_count: 0,
        packets_received: 0,
        packets_lost: 0,
    }
}

/// A new user stream: empty buffer, unit gain, not muted, active at `now`.
pub open spec fn fresh_stream<T, G>(cfg: JitterBufferConfig, unit: G, now: u64) -> StreamView<T, G> {
    StreamView { buffer: fresh_buffer(cfg), gain: unit, muted: false, last_activity: now }
}

/// A new channel: no users, unit gain.
pub open spec fn empty_channel<T, G>(unit: G) -> ChannelMixView<T, G> {
    ChannelMixView { users: Map::empty(), master_gain: unit }
}

struct UserStream<T, G> {
    jitter_buffer: JitterBuffer<T>,
    gain: G,
    muted: bool,
    last_activity: u64,
}

struct MixChannel<T, G> {
    users: IdMap<UserStream<T, G>>,
    master_gain: G,
}

spec fn stream_view<T, G>(s: UserStream<T, G>) -> StreamView<T, G> {
    StreamView { buffer: s.jitter_buffer@, gain: s.gain, muted: s.muted, last_activity: s.last_activity }
}

spec fn users_view<T, G>(m: Map<Seq<char>, UserStream<T, G>>) -> Map<Seq<char>, StreamView<T, G>> {
    m.map_values(|s: UserStream<T, G>| stream_view(s))
}

spec fn channel_view<T, G>(c: MixChannel<T, G>) -> ChannelMixView<T, G> {
    ChannelMixView { users: users_view(c.users.map()), master_gain: c.master_gain }
}

spec fn stream_ok<T, G>(s: UserStream<T, G>, cfg: JitterBufferConfig) -> bool {
    s.jitter_buffer.wf() && s.jitter_buffer.settings() == cfg
}

spec fn users_ok<T, G>(m: Map<Seq<char>, UserStream<T, G>>, cfg: JitterBufferConfig) -> bool {
    forall|u: Seq<char>| #[trigger] m.contains_key(u) ==> stream_ok(m[u], cfg)
}

spec fn channel_ok<T, G>(c: MixChannel<T, G>, cfg: JitterBufferConfig) -> bool {
    c.users.wf() && users_ok(c.users.map(), cfg)
}

/// A packet as stored for user `u`.
pub open spec fn packet_for<T>(p: BufferedPacket<T>, sequence: u32, timestamp: u64, samples: T, u: Seq<char>) -> bool {
    p.sequence == sequence && p.timestamp == timestamp && p.samples == samples && p.user_id@ == u
}

/// What a push reports.
#[derive(Debug, Clone, Copy)]
pub struct PushOutcome {
    /// The user's stream was created by this push.
    pub added: bool,
    /// The packet was kept by the user's jitter buffer.
    pub kept: bool,
}

/// Buffer figures of one user stream.
#[derive(Debug, Clone, Copy)]
pub struct StreamStats {
    pub buffered_frames: usize,
    pub target_delay_frames: u32,
    pub packets_received: u64,
    pub packets_lost: u64,
}

/// One user's frame handed out for mixing, with the user's gain.
pub open spec fn frame_view<T, G>(f: (String, BufferedPacket<T>, G)) -> (Seq<char>, BufferedPacket<T>, G) {
    (f.0@, f.1, f.2)
}

/// Model of handing out one frame per unmuted user, visiting users in the
/// order `keys`: each unmuted user's buffer is popped, and what comes out is
/// listed with the user's gain.
pub open spec fn pop_users<T, G>(users: Map<Seq<char>, StreamView<T, G>>, keys: Seq<Seq<char>>) -> (
    Map<Seq<char>, StreamView<T, G>>,
    Seq<(Seq<char>, BufferedPacket<T>, G)>,
)
    decreases keys.len(),
{
    if keys.len() == 0 {
        (users, Seq::empty())
    } else {
        let prev = pop_users(users, keys.drop_last());
        let k = keys.last();
        let s = prev.0[k];
        if s.muted {
            prev
        } else {
            let popped = pop_spec(s.buffer);
            let m = prev.0.insert(k, StreamView { buffer: popped.0, ..s });
            match popped.1 {
                Some(p) => (m, prev.1.push((k, p, s.gain))),
                None => (m, prev.1),
            }
        }
    }
}

proof fn lemma_pop_users_frame<T, G>(users: Map<Seq<char>, StreamView<T, G>>, keys: Seq<Seq<char>>, k: Seq<char>)
    requires
        !keys.contains(k),
    ensures
        pop_users(users, keys).0.contains_key(k) == users.contains_key(k),
        pop_users(users, keys).0[k] == users[k],
    decreases keys.len(),
{
    if keys.len() > 0 {
        assert(!keys.drop_last().contains(k)) by {
            if keys.drop_last().contains(k) {
                let i = choose|i: int| 0 <= i < keys.drop_last().len() && keys.drop_last()[i] == k;
                assert(keys[i] == k);
            }
        }
        lemma_pop_users_frame(users, keys.drop_last(), k);
        assert(keys.last() != k) by {
            assert(keys[keys.len() - 1] == keys.last());
        }
    }
}

proof fn lemma_pop_users_dom<T, G>(users: Map<Seq<char>, StreamView<T, G>>, keys: Seq<Seq<char>>)
    requires
        forall|i: int| 0 <= i < keys.len() ==> users.contains_key(#[trigger] keys[i]),
    ensures
        pop_users(users, keys).0.dom() =~= users.dom(),
    decreases keys.len(),
{
    if keys.len() > 0 {
        let ks = keys.drop_last();
        assert forall|i: int| 0 <= i < ks.len() implies users.contains_key(#[trigger] ks[i]) by {
            assert(ks[i] == keys[i]);
        }
        lemma_pop_users_dom(users, ks);
        assert(users.contains_key(keys[keys.len() - 1]));
    }
}

proof fn lemma_pop_users_step<T, G>(m0: Map<Seq<char>, StreamView<T, G>>, keys: Seq<Seq<char>>, i: int)
    requires
        0 <= i < keys.len(),
        keys.no_duplicates(),
    ensures
        ({
            let prev = pop_users(m0, keys.subrange(0, i));
            let k = keys[i];
            let s = prev.0[k];
            &&& s == m0[k]
            &&& prev.0.contains_key(k) == m0.contains_key(k)
            &&& pop_users(m0, keys.subrange(0, i + 1)) == if s.muted {
                prev
            } else {
                let pr = pop_spec(s.buffer);
                (
                    prev.0.insert(k, StreamView { buffer: pr.0, ..s }),
                    match pr.1 {
                        Some(p) => prev.1.push((k, p, s.gain)),
                        None => prev.1,
                    },
                )
            }
        }),
{
    let prefix = keys.subrange(0, i);
    let next = keys.subrange(0, i + 1);
    let k = keys[i];
    assert(next.drop_last() =~= prefix);
    assert(next.last() == k);
    assert(!prefix.contains(k)) by {
        if prefix.contains(k) {
            let t = choose|t: int| 0 <= t < prefix.len() && prefix[t] == k;
            assert(keys[t] == keys[i]);
        }
    }
    lemma_pop_users_frame(m0, prefix, k);
}

proof fn lemma_users_view_put<T, G>(m: Map<Seq<char>, UserStream<T, G>>, k: Seq<char>, s: UserStream<T, G>)
    ensures
        users_view(m.remove(k).insert(k, s)) =~= users_view(m).insert(k, stream_view(s)),
{
}

/// Mixing hears only unmuted users of the channel, each at most once, and
/// leaves a muted user's stream as it was.
pub proof fn law_mix_skips_muted<T, G>(users: Map<Seq<char>, StreamView<T, G>>, keys: Seq<Seq<char>>)
    requires
        keys.no_duplicates(),
        forall|i: int| 0 <= i < keys.len() ==> users.contains_key(#[trigger] keys[i]),
    ensures
        forall|j: int|
            0 <= j < pop_users(users, keys).1.len() ==> {
                let f = #[trigger] pop_users(users, keys).1[j];
                &&& users.contains_key(f.0)
                &&& !users[f.0].muted
                &&& keys.contains(f.0)
            },
        forall|u: Seq<char>| #[trigger]
            users.contains_key(u) && users[u].muted ==> pop_users(users, keys).0[u] == users[u],
        pop_users(users, keys).1.map_values(|f: (Seq<char>, BufferedPacket<T>, G)| f.0).no_duplicates(),
    decreases keys.len(),
{
    if keys.len() > 0 {
        let ks = keys.drop_last();
        let k = keys.last();
        assert forall|i: int| 0 <= i < ks.len() implies users.contains_key(#[trigger] ks[i]) by {
            assert(ks[i] == keys[i]);
        }
        assert(ks.no_duplicates()) by {
            assert forall|a: int, b: int| 0 <= a < ks.len() && 0 <= b < ks.len() && a != b implies ks[a] != ks[b] by {
                assert(ks[a] == keys[a] && ks[b] == keys[b]);
            }
        }
        law_mix_skips_muted(users, ks);
        assert(!ks.contains(k)) by {
            if ks.contains(k) {
                let t = choose|t: int| 0 <= t < ks.len() && ks[t] == k;
                assert(keys[t] == keys[keys.len() - 1]);
            }
        }
        lemma_pop_users_frame(users, ks, k);
        let prev = pop_users(users, ks);
        assert forall|j: int| 0 <= j < prev.1.len() implies keys.contains(#[trigger] prev.1[j].0) by {
            let f = prev.1[j];
            assert(ks.contains(f.0));
            let t = choose|t: int| 0 <= t < ks.len() && ks[t] == f.0;
            assert(keys[t] == f.0);
        }
        assert forall|j: int| 0 <= j < prev.1.len() implies #[trigger] prev.1[j].0 != k by {
            assert(ks.contains(prev.1[j].0));
        }
        let names = prev.1.map_values(|f: (Seq<char>, BufferedPacket<T>, G)| f.0);
        let s = prev.0[k];
        if !s.muted {
            let pr = pop_spec(s.buffer);
            if let Some(p) = pr.1 {
                let out = prev.1.push((k, p, s.gain));
                assert(out.map_values(|f: (Seq<char>, BufferedPacket<T>, G)| f.0) =~= names.push(k));
                assert forall|a: int, b: int|
                    0 <= a < names.push(k).len() && 0 <= b < names.push(k).len() && a != b implies names.push(k)[a]
                    != names.push(k)[b] by {
                    if a < names.len() && b < names.len() {
                    } else if a < names.len() {
                        assert(names[a] == prev.1[a].0);
                    } else {
                        assert(names[b] == prev.1[b].0);
                    }
                }
                assert(keys.contains(k)) by {
                    assert(keys[keys.len() - 1] == k);
                }
            }
        }
    }
}

/// Whether a stream idle since `last` is kept at `now` under a limit of
/// `limit` milliseconds: it was active less than `limit` ago.
pub open spec fn still_active(last: u64, now: u64, limit: u64) -> bool {
    (if now >= last {
        now - last
    } else {
        0
    }) < limit
}

/// The users of a channel kept by a cleanup at `now`.
pub open spec fn active_users<T, G>(users: Map<Seq<char>, StreamView<T, G>>, now: u64, limit: u64) -> Map<
    Seq<char>,
    StreamView<T, G>,
> {
    users.restrict(Set::new(|u: Seq<char>| users.contains_key(u) && still_active(users[u].last_activity, now, limit)))
}

/// A channel with its idle users dropped.
pub open spec fn cleaned_channel<T, G>(c: ChannelMixView<T, G>, now: u64, limit: u64) -> ChannelMixView<T, G> {
    ChannelMixView { users: active_users(c.users, now, limit), ..c }
}

/// A limit of `secs` seconds in milliseconds, saturating at the largest
/// `u64`.
pub open spec fn secs_to_ms(secs: u64) -> u64 {
    if secs > u64::MAX / 1000 {
        u64::MAX
    } else {
        (secs * 1000) as u64
    }
}


/// The stream a push for user `u` of channel `c` starts from: the user's
/// own, or a new one made at `now`.
pub open spec fn stream_before_push<T, G>(m: MixerView<T, G>, c: Seq<char>, u: Seq<char>, now: u64) -> StreamView<T, G> {
    if m.channels[c].users.contains_key(u) {
        m.channels[c].users[u]
    } else {
        fresh_stream(m.config, m.unit_gain, now)
    }
}

/// Model of pushing packet `p` for user `u` of an existing channel `c` at
/// time `now`: the user's stream (made if missing) takes the packet into its
/// buffer and is active at `now`.
pub open spec fn push_into<T, G>(m: MixerView<T, G>, c: Seq<char>, u: Seq<char>, p: BufferedPacket<T>, now: u64) -> MixerView<T, G> {
    let ch = m.channels[c];
    let base = stream_before_push(m, c, u, now);
    let s2 = StreamView { buffer: push_spec(base.buffer, p), last_activity: now, ..base };
    MixerView { channels: m.channels.insert(c, ChannelMixView { users: ch.users.insert(u, s2), ..ch }), ..m }
}

/// The mixer with the stream of user `u` in channel `c` replaced by `s`.
pub open spec fn with_stream<T, G>(m: MixerView<T, G>, c: Seq<char>, u: Seq<char>, s: StreamView<T, G>) -> MixerView<T, G> {
    MixerView {
        channels: m.channels.insert(c, ChannelMixView { users: m.channels[c].users.insert(u, s), ..m.channels[c] }),
        ..m
    }
}

/// Whether user `u` has a stream in channel `c`.
pub open spec fn has_stream<T, G>(m: MixerView<T, G>, c: Seq<char>, u: Seq<char>) -> bool {
    m.channels.contains_key(c) && m.channels[c].users.contains_key(u)
}

/// The error for a channel or user that is missing, `None` when both exist.
pub open spec fn missing_error(m_has_channel: bool, m_has_user: bool, c: Seq<char>, u: Seq<char>, e: MixerError) -> bool {
    if !m_has_channel {
        e matches MixerError::ChannelNotFound(s) && s@ == c
    } else {
        e matches MixerError::UserNotFound(s) && s@ == u
    }
}

/// The keys of the idle users of a channel.
fn idle_keys<T, G>(users: &IdMap<UserStream<T, G>>, now: u64, limit: u64) -> (r: Vec<String>)
    requires
        users.wf(),
    ensures
        forall|k: Seq<char>|
            #![trigger users.map().contains_key(k)]
            texts(r@).contains(k) <==> (users.map().contains_key(k) && !still_active(
                users.map()[k].last_activity,
                now,
                limit,
            )),
{
    proof {
        users.lemma_keys();
    }
    let n = users.len();
    let ghost ks = users.key_seq();
    let mut r: Vec<String> = Vec::new();
    let mut i: usize = 0;
    while i < n
        invariant
            users.wf(),
            ks == users.key_seq(),
            n == ks.len(),
            i <= n,
            forall|k: Seq<char>| #[trigger] users.map().contains_key(k) <==> ks.contains(k),
            forall|k: Seq<char>|
                texts(r@).contains(k) <==> (exists|t: int|
                    0 <= t < i && #[trigger] ks[t] == k && !still_active(
                        users.map()[k].last_activity,
                        now,
                        limit,
                    )),
        decreases n - i,
    {
        let k = users.key_at(i);
        let v = users.value_at(i);
        let ghost before = r@;
        if !(if now >= v.last_activity {
            now - v.last_activity
        } else {
            0
        } < limit) {
            let kk = k.clone();
            r.push(kk);
            proof {
                assert(texts(r@) =~= texts(before).push(ks[i as int]));
            }
        } else {
            assert(r@ == before);
        }
        proof {
            assert forall|k2: Seq<char>|
                texts(r@).contains(k2) <==> (exists|t: int|
                    0 <= t < i + 1 && #[trigger] ks[t] == k2 && !still_active(
                        users.map()[k2].last_activity,
                        now,
                        limit,
                    )) by {
                if texts(r@).contains(k2) && !texts(before).contains(k2) {
                    assert(ks[i as int] == k2);
                }
                if exists|t: int| 0 <= t < i + 1 && #[trigger] ks[t] == k2 && !still_active(
                    users.map()[k2].last_activity,
                    now,
                    limit,
                ) {
                    let t = choose|t: int| 0 <= t < i + 1 && #[trigger] ks[t] == k2 && !still_active(
                        users.map()[k2].last_activity,
                        now,
                        limit,
                    );
                    if t == i {
                        assert(texts(r@).last() == k2);
                    } else {
                        assert(texts(before).contains(k2));
                        let q = choose|q: int| 0 <= q < before.len() && #[trigger] texts(before)[q] == k2;
                        assert(texts(r@)[q] == k2);
                    }
                }
            }
        }
        i = i + 1;
    }
    proof {
        assert forall|k: Seq<char>|
            #![trigger users.map().contains_key(k)]
            texts(r@).contains(k) <==> (users.map().contains_key(k) && !still_active(
                users.map()[k].last_activity,
                now,
                limit,
            )) by {
            if users.map().contains_key(k) {
                assert(ks.contains(k));
                let t = choose|t: int| 0 <= t < ks.len() && ks[t] == k;
                if !still_active(users.map()[k].last_activity, now, limit) {
                    assert(ks[t] == k);
                }
            }
        }
    }
    r
}

/// A channel's users without the given keys.
fn drop_keys<T, G>(users: &mut IdMap<UserStream<T, G>>, keys: &Vec<String>)
    requires
        old(users).wf(),
    ensures
        final(users).wf(),
        final(users).map() =~= old(users).map().remove_keys(texts(keys@).to_set()),
{
    let mut j: usize = 0;
    while j < keys.len()
        invariant
            users.wf(),
            j <= keys@.len(),
            users.map() =~= old(users).map().remove_keys(texts(keys@.subrange(0, j as int)).to_set()),
        decreases keys@.len() - j,
    {
        let ghost before = users.map();
        let _ = users.remove(keys[j].as_str());
        proof {
            let a = texts(keys@.subrange(0, j as int)).to_set();
            let b = texts(keys@.subrange(0, j + 1)).to_set();
            assert(texts(keys@.subrange(0, j + 1)) =~= texts(keys@.subrange(0, j as int)).push(keys@[j as int]@));
            texts(keys@.subrange(0, j as int)).lemma_push_to_set_commute(keys@[j as int]@);
            assert(b =~= a.insert(keys@[j as int]@));
            assert(users.map() =~= old(users).map().remove_keys(b));
        }
        j = j + 1;
    }
    assert(keys@.subrange(0, keys@.len() as int) =~= keys@);
}

/// Audio mixer routing for multiple channels and users.
pub struct ChannelMixer<T, G> {
    channels: IdMap<MixChannel<T, G>>,
    jitter_config: JitterBufferConfig,
    master_gain: G,
    unit_gain: G,
}

impl<T, G: Copy> View for ChannelMixer<T, G> {
    type V = MixerView<T, G>;

    closed spec fn view(&self) -> MixerView<T, G> {
        MixerView {
            channels: self.channels.map().map_values(|c: MixChannel<T, G>| channel_view(c)),
            master_gain: self.master_gain,
            unit_gain: self.unit_gain,
            config: self.jitter_config,
        }
    }
}

impl<T, G: Copy> ChannelMixer<T, G> {
    /// Well-formedness: well-formed maps, and every stream's buffer
    /// well-formed under the mixer's configuration.
    pub closed spec fn wf(&self) -> bool {
        &&& self.channels.wf()
        &&& self.jitter_config.initial_fits()
        &&& forall|c: Seq<char>| #[trigger]
            self.channels.map().contains_key(c) ==> channel_ok(self.channels.map()[c], self.jitter_config)
    }

    /// What well-formedness gives a caller: finite maps.
    pub proof fn lemma_wf(&self)
        requires
            self.wf(),
        ensures
            self@.channels.dom().finite(),
            self@.config.initial_fits(),
    {
        self.channels.lemma_keys();
        assert(self@.channels.dom() =~= self.channels.map().dom());
    }

    /// A mixer with the default jitter configuration; `unit` is the gain a
    /// new channel or user starts with.
    pub fn new(unit: G) -> (r: Self)
        ensures
            r.wf(),
            r@.channels =~= Map::<Seq<char>, ChannelMixView<T, G>>::empty(),
            r@.master_gain == unit,
            r@.unit_gain == unit,
            r@.config.min_delay_ms == 20 && r@.config.max_delay_ms == 100 && r@.config.initial_delay_ms == 40
                && r@.config.frame_size == 480 && r@.config.sample_rate == 48000,
    {
        Self::with_config(JitterBufferConfig::default(), unit)
    }

    /// A mixer with a custom jitter configuration.
    pub fn with_config(jitter_config: JitterBufferConfig, unit: G) -> (r: Self)
        requires
            jitter_config.initial_fits(),
        ensures
            r.wf(),
            r@.channels =~= Map::<Seq<char>, ChannelMixView<T, G>>::empty(),
            r@.master_gain == unit,
            r@.unit_gain == unit,
            r@.config == jitter_config,
    {
        let r = ChannelMixer { channels: IdMap::new(), jitter_config, master_gain: unit, unit_gain: unit };
        assert(r@.channels =~= Map::empty());
        r
    }

    /// Samples per frame.
    pub fn frame_size(&self) -> (n: usize)
        ensures
            n == self@.config.frame_size,
    {
        self.jitter_config.frame_size
    }

    /// The global gain.
    pub fn master_gain(&self) -> (g: G)
        ensures
            g == self@.master_gain,
    {
        self.master_gain
    }

    /// Set the global gain.
    pub fn set_master_gain(&mut self, gain: G)
        requires
            old(self).wf(),
        ensures
            final(self).wf(),
            final(self)@ == (MixerView { master_gain: gain, ..old(self)@ }),
    {
        self.master_gain = gain;
    }

    /// Add a channel, unless it exists.
    pub fn add_channel(&mut self, channel_id: &ChannelId)
        requires
            old(self).wf(),
        ensures
            final(self).wf(),
            final(self)@ == (MixerView {
                channels: if old(self)@.channels.contains_key(channel_id@) {
                    old(self)@.channels
                } else {
                    old(self)@.channels.insert(channel_id@, empty_channel(old(self)@.unit_gain))
                },
                ..old(self)@
            }),
    {
        if !self.channels.contains_key(channel_id.as_str()) {
            let ch = MixChannel { users: IdMap::new(), master_gain: self.unit_gain };
            proof {
                assert(users_view(ch.users.map()) =~= Map::empty());
                assert(channel_view(ch) == empty_channel::<T, G>(self.unit_gain));
            }
            self.channels.insert(channel_id.0.clone(), ch);
            proof {
                assert forall|c: Seq<char>| #[trigger] self.channels.map().contains_key(c) implies channel_ok(
                    self.channels.map()[c],
                    self.jitter_config,
                ) by {
                    if c != channel_id@ {
                        assert(old(self).channels.map().contains_key(c));
                    }
                }
            }
        }
        assert(self@.channels =~= (if old(self)@.channels.contains_key(channel_id@) {
            old(self)@.channels
        } else {
            old(self)@.channels.insert(channel_id@, empty_channel(old(self)@.unit_gain))
        }));
    }

    /// Remove a channel and its users.
    pub fn remove_channel(&mut self, channel_id: &ChannelId)
        requires
            old(self).wf(),
        ensures
            final(self).wf(),
            final(self)@ == (MixerView { channels: old(self)@.channels.remove(channel_id@), ..old(self)@ }),
    {
        let _ = self.channels.remove(channel_id.as_str());
        assert(self@.channels =~= old(self)@.channels.remove(channel_id@));
    }

    /// A new stream for a user.
    fn new_stream(&self, now: u64) -> (s: UserStream<T, G>)
        requires
            self.wf(),
        ensures
            stream_ok(s, self.jitter_config),
            stream_view(s) == fresh_stream::<T, G>(self.jitter_config, self.unit_gain, now),
    {
        let jb = JitterBuffer::with_config(self.jitter_config);
        let s = UserStream { jitter_buffer: jb, gain: self.unit_gain, muted: false, last_activity: now };
        assert(s.jitter_buffer@ =~= fresh_buffer::<T>(self.jitter_config));
        s
    }

    /// Add a user to a channel, unless the channel is unknown or the user
    /// is already there.
    pub fn add_user(&mut self, channel_id: &ChannelId, user_id: &UserId)
        requires
            old(self).wf(),
        ensures
            final(self).wf(),
            exists|now: u64|
                final(self)@ == (MixerView {
                    channels: if old(self)@.channels.contains_key(channel_id@)
                        && !old(self)@.channels[channel_id@].users.contains_key(user_id@) {
                        old(self)@.channels.insert(
                            channel_id@,
                            ChannelMixView {
                                users: old(self)@.channels[channel_id@].users.insert(
                                    user_id@,
                                    #[trigger] fresh_stream(old(self)@.config, old(self)@.unit_gain, now),
                                ),
                                ..old(self)@.channels[channel_id@]
                            },
                        )
                    } else {
                        old(self)@.channels
                    },
                    ..old(self)@
                }),
    {
        let now = now_millis();
        let ghost fresh = fresh_stream::<T, G>(self.jitter_config, self.unit_gain, now);
        let ghost want = if old(self)@.channels.contains_key(channel_id@)
            && !old(self)@.channels[channel_id@].users.contains_key(user_id@) {
            old(self)@.channels.insert(
                channel_id@,
                ChannelMixView {
                    users: old(self)@.channels[channel_id@].users.insert(user_id@, fresh),
                    ..old(self)@.channels[channel_id@]
                },
            )
        } else {
            old(self)@.channels
        };
        match self.channels.find(channel_id.as_str()) {
            None => {
                assert(self@.channels =~= old(self)@.channels);
            },
            Some(ci) => {
                let (key, mut ch) = self.channels.take_at(ci);
                let ghost ch0 = ch;
                if !ch.users.contains_key(user_id.as_str()) {
                    let s = self.new_stream(now);
                    ch.users.insert(user_id.0.clone(), s);
                    proof {
                        assert forall|u: Seq<char>| #[trigger] ch.users.map().contains_key(u) implies stream_ok(
                            ch.users.map()[u],
                            self.jitter_config,
                        ) by {
                            if u != user_id@ {
                                assert(ch0.users.map().contains_key(u));
                            }
                        }
                        assert(users_view(ch.users.map()) =~= users_view(ch0.users.map()).insert(user_id@, fresh));
                    }
                }
                self.channels.put_at(ci, key, ch);
                proof {
                    assert forall|c: Seq<char>| #[trigger] self.channels.map().contains_key(c) implies channel_ok(
                        self.channels.map()[c],
                        self.jitter_config,
                    ) by {
                        if c != channel_id@ {
                            assert(old(self).channels.map().contains_key(c));
                        }
                    }
                    if !ch0.users.map().contains_key(user_id@) {
                        assert(self@.channels =~= old(self)@.channels.insert(
                            channel_id@,
                            ChannelMixView {
                                users: old(self)@.channels[channel_id@].users.insert(user_id@, fresh),
                                ..old(self)@.channels[channel_id@]
                            },
                        ));
                    } else {
                        assert(self@.channels =~= old(self)@.channels);
                    }
                }
            },
        }
        assert(self@.channels == want);
        assert(self@ == MixerView { channels: want, ..old(self)@ });
    }

    /// Remove a user from a channel.
    pub fn remove_user(&mut self, channel_id: &ChannelId, user_id: &UserId)
        requires
            old(self).wf(),
        ensures
            final(self).wf(),
            final(self)@ == (MixerView {
                channels: if old(self)@.channels.contains_key(channel_id@) {
                    old(self)@.channels.insert(
                        channel_id@,
                        ChannelMixView {
                            users: old(self)@.channels[channel_id@].users.remove(user_id@),
                            ..old(self)@.channels[channel_id@]
                        },
                    )
                } else {
                    old(self)@.channels
                },
                ..old(self)@
            }),
    {
        match self.channels.find(channel_id.as_str()) {
            None => {
                assert(self@.channels =~= old(self)@.channels);
            },
            Some(ci) => {
                let (key, mut ch) = self.channels.take_at(ci);
                let ghost ch0 = ch;
                let _ = ch.users.remove(user_id.as_str());
                proof {
                    assert forall|u: Seq<char>| #[trigger] ch.users.map().contains_key(u) implies stream_ok(
                        ch.users.map()[u],
                        self.jitter_config,
                    ) by {
                        assert(ch0.users.map().contains_key(u));
                    }
                    assert(users_view(ch.users.map()) =~= users_view(ch0.users.map()).remove(user_id@));
                }
                self.channels.put_at(ci, key, ch);
                proof {
                    assert forall|c: Seq<char>| #[trigger] self.channels.map().contains_key(c) implies channel_ok(
                        self.channels.map()[c],
                        self.jitter_config,
                    ) by {
                        if c != channel_id@ {
                            assert(old(self).channels.map().contains_key(c));
                        }
                    }
                    assert(self@.channels =~= old(self)@.channels.insert(
                        channel_id@,
                        ChannelMixView {
                            users: old(self)@.channels[channel_id@].users.remove(user_id@),
                            ..old(self)@.channels[channel_id@]
                        },
                    ));
                }
            },
        }
    }

    /// Push audio for a user on a channel, creating the user's stream if
    /// needed. Fails when the channel is unknown. Reports whether the
    /// stream was created and whether the packet was kept.
    pub fn push_audio(
        &mut self,
        channel_id: &ChannelId,
        user_id: &UserId,
        sequence: u32,
        timestamp: u64,
        samples: T,
    ) -> (r: Result<PushOutcome, MixerError>)
        requires
            old(self).wf(),
        ensures
            final(self).wf(),
            !old(self)@.channels.contains_key(channel_id@) ==> final(self)@ == old(self)@ && (r matches Err(
                MixerError::ChannelNotFound(s),
            ) && s@ == channel_id@),
            old(self)@.channels.contains_key(channel_id@) ==> exists|now: u64, p: BufferedPacket<T>|
                #![trigger push_into(old(self)@, channel_id@, user_id@, p, now)]
                packet_for(p, sequence, timestamp, samples, user_id@) && final(self)@ == push_into(
                    old(self)@,
                    channel_id@,
                    user_id@,
                    p,
                    now,
                ) && (r matches Ok(o) && o.added == !old(self)@.channels[channel_id@].users.contains_key(user_id@)
                    && o.kept == push_accepts(stream_before_push(old(self)@, channel_id@, user_id@, now).buffer, p)),
    {
        let ci = match self.channels.find(channel_id.as_str()) {
            None => {
                return Err(MixerError::ChannelNotFound(channel_id.to_string()));
            },
            Some(ci) => ci,
        };
        let now = now_millis();
        let (key, mut ch) = self.channels.take_at(ci);
        let ghost ch0 = ch;
        let added = !ch.users.contains_key(user_id.as_str());
        let (ukey, mut stream, ui) = if added {
            let n = ch.users.len();
            (user_id.0.clone(), self.new_stream(now), n)
        } else {
            let ui = match ch.users.find(user_id.as_str()) {
                Some(ui) => ui,
                None => {
                    return Err(MixerError::UserNotFound(user_id.to_string()));
                },
            };
            let (k, s) = ch.users.take_at(ui);
            (k, s, ui)
        };
        let ghost base = stream_view(stream);
        let packet_user = user_id.to_string();
        let ghost p = BufferedPacket { sequence, timestamp, samples, user_id: packet_user };
        let kept = stream.jitter_buffer.push(sequence, timestamp, samples, packet_user);
        stream.last_activity = now;
        ch.users.put_at(ui, ukey, stream);
        proof {
            assert forall|u: Seq<char>| #[trigger] ch.users.map().contains_key(u) implies stream_ok(
                ch.users.map()[u],
                self.jitter_config,
            ) by {
                if u != user_id@ {
                    assert(ch0.users.map().contains_key(u));
                }
            }
        }
        self.channels.put_at(ci, key, ch);
        proof {
            assert forall|c: Seq<char>| #[trigger] self.channels.map().contains_key(c) implies channel_ok(
                self.channels.map()[c],
                self.jitter_config,
            ) by {
                if c != channel_id@ {
                    assert(old(self).channels.map().contains_key(c));
                }
            }
            assert(base == stream_before_push(old(self)@, channel_id@, user_id@, now));
            let want = push_into(old(self)@, channel_id@, user_id@, p, now);
            assert(users_view(ch.users.map()) =~= want.channels[channel_id@].users);
            assert(self@.channels =~= want.channels);
            assert(packet_for(p, sequence, timestamp, samples, user_id@));
        }
        Ok(PushOutcome { added, kept })
    }

    /// Set the target delay of a user's buffer from a target in frames,
    /// clamped to the configured bounds; nothing happens for an unknown
    /// channel or user.
    pub fn adapt_user_delay(&mut self, channel_id: &ChannelId, user_id: &UserId, target: u32)
        requires
            old(self).wf(),
            old(self)@.config.bounds_fit(),
        ensures
            final(self).wf(),
            has_stream(old(self)@, channel_id@, user_id@) ==> final(self)@ == with_stream(
                old(self)@,
                channel_id@,
                user_id@,
                StreamView {
                    buffer: JitterView {
                        target_delay_frames: clamp(
                            target as int,
                            old(self)@.config.min_frames(),
                            old(self)@.config.max_frames(),
                        ) as u32,
                        ..old(self)@.channels[channel_id@].users[user_id@].buffer
                    },
                    ..old(self)@.channels[channel_id@].users[user_id@]
                },
            ),
            !has_stream(old(self)@, channel_id@, user_id@) ==> final(self)@ == old(self)@,
    {
        let ci = match self.channels.find(channel_id.as_str()) {
            None => {
                return;
            },
            Some(ci) => ci,
        };
        let (key, mut ch) = self.channels.take_at(ci);
        let ghost ch0 = ch;
        let ui = match ch.users.find(user_id.as_str()) {
            Some(ui) => ui,
            None => {
                self.channels.put_at(ci, key, ch);
                proof {
                    assert forall|c: Seq<char>| #[trigger] self.channels.map().contains_key(c) implies channel_ok(
                        self.channels.map()[c],
                        self.jitter_config,
                    ) by {
                        if c != channel_id@ {
                            assert(old(self).channels.map().contains_key(c));
                        }
                    }
                    assert(self@.channels =~= old(self)@.channels);
                }
                return;
            },
        };
        let (ukey, mut stream) = ch.users.take_at(ui);
        stream.jitter_buffer.adapt_delay(target);
        ch.users.put_at(ui, ukey, stream);
        proof {
            assert forall|u: Seq<char>| #[trigger] ch.users.map().contains_key(u) implies stream_ok(
                ch.users.map()[u],
                self.jitter_config,
            ) by {
                if u != user_id@ {
                    assert(ch0.users.map().contains_key(u));
                }
            }
        }
        self.channels.put_at(ci, key, ch);
        proof {
            assert forall|c: Seq<char>| #[trigger] self.channels.map().contains_key(c) implies channel_ok(
                self.channels.map()[c],
                self.jitter_config,
            ) by {
                if c != channel_id@ {
                    assert(old(self).channels.map().contains_key(c));
                }
            }
            let old_s = old(self)@.channels[channel_id@].users[user_id@];
            let want = with_stream(
                old(self)@,
                channel_id@,
                user_id@,
                StreamView {
                    buffer: JitterView {
                        target_delay_frames: clamp(
                            target as int,
                            old(self)@.config.min_frames(),
                            old(self)@.config.max_frames(),
                        ) as u32,
                        ..old_s.buffer
                    },
                    ..old_s
                },
            );
            assert(users_view(ch.users.map()) =~= want.channels[channel_id@].users);
            assert(self@.channels =~= want.channels);
        }
    }

    /// Change one user's stream with `set_gain` or `set_muted`.
    fn update_stream(&mut self, channel_id: &ChannelId, user_id: &UserId, gain: Option<G>, muted: Option<bool>) -> (r: Result<
        (),
        MixerError,
    >)
        requires
            old(self).wf(),
        ensures
            final(self).wf(),
            has_stream(old(self)@, channel_id@, user_id@) ==> r is Ok && final(self)@ == with_stream(
                old(self)@,
                channel_id@,
                user_id@,
                StreamView {
                    gain: match gain {
                        Some(g) => g,
                        None => old(self)@.channels[channel_id@].users[user_id@].gain,
                    },
                    muted: match muted {
                        Some(b) => b,
                        None => old(self)@.channels[channel_id@].users[user_id@].muted,
                    },
                    ..old(self)@.channels[channel_id@].users[user_id@]
                },
            ),
            !has_stream(old(self)@, channel_id@, user_id@) ==> final(self)@ == old(self)@ && (r matches Err(e)
                && missing_error(old(self)@.channels.contains_key(channel_id@), false, channel_id@, user_id@, e)),
    {
        let ci = match self.channels.find(channel_id.as_str()) {
            None => {
                return Err(MixerError::ChannelNotFound(channel_id.to_string()));
            },
            Some(ci) => ci,
        };
        let (key, mut ch) = self.channels.take_at(ci);
        let ghost ch0 = ch;
        let ui = match ch.users.find(user_id.as_str()) {
            Some(ui) => ui,
            None => {
                self.channels.put_at(ci, key, ch);
                proof {
                    assert forall|c: Seq<char>| #[trigger] self.channels.map().contains_key(c) implies channel_ok(
                        self.channels.map()[c],
                        self.jitter_config,
                    ) by {
                        if c != channel_id@ {
                            assert(old(self).channels.map().contains_key(c));
                        }
                    }
                    assert(self@.channels =~= old(self)@.channels);
                }
                return Err(MixerError::UserNotFound(user_id.to_string()));
            },
        };
        let (ukey, mut stream) = ch.users.take_at(ui);
        if let Some(g) = gain {
            stream.gain = g;
        }
        if let Some(b) = muted {
            stream.muted = b;
        }
        ch.users.put_at(ui, ukey, stream);
        proof {
            assert forall|u: Seq<char>| #[trigger] ch.users.map().contains_key(u) implies stream_ok(
                ch.users.map()[u],
                self.jitter_config,
            ) by {
                if u != user_id@ {
                    assert(ch0.users.map().contains_key(u));
                }
            }
        }
        self.channels.put_at(ci, key, ch);
        proof {
            assert forall|c: Seq<char>| #[trigger] self.channels.map().contains_key(c) implies channel_ok(
                self.channels.map()[c],
                self.jitter_config,
            ) by {
                if c != channel_id@ {
                    assert(old(self).channels.map().contains_key(c));
                }
            }
            let old_s = old(self)@.channels[channel_id@].users[user_id@];
            let want = with_stream(
                old(self)@,
                channel_id@,
                user_id@,
                StreamView {
                    gain: match gain {
                        Some(g) => g,
                        None => old_s.gain,
                    },
                    muted: match muted {
                        Some(b) => b,
                        None => old_s.muted,
                    },
                    ..old_s
                },
            );
            assert(users_view(ch.users.map()) =~= want.channels[channel_id@].users);
            assert(self@.channels =~= want.channels);
        }
        Ok(())
    }

    /// Set a user's gain (the caller keeps it non-negative).
    pub fn set_user_gain(&mut self, channel_id: &ChannelId, user_id: &UserId, gain: G) -> (r: Result<(), MixerError>)
        requires
            old(self).wf(),
        ensures
            final(self).wf(),
            has_stream(old(self)@, channel_id@, user_id@) ==> r is Ok && final(self)@ == with_stream(
                old(self)@,
                channel_id@,
                user_id@,
                StreamView { gain, ..old(self)@.channels[channel_id@].users[user_id@] },
            ),
            !has_stream(old(self)@, channel_id@, user_id@) ==> final(self)@ == old(self)@ && (r matches Err(e)
                && missing_error(old(self)@.channels.contains_key(channel_id@), false, channel_id@, user_id@, e)),
    {
        self.update_stream(channel_id, user_id, Some(gain), None)
    }

    /// Mute or unmute a user.
    pub fn set_user_muted(&mut self, channel_id: &ChannelId, user_id: &UserId, muted: bool) -> (r: Result<(), MixerError>)
        requires
            old(self).wf(),
        ensures
            final(self).wf(),
            has_stream(old(self)@, channel_id@, user_id@) ==> r is Ok && final(self)@ == with_stream(
                old(self)@,
                channel_id@,
                user_id@,
                StreamView { muted, ..old(self)@.channels[channel_id@].users[user_id@] },
            ),
            !has_stream(old(self)@, channel_id@, user_id@) ==> final(self)@ == old(self)@ && (r matches Err(e)
                && missing_error(old(self)@.channels.contains_key(channel_id@), false, channel_id@, user_id@, e)),
    {
        self.update_stream(channel_id, user_id, None, Some(muted))
    }

    /// Set a channel's gain (the caller keeps it non-negative).
    pub fn set_channel_gain(&mut self, channel_id: &ChannelId, gain: G) -> (r: Result<(), MixerError>)
        requires
            old(self).wf(),
        ensures
            final(self).wf(),
            old(self)@.channels.contains_key(channel_id@) ==> r is Ok && final(self)@ == (MixerView {
                channels: old(self)@.channels.insert(
                    channel_id@,
                    ChannelMixView { master_gain: gain, ..old(self)@.channels[channel_id@] },
                ),
                ..old(self)@
            }),
            !old(self)@.channels.contains_key(channel_id@) ==> final(self)@ == old(self)@ && (r matches Err(
                MixerError::ChannelNotFound(s),
            ) && s@ == channel_id@),
    {
        let ci = match self.channels.find(channel_id.as_str()) {
            None => {
                return Err(MixerError::ChannelNotFound(channel_id.to_string()));
            },
            Some(ci) => ci,
        };
        let (key, mut ch) = self.channels.take_at(ci);
        ch.master_gain = gain;
        self.channels.put_at(ci, key, ch);
        proof {
            assert forall|c: Seq<char>| #[trigger] self.channels.map().contains_key(c) implies channel_ok(
                self.channels.map()[c],
                self.jitter_config,
            ) by {
                if c != channel_id@ {
                    assert(old(self).channels.map().contains_key(c));
                }
            }
            assert(self@.channels =~= old(self)@.channels.insert(
                channel_id@,
                ChannelMixView { master_gain: gain, ..old(self)@.channels[channel_id@] },
            ));
        }
        Ok(())
    }

    /// Buffer figures of a user's stream, if it exists.
    pub fn get_user_stats(&self, channel_id: &ChannelId, user_id: &UserId) -> (r: Option<StreamStats>)
        requires
            self.wf(),
        ensures
            r.is_some() == has_stream(self@, channel_id@, user_id@),
            r matches Some(st) ==> {
                let b = self@.channels[channel_id@].users[user_id@].buffer;
                &&& st.buffered_frames == b.packets.len()
                &&& st.target_delay_frames == b.target_delay_frames
                &&& st.packets_received == b.packets_received
                &&& st.packets_lost == b.packets_lost
            },
    {
        let ch = match self.channels.get(channel_id.as_str()) {
            Some(ch) => ch,
            None => {
                return None;
            },
        };
        let stream = match ch.users.get(user_id.as_str()) {
            Some(s) => s,
            None => {
                return None;
            },
        };
        proof {
            assert(channel_ok(*ch, self.jitter_config));
            assert(stream_ok(*stream, self.jitter_config));
        }
        Some(
            StreamStats {
                buffered_frames: stream.jitter_buffer.buffered_count(),
                target_delay_frames: stream.jitter_buffer.target_delay_frames(),
                packets_received: stream.jitter_buffer.packets_received(),
                packets_lost: stream.jitter_buffer.packets_lost(),
            },
        )
    }

    /// The channels, each once.
    pub fn list_channels(&self) -> (r: Vec<ChannelId>)
        requires
            self.wf(),
        ensures
            r@.map_values(|c: ChannelId| c@).no_duplicates(),
            r@.map_values(|c: ChannelId| c@).to_set() =~= self@.channels.dom(),
    {
        let n = self.channels.len();
        let mut r: Vec<ChannelId> = Vec::new();
        let mut i: usize = 0;
        proof {
            self.channels.lemma_keys();
        }
        while i < n
            invariant
                n == self.channels.key_seq().len(),
                self.channels.wf(),
                i <= n,
                r@.map_values(|c: ChannelId| c@) == self.channels.key_seq().subrange(0, i as int),
            decreases n - i,
        {
            let k = self.channels.key_at(i);
            let ghost before = r@;
            let c = ChannelId(k.clone());
            r.push(c);
            assert(r@ =~= before.push(c));
            assert(r@.map_values(|c: ChannelId| c@) =~= before.map_values(|c: ChannelId| c@).push(c@));
            assert(self.channels.key_seq().subrange(0, i + 1) =~= self.channels.key_seq().subrange(0, i as int).push(
                self.channels.key_seq()[i as int],
            ));
            i = i + 1;
        }
        proof {
            self.channels.lemma_keys();
            let ks = self.channels.key_seq();
            assert(ks.subrange(0, n as int) =~= ks);
            assert forall|k: Seq<char>| ks.to_set().contains(k) <==> self@.channels.dom().contains(k) by {
                if ks.to_set().contains(k) {
                    assert(ks.contains(k));
                }
                if self@.channels.dom().contains(k) {
                    assert(self.channels.map().contains_key(k));
                }
            }
        }
        r
    }

    /// The users of a channel, each once; none for an unknown channel.
    pub fn list_users(&self, channel_id: &ChannelId) -> (r: Vec<UserId>)
        requires
            self.wf(),
        ensures
            r@.map_values(|u: UserId| u@).no_duplicates(),
            self@.channels.contains_key(channel_id@) ==> r@.map_values(|u: UserId| u@).to_set()
                =~= self@.channels[channel_id@].users.dom(),
            !self@.channels.contains_key(channel_id@) ==> r@.len() == 0,
    {
        let ch = match self.channels.get(channel_id.as_str()) {
            Some(ch) => ch,
            None => {
                let r: Vec<UserId> = Vec::new();
                assert(r@.map_values(|u: UserId| u@) =~= Seq::<Seq<char>>::empty());
                return r;
            },
        };
        proof {
            assert(channel_ok(*ch, self.jitter_config));
            ch.users.lemma_keys();
        }
        let n = ch.users.len();
        let mut r: Vec<UserId> = Vec::new();
        let mut i: usize = 0;
        while i < n
            invariant
                n == ch.users.key_seq().len(),
                ch.users.wf(),
                i <= n,
                r@.map_values(|u: UserId| u@) == ch.users.key_seq().subrange(0, i as int),
            decreases n - i,
        {
            let k = ch.users.key_at(i);
            let ghost before = r@;
            let u = UserId(k.clone());
            r.push(u);
            assert(r@ =~= before.push(u));
            assert(r@.map_values(|u: UserId| u@) =~= before.map_values(|u: UserId| u@).push(u@));
            assert(ch.users.key_seq().subrange(0, i + 1) =~= ch.users.key_seq().subrange(0, i as int).push(
                ch.users.key_seq()[i as int],
            ));
            i = i + 1;
        }
        proof {
            ch.users.lemma_keys();
            let ks = ch.users.key_seq();
            assert(ks.subrange(0, n as int) =~= ks);
            assert forall|k: Seq<char>| ks.to_set().contains(k) <==> self@.channels[channel_id@].users.dom().contains(k) by {
                if ks.to_set().contains(k) {
                    assert(ks.contains(k));
                }
                if self@.channels[channel_id@].users.dom().contains(k) {
                    assert(ch.users.map().contains_key(k));
                }
            }
        }
        r
    }
    /// Hand out one frame per unmuted user of a channel, for mixing: each
    /// unmuted user's buffer is popped once, in some order of the users, and
    /// what comes out is listed with the user's id and gain, together with
    /// the channel's gain. Fails when the channel is unknown.
    #[verifier::rlimit(60)]
    pub fn pop_channel(&mut self, channel_id: &ChannelId) -> (r: Result<(Vec<(String, BufferedPacket<T>, G)>, G), MixerError>)
        requires
            old(self).wf(),
        ensures
            final(self).wf(),
            !old(self)@.channels.contains_key(channel_id@) ==> final(self)@ == old(self)@ && (r matches Err(
                MixerError::ChannelNotFound(s),
            ) && s@ == channel_id@),
            old(self)@.channels.contains_key(channel_id@) ==> exists|keys: Seq<Seq<char>>|
                #![trigger pop_users(old(self)@.channels[channel_id@].users, keys)]
                keys.no_duplicates() && keys.to_set() =~= old(self)@.channels[channel_id@].users.dom() && ({
                    let c = old(self)@.channels[channel_id@];
                    let popped = pop_users(c.users, keys);
                    &&& final(self)@ == (MixerView {
                        channels: old(self)@.channels.insert(channel_id@, ChannelMixView { users: popped.0, ..c }),
                        ..old(self)@
                    })
                    &&& r matches Ok((frames, g)) && g == c.master_gain && frames@.map_values(
                        |f: (String, BufferedPacket<T>, G)| frame_view(f),
                    ) == popped.1
                }),
    {
        let ci = match self.channels.find(channel_id.as_str()) {
            None => {
                return Err(MixerError::ChannelNotFound(channel_id.to_string()));
            },
            Some(ci) => ci,
        };
        let (key, mut ch) = self.channels.take_at(ci);
        let ghost keys = ch.users.key_seq();
        let ghost m0 = users_view(ch.users.map());
        proof {
            ch.users.lemma_keys();
            assert forall|i: int| 0 <= i < keys.len() implies m0.contains_key(#[trigger] keys[i]) by {
                assert(keys.contains(keys[i]));
            }
            assert(pop_users(m0, keys.subrange(0, 0)) == (m0, Seq::<(Seq<char>, BufferedPacket<T>, G)>::empty())) by {
                assert(keys.subrange(0, 0) =~= Seq::<Seq<char>>::empty());
            }
        }
        let n = ch.users.len();
        let ghost gain0 = ch.master_gain;
        let mut out: Vec<(String, BufferedPacket<T>, G)> = Vec::new();
        let mut i: usize = 0;
        while i < n
            invariant
                ch.users.wf(),
                ch.master_gain == gain0,
                ch.users.key_seq() == keys,
                n == keys.len(),
                i <= n,
                keys.no_duplicates(),
                forall|k: Seq<char>| #[trigger] ch.users.map().contains_key(k) <==> keys.contains(k),
                users_ok(ch.users.map(), self.jitter_config),
                users_view(ch.users.map()) == pop_users(m0, keys.subrange(0, i as int)).0,
                out@.map_values(|f: (String, BufferedPacket<T>, G)| frame_view(f)) == pop_users(
                    m0,
                    keys.subrange(0, i as int),
                ).1,
            decreases n - i,
        {
            proof {
                lemma_pop_users_step(m0, keys, i as int);
            }
            let ghost before = out@;
            let ghost users_before = ch.users.map();
            let (ukey, mut stream) = ch.users.take_at(i);
            if !stream.muted {
                let popped = stream.jitter_buffer.pop();
                match popped {
                    Some(p) => {
                        let name = ukey.clone();
                        let g = stream.gain;
                        out.push((name, p, g));
                        proof {
                            assert(out@.map_values(|f: (String, BufferedPacket<T>, G)| frame_view(f)) =~= before.map_values(
                                |f: (String, BufferedPacket<T>, G)| frame_view(f),
                            ).push(frame_view(out@.last())));
                        }
                    },
                    None => {},
                }
            }
            let ghost k = ukey@;
            let ghost fin = stream;
            ch.users.put_at(i, ukey, stream);
            proof {
                assert(ch.users.key_seq() =~= keys);
                assert(ch.users.map() == users_before.remove(k).insert(k, fin));
                lemma_users_view_put(users_before, k, fin);
                assert forall|u: Seq<char>| #[trigger] ch.users.map().contains_key(u) implies stream_ok(
                    ch.users.map()[u],
                    self.jitter_config,
                ) by {
                    if u != k {
                        assert(users_before.contains_key(u));
                    }
                }
                assert forall|u: Seq<char>| #[trigger] ch.users.map().contains_key(u) <==> keys.contains(u) by {
                    if u != k {
                        assert(users_before.contains_key(u) == keys.contains(u));
                    } else {
                        assert(keys[i as int] == k);
                    }
                }
            }
            i = i + 1;
        }
        let g = ch.master_gain;
        self.channels.put_at(ci, key, ch);
        proof {
            assert(keys.subrange(0, n as int) =~= keys);
            assert forall|c: Seq<char>| #[trigger] self.channels.map().contains_key(c) implies channel_ok(
                self.channels.map()[c],
                self.jitter_config,
            ) by {
                if c != channel_id@ {
                    assert(old(self).channels.map().contains_key(c));
                }
            }
            let cv = old(self)@.channels[channel_id@];
            assert(m0 == cv.users);
            assert forall|k: Seq<char>| keys.to_set().contains(k) <==> cv.users.dom().contains(k) by {
                if keys.to_set().contains(k) {
                    assert(keys.contains(k));
                }
            }
            assert(keys.to_set() =~= cv.users.dom());
            assert(self@.channels =~= old(self)@.channels.insert(
                channel_id@,
                ChannelMixView { users: pop_users(cv.users, keys).0, ..cv },
            ));
        }
        Ok((out, g))
    }
    /// Drop the users of every channel that have had no audio for
    /// `max_idle_secs` seconds or more.
    #[verifier::rlimit(60)]
    pub fn cleanup_inactive(&mut self, max_idle_secs: u64)
        requires
            old(self).wf(),
        ensures
            final(self).wf(),
            exists|now: u64|
                #![trigger cleaned_channel::<T, G>(empty_channel(old(self)@.unit_gain), now, secs_to_ms(max_idle_secs))]
                final(self)@ == (MixerView {
                    channels: old(self)@.channels.map_values(
                        |c: ChannelMixView<T, G>| cleaned_channel(c, now, secs_to_ms(max_idle_secs)),
                    ),
                    ..old(self)@
                }),
    {
        let limit = if max_idle_secs > u64::MAX / 1000 {
            u64::MAX
        } else {
            max_idle_secs * 1000
        };
        let now = now_millis();
        let ghost orig = old(self)@.channels;
        proof {
            self.channels.lemma_keys();
        }
        let ghost ckeys = self.channels.key_seq();
        let n = self.channels.len();
        let mut ci: usize = 0;
        while ci < n
            invariant
                self.channels.wf(),
                self.jitter_config == old(self).jitter_config,
                self.master_gain == old(self).master_gain,
                self.unit_gain == old(self).unit_gain,
                self.channels.key_seq() == ckeys,
                n == ckeys.len(),
                ci <= n,
                ckeys.no_duplicates(),
                forall|c: Seq<char>| #[trigger] self.channels.map().contains_key(c) <==> ckeys.contains(c),
                forall|c: Seq<char>| #[trigger] self.channels.map().contains_key(c) <==> orig.contains_key(c),
                forall|c: Seq<char>| #[trigger]
                    self.channels.map().contains_key(c) ==> channel_ok(self.channels.map()[c], self.jitter_config),
                forall|c: Seq<char>|
                    #![trigger self.channels.map()[c]]
                    self.channels.map().contains_key(c) ==> channel_view(self.channels.map()[c]) == if (exists|t: int|
                        0 <= t < ci && #[trigger] ckeys[t] == c) {
                        cleaned_channel(orig[c], now, limit)
                    } else {
                        orig[c]
                    },
            decreases n - ci,
        {
            let ghost before = self.channels.map();
            let (key, mut ch) = self.channels.take_at(ci);
            let ghost k = key@;
            let ghost ch0 = ch;
            let idle = idle_keys(&ch.users, now, limit);
            drop_keys(&mut ch.users, &idle);
            proof {
                assert(k == ckeys[ci as int]);
                assert(!(exists|t: int| 0 <= t < ci && #[trigger] ckeys[t] == k)) by {
                    if exists|t: int| 0 <= t < ci && #[trigger] ckeys[t] == k {
                        let t = choose|t: int| 0 <= t < ci && #[trigger] ckeys[t] == k;
                        assert(ckeys[t] == ckeys[ci as int]);
                    }
                }
                assert(channel_view(ch0) == orig[k]);
                let idle_set = texts(idle@).to_set();
                assert forall|u: Seq<char>| #[trigger] ch.users.map().contains_key(u) implies stream_ok(
                    ch.users.map()[u],
                    self.jitter_config,
                ) by {
                    assert(ch0.users.map().contains_key(u));
                }
                assert forall|u: Seq<char>| idle_set.contains(u) <==> (ch0.users.map().contains_key(u) && !still_active(
                    ch0.users.map()[u].last_activity,
                    now,
                    limit,
                )) by {
                    if idle_set.contains(u) {
                        assert(texts(idle@).contains(u));
                    }
                    if ch0.users.map().contains_key(u) && !still_active(ch0.users.map()[u].last_activity, now, limit) {
                        assert(texts(idle@).contains(u));
                    }
                }
                assert(users_view(ch.users.map()) =~= active_users(users_view(ch0.users.map()), now, limit));
            }
            self.channels.put_at(ci, key, ch);
            proof {
                assert(self.channels.key_seq() =~= ckeys);
                assert forall|c: Seq<char>| #[trigger] self.channels.map().contains_key(c) <==> ckeys.contains(c) by {
                    if c != k {
                        assert(before.contains_key(c) == ckeys.contains(c));
                    } else {
                        assert(ckeys[ci as int] == k);
                    }
                }
                assert forall|c: Seq<char>| #[trigger]
                    self.channels.map().contains_key(c) implies channel_ok(self.channels.map()[c], self.jitter_config) by {
                    if c != k {
                        assert(before.contains_key(c));
                    }
                }
                assert forall|c: Seq<char>|
                    #![trigger self.channels.map()[c]]
                    self.channels.map().contains_key(c) implies channel_view(self.channels.map()[c]) == if (exists|
                        t: int,
                    | 0 <= t < ci + 1 && #[trigger] ckeys[t] == c) {
                        cleaned_channel(orig[c], now, limit)
                    } else {
                        orig[c]
                    } by {
                    if c == k {
                        assert(ckeys[ci as int] == c);
                    } else {
                        assert(before.contains_key(c));
                        if exists|t: int| 0 <= t < ci + 1 && #[trigger] ckeys[t] == c {
                            let t = choose|t: int| 0 <= t < ci + 1 && #[trigger] ckeys[t] == c;
                            assert(t != ci);
                        }
                    }
                }
            }
            ci = ci + 1;
        }
        proof {
            assert(limit == secs_to_ms(max_idle_secs));
            assert forall|c: Seq<char>| #[trigger] orig.contains_key(c) implies (exists|t: int|
                0 <= t < n && #[trigger] ckeys[t] == c) by {
                assert(self.channels.map().contains_key(c));
                assert(ckeys.contains(c));
            }
            assert(self@.channels =~= orig.map_values(|c: ChannelMixView<T, G>| cleaned_channel(c, now, limit)));
            let _ = cleaned_channel::<T, G>(empty_channel(old(self)@.unit_gain), now, secs_to_ms(max_idle_secs));
        }
    }
}

} // verus!
