//! Reordering jitter buffer for one audio stream.
//!
//! Packets are held by sequence number, smallest first, at most 100 at a
//! time, and handed out in sequence order once enough are buffered. The
//! payload type `T` is opaque here (decoded samples in practice); the
//! delay target is adapted by the caller from its own jitter estimate.

use std::collections::BTreeMap;

use vstd::prelude::*;
use vstd::std_specs::btree::spec_keys_iter;
use vstd::std_specs::cmp::OrdSpec;
use vstd::std_specs::iter::IteratorSpec;

use crate::audio_params;

verus! {

broadcast use vstd::std_specs::btree::group_btree_axioms, vstd::laws_cmp::group_laws_cmp;

/// Configuration for the jitter buffer.
#[derive(Debug, Clone, Copy)]
pub struct JitterBufferConfig {
    /// Minimum buffer delay in milliseconds.
    pub min_delay_ms: u32,
    /// Maximum buffer delay in milliseconds.
    pub max_delay_ms: u32,
    /// Initial buffer delay in milliseconds.
    pub initial_delay_ms: u32,
    /// Number of samples per frame.
    pub frame_size: usize,
    /// Sample rate in Hz.
    pub sample_rate: u32,
}

/// Whole frames in a delay of `ms` milliseconds.
pub open spec fn delay_frames(ms: u32, sample_rate: u32, frame_size: usize) -> int {
    (ms * sample_rate / 1000) / ((frame_size as u32) as int)
}

impl JitterBufferConfig {
    /// The frame count of the initial delay can be computed without overflow
    /// or division by zero.
    pub open spec fn initial_fits(&self) -> bool {
        &&& self.initial_delay_ms * self.sample_rate <= u32::MAX
        &&& (self.frame_size as u32) != 0
    }

    /// The minimum and maximum delays convert to frame counts without
    /// overflow, and the minimum is not above the maximum.
    pub open spec fn bounds_fit(&self) -> bool {
        &&& self.min_delay_ms * self.sample_rate <= u32::MAX
        &&& self.max_delay_ms * self.sample_rate <= u32::MAX
        &&& (self.frame_size as u32) != 0
        &&& self.min_frames() <= self.max_frames()
    }

    /// The minimum delay in whole frames.
    pub open spec fn min_frames(&self) -> int {
        delay_frames(self.min_delay_ms, self.sample_rate, self.frame_size)
    }

    /// The maximum delay in whole frames.
    pub open spec fn max_frames(&self) -> int {
        delay_frames(self.max_delay_ms, self.sample_rate, self.frame_size)
    }

    /// The initial delay in whole frames.
    pub open spec fn initial_frames(&self) -> int {
        delay_frames(self.initial_delay_ms, self.sample_rate, self.frame_size)
    }

    /// Whether the initial delay converts to frames (see `initial_fits`).
    pub fn initial_ok(&self) -> (r: bool)
        ensures
            r == self.initial_fits(),
    {
        self.initial_delay_ms.checked_mul(self.sample_rate).is_some() && (self.frame_size as u32) != 0
    }

    /// Whether the delay bounds convert to frames in order (see
    /// `bounds_fit`).
    pub fn bounds_ok(&self) -> (r: bool)
        ensures
            r == self.bounds_fit(),
    {
        if self.min_delay_ms.checked_mul(self.sample_rate).is_none() || self.max_delay_ms.checked_mul(
            self.sample_rate,
        ).is_none() || (self.frame_size as u32) == 0 {
            return false;
        }
        frames_for(self.min_delay_ms, self.sample_rate, self.frame_size) <= frames_for(
            self.max_delay_ms,
            self.sample_rate,
            self.frame_size,
        )
    }
}

impl Default for JitterBufferConfig {
    /// The default: 20 to 100 ms, starting at 40 ms, 480-sample frames at 48 kHz.
    fn default() -> (r: Self)
        ensures
            r.min_delay_ms == 20,
            r.max_delay_ms == 100,
            r.initial_delay_ms == 40,
            r.frame_size == 480,
            r.sample_rate == 48000,
    {
        JitterBufferConfig {
            min_delay_ms: 20,
            max_delay_ms: 100,
            initial_delay_ms: 40,
            frame_size: audio_params::FRAME_SIZE,
            sample_rate: audio_params::SAMPLE_RATE,
        }
    }
}

/// Frames in a delay of `ms` milliseconds.
fn frames_for(ms: u32, sample_rate: u32, frame_size: usize) -> (r: u32)
    requires
        ms * sample_rate <= u32::MAX,
        (frame_size as u32) != 0,
    ensures
        r == delay_frames(ms, sample_rate, frame_size),
{
    #[verifier::truncate]
    let f = frame_size as u32;
    (ms * sample_rate / 1000) / f
}

/// A packet stored in the jitter buffer.
#[derive(Debug)]
pub struct BufferedPacket<T> {
    /// Sequence number.
    pub sequence: u32,
    /// Timestamp in samples.
    pub timestamp: u64,
    /// Audio payload.
    pub samples: T,
    /// Source user ID.
    pub user_id: String,
}

/// Whether `seq` lies more than 100 behind `next`: the wrapped difference
/// `seq - next`, read as a signed 32-bit number, is below -100.
pub open spec fn too_old(seq: u32, next: u32) -> bool {
    let d = seq.wrapping_sub(next);
    0x8000_0000 <= d && d < 0xFFFF_FF9C
}

/// The model of a jitter buffer.
#[verifier::ext_equal]
pub struct JitterView<T> {
    /// The buffered packets, by sequence number.
    pub packets: Map<u32, BufferedPacket<T>>,
    /// Sequence number to hand out next, once known.
    pub next_sequence: Option<u32>,
    /// Whether a packet has come out since the buffer was made or reset.
    pub playing: bool,
    /// Frames to buffer before handing any out.
    pub target_delay_frames: u32,
    /// Consecutive pops that found the next packet missing.
    pub underrun_count: u32,
    /// Packets pushed (modulo 2^64).
    pub packets_received: u64,
    /// Packets found missing (modulo 2^64).
    pub packets_lost: u64,
}

/// Adaptive jitter buffer for a single audio stream.
pub struct JitterBuffer<T> {
    config: JitterBufferConfig,
    packets: BTreeMap<u32, BufferedPacket<T>>,
    next_sequence: Option<u32>,
    playing: bool,
    target_delay_frames: u32,
    underrun_count: u32,
    packets_received: u64,
    packets_lost: u64,
}

impl<T> View for JitterBuffer<T> {
    type V = JitterView<T>;

    closed spec fn view(&self) -> JitterView<T> {
        JitterView {
            packets: self.packets@,
            next_sequence: self.next_sequence,
            playing: self.playing,
            target_delay_frames: self.target_delay_frames,
            underrun_count: self.underrun_count,
            packets_received: self.packets_received,
            packets_lost: self.packets_lost,
        }
    }
}

/// The sequence number expected next once `p` has been pushed: the first
/// packet's number, moved back to any earlier one (at most 100 earlier)
/// pushed before a packet has come out.
pub open spec fn expected_next<T>(s: JitterView<T>, p: BufferedPacket<T>) -> u32 {
    match s.next_sequence {
        Some(n) => if !s.playing && slightly_before(p.sequence, n) {
            p.sequence
        } else {
            n
        },
        None => p.sequence,
    }
}

/// Whether `seq` lies at most 100 before `next`, counting modulo 2^32.
pub open spec fn slightly_before(seq: u32, next: u32) -> bool {
    seq.wrapping_sub(next) >= 0xFFFF_FF9C
}

/// Whether `push` keeps the packet: it is not more than 100 behind the
/// sequence number expected next.
pub open spec fn push_accepts<T>(s: JitterView<T>, p: BufferedPacket<T>) -> bool {
    !too_old(p.sequence, expected_next(s, p))
}

/// Model of `push`: the counter of received packets advances, the expected
/// sequence number follows `expected_next`, and a packet that is not
/// too old is stored (replacing one with the same number), after which the
/// smallest packet is dropped if more than 100 are held.
pub open spec fn push_spec<T>(s: JitterView<T>, p: BufferedPacket<T>) -> JitterView<T> {
    let s1 = JitterView {
        packets_received: s.packets_received.wrapping_add(1),
        next_sequence: Some(expected_next(s, p)),
        ..s
    };
    if push_accepts(s, p) {
        JitterView { packets: pruned(s.packets.insert(p.sequence, p)), ..s1 }
    } else {
        s1
    }
}

/// A packet map cut back to 100 entries by dropping its smallest key.
pub open spec fn pruned<T>(m: Map<u32, BufferedPacket<T>>) -> Map<u32, BufferedPacket<T>> {
    if m.len() > 100 {
        m.remove(min_key(m))
    } else {
        m
    }
}

/// The smallest key of a non-empty map.
pub open spec fn min_key<V>(m: Map<u32, V>) -> u32 {
    choose|k: u32| m.contains_key(k) && forall|j: u32| #[trigger] m.contains_key(j) ==> k <= j
}

/// Model of `pop`: the new state and the packet handed out.
///
/// Nothing comes out before the first packet, nor while fewer packets than
/// the target are buffered and fewer than 3 pops in a row have missed. The
/// expected packet comes out when present. Otherwise the miss is counted;
/// after more than 3 misses in a row the smallest buffered packet comes out
/// and its number becomes the expected one; failing that the expected
/// number moves on by one.
pub open spec fn pop_spec<T>(s: JitterView<T>) -> (JitterView<T>, Option<BufferedPacket<T>>) {
    match s.next_sequence {
        None => (s, None),
        Some(n) => {
            if s.packets.len() < s.target_delay_frames && s.underrun_count < 3 {
                (s, None)
            } else if s.packets.contains_key(n) {
                (
                    JitterView {
                        packets: s.packets.remove(n),
                        next_sequence: Some(n.wrapping_add(1)),
                        underrun_count: 0,
                        playing: true,
                        ..s
                    },
                    Some(s.packets[n]),
                )
            } else {
                let misses = s.underrun_count.wrapping_add(1);
                let lost = s.packets_lost.wrapping_add(1);
                if misses > 3 && s.packets.len() > 0 {
                    let f = min_key(s.packets);
                    (
                        JitterView {
                            packets: s.packets.remove(f),
                            next_sequence: Some(f),
                            underrun_count: 0,
                            packets_lost: lost,
                            playing: true,
                            ..s
                        },
                        Some(s.packets[f]),
                    )
                } else {
                    (
                        JitterView {
                            next_sequence: Some(n.wrapping_add(1)),
                            underrun_count: misses,
                            packets_lost: lost,
                            ..s
                        },
                        None,
                    )
                }
            }
        },
    }
}

/// `target` clamped to the range `lo ..= hi`.
pub open spec fn clamp(target: int, lo: int, hi: int) -> int {
    if target < lo {
        lo
    } else if target > hi {
        hi
    } else {
        target
    }
}

/// Model of `adapt_delay`: the target becomes `target` clamped to the
/// configured minimum and maximum delays in whole frames.
pub open spec fn adapt_spec<T>(s: JitterView<T>, c: JitterBufferConfig, target: u32) -> JitterView<T> {
    JitterView { target_delay_frames: clamp(target as int, c.min_frames(), c.max_frames()) as u32, ..s }
}

/// Model of `reset`: no packets, no expected sequence number, no misses,
/// and the target back at the initial delay; the counters stay.
pub open spec fn reset_spec<T>(s: JitterView<T>, c: JitterBufferConfig) -> JitterView<T> {
    JitterView {
        packets: Map::empty(),
        next_sequence: None,
        playing: false,
        underrun_count: 0,
        target_delay_frames: c.initial_frames() as u32,
        ..s
    }
}

/// Whether the target delay lies within the configured minimum and maximum
/// delays in whole frames.
pub open spec fn target_in_bounds<T>(s: JitterView<T>, c: JitterBufferConfig) -> bool {
    c.min_frames() <= s.target_delay_frames && s.target_delay_frames <= c.max_frames()
}

/// The smallest key of a map, if any.
fn first_key<V>(m: &BTreeMap<u32, V>) -> (r: Option<u32>)
    ensures
        r is None <==> m@.len() == 0,
        r matches Some(k) ==> m@.contains_key(k) && k == min_key(m@),
{
    let mut first: Option<u32> = None;
    for k in it: m.keys()
        invariant_except_break
            first is None,
            it.index() == 0,
        ensures
            first is None ==> it.seq().len() == 0,
            first matches Some(f) ==> it.seq().len() > 0 && f == *it.seq()[0],
            first matches Some(f) ==> spec_keys_iter(m).remaining().len() > 0
                && f == *spec_keys_iter(m).remaining()[0],
    {
        first = Some(*k);
        break;
    }
    proof {
        let ks = spec_keys_iter(m).remaining();
        let us = ks.unref();
        assert(us.to_set() == m@.dom());
        assert(vstd::laws_cmp::obeys_cmp::<u32>());
        assert(vstd::laws_cmp::obeys_cmp::<&u32>());
        assert(vstd::std_specs::btree::increasing_seq(ks));
        if let Some(f) = first {
            assert(us[0] == f);
            assert forall|j: u32| #[trigger] m@.contains_key(j) implies f <= j by {
                assert(us.to_set().contains(j));
                let i = choose|i: int| 0 <= i < us.len() && us[i] == j;
                if i > 0 {
                    assert(OrdSpec::cmp_spec(&ks[0], &ks[i]) is Less);
                }
            }
            assert(us.to_set().contains(us[0]));
            assert(m@.contains_key(f));
            let c = min_key(m@);
            assert(m@.contains_key(c) && forall|j: u32| #[trigger] m@.contains_key(j) ==> c <= j);
            assert(c <= f && f <= c);
        }
    }
    first
}

impl<T> JitterBuffer<T> {
    /// Well-formedness: at most 100 packets, and a configuration whose
    /// initial delay converts to frames.
    pub closed spec fn wf(&self) -> bool {
        &&& self.packets@.len() <= 100
        &&& self.config.initial_fits()
    }

    /// The configuration the buffer was made with.
    pub closed spec fn settings(&self) -> JitterBufferConfig {
        self.config
    }

    /// What well-formedness gives a caller: a finite map of at most 100
    /// packets, and an initial delay that converts to frames.
    pub proof fn lemma_wf(&self)
        requires
            self.wf(),
        ensures
            self@.packets.dom().finite(),
            self@.packets.len() <= 100,
            self.settings().initial_fits(),
    {
    }

    /// A buffer with the default configuration.
    pub fn new() -> (r: Self)
        ensures
            r.wf(),
            r@.packets =~= Map::<u32, BufferedPacket<T>>::empty(),
            r@.next_sequence.is_none(),
            !r@.playing,
            r@.target_delay_frames == 4,
            r@.underrun_count == 0,
            r@.packets_received == 0,
            r@.packets_lost == 0,
            r.settings().min_delay_ms == 20,
            r.settings().max_delay_ms == 100,
            r.settings().initial_delay_ms == 40,
            r.settings().frame_size == 480,
            r.settings().sample_rate == 48000,
    {
        let config = JitterBufferConfig::default();
        assert(delay_frames(40, 48000, 480) == 4) by (nonlinear_arith);
        Self::with_config(config)
    }

    /// An empty buffer whose target is the initial delay in whole frames.
    pub fn with_config(config: JitterBufferConfig) -> (r: Self)
        requires
            config.initial_fits(),
        ensures
            r.wf(),
            r@.packets =~= Map::<u32, BufferedPacket<T>>::empty(),
            r@.next_sequence.is_none(),
            !r@.playing,
            r@.target_delay_frames == config.initial_frames(),
            r@.underrun_count == 0,
            r@.packets_received == 0,
            r@.packets_lost == 0,
            r.settings() == config,
    {
        let initial = frames_for(config.initial_delay_ms, config.sample_rate, config.frame_size);
        let r = JitterBuffer {
            config,
            packets: BTreeMap::new(),
            next_sequence: None,
            playing: false,
            target_delay_frames: initial,
            underrun_count: 0,
            packets_received: 0,
            packets_lost: 0,
        };
        r
    }

    /// Push a packet into the buffer. Returns whether it was kept; a packet
    /// more than 100 behind the expected sequence number is dropped.
    #[verifier::rlimit(40)]
    pub fn push(&mut self, sequence: u32, timestamp: u64, samples: T, user_id: String) -> (kept: bool)
        requires
            old(self).wf(),
        ensures
            final(self).wf(),
            final(self).settings() == old(self).settings(),
            final(self)@ == push_spec(
                old(self)@,
                (BufferedPacket { sequence, timestamp, samples, user_id }),
            ),
            kept == push_accepts(old(self)@, (BufferedPacket { sequence, timestamp, samples, user_id })),
            final(self)@.packets.len() <= 100,
    {
        let ghost p = BufferedPacket { sequence, timestamp, samples, user_id };
        let ghost s0 = self@;
        self.packets_received = self.packets_received.wrapping_add(1);
        let next = match self.next_sequence {
            Some(n) => {
                if !self.playing && sequence.wrapping_sub(n) >= 0xFFFF_FF9C {
                    sequence
                } else {
                    n
                }
            },
            None => sequence,
        };
        assert(next == expected_next(s0, p));
        self.next_sequence = Some(next);
        let diff = sequence.wrapping_sub(next);
        if diff >= 0x8000_0000 && diff < 0xFFFF_FF9C {
            assert(self@ =~= push_spec(s0, p));
            return false;
        }
        let packet = BufferedPacket { sequence, timestamp, samples, user_id };
        let _ = self.packets.insert(sequence, packet);
        let ghost inserted = self.packets@;
        assert(inserted == s0.packets.insert(sequence, p));
        if self.packets.len() > 100 {
            match first_key(&self.packets) {
                Some(f) => {
                    let _ = self.packets.remove(&f);
                    assert(self.packets@ == inserted.remove(min_key(inserted)));
                },
                None => {},
            }
        }
        assert(self@ =~= push_spec(s0, p));
        true
    }

    /// Pop the next frame from the buffer, or `None` while it is empty or
    /// still filling, or when the expected packet is missing.
    #[verifier::rlimit(40)]
    pub fn pop(&mut self) -> (r: Option<BufferedPacket<T>>)
        requires
            old(self).wf(),
        ensures
            final(self).wf(),
            final(self).settings() == old(self).settings(),
            final(self)@ == pop_spec(old(self)@).0,
            r == pop_spec(old(self)@).1,
    {
        let ghost s0 = self@;
        let n = match self.next_sequence {
            Some(n) => n,
            None => {
                return None;
            },
        };
        let buffered = self.packets.len() as u32;
        if buffered < self.target_delay_frames && self.underrun_count < 3 {
            return None;
        }
        match self.packets.remove(&n) {
            Some(p) => {
                self.next_sequence = Some(n.wrapping_add(1));
                self.underrun_count = 0;
                self.playing = true;
                assert(self@ =~= pop_spec(s0).0);
                return Some(p);
            },
            None => {},
        }
        assert(self.packets@ =~= s0.packets);
        self.underrun_count = self.underrun_count.wrapping_add(1);
        self.packets_lost = self.packets_lost.wrapping_add(1);
        if self.underrun_count > 3 && self.packets.len() > 0 {
            if let Some(f) = first_key(&self.packets) {
                if let Some(p) = self.packets.remove(&f) {
                    self.next_sequence = Some(f);
                    self.underrun_count = 0;
                    self.playing = true;
                    assert(self@ =~= pop_spec(s0).0);
                    return Some(p);
                }
            }
        }
        self.next_sequence = Some(n.wrapping_add(1));
        assert(self@ =~= pop_spec(s0).0);
        None
    }

    /// Set the target delay to `target` frames, clamped to the configured
    /// minimum and maximum delays in whole frames.
    pub fn adapt_delay(&mut self, target: u32)
        requires
            old(self).wf(),
            old(self).settings().bounds_fit(),
        ensures
            final(self).wf(),
            final(self).settings() == old(self).settings(),
            final(self)@ == adapt_spec(old(self)@, old(self).settings(), target),
    {
        let min_frames = frames_for(self.config.min_delay_ms, self.config.sample_rate, self.config.frame_size);
        let max_frames = frames_for(self.config.max_delay_ms, self.config.sample_rate, self.config.frame_size);
        let new_target = if target < min_frames {
            min_frames
        } else if target > max_frames {
            max_frames
        } else {
            target
        };
        self.target_delay_frames = new_target;
    }

    /// The number of buffered packets.
    pub fn buffered_count(&self) -> (n: usize)
        requires
            self.wf(),
        ensures
            n == self@.packets.len(),
    {
        self.packets.len()
    }

    /// The configuration the buffer was made with.
    pub fn config(&self) -> (c: JitterBufferConfig)
        ensures
            c == self.settings(),
    {
        self.config
    }

    /// The current target delay in frames.
    pub fn target_delay_frames(&self) -> (n: u32)
        ensures
            n == self@.target_delay_frames,
    {
        self.target_delay_frames
    }

    /// Packets pushed so far (modulo 2^64).
    pub fn packets_received(&self) -> (n: u64)
        ensures
            n == self@.packets_received,
    {
        self.packets_received
    }

    /// Packets found missing so far (modulo 2^64).
    pub fn packets_lost(&self) -> (n: u64)
        ensures
            n == self@.packets_lost,
    {
        self.packets_lost
    }

    /// Reset the buffer: no packets, no expected sequence number, no misses,
    /// and the target back at the initial delay. The counters stay.
    pub fn reset(&mut self)
        requires
            old(self).wf(),
        ensures
            final(self).wf(),
            final(self).settings() == old(self).settings(),
            final(self)@ == reset_spec(old(self)@, old(self).settings()),
    {
        self.packets.clear();
        self.next_sequence = None;
        self.playing = false;
        self.underrun_count = 0;
        self.target_delay_frames = frames_for(
            self.config.initial_delay_ms,
            self.config.sample_rate,
            self.config.frame_size,
        );
    }
}

impl<T> Default for JitterBuffer<T> {
    fn default() -> (r: Self)
        ensures
            r.wf(),
            r@.packets =~= Map::<u32, BufferedPacket<T>>::empty(),
            r@.next_sequence.is_none(),
            !r@.playing,
            r@.target_delay_frames == 4,
            r@.underrun_count == 0,
            r@.packets_received == 0,
            r@.packets_lost == 0,
    {
        Self::new()
    }
}

/// Before the first packet nothing comes out of the buffer, and popping
/// leaves it as it was.
pub proof fn law_nothing_before_first_packet<T>(s: JitterView<T>)
    requires
        s.next_sequence.is_none(),
    ensures
        pop_spec(s).1.is_none(),
        pop_spec(s).0 == s,
{
}

/// Before any packet has come out, a packet at most 100 before the expected
/// one becomes the expected one: packets that arrive out of order at the
/// start still come out in sequence order.
pub proof fn law_start_follows_earliest<T>(s: JitterView<T>, p: BufferedPacket<T>)
    requires
        !s.playing,
        s.next_sequence matches Some(n) && slightly_before(p.sequence, n),
    ensures
        push_accepts(s, p),
        push_spec(s, p).next_sequence == Some(p.sequence),
{
}

/// The packet the buffer expects next, pushed while fewer than 100 packets
/// are held and none with its number, comes out of the following pop once
/// the buffer holds as many packets as its target: what is written in order
/// is read back in order.
pub proof fn law_expected_packet_comes_out<T>(s: JitterView<T>, p: BufferedPacket<T>)
    requires
        s.packets.dom().finite(),
        s.packets.len() < 100,
        !s.packets.contains_key(p.sequence),
        s.next_sequence.is_none() || s.next_sequence == Some(p.sequence),
        s.target_delay_frames <= s.packets.len() + 1,
    ensures
        push_accepts(s, p),
        pop_spec(push_spec(s, p)).1 == Some(p),
        pop_spec(push_spec(s, p)).0.next_sequence == Some(p.sequence.wrapping_add(1)),
        pop_spec(push_spec(s, p)).0.packets =~= s.packets,
{
    let m = s.packets.insert(p.sequence, p);
    assert(m.len() == s.packets.len() + 1);
    assert(pruned(m) == m);
    assert(m.remove(p.sequence) =~= s.packets);
}

/// The target delay stays within the configured bounds: when the bounds
/// convert to frames and hold the initial delay, a target within them stays
/// within them through `push`, `pop`, `adapt_delay` and `reset`, and a new
/// buffer starts within them.
pub proof fn law_target_stays_in_bounds<T>(
    s: JitterView<T>,
    c: JitterBufferConfig,
    p: BufferedPacket<T>,
    target: u32,
)
    requires
        c.bounds_fit(),
        c.initial_fits(),
        c.min_frames() <= c.initial_frames() <= c.max_frames(),
        target_in_bounds(s, c),
    ensures
        target_in_bounds(push_spec(s, p), c),
        target_in_bounds(pop_spec(s).0, c),
        target_in_bounds(adapt_spec(s, c, target), c),
        target_in_bounds(reset_spec(s, c), c),
{
    let f = (c.frame_size as u32) as int;
    let x = (c.max_delay_ms * c.sample_rate / 1000) as int;
    assert(x <= u32::MAX);
    assert(f >= 1);
    assert(x / f <= x) by (nonlinear_arith)
        requires
            f >= 1,
            x >= 0,
    ;
    assert(c.max_frames() <= u32::MAX);
    assert(c.min_frames() >= 0) by (nonlinear_arith)
        requires
            f >= 1,
            c.min_frames() == (c.min_delay_ms * c.sample_rate / 1000) as int / f,
            c.min_delay_ms * c.sample_rate / 1000 >= 0,
    ;
}

/// The default configuration keeps the target between 2 and 10 frames of
/// 10 ms, that is between 20 and 100 ms, starting at 4 frames.
pub proof fn law_default_bounds(c: JitterBufferConfig)
    requires
        c.min_delay_ms == 20,
        c.max_delay_ms == 100,
        c.initial_delay_ms == 40,
        c.frame_size == 480,
        c.sample_rate == 48000,
    ensures
        c.bounds_fit(),
        c.initial_fits(),
        c.min_frames() == 2,
        c.max_frames() == 10,
        c.initial_frames() == 4,
{
    assert(delay_frames(20, 48000, 480) == 2) by (nonlinear_arith);
    assert(delay_frames(100, 48000, 480) == 10) by (nonlinear_arith);
    assert(delay_frames(40, 48000, 480) == 4) by (nonlinear_arith);
}

/// Playback never rewinds: once a pop has handed out a packet the buffer
/// is playing, it stays playing through later pushes and pops, and while
/// it plays a push never moves the expected sequence number, so a late
/// packet numbered before it is not handed out ahead of the ones after.
pub proof fn law_playback_never_rewinds<T>(s: JitterView<T>, p: BufferedPacket<T>)
    ensures
        pop_spec(s).1 is Some ==> pop_spec(s).0.playing,
        pop_spec(s).1 is Some ==> push_spec(pop_spec(s).0, p).next_sequence == pop_spec(s).0.next_sequence,
        s.playing ==> push_spec(s, p).playing && pop_spec(s).0.playing,
        s.playing && s.next_sequence is Some ==> push_spec(s, p).next_sequence == s.next_sequence,
{
}

} // verus!
