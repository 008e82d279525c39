//! Voice activity gating: the attack and release hysteresis that turns
//! per-frame voice decisions into a voice-active state.

use vstd::prelude::*;

verus! {

/// The model of a voice gate.
pub struct GateView {
    pub attack_frames: usize,
    pub release_frames: usize,
    pub voice_active: bool,
    pub consecutive_voice: usize,
    pub consecutive_silence: usize,
}

/// A count advanced by one, stopping at the largest `usize`.
pub open spec fn bump(n: usize) -> usize {
    if n < usize::MAX {
        (n + 1) as usize
    } else {
        n
    }
}

/// Model of one frame: a voice frame counts towards turning voice on after
/// `attack_frames` in a row; a silent frame counts towards turning it off
/// after `release_frames` in a row.
pub open spec fn gate_step(g: GateView, is_voice: bool) -> GateView {
    if is_voice {
        let v = bump(g.consecutive_voice);
        GateView {
            consecutive_voice: v,
            consecutive_silence: 0,
            voice_active: g.voice_active || v >= g.attack_frames,
            ..g
        }
    } else {
        let s = bump(g.consecutive_silence);
        GateView {
            consecutive_silence: s,
            consecutive_voice: 0,
            voice_active: g.voice_active && !(s >= g.release_frames),
            ..g
        }
    }
}

/// Hysteresis over per-frame voice decisions.
#[derive(Debug, Clone, Copy)]
pub struct VoiceGate {
    attack_frames: usize,
    release_frames: usize,
    voice_active: bool,
    consecutive_voice: usize,
    consecutive_silence: usize,
}

impl View for VoiceGate {
    type V = GateView;

    closed spec fn view(&self) -> GateView {
        GateView {
            attack_frames: self.attack_frames,
            release_frames: self.release_frames,
            voice_active: self.voice_active,
            consecutive_voice: self.consecutive_voice,
            consecutive_silence: self.consecutive_silence,
        }
    }
}

impl VoiceGate {
    /// A silent gate.
    pub fn new(attack_frames: usize, release_frames: usize) -> (r: Self)
        ensures
            r@ == (GateView {
                attack_frames,
                release_frames,
                voice_active: false,
                consecutive_voice: 0,
                consecutive_silence: 0,
            }),
    {
        VoiceGate { attack_frames, release_frames, voice_active: false, consecutive_voice: 0, consecutive_silence: 0 }
    }

    /// Feed one frame's decision; returns whether voice is active after it.
    pub fn step(&mut self, is_voice: bool) -> (active: bool)
        ensures
            final(self)@ == gate_step(old(self)@, is_voice),
            active == final(self)@.voice_active,
    {
        if is_voice {
            if self.consecutive_voice < usize::MAX {
                self.consecutive_voice = self.consecutive_voice + 1;
            }
            self.consecutive_silence = 0;
            if !self.voice_active && self.consecutive_voice >= self.attack_frames {
                self.voice_active = true;
            }
        } else {
            if self.consecutive_silence < usize::MAX {
                self.consecutive_silence = self.consecutive_silence + 1;
            }
            self.consecutive_voice = 0;
            if self.voice_active && self.consecutive_silence >= self.release_frames {
                self.voice_active = false;
            }
        }
        self.voice_active
    }

    /// Whether voice is active.
    pub fn is_voice_active(&self) -> (r: bool)
        ensures
            r == self@.voice_active,
    {
        self.voice_active
    }

    /// Back to silent, with no frames counted.
    pub fn reset(&mut self)
        ensures
            final(self)@ == (GateView {
                voice_active: false,
                consecutive_voice: 0,
                consecutive_silence: 0,
                ..old(self)@
            }),
    {
        self.voice_active = false;
        self.consecutive_voice = 0;
        self.consecutive_silence = 0;
    }
}

/// Repeated steps with one decision.
pub open spec fn gate_run(g: GateView, is_voice: bool, n: nat) -> GateView
    decreases n,
{
    if n == 0 {
        g
    } else {
        gate_step(gate_run(g, is_voice, (n - 1) as nat), is_voice)
    }
}

proof fn lemma_gate_run_counts(g: GateView, is_voice: bool, n: nat)
    requires
        n <= 1000,
        g.consecutive_voice <= 1000,
        g.consecutive_silence <= 1000,
    ensures
        is_voice ==> gate_run(g, is_voice, n).consecutive_voice >= n,
        !is_voice ==> gate_run(g, is_voice, n).consecutive_silence >= n,
        gate_run(g, is_voice, n).consecutive_voice <= g.consecutive_voice + n,
        gate_run(g, is_voice, n).consecutive_silence <= g.consecutive_silence + n,
        gate_run(g, is_voice, n).attack_frames == g.attack_frames,
        gate_run(g, is_voice, n).release_frames == g.release_frames,
        is_voice && g.voice_active ==> gate_run(g, is_voice, n).voice_active,
        !is_voice && !g.voice_active ==> !gate_run(g, is_voice, n).voice_active,
    decreases n,
{
    if n > 0 {
        lemma_gate_run_counts(g, is_voice, (n - 1) as nat);
    }
}

/// Voice turns on after `attack_frames` voice frames in a row and off after
/// `release_frames` silent frames in a row (at least one frame either way);
/// a single frame of the other kind, after a run of the same kind, never
/// flips it when those counts are above one.
pub proof fn law_gate_hysteresis(g: GateView, n: nat)
    requires
        n <= 1000,
        g.consecutive_voice <= 1000,
        g.consecutive_silence <= 1000,
    ensures
        n >= 1 && n >= g.attack_frames ==> gate_run(g, true, n).voice_active,
        n >= 1 && n >= g.release_frames ==> !gate_run(g, false, n).voice_active,
        g.voice_active && g.release_frames > 1 && g.consecutive_silence == 0 ==> gate_step(g, false).voice_active,
        !g.voice_active && g.attack_frames > 1 && g.consecutive_voice == 0 ==> !gate_step(g, true).voice_active,
{
    lemma_gate_run_counts(g, true, n);
    lemma_gate_run_counts(g, false, n);
    if n > 0 {
        lemma_gate_run_counts(g, true, (n - 1) as nat);
        lemma_gate_run_counts(g, false, (n - 1) as nat);
    }
}

/// A run of silent frames from an active gate keeps it active while the
/// silent count stays below the release threshold, and counts every frame.
proof fn lemma_silent_run(h: GateView, k: nat)
    requires
        h.voice_active,
        h.consecutive_silence + k < h.release_frames,
    ensures
        gate_run(h, false, k).voice_active,
        gate_run(h, false, k).consecutive_silence == h.consecutive_silence + k,
        gate_run(h, false, k).release_frames == h.release_frames,
    decreases k,
{
    if k > 0 {
        lemma_silent_run(h, (k - 1) as nat);
    }
}

/// A run of voice frames from a silent gate keeps it silent while the voice
/// count stays below the attack threshold, and counts every frame.
proof fn lemma_voice_run(h: GateView, k: nat)
    requires
        !h.voice_active,
        h.consecutive_voice + k < h.attack_frames,
    ensures
        !gate_run(h, true, k).voice_active,
        gate_run(h, true, k).consecutive_voice == h.consecutive_voice + k,
        gate_run(h, true, k).attack_frames == h.attack_frames,
    decreases k,
{
    if k > 0 {
        lemma_voice_run(h, (k - 1) as nat);
    }
}

/// Silence must be uninterrupted to turn voice off: after a voice frame
/// that leaves voice active, fewer than `release_frames` silent frames
/// never turn it off, whatever silent frames came before the voice frame.
pub proof fn law_voice_frame_restarts_release(g: GateView, k: nat)
    requires
        gate_step(g, true).voice_active,
        k < g.release_frames,
    ensures
        gate_run(gate_step(g, true), false, k).voice_active,
{
    lemma_silent_run(gate_step(g, true), k);
}

/// Voice must be uninterrupted to turn voice on: after a silent frame that
/// leaves voice off, fewer than `attack_frames` voice frames never turn it
/// on, whatever voice frames came before the silent frame.
pub proof fn law_silent_frame_restarts_attack(g: GateView, k: nat)
    requires
        !gate_step(g, false).voice_active,
        k < g.attack_frames,
    ensures
        !gate_run(gate_step(g, false), true, k).voice_active,
{
    lemma_voice_run(gate_step(g, false), k);
}

} // verus!
