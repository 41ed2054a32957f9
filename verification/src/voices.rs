//! Voice allocation of the harmonizer: which voice a MIDI note plays on,
//! which voice is stolen when all are busy, and where a new voice starts
//! reading the input ring.
//!
//! Each voice is tracked by its note and its envelope phase; the audio of a
//! voice (pitch ratio, gains, read positions) stays with the caller, which
//! keeps its voice list in the same order as the tags here.

use vstd::prelude::*;

verus! {

/// Maximum number of simultaneous voices.
pub const MAX_VOICES: usize = 8;

/// What allocation reads of one voice.
#[derive(Debug, Clone, Copy, PartialEq, Eq, Structural)]
pub struct VoiceTag {
    /// MIDI note the voice plays.
    pub note: u8,
    /// The note is held (no note-off yet).
    pub sustaining: bool,
    /// The release fade has reached silence.
    pub silent: bool,
}

/// What a note-on does to the voice list.
#[derive(Debug, Clone, Copy, PartialEq, Eq, Structural)]
pub enum NoteOnPlan {
    /// The note already has the voice at `index`: restart its envelope there.
    Retrigger { index: usize },
    /// Start a new voice at the end of the list, after removing the voice at
    /// `evict` when the list is full.
    Start { evict: Option<usize> },
}

/// The voice list is within capacity and no note has two voices.
pub open spec fn voices_wf(v: Seq<VoiceTag>) -> bool {
    &&& v.len() <= MAX_VOICES
    &&& forall|i: int, j: int| 0 <= i < j < v.len() ==> v[i].note != v[j].note
}

/// A voice that can be stolen first: released and already silent.
pub open spec fn finished(t: VoiceTag) -> bool {
    !t.sustaining && t.silent
}

/// `i` is the first finished voice.
pub open spec fn is_first_finished(v: Seq<VoiceTag>, i: int) -> bool {
    &&& 0 <= i < v.len()
    &&& finished(v[i])
    &&& forall|k: int| 0 <= k < i ==> !finished(#[trigger] v[k])
}

/// The voice to evict from a full list: the first finished one, else the oldest.
pub open spec fn victim(v: Seq<VoiceTag>) -> int {
    if exists|i: int| is_first_finished(v, i) {
        choose|i: int| is_first_finished(v, i)
    } else {
        0
    }
}

/// The voice list after a note-on of `note`.
pub open spec fn note_on_spec(v: Seq<VoiceTag>, note: u8) -> (Seq<VoiceTag>, NoteOnPlan) {
    let fresh = VoiceTag { note, sustaining: true, silent: false };
    if exists|i: int| 0 <= i < v.len() && v[i].note == note {
        let i = choose|i: int| 0 <= i < v.len() && v[i].note == note;
        (v.update(i, fresh), NoteOnPlan::Retrigger { index: i as usize })
    } else if v.len() >= MAX_VOICES {
        let k = victim(v);
        (v.remove(k).push(fresh), NoteOnPlan::Start { evict: Some(k as usize) })
    } else {
        (v.push(fresh), NoteOnPlan::Start { evict: None })
    }
}

fn first_finished(v: &Vec<VoiceTag>) -> (r: Option<usize>)
    ensures
        match r {
            Some(i) => is_first_finished(v@, i as int),
            None => !exists|i: int| is_first_finished(v@, i),
        },
{
    let mut i: usize = 0;
    while i < v.len()
        invariant
            i <= v@.len(),
            forall|k: int| 0 <= k < i ==> !finished(#[trigger] v@[k]),
        decreases v.len() - i,
    {
        if !v[i].sustaining && v[i].silent {
            return Some(i);
        }
        i = i + 1;
    }
    assert(!exists|j: int| is_first_finished(v@, j)) by {
        if exists|j: int| is_first_finished(v@, j) {
            let j = choose|j: int| is_first_finished(v@, j);
            assert(!finished(v@[j]));
        }
    }
    None
}

/// A note-on: retrigger the note's voice if it has one, else start a new
/// voice, first stealing the first finished voice (or the oldest) when all
/// `MAX_VOICES` are busy.
pub fn note_on(voices: &mut Vec<VoiceTag>, note: u8) -> (r: NoteOnPlan)
    requires
        voices_wf(old(voices)@),
    ensures
        (final(voices)@, r) == note_on_spec(old(voices)@, note),
        voices_wf(final(voices)@),
{
    let fresh = VoiceTag { note, sustaining: true, silent: false };
    let mut i: usize = 0;
    while i < voices.len()
        invariant
            i <= voices@.len(),
            voices@ == old(voices)@,
            voices_wf(old(voices)@),
            fresh == (VoiceTag { note, sustaining: true, silent: false }),
            forall|k: int| 0 <= k < i ==> (#[trigger] voices@[k]).note != note,
        decreases voices.len() - i,
    {
        if voices[i].note == note {
            let ghost v = old(voices)@;
            proof {
                assert(v[i as int].note == note);
                let j = choose|j: int| 0 <= j < v.len() && v[j].note == note;
                assert(j == i as int) by {
                    if j != i as int {
                        if j < i {
                            assert(v[j].note != note);
                        } else {
                            assert(v[i as int].note != v[j].note);
                        }
                    }
                }
            }
            voices.set(i, fresh);
            proof {
                assert(voices@ =~= v.update(i as int, fresh));
                assert forall|a: int, b: int| 0 <= a < b < voices@.len() implies voices@[a].note
                    != voices@[b].note by {
                    if a == i as int {
                        assert(voices@[a] == fresh);
                    } else {
                        assert(voices@[a] == v[a]);
                    }
                    if b == i as int {
                        assert(voices@[b] == fresh);
                    } else {
                        assert(voices@[b] == v[b]);
                    }
                    assert(v[a].note != v[b].note);
                }
            }
            return NoteOnPlan::Retrigger { index: i };
        }
        i = i + 1;
    }
    let evict = if voices.len() >= MAX_VOICES {
        let k = match first_finished(voices) {
            Some(k) => k,
            None => 0,
        };
        voices.remove(k);
        Some(k)
    } else {
        None
    };
    voices.push(fresh);
    proof {
        let v = old(voices)@;
        assert forall|a: int, b: int| 0 <= a < b < voices@.len() implies voices@[a].note
            != voices@[b].note by {
            if b == voices@.len() - 1 {
                if evict is Some {
                    let k = evict->0 as int;
                    if a < k {
                        assert(voices@[a] == v[a]);
                    } else {
                        assert(voices@[a] == v[a + 1]);
                    }
                } else {
                    assert(voices@[a] == v[a]);
                }
            } else if evict is Some {
                let k = evict->0 as int;
                let ia = if a < k { a } else { a + 1 };
                let ib = if b < k { b } else { b + 1 };
                assert(voices@[a] == v[ia]);
                assert(voices@[b] == v[ib]);
            }
        }
        let (after, plan) = note_on_spec(v, note);
        if let Some(k) = evict {
            assert(victim(v) == k as int);
        }
        assert(voices@ =~= after);
    }
    NoteOnPlan::Start { evict }
}

/// A note-off: every voice of `note` starts its release. Returns whether
/// the note had a voice.
pub fn note_off(voices: &mut Vec<VoiceTag>, note: u8) -> (r: bool)
    requires
        voices_wf(old(voices)@),
    ensures
        voices_wf(final(voices)@),
        final(voices)@.len() == old(voices)@.len(),
        forall|i: int|
            0 <= i < old(voices)@.len() ==> #[trigger] final(voices)@[i] == (if old(voices)@[i].note
                == note {
                VoiceTag { sustaining: false, ..old(voices)@[i] }
            } else {
                old(voices)@[i]
            }),
        r == exists|i: int| 0 <= i < old(voices)@.len() && old(voices)@[i].note == note,
{
    let mut found = false;
    let mut i: usize = 0;
    while i < voices.len()
        invariant
            i <= voices@.len(),
            voices@.len() == old(voices)@.len(),
            forall|k: int|
                0 <= k < i ==> #[trigger] voices@[k] == (if old(voices)@[k].note == note {
                    VoiceTag { sustaining: false, ..old(voices)@[k] }
                } else {
                    old(voices)@[k]
                }),
            forall|k: int| i <= k < voices@.len() ==> #[trigger] voices@[k] == old(voices)@[k],
            found == exists|k: int| 0 <= k < i && old(voices)@[k].note == note,
        decreases voices.len() - i,
    {
        let t = voices[i];
        if t.note == note {
            voices.set(i, VoiceTag { sustaining: false, ..t });
            found = true;
        }
        i = i + 1;
    }
    proof {
        assert forall|a: int, b: int| 0 <= a < b < voices@.len() implies voices@[a].note
            != voices@[b].note by {
            assert(voices@[a].note == old(voices)@[a].note);
            assert(voices@[b].note == old(voices)@[b].note);
        }
    }
    found
}

// ---------------------------------------------------------------------------
// Read positions
// ---------------------------------------------------------------------------

/// Where a new voice starts reading a ring of `n` frames written up to
/// `write_pos`: grain A trails the write position by twice the grain
/// (at most `n - 1` frames), grain B is half a grain further on.
pub open spec fn grain_starts_spec(write_pos: int, n: int, grain: int, half: int) -> (int, int) {
    let behind = if 2 * grain < n - 1 {
        2 * grain
    } else {
        n - 1
    };
    let a = (write_pos + n - behind) % n;
    (a, (a + half) % n)
}

/// The starting read positions (grain A, grain B) of a new voice.
pub fn grain_starts(write_pos: usize, n: usize, grain: usize, half: usize) -> (r: (usize, usize))
    requires
        0 <= write_pos < n,
    ensures
        r.0 < n,
        r.1 < n,
        (r.0 as int, r.1 as int) == grain_starts_spec(write_pos as int, n as int, grain as int, half as int),
{
    let behind = if grain <= n - 1 && grain < (n - 1) - grain {
        2 * grain
    } else {
        n - 1
    };
    let a = if write_pos >= behind {
        write_pos - behind
    } else {
        write_pos + (n - behind)
    };
    let h = half % n;
    let b = if a >= n - h {
        a - (n - h)
    } else {
        a + h
    };
    proof {
        let wi = write_pos as int;
        let ni = n as int;
        let bi = behind as int;
        if write_pos >= behind {
            vstd::arithmetic::div_mod::lemma_mod_sub_multiples_vanish(wi + ni - bi, ni);
            vstd::arithmetic::div_mod::lemma_small_mod((wi - bi) as nat, ni as nat);
        } else {
            vstd::arithmetic::div_mod::lemma_small_mod((wi + ni - bi) as nat, ni as nat);
        }
        let ai = a as int;
        let hi = half as int;
        vstd::arithmetic::div_mod::lemma_fundamental_div_mod(hi, ni);
        vstd::arithmetic::div_mod::lemma_mod_add_multiples_vanish(ai + hi % ni, ni);
        vstd::arithmetic::div_mod::lemma_add_mod_noop(ai, hi, ni);
        vstd::arithmetic::div_mod::lemma_small_mod(ai as nat, ni as nat);
        vstd::arithmetic::div_mod::lemma_mod_bound(hi, ni);
        if a >= n - h {
            vstd::arithmetic::div_mod::lemma_mod_sub_multiples_vanish(ai + (h as int), ni);
            vstd::arithmetic::div_mod::lemma_small_mod((ai + (h as int) - ni) as nat, ni as nat);
        } else {
            vstd::arithmetic::div_mod::lemma_small_mod((ai + (h as int)) as nat, ni as nat);
        }
    }
    (a, b)
}

// ---------------------------------------------------------------------------
// Laws
// ---------------------------------------------------------------------------

/// A note-on always leaves exactly one voice for the note, and never more
/// than `MAX_VOICES` voices; the note's voice is held.
pub proof fn law_note_on_single_voice(v: Seq<VoiceTag>, note: u8)
    requires
        voices_wf(v),
    ensures
        ({
            let after = note_on_spec(v, note).0;
            &&& after.len() <= MAX_VOICES
            &&& exists|i: int|
                0 <= i < after.len() && after[i].note == note && after[i].sustaining && forall|
                    j: int,
                | 0 <= j < after.len() && j != i ==> after[j].note != note
        }),
{
    let fresh = VoiceTag { note, sustaining: true, silent: false };
    let after = note_on_spec(v, note).0;
    if exists|i: int| 0 <= i < v.len() && v[i].note == note {
        let i = choose|i: int| 0 <= i < v.len() && v[i].note == note;
        assert(after[i] == fresh);
        assert forall|j: int| 0 <= j < after.len() && j != i implies after[j].note != note by {
            assert(after[j] == v[j]);
            if j < i {
                assert(v[j].note != v[i].note);
            } else {
                assert(v[i].note != v[j].note);
            }
        }
    } else {
        let last = after.len() - 1;
        assert(after[last] == fresh);
        if v.len() >= MAX_VOICES {
            let k = victim(v);
            if exists|i: int| is_first_finished(v, i) {
                assert(is_first_finished(v, k));
            }
            assert forall|j: int| 0 <= j < after.len() && j != last implies after[j].note
                != note by {
                if j < k {
                    assert(after[j] == v[j]);
                } else {
                    assert(after[j] == v[j + 1]);
                }
            }
        } else {
            assert forall|j: int| 0 <= j < after.len() && j != last implies after[j].note
                != note by {
                assert(after[j] == v[j]);
            }
        }
    }
}

} // verus!
