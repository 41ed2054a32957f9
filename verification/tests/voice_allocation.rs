use multi_effect::voices::{grain_starts, note_off, note_on, NoteOnPlan, VoiceTag, MAX_VOICES};

fn notes(v: &[VoiceTag]) -> Vec<u8> {
    v.iter().map(|t| t.note).collect()
}

#[test]
fn new_notes_get_new_voices() {
    let mut v = Vec::new();
    assert_eq!(note_on(&mut v, 60), NoteOnPlan::Start { evict: None });
    assert_eq!(note_on(&mut v, 64), NoteOnPlan::Start { evict: None });
    assert_eq!(notes(&v), vec![60, 64]);
    assert!(v.iter().all(|t| t.sustaining && !t.silent));
}

#[test]
fn repeated_notes_retrigger() {
    let mut v = Vec::new();
    note_on(&mut v, 60);
    note_on(&mut v, 64);
    assert!(note_off(&mut v, 60));
    assert!(!v[0].sustaining);
    v[0].silent = true;
    assert_eq!(note_on(&mut v, 60), NoteOnPlan::Retrigger { index: 0 });
    assert_eq!(v[0], VoiceTag { note: 60, sustaining: true, silent: false });
    assert_eq!(v.len(), 2);
}

#[test]
fn full_list_steals_a_finished_voice_first() {
    let mut v = Vec::new();
    for n in 0..MAX_VOICES as u8 {
        note_on(&mut v, 40 + n);
    }
    note_off(&mut v, 43);
    v[3].silent = true;
    assert_eq!(note_on(&mut v, 90), NoteOnPlan::Start { evict: Some(3) });
    assert_eq!(v.len(), MAX_VOICES);
    assert_eq!(notes(&v), vec![40, 41, 42, 44, 45, 46, 47, 90]);
}

#[test]
fn full_list_steals_the_oldest_otherwise() {
    let mut v = Vec::new();
    for n in 0..MAX_VOICES as u8 {
        note_on(&mut v, 40 + n);
    }
    // Released but still sounding: not stealable before the oldest.
    note_off(&mut v, 45);
    assert_eq!(note_on(&mut v, 91), NoteOnPlan::Start { evict: Some(0) });
    assert_eq!(notes(&v), vec![41, 42, 43, 44, 45, 46, 47, 91]);
}

#[test]
fn note_off_of_an_unknown_note() {
    let mut v = Vec::new();
    note_on(&mut v, 60);
    assert!(!note_off(&mut v, 61));
    assert!(v[0].sustaining);
}

#[test]
fn grain_read_positions_wrap() {
    // 200 ms at 48 kHz, 50 ms grains.
    assert_eq!(grain_starts(5000, 9600, 2400, 1200), (200, 1400));
    assert_eq!(grain_starts(100, 9600, 2400, 1200), (4900, 6100));
    // Grains longer than the ring trail by n - 1.
    assert_eq!(grain_starts(3, 10, 64, 32), (4, 6));
    assert_eq!(grain_starts(0, 1, 64, 32), (0, 0));
}
