use multi_effect::device::EventAction;
use multi_effect::looper::{LooperOp, LooperState, LooperTransport, SampleAction, LOOP_FADE_SAMPLES, NAME};

fn run(t: &mut LooperTransport, action: EventAction) -> Vec<LooperOp> {
    let mut ops = Vec::new();
    t.dispatch_action(action, &mut ops);
    ops
}

fn tick(t: &mut LooperTransport) -> (SampleAction, Vec<LooperOp>) {
    let mut ops = Vec::new();
    let a = t.tick(&mut ops);
    (a, ops)
}

/// Record `n` samples from idle and close the loop with `play`.
fn recorded_loop(n: usize, max_buffers: usize) -> LooperTransport {
    let mut t = LooperTransport::new(1000, max_buffers);
    run(&mut t, EventAction::Rec);
    for _ in 0..n {
        tick(&mut t);
    }
    run(&mut t, EventAction::Play);
    t
}

#[test]
fn new_transport_is_idle() {
    let t = LooperTransport::new(480, 4);
    assert_eq!(t.state(), LooperState::Idle);
    assert_eq!(t.position(), 0);
    assert_eq!(t.loop_len(), 0);
    assert_eq!(t.overdub_count(), 0);
    assert_eq!(t.buffer_count(t.state()), 0);
    assert_eq!(NAME, "looper");
}

#[test]
fn rec_from_idle_starts_recording_and_publishes() {
    let mut t = LooperTransport::new(480, 4);
    let ops = run(&mut t, EventAction::Rec);
    assert_eq!(t.state(), LooperState::Recording);
    assert_eq!(ops, vec![LooperOp::FireState { state: LooperState::Recording, pos: 0 }]);
}

#[test]
fn recording_bakes_a_fade_in_ramp() {
    let mut t = LooperTransport::new(480, 4);
    run(&mut t, EventAction::Rec);
    let mut gains = Vec::new();
    for _ in 0..10 {
        match tick(&mut t).0 {
            SampleAction::Record { gain, .. } => gains.push(gain),
            other => panic!("unexpected {:?}", other),
        }
    }
    assert_eq!(gains, vec![1, 2, 3, 4, 5, 6, 7, 8, 8, 8]);
    assert_eq!(t.position(), 10);
    assert_eq!(LOOP_FADE_SAMPLES, 8);
}

#[test]
fn play_after_recording_closes_the_loop() {
    let mut t = LooperTransport::new(1000, 4);
    run(&mut t, EventAction::Rec);
    for _ in 0..100 {
        tick(&mut t);
    }
    let ops = run(&mut t, EventAction::Play);
    assert_eq!(t.state(), LooperState::Playing);
    assert_eq!(t.loop_len(), 100);
    assert_eq!(t.position(), 0);
    assert_eq!(
        ops,
        vec![
            LooperOp::BakeFadeOut { layer: 0, start: 92, count: 8 },
            LooperOp::ResizeMergeBuf { len: 100 },
            LooperOp::FireState { state: LooperState::Playing, pos: 0 },
        ]
    );
    assert_eq!(t.buffer_count(t.state()), 1);
}

#[test]
fn short_loop_fades_over_half_its_length() {
    let mut t = LooperTransport::new(1000, 4);
    run(&mut t, EventAction::Rec);
    for _ in 0..6 {
        tick(&mut t);
    }
    let ops = run(&mut t, EventAction::Play);
    assert_eq!(ops[0], LooperOp::BakeFadeOut { layer: 0, start: 3, count: 3 });
}

#[test]
fn play_right_after_rec_makes_a_one_sample_loop() {
    let mut t = LooperTransport::new(1000, 4);
    run(&mut t, EventAction::Rec);
    run(&mut t, EventAction::Play);
    assert_eq!(t.loop_len(), 1);
}

#[test]
fn playback_wraps_at_loop_end() {
    let mut t = recorded_loop(3, 4);
    let (a0, ops0) = tick(&mut t);
    assert_eq!(a0, SampleAction::Play { pos: 0, layers: 1, gain: 8 });
    assert!(ops0.is_empty());
    tick(&mut t);
    let (_, ops2) = tick(&mut t);
    assert_eq!(ops2, vec![LooperOp::LoopWrap]);
    assert_eq!(t.position(), 0);
}

#[test]
fn full_base_buffer_stops_recording() {
    let mut t = LooperTransport::new(4, 4);
    run(&mut t, EventAction::Rec);
    for _ in 0..4 {
        tick(&mut t);
    }
    let (a, ops) = tick(&mut t);
    assert_eq!(a, SampleAction::PassThrough);
    assert_eq!(t.state(), LooperState::Stop);
    assert_eq!(t.loop_len(), 4);
    assert_eq!(t.position(), 0);
    assert_eq!(
        ops,
        vec![
            LooperOp::BakeFadeOut { layer: 0, start: 2, count: 2 },
            LooperOp::ResizeMergeBuf { len: 4 },
            LooperOp::FireState { state: LooperState::Stop, pos: 0 },
        ]
    );
}

#[test]
fn rec_while_playing_starts_an_overdub_layer() {
    let mut t = recorded_loop(50, 4);
    tick(&mut t);
    let ops = run(&mut t, EventAction::Rec);
    assert_eq!(t.state(), LooperState::Overdub);
    assert_eq!(t.position(), 1);
    assert_eq!(
        ops,
        vec![
            LooperOp::AllocLayer { index: 1, len: 50 },
            LooperOp::FireState { state: LooperState::Overdub, pos: 1 },
        ]
    );
    let (a, _) = tick(&mut t);
    assert_eq!(a, SampleAction::Overdub { pos: 1, rec: 1, rec_gain: 2, layers: 1, gain: 8 });
}

#[test]
fn overdub_then_play_commits_the_layer() {
    let mut t = recorded_loop(50, 4);
    run(&mut t, EventAction::Rec);
    let ops = run(&mut t, EventAction::Play);
    assert_eq!(t.state(), LooperState::Playing);
    assert_eq!(t.overdub_count(), 1);
    assert_eq!(t.buffer_count(t.state()), 2);
    assert_eq!(
        ops,
        vec![
            LooperOp::BakeFadeOut { layer: 1, start: 42, count: 8 },
            LooperOp::FireState { state: LooperState::Playing, pos: 0 },
        ]
    );
}

#[test]
fn full_stack_merges_the_two_oldest_layers() {
    // Stack of 2: base + one overdub; a second overdub merges first.
    let mut t = recorded_loop(20, 2);
    run(&mut t, EventAction::Rec);
    run(&mut t, EventAction::Play);
    assert_eq!(t.overdub_count(), 1);
    let ops = run(&mut t, EventAction::Rec);
    assert_eq!(t.state(), LooperState::Overdub);
    assert_eq!(t.overdub_count(), 0);
    assert_eq!(
        ops,
        vec![
            LooperOp::AllocLayer { index: 2, len: 20 },
            LooperOp::SwapMergeIntoBase,
            LooperOp::RotateLayersLeft { last: 2 },
            LooperOp::ZeroLayer { index: 2 },
            LooperOp::RebuildMergeBuf { len: 20, n: 20 },
            LooperOp::FireState { state: LooperState::Overdub, pos: 0 },
        ]
    );
    assert!(t.buffer_count(t.state()) <= 2);
}

#[test]
fn undo_cancels_the_overdub_in_progress() {
    let mut t = recorded_loop(30, 4);
    run(&mut t, EventAction::Rec);
    let ops = run(&mut t, EventAction::Undo);
    assert_eq!(t.state(), LooperState::Playing);
    assert_eq!(t.overdub_count(), 0);
    assert_eq!(
        ops,
        vec![
            LooperOp::ZeroLayer { index: 1 },
            LooperOp::FireState { state: LooperState::Playing, pos: 0 },
        ]
    );
}

#[test]
fn rec_then_undo_restores_playing_state() {
    let mut t = recorded_loop(30, 4);
    for _ in 0..7 {
        tick(&mut t);
    }
    let before = (t.position(), t.loop_len(), t.overdub_count());
    run(&mut t, EventAction::Rec);
    run(&mut t, EventAction::Undo);
    assert_eq!(t.state(), LooperState::Playing);
    assert_eq!((t.position(), t.loop_len(), t.overdub_count()), before);
}

#[test]
fn undo_removes_the_last_completed_layer() {
    let mut t = recorded_loop(30, 4);
    run(&mut t, EventAction::Rec);
    run(&mut t, EventAction::Play);
    let ops = run(&mut t, EventAction::Undo);
    assert_eq!(t.overdub_count(), 0);
    assert_eq!(
        ops,
        vec![
            LooperOp::ZeroLayer { index: 1 },
            LooperOp::FireState { state: LooperState::Playing, pos: 0 },
        ]
    );
}

#[test]
fn undo_while_idle_does_nothing() {
    let mut t = LooperTransport::new(100, 4);
    let ops = run(&mut t, EventAction::Undo);
    assert!(ops.is_empty());
    assert_eq!(t.state(), LooperState::Idle);
}

#[test]
fn pause_fades_out_then_stops_keeping_position() {
    let mut t = recorded_loop(100, 4);
    for _ in 0..10 {
        tick(&mut t);
    }
    let ops = run(&mut t, EventAction::Pause);
    assert_eq!(ops, vec![LooperOp::FireState { state: LooperState::Stop, pos: 10 }]);
    assert_eq!(t.state(), LooperState::Playing);
    let mut gains = Vec::new();
    while t.state() == LooperState::Playing {
        if let (SampleAction::Play { gain, .. }, _) = tick(&mut t) {
            gains.push(gain);
        }
    }
    assert_eq!(gains, vec![8, 7, 6, 5, 4, 3, 2, 1]);
    assert_eq!(t.state(), LooperState::Stop);
    assert_eq!(t.position(), 17);
}

#[test]
fn stop_rewinds_to_zero() {
    let mut t = recorded_loop(100, 4);
    for _ in 0..10 {
        tick(&mut t);
    }
    let ops = run(&mut t, EventAction::Stop);
    assert_eq!(ops, vec![LooperOp::FireState { state: LooperState::Stop, pos: 0 }]);
    assert_eq!(t.position(), 0);
}

#[test]
fn play_from_stop_fades_in() {
    let mut t = LooperTransport::new(1000, 4);
    run(&mut t, EventAction::Rec);
    for _ in 0..40 {
        tick(&mut t);
    }
    run(&mut t, EventAction::Stop);
    assert_eq!(t.state(), LooperState::Stop);
    run(&mut t, EventAction::Play);
    let (a, _) = tick(&mut t);
    assert_eq!(a, SampleAction::Play { pos: 0, layers: 1, gain: 0 });
    let (b, _) = tick(&mut t);
    assert_eq!(b, SampleAction::Play { pos: 1, layers: 1, gain: 1 });
}

#[test]
fn reset_forgets_everything() {
    let mut t = recorded_loop(30, 4);
    run(&mut t, EventAction::Rec);
    let ops = run(&mut t, EventAction::Reset);
    assert_eq!(t.state(), LooperState::Idle);
    assert_eq!(t.loop_len(), 0);
    assert_eq!(t.overdub_count(), 0);
    assert_eq!(t.position(), 0);
    assert_eq!(t.buffer_count(t.state()), 0);
    assert_eq!(
        ops,
        vec![
            LooperOp::TruncateLayers { keep: 1 },
            LooperOp::ZeroLayer { index: 0 },
            LooperOp::ClearMergeBuf,
            LooperOp::FireState { state: LooperState::Idle, pos: 0 },
        ]
    );
}

#[test]
fn combined_verbs_resolve_against_state() {
    let mut t = LooperTransport::new(1000, 4);
    run(&mut t, EventAction::RecPlayStop);
    assert_eq!(t.state(), LooperState::Recording);
    for _ in 0..20 {
        tick(&mut t);
    }
    run(&mut t, EventAction::RecPlayStop);
    assert_eq!(t.state(), LooperState::Playing);
    run(&mut t, EventAction::RecPlayStop);
    assert!(t.position() == 0);
    // PlayStop is a no-op while idle.
    let mut idle = LooperTransport::new(10, 4);
    assert!(run(&mut idle, EventAction::PlayStop).is_empty());
    assert_eq!(idle.state(), LooperState::Idle);
    // PauseStopReset on a stopped transport at position 0 resets it.
    let mut s = LooperTransport::new(1000, 4);
    run(&mut s, EventAction::Rec);
    for _ in 0..5 {
        tick(&mut s);
    }
    run(&mut s, EventAction::Stop);
    run(&mut s, EventAction::PauseStopReset);
    assert_eq!(s.state(), LooperState::Idle);
}

#[test]
fn set_action_checks_the_parameter_name() {
    let mut t = LooperTransport::new(100, 4);
    let mut ops = Vec::new();
    let err = t.set_action("play", EventAction::Rec, &mut ops).unwrap_err();
    assert_eq!(err, "looper: action param 'play' != verb 'rec'");
    assert!(ops.is_empty());
    assert_eq!(t.state(), LooperState::Idle);
    assert!(t.set_action("rec", EventAction::Rec, &mut ops).is_ok());
    assert_eq!(t.state(), LooperState::Recording);
}

#[test]
fn the_action_parameter_takes_every_verb() {
    let mut t = LooperTransport::new(100, 4);
    let mut ops = Vec::new();
    assert!(t.set_action("action", EventAction::Rec, &mut ops).is_ok());
    assert_eq!(t.state(), LooperState::Recording);
    assert!(t.set_action("action", EventAction::Play, &mut ops).is_ok());
    assert_eq!(t.state(), LooperState::Playing);
    assert!(t.set_action("action", EventAction::Reset, &mut ops).is_ok());
    assert_eq!(t.state(), LooperState::Idle);
}

#[test]
fn seek_moves_the_playhead() {
    let mut t = recorded_loop(100, 4);
    t.seek(42);
    assert_eq!(t.position(), 42);
    let (a, _) = tick(&mut t);
    assert_eq!(a, SampleAction::Play { pos: 42, layers: 1, gain: 8 });
}

#[test]
fn a_one_layer_stack_records_and_plays_but_cannot_overdub() {
    let mut t = LooperTransport::new(1000, 1);
    assert!(t.overdub_has_room(EventAction::Rec));
    let mut t2 = recorded_loop(50, 1);
    assert_eq!(t2.state(), LooperState::Playing);
    assert_eq!(t2.buffer_count(t2.state()), 1);
    assert!(!t2.overdub_has_room(EventAction::Rec));
    assert!(!t2.overdub_has_room(EventAction::RecPause));
    assert!(t2.overdub_has_room(EventAction::Stop));
    run(&mut t2, EventAction::Stop);
    assert!(!t2.overdub_has_room(EventAction::Rec));
    run(&mut t, EventAction::Reset);
    assert_eq!(t.state(), LooperState::Idle);
}
