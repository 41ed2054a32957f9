//! The looper's transport: the state machine that decides, for every button
//! press and every audio sample, what happens to the layer stack.
//!
//! The audio data itself lives with the caller. The transport keeps the
//! shape of the layer stack (the length of every layer buffer and of the
//! merge buffer) and answers each step with the list of buffer operations
//! and notifications the caller performs, in order.
//!
//! Layer terminology: layer 0 is the base recording; layers
//! `1..=overdub_count` are completed overdubs; during `Overdub`, layer
//! `1 + overdub_count` is being recorded. Fade gains are counted in eighths
//! (`LOOP_FADE_SAMPLES` steps from silent to full).

use vstd::prelude::*;
use crate::device::EventAction;
use crate::text::{append_str, str_eq};

verus! {

/// Number of samples of the fade ramps (eighths of full gain per sample).
pub const LOOP_FADE_SAMPLES: usize = 8;

/// Effect type name.
pub const NAME: &'static str = "looper";

/// Transport state.
#[derive(Debug, Clone, Copy, PartialEq, Eq, Structural)]
pub enum LooperState {
    Idle,
    Recording,
    Playing,
    Overdub,
    Stop,
}

/// One buffer operation or notification requested of the caller.
#[derive(Debug, Clone, Copy, PartialEq, Eq, Structural)]
pub enum LooperOp {
    /// Multiply samples `start + k` (k < `count`) of layer `layer` by
    /// `(count - k) / 8`, skipping positions past the layer's end.
    BakeFadeOut { layer: usize, start: usize, count: usize },
    /// Replace the merge buffer by `len` silent frames.
    ResizeMergeBuf { len: usize },
    /// Empty the merge buffer.
    ClearMergeBuf,
    /// Replace layer `index` by `len` silent frames, or append such a layer
    /// when `index` equals the layer count.
    AllocLayer { index: usize, len: usize },
    /// Exchange the merge buffer and layer 0.
    SwapMergeIntoBase,
    /// Add the first `n` frames of layer 1 into layer 0.
    AddLayer1IntoBase { n: usize },
    /// Rotate layers `1..=last` left by one (layer 1 ends up at `last`).
    RotateLayersLeft { last: usize },
    /// Silence every frame of layer `index`.
    ZeroLayer { index: usize },
    /// Drop every layer from `keep` on.
    TruncateLayers { keep: usize },
    /// Replace the merge buffer by `len` silent frames, then set its first
    /// `n` frames to layer 0 + layer 1.
    RebuildMergeBuf { len: usize, n: usize },
    /// Publish the transport state `state` at position `pos`.
    FireState { state: LooperState, pos: usize },
    /// Publish that playback wrapped to the loop start.
    LoopWrap,
}

/// What the caller does with the current audio sample.
#[derive(Debug, Clone, Copy, PartialEq, Eq, Structural)]
pub enum SampleAction {
    /// Output the incoming effect signal unchanged.
    PassThrough,
    /// Store the input, scaled by `gain`/8, at position `pos` of layer 0.
    Record { pos: usize, gain: u8 },
    /// Add the sum of layers `0..layers` at `pos`, scaled by wet and `gain`/8.
    Play { pos: usize, layers: usize, gain: u8 },
    /// Overdub at `pos`: decay layers `0..=rec`, read layer `rec`, add the
    /// input scaled by `rec_gain`/8 into layer `rec`, keep the merge buffer
    /// equal to layer 0 + layer 1, and output the sum of layers `0..layers`
    /// plus the previous content of layer `rec`, scaled by wet and `gain`/8.
    Overdub { pos: usize, rec: usize, rec_gain: u8, layers: usize, gain: u8 },
}

/// The looper transport.
#[derive(Debug)]
pub struct LooperTransport {
    state: LooperState,
    current_pos: usize,
    loop_len: usize,
    overdub_count: usize,
    max_buffers: usize,
    layer_lens: Vec<usize>,
    merge_len: usize,
    fade_gain: u8,
    fade_delta: i8,
    stopping: bool,
}

/// Abstract value of the transport.
pub struct LooperView {
    pub state: LooperState,
    pub pos: usize,
    pub loop_len: usize,
    pub overdub_count: usize,
    pub max_buffers: usize,
    pub layer_lens: Seq<usize>,
    pub merge_len: usize,
    pub fade_gain: u8,
    pub fade_delta: i8,
    pub stopping: bool,
}

impl View for LooperTransport {
    type V = LooperView;

    closed spec fn view(&self) -> LooperView {
        LooperView {
            state: self.state,
            pos: self.current_pos,
            loop_len: self.loop_len,
            overdub_count: self.overdub_count,
            max_buffers: self.max_buffers,
            layer_lens: self.layer_lens@,
            merge_len: self.merge_len,
            fade_gain: self.fade_gain,
            fade_delta: self.fade_delta,
            stopping: self.stopping,
        }
    }
}

// ---------------------------------------------------------------------------
// Well-formedness
// ---------------------------------------------------------------------------

/// Shape facts that hold in every state: a base layer exists, lengths and
/// the position leave room for one more sample, and the fade is in range.
pub open spec fn stack_ok(v: LooperView) -> bool {
    &&& 1 <= v.layer_lens.len() <= usize::MAX
    &&& forall|i: int| 0 <= i < v.layer_lens.len() ==> #[trigger] v.layer_lens[i] < usize::MAX
    &&& v.loop_len < usize::MAX
    &&& v.pos < usize::MAX
    &&& v.fade_gain <= 8
    &&& -1 <= v.fade_delta <= 1
}

/// Layers in use: the base, the completed overdubs and, while overdubbing,
/// the layer being recorded.
pub open spec fn layers_in_use(v: LooperView) -> int {
    v.overdub_count + if v.state == LooperState::Overdub {
        2int
    } else {
        1int
    }
}

/// The invariant of the transport.
pub open spec fn looper_wf(v: LooperView) -> bool {
    &&& stack_ok(v)
    &&& layers_in_use(v) <= v.layer_lens.len()
    &&& v.max_buffers >= 1 ==> layers_in_use(v) <= v.max_buffers
    &&& v.state == LooperState::Idle ==> v.overdub_count == 0 && v.loop_len == 0
    &&& v.state == LooperState::Recording ==> v.loop_len == 0 && v.pos <= v.layer_lens[0]
}

/// The number of layers shown to the user: none while idle, otherwise the
/// base recording plus the completed overdubs.
pub open spec fn buffer_count_spec(state: LooperState, overdub_count: usize) -> int {
    if state == LooperState::Idle {
        0
    } else {
        1 + overdub_count
    }
}

// ---------------------------------------------------------------------------
// Specification of the steps
// ---------------------------------------------------------------------------

pub open spec fn min_usize(a: usize, b: usize) -> usize {
    if a <= b {
        a
    } else {
        b
    }
}

/// Notification of the current state and position.
pub open spec fn fire_state_spec(v: LooperView) -> Seq<LooperOp> {
    seq![LooperOp::FireState { state: v.state, pos: v.pos }]
}

/// Start a fade-in from silence.
pub open spec fn fade_in_spec(v: LooperView) -> LooperView {
    LooperView { fade_gain: 0, fade_delta: 1, ..v }
}

/// Start a fade-out towards a stop.
pub open spec fn fade_out_spec(v: LooperView) -> LooperView {
    LooperView { fade_gain: 8, fade_delta: -1i8, stopping: true, ..v }
}

/// Bake a fade-out into the last `min(8, loop_len / 2)` samples of a layer.
pub open spec fn bake_spec(v: LooperView, layer: usize) -> Seq<LooperOp> {
    let fade = min_usize(LOOP_FADE_SAMPLES, v.loop_len / 2);
    seq![LooperOp::BakeFadeOut { layer, start: (v.loop_len - fade) as usize, count: fade }]
}

/// Size the merge buffer to the loop, if a loop exists and it is not sized yet.
pub open spec fn init_merge_spec(v: LooperView) -> (LooperView, Seq<LooperOp>) {
    if v.loop_len > 0 && v.merge_len != v.loop_len {
        (LooperView { merge_len: v.loop_len, ..v }, seq![LooperOp::ResizeMergeBuf { len: v.loop_len }])
    } else {
        (v, Seq::empty())
    }
}

/// Give layer `idx` a fresh silent buffer of loop length.
pub open spec fn alloc_layer_spec(v: LooperView, idx: usize) -> (LooperView, Seq<LooperOp>) {
    let lens = if idx < v.layer_lens.len() {
        v.layer_lens.update(idx as int, v.loop_len)
    } else {
        v.layer_lens.push(v.loop_len)
    };
    (LooperView { layer_lens: lens, ..v }, seq![LooperOp::AllocLayer { index: idx, len: v.loop_len }])
}

/// Commit the layer being recorded: bake its fade-out and count it.
pub open spec fn finish_overdub_spec(v: LooperView) -> (LooperView, Seq<LooperOp>) {
    let ops1 = bake_spec(v, (1 + v.overdub_count) as usize);
    let v1 = LooperView { overdub_count: (v.overdub_count + 1) as usize, ..v };
    let (v2, ops2) = init_merge_spec(v1);
    (v2, ops1 + ops2)
}

/// Make sure layer `idx` exists (at most one layer is missing): the new
/// layer lengths and the allocation requested, if any.
pub open spec fn ensure_layer_spec(v: LooperView, idx: int) -> (Seq<usize>, Seq<LooperOp>) {
    if v.layer_lens.len() <= idx {
        (
            v.layer_lens.push(v.loop_len),
            seq![LooperOp::AllocLayer { index: v.layer_lens.len() as usize, len: v.loop_len }],
        )
    } else {
        (v.layer_lens, Seq::empty())
    }
}

/// Lengths after rotating entries `1..=last` left by one.
pub open spec fn rotated_lens(lens: Seq<usize>, last: int) -> Seq<usize> {
    lens.take(1) + lens.subrange(2, last + 1) + seq![lens[1]] + lens.skip(last + 1)
}

/// Collapse layers 0 and 1 when the stack is full.
pub open spec fn merge_spec(v: LooperView) -> (LooperView, Seq<LooperOp>) {
    if v.overdub_count < 1 {
        (v, Seq::empty())
    } else {
        let total = 1 + v.overdub_count;
        let (lens0, ops0) = ensure_layer_spec(v, total);
        let (lens1, merge1, op1) = if v.merge_len == v.loop_len {
            (lens0.update(0, v.merge_len), lens0[0], LooperOp::SwapMergeIntoBase)
        } else {
            (
                lens0,
                v.merge_len,
                LooperOp::AddLayer1IntoBase {
                    n: min_usize(min_usize(v.loop_len, lens0[0]), lens0[1]),
                },
            )
        };
        let lens2 = rotated_lens(lens1, total);
        let n = min_usize(min_usize(v.loop_len, lens2[0]), lens2[1]);
        let ops = ops0 + seq![
            op1,
            LooperOp::RotateLayersLeft { last: total as usize },
            LooperOp::ZeroLayer { index: total as usize },
            LooperOp::RebuildMergeBuf { len: v.loop_len, n },
        ];
        (
            LooperView {
                layer_lens: lens2,
                merge_len: v.loop_len,
                overdub_count: (v.overdub_count - 1) as usize,
                ..v
            },
            ops,
        )
    }
}

/// Start recording a new overdub layer, merging the two oldest layers first
/// when the stack is full.
pub open spec fn start_overdub_spec(v: LooperView) -> (LooperView, Seq<LooperOp>) {
    let need = (1 + v.overdub_count) as usize;
    let at_max = v.max_buffers > 0 && need >= v.max_buffers;
    let (v2, ops) = if at_max {
        merge_spec(v)
    } else {
        let (v1, ops1) = alloc_layer_spec(v, need);
        let (v2, ops2) = init_merge_spec(v1);
        (v2, ops1 + ops2)
    };
    (LooperView { state: LooperState::Overdub, ..v2 }, ops)
}

/// The `rec` primitive.
pub open spec fn rec_spec(v: LooperView) -> (LooperView, Seq<LooperOp>) {
    let (v2, ops) = match v.state {
        LooperState::Idle => (
            LooperView {
                overdub_count: 0,
                loop_len: 0,
                pos: 0,
                state: LooperState::Recording,
                ..v
            },
            Seq::empty(),
        ),
        LooperState::Stop | LooperState::Recording => {
            let v1 = LooperView {
                loop_len: if v.loop_len == 0 {
                    v.pos
                } else {
                    v.loop_len
                },
                pos: 0,
                ..v
            };
            let (v2, ops2) = start_overdub_spec(v1);
            (fade_in_spec(v2), ops2)
        },
        LooperState::Playing => start_overdub_spec(v),
        LooperState::Overdub => {
            let (v1, ops1) = finish_overdub_spec(v);
            let (v2, ops2) = start_overdub_spec(v1);
            (v2, ops1 + ops2)
        },
    };
    if v2.state == LooperState::Recording || v2.state == LooperState::Overdub {
        (v2, ops + fire_state_spec(v2))
    } else {
        (v2, ops)
    }
}

/// The `play` primitive.
pub open spec fn play_spec(v: LooperView) -> (LooperView, Seq<LooperOp>) {
    let (v2, ops) = match v.state {
        LooperState::Recording => {
            let len = if v.pos >= 1 {
                v.pos
            } else {
                1
            };
            let v1 = LooperView { loop_len: len, ..v };
            let ops1 = bake_spec(v1, 0);
            let v2 = LooperView {
                overdub_count: 0,
                pos: 0,
                state: LooperState::Playing,
                ..v1
            };
            let (v3, ops3) = init_merge_spec(v2);
            (v3, ops1 + ops3)
        },
        LooperState::Stop => if v.loop_len > 0 {
            (fade_in_spec(LooperView { state: LooperState::Playing, ..v }), Seq::empty())
        } else {
            (v, Seq::empty())
        },
        LooperState::Overdub => {
            let (v1, ops1) = finish_overdub_spec(v);
            (LooperView { state: LooperState::Playing, ..v1 }, ops1)
        },
        _ => (v, Seq::empty()),
    };
    if v2.state == LooperState::Playing {
        (v2, ops + fire_state_spec(v2))
    } else {
        (v2, ops)
    }
}

/// End a recording: the loop is what was recorded so far (at least one sample).
pub open spec fn close_recording_spec(v: LooperView) -> (LooperView, Seq<LooperOp>) {
    let len = if v.pos >= 1 {
        v.pos
    } else {
        1
    };
    let v1 = LooperView { loop_len: len, ..v };
    let ops1 = bake_spec(v1, 0);
    let (v2, ops2) = init_merge_spec(v1);
    (LooperView { state: LooperState::Stop, ..v2 }, ops1 + ops2)
}

/// The `pause` primitive: stop at the current position.
pub open spec fn pause_spec(v: LooperView) -> (LooperView, Seq<LooperOp>) {
    match v.state {
        LooperState::Recording => {
            let (v2, ops) = close_recording_spec(v);
            (v2, ops + fire_state_spec(v2))
        },
        LooperState::Playing | LooperState::Overdub => {
            let v2 = fade_out_spec(v);
            (v2, seq![LooperOp::FireState { state: LooperState::Stop, pos: v2.pos }])
        },
        _ => if v.state == LooperState::Stop {
            (v, fire_state_spec(v))
        } else {
            (v, Seq::empty())
        },
    }
}

/// The `stop` primitive: halt and return to position 0.
pub open spec fn stop_spec(v: LooperView) -> (LooperView, Seq<LooperOp>) {
    match v.state {
        LooperState::Idle => (v, Seq::empty()),
        LooperState::Stop => {
            let v2 = LooperView { pos: 0, ..v };
            (v2, fire_state_spec(v2))
        },
        LooperState::Recording => {
            let (v1, ops1) = close_recording_spec(v);
            let v2 = LooperView { pos: 0, ..v1 };
            (v2, ops1 + fire_state_spec(v2))
        },
        _ => {
            let v2 = LooperView { pos: 0, ..fade_out_spec(v) };
            (v2, seq![LooperOp::FireState { state: LooperState::Stop, pos: 0 }])
        },
    }
}

/// The `reset` primitive: forget the loop, keep only the base buffer.
pub open spec fn reset_spec(v: LooperView) -> (LooperView, Seq<LooperOp>) {
    let v2 = LooperView {
        state: LooperState::Idle,
        pos: 0,
        loop_len: 0,
        overdub_count: 0,
        stopping: false,
        fade_gain: 8,
        fade_delta: 0,
        layer_lens: v.layer_lens.take(1),
        merge_len: 0,
        ..v
    };
    (
        v2,
        seq![
            LooperOp::TruncateLayers { keep: 1 },
            LooperOp::ZeroLayer { index: 0 },
            LooperOp::ClearMergeBuf,
        ] + fire_state_spec(v2),
    )
}

/// The `undo` primitive: drop the overdub in progress, or the last completed one.
pub open spec fn undo_spec(v: LooperView) -> (LooperView, Seq<LooperOp>) {
    match v.state {
        LooperState::Idle | LooperState::Recording => (v, Seq::empty()),
        LooperState::Overdub => {
            let v2 = LooperView {
                stopping: false,
                fade_gain: 8,
                fade_delta: 0,
                state: LooperState::Playing,
                ..v
            };
            (
                v2,
                seq![LooperOp::ZeroLayer { index: (1 + v.overdub_count) as usize }]
                    + fire_state_spec(v2),
            )
        },
        _ => if v.overdub_count > 0 {
            let v1 = LooperView { overdub_count: (v.overdub_count - 1) as usize, ..v };
            let (v2, ops2) = init_merge_spec(v1);
            (
                v2,
                seq![LooperOp::ZeroLayer { index: v.overdub_count }] + ops2 + fire_state_spec(v2),
            )
        } else {
            (v, fire_state_spec(v))
        },
    }
}

/// The primitive a transport verb resolves to in a given state, if any.
pub open spec fn resolve_action(action: EventAction, state: LooperState, pos: usize) -> Option<EventAction> {
    match action {
        EventAction::Rec | EventAction::Play | EventAction::Pause | EventAction::Stop
        | EventAction::Reset | EventAction::Undo => Some(action),
        EventAction::PauseStopReset => match state {
            LooperState::Idle => None,
            LooperState::Stop => if pos > 0 {
                Some(EventAction::Stop)
            } else {
                Some(EventAction::Reset)
            },
            _ => Some(EventAction::Pause),
        },
        EventAction::RecPlay => match state {
            LooperState::Recording | LooperState::Overdub => Some(EventAction::Play),
            _ => Some(EventAction::Rec),
        },
        EventAction::RecPlayStop => match state {
            LooperState::Idle | LooperState::Stop => Some(EventAction::Rec),
            LooperState::Recording | LooperState::Overdub => Some(EventAction::Play),
            LooperState::Playing => Some(EventAction::Stop),
        },
        EventAction::RecPlayStopPlay => match state {
            LooperState::Idle => Some(EventAction::Rec),
            LooperState::Recording | LooperState::Overdub | LooperState::Stop => Some(
                EventAction::Play,
            ),
            LooperState::Playing => Some(EventAction::Stop),
        },
        EventAction::PlayStop => match state {
            LooperState::Playing => Some(EventAction::Stop),
            LooperState::Stop => Some(EventAction::Play),
            _ => None,
        },
        EventAction::PlayPause => match state {
            LooperState::Playing => Some(EventAction::Pause),
            LooperState::Stop => Some(EventAction::Play),
            _ => None,
        },
        EventAction::RecPause => match state {
            LooperState::Recording | LooperState::Overdub => Some(EventAction::Pause),
            _ => Some(EventAction::Rec),
        },
        EventAction::StopReset => match state {
            LooperState::Idle | LooperState::Stop => Some(EventAction::Reset),
            _ => Some(EventAction::Stop),
        },
        EventAction::PauseStop => match state {
            LooperState::Idle => None,
            LooperState::Stop => Some(EventAction::Stop),
            _ => Some(EventAction::Pause),
        },
    }
}

/// What a primitive does.
pub open spec fn primitive_spec(p: EventAction, v: LooperView) -> (LooperView, Seq<LooperOp>) {
    match p {
        EventAction::Rec => rec_spec(v),
        EventAction::Play => play_spec(v),
        EventAction::Pause => pause_spec(v),
        EventAction::Stop => stop_spec(v),
        EventAction::Reset => reset_spec(v),
        EventAction::Undo => undo_spec(v),
        _ => (v, Seq::empty()),
    }
}

/// What a transport verb does: resolve it against the state, then run the primitive.
pub open spec fn dispatch_spec(action: EventAction, v: LooperView) -> (LooperView, Seq<LooperOp>) {
    match resolve_action(action, v.state, v.pos) {
        Some(p) => primitive_spec(p, v),
        None => (v, Seq::empty()),
    }
}

/// One step of the output fade: the gain for this sample, and the next fade.
pub open spec fn advance_fade_spec(v: LooperView) -> (u8, LooperView) {
    let next = v.fade_gain + v.fade_delta;
    let g = if next < 0 {
        0int
    } else if next > 8 {
        8int
    } else {
        next
    };
    let d = if g >= 8 || g <= 0 {
        0int
    } else {
        v.fade_delta as int
    };
    (v.fade_gain, LooperView { fade_gain: g as u8, fade_delta: d as i8, ..v })
}

/// Gain of the fade-in ramp baked into the first samples of a recording.
pub open spec fn ramp_gain(pos: usize) -> u8 {
    if pos < LOOP_FADE_SAMPLES {
        (pos + 1) as u8
    } else {
        8
    }
}

/// Advance the position after a played sample, wrapping at the loop end.
pub open spec fn advance_pos_spec(v: LooperView) -> (LooperView, Seq<LooperOp>) {
    if v.pos + 1 >= v.loop_len {
        (LooperView { pos: 0, ..v }, seq![LooperOp::LoopWrap])
    } else {
        (LooperView { pos: (v.pos + 1) as usize, ..v }, Seq::empty())
    }
}

/// What the transport does for one audio sample.
pub open spec fn tick_spec(v: LooperView) -> (SampleAction, LooperView, Seq<LooperOp>) {
    match v.state {
        LooperState::Idle | LooperState::Stop => (SampleAction::PassThrough, v, Seq::empty()),
        LooperState::Recording => if v.pos < v.layer_lens[0] {
            (
                SampleAction::Record { pos: v.pos, gain: ramp_gain(v.pos) },
                LooperView { pos: (v.pos + 1) as usize, ..v },
                Seq::empty(),
            )
        } else {
            let v1 = LooperView { loop_len: v.layer_lens[0], ..v };
            let ops1 = bake_spec(v1, 0);
            let (v2, ops2) = init_merge_spec(v1);
            let v3 = LooperView { state: LooperState::Stop, pos: 0, ..v2 };
            (SampleAction::PassThrough, v3, ops1 + ops2 + fire_state_spec(v3))
        },
        LooperState::Playing => if v.loop_len > 0 {
            let (gain, v1) = advance_fade_spec(v);
            let action = SampleAction::Play {
                pos: v.pos,
                layers: (1 + v.overdub_count) as usize,
                gain,
            };
            if v1.stopping && v1.fade_gain == 0 {
                (action, LooperView { state: LooperState::Stop, stopping: false, ..v1 }, Seq::empty())
            } else {
                let (v2, ops2) = advance_pos_spec(v1);
                (action, v2, ops2)
            }
        } else {
            (SampleAction::PassThrough, v, Seq::empty())
        },
        LooperState::Overdub => if v.loop_len > 0 {
            let (gain, v1) = advance_fade_spec(v);
            let action = SampleAction::Overdub {
                pos: v.pos,
                rec: (1 + v.overdub_count) as usize,
                rec_gain: ramp_gain(v.pos),
                layers: (1 + v.overdub_count) as usize,
                gain,
            };
            if v1.stopping && v1.fade_gain == 0 {
                let (v2, ops2) = finish_overdub_spec(v1);
                let v3 = LooperView { state: LooperState::Stop, stopping: false, ..v2 };
                (action, v3, ops2 + fire_state_spec(v3))
            } else {
                let (v2, ops2) = advance_pos_spec(v1);
                (action, v2, ops2)
            }
        } else {
            (SampleAction::PassThrough, v, Seq::empty())
        },
    }
}

proof fn lemma_merge(v: LooperView)
    requires
        stack_ok(v),
        merge_spec(v).0.layer_lens.len() <= usize::MAX,
        1 <= v.overdub_count,
        v.overdub_count + 1 <= v.layer_lens.len(),
    ensures
        ({
            let r = merge_spec(v).0;
            &&& stack_ok(r)
            &&& r.layer_lens.len() >= v.overdub_count + 1
            &&& r.overdub_count == v.overdub_count - 1
            &&& r == LooperView {
                layer_lens: r.layer_lens,
                merge_len: r.merge_len,
                overdub_count: r.overdub_count,
                ..v
            }
        }),
{
    let total = 1 + v.overdub_count;
    let (lens0, _) = ensure_layer_spec(v, total);
    assert(forall|i: int| 0 <= i < lens0.len() ==> #[trigger] lens0[i] < usize::MAX);
    let lens1 = if v.merge_len == v.loop_len {
        lens0.update(0, v.merge_len)
    } else {
        lens0
    };
    assert(forall|i: int| 0 <= i < lens1.len() ==> #[trigger] lens1[i] < usize::MAX);
    let lens2 = rotated_lens(lens1, total);
    assert forall|i: int| 0 <= i < lens2.len() implies #[trigger] lens2[i] < usize::MAX by {
        if i == 0 {
            assert(lens2[i] == lens1[0]);
        } else if i < total {
            assert(lens2[i] == lens1[i + 1]);
        } else if i == total {
            assert(lens2[i] == lens1[1]);
        } else {
            assert(lens2[i] == lens1[i]);
        }
    }
}

proof fn lemma_start_overdub(v: LooperView)
    requires
        stack_ok(v),
        start_overdub_spec(v).0.layer_lens.len() <= usize::MAX,
        v.overdub_count + 1 <= v.layer_lens.len(),
        v.max_buffers != 1,
        v.max_buffers >= 2 ==> v.overdub_count + 1 <= v.max_buffers,
    ensures
        ({
            let r = start_overdub_spec(v).0;
            &&& looper_wf(r)
            &&& r.state == LooperState::Overdub
            &&& r.pos == v.pos
            &&& r.loop_len == v.loop_len
            &&& r.fade_gain == v.fade_gain
            &&& r.fade_delta == v.fade_delta
            &&& r.stopping == v.stopping
            &&& r.max_buffers == v.max_buffers
        }),
{
    let need = (1 + v.overdub_count) as usize;
    let at_max = v.max_buffers > 0 && need >= v.max_buffers;
    if at_max {
        lemma_merge(v);
    } else {
        let (v1, _) = alloc_layer_spec(v, need);
        assert(forall|i: int| 0 <= i < v1.layer_lens.len() ==> #[trigger] v1.layer_lens[i] < usize::MAX);
    }
}

proof fn lemma_finish_overdub(v: LooperView)
    requires
        stack_ok(v),
        v.overdub_count + 2 <= v.layer_lens.len(),
    ensures
        ({
            let r = finish_overdub_spec(v).0;
            &&& stack_ok(r)
            &&& r.overdub_count == v.overdub_count + 1
            &&& r == LooperView { overdub_count: r.overdub_count, merge_len: r.merge_len, ..v }
        }),
{
}

/// `rec` keeps the invariant.
proof fn lemma_rec_wf(v: LooperView)
    requires
        looper_wf(v),
        v.max_buffers == 1 ==> v.state == LooperState::Idle,
        rec_spec(v).0.layer_lens.len() <= usize::MAX,
    ensures
        looper_wf(rec_spec(v).0),
{
    match v.state {
        LooperState::Idle => {},
        LooperState::Stop | LooperState::Recording => {
            let v1 = LooperView {
                loop_len: if v.loop_len == 0 {
                    v.pos
                } else {
                    v.loop_len
                },
                pos: 0,
                ..v
            };
            lemma_start_overdub(v1);
        },
        LooperState::Playing => {
            lemma_start_overdub(v);
        },
        LooperState::Overdub => {
            lemma_finish_overdub(v);
            lemma_start_overdub(finish_overdub_spec(v).0);
        },
    }
}

/// Verb `action` would open an overdub on a one-layer stack, which has no
/// layer to record it into (the `rec` primitive outside the idle state).
pub open spec fn overdub_without_room(action: EventAction, v: LooperView) -> bool {
    &&& v.max_buffers == 1
    &&& resolve_action(action, v.state, v.pos) == Some(EventAction::Rec)
    &&& v.state != LooperState::Idle
}

/// Whether verb `action` may be sent through parameter `param`: the generic
/// `action` parameter, or the parameter named after the verb.
pub open spec fn action_param_accepted(param: Seq<char>, action: EventAction) -> bool {
    param == "action"@ || param == action.name_spec()
}

/// Message refusing a verb sent for the parameter of another verb.
pub open spec fn action_mismatch_message(param: Seq<char>, action: EventAction) -> Seq<char> {
    NAME@ + ": action param '"@ + param + "' != verb '"@ + action.name_spec() + "'"@
}

// ---------------------------------------------------------------------------
// Implementation
// ---------------------------------------------------------------------------

impl LooperTransport {
    /// A fresh transport: idle, with a base buffer of `base_len` frames and a
    /// stack of at most `max_buffers` layers (0 = unlimited).
    pub fn new(base_len: usize, max_buffers: usize) -> (r: Self)
        requires
            base_len < usize::MAX,
        ensures
            looper_wf(r@),
            r@.state == LooperState::Idle,
            r@.pos == 0,
            r@.loop_len == 0,
            r@.overdub_count == 0,
            r@.max_buffers == max_buffers,
            r@.layer_lens == seq![base_len],
            r@.merge_len == 0,
            r@.fade_gain == 8,
            r@.fade_delta == 0,
            !r@.stopping,
    {
        let mut lens: Vec<usize> = Vec::new();
        lens.push(base_len);
        LooperTransport {
            state: LooperState::Idle,
            current_pos: 0,
            loop_len: 0,
            overdub_count: 0,
            max_buffers,
            layer_lens: lens,
            merge_len: 0,
            fade_gain: 8,
            fade_delta: 0,
            stopping: false,
        }
    }

    /// Transport state.
    pub fn state(&self) -> (r: LooperState)
        ensures
            r == self@.state,
    {
        self.state
    }

    /// Playhead position in samples.
    pub fn position(&self) -> (r: usize)
        ensures
            r == self@.pos,
    {
        self.current_pos
    }

    /// Loop length in samples (0 = no loop yet).
    pub fn loop_len(&self) -> (r: usize)
        ensures
            r == self@.loop_len,
    {
        self.loop_len
    }

    /// Number of completed overdub layers.
    pub fn overdub_count(&self) -> (r: usize)
        ensures
            r == self@.overdub_count,
    {
        self.overdub_count
    }

    /// The layer count shown to the user in `state`: 0 when idle, else the
    /// base recording plus the completed overdubs.
    pub fn buffer_count(&self, state: LooperState) -> (r: usize)
        requires
            looper_wf(self@),
        ensures
            r == buffer_count_spec(state, self@.overdub_count),
    {
        if state == LooperState::Idle {
            0
        } else {
            assert(self.overdub_count + 1 <= self.layer_lens.len());
            1 + self.overdub_count
        }
    }

    /// Move the playhead (the caller derives `pos` from a time in seconds,
    /// clamped to the loop; it is 0 while there is no loop).
    pub fn seek(&mut self, pos: usize)
        requires
            looper_wf(old(self)@),
            pos < usize::MAX,
            old(self)@.loop_len == 0 ==> pos == 0,
        ensures
            looper_wf(final(self)@),
            final(self)@ == (LooperView { pos, ..old(self)@ }),
    {
        self.current_pos = pos;
    }

    fn fire_state(&self, ops: &mut Vec<LooperOp>)
        ensures
            final(ops)@ == old(ops)@ + fire_state_spec(self@),
    {
        ops.push(LooperOp::FireState { state: self.state, pos: self.current_pos });
        assert(final(ops)@ =~= old(ops)@ + fire_state_spec(self@));
    }

    fn bake_fade_out(&self, layer: usize, ops: &mut Vec<LooperOp>)
        ensures
            final(ops)@ == old(ops)@ + bake_spec(self@, layer),
    {
        let half = self.loop_len / 2;
        let fade = if LOOP_FADE_SAMPLES <= half {
            LOOP_FADE_SAMPLES
        } else {
            half
        };
        ops.push(LooperOp::BakeFadeOut { layer, start: self.loop_len - fade, count: fade });
        assert(final(ops)@ =~= old(ops)@ + bake_spec(self@, layer));
    }

    fn init_merge_buf(&mut self, ops: &mut Vec<LooperOp>)
        ensures
            (final(self)@, final(ops)@) == ({
                let (v, o) = init_merge_spec(old(self)@);
                (v, old(ops)@ + o)
            }),
    {
        if self.loop_len > 0 && self.merge_len != self.loop_len {
            self.merge_len = self.loop_len;
            ops.push(LooperOp::ResizeMergeBuf { len: self.loop_len });
        }
        assert(final(ops)@ =~= old(ops)@ + init_merge_spec(old(self)@).1);
    }

    fn try_alloc_layer(&mut self, idx: usize, ops: &mut Vec<LooperOp>)
        requires
            idx <= old(self).layer_lens@.len(),
        ensures
            (final(self)@, final(ops)@) == ({
                let (v, o) = alloc_layer_spec(old(self)@, idx);
                (v, old(ops)@ + o)
            }),
    {
        if idx < self.layer_lens.len() {
            self.layer_lens.set(idx, self.loop_len);
        } else {
            self.layer_lens.push(self.loop_len);
        }
        ops.push(LooperOp::AllocLayer { index: idx, len: self.loop_len });
        assert(final(ops)@ =~= old(ops)@ + alloc_layer_spec(old(self)@, idx).1);
        assert(final(self)@.layer_lens =~= alloc_layer_spec(old(self)@, idx).0.layer_lens);
    }

    fn finish_overdub_layer(&mut self, ops: &mut Vec<LooperOp>)
        requires
            old(self).overdub_count + 2 <= old(self).layer_lens@.len(),
        ensures
            (final(self)@, final(ops)@) == ({
                let (v, o) = finish_overdub_spec(old(self)@);
                (v, old(ops)@ + o)
            }),
    {
        assert(self.overdub_count + 2 <= self.layer_lens.len());
        self.bake_fade_out(1 + self.overdub_count, ops);
        self.overdub_count = self.overdub_count + 1;
        self.init_merge_buf(ops);
        proof {
            let (_, o2) = init_merge_spec(LooperView { overdub_count: (old(self)@.overdub_count + 1) as usize, ..old(self)@ });
            assert(final(ops)@ =~= old(ops)@ + (bake_spec(old(self)@, (1 + old(self)@.overdub_count) as usize) + o2));
        }
    }

    /// Rotate layer lengths `1..=last` left by one.
    fn rotate_layers(&mut self, last: usize)
        requires
            2 <= last < old(self).layer_lens@.len(),
        ensures
            final(self)@ == (LooperView {
                layer_lens: rotated_lens(old(self)@.layer_lens, last as int),
                ..old(self)@
            }),
    {
        let first = self.layer_lens[1];
        let mut i: usize = 1;
        while i < last
            invariant
                1 <= i <= last < self.layer_lens@.len(),
                self.layer_lens@.len() == old(self).layer_lens@.len(),
                first == old(self).layer_lens@[1],
                forall|j: int| 1 <= j < i ==> self.layer_lens@[j] == old(self).layer_lens@[j + 1],
                forall|j: int|
                    (j == 0 || i <= j < self.layer_lens@.len()) ==> self.layer_lens@[j]
                        == old(self).layer_lens@[j],
                self@ == (LooperView { layer_lens: self.layer_lens@, ..old(self)@ }),
            decreases last - i,
        {
            let next = self.layer_lens[i + 1];
            self.layer_lens.set(i, next);
            i = i + 1;
        }
        self.layer_lens.set(last, first);
        assert(self.layer_lens@ =~= rotated_lens(old(self)@.layer_lens, last as int));
    }

    /// Collapse layers 0 and 1 into layer 0 when the stack is full, keeping a
    /// free recording slot.
    fn do_merge(&mut self, ops: &mut Vec<LooperOp>)
        requires
            old(self).overdub_count + 1 <= old(self).layer_lens@.len(),
        ensures
            (final(self)@, final(ops)@) == ({
                let (v, o) = merge_spec(old(self)@);
                (v, old(ops)@ + o)
            }),
    {
        if self.overdub_count < 1 {
            assert(final(ops)@ =~= old(ops)@ + merge_spec(old(self)@).1);
            return;
        }
        assert(self.overdub_count + 1 <= self.layer_lens.len());
        let total = 1 + self.overdub_count;
        if self.layer_lens.len() <= total {
            let idx = self.layer_lens.len();
            self.layer_lens.push(self.loop_len);
            ops.push(LooperOp::AllocLayer { index: idx, len: self.loop_len });
        }
        let ghost lens0 = self.layer_lens@;
        let ghost ops0 = ops@;
        assert((lens0, ops0) == ({
            let (l, o) = ensure_layer_spec(old(self)@, total as int);
            (l, old(ops)@ + o)
        })) by {
            assert(ops0 =~= old(ops)@ + ensure_layer_spec(old(self)@, total as int).1);
        }
        if self.merge_len == self.loop_len {
            let base = self.layer_lens[0];
            self.layer_lens.set(0, self.merge_len);
            self.merge_len = base;
            ops.push(LooperOp::SwapMergeIntoBase);
        } else {
            let n0 = if self.loop_len <= self.layer_lens[0] {
                self.loop_len
            } else {
                self.layer_lens[0]
            };
            let n = if n0 <= self.layer_lens[1] {
                n0
            } else {
                self.layer_lens[1]
            };
            ops.push(LooperOp::AddLayer1IntoBase { n });
        }
        self.rotate_layers(total);
        ops.push(LooperOp::RotateLayersLeft { last: total });
        ops.push(LooperOp::ZeroLayer { index: total });
        self.overdub_count = self.overdub_count - 1;
        let m0 = if self.loop_len <= self.layer_lens[0] {
            self.loop_len
        } else {
            self.layer_lens[0]
        };
        let m = if m0 <= self.layer_lens[1] {
            m0
        } else {
            self.layer_lens[1]
        };
        self.merge_len = self.loop_len;
        ops.push(LooperOp::RebuildMergeBuf { len: self.loop_len, n: m });
        proof {
            let (v, o) = merge_spec(old(self)@);
            assert(final(ops)@ =~= old(ops)@ + o);
            assert(final(self)@.layer_lens =~= v.layer_lens);
        }
    }

    fn start_fade_in(&mut self)
        ensures
            final(self)@ == fade_in_spec(old(self)@),
    {
        self.fade_gain = 0;
        self.fade_delta = 1;
    }

    fn start_fade_out(&mut self)
        ensures
            final(self)@ == fade_out_spec(old(self)@),
    {
        self.fade_gain = 8;
        self.fade_delta = -1;
        self.stopping = true;
    }

    /// Enter overdub with a fresh recording layer, merging first when the
    /// stack is full.
    fn try_start_overdub(&mut self, ops: &mut Vec<LooperOp>)
        requires
            old(self).overdub_count + 1 <= old(self).layer_lens@.len(),
            old(self).max_buffers != 1,
        ensures
            (final(self)@, final(ops)@) == ({
                let (v, o) = start_overdub_spec(old(self)@);
                (v, old(ops)@ + o)
            }),
    {
        assert(self.overdub_count + 1 <= self.layer_lens.len());
        let need = 1 + self.overdub_count;
        let at_max = self.max_buffers > 0 && need >= self.max_buffers;
        if at_max {
            self.do_merge(ops);
        } else {
            self.try_alloc_layer(need, ops);
            let ghost mid = ops@;
            self.init_merge_buf(ops);
            proof {
                let (v1, o1) = alloc_layer_spec(old(self)@, need);
                let (v2, o2) = init_merge_spec(v1);
                assert(final(ops)@ =~= old(ops)@ + (o1 + o2));
            }
        }
        self.state = LooperState::Overdub;
    }

    /// The `rec` primitive.
    #[verifier::rlimit(40)]
    fn do_rec(&mut self, ops: &mut Vec<LooperOp>)
        requires
            looper_wf(old(self)@),
            old(self)@.max_buffers == 1 ==> old(self)@.state == LooperState::Idle,
        ensures
            looper_wf(final(self)@),
            (final(self)@, final(ops)@) == ({
                let (v, o) = rec_spec(old(self)@);
                (v, old(ops)@ + o)
            }),
    {
        let ghost v0 = self@;
        match self.state {
            LooperState::Idle => {
                self.overdub_count = 0;
                self.loop_len = 0;
                self.current_pos = 0;
                self.state = LooperState::Recording;
                assert(ops@ =~= old(ops)@ + Seq::<LooperOp>::empty());
            },
            LooperState::Stop | LooperState::Recording => {
                if self.loop_len == 0 {
                    self.loop_len = self.current_pos;
                }
                self.current_pos = 0;
                self.try_start_overdub(ops);
                self.start_fade_in();
            },
            LooperState::Playing => {
                self.try_start_overdub(ops);
            },
            LooperState::Overdub => {
                let ghost o0 = ops@;
                self.finish_overdub_layer(ops);
                let ghost v1 = self@;
                let ghost o1 = ops@;
                self.try_start_overdub(ops);
                proof {
                    let (_, a) = finish_overdub_spec(v0);
                    let (_, b) = start_overdub_spec(v1);
                    assert(ops@ =~= old(ops)@ + (a + b));
                }
            },
        }
        if self.state == LooperState::Recording || self.state == LooperState::Overdub {
            let ghost before = ops@;
            self.fire_state(ops);
            proof {
                assert(ops@ =~= before + fire_state_spec(self@));
            }
        }
        proof {
            let (v, o) = rec_spec(v0);
            assert(ops@ =~= old(ops)@ + o);
            assert(self.layer_lens.len() <= usize::MAX);
            lemma_rec_wf(v0);
        }
    }

    /// End a recording at the current position (at least one sample long).
    fn close_recording(&mut self, ops: &mut Vec<LooperOp>)
        requires
            looper_wf(old(self)@),
            old(self)@.state == LooperState::Recording,
        ensures
            (final(self)@, final(ops)@) == ({
                let (v, o) = close_recording_spec(old(self)@);
                (v, old(ops)@ + o)
            }),
            looper_wf(final(self)@),
    {
        self.loop_len = if self.current_pos >= 1 {
            self.current_pos
        } else {
            1
        };
        let ghost o0 = ops@;
        self.bake_fade_out(0, ops);
        let ghost v1 = self@;
        self.init_merge_buf(ops);
        self.state = LooperState::Stop;
        proof {
            let (_, o2) = init_merge_spec(v1);
            assert(ops@ =~= old(ops)@ + (bake_spec(v1, 0) + o2));
        }
    }

    /// The `play` primitive.
    fn do_play(&mut self, ops: &mut Vec<LooperOp>)
        requires
            looper_wf(old(self)@),
        ensures
            looper_wf(final(self)@),
            (final(self)@, final(ops)@) == ({
                let (v, o) = play_spec(old(self)@);
                (v, old(ops)@ + o)
            }),
    {
        let ghost v0 = self@;
        match self.state {
            LooperState::Recording => {
                self.loop_len = if self.current_pos >= 1 {
                    self.current_pos
                } else {
                    1
                };
                let ghost v1 = self@;
                self.bake_fade_out(0, ops);
                self.overdub_count = 0;
                self.current_pos = 0;
                self.state = LooperState::Playing;
                let ghost v2 = self@;
                self.init_merge_buf(ops);
                proof {
                    let (_, o3) = init_merge_spec(v2);
                    assert(ops@ =~= old(ops)@ + (bake_spec(v1, 0) + o3));
                }
            },
            LooperState::Stop => {
                if self.loop_len > 0 {
                    self.state = LooperState::Playing;
                    self.start_fade_in();
                }
                assert(ops@ =~= old(ops)@ + Seq::<LooperOp>::empty());
            },
            LooperState::Overdub => {
                self.finish_overdub_layer(ops);
                self.state = LooperState::Playing;
                proof {
                    lemma_finish_overdub(v0);
                }
            },
            _ => {
                assert(ops@ =~= old(ops)@ + Seq::<LooperOp>::empty());
            },
        }
        if self.state == LooperState::Playing {
            let ghost before = ops@;
            self.fire_state(ops);
            assert(ops@ =~= before + fire_state_spec(self@));
        }
        proof {
            let (v, o) = play_spec(v0);
            assert(ops@ =~= old(ops)@ + o);
        }
    }

    /// The `pause` primitive: stop at the current position.
    fn do_pause(&mut self, ops: &mut Vec<LooperOp>)
        requires
            looper_wf(old(self)@),
        ensures
            looper_wf(final(self)@),
            (final(self)@, final(ops)@) == ({
                let (v, o) = pause_spec(old(self)@);
                (v, old(ops)@ + o)
            }),
    {
        let ghost v0 = self@;
        match self.state {
            LooperState::Recording => {
                self.close_recording(ops);
                let ghost before = ops@;
                self.fire_state(ops);
                assert(ops@ =~= before + fire_state_spec(self@));
            },
            LooperState::Playing | LooperState::Overdub => {
                self.start_fade_out();
                ops.push(LooperOp::FireState { state: LooperState::Stop, pos: self.current_pos });
            },
            LooperState::Stop => {
                self.fire_state(ops);
            },
            LooperState::Idle => {},
        }
        proof {
            let (v, o) = pause_spec(v0);
            assert(ops@ =~= old(ops)@ + o);
        }
    }

    /// The `stop` primitive: halt and return to position 0.
    fn do_stop(&mut self, ops: &mut Vec<LooperOp>)
        requires
            looper_wf(old(self)@),
        ensures
            looper_wf(final(self)@),
            (final(self)@, final(ops)@) == ({
                let (v, o) = stop_spec(old(self)@);
                (v, old(ops)@ + o)
            }),
    {
        let ghost v0 = self@;
        match self.state {
            LooperState::Idle => {},
            LooperState::Stop => {
                self.current_pos = 0;
                self.fire_state(ops);
            },
            LooperState::Recording => {
                self.close_recording(ops);
                self.current_pos = 0;
                let ghost before = ops@;
                self.fire_state(ops);
                assert(ops@ =~= before + fire_state_spec(self@));
            },
            _ => {
                self.start_fade_out();
                self.current_pos = 0;
                ops.push(LooperOp::FireState { state: LooperState::Stop, pos: 0 });
            },
        }
        proof {
            let (v, o) = stop_spec(v0);
            assert(ops@ =~= old(ops)@ + o);
        }
    }

    /// The `reset` primitive: forget the loop and every overdub.
    fn do_reset(&mut self, ops: &mut Vec<LooperOp>)
        requires
            looper_wf(old(self)@),
        ensures
            looper_wf(final(self)@),
            (final(self)@, final(ops)@) == ({
                let (v, o) = reset_spec(old(self)@);
                (v, old(ops)@ + o)
            }),
    {
        self.state = LooperState::Idle;
        self.current_pos = 0;
        self.loop_len = 0;
        self.overdub_count = 0;
        self.stopping = false;
        self.fade_gain = 8;
        self.fade_delta = 0;
        self.layer_lens.truncate(1);
        self.merge_len = 0;
        ops.push(LooperOp::TruncateLayers { keep: 1 });
        ops.push(LooperOp::ZeroLayer { index: 0 });
        ops.push(LooperOp::ClearMergeBuf);
        self.fire_state(ops);
        proof {
            let (v, o) = reset_spec(old(self)@);
            assert(self.layer_lens@ =~= old(self)@.layer_lens.take(1));
            assert(ops@ =~= old(ops)@ + o);
        }
    }

    /// The `undo` primitive: drop the overdub in progress, or else the last
    /// completed overdub.
    fn do_undo(&mut self, ops: &mut Vec<LooperOp>)
        requires
            looper_wf(old(self)@),
        ensures
            looper_wf(final(self)@),
            (final(self)@, final(ops)@) == ({
                let (v, o) = undo_spec(old(self)@);
                (v, old(ops)@ + o)
            }),
    {
        let ghost v0 = self@;
        match self.state {
            LooperState::Idle | LooperState::Recording => {
                assert(ops@ =~= old(ops)@ + Seq::<LooperOp>::empty());
                return;
            },
            LooperState::Overdub => {
                assert(self.overdub_count + 2 <= self.layer_lens.len());
                ops.push(LooperOp::ZeroLayer { index: 1 + self.overdub_count });
                self.stopping = false;
                self.fade_gain = 8;
                self.fade_delta = 0;
                self.state = LooperState::Playing;
            },
            _ => {
                if self.overdub_count > 0 {
                    ops.push(LooperOp::ZeroLayer { index: self.overdub_count });
                    self.overdub_count = self.overdub_count - 1;
                    let ghost v1 = self@;
                    let ghost before = ops@;
                    self.init_merge_buf(ops);
                    proof {
                        let (_, o2) = init_merge_spec(v1);
                        assert(ops@ =~= before + o2);
                    }
                }
            },
        }
        let ghost before = ops@;
        self.fire_state(ops);
        proof {
            assert(ops@ =~= before + fire_state_spec(self@));
            let (v, o) = undo_spec(v0);
            assert(ops@ =~= old(ops)@ + o);
        }
    }

    /// The primitive verb `action` resolves to in the current state.
    fn resolve(&self, action: EventAction) -> (r: Option<EventAction>)
        ensures
            r == resolve_action(action, self@.state, self@.pos),
    {
        let primitive: Option<EventAction> = match action {
            EventAction::Rec | EventAction::Play | EventAction::Pause | EventAction::Stop
            | EventAction::Reset | EventAction::Undo => Some(action),
            EventAction::PauseStopReset => match self.state {
                LooperState::Idle => None,
                LooperState::Stop => if self.current_pos > 0 {
                    Some(EventAction::Stop)
                } else {
                    Some(EventAction::Reset)
                },
                _ => Some(EventAction::Pause),
            },
            EventAction::RecPlay => match self.state {
                LooperState::Recording | LooperState::Overdub => Some(EventAction::Play),
                _ => Some(EventAction::Rec),
            },
            EventAction::RecPlayStop => match self.state {
                LooperState::Idle | LooperState::Stop => Some(EventAction::Rec),
                LooperState::Recording | LooperState::Overdub => Some(EventAction::Play),
                LooperState::Playing => Some(EventAction::Stop),
            },
            EventAction::RecPlayStopPlay => match self.state {
                LooperState::Idle => Some(EventAction::Rec),
                LooperState::Recording | LooperState::Overdub | LooperState::Stop => Some(
                    EventAction::Play,
                ),
                LooperState::Playing => Some(EventAction::Stop),
            },
            EventAction::PlayStop => match self.state {
                LooperState::Playing => Some(EventAction::Stop),
                LooperState::Stop => Some(EventAction::Play),
                _ => None,
            },
            EventAction::PlayPause => match self.state {
                LooperState::Playing => Some(EventAction::Pause),
                LooperState::Stop => Some(EventAction::Play),
                _ => None,
            },
            EventAction::RecPause => match self.state {
                LooperState::Recording | LooperState::Overdub => Some(EventAction::Pause),
                _ => Some(EventAction::Rec),
            },
            EventAction::StopReset => match self.state {
                LooperState::Idle | LooperState::Stop => Some(EventAction::Reset),
                _ => Some(EventAction::Stop),
            },
            EventAction::PauseStop => match self.state {
                LooperState::Idle => None,
                LooperState::Stop => Some(EventAction::Stop),
                _ => Some(EventAction::Pause),
            },
        };
        primitive
    }

    /// Whether verb `action` can run: it does not open an overdub on a
    /// one-layer stack (see [`overdub_without_room`]).
    pub fn overdub_has_room(&self, action: EventAction) -> (r: bool)
        ensures
            r == !overdub_without_room(action, self@),
    {
        if self.max_buffers != 1 {
            return true;
        }
        let p = self.resolve(action);
        let rec = match p {
            Some(EventAction::Rec) => true,
            _ => false,
        };
        !(rec && self.state != LooperState::Idle)
    }

    /// Run a transport verb: resolve it against the current state, then run
    /// the primitive it stands for (or nothing).
    pub fn dispatch_action(&mut self, action: EventAction, ops: &mut Vec<LooperOp>)
        requires
            looper_wf(old(self)@),
            !overdub_without_room(action, old(self)@),
        ensures
            looper_wf(final(self)@),
            (final(self)@, final(ops)@) == ({
                let (v, o) = dispatch_spec(action, old(self)@);
                (v, old(ops)@ + o)
            }),
    {
        let primitive = self.resolve(action);

        match primitive {
            Some(EventAction::Rec) => self.do_rec(ops),
            Some(EventAction::Play) => self.do_play(ops),
            Some(EventAction::Pause) => self.do_pause(ops),
            Some(EventAction::Stop) => self.do_stop(ops),
            Some(EventAction::Reset) => self.do_reset(ops),
            Some(EventAction::Undo) => self.do_undo(ops),
            _ => {
                assert(ops@ =~= old(ops)@ + dispatch_spec(action, old(self)@).1);
            },
        }
    }

    /// Run a transport verb sent for the event parameter `param`: the
    /// generic `action` parameter (`SET <key>.action <verb>`) takes every
    /// verb, and a parameter named after the verb takes that verb; any other
    /// pairing is refused with the state unchanged.
    pub fn set_action(&mut self, param: &str, action: EventAction, ops: &mut Vec<LooperOp>) -> (r:
        Result<(), String>)
        requires
            looper_wf(old(self)@),
            action_param_accepted(param@, action) ==> !overdub_without_room(action, old(self)@),
        ensures
            looper_wf(final(self)@),
            action_param_accepted(param@, action) ==> r is Ok && (final(self)@, final(ops)@) == ({
                let (v, o) = dispatch_spec(action, old(self)@);
                (v, old(ops)@ + o)
            }),
            !action_param_accepted(param@, action) ==> final(self)@ == old(self)@ && final(ops)@
                == old(ops)@ && r is Err && r->Err_0@ == action_mismatch_message(param@, action),
    {
        let name = action.name();
        if !str_eq(param, "action") && !str_eq(param, name) {
            let mut e = String::from_str(NAME);
            append_str(&mut e, ": action param '");
            append_str(&mut e, param);
            append_str(&mut e, "' != verb '");
            append_str(&mut e, name);
            append_str(&mut e, "'");
            return Err(e);
        }
        self.dispatch_action(action, ops);
        Ok(())
    }

    /// Advance the output fade by one sample; returns the gain for this sample.
    fn advance_fade(&mut self) -> (g: u8)
        requires
            old(self).fade_gain <= 8,
            -1 <= old(self).fade_delta <= 1,
        ensures
            (g, final(self)@) == advance_fade_spec(old(self)@),
    {
        let g = self.fade_gain;
        let next: i16 = self.fade_gain as i16 + self.fade_delta as i16;
        let clamped: u8 = if next < 0 {
            0
        } else if next > 8 {
            8
        } else {
            next as u8
        };
        self.fade_gain = clamped;
        if clamped >= 8 || clamped == 0 {
            self.fade_delta = 0;
        }
        g
    }

    /// Advance the playhead by one sample, wrapping at the loop end.
    fn advance_pos(&mut self, ops: &mut Vec<LooperOp>)
        requires
            old(self).current_pos < usize::MAX,
        ensures
            (final(self)@, final(ops)@) == ({
                let (v, o) = advance_pos_spec(old(self)@);
                (v, old(ops)@ + o)
            }),
    {
        self.current_pos = self.current_pos + 1;
        if self.current_pos >= self.loop_len {
            self.current_pos = 0;
            ops.push(LooperOp::LoopWrap);
        }
        assert(ops@ =~= old(ops)@ + advance_pos_spec(old(self)@).1);
    }

    /// Decide what happens to one audio sample, advancing the transport.
    pub fn tick(&mut self, ops: &mut Vec<LooperOp>) -> (r: SampleAction)
        requires
            looper_wf(old(self)@),
        ensures
            looper_wf(final(self)@),
            (r, final(self)@, final(ops)@) == ({
                let (a, v, o) = tick_spec(old(self)@);
                (a, v, old(ops)@ + o)
            }),
    {
        let ghost v0 = self@;
        match self.state {
            LooperState::Idle | LooperState::Stop => {
                assert(ops@ =~= old(ops)@ + Seq::<LooperOp>::empty());
                SampleAction::PassThrough
            },
            LooperState::Recording => {
                let pos = self.current_pos;
                if pos < self.layer_lens[0] {
                    let gain: u8 = if pos < LOOP_FADE_SAMPLES {
                        (pos + 1) as u8
                    } else {
                        8
                    };
                    self.current_pos = pos + 1;
                    assert(ops@ =~= old(ops)@ + Seq::<LooperOp>::empty());
                    SampleAction::Record { pos, gain }
                } else {
                    self.loop_len = self.layer_lens[0];
                    let ghost v1 = self@;
                    self.bake_fade_out(0, ops);
                    self.init_merge_buf(ops);
                    self.state = LooperState::Stop;
                    self.current_pos = 0;
                    let ghost before = ops@;
                    self.fire_state(ops);
                    proof {
                        let (_, o2) = init_merge_spec(v1);
                        assert(ops@ =~= old(ops)@ + (bake_spec(v1, 0) + o2 + fire_state_spec(self@)));
                    }
                    SampleAction::PassThrough
                }
            },
            LooperState::Playing => {
                if self.loop_len > 0 {
                    let pos = self.current_pos;
                    let gain = self.advance_fade();
                    let action = SampleAction::Play { pos, layers: 1 + self.overdub_count, gain };
                    if self.stopping && self.fade_gain == 0 {
                        self.state = LooperState::Stop;
                        self.stopping = false;
                        assert(ops@ =~= old(ops)@ + Seq::<LooperOp>::empty());
                    } else {
                        self.advance_pos(ops);
                    }
                    action
                } else {
                    assert(ops@ =~= old(ops)@ + Seq::<LooperOp>::empty());
                    SampleAction::PassThrough
                }
            },
            LooperState::Overdub => {
                if self.loop_len > 0 {
                    let pos = self.current_pos;
                    assert(self.overdub_count + 2 <= self.layer_lens.len());
                    let rec = 1 + self.overdub_count;
                    let rec_gain: u8 = if pos < LOOP_FADE_SAMPLES {
                        (pos + 1) as u8
                    } else {
                        8
                    };
                    let gain = self.advance_fade();
                    let action = SampleAction::Overdub {
                        pos,
                        rec,
                        rec_gain,
                        layers: 1 + self.overdub_count,
                        gain,
                    };
                    if self.stopping && self.fade_gain == 0 {
                        let ghost v1 = self@;
                        self.finish_overdub_layer(ops);
                        self.state = LooperState::Stop;
                        self.stopping = false;
                        let ghost before = ops@;
                        self.fire_state(ops);
                        proof {
                            let (_, o2) = finish_overdub_spec(v1);
                            assert(ops@ =~= old(ops)@ + (o2 + fire_state_spec(self@)));
                        }
                    } else {
                        self.advance_pos(ops);
                    }
                    action
                } else {
                    assert(ops@ =~= old(ops)@ + Seq::<LooperOp>::empty());
                    SampleAction::PassThrough
                }
            },
        }
    }
}

// ---------------------------------------------------------------------------
// Laws
// ---------------------------------------------------------------------------

/// The layer count shown to the user never exceeds a configured stack limit.
pub proof fn law_buffer_count_within_limit(v: LooperView)
    requires
        looper_wf(v),
        v.max_buffers >= 1,
    ensures
        buffer_count_spec(v.state, v.overdub_count) <= v.max_buffers,
{
}

/// Starting an overdub while playing and undoing it right away returns to
/// playing at the same position with the same completed layers.
pub proof fn law_rec_then_undo(v: LooperView)
    requires
        looper_wf(v),
        v.state == LooperState::Playing,
        v.max_buffers != 1,
        rec_spec(v).0.layer_lens.len() <= usize::MAX,
    ensures
        ({
            let after = undo_spec(rec_spec(v).0).0;
            &&& after.state == LooperState::Playing
            &&& after.pos == v.pos
            &&& after.loop_len == v.loop_len
            &&& (v.max_buffers == 0 || v.overdub_count + 1 < v.max_buffers) ==> after.overdub_count
                == v.overdub_count
            &&& (v.max_buffers > 0 && v.overdub_count + 1 >= v.max_buffers) ==> after.overdub_count
                == v.overdub_count - 1
        }),
{
    lemma_start_overdub(v);
    let need = (1 + v.overdub_count) as usize;
    if v.max_buffers > 0 && need >= v.max_buffers {
        lemma_merge(v);
    }
}

/// Reset forgets everything: idle, no loop, no overdub, only the base layer,
/// at position 0, from any state.
pub proof fn law_reset_forgets(v: LooperView)
    requires
        looper_wf(v),
    ensures
        ({
            let r = reset_spec(v).0;
            &&& looper_wf(r)
            &&& r.state == LooperState::Idle
            &&& r.pos == 0
            &&& r.loop_len == 0
            &&& r.overdub_count == 0
            &&& r.layer_lens.len() == 1
            &&& buffer_count_spec(r.state, r.overdub_count) == 0
        }),
{
}

/// Stop always ends at position 0 and, once a loop is running, in the stop
/// state (immediately, or after the output fade).
pub proof fn law_stop_rewinds(v: LooperView)
    requires
        looper_wf(v),
        v.state != LooperState::Idle,
    ensures
        stop_spec(v).0.pos == 0,
        v.state == LooperState::Playing || v.state == LooperState::Overdub ==> stop_spec(v).0.stopping,
        v.state == LooperState::Recording || v.state == LooperState::Stop ==> stop_spec(v).0.state
            == LooperState::Stop,
{
}

/// Pause keeps the playhead where it is.
pub proof fn law_pause_keeps_position(v: LooperView)
    requires
        looper_wf(v),
        v.state != LooperState::Recording,
    ensures
        pause_spec(v).0.pos == v.pos,
{
}

/// The play/pause toggle pauses a running loop softly: from `Playing` it
/// keeps the playhead and the loop, starts the output fade-out towards a
/// stop, and announces `Stop` at the current position.
pub proof fn law_play_pause_keeps_position(v: LooperView)
    requires
        looper_wf(v),
        v.state == LooperState::Playing,
    ensures
        ({
            let (r, ops) = dispatch_spec(EventAction::PlayPause, v);
            &&& r.pos == v.pos
            &&& r.loop_len == v.loop_len
            &&& r.overdub_count == v.overdub_count
            &&& r.stopping
            &&& ops == seq![LooperOp::FireState { state: LooperState::Stop, pos: v.pos }]
        }),
{
}

/// When the output fade-out of an overdub ends, the layer being recorded is
/// kept: the transport stops with one more completed layer, after baking a
/// fade-out into that layer's tail.
pub proof fn law_overdub_fade_out_commits_layer(v: LooperView)
    requires
        looper_wf(v),
        v.state == LooperState::Overdub,
        v.loop_len > 0,
        v.stopping,
        v.fade_gain + v.fade_delta <= 0,
    ensures
        ({
            let (_, r, ops) = tick_spec(v);
            &&& r.state == LooperState::Stop
            &&& !r.stopping
            &&& r.overdub_count == v.overdub_count + 1
            &&& r.loop_len == v.loop_len
            &&& ops.len() > 0
            &&& ops[0] matches LooperOp::BakeFadeOut { layer, .. } && layer == v.overdub_count + 1
        }),
{
}

/// The record buttons: `rec/play` records from idle, closes a recording into
/// a loop played from the start, and overdubs a playing loop at the
/// playhead; `rec/pause` closes a recording into a stopped loop;
/// `rec/play/stop` stops a playing loop at position 0.
pub proof fn law_record_buttons(v: LooperView)
    ensures
        ({
            let len = if v.pos >= 1 { v.pos } else { 1 };
            let rp = dispatch_spec(EventAction::RecPlay, v).0;
            let rpa = dispatch_spec(EventAction::RecPause, v).0;
            let rps = dispatch_spec(EventAction::RecPlayStop, v).0;
            &&& v.state == LooperState::Idle ==> rp.state == LooperState::Recording && rp.pos == 0
                && rps.state == LooperState::Recording
            &&& v.state == LooperState::Recording ==> rp.state == LooperState::Playing && rp.pos == 0
                && rp.loop_len == len
            &&& v.state == LooperState::Playing ==> rp.state == LooperState::Overdub && rp.pos == v.pos
            &&& v.state == LooperState::Recording ==> rpa.state == LooperState::Stop && rpa.loop_len
                == len
            &&& v.state == LooperState::Playing ==> rpa.state == LooperState::Overdub && rpa.pos
                == v.pos
            &&& v.state == LooperState::Playing ==> rps.pos == 0 && rps.stopping
        }),
{
}

/// The play buttons: on a stopped loop `play/stop` and `play/pause` resume
/// at the playhead; on a playing loop `play/stop` rewinds to 0 while
/// fading out, `play/pause` keeps the playhead; with nothing playing or
/// stopped they do nothing.
pub proof fn law_play_buttons(v: LooperView)
    ensures
        ({
            let ps = dispatch_spec(EventAction::PlayStop, v).0;
            let pp = dispatch_spec(EventAction::PlayPause, v).0;
            &&& (v.state == LooperState::Stop && v.loop_len > 0) ==> ps.state == LooperState::Playing
                && ps.pos == v.pos && pp.state == LooperState::Playing && pp.pos == v.pos
            &&& v.state == LooperState::Playing ==> ps.pos == 0 && ps.stopping && pp.pos == v.pos
                && pp.stopping
            &&& (v.state == LooperState::Idle || v.state == LooperState::Recording
                || v.state == LooperState::Overdub) ==> ps == v && pp == v
        }),
{
}

/// The stop buttons: `stop/reset` and `pause/stop/reset` reset a stopped
/// loop at position 0, `pause/stop/reset` first rewinds a stopped loop that
/// is not at 0; `pause/stop` rewinds a stopped loop; on a playing loop
/// `stop/reset` rewinds while fading out and the pause verbs keep the
/// playhead; idle, the pause verbs do nothing.
pub proof fn law_stop_buttons(v: LooperView)
    ensures
        ({
            let sr = dispatch_spec(EventAction::StopReset, v).0;
            let psr = dispatch_spec(EventAction::PauseStopReset, v).0;
            let pst = dispatch_spec(EventAction::PauseStop, v).0;
            &&& v.state == LooperState::Stop ==> sr.state == LooperState::Idle && sr.loop_len == 0
            &&& (v.state == LooperState::Stop && v.pos == 0) ==> psr.state == LooperState::Idle
            &&& (v.state == LooperState::Stop && v.pos > 0) ==> psr.state == LooperState::Stop
                && psr.pos == 0 && psr.loop_len == v.loop_len
            &&& v.state == LooperState::Stop ==> pst.state == LooperState::Stop && pst.pos == 0
            &&& v.state == LooperState::Playing ==> sr.pos == 0 && sr.stopping && psr.pos == v.pos
                && psr.stopping && pst.pos == v.pos && pst.stopping
            &&& v.state == LooperState::Idle ==> psr == v && pst == v
        }),
{
}

/// One audio sample of the transport:
/// - idle or stopped, the input passes through and nothing changes;
/// - recording stores the sample at the playhead and advances it, until the
///   base buffer is full, where the loop closes at the buffer's length and
///   stops at 0;
/// - a playing loop plays all completed layers at the playhead and advances
///   it, wrapping to 0 (announcing the wrap) at the loop's end, unless a
///   fade-out ends, which stops it at the playhead with its layers kept;
/// - an overdub records into the layer above the completed ones and moves
///   the playhead as playback does.
pub proof fn law_tick_transport(v: LooperView)
    requires
        looper_wf(v),
    ensures
        ({
            let (a, r, ops) = tick_spec(v);
            let fade_ends = v.stopping && v.fade_gain + v.fade_delta <= 0;
            &&& (v.state == LooperState::Idle || v.state == LooperState::Stop) ==> a
                == SampleAction::PassThrough && r == v && ops.len() == 0
            &&& (v.state == LooperState::Recording && v.pos < v.layer_lens[0]) ==> (a matches SampleAction::Record { pos, .. } && pos == v.pos) && r.pos == v.pos + 1
                && r.state == LooperState::Recording
            &&& (v.state == LooperState::Recording && v.pos >= v.layer_lens[0]) ==> r.state
                == LooperState::Stop && r.pos == 0 && r.loop_len == v.layer_lens[0]
            &&& (v.state == LooperState::Playing && v.loop_len > 0) ==> (a matches SampleAction::Play { pos, layers, .. } && pos == v.pos && layers == v.overdub_count + 1)
            &&& (v.state == LooperState::Playing && v.loop_len > 0 && !fade_ends && v.pos + 1
                < v.loop_len) ==> r.pos == v.pos + 1 && r.state == LooperState::Playing
            &&& (v.state == LooperState::Playing && v.loop_len > 0 && !fade_ends && v.pos + 1
                >= v.loop_len) ==> r.pos == 0 && ops == seq![LooperOp::LoopWrap]
            &&& (v.state == LooperState::Playing && v.loop_len > 0 && fade_ends) ==> r.state
                == LooperState::Stop && r.pos == v.pos && r.overdub_count == v.overdub_count
                && !r.stopping
            &&& (v.state == LooperState::Overdub && v.loop_len > 0) ==> (a matches SampleAction::Overdub { pos, rec, .. } && pos == v.pos && rec == v.overdub_count + 1)
            &&& (v.state == LooperState::Overdub && v.loop_len > 0 && !fade_ends) ==> r.state
                == LooperState::Overdub && r.overdub_count == v.overdub_count && (if v.pos + 1
                < v.loop_len {
                r.pos == v.pos + 1
            } else {
                r.pos == 0
            })
        }),
{
}

} // verus!
