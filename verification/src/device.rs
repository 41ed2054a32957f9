//! Parameter metadata vocabulary shared by every effect: action verbs,
//! override aspects, override targets, entry roles, and the structural
//! validator for canonical parameter lists.

use vstd::prelude::*;
use crate::text::{rsplit_once, str_eq, rsplit_once_spec, append_str, push_char};

verus! {

// ---------------------------------------------------------------------------
// EventAction
// ---------------------------------------------------------------------------

/// Action verbs an `Event` parameter can dispatch. Wire form is kebab-case
/// (e.g. `Rec` → `"rec"`).
#[derive(Debug, Clone, Copy, PartialEq, Eq, Structural)]
pub enum EventAction {
    /// Looper: start recording.
    Rec,
    /// Looper: start/resume playback.
    Play,
    /// Looper: stop transport.
    Stop,
    /// Looper: pause transport.
    Pause,
    /// Looper: undo last overdub.
    Undo,
    /// Generic reset (effect-defined semantics).
    Reset,
    /// Rec ↔ Play cycle.
    RecPlay,
    /// idle→Rec, rec→Play, play→Stop, stop→Rec.
    RecPlayStop,
    /// Like `RecPlayStop`, but stop→Play (resume).
    RecPlayStopPlay,
    /// Playing → Stop; Stop → Play.
    PlayStop,
    /// Playing → Pause; Stop → Play.
    PlayPause,
    /// idle→Rec, Recording/Overdub→Pause, Playing/Stop→Rec.
    RecPause,
    /// any-active→Stop, stop→Reset.
    StopReset,
    /// any-active→Pause, stop→Stop.
    PauseStop,
    /// Pause if running, Stop if stopped away from 0, else Reset.
    PauseStopReset,
}

impl EventAction {
    /// The kebab-case wire name of an action.
    pub open spec fn name_spec(self) -> Seq<char> {
        match self {
            EventAction::Rec => "rec"@,
            EventAction::Play => "play"@,
            EventAction::Stop => "stop"@,
            EventAction::Pause => "pause"@,
            EventAction::Undo => "undo"@,
            EventAction::Reset => "reset"@,
            EventAction::RecPlay => "rec-play"@,
            EventAction::RecPlayStop => "rec-play-stop"@,
            EventAction::RecPlayStopPlay => "rec-play-stop-play"@,
            EventAction::PlayStop => "play-stop"@,
            EventAction::PlayPause => "play-pause"@,
            EventAction::RecPause => "rec-pause"@,
            EventAction::StopReset => "stop-reset"@,
            EventAction::PauseStop => "pause-stop"@,
            EventAction::PauseStopReset => "pause-stop-reset"@,
        }
    }

    /// Kebab-case name — matches the wire form and is used as the name of
    /// single-action Event entries.
    pub fn name(self) -> (r: &'static str)
        ensures
            r@ == self.name_spec(),
    {
        match self {
            EventAction::Rec => "rec",
            EventAction::Play => "play",
            EventAction::Stop => "stop",
            EventAction::Pause => "pause",
            EventAction::Undo => "undo",
            EventAction::Reset => "reset",
            EventAction::RecPlay => "rec-play",
            EventAction::RecPlayStop => "rec-play-stop",
            EventAction::RecPlayStopPlay => "rec-play-stop-play",
            EventAction::PlayStop => "play-stop",
            EventAction::PlayPause => "play-pause",
            EventAction::RecPause => "rec-pause",
            EventAction::StopReset => "stop-reset",
            EventAction::PauseStop => "pause-stop",
            EventAction::PauseStopReset => "pause-stop-reset",
        }
    }

    /// The action whose wire name is `s`, if any (checked in declaration order).
    pub open spec fn from_name_spec(s: Seq<char>) -> Option<EventAction> {
        if s == "rec"@ {
            Some(EventAction::Rec)
        } else if s == "play"@ {
            Some(EventAction::Play)
        } else if s == "stop"@ {
            Some(EventAction::Stop)
        } else if s == "pause"@ {
            Some(EventAction::Pause)
        } else if s == "undo"@ {
            Some(EventAction::Undo)
        } else if s == "reset"@ {
            Some(EventAction::Reset)
        } else if s == "rec-play"@ {
            Some(EventAction::RecPlay)
        } else if s == "rec-play-stop"@ {
            Some(EventAction::RecPlayStop)
        } else if s == "rec-play-stop-play"@ {
            Some(EventAction::RecPlayStopPlay)
        } else if s == "play-stop"@ {
            Some(EventAction::PlayStop)
        } else if s == "play-pause"@ {
            Some(EventAction::PlayPause)
        } else if s == "rec-pause"@ {
            Some(EventAction::RecPause)
        } else if s == "stop-reset"@ {
            Some(EventAction::StopReset)
        } else if s == "pause-stop"@ {
            Some(EventAction::PauseStop)
        } else if s == "pause-stop-reset"@ {
            Some(EventAction::PauseStopReset)
        } else {
            None
        }
    }

    /// Parse a kebab-case wire name into an action (the wire layer's parse).
    pub fn from_name(s: &str) -> (r: Option<EventAction>)
        ensures
            r == Self::from_name_spec(s@),
    {
        if str_eq(s, "rec") {
            Some(EventAction::Rec)
        } else if str_eq(s, "play") {
            Some(EventAction::Play)
        } else if str_eq(s, "stop") {
            Some(EventAction::Stop)
        } else if str_eq(s, "pause") {
            Some(EventAction::Pause)
        } else if str_eq(s, "undo") {
            Some(EventAction::Undo)
        } else if str_eq(s, "reset") {
            Some(EventAction::Reset)
        } else if str_eq(s, "rec-play") {
            Some(EventAction::RecPlay)
        } else if str_eq(s, "rec-play-stop") {
            Some(EventAction::RecPlayStop)
        } else if str_eq(s, "rec-play-stop-play") {
            Some(EventAction::RecPlayStopPlay)
        } else if str_eq(s, "play-stop") {
            Some(EventAction::PlayStop)
        } else if str_eq(s, "play-pause") {
            Some(EventAction::PlayPause)
        } else if str_eq(s, "rec-pause") {
            Some(EventAction::RecPause)
        } else if str_eq(s, "stop-reset") {
            Some(EventAction::StopReset)
        } else if str_eq(s, "pause-stop") {
            Some(EventAction::PauseStop)
        } else if str_eq(s, "pause-stop-reset") {
            Some(EventAction::PauseStopReset)
        } else {
            None
        }
    }
}

/// Reading back the wire name of an action gives the same action.
pub proof fn law_action_name_round_trip(a: EventAction)
    ensures
        EventAction::from_name_spec(a.name_spec()) == Some(a),
{
    reveal_strlit("rec");
    reveal_strlit("play");
    reveal_strlit("stop");
    reveal_strlit("pause");
    reveal_strlit("undo");
    reveal_strlit("reset");
    reveal_strlit("rec-play");
    reveal_strlit("rec-play-stop");
    reveal_strlit("rec-play-stop-play");
    reveal_strlit("play-stop");
    reveal_strlit("play-pause");
    reveal_strlit("rec-pause");
    reveal_strlit("stop-reset");
    reveal_strlit("pause-stop");
    reveal_strlit("pause-stop-reset");
    match a {
        EventAction::Rec => {
        },
        EventAction::Play => {
            assert("play"@.len() != "rec"@.len());
        },
        EventAction::Stop => {
            assert("stop"@.len() != "rec"@.len());
            assert("stop"@[0] != "play"@[0]);
        },
        EventAction::Pause => {
            assert("pause"@.len() != "rec"@.len());
            assert("pause"@.len() != "play"@.len());
            assert("pause"@.len() != "stop"@.len());
        },
        EventAction::Undo => {
            assert("undo"@.len() != "rec"@.len());
            assert("undo"@[0] != "play"@[0]);
            assert("undo"@[0] != "stop"@[0]);
            assert("undo"@.len() != "pause"@.len());
        },
        EventAction::Reset => {
            assert("reset"@.len() != "rec"@.len());
            assert("reset"@.len() != "play"@.len());
            assert("reset"@.len() != "stop"@.len());
            assert("reset"@[0] != "pause"@[0]);
            assert("reset"@.len() != "undo"@.len());
        },
        EventAction::RecPlay => {
            assert("rec-play"@.len() != "rec"@.len());
            assert("rec-play"@.len() != "play"@.len());
            assert("rec-play"@.len() != "stop"@.len());
            assert("rec-play"@.len() != "pause"@.len());
            assert("rec-play"@.len() != "undo"@.len());
            assert("rec-play"@.len() != "reset"@.len());
        },
        EventAction::RecPlayStop => {
            assert("rec-play-stop"@.len() != "rec"@.len());
            assert("rec-play-stop"@.len() != "play"@.len());
            assert("rec-play-stop"@.len() != "stop"@.len());
            assert("rec-play-stop"@.len() != "pause"@.len());
            assert("rec-play-stop"@.len() != "undo"@.len());
            assert("rec-play-stop"@.len() != "reset"@.len());
            assert("rec-play-stop"@.len() != "rec-play"@.len());
        },
        EventAction::RecPlayStopPlay => {
            assert("rec-play-stop-play"@.len() != "rec"@.len());
            assert("rec-play-stop-play"@.len() != "play"@.len());
            assert("rec-play-stop-play"@.len() != "stop"@.len());
            assert("rec-play-stop-play"@.len() != "pause"@.len());
            assert("rec-play-stop-play"@.len() != "undo"@.len());
            assert("rec-play-stop-play"@.len() != "reset"@.len());
            assert("rec-play-stop-play"@.len() != "rec-play"@.len());
            assert("rec-play-stop-play"@.len() != "rec-play-stop"@.len());
        },
        EventAction::PlayStop => {
            assert("play-stop"@.len() != "rec"@.len());
            assert("play-stop"@.len() != "play"@.len());
            assert("play-stop"@.len() != "stop"@.len());
            assert("play-stop"@.len() != "pause"@.len());
            assert("play-stop"@.len() != "undo"@.len());
            assert("play-stop"@.len() != "reset"@.len());
            assert("play-stop"@.len() != "rec-play"@.len());
            assert("play-stop"@.len() != "rec-play-stop"@.len());
            assert("play-stop"@.len() != "rec-play-stop-play"@.len());
        },
        EventAction::PlayPause => {
            assert("play-pause"@.len() != "rec"@.len());
            assert("play-pause"@.len() != "play"@.len());
            assert("play-pause"@.len() != "stop"@.len());
            assert("play-pause"@.len() != "pause"@.len());
            assert("play-pause"@.len() != "undo"@.len());
            assert("play-pause"@.len() != "reset"@.len());
            assert("play-pause"@.len() != "rec-play"@.len());
            assert("play-pause"@.len() != "rec-play-stop"@.len());
            assert("play-pause"@.len() != "rec-play-stop-play"@.len());
            assert("play-pause"@.len() != "play-stop"@.len());
        },
        EventAction::RecPause => {
            assert("rec-pause"@.len() != "rec"@.len());
            assert("rec-pause"@.len() != "play"@.len());
            assert("rec-pause"@.len() != "stop"@.len());
            assert("rec-pause"@.len() != "pause"@.len());
            assert("rec-pause"@.len() != "undo"@.len());
            assert("rec-pause"@.len() != "reset"@.len());
            assert("rec-pause"@.len() != "rec-play"@.len());
            assert("rec-pause"@.len() != "rec-play-stop"@.len());
            assert("rec-pause"@.len() != "rec-play-stop-play"@.len());
            assert("rec-pause"@[0] != "play-stop"@[0]);
            assert("rec-pause"@.len() != "play-pause"@.len());
        },
        EventAction::StopReset => {
            assert("stop-reset"@.len() != "rec"@.len());
            assert("stop-reset"@.len() != "play"@.len());
            assert("stop-reset"@.len() != "stop"@.len());
            assert("stop-reset"@.len() != "pause"@.len());
            assert("stop-reset"@.len() != "undo"@.len());
            assert("stop-reset"@.len() != "reset"@.len());
            assert("stop-reset"@.len() != "rec-play"@.len());
            assert("stop-reset"@.len() != "rec-play-stop"@.len());
            assert("stop-reset"@.len() != "rec-play-stop-play"@.len());
            assert("stop-reset"@.len() != "play-stop"@.len());
            assert("stop-reset"@[0] != "play-pause"@[0]);
            assert("stop-reset"@.len() != "rec-pause"@.len());
        },
        EventAction::PauseStop => {
            assert("pause-stop"@.len() != "rec"@.len());
            assert("pause-stop"@.len() != "play"@.len());
            assert("pause-stop"@.len() != "stop"@.len());
            assert("pause-stop"@.len() != "pause"@.len());
            assert("pause-stop"@.len() != "undo"@.len());
            assert("pause-stop"@.len() != "reset"@.len());
            assert("pause-stop"@.len() != "rec-play"@.len());
            assert("pause-stop"@.len() != "rec-play-stop"@.len());
            assert("pause-stop"@.len() != "rec-play-stop-play"@.len());
            assert("pause-stop"@.len() != "play-stop"@.len());
            assert("pause-stop"@[1] != "play-pause"@[1]);
            assert("pause-stop"@.len() != "rec-pause"@.len());
            assert("pause-stop"@[0] != "stop-reset"@[0]);
        },
        EventAction::PauseStopReset => {
            assert("pause-stop-reset"@.len() != "rec"@.len());
            assert("pause-stop-reset"@.len() != "play"@.len());
            assert("pause-stop-reset"@.len() != "stop"@.len());
            assert("pause-stop-reset"@.len() != "pause"@.len());
            assert("pause-stop-reset"@.len() != "undo"@.len());
            assert("pause-stop-reset"@.len() != "reset"@.len());
            assert("pause-stop-reset"@.len() != "rec-play"@.len());
            assert("pause-stop-reset"@.len() != "rec-play-stop"@.len());
            assert("pause-stop-reset"@.len() != "rec-play-stop-play"@.len());
            assert("pause-stop-reset"@.len() != "play-stop"@.len());
            assert("pause-stop-reset"@.len() != "play-pause"@.len());
            assert("pause-stop-reset"@.len() != "rec-pause"@.len());
            assert("pause-stop-reset"@.len() != "stop-reset"@.len());
            assert("pause-stop-reset"@.len() != "pause-stop"@.len());
        },
    }
}

// ---------------------------------------------------------------------------
// MetaAspect / MetaTarget
// ---------------------------------------------------------------------------

/// Which aspect of a targeted live parameter a meta-entry edits.
#[derive(Debug, Clone, Copy, PartialEq, Eq, Hash, Structural)]
pub enum MetaAspect {
    Min,
    Max,
    Default,
    Step,
    Log,
    Visible,
    Active,
}

impl MetaAspect {
    /// The snake_case wire name of an aspect.
    pub open spec fn name_spec(self) -> Seq<char> {
        match self {
            MetaAspect::Min => "min"@,
            MetaAspect::Max => "max"@,
            MetaAspect::Default => "default"@,
            MetaAspect::Step => "step"@,
            MetaAspect::Log => "log"@,
            MetaAspect::Visible => "visible"@,
            MetaAspect::Active => "active"@,
        }
    }

    /// The aspect whose wire name is `s`, if any (checked in declaration order).
    pub open spec fn from_name_spec(s: Seq<char>) -> Option<MetaAspect> {
        if s == "min"@ {
            Some(MetaAspect::Min)
        } else if s == "max"@ {
            Some(MetaAspect::Max)
        } else if s == "default"@ {
            Some(MetaAspect::Default)
        } else if s == "step"@ {
            Some(MetaAspect::Step)
        } else if s == "log"@ {
            Some(MetaAspect::Log)
        } else if s == "visible"@ {
            Some(MetaAspect::Visible)
        } else if s == "active"@ {
            Some(MetaAspect::Active)
        } else {
            None
        }
    }

    /// Parse a wire name into an aspect.
    pub fn from_name(s: &str) -> (r: Option<MetaAspect>)
        ensures
            r == Self::from_name_spec(s@),
    {
        if str_eq(s, "min") {
            Some(MetaAspect::Min)
        } else if str_eq(s, "max") {
            Some(MetaAspect::Max)
        } else if str_eq(s, "default") {
            Some(MetaAspect::Default)
        } else if str_eq(s, "step") {
            Some(MetaAspect::Step)
        } else if str_eq(s, "log") {
            Some(MetaAspect::Log)
        } else if str_eq(s, "visible") {
            Some(MetaAspect::Visible)
        } else if str_eq(s, "active") {
            Some(MetaAspect::Active)
        } else {
            None
        }
    }
}

/// Facts about the aspect names: none holds a `.`, and reading back the name
/// of an aspect gives that aspect.
proof fn lemma_aspect_names(a: MetaAspect)
    ensures
        MetaAspect::from_name_spec(a.name_spec()) == Some(a),
        forall|i: int| 0 <= i < a.name_spec().len() ==> a.name_spec()[i] != '.',
{
    reveal_strlit("min");
    reveal_strlit("max");
    reveal_strlit("default");
    reveal_strlit("step");
    reveal_strlit("log");
    reveal_strlit("visible");
    reveal_strlit("active");
    match a {
        MetaAspect::Min => {
        },
        MetaAspect::Max => {
            assert("max"@[1] != "min"@[1]);
        },
        MetaAspect::Default => {
            assert("default"@.len() != "min"@.len());
            assert("default"@.len() != "max"@.len());
        },
        MetaAspect::Step => {
            assert("step"@.len() != "min"@.len());
            assert("step"@.len() != "max"@.len());
            assert("step"@.len() != "default"@.len());
        },
        MetaAspect::Log => {
            assert("log"@[0] != "min"@[0]);
            assert("log"@[0] != "max"@[0]);
            assert("log"@.len() != "default"@.len());
            assert("log"@.len() != "step"@.len());
        },
        MetaAspect::Visible => {
            assert("visible"@.len() != "min"@.len());
            assert("visible"@.len() != "max"@.len());
            assert("visible"@[0] != "default"@[0]);
            assert("visible"@.len() != "step"@.len());
            assert("visible"@.len() != "log"@.len());
        },
        MetaAspect::Active => {
            assert("active"@.len() != "min"@.len());
            assert("active"@.len() != "max"@.len());
            assert("active"@.len() != "default"@.len());
            assert("active"@.len() != "step"@.len());
            assert("active"@.len() != "log"@.len());
            assert("active"@.len() != "visible"@.len());
        },
    }
}

/// Structured override key: the targeted parameter's name and the aspect.
/// On the wire it is the single string `"param.aspect"`.
#[derive(Debug, Clone, PartialEq, Eq, Hash)]
pub struct MetaTarget {
    pub param: String,
    pub aspect: MetaAspect,
}

/// Why a `"param.aspect"` string was refused.
#[derive(Debug, Clone, PartialEq, Eq)]
pub enum MetaTargetError {
    /// No `.` in the string.
    MissingDot,
    /// The part after the last `.` names no aspect.
    UnknownAspect,
}

/// What `MetaTarget::parse_str` gives for `s`: the part after the last `.`
/// is the aspect, everything before it is the parameter name.
pub open spec fn parse_target_spec(s: Seq<char>) -> Result<(Seq<char>, MetaAspect), MetaTargetError> {
    match rsplit_once_spec(s, '.') {
        None => Err(MetaTargetError::MissingDot),
        Some((param, aspect)) => match MetaAspect::from_name_spec(aspect) {
            Some(a) => Ok((param, a)),
            None => Err(MetaTargetError::UnknownAspect),
        },
    }
}

/// The message text for a refused `"param.aspect"` string.
pub open spec fn target_error_message(s: Seq<char>) -> Seq<char> {
    match rsplit_once_spec(s, '.') {
        None => "expected 'param.aspect', got '"@ + s + "'"@,
        Some((_, aspect)) => "unknown aspect '"@ + aspect + "' in '"@ + s + "'"@,
    }
}

impl MetaTarget {
    /// Wire name of the aspect.
    pub fn aspect_str(&self) -> (r: &'static str)
        ensures
            r@ == self.aspect.name_spec(),
    {
        match self.aspect {
            MetaAspect::Min => "min",
            MetaAspect::Max => "max",
            MetaAspect::Default => "default",
            MetaAspect::Step => "step",
            MetaAspect::Log => "log",
            MetaAspect::Visible => "visible",
            MetaAspect::Active => "active",
        }
    }

    /// The wire form `"param.aspect"` of this target.
    pub open spec fn wire_spec(&self) -> Seq<char> {
        self.param@ + "."@ + self.aspect.name_spec()
    }

    /// Render the wire form `"param.aspect"`.
    pub fn to_wire(&self) -> (r: String)
        ensures
            r@ == self.wire_spec(),
    {
        let mut s = self.param.clone();
        push_char(&mut s, '.');
        append_str(&mut s, self.aspect_str());
        proof {
            reveal_strlit(".");
        }
        assert(s@ =~= self.wire_spec());
        s
    }

    /// Parse from the wire form `"param.aspect"`, e.g. `"depth_ms.max"`.
    /// The split is at the last `.`, so parameter names may hold dots.
    pub fn parse_str(s: &str) -> (r: Result<MetaTarget, String>)
        ensures
            match (r, parse_target_spec(s@)) {
                (Ok(t), Ok((p, a))) => t.param@ == p && t.aspect == a,
                (Err(e), Err(_)) => e@ == target_error_message(s@),
                _ => false,
            },
    {
        match rsplit_once(s, '.') {
            None => {
                let mut e = String::from_str("expected 'param.aspect', got '");
                append_str(&mut e, s);
                append_str(&mut e, "'");
                Err(e)
            },
            Some((param, aspect_str)) => match MetaAspect::from_name(aspect_str) {
                Some(aspect) => Ok(MetaTarget { param: param.to_owned(), aspect }),
                None => {
                    let mut e = String::from_str("unknown aspect '");
                    append_str(&mut e, aspect_str);
                    append_str(&mut e, "' in '");
                    append_str(&mut e, s);
                    append_str(&mut e, "'");
                    Err(e)
                },
            },
        }
    }
}

/// Reading back the wire form of a target gives the same target: the split
/// at the last `.` recovers the parameter name, whatever dots it holds.
pub proof fn law_target_wire_round_trip(t: MetaTarget)
    ensures
        parse_target_spec(t.wire_spec()) == Ok::<(Seq<char>, MetaAspect), MetaTargetError>(
            (t.param@, t.aspect),
        ),
{
    reveal_strlit(".");
    lemma_aspect_names(t.aspect);
    let w = t.wire_spec();
    let p = t.param@.len() as int;
    assert(w[p] == '.');
    assert(crate::text::is_last_of(w, '.', p)) by {
        assert forall|j: int| p < j < w.len() implies w[j] != '.' by {
            assert(w[j] == t.aspect.name_spec()[j - p - 1]);
        }
    }
    let k = choose|k: int| crate::text::is_last_of(w, '.', k);
    assert(k == p) by {
        if k < p {
            assert(w[p] != '.');
        }
        if k > p {
            assert(w[k] == t.aspect.name_spec()[k - p - 1]);
        }
    }
    assert(w.take(p) =~= t.param@);
    assert(w.skip(p + 1) =~= t.aspect.name_spec());
}

// ---------------------------------------------------------------------------
// ParamKind
// ---------------------------------------------------------------------------

/// Role of a parameter entry within a canonical list.
#[derive(Debug, Clone, Copy, PartialEq, Eq, Structural)]
pub enum ParamKind {
    /// Live parameter (knob / toggle / read-only display).
    ParamMeta { max_growable_at_runtime: bool, read_only: bool },
    /// Editable envelope for one aspect (`Min` or `Max`) of a targeted `ParamMeta`.
    BoundMeta { aspect: MetaAspect },
    /// Single action trigger.
    Event { action: EventAction },
    /// UI grouping anchor, no value of its own.
    ActionsGroup,
}

impl ParamKind {
    /// The role every freshly declared live parameter gets.
    pub fn live() -> (r: ParamKind)
        ensures
            r == (ParamKind::ParamMeta { max_growable_at_runtime: true, read_only: false }),
    {
        ParamKind::ParamMeta { max_growable_at_runtime: true, read_only: false }
    }

    /// Lock the max at construction time. Only valid on `ParamMeta`.
    pub fn with_non_growable(self) -> (r: ParamKind)
        requires
            self is ParamMeta,
        ensures
            r == (ParamKind::ParamMeta {
                max_growable_at_runtime: false,
                read_only: self->read_only,
            }),
    {
        match self {
            ParamKind::ParamMeta { read_only, .. } => ParamKind::ParamMeta {
                max_growable_at_runtime: false,
                read_only,
            },
            _ => self,
        }
    }

    /// Mark a `ParamMeta` as effect-driven (read-only). Only valid on `ParamMeta`.
    pub fn with_read_only(self) -> (r: ParamKind)
        requires
            self is ParamMeta,
        ensures
            r == (ParamKind::ParamMeta {
                max_growable_at_runtime: self->max_growable_at_runtime,
                read_only: true,
            }),
    {
        match self {
            ParamKind::ParamMeta { max_growable_at_runtime, .. } => ParamKind::ParamMeta {
                max_growable_at_runtime,
                read_only: true,
            },
            _ => self,
        }
    }
}

// ---------------------------------------------------------------------------
// Canonical list validation
// ---------------------------------------------------------------------------

/// Shape of an entry's value (the variant of its value type, without payload).
#[derive(Debug, Clone, Copy, PartialEq, Eq, Structural)]
pub enum ParamShape {
    ContinuousFloat,
    ContinuousInt,
    DiscreteFloat,
    DiscreteBool,
    NoValue,
}

/// What the structural validator reads of one canonical entry.
#[derive(Debug, Clone)]
pub struct CanonicalEntry {
    pub name: String,
    pub kind: ParamKind,
    pub shape: ParamShape,
}

/// Why a canonical list is malformed; `index` is the offending entry.
#[derive(Debug, Clone, Copy, PartialEq, Eq, Structural)]
pub enum CanonicalError {
    /// A `BoundMeta` whose aspect is neither `Min` nor `Max`.
    BoundAspectNotMinMax { index: usize },
    /// The `BoundMeta`'s value shape differs from its target's.
    BoundTypeMismatch { index: usize },
    /// No `ParamMeta` carries the `BoundMeta`'s name.
    BoundWithoutTarget { index: usize },
    /// An `Event` entry carries a value shape.
    EventWithValue { index: usize },
    /// An `ActionsGroup` entry carries a value shape.
    GroupWithValue { index: usize },
}

/// `j` is the first `ParamMeta` entry named `name`.
pub open spec fn is_first_meta_named(arr: Seq<CanonicalEntry>, name: Seq<char>, j: int) -> bool {
    &&& 0 <= j < arr.len()
    &&& arr[j].kind is ParamMeta
    &&& arr[j].name@ == name
    &&& forall|k: int| 0 <= k < j ==> !(arr[k].kind is ParamMeta && arr[k].name@ == name)
}

/// The defect of entry `i`, if it has one.
pub open spec fn entry_defect(arr: Seq<CanonicalEntry>, i: int) -> Option<CanonicalError> {
    let e = arr[i];
    match e.kind {
        ParamKind::BoundMeta { aspect } => {
            if !(aspect == MetaAspect::Min || aspect == MetaAspect::Max) {
                Some(CanonicalError::BoundAspectNotMinMax { index: i as usize })
            } else if exists|j: int| is_first_meta_named(arr, e.name@, j) {
                let j = choose|j: int| is_first_meta_named(arr, e.name@, j);
                if (arr[j].shape == ParamShape::ContinuousFloat && e.shape
                    == ParamShape::ContinuousFloat) || (arr[j].shape == ParamShape::ContinuousInt
                    && e.shape == ParamShape::ContinuousInt) {
                    None
                } else {
                    Some(CanonicalError::BoundTypeMismatch { index: i as usize })
                }
            } else {
                Some(CanonicalError::BoundWithoutTarget { index: i as usize })
            }
        },
        ParamKind::ParamMeta { .. } => None,
        ParamKind::Event { .. } => {
            if e.shape == ParamShape::NoValue {
                None
            } else {
                Some(CanonicalError::EventWithValue { index: i as usize })
            }
        },
        ParamKind::ActionsGroup => {
            if e.shape == ParamShape::NoValue {
                None
            } else {
                Some(CanonicalError::GroupWithValue { index: i as usize })
            }
        },
    }
}

/// Find the first `ParamMeta` entry named `name`.
fn find_first_meta(arr: &Vec<CanonicalEntry>, name: &str) -> (r: Option<usize>)
    ensures
        match r {
            Some(j) => is_first_meta_named(arr@, name@, j as int),
            None => !exists|j: int| is_first_meta_named(arr@, name@, j),
        },
{
    let mut j: usize = 0;
    while j < arr.len()
        invariant
            j <= arr.len(),
            forall|k: int| 0 <= k < j ==> !(arr@[k].kind is ParamMeta && arr@[k].name@ == name@),
        decreases arr.len() - j,
    {
        let is_meta = match arr[j].kind {
            ParamKind::ParamMeta { .. } => true,
            _ => false,
        };
        if is_meta && str_eq(arr[j].name.as_str(), name) {
            return Some(j);
        }
        j = j + 1;
    }
    assert(!exists|j: int| is_first_meta_named(arr@, name@, j)) by {
        if exists|j: int| is_first_meta_named(arr@, name@, j) {
            let j = choose|j: int| is_first_meta_named(arr@, name@, j);
            assert(!(arr@[j].kind is ParamMeta && arr@[j].name@ == name@));
        }
    }
    None
}

/// A canonical list is well formed: no entry has a defect.
pub open spec fn canonical_ok(arr: Seq<CanonicalEntry>) -> bool {
    forall|i: int| 0 <= i < arr.len() ==> entry_defect(arr, i) is None
}

/// Check a canonical list: every `BoundMeta` has aspect `Min`/`Max` and a
/// `ParamMeta` target of the same name and matching continuous shape, and
/// `Event` / `ActionsGroup` entries carry no value. Reports the first
/// defective entry in list order.
pub fn check_canonical(arr: &Vec<CanonicalEntry>) -> (r: Result<(), CanonicalError>)
    ensures
        match r {
            Ok(()) => canonical_ok(arr@),
            Err(e) => exists|i: int|
                0 <= i < arr@.len() && entry_defect(arr@, i) == Some(e) && forall|k: int|
                    0 <= k < i ==> entry_defect(arr@, k) is None,
        },
{
    let mut i: usize = 0;
    while i < arr.len()
        invariant
            i <= arr.len(),
            forall|k: int| 0 <= k < i ==> entry_defect(arr@, k) is None,
        decreases arr.len() - i,
    {
        let defect: Option<CanonicalError> = match arr[i].kind {
            ParamKind::BoundMeta { aspect } => {
                match aspect {
                    MetaAspect::Min | MetaAspect::Max => {
                        match find_first_meta(arr, arr[i].name.as_str()) {
                            Some(j) => {
                                let ok = (arr[j].shape == ParamShape::ContinuousFloat
                                    && arr[i].shape == ParamShape::ContinuousFloat) || (
                                arr[j].shape == ParamShape::ContinuousInt && arr[i].shape
                                    == ParamShape::ContinuousInt);
                                proof {
                                    let jj = choose|jj: int|
                                        is_first_meta_named(arr@, arr@[i as int].name@, jj);
                                    assert(jj == j as int) by {
                                        if jj < j as int {
                                            assert(!(arr@[jj].kind is ParamMeta && arr@[jj].name@
                                                == arr@[i as int].name@));
                                        }
                                        if jj > j as int {
                                            assert(!(arr@[j as int].kind is ParamMeta
                                                && arr@[j as int].name@ == arr@[i as int].name@));
                                        }
                                    }
                                }
                                if ok {
                                    None
                                } else {
                                    Some(CanonicalError::BoundTypeMismatch { index: i })
                                }
                            },
                            None => Some(CanonicalError::BoundWithoutTarget { index: i }),
                        }
                    },
                    _ => Some(CanonicalError::BoundAspectNotMinMax { index: i }),
                }
            },
            ParamKind::ParamMeta { .. } => None,
            ParamKind::Event { .. } => {
                if arr[i].shape == ParamShape::NoValue {
                    None
                } else {
                    Some(CanonicalError::EventWithValue { index: i })
                }
            },
            ParamKind::ActionsGroup => {
                if arr[i].shape == ParamShape::NoValue {
                    None
                } else {
                    Some(CanonicalError::GroupWithValue { index: i })
                }
            },
        };
        assert(defect == entry_defect(arr@, i as int));
        if let Some(e) = defect {
            return Err(e);
        }
        i = i + 1;
    }
    Ok(())
}

/// Assert that a canonical list is well formed. A malformed list is a
/// defect of the effect's declaration, refused before this call (see
/// [`check_canonical`] for the first defect).
pub fn validate_canonical(arr: &Vec<CanonicalEntry>)
    requires
        canonical_ok(arr@),
{
    let checked = check_canonical(arr);
    assert(checked is Ok) by {
        if let Err(e) = checked {
            let i = choose|i: int|
                0 <= i < arr@.len() && entry_defect(arr@, i) == Some(e) && forall|k: int|
                    0 <= k < i ==> entry_defect(arr@, k) is None;
            assert(entry_defect(arr@, i) is None);
        }
    }
}

/// Byte-by-byte string equality (usable where `str::eq` is not).
pub fn const_str_eq(a: &str, b: &str) -> (r: bool)
    ensures
        r == (a@ == b@),
{
    str_eq(a, b)
}

} // verus!
