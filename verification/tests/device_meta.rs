use multi_effect::device::{
    check_canonical, const_str_eq, validate_canonical, CanonicalEntry, CanonicalError, EventAction, MetaAspect,
    MetaTarget, ParamKind, ParamShape,
};
use multi_effect::mapping::{
    channel_for_target,
    default_baud, default_channel, default_host, default_midi_out_channel, default_true, DeviceDef,
    MidiChannel,
};
use multi_effect::snapshot::SnapshotState;

const ALL_ACTIONS: [EventAction; 15] = [
    EventAction::Rec,
    EventAction::Play,
    EventAction::Stop,
    EventAction::Pause,
    EventAction::Undo,
    EventAction::Reset,
    EventAction::RecPlay,
    EventAction::RecPlayStop,
    EventAction::RecPlayStopPlay,
    EventAction::PlayStop,
    EventAction::PlayPause,
    EventAction::RecPause,
    EventAction::StopReset,
    EventAction::PauseStop,
    EventAction::PauseStopReset,
];

#[test]
fn action_names_are_kebab_case() {
    assert_eq!(EventAction::Rec.name(), "rec");
    assert_eq!(EventAction::RecPlayStopPlay.name(), "rec-play-stop-play");
    assert_eq!(EventAction::PauseStopReset.name(), "pause-stop-reset");
    assert_eq!(EventAction::from_name("play-pause"), Some(EventAction::PlayPause));
    assert_eq!(EventAction::from_name("Play"), None);
}

#[test]
fn action_names_round_trip() {
    for a in ALL_ACTIONS {
        assert_eq!(EventAction::from_name(a.name()), Some(a));
    }
}

#[test]
fn meta_targets_parse_at_the_last_dot() {
    let t = MetaTarget::parse_str("depth_ms.max").unwrap();
    assert_eq!(t, MetaTarget { param: "depth_ms".to_string(), aspect: MetaAspect::Max });
    let dotted = MetaTarget::parse_str("a.b.visible").unwrap();
    assert_eq!(dotted.param, "a.b");
    assert_eq!(dotted.aspect, MetaAspect::Visible);
    assert_eq!(MetaTarget::parse_str("nodot").unwrap_err(), "expected 'param.aspect', got 'nodot'");
    assert_eq!(MetaTarget::parse_str("x.size").unwrap_err(), "unknown aspect 'size' in 'x.size'");
}

#[test]
fn meta_target_wire_form_round_trips() {
    let t = MetaTarget { param: "rate.hz".to_string(), aspect: MetaAspect::Default };
    assert_eq!(t.to_wire(), "rate.hz.default");
    assert_eq!(t.aspect_str(), "default");
    assert_eq!(MetaTarget::parse_str(&t.to_wire()).unwrap(), t);
    assert_eq!(MetaAspect::from_name("log"), Some(MetaAspect::Log));
    assert_eq!(MetaAspect::from_name("LOG"), None);
}

#[test]
fn kind_builders() {
    let k = ParamKind::live();
    assert_eq!(k, ParamKind::ParamMeta { max_growable_at_runtime: true, read_only: false });
    assert_eq!(
        k.with_read_only().with_non_growable(),
        ParamKind::ParamMeta { max_growable_at_runtime: false, read_only: true }
    );
}

fn entry(name: &str, kind: ParamKind, shape: ParamShape) -> CanonicalEntry {
    CanonicalEntry { name: name.to_string(), kind, shape }
}

#[test]
fn canonical_lists_are_checked() {
    let good = vec![
        entry("duration", ParamKind::live(), ParamShape::ContinuousFloat),
        entry("duration", ParamKind::BoundMeta { aspect: MetaAspect::Max }, ParamShape::ContinuousFloat),
        entry("rec", ParamKind::Event { action: EventAction::Rec }, ParamShape::NoValue),
        entry("transport", ParamKind::ActionsGroup, ParamShape::NoValue),
    ];
    assert_eq!(check_canonical(&good), Ok(()));
    validate_canonical(&good);
    let bad_aspect = vec![entry("x", ParamKind::BoundMeta { aspect: MetaAspect::Log }, ParamShape::ContinuousFloat)];
    assert_eq!(check_canonical(&bad_aspect), Err(CanonicalError::BoundAspectNotMinMax { index: 0 }));
    let orphan = vec![entry("x", ParamKind::BoundMeta { aspect: MetaAspect::Min }, ParamShape::ContinuousInt)];
    assert_eq!(check_canonical(&orphan), Err(CanonicalError::BoundWithoutTarget { index: 0 }));
    let mismatch = vec![
        entry("n", ParamKind::live(), ParamShape::ContinuousInt),
        entry("n", ParamKind::BoundMeta { aspect: MetaAspect::Max }, ParamShape::ContinuousFloat),
    ];
    assert_eq!(check_canonical(&mismatch), Err(CanonicalError::BoundTypeMismatch { index: 1 }));
    let valued_event = vec![entry("rec", ParamKind::Event { action: EventAction::Rec }, ParamShape::DiscreteBool)];
    assert_eq!(check_canonical(&valued_event), Err(CanonicalError::EventWithValue { index: 0 }));
    let valued_group = vec![entry("g", ParamKind::ActionsGroup, ParamShape::ContinuousInt)];
    assert_eq!(check_canonical(&valued_group), Err(CanonicalError::GroupWithValue { index: 0 }));
}

#[test]
fn const_str_eq_compares_text() {
    assert!(const_str_eq("mix", "mix"));
    assert!(!const_str_eq("mix", "mi"));
    assert!(!const_str_eq("eq_low", "eq_mid"));
}

#[test]
fn configuration_defaults() {
    assert_eq!(default_baud(), 115_200);
    assert_eq!(default_host(), "0.0.0.0");
    assert!(default_true());
    assert_eq!(default_channel(), MidiChannel::Omni);
    assert_eq!(default_midi_out_channel(), 1);
}

#[test]
fn midi_channel_selectors() {
    assert!(MidiChannel::Omni.matches(9));
    assert!(MidiChannel::Number(3).matches(3));
    assert!(!MidiChannel::Number(3).matches(4));
    assert_eq!(MidiChannel::from_text("*"), Ok(MidiChannel::Omni));
    assert_eq!(MidiChannel::from_text("10"), Ok(MidiChannel::Number(10)));
    assert!(MidiChannel::from_text("x").is_err());
    assert_eq!(MidiChannel::from_number(5), MidiChannel::Number(5));
    assert_eq!(MidiChannel::from_number(258), MidiChannel::Number(2));
}

#[test]
fn device_activity() {
    let d = DeviceDef::Net { host: "0.0.0.0".to_string(), port: 9000, active: false };
    assert!(!d.is_active());
    let m = DeviceDef::MidiIn { dev: None, channel: MidiChannel::Omni, active: true };
    assert!(m.is_active());
}

#[test]
fn state_labels_ignore_persistence() {
    assert_eq!(SnapshotState::Clean.label(), "Clean");
    assert_eq!(SnapshotState::CleanPersisted.label(), "Clean");
    assert_eq!(SnapshotState::ComparingPersisted.label(), "Comparing");
    assert_eq!(SnapshotState::default(), SnapshotState::Clean);
}

#[test]
fn reverse_lookup_finds_the_channel_of_a_target() {
    let pairs = vec![
        ("7".to_string(), "06-mix.gain".to_string()),
        ("11".to_string(), "04-delay.feedback".to_string()),
    ];
    assert_eq!(channel_for_target(&pairs, "04-delay.feedback"), Some(1));
    assert_eq!(channel_for_target(&pairs, "06-mix.gain"), Some(0));
    assert_eq!(channel_for_target(&pairs, "06-mix.wet"), None);
}
