use multi_effect::bounds::{
    apply_override, bound_meta_int, clamp_is_ordered, find_first, find_param_info, find_param_meta, locate_set,
    validate_set, OverrideOutcome, OverrideValue, ParamEntry, Probe, SetCheck, ValueShape,
};
use multi_effect::device::{MetaAspect, MetaTarget, ParamKind};

fn live(name: &str, value: ValueShape) -> ParamEntry {
    ParamEntry {
        name: name.to_string(),
        kind: ParamKind::ParamMeta { max_growable_at_runtime: true, read_only: false },
        value,
        visible: true,
        active: true,
    }
}

fn bound(name: &str, aspect: MetaAspect, min: i32, max: i32) -> ParamEntry {
    ParamEntry {
        name: name.to_string(),
        kind: ParamKind::BoundMeta { aspect },
        value: ValueShape::ContinuousInt { min, max, default: 0 },
        visible: true,
        active: true,
    }
}

fn group(name: &str) -> ParamEntry {
    ParamEntry {
        name: name.to_string(),
        kind: ParamKind::ActionsGroup,
        value: ValueShape::NoValue,
        visible: false,
        active: true,
    }
}

/// A list shaped like the looper's: a read-only counter capped at 4 with an
/// envelope up to 16 for its max.
fn looper_like() -> Vec<ParamEntry> {
    vec![
        live("active", ValueShape::DiscreteBool { default: true }),
        live("wet", ValueShape::ContinuousFloat),
        group("transport"),
        live("buffer_cnt", ValueShape::ContinuousInt { min: 0, max: 4, default: 0 }),
        bound("buffer_cnt", MetaAspect::Max, 0, 16),
    ]
}

fn target(param: &str, aspect: MetaAspect) -> MetaTarget {
    MetaTarget { param: param.to_string(), aspect }
}

fn int_of(e: &ParamEntry) -> (i32, i32, i32) {
    match e.value {
        ValueShape::ContinuousInt { min, max, default } => (min, max, default),
        _ => panic!("not an integer parameter"),
    }
}

#[test]
fn max_override_clamps_to_the_envelope() {
    let canonical = looper_like();
    let mut resolved = looper_like();
    let r = apply_override(&mut resolved, &canonical, &target("buffer_cnt", MetaAspect::Max), OverrideValue::Int(40));
    assert_eq!(r, OverrideOutcome::Applied { changed: true });
    assert_eq!(int_of(&resolved[3]), (0, 16, 0));
    // Without a declared envelope the reference range is the cap.
    let mut plain = vec![live("n", ValueShape::ContinuousInt { min: 0, max: 10, default: 5 })];
    let reference = vec![live("n", ValueShape::ContinuousInt { min: 0, max: 10, default: 5 })];
    apply_override(&mut plain, &reference, &target("n", MetaAspect::Max), OverrideValue::Int(99));
    assert_eq!(int_of(&plain[0]), (0, 10, 5));
}

#[test]
fn min_above_max_is_rolled_back() {
    let reference = vec![live("n", ValueShape::ContinuousInt { min: 0, max: 100, default: 5 })];
    let mut resolved = vec![live("n", ValueShape::ContinuousInt { min: 0, max: 10, default: 5 })];
    let r = apply_override(&mut resolved, &reference, &target("n", MetaAspect::Min), OverrideValue::Int(50));
    assert_eq!(r, OverrideOutcome::Applied { changed: false });
    assert_eq!(int_of(&resolved[0]), (0, 10, 5));
}

#[test]
fn narrowing_pulls_the_default_into_range() {
    let reference = vec![live("n", ValueShape::ContinuousInt { min: 0, max: 100, default: 50 })];
    let mut resolved = vec![live("n", ValueShape::ContinuousInt { min: 0, max: 100, default: 50 })];
    let r = apply_override(&mut resolved, &reference, &target("n", MetaAspect::Max), OverrideValue::Int(20));
    assert_eq!(r, OverrideOutcome::Applied { changed: true });
    assert_eq!(int_of(&resolved[0]), (0, 20, 20));
}

#[test]
fn default_outside_the_range_is_rolled_back() {
    let reference = vec![live("n", ValueShape::ContinuousInt { min: 0, max: 100, default: 5 })];
    let mut resolved = vec![live("n", ValueShape::ContinuousInt { min: 0, max: 10, default: 5 })];
    let r = apply_override(&mut resolved, &reference, &target("n", MetaAspect::Default), OverrideValue::Int(50));
    assert_eq!(r, OverrideOutcome::Applied { changed: false });
    assert_eq!(int_of(&resolved[0]), (0, 10, 5));
    let r2 = apply_override(&mut resolved, &reference, &target("n", MetaAspect::Default), OverrideValue::Float { truncated: 7 });
    assert_eq!(r2, OverrideOutcome::Applied { changed: true });
    assert_eq!(int_of(&resolved[0]), (0, 10, 7));
}

#[test]
fn flags_take_booleans_only() {
    let canonical = looper_like();
    let mut resolved = looper_like();
    let r = apply_override(&mut resolved, &canonical, &target("transport", MetaAspect::Visible), OverrideValue::Bool(true));
    assert_eq!(r, OverrideOutcome::Applied { changed: true });
    assert!(resolved[2].visible);
    let again = apply_override(&mut resolved, &canonical, &target("transport", MetaAspect::Visible), OverrideValue::Bool(true));
    assert_eq!(again, OverrideOutcome::Applied { changed: false });
    let wrong = apply_override(&mut resolved, &canonical, &target("wet", MetaAspect::Active), OverrideValue::Int(1));
    assert_eq!(wrong, OverrideOutcome::Applied { changed: false });
    assert!(resolved[1].active);
    let group_min = apply_override(&mut resolved, &canonical, &target("transport", MetaAspect::Min), OverrideValue::Bool(true));
    assert_eq!(group_min, OverrideOutcome::Applied { changed: false });
}

#[test]
fn float_parameters_are_handed_back() {
    let canonical = looper_like();
    let mut resolved = looper_like();
    let r = apply_override(&mut resolved, &canonical, &target("wet", MetaAspect::Max), OverrideValue::Float { truncated: 0 });
    assert_eq!(r, OverrideOutcome::FloatEntry { index: 1 });
}

#[test]
fn bool_default_and_unknown_targets() {
    let canonical = looper_like();
    let mut resolved = looper_like();
    let r = apply_override(&mut resolved, &canonical, &target("active", MetaAspect::Default), OverrideValue::Bool(false));
    assert_eq!(r, OverrideOutcome::Applied { changed: true });
    assert_eq!(resolved[0].value, ValueShape::DiscreteBool { default: false });
    let unknown = apply_override(&mut resolved, &canonical, &target("nope", MetaAspect::Max), OverrideValue::Int(1));
    assert_eq!(unknown, OverrideOutcome::Applied { changed: false });
    let mut short = vec![live("n", ValueShape::ContinuousInt { min: 0, max: 1, default: 0 })];
    let mismatch = apply_override(&mut short, &canonical, &target("n", MetaAspect::Max), OverrideValue::Int(1));
    assert_eq!(mismatch, OverrideOutcome::Applied { changed: false });
}

#[test]
fn lookups_find_the_first_match() {
    let list = looper_like();
    assert_eq!(find_param_info(&list, "buffer_cnt"), 3);
    assert_eq!(find_param_meta(&list, "buffer_cnt"), 3);
    assert_eq!(find_first(&list, "buffer_cnt", Probe::IntBound(MetaAspect::Max)), Some(4));
    assert_eq!(find_first(&list, "buffer_cnt", Probe::Group), None);
    assert_eq!(bound_meta_int(&list, "buffer_cnt", MetaAspect::Max), Some((0, 16)));
    assert_eq!(bound_meta_int(&list, "buffer_cnt", MetaAspect::Min), None);
}

#[test]
fn set_values_are_checked_against_the_shape() {
    let int = ValueShape::ContinuousInt { min: 0, max: 10, default: 0 };
    assert_eq!(validate_set(int, OverrideValue::Int(42)), SetCheck::Int(10));
    assert_eq!(validate_set(int, OverrideValue::Float { truncated: -3 }), SetCheck::Int(0));
    assert_eq!(validate_set(int, OverrideValue::Bool(true)), SetCheck::Rejected);
    assert_eq!(validate_set(ValueShape::ContinuousFloat, OverrideValue::Int(1)), SetCheck::Float);
    assert_eq!(validate_set(ValueShape::ContinuousFloat, OverrideValue::Bool(true)), SetCheck::Rejected);
    assert_eq!(validate_set(ValueShape::DiscreteBool { default: true }, OverrideValue::Bool(false)), SetCheck::Bool(false));
    assert_eq!(validate_set(ValueShape::DiscreteBool { default: true }, OverrideValue::Int(0)), SetCheck::Rejected);
    assert_eq!(validate_set(ValueShape::NoValue, OverrideValue::Int(0)), SetCheck::Rejected);
}

#[test]
fn set_paths_are_located() {
    let keys = vec!["01-looper".to_string(), "02-mix".to_string()];
    let infos = vec![looper_like(), vec![live("dry", ValueShape::ContinuousFloat)]];
    assert_eq!(locate_set(&keys, &infos, "02-mix.dry"), Ok((1, 0)));
    assert_eq!(locate_set(&keys, &infos, "01-looper.buffer_cnt"), Ok((0, 3)));
    assert_eq!(locate_set(&keys, &infos, "nodot").unwrap_err(), "invalid param path 'nodot': missing '.'");
    assert_eq!(locate_set(&keys, &infos, "02-mix.gain").unwrap_err(), "SET 02-mix.gain: unknown param");
    assert_eq!(locate_set(&keys, &infos, "03-x.wet").unwrap_err(), "No node found with key 03-x");
}

#[test]
fn rewriting_the_stored_value_reports_no_change() {
    let reference = vec![live("n", ValueShape::ContinuousInt { min: 0, max: 100, default: 5 })];
    let mut resolved = vec![live("n", ValueShape::ContinuousInt { min: 0, max: 10, default: 5 })];
    let r = apply_override(&mut resolved, &reference, &target("n", MetaAspect::Max), OverrideValue::Int(10));
    assert_eq!(r, OverrideOutcome::Applied { changed: false });
    assert_eq!(int_of(&resolved[0]), (0, 10, 5));
    let d = apply_override(&mut resolved, &reference, &target("n", MetaAspect::Default), OverrideValue::Int(5));
    assert_eq!(d, OverrideOutcome::Applied { changed: false });
    let canonical = looper_like();
    let mut list = looper_like();
    let b = apply_override(&mut list, &canonical, &target("active", MetaAspect::Default), OverrideValue::Bool(true));
    assert_eq!(b, OverrideOutcome::Applied { changed: false });
}

#[test]
fn only_the_clamp_range_in_use_must_be_ordered() {
    // An unrelated reversed range does not stop an override.
    let reference = vec![
        live("n", ValueShape::ContinuousInt { min: 0, max: 100, default: 5 }),
        live("m", ValueShape::ContinuousInt { min: 9, max: 1, default: 5 }),
    ];
    let mut resolved = vec![
        live("n", ValueShape::ContinuousInt { min: 0, max: 10, default: 5 }),
        live("m", ValueShape::ContinuousInt { min: 1, max: 9, default: 5 }),
    ];
    let t = target("n", MetaAspect::Max);
    assert!(clamp_is_ordered(&resolved, &reference, &t, OverrideValue::Int(20)));
    let r = apply_override(&mut resolved, &reference, &t, OverrideValue::Int(20));
    assert_eq!(r, OverrideOutcome::Applied { changed: true });
    assert_eq!(int_of(&resolved[0]), (0, 20, 5));
    // The reversed range of the target itself is refused.
    let m = target("m", MetaAspect::Max);
    assert!(!clamp_is_ordered(&resolved, &reference, &m, OverrideValue::Int(3)));
    // A boolean value never reaches the clamp.
    assert!(clamp_is_ordered(&resolved, &reference, &m, OverrideValue::Bool(true)));
}
