use multi_effect::chain::{
    chain_dry_effective, check_channels, dry_effective_updates, needs_dry, route, route_action,
    route_param, validate_eq_order, DryChain, DryNode, EqType, NodeRef,
};

fn node(key: &str, t: &str) -> NodeRef {
    NodeRef { key: key.to_string(), device_type: t.to_string() }
}

#[test]
fn eq_before_mix_is_refused() {
    let nodes = vec![node("01-eq", "eq_low"), node("02-delay", "delay"), node("09-mix", "mix")];
    assert_eq!(
        validate_eq_order(&nodes).unwrap_err(),
        "EQ must be placed after Mix (analogue bypass phase issue). Move '01-eq' after '09-mix'."
    );
}

#[test]
fn eq_after_mix_is_fine() {
    let nodes = vec![node("01-delay", "delay"), node("09-mix", "mix"), node("10-eq", "eq_high")];
    assert!(validate_eq_order(&nodes).is_ok());
    assert!(validate_eq_order(&Vec::new()).is_ok());
}

#[test]
fn the_first_misplaced_mix_and_first_eq_are_named() {
    let nodes = vec![
        node("a-mix", "mix"),
        node("b-eq", "eq_mid"),
        node("c-eq", "eq_high"),
        node("d-mix", "mix"),
        node("e-mix", "mix"),
    ];
    assert_eq!(
        validate_eq_order(&nodes).unwrap_err(),
        "EQ must be placed after Mix (analogue bypass phase issue). Move 'b-eq' after 'd-mix'."
    );
}

#[test]
fn channels_must_exist() {
    assert!(check_channels(0, [1, 2], [1, 2], 2, 2).is_ok());
    assert!(check_channels(0, [0, 0], [0, 2], 2, 2).is_ok());
    assert_eq!(
        check_channels(3, [1, 5], [1, 2], 2, 2).unwrap_err(),
        "Chain 3: input channel 5 out of range (in_channels=2)"
    );
    assert_eq!(
        check_channels(0, [1, 2], [7, 9], 2, 4).unwrap_err(),
        "Chain 0: output channel 7 out of range (out_channels=4)"
    );
}

#[test]
fn paths_route_by_key_prefix() {
    let keys = vec!["01-looper".to_string(), "04-reverb".to_string(), "04-reverb".to_string()];
    assert_eq!(route(&keys, "04-reverb.wet"), Some((1, "wet")));
    assert_eq!(route(&keys, "04-reverb.a.b"), Some((1, "a.b")));
    assert_eq!(route(&keys, "nodot"), None);
    assert_eq!(route(&keys, "09-mix.dry"), None);
    assert_eq!(route_param(&keys, "01-looper.wet"), Ok((0, "wet")));
    assert_eq!(route_param(&keys, "x.wet").unwrap_err(), "no node handles 'x.wet'");
    assert_eq!(route_action(&keys, "x.rec").unwrap_err(), "no node handles action 'x.rec'");
}

#[test]
fn dry_stays_on_unless_muted_and_unneeded() {
    let eq_on = DryNode { device_type: "eq_mid".to_string(), active: None };
    let eq_off = DryNode { device_type: "eq_mid".to_string(), active: Some(false) };
    let delay = DryNode { device_type: "delay".to_string(), active: Some(true) };
    assert!(needs_dry("eq_low"));
    assert!(!needs_dry("reverb"));
    assert!(!needs_dry("mix"));
    let unmuted = DryChain { mute_dry: false, dry_effective: true, nodes: vec![] };
    assert!(chain_dry_effective(&unmuted));
    let muted = DryChain { mute_dry: true, dry_effective: true, nodes: vec![delay, eq_off] };
    assert!(!chain_dry_effective(&muted));
    let overridden = DryChain { mute_dry: true, dry_effective: false, nodes: vec![eq_on] };
    assert!(chain_dry_effective(&overridden));
    let chains = vec![unmuted, muted, overridden];
    assert_eq!(dry_effective_updates(&chains), vec![(1, false), (2, true)]);
}

#[test]
fn eq_shapes_and_names() {
    assert_eq!(EqType::Peak.effect_name(), "eq_mid");
    assert_eq!(EqType::LowShelf.effect_name(), "eq_low");
    assert_eq!(EqType::HighShelf.effect_name(), "eq_high");
    for e in [EqType::Peak, EqType::LowShelf, EqType::HighShelf] {
        assert_eq!(EqType::from_effect_name(e.effect_name()), Some(e));
    }
    assert_eq!(EqType::from_effect_name("mix"), None);
}
