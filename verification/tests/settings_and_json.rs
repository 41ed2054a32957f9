use multi_effect::json::{strip_derived, Json};
use multi_effect::settings::{AudioSettings, ConfigPatch};

fn settings() -> AudioSettings {
    AudioSettings {
        sample_rate: 48000,
        buffer_size: 256,
        audio_device: "default".to_string(),
        in_channels: 2,
        out_channels: 2,
    }
}

#[test]
fn full_patch_reproduces_the_settings() {
    let cfg = settings();
    let p = ConfigPatch::from_config(&cfg);
    assert_eq!(p.sample_rate, Some(48000));
    assert_eq!(p.audio_device, Some("default".to_string()));
    let mut copy = cfg.clone();
    copy.apply_patch(&p);
    assert_eq!(copy, cfg);
}

#[test]
fn partial_patch_changes_only_its_fields() {
    let mut cfg = settings();
    let p = ConfigPatch {
        sample_rate: None,
        buffer_size: Some(512),
        audio_device: None,
        in_channels: Some(1),
        out_channels: None,
    };
    cfg.apply_patch(&p);
    assert_eq!(cfg.buffer_size, 512);
    assert_eq!(cfg.in_channels, 1);
    assert_eq!(cfg.sample_rate, 48000);
    assert_eq!(cfg.audio_device, "default");
    assert_eq!(cfg.out_channels, 2);
    let again = cfg.clone();
    cfg.apply_patch(&p);
    assert_eq!(cfg, again);
}

fn obj(members: Vec<(&str, Json)>) -> Json {
    Json::Object(members.into_iter().map(|(k, v)| (k.to_string(), v)).collect())
}

fn has_derived(j: &Json) -> bool {
    match j {
        Json::Array(a) => a.iter().any(has_derived),
        Json::Object(m) => m.iter().any(|(k, v)| k == "params_info" || has_derived(v)),
        _ => false,
    }
}

#[test]
fn derived_members_are_stripped_at_every_depth() {
    let doc = obj(vec![
        ("index", Json::Number("3".to_string())),
        ("params_info", Json::Array(vec![Json::Null])),
        (
            "chains",
            Json::Array(vec![obj(vec![(
                "nodes",
                Json::Array(vec![obj(vec![
                    ("key", Json::Str("01-looper".to_string())),
                    ("params_info", Json::Bool(true)),
                    ("wet", Json::Number("0.5".to_string())),
                ])]),
            )])]),
        ),
    ]);
    assert!(has_derived(&doc));
    let out = strip_derived(doc);
    assert!(!has_derived(&out));
    match &out {
        Json::Object(m) => {
            let keys: Vec<&str> = m.iter().map(|(k, _)| k.as_str()).collect();
            assert_eq!(keys, vec!["index", "chains"]);
        },
        _ => panic!("not an object"),
    }
    match &out {
        Json::Object(m) => match &m[1].1 {
            Json::Array(chains) => match &chains[0] {
                Json::Object(c) => match &c[0].1 {
                    Json::Array(nodes) => match &nodes[0] {
                        Json::Object(n) => {
                            let keys: Vec<&str> = n.iter().map(|(k, _)| k.as_str()).collect();
                            assert_eq!(keys, vec!["key", "wet"]);
                        },
                        _ => panic!("node"),
                    },
                    _ => panic!("nodes"),
                },
                _ => panic!("chain"),
            },
            _ => panic!("chains"),
        },
        _ => panic!("doc"),
    }
}

#[test]
fn scalars_are_unchanged() {
    match strip_derived(Json::Str("params_info".to_string())) {
        Json::Str(s) => assert_eq!(s, "params_info"),
        _ => panic!("changed"),
    }
}
