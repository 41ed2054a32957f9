use multi_effect::command::{
    parse_command, parse_ctrl, parse_line, reply_error, reply_ok, reply_param_meta, reply_payload,
    reply_state, split_cmd, Command, MetaValue, Request,
};
use multi_effect::control::connection_id;
use multi_effect::device::{MetaAspect, MetaTarget};
use multi_effect::snapshot::SnapshotState;

fn err_of(line: &str) -> String {
    match parse_command(line) {
        Err(e) => e.message,
        Ok(c) => panic!("expected an error, got {:?}", c),
    }
}

#[test]
fn split_cmd_cuts_at_the_first_space() {
    assert_eq!(split_cmd("SET a.b  1.5 "), ("SET", "a.b  1.5"));
    assert_eq!(split_cmd("RELOAD"), ("RELOAD", ""));
}

#[test]
fn set_keeps_path_and_value_text() {
    match parse_command("SET 01-looper.wet 0.5") {
        Ok(Command::SetParam { path, value }) => {
            assert_eq!(path, "01-looper.wet");
            assert_eq!(value, "0.5");
        },
        other => panic!("unexpected {:?}", other),
    }
    assert_eq!(err_of("SET 01-looper.wet"), "usage: SET <key.param> <value>");
}

#[test]
fn set_param_meta_values_are_typed() {
    match parse_command("SET_PARAM_META 04-chorus.depth_ms.max 20") {
        Ok(Command::SetParamMeta { node_key, target, value }) => {
            assert_eq!(node_key, "04-chorus");
            assert_eq!(target, MetaTarget { param: "depth_ms".to_string(), aspect: MetaAspect::Max });
            assert_eq!(value, MetaValue::Int(20));
        },
        other => panic!("unexpected {:?}", other),
    }
    match parse_command("SET_PARAM_META 01-looper.transport.visible true") {
        Ok(Command::SetParamMeta { value, .. }) => assert_eq!(value, MetaValue::Bool(true)),
        other => panic!("unexpected {:?}", other),
    }
    match parse_command("SET_PARAM_META 02-delay.time.max 2.5") {
        Ok(Command::SetParamMeta { value, .. }) => assert_eq!(value, MetaValue::Text("2.5".to_string())),
        other => panic!("unexpected {:?}", other),
    }
    assert_eq!(err_of("SET_PARAM_META x"), "usage: SET_PARAM_META <key.param.aspect> <value>");
    assert_eq!(err_of("SET_PARAM_META nodot 1"), "path must be <key>.<param>.<aspect>");
    assert_eq!(err_of("SET_PARAM_META k.p.bogus 1"), "unknown aspect 'bogus' in 'p.bogus'");
    assert_eq!(err_of("SET_PARAM_META k.p 1"), "expected 'param.aspect', got 'p'");
}

#[test]
fn slot_commands_take_0_to_127() {
    match parse_command("PRESET 5") {
        Ok(Command::Preset { slot }) => assert_eq!(slot, 5),
        other => panic!("unexpected {:?}", other),
    }
    match parse_command("SAVE_PRESET 127") {
        Ok(Command::SavePreset { slot }) => assert_eq!(slot, 127),
        other => panic!("unexpected {:?}", other),
    }
    assert_eq!(err_of("PRESET 300"), "program number must be 0-127");
    assert_eq!(err_of("PRESET 200"), "program number must be 0-127");
    assert_eq!(err_of("PRESET 128"), "program number must be 0-127");
    assert_eq!(err_of("SAVE_PRESET 128"), "slot must be 0..127");
    assert_eq!(err_of("DELETE_PRESET 255"), "slot must be 0..127");
    assert_eq!(err_of("DELETE_PRESET x"), "slot must be 0..127");
}

#[test]
fn device_commands_trim_aliases() {
    match parse_command("SET_DEVICE_NAME  Old   New ") {
        Ok(Command::SetDeviceName { old_alias, new_alias }) => {
            assert_eq!(old_alias, "Old");
            assert_eq!(new_alias, "New");
        },
        other => panic!("unexpected {:?}", other),
    }
    match parse_command("PUT_DEVICE net-1 {\"type\":\"net\"}") {
        Ok(Command::PutDevice { alias, json }) => {
            assert_eq!(alias, "net-1");
            assert_eq!(json, "{\"type\":\"net\"}");
        },
        other => panic!("unexpected {:?}", other),
    }
    assert_eq!(err_of("PUT_DEVICE lonely"), "usage: PUT_DEVICE <alias> <def>");
    assert_eq!(err_of("FROB 1"), "unknown command 'FROB'");
}

#[test]
fn plain_commands_parse() {
    assert!(matches!(parse_command("FETCH_CONFIG"), Ok(Command::FetchConfig)));
    assert!(matches!(parse_command("COMPARE"), Ok(Command::Compare)));
    assert!(matches!(parse_command("RELOAD"), Ok(Command::Reload)));
    assert!(matches!(parse_command("RESET"), Ok(Command::Reset)));
    assert!(matches!(parse_command("FETCH_DEVICES"), Ok(Command::FetchDevices)));
}

#[test]
fn ctrl_lines_carry_the_raw_text() {
    match parse_ctrl("CTRL ctrl_1 63.5") {
        Ok(Request::Ctrl { channel_id, raw }) => {
            assert_eq!(channel_id, "ctrl_1");
            assert_eq!(raw, "63.5");
        },
        other => panic!("unexpected {:?}", other),
    }
    match parse_ctrl("CTRL ctrl_1") {
        Err(e) => assert_eq!(e.message, "malformed CTRL"),
        other => panic!("unexpected {:?}", other),
    }
}

#[test]
fn lines_are_trimmed_and_dispatched() {
    assert!(parse_line("   ").is_none());
    assert!(matches!(parse_line("  CTRL 70 12  "), Some(Ok(Request::Ctrl { .. }))));
    assert!(matches!(parse_line("COMPARE\r"), Some(Ok(Request::Command(Command::Compare)))));
}

#[test]
fn replies_are_framed_lines() {
    assert_eq!(reply_ok(), "OK\n");
    assert_eq!(reply_error("boom"), "ERR boom\n");
    assert_eq!(reply_state(SnapshotState::DirtyPersisted), "STATE Dirty\n");
    assert_eq!(reply_payload("CONFIG", "{}"), "CONFIG {}\n");
    let t = MetaTarget { param: "depth_ms".to_string(), aspect: MetaAspect::Max };
    assert_eq!(reply_param_meta("04-chorus", &t, "20"), "PARAM_META 04-chorus.depth_ms.max 20\n");
}

#[test]
fn connection_ids_are_sanitized() {
    assert_eq!(connection_id("Net 1", 4), "net-1-4");
    assert_eq!(connection_id("serial-1", 1), "serial-1-1");
    assert_eq!(connection_id("MIDI:Keys", 12), "midi-keys-12");
}

#[test]
fn connection_ids_with_different_counters_differ() {
    // Aliases that look alike cannot make two counters collide.
    assert_ne!(connection_id("net-1", 2), connection_id("net", 12));
    assert_ne!(connection_id("a-1", 23), connection_id("a", 123));
    assert_ne!(connection_id("x", 1), connection_id("x", 2));
}
