use multi_effect::mapping::MidiChannel;
use multi_effect::midi::{
    cc_messages, first_port_named, out_channel_byte, pick_port, program_change, CcError, MidiControl, MidiInEvent,
};

fn keys(channel: MidiChannel) -> MidiControl {
    MidiControl::new("keys".to_string(), Some("USB MIDI".to_string()), channel)
}

#[test]
fn control_change_becomes_a_mapped_ctrl() {
    let m = keys(MidiChannel::Omni);
    assert_eq!(m.alias(), "keys");
    assert_eq!(m.device_name(), &Some("USB MIDI".to_string()));
    assert_eq!(m.channel(), MidiChannel::Omni);
    assert_eq!(
        m.decode(&[0xB2, 70, 99]),
        Some(MidiInEvent::Ctrl {
            channel_id: "70".to_string(),
            raw: 99,
            alias: "keys".to_string(),
            source: "keys-ch3".to_string(),
        })
    );
}

#[test]
fn program_change_switches_presets() {
    let m = keys(MidiChannel::Number(1));
    assert_eq!(
        m.decode(&[0xC0, 7]),
        Some(MidiInEvent::ProgramChange { slot: 7, source: "keys-ch1".to_string() })
    );
    // Program Change is not filtered by channel.
    assert_eq!(
        m.decode(&[0xC5, 9]),
        Some(MidiInEvent::ProgramChange { slot: 9, source: "keys-ch6".to_string() })
    );
}

#[test]
fn notes_and_channel_filter() {
    let m = keys(MidiChannel::Number(1));
    assert_eq!(m.decode(&[0x90, 60, 100]), Some(MidiInEvent::NoteOn { note: 60, velocity: 100 }));
    assert_eq!(m.decode(&[0x90, 60, 0]), Some(MidiInEvent::NoteOff { note: 60 }));
    assert_eq!(m.decode(&[0x80, 61, 10]), Some(MidiInEvent::NoteOff { note: 61 }));
    assert_eq!(m.decode(&[0x91, 60, 100]), None);
    assert_eq!(m.decode(&[0xB0, 70]), None);
    assert_eq!(m.decode(&[]), None);
    assert_eq!(m.decode(&[0xF8]), None);
}

#[test]
fn output_channel_nibble() {
    assert_eq!(out_channel_byte(1), 0);
    assert_eq!(out_channel_byte(0), 0);
    assert_eq!(out_channel_byte(16), 15);
    assert_eq!(out_channel_byte(17), 0);
}

#[test]
fn fourteen_bit_controllers_split_the_value() {
    let ms = cc_messages(2, "7", 8192 + 5).unwrap();
    assert_eq!(ms, vec![vec![0xB2, 7, 64], vec![0xB2, 39, 5]]);
    let v = (ms[0][2] as u16) * 128 + ms[1][2] as u16;
    assert_eq!(v, 8197);
}

#[test]
fn seven_bit_controllers_cap_at_127() {
    assert_eq!(cc_messages(0, "74", 300).unwrap(), vec![vec![0xB0, 74, 127]]);
    assert_eq!(cc_messages(0, "74", 42).unwrap(), vec![vec![0xB0, 74, 42]]);
}

#[test]
fn cc_errors() {
    assert_eq!(cc_messages(0, "ctrl_1", 1), Err(CcError::NotACcNumber));
    assert_eq!(cc_messages(0, "40", 1), Err(CcError::ReservedForLsb { cc: 40 }));
    assert_eq!(cc_messages(0, "200", 1), Err(CcError::OutOfRange { cc: 200 }));
}

#[test]
fn program_change_out_skips_slot_zero() {
    assert_eq!(program_change(3, 12), Some(vec![0xC3, 12]));
    assert_eq!(program_change(3, 0), None);
}

#[test]
fn ctrl_ids_read_back_as_cc_numbers() {
    let m = keys(MidiChannel::Omni);
    for cc in [0u8, 31, 64, 127] {
        if let Some(MidiInEvent::Ctrl { channel_id, .. }) = m.decode(&[0xB0, cc, 1]) {
            assert!(cc_messages(0, &channel_id, 1).map(|ms| ms[0][1] == cc).unwrap_or(false));
        } else {
            panic!("no ctrl for {}", cc);
        }
    }
}

#[test]
fn ports_are_picked_by_name_substring() {
    let names = vec![
        Some("Midi Through Port-0".to_string()),
        None,
        Some("Launchkey MK3 MIDI 1".to_string()),
        Some("Launchkey MK3 MIDI 2".to_string()),
    ];
    assert_eq!(first_port_named(&names, "Launchkey"), Some(2));
    assert_eq!(pick_port(&names, Some("Launchkey")), 2);
    assert_eq!(pick_port(&names, Some("MIDI 2")), 3);
    assert_eq!(first_port_named(&names, "Keystation"), None);
    assert_eq!(pick_port(&names, Some("Keystation")), 0);
    assert_eq!(pick_port(&names, None), 0);
}
