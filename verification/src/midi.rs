//! MIDI decisions: what an inbound MIDI message asks of the master, and
//! which bytes an outbound parameter change or preset switch becomes.

use vstd::prelude::*;
use crate::mapping::MidiChannel;
use crate::text::{decimal, push_decimal, append_str, parse_u8, parse_u8_spec, contains, contains_spec};

verus! {

// ---------------------------------------------------------------------------
// MIDI input
// ---------------------------------------------------------------------------

/// A MIDI input device: its alias, the port name to look for, and the
/// channel filter.
#[derive(Debug, Clone)]
pub struct MidiControl {
    alias: String,
    device_name: Option<String>,
    channel: MidiChannel,
}

/// What an inbound MIDI message asks of the master.
#[derive(Debug, Clone, PartialEq, Eq)]
pub enum MidiInEvent {
    /// Control Change: mapped control `channel_id` (the CC number in decimal)
    /// took the 7-bit value `raw`.
    Ctrl { channel_id: String, raw: u8, alias: String, source: String },
    /// Program Change: switch to preset `slot`.
    ProgramChange { slot: u8, source: String },
    NoteOn { note: u8, velocity: u8 },
    NoteOff { note: u8 },
}

/// Abstract value of an inbound event.
pub enum MidiInEventV {
    Ctrl { channel_id: Seq<char>, raw: u8, alias: Seq<char>, source: Seq<char> },
    ProgramChange { slot: u8, source: Seq<char> },
    NoteOn { note: u8, velocity: u8 },
    NoteOff { note: u8 },
}

impl View for MidiInEvent {
    type V = MidiInEventV;

    open spec fn view(&self) -> MidiInEventV {
        match self {
            MidiInEvent::Ctrl { channel_id, raw, alias, source } => MidiInEventV::Ctrl {
                channel_id: channel_id@,
                raw: *raw,
                alias: alias@,
                source: source@,
            },
            MidiInEvent::ProgramChange { slot, source } => MidiInEventV::ProgramChange {
                slot: *slot,
                source: source@,
            },
            MidiInEvent::NoteOn { note, velocity } => MidiInEventV::NoteOn {
                note: *note,
                velocity: *velocity,
            },
            MidiInEvent::NoteOff { note } => MidiInEventV::NoteOff { note: *note },
        }
    }
}

/// The message type nibble of a status byte.
pub open spec fn message_type(status: u8) -> u8 {
    status & 0xF0
}

/// The 1-based channel of a status byte.
pub open spec fn message_channel(status: u8) -> u8 {
    ((status & 0x0F) + 1) as u8
}

/// The source id of messages from `alias` on `channel`: `{alias}-ch{channel}`.
pub open spec fn midi_source(alias: Seq<char>, channel: u8) -> Seq<char> {
    alias + "-ch"@ + decimal(channel as nat)
}

/// Whether a selector passes a channel.
pub open spec fn channel_passes(filter: MidiChannel, channel: u8) -> bool {
    match filter {
        MidiChannel::Omni => true,
        MidiChannel::Number(n) => n == channel,
    }
}

/// What an inbound message means. Control Change, Note On and Note Off are
/// subject to the channel filter; Program Change is accepted on every
/// channel. A Note On with velocity 0 is a Note Off.
pub open spec fn decode_spec(alias: Seq<char>, filter: MidiChannel, msg: Seq<u8>) -> Option<MidiInEventV> {
    if msg.len() == 0 {
        None
    } else {
        let t = message_type(msg[0]);
        let ch = message_channel(msg[0]);
        let source = midi_source(alias, ch);
        if (t == 0xB0 || t == 0x90 || t == 0x80) && !channel_passes(filter, ch) {
            None
        } else if t == 0xB0 && msg.len() >= 3 {
            Some(
                MidiInEventV::Ctrl {
                    channel_id: decimal(msg[1] as nat),
                    raw: msg[2],
                    alias,
                    source,
                },
            )
        } else if t == 0xC0 && msg.len() >= 2 {
            Some(MidiInEventV::ProgramChange { slot: msg[1], source })
        } else if t == 0x90 && msg.len() >= 3 {
            if msg[2] > 0 {
                Some(MidiInEventV::NoteOn { note: msg[1], velocity: msg[2] })
            } else {
                Some(MidiInEventV::NoteOff { note: msg[1] })
            }
        } else if t == 0x80 && msg.len() >= 3 {
            Some(MidiInEventV::NoteOff { note: msg[1] })
        } else {
            None
        }
    }
}

impl MidiControl {
    /// A MIDI input device with alias `alias`, looking for a port whose name
    /// contains `device_name` (first port when `None`), filtering on `channel`.
    pub fn new(alias: String, device_name: Option<String>, channel: MidiChannel) -> (r: Self)
        ensures
            r.alias_spec() == alias@,
            r.device_name_spec() == device_name,
            r.channel_spec() == channel,
    {
        MidiControl { alias, device_name, channel }
    }

    pub closed spec fn alias_spec(&self) -> Seq<char> {
        self.alias@
    }

    pub closed spec fn device_name_spec(&self) -> Option<String> {
        self.device_name
    }

    pub closed spec fn channel_spec(&self) -> MidiChannel {
        self.channel
    }

    /// The device alias.
    pub fn alias(&self) -> (r: &str)
        ensures
            r@ == self.alias_spec(),
    {
        self.alias.as_str()
    }

    /// The port name to look for.
    pub fn device_name(&self) -> (r: &Option<String>)
        ensures
            *r == self.device_name_spec(),
    {
        &self.device_name
    }

    /// The channel filter.
    pub fn channel(&self) -> (r: MidiChannel)
        ensures
            r == self.channel_spec(),
    {
        self.channel
    }

    /// Decide what an inbound message asks of the master.
    pub fn decode(&self, msg: &[u8]) -> (r: Option<MidiInEvent>)
        ensures
            match (r, decode_spec(self.alias_spec(), self.channel_spec(), msg@)) {
                (None, None) => true,
                (Some(e), Some(v)) => e@ == v,
                _ => false,
            },
    {
        if msg.len() == 0 {
            return None;
        }
        let status = msg[0];
        let msg_type = status & 0xF0;
        assert(status & 0x0F < 16) by (bit_vector);
        let channel: u8 = (status & 0x0F) + 1;
        let is_channel_msg = msg_type == 0xB0 || msg_type == 0x90 || msg_type == 0x80;
        if is_channel_msg && !self.channel.matches(channel) {
            return None;
        }
        let mut source = self.alias.clone();
        append_str(&mut source, "-ch");
        push_decimal(&mut source, channel as u64);
        assert(self.alias@ == self.alias_spec());
        if msg_type == 0xB0 && msg.len() >= 3 {
            let mut channel_id = String::new();
            push_decimal(&mut channel_id, msg[1] as u64);
            assert(channel_id@ =~= decimal(msg@[1] as nat));
            Some(
                MidiInEvent::Ctrl {
                    channel_id,
                    raw: msg[2],
                    alias: self.alias.clone(),
                    source,
                },
            )
        } else if msg_type == 0xC0 && msg.len() >= 2 {
            Some(MidiInEvent::ProgramChange { slot: msg[1], source })
        } else if msg_type == 0x90 && msg.len() >= 3 {
            if msg[2] > 0 {
                Some(MidiInEvent::NoteOn { note: msg[1], velocity: msg[2] })
            } else {
                Some(MidiInEvent::NoteOff { note: msg[1] })
            }
        } else if msg_type == 0x80 && msg.len() >= 3 {
            Some(MidiInEvent::NoteOff { note: msg[1] })
        } else {
            None
        }
    }
}

// ---------------------------------------------------------------------------
// Port choice
// ---------------------------------------------------------------------------

/// Port `i` has a readable name containing `wanted`.
pub open spec fn port_named(names: Seq<Option<String>>, wanted: Seq<char>, i: int) -> bool {
    0 <= i < names.len() && match names[i] {
        Some(n) => contains_spec(n@, wanted),
        None => false,
    }
}

/// The first port whose name contains `wanted`, if any (an unreadable name
/// matches nothing).
pub fn first_port_named(names: &Vec<Option<String>>, wanted: &str) -> (r: Option<usize>)
    ensures
        match r {
            Some(i) => port_named(names@, wanted@, i as int) && forall|k: int|
                0 <= k < i ==> !port_named(names@, wanted@, k),
            None => forall|k: int| 0 <= k < names@.len() ==> !port_named(names@, wanted@, k),
        },
{
    let mut i: usize = 0;
    while i < names.len()
        invariant
            i <= names@.len(),
            forall|k: int| 0 <= k < i ==> !port_named(names@, wanted@, k),
        decreases names.len() - i,
    {
        let hit = match &names[i] {
            Some(n) => contains(n.as_str(), wanted),
            None => false,
        };
        if hit {
            return Some(i);
        }
        i = i + 1;
    }
    None
}

/// The port to open among ports named `names`: the first whose name
/// contains `wanted`, else (no name wanted, or none matches) the first port.
pub fn pick_port(names: &Vec<Option<String>>, wanted: Option<&str>) -> (r: usize)
    requires
        names@.len() > 0,
    ensures
        r < names@.len(),
        match wanted {
            Some(w) => if exists|k: int| port_named(names@, w@, k) {
                port_named(names@, w@, r as int) && forall|k: int|
                    0 <= k < r ==> !port_named(names@, w@, k)
            } else {
                r == 0
            },
            None => r == 0,
        },
{
    match wanted {
        Some(w) => match first_port_named(names, w) {
            Some(i) => i,
            None => 0,
        },
        None => 0,
    }
}

// ---------------------------------------------------------------------------
// MIDI output
// ---------------------------------------------------------------------------

/// Why a mapped parameter change was not sent as Control Change.
#[derive(Debug, Clone, Copy, PartialEq, Eq, Structural)]
pub enum CcError {
    /// The mapping's channel id is not a CC number.
    NotACcNumber,
    /// CC 32..=63 carry the low byte of 14-bit controllers 0..=31.
    ReservedForLsb { cc: u8 },
    /// CC numbers run 0..=127.
    OutOfRange { cc: u8 },
}

/// The 4-bit channel of outbound messages for a 1-based channel setting.
pub open spec fn out_channel_byte_spec(out_channel: u8) -> u8 {
    (if out_channel >= 1 { out_channel - 1 } else { 0 }) as u8 & 0x0F
}

/// The status-byte channel nibble for a 1-based output channel (0 counts as 1).
pub fn out_channel_byte(out_channel: u8) -> (r: u8)
    ensures
        r == out_channel_byte_spec(out_channel),
        r < 16,
{
    let c = out_channel.saturating_sub(1);
    let r = c & 0x0F;
    assert(c & 0x0F < 16) by (bit_vector);
    r
}

/// The Control Change messages for a mapped value. `scaled` is the reverse
/// mapped controller value, clamped to `0..=16383` and rounded. CC 0..=31 are
/// 14-bit controllers (high 7 bits on `cc`, low 7 bits on `cc + 32`); CC
/// 64..=127 are 7-bit controllers (the value capped at 127).
pub open spec fn cc_messages_spec(ch: u8, cc_text: Seq<char>, scaled: u16) -> Result<Seq<Seq<u8>>, CcError> {
    match parse_u8_spec(cc_text) {
        None => Err(CcError::NotACcNumber),
        Some(cc) => if cc <= 31 {
            Ok(
                seq![
                    seq![(0xB0u8 | ch), cc, ((scaled >> 7) & 0x7F) as u8],
                    seq![(0xB0u8 | ch), (cc + 32) as u8, (scaled & 0x7F) as u8],
                ],
            )
        } else if cc <= 63 {
            Err(CcError::ReservedForLsb { cc })
        } else if cc <= 127 {
            Ok(seq![seq![(0xB0u8 | ch), cc, (if scaled > 127 { 127 } else { scaled }) as u8]])
        } else {
            Err(CcError::OutOfRange { cc })
        },
    }
}

/// Encode a mapped parameter change as Control Change messages.
pub fn cc_messages(ch: u8, cc_text: &str, scaled: u16) -> (r: Result<Vec<Vec<u8>>, CcError>)
    requires
        ch < 16,
        scaled <= 16383,
    ensures
        match (r, cc_messages_spec(ch, cc_text@, scaled)) {
            (Ok(ms), Ok(vs)) => ms@.len() == vs.len() && forall|i: int|
                0 <= i < vs.len() ==> (#[trigger] ms@[i])@ == vs[i],
            (Err(a), Err(b)) => a == b,
            _ => false,
        },
{
    match parse_u8(cc_text) {
        None => Err(CcError::NotACcNumber),
        Some(cc) => {
            if cc <= 31 {
                let msb = ((scaled >> 7) & 0x7F) as u8;
                let lsb = (scaled & 0x7F) as u8;
                let m1 = vec![0xB0u8 | ch, cc, msb];
                let m2 = vec![0xB0u8 | ch, cc + 32, lsb];
                let out = vec![m1, m2];
                assert(out@[0]@ =~= seq![(0xB0u8 | ch), cc, ((scaled >> 7) & 0x7F) as u8]);
                assert(out@[1]@ =~= seq![(0xB0u8 | ch), (cc + 32) as u8, (scaled & 0x7F) as u8]);
                Ok(out)
            } else if cc <= 63 {
                Err(CcError::ReservedForLsb { cc })
            } else if cc <= 127 {
                let v: u8 = if scaled > 127 {
                    127
                } else {
                    scaled as u8
                };
                let m = vec![0xB0u8 | ch, cc, v];
                let out = vec![m];
                assert(out@[0]@ =~= seq![
                    (0xB0u8 | ch),
                    cc,
                    (if scaled > 127 { 127 } else { scaled }) as u8,
                ]);
                Ok(out)
            } else {
                Err(CcError::OutOfRange { cc })
            }
        },
    }
}

/// The Program Change message announcing preset `index` (none for slot 0).
pub fn program_change(ch: u8, index: u8) -> (r: Option<Vec<u8>>)
    requires
        ch < 16,
    ensures
        match r {
            Some(m) => index != 0 && m@ == seq![(0xC0u8 | ch), index],
            None => index == 0,
        },
{
    if index != 0 {
        let m = vec![0xC0u8 | ch, index];
        assert(m@ =~= seq![(0xC0u8 | ch), index]);
        Some(m)
    } else {
        None
    }
}

/// A 14-bit controller value survives the split into two 7-bit data bytes:
/// `msb * 128 + lsb` gives it back, and both bytes are valid MIDI data
/// bytes (below 128).
pub proof fn law_fourteen_bit_split(scaled: u16)
    requires
        scaled <= 16383,
    ensures
        ((scaled >> 7) & 0x7F) * 128 + (scaled & 0x7F) == scaled,
        (scaled >> 7) & 0x7F < 128,
        scaled & 0x7F < 128,
{
    assert(((scaled >> 7) & 0x7F) * 128 + (scaled & 0x7F) == scaled) by (bit_vector)
        requires
            scaled <= 16383,
    ;
    assert((scaled >> 7) & 0x7F < 128) by (bit_vector);
    assert(scaled & 0x7F < 128) by (bit_vector);
}

/// The channel ids that Control Change input produces (the CC number in
/// decimal) are read back as the same CC number by the output encoder.
pub proof fn law_cc_channel_id_round_trip(cc: u8)
    ensures
        parse_u8_spec(decimal(cc as nat)) == Some(cc),
{
    crate::text::law_u8_decimal_round_trip(cc);
}

/// The channel filter: a Control Change, Note On or Note Off message on a
/// channel other than the one a numbered filter selects means nothing.
pub proof fn law_filtered_channels_are_ignored(alias: Seq<char>, n: u8, msg: Seq<u8>)
    requires
        msg.len() > 0,
        (msg[0] & 0xF0) == 0xB0u8 || (msg[0] & 0xF0) == 0x90u8 || (msg[0] & 0xF0) == 0x80u8,
        (msg[0] & 0x0F) + 1 != n,
    ensures
        decode_spec(alias, MidiChannel::Number(n), msg) is None,
{
    let st = msg[0];
    assert(st & 0x0F < 16) by (bit_vector);
    assert(message_channel(st) != n);
}

/// A Program Change is read on every channel, whatever the filter: it asks
/// to switch to the preset of its program number.
pub proof fn law_program_change_ignores_filter(alias: Seq<char>, filter: MidiChannel, msg: Seq<u8>)
    requires
        msg.len() >= 2,
        (msg[0] & 0xF0) == 0xC0u8,
    ensures
        decode_spec(alias, filter, msg) matches Some(MidiInEventV::ProgramChange { slot, .. })
            && slot == msg[1],
{
}

/// On a channel the filter passes: a Control Change reports the CC number
/// in decimal and its 7-bit value, from the device and channel it came on;
/// a Note On with a velocity is a note on, with velocity 0 (or a Note Off)
/// a note off; other messages mean nothing, and so does an empty one.
pub proof fn law_decode_passing(alias: Seq<char>, filter: MidiChannel, msg: Seq<u8>)
    requires
        msg.len() >= 3,
        channel_passes(filter, ((msg[0] & 0x0F) + 1) as u8),
    ensures
        ({
            let t = msg[0] & 0xF0;
            let ch = ((msg[0] & 0x0F) + 1) as u8;
            let d = decode_spec(alias, filter, msg);
            &&& t == 0xB0u8 ==> d == Some(
                MidiInEventV::Ctrl {
                    channel_id: decimal(msg[1] as nat),
                    raw: msg[2],
                    alias,
                    source: alias + "-ch"@ + decimal(ch as nat),
                },
            )
            &&& (t == 0x90u8 && msg[2] > 0) ==> d == Some(
                MidiInEventV::NoteOn { note: msg[1], velocity: msg[2] },
            )
            &&& (t == 0x90u8 && msg[2] == 0) ==> d == Some(MidiInEventV::NoteOff { note: msg[1] })
            &&& t == 0x80u8 ==> d == Some(MidiInEventV::NoteOff { note: msg[1] })
            &&& (t != 0xB0u8 && t != 0x90u8 && t != 0x80u8 && t != 0xC0u8) ==> d is None
        }),
{
}

/// An empty message means nothing.
pub proof fn law_decode_empty(alias: Seq<char>, filter: MidiChannel)
    ensures
        decode_spec(alias, filter, Seq::<u8>::empty()) is None,
{
}

/// Control Change output for the mapped CC number `cc` (as its decimal
/// channel id): CC 0..=31 send the 14-bit value as two Control Changes on
/// `cc` and `cc + 32` whose data bytes give the value back
/// (`msb * 128 + lsb`); CC 32..=63 are refused as low-byte controllers;
/// CC 64..=127 send one Control Change with the value capped at 127; larger
/// numbers are refused. Every message is a Control Change on channel `ch`.
pub proof fn law_cc_encoding(ch: u8, cc: u8, scaled: u16)
    requires
        ch < 16,
        scaled <= 16383,
    ensures
        ({
            let r = cc_messages_spec(ch, decimal(cc as nat), scaled);
            &&& cc <= 31 ==> (r matches Ok(ms) && ms.len() == 2 && ms[0].len() == 3 && ms[1].len()
                == 3 && ms[0][0] == (0xB0u8 | ch) && ms[1][0] == (0xB0u8 | ch) && ms[0][1] == cc
                && ms[1][1] == cc + 32 && ms[0][2] * 128 + ms[1][2] == scaled && ms[0][2] < 128
                && ms[1][2] < 128)
            &&& 32 <= cc <= 63 ==> r == Err::<Seq<Seq<u8>>, CcError>(CcError::ReservedForLsb { cc })
            &&& 64 <= cc <= 127 ==> (r matches Ok(ms) && ms.len() == 1 && ms[0].len() == 3
                && ms[0][0] == (0xB0u8 | ch) && ms[0][1] == cc && ms[0][2] == (if scaled > 127 {
                127
            } else {
                scaled
            }))
            &&& cc > 127 ==> r == Err::<Seq<Seq<u8>>, CcError>(CcError::OutOfRange { cc })
        }),
{
    crate::text::law_u8_decimal_round_trip(cc);
    law_fourteen_bit_split(scaled);
    assert(((scaled >> 7) & 0x7F) < 256) by (bit_vector);
    assert((scaled & 0x7F) < 256) by (bit_vector);
}

} // verus!
