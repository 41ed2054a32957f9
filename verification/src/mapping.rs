//! Control-device definitions: MIDI channel selectors, device connection
//! configurations and per-preset controller bindings.

use vstd::prelude::*;
use crate::text::{parse_u8, parse_u8_spec, str_eq};

verus! {

/// Default serial baud rate.
pub fn default_baud() -> (r: u32)
    ensures
        r == 115_200,
{
    115_200
}

/// Default listen address of a network device.
pub fn default_host() -> (r: String)
    ensures
        r@ == "0.0.0.0"@,
{
    String::from_str("0.0.0.0")
}

/// Devices are active unless configured otherwise.
pub fn default_true() -> (r: bool)
    ensures
        r,
{
    true
}

/// Default MIDI input channel selector: omni.
pub fn default_channel() -> (r: MidiChannel)
    ensures
        r == MidiChannel::Omni,
{
    MidiChannel::Omni
}

/// Default MIDI output channel (1-based).
pub fn default_midi_out_channel() -> (r: u8)
    ensures
        r == 1,
{
    1
}

// ---------------------------------------------------------------------------
// MidiChannel
// ---------------------------------------------------------------------------

/// MIDI channel selector: a specific channel (1–16) or omni (`"*"`).
#[derive(Debug, Clone, Copy, PartialEq, Eq, Structural)]
pub enum MidiChannel {
    Omni,
    Number(u8),
}

/// Why a textual channel selector was refused: neither `"*"` nor a `u8`.
#[derive(Debug, Clone, Copy, PartialEq, Eq, Structural)]
pub struct MidiChannelError;

/// What a textual channel selector denotes: `"*"` is omni, otherwise the
/// text must parse as a `u8`.
pub open spec fn channel_from_text_spec(s: Seq<char>) -> Option<MidiChannel> {
    if s == "*"@ {
        Some(MidiChannel::Omni)
    } else {
        match parse_u8_spec(s) {
            Some(n) => Some(MidiChannel::Number(n)),
            None => None,
        }
    }
}

impl MidiChannel {
    /// Whether a message on `channel` (1-based) passes this selector.
    pub fn matches(&self, channel: u8) -> (r: bool)
        ensures
            r == match *self {
                MidiChannel::Omni => true,
                MidiChannel::Number(ch) => ch == channel,
            },
    {
        match self {
            MidiChannel::Omni => true,
            MidiChannel::Number(ch) => *ch == channel,
        }
    }

    /// A numeric selector as read from configuration: the number is cut to
    /// its low byte.
    pub fn from_number(v: u64) -> (r: MidiChannel)
        ensures
            r == MidiChannel::Number(v as u8),
    {
        MidiChannel::Number(v as u8)
    }

    /// A textual selector as read from configuration: `"*"` or a `u8`.
    pub fn from_text(s: &str) -> (r: Result<MidiChannel, MidiChannelError>)
        ensures
            match r {
                Ok(c) => channel_from_text_spec(s@) == Some(c),
                Err(_) => channel_from_text_spec(s@) is None,
            },
    {
        if str_eq(s, "*") {
            Ok(MidiChannel::Omni)
        } else {
            match parse_u8(s) {
                Some(n) => Ok(MidiChannel::Number(n)),
                None => Err(MidiChannelError),
            }
        }
    }
}

/// A selector read back from its configuration form is the same selector:
/// omni is written `"*"`, a numbered selector as its number.
pub proof fn law_channel_config_round_trip(c: MidiChannel)
    ensures
        c == MidiChannel::Omni ==> channel_from_text_spec("*"@) == Some(c),
        c matches MidiChannel::Number(n) ==> MidiChannel::Number((n as u64) as u8) == c,
{
    reveal_strlit("*");
}

// ---------------------------------------------------------------------------
// DeviceDef
// ---------------------------------------------------------------------------

/// Connection-level device configuration, referenced by alias from presets.
#[allow(inconsistent_fields)]
#[derive(Debug, Clone)]
pub enum DeviceDef {
    /// USB/UART serial port.
    Serial { dev: String, baud: u32, active: bool },
    /// TCP server.
    Net { host: String, port: u16, active: bool },
    /// MIDI input: CC → mapped params, Program Change → preset switch.
    MidiIn { dev: Option<String>, channel: MidiChannel, active: bool },
    /// MIDI output: CC for mapped parameter changes.
    MidiOut { dev: Option<String>, channel: u8, active: bool },
}

impl DeviceDef {
    /// The `active` flag of any device kind.
    pub open spec fn active_spec(&self) -> bool {
        match *self {
            DeviceDef::Serial { active, .. } => active,
            DeviceDef::Net { active, .. } => active,
            DeviceDef::MidiIn { active, .. } => active,
            DeviceDef::MidiOut { active, .. } => active,
        }
    }

    /// Whether the device is switched on.
    pub fn is_active(&self) -> (r: bool)
        ensures
            r == self.active_spec(),
    {
        match self {
            DeviceDef::Serial { active, .. } => *active,
            DeviceDef::Net { active, .. } => *active,
            DeviceDef::MidiIn { active, .. } => *active,
            DeviceDef::MidiOut { active, .. } => *active,
        }
    }
}

// ---------------------------------------------------------------------------
// ControllerDef
// ---------------------------------------------------------------------------

/// Per-preset controller binding: a device alias and its mappings. The
/// mapping table `M` is carried through unchanged by the preset logic.
#[derive(Debug)]
pub struct ControllerDef<M> {
    /// Alias of a configured control device.
    pub device: String,
    /// Channel id → parameter mapping table.
    pub mappings: M,
}

/// Channel `i` of `pairs` (channel id, target path) targets `target`.
pub open spec fn targets(pairs: Seq<(String, String)>, target: Seq<char>, i: int) -> bool {
    0 <= i < pairs.len() && pairs[i].1@ == target
}

/// Reverse lookup: the first channel whose mapping targets the parameter
/// path `target`, among `(channel id, target path)` pairs.
pub fn channel_for_target(pairs: &Vec<(String, String)>, target: &str) -> (r: Option<usize>)
    ensures
        match r {
            Some(i) => targets(pairs@, target@, i as int) && forall|k: int|
                0 <= k < i ==> !targets(pairs@, target@, k),
            None => forall|k: int| 0 <= k < pairs@.len() ==> !targets(pairs@, target@, k),
        },
{
    let mut i: usize = 0;
    while i < pairs.len()
        invariant
            i <= pairs@.len(),
            forall|k: int| 0 <= k < i ==> !targets(pairs@, target@, k),
        decreases pairs.len() - i,
    {
        if str_eq(pairs[i].1.as_str(), target) {
            return Some(i);
        }
        i = i + 1;
    }
    None
}

} // verus!
