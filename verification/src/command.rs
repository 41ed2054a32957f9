//! The line protocol spoken by every control transport (serial, TCP,
//! WebSocket): parsing one inbound line into a request, and rendering the
//! reply lines.
//!
//! Numbers with a fractional part (`CTRL` raw values, `SET` values) and JSON
//! payloads are handed on as text; the caller decodes them.

use vstd::prelude::*;
use crate::text::{
    split_once, split_once_spec, trim, trimmed, starts_with, str_eq, parse_u8, parse_u8_spec,
    parse_i32, parse_i32_spec, append_str, decimal, is_first_of, trim_start, trim_end,
    lemma_decimal_digits, law_u8_decimal_round_trip, is_digit, is_white_space,
};
use crate::device::{MetaAspect, MetaTarget, parse_target_spec, target_error_message};
use crate::snapshot::SnapshotState;

verus! {

// ---------------------------------------------------------------------------
// Requests
// ---------------------------------------------------------------------------

/// Value of a `SET_PARAM_META` line: an integer when the text is one, a
/// boolean when it is `true`/`false`, otherwise the text (a float, or an
/// error for the caller to report).
#[derive(Debug, Clone, PartialEq, Eq)]
pub enum MetaValue {
    Int(i32),
    Bool(bool),
    Text(String),
}

/// One command of the line protocol (everything but `CTRL`).
#[allow(inconsistent_fields)]
#[derive(Debug, Clone)]
pub enum Command {
    FetchConfig,
    SaveConfig { json: String },
    /// `SET <path> <value>`: a numeric value sets a parameter, anything else
    /// dispatches an action.
    SetParam { path: String, value: String },
    SetParamMeta { node_key: String, target: MetaTarget, value: MetaValue },
    Chains { json: String },
    Preset { slot: u8 },
    SavePreset { slot: u8 },
    DeletePreset { slot: u8 },
    Compare,
    PutControllers { json: String },
    FetchDevices,
    PutDevice { alias: String, json: String },
    DeleteDevice { alias: String },
    SetDeviceName { old_alias: String, new_alias: String },
    Reload,
    Reset,
}

/// One inbound line: a mapped control change or a command.
#[derive(Debug, Clone)]
pub enum Request {
    /// `CTRL <channel_id> <raw>`; `raw` is the text after the second space.
    Ctrl { channel_id: String, raw: String },
    Command(Command),
}

/// A refused line; `message` is what follows `ERR ` in the reply.
#[derive(Debug, Clone)]
pub struct CommandError {
    pub message: String,
}

/// Abstract value of a `MetaValue`.
pub enum MetaValueV {
    Int(i32),
    Bool(bool),
    Text(Seq<char>),
}

/// Abstract value of a command.
#[allow(inconsistent_fields)]
pub enum CommandV {
    FetchConfig,
    SaveConfig { json: Seq<char> },
    SetParam { path: Seq<char>, value: Seq<char> },
    SetParamMeta { node_key: Seq<char>, param: Seq<char>, aspect: MetaAspect, value: MetaValueV },
    Chains { json: Seq<char> },
    Preset { slot: u8 },
    SavePreset { slot: u8 },
    DeletePreset { slot: u8 },
    Compare,
    PutControllers { json: Seq<char> },
    FetchDevices,
    PutDevice { alias: Seq<char>, json: Seq<char> },
    DeleteDevice { alias: Seq<char> },
    SetDeviceName { old_alias: Seq<char>, new_alias: Seq<char> },
    Reload,
    Reset,
}

/// Abstract value of a request.
pub enum RequestV {
    Ctrl { channel_id: Seq<char>, raw: Seq<char> },
    Command(CommandV),
}

impl View for MetaValue {
    type V = MetaValueV;

    open spec fn view(&self) -> MetaValueV {
        match self {
            MetaValue::Int(i) => MetaValueV::Int(*i),
            MetaValue::Bool(b) => MetaValueV::Bool(*b),
            MetaValue::Text(t) => MetaValueV::Text(t@),
        }
    }
}

impl View for Command {
    type V = CommandV;

    open spec fn view(&self) -> CommandV {
        match self {
            Command::FetchConfig => CommandV::FetchConfig,
            Command::SaveConfig { json } => CommandV::SaveConfig { json: json@ },
            Command::SetParam { path, value } => CommandV::SetParam { path: path@, value: value@ },
            Command::SetParamMeta { node_key, target, value } => CommandV::SetParamMeta {
                node_key: node_key@,
                param: target.param@,
                aspect: target.aspect,
                value: value@,
            },
            Command::Chains { json } => CommandV::Chains { json: json@ },
            Command::Preset { slot } => CommandV::Preset { slot: *slot },
            Command::SavePreset { slot } => CommandV::SavePreset { slot: *slot },
            Command::DeletePreset { slot } => CommandV::DeletePreset { slot: *slot },
            Command::Compare => CommandV::Compare,
            Command::PutControllers { json } => CommandV::PutControllers { json: json@ },
            Command::FetchDevices => CommandV::FetchDevices,
            Command::PutDevice { alias, json } => CommandV::PutDevice { alias: alias@, json: json@ },
            Command::DeleteDevice { alias } => CommandV::DeleteDevice { alias: alias@ },
            Command::SetDeviceName { old_alias, new_alias } => CommandV::SetDeviceName {
                old_alias: old_alias@,
                new_alias: new_alias@,
            },
            Command::Reload => CommandV::Reload,
            Command::Reset => CommandV::Reset,
        }
    }
}

impl View for Request {
    type V = RequestV;

    open spec fn view(&self) -> RequestV {
        match self {
            Request::Ctrl { channel_id, raw } => RequestV::Ctrl {
                channel_id: channel_id@,
                raw: raw@,
            },
            Request::Command(c) => RequestV::Command(c@),
        }
    }
}

// ---------------------------------------------------------------------------
// Specification of the parse
// ---------------------------------------------------------------------------

/// A line cut into its command word and the trimmed rest.
pub open spec fn split_cmd_spec(line: Seq<char>) -> (Seq<char>, Seq<char>) {
    match split_once_spec(line, ' ') {
        Some((cmd, rest)) => (cmd, trimmed(rest)),
        None => (line, Seq::<char>::empty()),
    }
}

/// The meaning of a `SET_PARAM_META` value text.
pub open spec fn meta_value_spec(v: Seq<char>) -> MetaValueV {
    match parse_i32_spec(v) {
        Some(i) => MetaValueV::Int(i),
        None => if v == "true"@ {
            MetaValueV::Bool(true)
        } else if v == "false"@ {
            MetaValueV::Bool(false)
        } else {
            MetaValueV::Text(v)
        },
    }
}

/// The highest preset slot number (MIDI program numbers run 0..=127).
pub const MAX_SLOT: u8 = 127;

/// A slot number argument: a number in `0..=127`.
pub open spec fn slot_spec(rest: Seq<char>, err: Seq<char>) -> Result<u8, Seq<char>> {
    match parse_u8_spec(trimmed(rest)) {
        Some(n) => if n <= MAX_SLOT {
            Ok(n)
        } else {
            Err(err)
        },
        None => Err(err),
    }
}

/// The `SET_PARAM_META` command for the argument text `rest`.
pub open spec fn set_param_meta_spec(rest: Seq<char>) -> Result<CommandV, Seq<char>> {
    match split_once_spec(rest, ' ') {
        None => Err("usage: SET_PARAM_META <key.param.aspect> <value>"@),
        Some((path, val)) => match split_once_spec(path, '.') {
            None => Err("path must be <key>.<param>.<aspect>"@),
            Some((node_key, meta)) => match parse_target_spec(meta) {
                Err(_) => Err(target_error_message(meta)),
                Ok((param, aspect)) => Ok(
                    CommandV::SetParamMeta {
                        node_key,
                        param,
                        aspect,
                        value: meta_value_spec(trimmed(val)),
                    },
                ),
            },
        },
    }
}

/// What a (trimmed, non-`CTRL`) command line means, or the error message.
pub open spec fn parse_command_spec(line: Seq<char>) -> Result<CommandV, Seq<char>> {
    let (cmd, rest) = split_cmd_spec(line);
    if cmd == "FETCH_CONFIG"@ {
        Ok(CommandV::FetchConfig)
    } else if cmd == "SAVE_CONFIG"@ {
        Ok(CommandV::SaveConfig { json: rest })
    } else if cmd == "SET"@ {
        match split_once_spec(rest, ' ') {
            None => Err("usage: SET <key.param> <value>"@),
            Some((path, val)) => Ok(CommandV::SetParam { path, value: trimmed(val) }),
        }
    } else if cmd == "SET_PARAM_META"@ {
        set_param_meta_spec(rest)
    } else if cmd == "CHAINS"@ {
        Ok(CommandV::Chains { json: rest })
    } else if cmd == "PRESET"@ {
        match slot_spec(rest, "program number must be 0-127"@) {
            Ok(slot) => Ok(CommandV::Preset { slot }),
            Err(e) => Err(e),
        }
    } else if cmd == "SAVE_PRESET"@ {
        match slot_spec(rest, "slot must be 0..127"@) {
            Ok(slot) => Ok(CommandV::SavePreset { slot }),
            Err(e) => Err(e),
        }
    } else if cmd == "DELETE_PRESET"@ {
        match slot_spec(rest, "slot must be 0..127"@) {
            Ok(slot) => Ok(CommandV::DeletePreset { slot }),
            Err(e) => Err(e),
        }
    } else if cmd == "COMPARE"@ {
        Ok(CommandV::Compare)
    } else if cmd == "PUT_CONTROLLERS"@ {
        Ok(CommandV::PutControllers { json: rest })
    } else if cmd == "FETCH_DEVICES"@ {
        Ok(CommandV::FetchDevices)
    } else if cmd == "PUT_DEVICE"@ {
        match split_once_spec(rest, ' ') {
            None => Err("usage: PUT_DEVICE <alias> <def>"@),
            Some((alias, json)) => Ok(CommandV::PutDevice { alias: trimmed(alias), json }),
        }
    } else if cmd == "DELETE_DEVICE"@ {
        Ok(CommandV::DeleteDevice { alias: trimmed(rest) })
    } else if cmd == "SET_DEVICE_NAME"@ {
        match split_once_spec(rest, ' ') {
            None => Err("usage: SET_DEVICE_NAME <old_alias> <new_alias>"@),
            Some((a, b)) => Ok(CommandV::SetDeviceName { old_alias: trimmed(a), new_alias: trimmed(b) }),
        }
    } else if cmd == "RELOAD"@ {
        Ok(CommandV::Reload)
    } else if cmd == "RESET"@ {
        Ok(CommandV::Reset)
    } else {
        Err("unknown command '"@ + cmd + "'"@)
    }
}

/// What a `CTRL` line means, or the error message.
pub open spec fn parse_ctrl_spec(line: Seq<char>) -> Result<RequestV, Seq<char>> {
    match split_once_spec(line, ' ') {
        None => Err("malformed CTRL"@),
        Some((_, rest)) => match split_once_spec(rest, ' ') {
            None => Err("malformed CTRL"@),
            Some((channel_id, raw)) => Ok(RequestV::Ctrl { channel_id, raw }),
        },
    }
}

/// What one inbound line means: nothing for a blank line, otherwise a
/// `CTRL` request (lines starting with `CTRL `) or a command.
pub open spec fn parse_line_spec(line: Seq<char>) -> Option<Result<RequestV, Seq<char>>> {
    let t = trimmed(line);
    if t.len() == 0 {
        None
    } else if "CTRL "@.len() <= t.len() && t.take("CTRL "@.len() as int) == "CTRL "@ {
        Some(parse_ctrl_spec(t))
    } else {
        Some(
            match parse_command_spec(t) {
                Ok(c) => Ok(RequestV::Command(c)),
                Err(e) => Err(e),
            },
        )
    }
}

// ---------------------------------------------------------------------------
// Parsing
// ---------------------------------------------------------------------------

/// Split a command line into the command word and the trimmed remainder.
pub fn split_cmd(line: &str) -> (r: (&str, &str))
    ensures
        (r.0@, r.1@) == split_cmd_spec(line@),
{
    match split_once(line, ' ') {
        Some((cmd, rest)) => (cmd, trim(rest)),
        None => {
            proof {
                reveal_strlit("");
            }
            (line, "")
        },
    }
}

fn error(message: &str) -> (r: CommandError)
    ensures
        r.message@ == message@,
{
    CommandError { message: message.to_owned() }
}

fn classify_meta_value(v: &str) -> (r: MetaValue)
    ensures
        r@ == meta_value_spec(v@),
{
    match parse_i32(v) {
        Some(i) => MetaValue::Int(i),
        None => if str_eq(v, "true") {
            MetaValue::Bool(true)
        } else if str_eq(v, "false") {
            MetaValue::Bool(false)
        } else {
            MetaValue::Text(v.to_owned())
        },
    }
}

fn parse_slot(rest: &str, err: &str) -> (r: Result<u8, CommandError>)
    ensures
        match (r, slot_spec(rest@, err@)) {
            (Ok(a), Ok(b)) => a == b,
            (Err(e), Err(m)) => e.message@ == m,
            _ => false,
        },
{
    match parse_u8(trim(rest)) {
        Some(n) => if n <= MAX_SLOT {
            Ok(n)
        } else {
            Err(error(err))
        },
        None => Err(error(err)),
    }
}

fn parse_set_param_meta(rest: &str) -> (r: Result<Command, CommandError>)
    ensures
        match (r, set_param_meta_spec(rest@)) {
            (Ok(c), Ok(v)) => c@ == v,
            (Err(e), Err(m)) => e.message@ == m,
            _ => false,
        },
{
    match split_once(rest, ' ') {
        None => Err(error("usage: SET_PARAM_META <key.param.aspect> <value>")),
        Some((path, val)) => match split_once(path, '.') {
            None => Err(error("path must be <key>.<param>.<aspect>")),
            Some((node_key, meta)) => match MetaTarget::parse_str(meta) {
                Err(e) => Err(CommandError { message: e }),
                Ok(target) => Ok(
                    Command::SetParamMeta {
                        node_key: node_key.to_owned(),
                        target,
                        value: classify_meta_value(trim(val)),
                    },
                ),
            },
        },
    }
}

/// Parse a (trimmed, non-`CTRL`) command line.
pub fn parse_command(line: &str) -> (r: Result<Command, CommandError>)
    ensures
        match (r, parse_command_spec(line@)) {
            (Ok(c), Ok(v)) => c@ == v,
            (Err(e), Err(m)) => e.message@ == m,
            _ => false,
        },
{
    let (cmd, rest) = split_cmd(line);
    if str_eq(cmd, "FETCH_CONFIG") {
        Ok(Command::FetchConfig)
    } else if str_eq(cmd, "SAVE_CONFIG") {
        Ok(Command::SaveConfig { json: rest.to_owned() })
    } else if str_eq(cmd, "SET") {
        match split_once(rest, ' ') {
            None => Err(error("usage: SET <key.param> <value>")),
            Some((path, val)) => Ok(
                Command::SetParam { path: path.to_owned(), value: trim(val).to_owned() },
            ),
        }
    } else if str_eq(cmd, "SET_PARAM_META") {
        parse_set_param_meta(rest)
    } else if str_eq(cmd, "CHAINS") {
        Ok(Command::Chains { json: rest.to_owned() })
    } else if str_eq(cmd, "PRESET") {
        match parse_slot(rest, "program number must be 0-127") {
            Ok(slot) => Ok(Command::Preset { slot }),
            Err(e) => Err(e),
        }
    } else if str_eq(cmd, "SAVE_PRESET") {
        match parse_slot(rest, "slot must be 0..127") {
            Ok(slot) => Ok(Command::SavePreset { slot }),
            Err(e) => Err(e),
        }
    } else if str_eq(cmd, "DELETE_PRESET") {
        match parse_slot(rest, "slot must be 0..127") {
            Ok(slot) => Ok(Command::DeletePreset { slot }),
            Err(e) => Err(e),
        }
    } else if str_eq(cmd, "COMPARE") {
        Ok(Command::Compare)
    } else if str_eq(cmd, "PUT_CONTROLLERS") {
        Ok(Command::PutControllers { json: rest.to_owned() })
    } else if str_eq(cmd, "FETCH_DEVICES") {
        Ok(Command::FetchDevices)
    } else if str_eq(cmd, "PUT_DEVICE") {
        match split_once(rest, ' ') {
            None => Err(error("usage: PUT_DEVICE <alias> <def>")),
            Some((alias, json)) => Ok(
                Command::PutDevice { alias: trim(alias).to_owned(), json: json.to_owned() },
            ),
        }
    } else if str_eq(cmd, "DELETE_DEVICE") {
        Ok(Command::DeleteDevice { alias: trim(rest).to_owned() })
    } else if str_eq(cmd, "SET_DEVICE_NAME") {
        match split_once(rest, ' ') {
            None => Err(error("usage: SET_DEVICE_NAME <old_alias> <new_alias>")),
            Some((a, b)) => Ok(
                Command::SetDeviceName {
                    old_alias: trim(a).to_owned(),
                    new_alias: trim(b).to_owned(),
                },
            ),
        }
    } else if str_eq(cmd, "RELOAD") {
        Ok(Command::Reload)
    } else if str_eq(cmd, "RESET") {
        Ok(Command::Reset)
    } else {
        let mut m = String::from_str("unknown command '");
        append_str(&mut m, cmd);
        append_str(&mut m, "'");
        Err(CommandError { message: m })
    }
}

/// Parse a `CTRL <channel_id> <raw>` line.
pub fn parse_ctrl(line: &str) -> (r: Result<Request, CommandError>)
    ensures
        match (r, parse_ctrl_spec(line@)) {
            (Ok(q), Ok(v)) => q@ == v,
            (Err(e), Err(m)) => e.message@ == m,
            _ => false,
        },
{
    match split_once(line, ' ') {
        None => Err(error("malformed CTRL")),
        Some((_, rest)) => match split_once(rest, ' ') {
            None => Err(error("malformed CTRL")),
            Some((channel_id, raw)) => Ok(
                Request::Ctrl { channel_id: channel_id.to_owned(), raw: raw.to_owned() },
            ),
        },
    }
}

/// Parse one inbound line: `None` for a blank line, otherwise the request
/// or the error to reply with.
pub fn parse_line(line: &str) -> (r: Option<Result<Request, CommandError>>)
    ensures
        match (r, parse_line_spec(line@)) {
            (None, None) => true,
            (Some(Ok(q)), Some(Ok(v))) => q@ == v,
            (Some(Err(e)), Some(Err(m))) => e.message@ == m,
            _ => false,
        },
{
    let t = trim(line);
    if t.unicode_len() == 0 {
        return None;
    }
    if starts_with(t, "CTRL ") {
        Some(parse_ctrl(t))
    } else {
        match parse_command(t) {
            Ok(c) => Some(Ok(Request::Command(c))),
            Err(e) => Some(Err(e)),
        }
    }
}

// ---------------------------------------------------------------------------
// Replies
// ---------------------------------------------------------------------------

/// `OK` acknowledgement line.
pub fn reply_ok() -> (r: String)
    ensures
        r@ == "OK\n"@,
{
    String::from_str("OK\n")
}

/// `ERR <message>` line.
pub fn reply_error(message: &str) -> (r: String)
    ensures
        r@ == "ERR "@ + message@ + "\n"@,
{
    let mut s = String::from_str("ERR ");
    append_str(&mut s, message);
    append_str(&mut s, "\n");
    s
}

/// `STATE <label>` line.
pub fn reply_state(state: SnapshotState) -> (r: String)
    ensures
        r@ == "STATE "@ + state.label_spec() + "\n"@,
{
    let mut s = String::from_str("STATE ");
    append_str(&mut s, state.label());
    append_str(&mut s, "\n");
    s
}

/// `<tag> <payload>` line, e.g. `CONFIG {...}` or `SET 04-delay.time 0.8`.
pub fn reply_payload(tag: &str, payload: &str) -> (r: String)
    ensures
        r@ == tag@ + " "@ + payload@ + "\n"@,
{
    let mut s = tag.to_owned();
    append_str(&mut s, " ");
    append_str(&mut s, payload);
    append_str(&mut s, "\n");
    s
}

/// `PARAM_META <path>.<param>.<aspect> <value>` broadcast line.
pub fn reply_param_meta(path: &str, target: &MetaTarget, value: &str) -> (r: String)
    ensures
        r@ == "PARAM_META "@ + path@ + "."@ + target.wire_spec() + " "@ + value@ + "\n"@,
{
    let mut s = String::from_str("PARAM_META ");
    append_str(&mut s, path);
    append_str(&mut s, ".");
    let w = target.to_wire();
    append_str(&mut s, w.as_str());
    append_str(&mut s, " ");
    append_str(&mut s, value);
    append_str(&mut s, "\n");
    s
}

/// Every preset command that parses names a slot in `0..=127`: a larger
/// number is answered with the command's error.
pub proof fn law_slots_in_range(line: Seq<char>)
    ensures
        match parse_command_spec(line) {
            Ok(CommandV::Preset { slot }) => slot <= 127,
            Ok(CommandV::SavePreset { slot }) => slot <= 127,
            Ok(CommandV::DeletePreset { slot }) => slot <= 127,
            _ => true,
        },
{
}

/// A command word followed by one space and a decimal number splits into
/// the word and the number.
proof fn lemma_split_word_number(w: Seq<char>, k: u8)
    requires
        forall|j: int| 0 <= j < w.len() ==> w[j] != ' ',
    ensures
        split_cmd_spec(w + seq![' '] + decimal(k as nat)) == (w, decimal(k as nat)),
{
    let d = decimal(k as nat);
    lemma_decimal_digits(k as nat);
    let s = w + seq![' '] + d;
    let n = w.len() as int;
    assert(is_first_of(s, ' ', n));
    let i = choose|i: int| is_first_of(s, ' ', i);
    assert(i == n) by {
        if i < n {
            assert(s[i] == w[i]);
        }
        if i > n {
            assert(s[n] == ' ');
        }
    }
    assert(s.take(n) =~= w);
    assert(s.skip(n + 1) =~= d);
    assert(is_digit(d[0]));
    assert(trim_start(d) == d);
    assert(is_digit(d.last()));
    assert(trim_end(d) == d);
}

/// The preset commands carry their slot: for every slot `k` in `0..=127`,
/// `PRESET k` switches to slot `k`, `SAVE_PRESET k` saves into slot `k` and
/// `DELETE_PRESET k` deletes slot `k`.
pub proof fn law_slot_commands_parse(k: u8)
    requires
        k <= 127,
    ensures
        parse_command_spec("PRESET "@ + decimal(k as nat)) == Ok::<CommandV, Seq<char>>(
            CommandV::Preset { slot: k },
        ),
        parse_command_spec("SAVE_PRESET "@ + decimal(k as nat)) == Ok::<CommandV, Seq<char>>(
            CommandV::SavePreset { slot: k },
        ),
        parse_command_spec("DELETE_PRESET "@ + decimal(k as nat)) == Ok::<CommandV, Seq<char>>(
            CommandV::DeletePreset { slot: k },
        ),
{
    reveal_strlit("FETCH_CONFIG");
    reveal_strlit("SAVE_CONFIG");
    reveal_strlit("SET");
    reveal_strlit("SET_PARAM_META");
    reveal_strlit("CHAINS");
    reveal_strlit("PRESET");
    reveal_strlit("SAVE_PRESET");
    reveal_strlit("DELETE_PRESET");
    reveal_strlit("PRESET ");
    reveal_strlit("SAVE_PRESET ");
    reveal_strlit("DELETE_PRESET ");
    law_u8_decimal_round_trip(k);
    let d = decimal(k as nat);
    assert("PRESET "@ + d =~= "PRESET"@ + seq![' '] + d);
    assert("SAVE_PRESET "@ + d =~= "SAVE_PRESET"@ + seq![' '] + d);
    assert("DELETE_PRESET "@ + d =~= "DELETE_PRESET"@ + seq![' '] + d);
    lemma_split_word_number("PRESET"@, k);
    lemma_split_word_number("SAVE_PRESET"@, k);
    lemma_split_word_number("DELETE_PRESET"@, k);
    assert("PRESET"@[0] != "CHAINS"@[0]);
    assert("SAVE_PRESET"@[5] != "SAVE_CONFIG"@[5]);
    assert("PRESET"@ != "FETCH_CONFIG"@ && "PRESET"@ != "SAVE_CONFIG"@ && "PRESET"@ != "SET"@
        && "PRESET"@ != "SET_PARAM_META"@ && "PRESET"@ != "CHAINS"@);
    assert("SAVE_PRESET"@ != "FETCH_CONFIG"@ && "SAVE_PRESET"@ != "SAVE_CONFIG"@
        && "SAVE_PRESET"@ != "SET"@ && "SAVE_PRESET"@ != "SET_PARAM_META"@
        && "SAVE_PRESET"@ != "CHAINS"@ && "SAVE_PRESET"@ != "PRESET"@);
    assert("DELETE_PRESET"@ != "FETCH_CONFIG"@ && "DELETE_PRESET"@ != "SAVE_CONFIG"@
        && "DELETE_PRESET"@ != "SET"@ && "DELETE_PRESET"@ != "SET_PARAM_META"@
        && "DELETE_PRESET"@ != "CHAINS"@ && "DELETE_PRESET"@ != "PRESET"@
        && "DELETE_PRESET"@ != "SAVE_PRESET"@);
}

/// Splitting `w + " " + rest` at the first space, where `w` has no space,
/// gives `w` and `rest`.
proof fn lemma_split_at_first_space(w: Seq<char>, rest: Seq<char>)
    requires
        forall|j: int| 0 <= j < w.len() ==> w[j] != ' ',
    ensures
        split_once_spec(w + seq![' '] + rest, ' ') == Some((w, rest)),
{
    let s = w + seq![' '] + rest;
    let n = w.len() as int;
    assert(is_first_of(s, ' ', n));
    let i = choose|i: int| is_first_of(s, ' ', i);
    assert(i == n) by {
        if i < n {
            assert(s[i] == w[i]);
        }
        if i > n {
            assert(s[n] == ' ');
        }
    }
    assert(s.take(n) =~= w);
    assert(s.skip(n + 1) =~= rest);
}

/// A text whose ends are not whitespace is its own trim.
proof fn lemma_trimmed_unchanged(t: Seq<char>)
    requires
        t.len() > 0,
        !is_white_space(t[0]),
        !is_white_space(t.last()),
    ensures
        trimmed(t) == t,
{
}

/// A command word alone is the word and no argument.
proof fn lemma_split_bare(w: Seq<char>)
    requires
        forall|j: int| 0 <= j < w.len() ==> w[j] != ' ',
    ensures
        split_cmd_spec(w) == (w, Seq::<char>::empty()),
{
    assert(!exists|i: int| is_first_of(w, ' ', i));
}

/// The commands without argument parse to themselves: `FETCH_CONFIG`,
/// `COMPARE`, `FETCH_DEVICES`, `RELOAD`, `RESET`.
pub proof fn law_bare_commands()
    ensures
        parse_command_spec("FETCH_CONFIG"@) == Ok::<CommandV, Seq<char>>(CommandV::FetchConfig),
        parse_command_spec("COMPARE"@) == Ok::<CommandV, Seq<char>>(CommandV::Compare),
        parse_command_spec("FETCH_DEVICES"@) == Ok::<CommandV, Seq<char>>(CommandV::FetchDevices),
        parse_command_spec("RELOAD"@) == Ok::<CommandV, Seq<char>>(CommandV::Reload),
        parse_command_spec("RESET"@) == Ok::<CommandV, Seq<char>>(CommandV::Reset),
{
    reveal_strlit("FETCH_CONFIG");
    reveal_strlit("SAVE_CONFIG");
    reveal_strlit("SET");
    reveal_strlit("SET_PARAM_META");
    reveal_strlit("CHAINS");
    reveal_strlit("PRESET");
    reveal_strlit("SAVE_PRESET");
    reveal_strlit("DELETE_PRESET");
    reveal_strlit("COMPARE");
    reveal_strlit("PUT_CONTROLLERS");
    reveal_strlit("FETCH_DEVICES");
    reveal_strlit("PUT_DEVICE");
    reveal_strlit("DELETE_DEVICE");
    reveal_strlit("SET_DEVICE_NAME");
    reveal_strlit("RELOAD");
    reveal_strlit("RESET");
    lemma_split_bare("FETCH_CONFIG"@);
    lemma_split_bare("COMPARE"@);
    lemma_split_bare("FETCH_DEVICES"@);
    lemma_split_bare("RELOAD"@);
    lemma_split_bare("RESET"@);
    assert("FETCH_DEVICES"@[0] != "DELETE_PRESET"@[0]);
    assert("FETCH_DEVICES"@[6] != "FETCH_CONFIG"@[6]);
    assert("RELOAD"@[0] != "CHAINS"@[0]);
    assert("RELOAD"@[0] != "PRESET"@[0]);
    assert("RESET"@.len() == 5 && "SET"@.len() == 3);
    assert("COMPARE"@.len() == 7 && "FETCH_CONFIG"@.len() == 12 && "SAVE_CONFIG"@.len() == 11
        && "SET_PARAM_META"@.len() == 14 && "CHAINS"@.len() == 6 && "PRESET"@.len() == 6
        && "SAVE_PRESET"@.len() == 11 && "DELETE_PRESET"@.len() == 13);
}

/// `SET <path> <value>` sets parameter `path` (a word without whitespace)
/// to `value` (trimmed).
pub proof fn law_set_parses(path: Seq<char>, value: Seq<char>)
    requires
        path.len() > 0,
        forall|j: int| 0 <= j < path.len() ==> !is_white_space(#[trigger] path[j]),
        value.len() > 0,
        !is_white_space(value[0]),
        !is_white_space(value.last()),
    ensures
        parse_command_spec("SET "@ + path + " "@ + value) == Ok::<CommandV, Seq<char>>(
            CommandV::SetParam { path, value },
        ),
{
    reveal_strlit("FETCH_CONFIG");
    reveal_strlit("SAVE_CONFIG");
    reveal_strlit("SET");
    reveal_strlit("SET ");
    reveal_strlit(" ");
    assert(is_white_space(' '));
    let rest = path + seq![' '] + value;
    assert("SET "@ + path + " "@ + value =~= "SET"@ + seq![' '] + rest);
    lemma_split_at_first_space("SET"@, rest);
    assert(rest[0] == path[0]);
    assert(rest.last() == value.last());
    lemma_trimmed_unchanged(rest);
    assert(split_cmd_spec("SET "@ + path + " "@ + value) == ("SET"@, rest));
    lemma_split_at_first_space(path, value);
    lemma_trimmed_unchanged(value);
}

/// `CTRL <channel> <raw>` is a mapped control change of `channel` (a word
/// without whitespace) with value text `raw`.
pub proof fn law_ctrl_parses(channel: Seq<char>, raw: Seq<char>)
    requires
        channel.len() > 0,
        forall|j: int| 0 <= j < channel.len() ==> !is_white_space(#[trigger] channel[j]),
        raw.len() > 0,
        !is_white_space(raw[0]),
        !is_white_space(raw.last()),
    ensures
        parse_line_spec("CTRL "@ + channel + " "@ + raw) == Some(
            Ok::<RequestV, Seq<char>>(RequestV::Ctrl { channel_id: channel, raw }),
        ),
{
    reveal_strlit("CTRL ");
    reveal_strlit("CTRL");
    reveal_strlit(" ");
    assert(is_white_space(' '));
    let line = "CTRL "@ + channel + " "@ + raw;
    let rest = channel + seq![' '] + raw;
    assert(line =~= "CTRL"@ + seq![' '] + rest);
    assert(line[0] == 'C');
    assert(line.last() == raw.last());
    lemma_trimmed_unchanged(line);
    assert(line.take(5) =~= "CTRL "@);
    lemma_split_at_first_space("CTRL"@, rest);
    lemma_split_at_first_space(channel, raw);
}

/// The commands whose argument is a JSON text or an alias hand it on
/// trimmed: `SAVE_CONFIG`, `CHAINS`, `PUT_CONTROLLERS`, `DELETE_DEVICE`.
pub proof fn law_argument_commands(arg: Seq<char>)
    requires
        arg.len() > 0,
        !is_white_space(arg[0]),
        !is_white_space(arg.last()),
    ensures
        parse_command_spec("SAVE_CONFIG "@ + arg) == Ok::<CommandV, Seq<char>>(
            CommandV::SaveConfig { json: arg },
        ),
        parse_command_spec("CHAINS "@ + arg) == Ok::<CommandV, Seq<char>>(
            CommandV::Chains { json: arg },
        ),
        parse_command_spec("PUT_CONTROLLERS "@ + arg) == Ok::<CommandV, Seq<char>>(
            CommandV::PutControllers { json: arg },
        ),
        parse_command_spec("DELETE_DEVICE "@ + arg) == Ok::<CommandV, Seq<char>>(
            CommandV::DeleteDevice { alias: arg },
        ),
{
    reveal_strlit("FETCH_CONFIG");
    reveal_strlit("SAVE_CONFIG");
    reveal_strlit("SET");
    reveal_strlit("SET_PARAM_META");
    reveal_strlit("CHAINS");
    reveal_strlit("PRESET");
    reveal_strlit("SAVE_PRESET");
    reveal_strlit("DELETE_PRESET");
    reveal_strlit("COMPARE");
    reveal_strlit("PUT_CONTROLLERS");
    reveal_strlit("FETCH_DEVICES");
    reveal_strlit("PUT_DEVICE");
    reveal_strlit("DELETE_DEVICE");
    reveal_strlit("SAVE_CONFIG ");
    reveal_strlit("CHAINS ");
    reveal_strlit("PUT_CONTROLLERS ");
    reveal_strlit("DELETE_DEVICE ");
    assert("SAVE_CONFIG "@ + arg =~= "SAVE_CONFIG"@ + seq![' '] + arg);
    assert("CHAINS "@ + arg =~= "CHAINS"@ + seq![' '] + arg);
    assert("PUT_CONTROLLERS "@ + arg =~= "PUT_CONTROLLERS"@ + seq![' '] + arg);
    assert("DELETE_DEVICE "@ + arg =~= "DELETE_DEVICE"@ + seq![' '] + arg);
    lemma_split_at_first_space("SAVE_CONFIG"@, arg);
    lemma_split_at_first_space("CHAINS"@, arg);
    lemma_split_at_first_space("PUT_CONTROLLERS"@, arg);
    lemma_split_at_first_space("DELETE_DEVICE"@, arg);
    lemma_trimmed_unchanged(arg);
    assert("FETCH_CONFIG"@.len() == 12 && "SAVE_CONFIG"@.len() == 11 && "SET"@.len() == 3
        && "SET_PARAM_META"@.len() == 14 && "CHAINS"@.len() == 6 && "PRESET"@.len() == 6
        && "SAVE_PRESET"@.len() == 11 && "DELETE_PRESET"@.len() == 13 && "COMPARE"@.len() == 7
        && "PUT_CONTROLLERS"@.len() == 15 && "FETCH_DEVICES"@.len() == 13 && "PUT_DEVICE"@.len()
        == 10 && "DELETE_DEVICE"@.len() == 13);
    assert("SAVE_CONFIG"@[5] != "SAVE_PRESET"@[5]);
    assert("CHAINS"@[0] != "PRESET"@[0]);
    assert("DELETE_DEVICE"@[7] != "DELETE_PRESET"@[7]);
    assert("DELETE_DEVICE"@[0] != "FETCH_DEVICES"@[0]);
}

} // verus!
