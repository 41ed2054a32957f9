//! Structural rules of a processing chain: physical channel ranges, the
//! position of EQ nodes relative to the mix node, key-prefix routing of
//! parameter paths to nodes, and the chain's effective dry routing.

use vstd::prelude::*;
use crate::text::{append_str, push_decimal, decimal, split_once, split_once_spec, str_eq};

verus! {

/// Effect type name of the mix node.
pub const MIX: &'static str = "mix";

/// What the chain rules read of one node: its key and its effect type.
#[derive(Debug)]
pub struct NodeRef {
    pub key: String,
    pub device_type: String,
}

/// The EQ effect types (they alter the phase of the dry signal).
pub open spec fn is_eq_type(t: Seq<char>) -> bool {
    t == "eq_mid"@ || t == "eq_low"@ || t == "eq_high"@
}

/// Effect types that process the dry signal, so a chain holding an active
/// one cannot have its digital dry muted. Time-shift effects (delay, chorus,
/// reverb, looper, harmonizer) generate their own output and do not.
pub open spec fn needs_dry_spec(t: Seq<char>) -> bool {
    is_eq_type(t)
}

/// Filter shape of an EQ node.
#[derive(Debug, Clone, Copy, PartialEq, Eq, Structural)]
pub enum EqType {
    /// Bell/peak filter: boost or cut around a centre frequency.
    Peak,
    /// Low shelf: boost or cut below the shelf frequency.
    LowShelf,
    /// High shelf: boost or cut above the shelf frequency.
    HighShelf,
}

impl EqType {
    pub open spec fn effect_name_spec(self) -> Seq<char> {
        match self {
            EqType::Peak => "eq_mid"@,
            EqType::LowShelf => "eq_low"@,
            EqType::HighShelf => "eq_high"@,
        }
    }

    /// The effect type name of an EQ node of this shape.
    pub fn effect_name(self) -> (r: &'static str)
        ensures
            r@ == self.effect_name_spec(),
    {
        match self {
            EqType::Peak => "eq_mid",
            EqType::LowShelf => "eq_low",
            EqType::HighShelf => "eq_high",
        }
    }

    /// The EQ shape an effect type name selects, if it names one.
    pub fn from_effect_name(t: &str) -> (r: Option<EqType>)
        ensures
            r is Some <==> is_eq_type(t@),
            match r {
                Some(e) => e.effect_name_spec() == t@,
                None => true,
            },
    {
        if str_eq(t, "eq_mid") {
            Some(EqType::Peak)
        } else if str_eq(t, "eq_low") {
            Some(EqType::LowShelf)
        } else if str_eq(t, "eq_high") {
            Some(EqType::HighShelf)
        } else {
            None
        }
    }
}

// ---------------------------------------------------------------------------
// EQ placement
// ---------------------------------------------------------------------------

pub open spec fn is_mix_at(nodes: Seq<NodeRef>, i: int) -> bool {
    0 <= i < nodes.len() && nodes[i].device_type@ == MIX@
}

pub open spec fn is_eq_at(nodes: Seq<NodeRef>, i: int) -> bool {
    0 <= i < nodes.len() && is_eq_type(nodes[i].device_type@)
}

/// Some EQ node comes before the mix node at `m`.
pub open spec fn eq_before(nodes: Seq<NodeRef>, m: int) -> bool {
    exists|e: int| 0 <= e < m && #[trigger] is_eq_at(nodes, e)
}

/// `m` is the first mix node with an EQ node before it.
pub open spec fn is_first_misplaced_mix(nodes: Seq<NodeRef>, m: int) -> bool {
    &&& is_mix_at(nodes, m)
    &&& eq_before(nodes, m)
    &&& forall|k: int| 0 <= k < m && is_mix_at(nodes, k) ==> !eq_before(nodes, k)
}

/// `e` is the first EQ node.
pub open spec fn is_first_eq(nodes: Seq<NodeRef>, e: int) -> bool {
    &&& is_eq_at(nodes, e)
    &&& forall|k: int| 0 <= k < e ==> !is_eq_at(nodes, k)
}

/// The refusal of an EQ placed before a mix.
pub open spec fn eq_order_message(eq_key: Seq<char>, mix_key: Seq<char>) -> Seq<char> {
    "EQ must be placed after Mix (analogue bypass phase issue). Move '"@ + eq_key + "' after '"@
        + mix_key + "'."@
}

fn is_eq_name(t: &str) -> (r: bool)
    ensures
        r == is_eq_type(t@),
{
    str_eq(t, "eq_mid") || str_eq(t, "eq_low") || str_eq(t, "eq_high")
}

/// Refuse a chain in which an EQ node comes before a mix node (the analogue
/// bypass would put the EQ's phase shift against the dry signal). The
/// refusal names the first EQ node and the first mix node preceded by one.
pub fn validate_eq_order(nodes: &Vec<NodeRef>) -> (r: Result<(), String>)
    ensures
        r is Ok <==> forall|m: int| is_mix_at(nodes@, m) ==> !eq_before(nodes@, m),
        r is Err ==> exists|m: int, e: int|
            is_first_misplaced_mix(nodes@, m) && is_first_eq(nodes@, e) && e < m && r->Err_0@
                == eq_order_message(nodes@[e].key@, nodes@[m].key@),
{
    let mut first_eq: Option<usize> = None;
    let mut i: usize = 0;
    while i < nodes.len()
        invariant
            i <= nodes.len(),
            forall|m: int| 0 <= m < i && is_mix_at(nodes@, m) ==> !eq_before(nodes@, m),
            match first_eq {
                Some(e) => e < i && is_first_eq(nodes@, e as int),
                None => forall|k: int| 0 <= k < i ==> !is_eq_at(nodes@, k),
            },
        decreases nodes.len() - i,
    {
        if str_eq(nodes[i].device_type.as_str(), MIX) {
            if let Some(e) = first_eq {
                let mut msg = String::from_str(
                    "EQ must be placed after Mix (analogue bypass phase issue). Move '",
                );
                append_str(&mut msg, nodes[e].key.as_str());
                append_str(&mut msg, "' after '");
                append_str(&mut msg, nodes[i].key.as_str());
                append_str(&mut msg, "'.");
                proof {
                    assert(is_eq_at(nodes@, e as int));
                    assert(eq_before(nodes@, i as int));
                    assert(is_first_misplaced_mix(nodes@, i as int));
                    assert(msg@ =~= eq_order_message(nodes@[e as int].key@, nodes@[i as int].key@));
                }
                return Err(msg);
            }
            proof {
                assert(!eq_before(nodes@, i as int)) by {
                    if eq_before(nodes@, i as int) {
                        let e = choose|e: int| 0 <= e < i && #[trigger] is_eq_at(nodes@, e);
                        assert(!is_eq_at(nodes@, e));
                    }
                }
            }
        }
        if first_eq.is_none() && is_eq_name(nodes[i].device_type.as_str()) {
            first_eq = Some(i);
        }
        i = i + 1;
    }
    Ok(())
}

// ---------------------------------------------------------------------------
// Channel ranges
// ---------------------------------------------------------------------------

/// Channel `ch` is usable with `count` physical channels: 0 means none,
/// channels are otherwise numbered from 1.
pub open spec fn channel_ok(ch: u8, count: u16) -> bool {
    ch == 0 || ch <= count
}

/// The refusal of an out-of-range channel.
pub open spec fn channel_message(
    idx: nat,
    direction: Seq<char>,
    ch: nat,
    plural: Seq<char>,
    count: nat,
) -> Seq<char> {
    "Chain "@ + decimal(idx) + ": "@ + direction + " channel "@ + decimal(ch)
        + " out of range ("@ + plural + "="@ + decimal(count) + ")"@
}

fn channel_error(idx: usize, direction: &str, ch: u8, plural: &str, count: u16) -> (r: String)
    ensures
        r@ == channel_message(idx as nat, direction@, ch as nat, plural@, count as nat),
{
    let mut s = String::from_str("Chain ");
    push_decimal(&mut s, idx as u64);
    append_str(&mut s, ": ");
    append_str(&mut s, direction);
    append_str(&mut s, " channel ");
    push_decimal(&mut s, ch as u64);
    append_str(&mut s, " out of range (");
    append_str(&mut s, plural);
    append_str(&mut s, "=");
    push_decimal(&mut s, count as u64);
    append_str(&mut s, ")");
    assert(s@ =~= channel_message(idx as nat, direction@, ch as nat, plural@, count as nat));
    s
}

/// Check the physical routing of chain `idx`: each input channel must exist
/// among `in_channels`, each output channel among `out_channels` (0 = none).
/// Inputs are checked before outputs, each pair in order.
pub fn check_channels(
    idx: usize,
    input: [u8; 2],
    output: [u8; 2],
    in_channels: u16,
    out_channels: u16,
) -> (r: Result<(), String>)
    ensures
        r is Ok <==> (channel_ok(input[0], in_channels) && channel_ok(input[1], in_channels)
            && channel_ok(output[0], out_channels) && channel_ok(output[1], out_channels)),
        !channel_ok(input[0], in_channels) ==> r is Err && r->Err_0@ == channel_message(
            idx as nat,
            "input"@,
            input[0] as nat,
            "in_channels"@,
            in_channels as nat,
        ),
        channel_ok(input[0], in_channels) && !channel_ok(input[1], in_channels) ==> r is Err
            && r->Err_0@ == channel_message(
            idx as nat,
            "input"@,
            input[1] as nat,
            "in_channels"@,
            in_channels as nat,
        ),
        channel_ok(input[0], in_channels) && channel_ok(input[1], in_channels) && !channel_ok(
            output[0],
            out_channels,
        ) ==> r is Err && r->Err_0@ == channel_message(
            idx as nat,
            "output"@,
            output[0] as nat,
            "out_channels"@,
            out_channels as nat,
        ),
        channel_ok(input[0], in_channels) && channel_ok(input[1], in_channels) && channel_ok(
            output[0],
            out_channels,
        ) && !channel_ok(output[1], out_channels) ==> r is Err && r->Err_0@ == channel_message(
            idx as nat,
            "output"@,
            output[1] as nat,
            "out_channels"@,
            out_channels as nat,
        ),
{
    let mut k: usize = 0;
    while k < 2
        invariant
            k <= 2,
            forall|j: int| 0 <= j < k ==> channel_ok(#[trigger] input[j], in_channels),
        decreases 2 - k,
    {
        let ch = input[k];
        if ch > 0 && ch as u16 > in_channels {
            return Err(channel_error(idx, "input", ch, "in_channels", in_channels));
        }
        k = k + 1;
    }
    let mut k: usize = 0;
    while k < 2
        invariant
            k <= 2,
            forall|j: int| 0 <= j < 2 ==> channel_ok(#[trigger] input[j], in_channels),
            forall|j: int| 0 <= j < k ==> channel_ok(#[trigger] output[j], out_channels),
        decreases 2 - k,
    {
        let ch = output[k];
        if ch > 0 && ch as u16 > out_channels {
            return Err(channel_error(idx, "output", ch, "out_channels", out_channels));
        }
        k = k + 1;
    }
    Ok(())
}

// ---------------------------------------------------------------------------
// Key-prefix routing
// ---------------------------------------------------------------------------

/// `i` is the first node whose key is `key`.
pub open spec fn is_first_keyed(keys: Seq<String>, key: Seq<char>, i: int) -> bool {
    &&& 0 <= i < keys.len()
    &&& keys[i]@ == key
    &&& forall|k: int| 0 <= k < i ==> (#[trigger] keys[k])@ != key
}

/// Where a path `"<node key>.<param>"` goes: the first node with that key,
/// and the rest of the path after the first `.`.
pub open spec fn route_spec(keys: Seq<String>, path: Seq<char>) -> Option<(int, Seq<char>)> {
    match split_once_spec(path, '.') {
        Some((key, rest)) => if exists|i: int| is_first_keyed(keys, key, i) {
            Some((choose|i: int| is_first_keyed(keys, key, i), rest))
        } else {
            None
        },
        None => None,
    }
}

/// Route a parameter path to a node: the index of the first node whose key
/// is the part before the first `.`, and the parameter (the part after).
pub fn route<'a>(keys: &Vec<String>, path: &'a str) -> (r: Option<(usize, &'a str)>)
    ensures
        match (r, route_spec(keys@, path@)) {
            (Some((i, rest)), Some((j, rest2))) => i == j && rest@ == rest2,
            (None, None) => true,
            _ => false,
        },
{
    match split_once(path, '.') {
        None => None,
        Some((key, rest)) => {
            let mut i: usize = 0;
            while i < keys.len()
                invariant
                    i <= keys.len(),
                    split_once_spec(path@, '.') == Some((key@, rest@)),
                    forall|k: int| 0 <= k < i ==> (#[trigger] keys@[k])@ != key@,
                decreases keys.len() - i,
            {
                if str_eq(keys[i].as_str(), key) {
                    proof {
                        assert(is_first_keyed(keys@, key@, i as int));
                        let j = choose|j: int| is_first_keyed(keys@, key@, j);
                        assert(j == i as int) by {
                            if j < i as int {
                                assert(keys@[j]@ != key@);
                            }
                            if j > i as int {
                                assert(keys@[i as int]@ != key@);
                            }
                        }
                        assert(split_once_spec(path@, '.') == Some((key@, rest@)));
                        assert(route_spec(keys@, path@) == Some((i as int, rest@)));
                    }
                    return Some((i, rest));
                }
                i = i + 1;
            }
            assert(!exists|j: int| is_first_keyed(keys@, key@, j)) by {
                if exists|j: int| is_first_keyed(keys@, key@, j) {
                    let j = choose|j: int| is_first_keyed(keys@, key@, j);
                    assert(keys@[j]@ != key@);
                }
            }
            None
        },
    }
}

/// Refusal of a parameter path that no node handles.
pub open spec fn unrouted_param_message(path: Seq<char>) -> Seq<char> {
    "no node handles '"@ + path + "'"@
}

/// Refusal of an action path that no node handles.
pub open spec fn unrouted_action_message(path: Seq<char>) -> Seq<char> {
    "no node handles action '"@ + path + "'"@
}

/// Route a `SET` path, refusing it when no node handles it.
pub fn route_param<'a>(keys: &Vec<String>, path: &'a str) -> (r: Result<(usize, &'a str), String>)
    ensures
        match (r, route_spec(keys@, path@)) {
            (Ok((i, rest)), Some((j, rest2))) => i == j && rest@ == rest2,
            (Err(e), None) => e@ == unrouted_param_message(path@),
            _ => false,
        },
{
    match route(keys, path) {
        Some(p) => Ok(p),
        None => {
            let mut e = String::from_str("no node handles '");
            append_str(&mut e, path);
            append_str(&mut e, "'");
            Err(e)
        },
    }
}

/// Route an `ACT` path, refusing it when no node handles it.
pub fn route_action<'a>(keys: &Vec<String>, path: &'a str) -> (r: Result<(usize, &'a str), String>)
    ensures
        match (r, route_spec(keys@, path@)) {
            (Ok((i, rest)), Some((j, rest2))) => i == j && rest@ == rest2,
            (Err(e), None) => e@ == unrouted_action_message(path@),
            _ => false,
        },
{
    match route(keys, path) {
        Some(p) => Ok(p),
        None => {
            let mut e = String::from_str("no node handles action '");
            append_str(&mut e, path);
            append_str(&mut e, "'");
            Err(e)
        },
    }
}

// ---------------------------------------------------------------------------
// Effective dry routing
// ---------------------------------------------------------------------------

/// What the dry rule reads of one node: its effect type and its `active`
/// parameter when it is set to a boolean (unset counts as active).
#[derive(Debug)]
pub struct DryNode {
    pub device_type: String,
    pub active: Option<bool>,
}

/// What the dry rule reads of one chain.
#[derive(Debug)]
pub struct DryChain {
    pub mute_dry: bool,
    pub dry_effective: bool,
    pub nodes: Vec<DryNode>,
}

pub open spec fn node_active(n: DryNode) -> bool {
    match n.active {
        Some(b) => b,
        None => true,
    }
}

/// Some active node of the chain processes the dry signal.
pub open spec fn any_active_needs_dry(nodes: Seq<DryNode>) -> bool {
    exists|i: int| 0 <= i < nodes.len() && node_active(nodes[i]) && needs_dry_spec(
        #[trigger] nodes[i].device_type@,
    )
}

/// The digital dry signal stays on unless the user muted it, and a mute is
/// overridden while an active node needs the dry signal.
pub open spec fn dry_effective_spec(c: DryChain) -> bool {
    !c.mute_dry || any_active_needs_dry(c.nodes@)
}

/// Whether effect type `t` processes the dry signal.
pub fn needs_dry(t: &str) -> (r: bool)
    ensures
        r == needs_dry_spec(t@),
{
    is_eq_name(t)
}

/// The effective dry routing of one chain.
pub fn chain_dry_effective(c: &DryChain) -> (r: bool)
    ensures
        r == dry_effective_spec(*c),
{
    if !c.mute_dry {
        return true;
    }
    let mut i: usize = 0;
    while i < c.nodes.len()
        invariant
            i <= c.nodes@.len(),
            forall|k: int|
                0 <= k < i ==> !(node_active(c.nodes@[k]) && needs_dry_spec(
                    #[trigger] c.nodes@[k].device_type@,
                )),
        decreases c.nodes.len() - i,
    {
        let active = match c.nodes[i].active {
            Some(b) => b,
            None => true,
        };
        if active && needs_dry(c.nodes[i].device_type.as_str()) {
            return true;
        }
        i = i + 1;
    }
    false
}

/// The chains whose effective dry routing must change, with the new value,
/// in chain order.
pub fn dry_effective_updates(chains: &Vec<DryChain>) -> (r: Vec<(usize, bool)>)
    ensures
        forall|k: int|
            0 <= k < r@.len() ==> {
                let (idx, v) = #[trigger] r@[k];
                &&& idx < chains@.len()
                &&& v == dry_effective_spec(chains@[idx as int])
                &&& v != chains@[idx as int].dry_effective
            },
        forall|i: int|
            0 <= i < chains@.len() && dry_effective_spec(chains@[i]) != chains@[i].dry_effective
                ==> exists|k: int| 0 <= k < r@.len() && (#[trigger] r@[k]).0 == i,
        forall|a: int, b: int| 0 <= a < b < r@.len() ==> r@[a].0 < r@[b].0,
{
    let mut out: Vec<(usize, bool)> = Vec::new();
    let mut i: usize = 0;
    while i < chains.len()
        invariant
            i <= chains@.len(),
            forall|k: int|
                0 <= k < out@.len() ==> {
                    let (idx, v) = #[trigger] out@[k];
                    &&& idx < i
                    &&& v == dry_effective_spec(chains@[idx as int])
                    &&& v != chains@[idx as int].dry_effective
                },
            forall|j: int|
                0 <= j < i && dry_effective_spec(chains@[j]) != chains@[j].dry_effective
                    ==> exists|k: int| 0 <= k < out@.len() && (#[trigger] out@[k]).0 == j,
            forall|a: int, b: int| 0 <= a < b < out@.len() ==> out@[a].0 < out@[b].0,
        decreases chains.len() - i,
    {
        let eff = chain_dry_effective(&chains[i]);
        let ghost before = out@;
        if eff != chains[i].dry_effective {
            out.push((i, eff));
            proof {
                assert(out@[out@.len() - 1].0 == i);
                assert forall|j: int|
                    0 <= j < i + 1 && dry_effective_spec(chains@[j]) != chains@[j].dry_effective
                        implies exists|k: int| 0 <= k < out@.len() && (#[trigger] out@[k]).0 == j by {
                    if j < i {
                        let k = choose|k: int| 0 <= k < before.len() && (#[trigger] before[k]).0 == j;
                        assert(out@[k] == before[k]);
                    } else {
                        assert(out@[out@.len() - 1].0 == j);
                    }
                }
            }
        }
        i = i + 1;
    }
    out
}

/// Every EQ shape's type name is an EQ type name, and reads back as that shape.
pub proof fn law_eq_effect_names(e: EqType)
    ensures
        is_eq_type(e.effect_name_spec()),
        e == EqType::Peak ==> e.effect_name_spec() != EqType::LowShelf.effect_name_spec()
            && e.effect_name_spec() != EqType::HighShelf.effect_name_spec(),
        e == EqType::LowShelf ==> e.effect_name_spec() != EqType::HighShelf.effect_name_spec(),
{
    reveal_strlit("eq_mid");
    reveal_strlit("eq_low");
    reveal_strlit("eq_high");
    assert("eq_mid"@[3] != "eq_low"@[3]);
    assert("eq_mid"@[3] != "eq_high"@[3]);
    assert("eq_low"@[3] != "eq_high"@[3]);
}

} // verus!
