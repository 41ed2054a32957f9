//! Per-parameter metadata and the override kernel.
//!
//! A parameter list is what an effect declares of its parameters; overrides
//! edit one aspect (`min`, `max`, `default`, `log`, `step`, `visible`,
//! `active`) of one live parameter, clamped to an editable envelope. The
//! integer, boolean and flag cases are decided here; for a continuous float
//! parameter the kernel names the entry and the caller applies the float
//! arithmetic.

use vstd::prelude::*;
use crate::device::{MetaAspect, MetaTarget, ParamKind};
use crate::text::{append_str, split_once, split_once_spec, str_eq};
use crate::chain::is_first_keyed;

verus! {

/// The value shape of a parameter, with the integer and boolean payloads the
/// kernel reads. Float payloads and display labels stay with the caller.
#[derive(Debug, Clone, Copy, PartialEq, Eq, Structural)]
#[allow(inconsistent_fields)]
pub enum ValueShape {
    ContinuousFloat,
    ContinuousInt { min: i32, max: i32, default: i32 },
    DiscreteFloat,
    DiscreteBool { default: bool },
    NoValue,
}

/// One entry of a parameter list.
#[derive(Debug)]
pub struct ParamEntry {
    pub name: String,
    pub kind: ParamKind,
    pub value: ValueShape,
    pub visible: bool,
    pub active: bool,
}

/// An override value as the kernel reads it. A float carries its integer
/// part (truncated towards zero, saturating), which is what an integer
/// parameter takes of it.
#[derive(Debug, Clone, Copy, PartialEq, Eq, Structural)]
pub enum OverrideValue {
    Int(i32),
    Float { truncated: i32 },
    Bool(bool),
}

/// What an override did.
#[derive(Debug, Clone, Copy, PartialEq, Eq, Structural)]
pub enum OverrideOutcome {
    /// Applied (or refused, `changed == false`); the list is final.
    Applied { changed: bool },
    /// The target is the continuous float entry at `index`; the caller
    /// applies the float override to it. Nothing was changed.
    FloatEntry { index: usize },
}

/// Which entries a lookup matches, besides the name.
#[derive(Debug, Clone, Copy, PartialEq, Eq, Structural)]
pub enum Probe {
    /// Any entry.
    Any,
    /// A live parameter (`ParamMeta`).
    Live,
    /// A UI grouping anchor.
    Group,
    /// An integer envelope (`BoundMeta`) for the given aspect.
    IntBound(MetaAspect),
}

// ---------------------------------------------------------------------------
// Specification
// ---------------------------------------------------------------------------

pub open spec fn matches_probe(e: ParamEntry, name: Seq<char>, p: Probe) -> bool {
    &&& e.name@ == name
    &&& match p {
        Probe::Any => true,
        Probe::Live => e.kind is ParamMeta,
        Probe::Group => e.kind is ActionsGroup,
        Probe::IntBound(a) => e.kind == (ParamKind::BoundMeta { aspect: a })
            && e.value is ContinuousInt,
    }
}

/// `i` is the first entry of `s` that matches.
pub open spec fn is_first_match(s: Seq<ParamEntry>, name: Seq<char>, p: Probe, i: int) -> bool {
    &&& 0 <= i < s.len()
    &&& matches_probe(s[i], name, p)
    &&& forall|k: int| 0 <= k < i ==> !matches_probe(#[trigger] s[k], name, p)
}

/// The first entry of `s` that matches, if any.
pub open spec fn first_match(s: Seq<ParamEntry>, name: Seq<char>, p: Probe) -> Option<int> {
    if exists|i: int| is_first_match(s, name, p, i) {
        Some(choose|i: int| is_first_match(s, name, p, i))
    } else {
        None
    }
}

/// The integer envelope declared for `(name, aspect)`, if any.
pub open spec fn bound_int_spec(s: Seq<ParamEntry>, name: Seq<char>, aspect: MetaAspect) -> Option<
    (i32, i32),
> {
    match first_match(s, name, Probe::IntBound(aspect)) {
        Some(i) => match s[i].value {
            ValueShape::ContinuousInt { min, max, .. } => Some((min, max)),
            _ => None,
        },
        None => None,
    }
}

/// Integer reading of a value: integers and floats (by their integer part).
pub open spec fn as_int(v: OverrideValue) -> Option<i32> {
    match v {
        OverrideValue::Int(i) => Some(i),
        OverrideValue::Float { truncated } => Some(truncated),
        OverrideValue::Bool(_) => None,
    }
}

/// Boolean reading of a value: booleans only.
pub open spec fn as_bool(v: OverrideValue) -> Option<bool> {
    match v {
        OverrideValue::Bool(b) => Some(b),
        _ => None,
    }
}

/// `v` clamped to `[lo, hi]`.
pub open spec fn clamp_spec(v: i32, lo: i32, hi: i32) -> i32 {
    if v < lo {
        lo
    } else if v > hi {
        hi
    } else {
        v
    }
}

pub open spec fn unchanged(r: Seq<ParamEntry>) -> (Seq<ParamEntry>, OverrideOutcome) {
    (r, OverrideOutcome::Applied { changed: false })
}

/// Set the `visible` or `active` flag of entry `i` (any other aspect is refused).
pub open spec fn flag_spec(r: Seq<ParamEntry>, i: int, aspect: MetaAspect, value: OverrideValue) -> (
    Seq<ParamEntry>,
    OverrideOutcome,
) {
    match as_bool(value) {
        None => unchanged(r),
        Some(b) => if aspect == MetaAspect::Visible {
            (
                r.update(i, ParamEntry { visible: b, ..r[i] }),
                OverrideOutcome::Applied { changed: r[i].visible != b },
            )
        } else if aspect == MetaAspect::Active {
            (
                r.update(i, ParamEntry { active: b, ..r[i] }),
                OverrideOutcome::Applied { changed: r[i].active != b },
            )
        } else {
            unchanged(r)
        },
    }
}

/// The range an integer override of `aspect` on entry `i` is clamped into:
/// the declared integer `BoundMeta` envelope for `min`/`max`, else the
/// reference entry's own range.
pub open spec fn int_clamp_range(c: Seq<ParamEntry>, i: int, name: Seq<char>, aspect: MetaAspect) -> (
    i32,
    i32,
) {
    match c[i].value {
        ValueShape::ContinuousInt { min: cmin, max: cmax, .. } => if aspect == MetaAspect::Min
            || aspect == MetaAspect::Max {
            match bound_int_spec(c, name, aspect) {
                Some(p) => p,
                None => (cmin, cmax),
            }
        } else {
            (cmin, cmax)
        },
        _ => (0, 0),
    }
}

/// An override of `min`, `max` or `default` of an integer parameter.
///
/// The value is clamped to [`int_clamp_range`]; the edit is rolled back when
/// it leaves `min > max` or, for a direct `default` edit, a default outside
/// the range; a `min`/`max` edit pulls the default back into the new range.
/// `changed` tells whether the entry differs from before.
pub open spec fn int_override_spec(
    r: Seq<ParamEntry>,
    c: Seq<ParamEntry>,
    i: int,
    name: Seq<char>,
    aspect: MetaAspect,
    v_in: i32,
) -> (Seq<ParamEntry>, OverrideOutcome) {
    match (r[i].value, c[i].value) {
        (ValueShape::ContinuousInt { min, max, default }, ValueShape::ContinuousInt { .. }) => {
            let bound_aspect = aspect == MetaAspect::Min || aspect == MetaAspect::Max;
            let (lo, hi) = int_clamp_range(c, i, name, aspect);
            let v = clamp_spec(v_in, lo, hi);
            let (nmin, nmax, ndef) = if aspect == MetaAspect::Min {
                (v, max, default)
            } else if aspect == MetaAspect::Max {
                (min, v, default)
            } else if aspect == MetaAspect::Default {
                (min, max, v)
            } else {
                (min, max, default)
            };
            if nmin > nmax {
                unchanged(r)
            } else if aspect == MetaAspect::Default && (ndef < nmin || ndef > nmax) {
                unchanged(r)
            } else {
                let fdef = if bound_aspect {
                    clamp_spec(ndef, nmin, nmax)
                } else {
                    ndef
                };
                (
                    r.update(
                        i,
                        ParamEntry {
                            value: ValueShape::ContinuousInt { min: nmin, max: nmax, default: fdef },
                            ..r[i]
                        },
                    ),
                    OverrideOutcome::Applied {
                        changed: !(nmin == min && nmax == max && fdef == default),
                    },
                )
            }
        },
        _ => unchanged(r),
    }
}

/// An override of a value aspect of the live parameter `i`.
pub open spec fn value_override_spec(
    r: Seq<ParamEntry>,
    c: Seq<ParamEntry>,
    i: int,
    name: Seq<char>,
    aspect: MetaAspect,
    value: OverrideValue,
) -> (Seq<ParamEntry>, OverrideOutcome) {
    match (r[i].value, c[i].value) {
        (ValueShape::ContinuousFloat, ValueShape::ContinuousFloat) => (
            r,
            OverrideOutcome::FloatEntry { index: i as usize },
        ),
        (ValueShape::ContinuousInt { .. }, ValueShape::ContinuousInt { .. }) => match as_int(value) {
            Some(v_in) => int_override_spec(r, c, i, name, aspect, v_in),
            None => unchanged(r),
        },
        (ValueShape::DiscreteBool { default: d }, _) => if aspect != MetaAspect::Default {
            unchanged(r)
        } else {
            match as_bool(value) {
                Some(b) => (
                    r.update(i, ParamEntry { value: ValueShape::DiscreteBool { default: b }, ..r[i] }),
                    OverrideOutcome::Applied { changed: d != b },
                ),
                None => unchanged(r),
            }
        },
        _ => unchanged(r),
    }
}

/// The override kernel: apply `value` to aspect `aspect` of the parameter
/// named `name` in `r`, with `c` as the clamping reference.
pub open spec fn apply_override_spec(
    r: Seq<ParamEntry>,
    c: Seq<ParamEntry>,
    name: Seq<char>,
    aspect: MetaAspect,
    value: OverrideValue,
) -> (Seq<ParamEntry>, OverrideOutcome) {
    if r.len() != c.len() {
        unchanged(r)
    } else {
        match first_match(r, name, Probe::Group) {
            Some(g) => flag_spec(r, g, aspect, value),
            None => match first_match(r, name, Probe::Live) {
                None => unchanged(r),
                Some(i) => if aspect == MetaAspect::Visible || aspect == MetaAspect::Active {
                    flag_spec(r, i, aspect, value)
                } else {
                    value_override_spec(r, c, i, name, aspect, value)
                },
            },
        }
    }
}

/// The clamping an override performs is defined: when an integer value
/// reaches an integer live parameter (not a flag, not a grouping anchor),
/// the range it is clamped into is ordered.
pub open spec fn override_clamp_ordered(
    r: Seq<ParamEntry>,
    c: Seq<ParamEntry>,
    name: Seq<char>,
    aspect: MetaAspect,
    value: OverrideValue,
) -> bool {
    (r.len() == c.len() && first_match(r, name, Probe::Group) is None && aspect != MetaAspect::Visible
        && aspect != MetaAspect::Active && as_int(value) is Some) ==> match first_match(
        r,
        name,
        Probe::Live,
    ) {
        Some(i) => (r[i].value is ContinuousInt && c[i].value is ContinuousInt) ==> int_clamp_range(
            c,
            i,
            name,
            aspect,
        ).0 <= int_clamp_range(c, i, name, aspect).1,
        None => true,
    }
}

// ---------------------------------------------------------------------------
// Lookups
// ---------------------------------------------------------------------------

fn copy_entry(e: &ParamEntry) -> (r: ParamEntry)
    ensures
        r == *e,
{
    ParamEntry {
        name: e.name.clone(),
        kind: e.kind,
        value: e.value,
        visible: e.visible,
        active: e.active,
    }
}

fn entry_matches(e: &ParamEntry, name: &str, p: Probe) -> (r: bool)
    ensures
        r == matches_probe(*e, name@, p),
{
    let kind_ok = match p {
        Probe::Any => true,
        Probe::Live => match e.kind {
            ParamKind::ParamMeta { .. } => true,
            _ => false,
        },
        Probe::Group => match e.kind {
            ParamKind::ActionsGroup => true,
            _ => false,
        },
        Probe::IntBound(a) => {
            let kind_is = match e.kind {
                ParamKind::BoundMeta { aspect } => aspect == a,
                _ => false,
            };
            let int_value = match e.value {
                ValueShape::ContinuousInt { .. } => true,
                _ => false,
            };
            kind_is && int_value
        },
    };
    kind_ok && str_eq(e.name.as_str(), name)
}

/// Index of the first entry named `name` that matches `p`.
pub fn find_first(s: &Vec<ParamEntry>, name: &str, p: Probe) -> (r: Option<usize>)
    ensures
        match r {
            Some(i) => first_match(s@, name@, p) == Some(i as int),
            None => first_match(s@, name@, p) is None,
        },
{
    let mut j: usize = 0;
    while j < s.len()
        invariant
            j <= s.len(),
            forall|k: int| 0 <= k < j ==> !matches_probe(#[trigger] s@[k], name@, p),
        decreases s.len() - j,
    {
        if entry_matches(&s[j], name, p) {
            proof {
                let i = choose|i: int| is_first_match(s@, name@, p, i);
                assert(is_first_match(s@, name@, p, j as int));
                assert(i == j as int) by {
                    if i < j as int {
                        assert(!matches_probe(s@[i], name@, p));
                    }
                    if i > j as int {
                        assert(!matches_probe(s@[j as int], name@, p));
                    }
                }
            }
            return Some(j);
        }
        j = j + 1;
    }
    assert(!exists|i: int| is_first_match(s@, name@, p, i)) by {
        if exists|i: int| is_first_match(s@, name@, p, i) {
            let i = choose|i: int| is_first_match(s@, name@, p, i);
            assert(!matches_probe(s@[i], name@, p));
        }
    }
    None
}

/// Index of the first entry named `name` (the list must declare one).
pub fn find_param_info(params_info: &Vec<ParamEntry>, name: &str) -> (r: usize)
    requires
        exists|i: int| 0 <= i < params_info@.len() && params_info@[i].name@ == name@,
    ensures
        first_match(params_info@, name@, Probe::Any) == Some(r as int),
{
    match find_first(params_info, name, Probe::Any) {
        Some(i) => i,
        None => {
            proof {
                let i = choose|i: int|
                    0 <= i < params_info@.len() && params_info@[i].name@ == name@;
                lemma_some_first(params_info@, name@, Probe::Any, i);
            }
            0
        },
    }
}

/// Index of the first live parameter named `name`, where a `BoundMeta`
/// sibling may share the name (the list must declare one).
pub fn find_param_meta(params_info: &Vec<ParamEntry>, name: &str) -> (r: usize)
    requires
        exists|i: int|
            0 <= i < params_info@.len() && matches_probe(params_info@[i], name@, Probe::Live),
    ensures
        first_match(params_info@, name@, Probe::Live) == Some(r as int),
{
    match find_first(params_info, name, Probe::Live) {
        Some(i) => i,
        None => {
            proof {
                let i = choose|i: int|
                    0 <= i < params_info@.len() && matches_probe(params_info@[i], name@, Probe::Live);
                lemma_some_first(params_info@, name@, Probe::Live, i);
            }
            0
        },
    }
}

/// A matching entry means a first matching entry.
pub proof fn lemma_some_first(s: Seq<ParamEntry>, name: Seq<char>, p: Probe, i: int)
    requires
        0 <= i < s.len(),
        matches_probe(s[i], name, p),
    ensures
        first_match(s, name, p) is Some,
    decreases i,
{
    if exists|k: int| 0 <= k < i && matches_probe(s[k], name, p) {
        let k = choose|k: int| 0 <= k < i && matches_probe(s[k], name, p);
        lemma_some_first(s, name, p, k);
    } else {
        assert(is_first_match(s, name, p, i));
    }
}

/// The integer envelope a `BoundMeta` declares for `(param, aspect)`.
pub fn bound_meta_int(slice: &Vec<ParamEntry>, param: &str, aspect: MetaAspect) -> (r: Option<
    (i32, i32),
>)
    ensures
        r == bound_int_spec(slice@, param@, aspect),
{
    match find_first(slice, param, Probe::IntBound(aspect)) {
        Some(i) => match slice[i].value {
            ValueShape::ContinuousInt { min, max, .. } => Some((min, max)),
            _ => None,
        },
        None => None,
    }
}

fn clamp_i32(v: i32, lo: i32, hi: i32) -> (r: i32)
    requires
        lo <= hi,
    ensures
        r == clamp_spec(v, lo, hi),
{
    if v < lo {
        lo
    } else if v > hi {
        hi
    } else {
        v
    }
}

// ---------------------------------------------------------------------------
// The override kernel
// ---------------------------------------------------------------------------

fn set_flag(resolved: &mut Vec<ParamEntry>, i: usize, aspect: MetaAspect, value: OverrideValue) -> (r:
    OverrideOutcome)
    requires
        i < old(resolved)@.len(),
    ensures
        (final(resolved)@, r) == flag_spec(old(resolved)@, i as int, aspect, value),
{
    match value {
        OverrideValue::Bool(b) => match aspect {
            MetaAspect::Visible => {
                let mut e = copy_entry(&resolved[i]);
                let changed = e.visible != b;
                e.visible = b;
                resolved.set(i, e);
                OverrideOutcome::Applied { changed }
            },
            MetaAspect::Active => {
                let mut e = copy_entry(&resolved[i]);
                let changed = e.active != b;
                e.active = b;
                resolved.set(i, e);
                OverrideOutcome::Applied { changed }
            },
            _ => OverrideOutcome::Applied { changed: false },
        },
        _ => OverrideOutcome::Applied { changed: false },
    }
}

fn int_override(
    resolved: &mut Vec<ParamEntry>,
    clamp_ref: &Vec<ParamEntry>,
    i: usize,
    name: &str,
    aspect: MetaAspect,
    v_in: i32,
) -> (r: OverrideOutcome)
    requires
        i < old(resolved)@.len(),
        i < clamp_ref@.len(),
        (old(resolved)@[i as int].value is ContinuousInt && clamp_ref@[i as int].value is ContinuousInt)
            ==> int_clamp_range(clamp_ref@, i as int, name@, aspect).0 <= int_clamp_range(
            clamp_ref@,
            i as int,
            name@,
            aspect,
        ).1,
    ensures
        (final(resolved)@, r) == int_override_spec(
            old(resolved)@,
            clamp_ref@,
            i as int,
            name@,
            aspect,
            v_in,
        ),
{
    match (resolved[i].value, clamp_ref[i].value) {
        (
            ValueShape::ContinuousInt { min, max, default },
            ValueShape::ContinuousInt { min: cmin, max: cmax, .. },
        ) => {
            let bound_aspect = aspect == MetaAspect::Min || aspect == MetaAspect::Max;
            let (lo, hi) = if bound_aspect {
                match bound_meta_int(clamp_ref, name, aspect) {
                    Some(p) => p,
                    None => (cmin, cmax),
                }
            } else {
                (cmin, cmax)
            };
            let v = clamp_i32(v_in, lo, hi);
            let (nmin, nmax, ndef) = match aspect {
                MetaAspect::Min => (v, max, default),
                MetaAspect::Max => (min, v, default),
                MetaAspect::Default => (min, max, v),
                _ => (min, max, default),
            };
            if nmin > nmax {
                return OverrideOutcome::Applied { changed: false };
            }
            if aspect == MetaAspect::Default && (ndef < nmin || ndef > nmax) {
                return OverrideOutcome::Applied { changed: false };
            }
            let fdef = if bound_aspect {
                clamp_i32(ndef, nmin, nmax)
            } else {
                ndef
            };
            let changed = !(nmin == min && nmax == max && fdef == default);
            let mut e = copy_entry(&resolved[i]);
            e.value = ValueShape::ContinuousInt { min: nmin, max: nmax, default: fdef };
            resolved.set(i, e);
            OverrideOutcome::Applied { changed }
        },
        _ => OverrideOutcome::Applied { changed: false },
    }
}

fn value_override(
    resolved: &mut Vec<ParamEntry>,
    clamp_ref: &Vec<ParamEntry>,
    i: usize,
    name: &str,
    aspect: MetaAspect,
    value: OverrideValue,
) -> (r: OverrideOutcome)
    requires
        i < old(resolved)@.len(),
        i < clamp_ref@.len(),
        (as_int(value) is Some && old(resolved)@[i as int].value is ContinuousInt
            && clamp_ref@[i as int].value is ContinuousInt) ==> int_clamp_range(
            clamp_ref@,
            i as int,
            name@,
            aspect,
        ).0 <= int_clamp_range(clamp_ref@, i as int, name@, aspect).1,
    ensures
        (final(resolved)@, r) == value_override_spec(
            old(resolved)@,
            clamp_ref@,
            i as int,
            name@,
            aspect,
            value,
        ),
{
    match (resolved[i].value, clamp_ref[i].value) {
        (ValueShape::ContinuousFloat, ValueShape::ContinuousFloat) => OverrideOutcome::FloatEntry {
            index: i,
        },
        (ValueShape::ContinuousInt { .. }, ValueShape::ContinuousInt { .. }) => {
            let v_in = match value {
                OverrideValue::Int(v) => v,
                OverrideValue::Float { truncated } => truncated,
                OverrideValue::Bool(_) => {
                    return OverrideOutcome::Applied { changed: false };
                },
            };
            int_override(resolved, clamp_ref, i, name, aspect, v_in)
        },
        (ValueShape::DiscreteBool { default: d }, _) => {
            if aspect != MetaAspect::Default {
                return OverrideOutcome::Applied { changed: false };
            }
            match value {
                OverrideValue::Bool(b) => {
                    let mut e = copy_entry(&resolved[i]);
                    e.value = ValueShape::DiscreteBool { default: b };
                    resolved.set(i, e);
                    OverrideOutcome::Applied { changed: d != b }
                },
                _ => OverrideOutcome::Applied { changed: false },
            }
        },
        _ => OverrideOutcome::Applied { changed: false },
    }
}

/// Whether the clamping of this override is defined (see
/// [`override_clamp_ordered`]); an override for which this is false must
/// not be applied.
pub fn clamp_is_ordered(
    resolved: &Vec<ParamEntry>,
    clamp_ref: &Vec<ParamEntry>,
    target: &MetaTarget,
    value: OverrideValue,
) -> (r: bool)
    ensures
        r == override_clamp_ordered(resolved@, clamp_ref@, target.param@, target.aspect, value),
{
    let name = target.param.as_str();
    let aspect = target.aspect;
    let int_value = match value {
        OverrideValue::Bool(_) => false,
        _ => true,
    };
    if resolved.len() != clamp_ref.len() || aspect == MetaAspect::Visible || aspect == MetaAspect::Active
        || !int_value {
        return true;
    }
    if find_first(resolved, name, Probe::Group).is_some() {
        return true;
    }
    match find_first(resolved, name, Probe::Live) {
        None => true,
        Some(i) => match (resolved[i].value, clamp_ref[i].value) {
            (ValueShape::ContinuousInt { .. }, ValueShape::ContinuousInt { min: cmin, max: cmax, .. }) => {
                let (lo, hi) = if aspect == MetaAspect::Min || aspect == MetaAspect::Max {
                    match bound_meta_int(clamp_ref, name, aspect) {
                        Some(p) => p,
                        None => (cmin, cmax),
                    }
                } else {
                    (cmin, cmax)
                };
                lo <= hi
            },
            _ => true,
        },
    }
}

/// Apply one override to the parameter `target.param` of `resolved`,
/// clamping to the matching entries of `clamp_ref` (same length).
///
/// A UI grouping anchor of that name takes only `visible` / `active`
/// (booleans). Otherwise the first live parameter of that name is edited:
/// `visible` / `active` take booleans; an integer parameter takes `min`,
/// `max`, `default` (integers, or floats by their integer part) under the
/// rules of [`int_override_spec`]; a boolean parameter takes `default`; a
/// continuous float parameter is handed back to the caller. Anything else
/// changes nothing. `changed` is true exactly when the touched entry now
/// differs from before. The integer clamp range in use must be ordered
/// ([`clamp_is_ordered`] tells).
pub fn apply_override(
    resolved: &mut Vec<ParamEntry>,
    clamp_ref: &Vec<ParamEntry>,
    target: &MetaTarget,
    value: OverrideValue,
) -> (r: OverrideOutcome)
    requires
        override_clamp_ordered(old(resolved)@, clamp_ref@, target.param@, target.aspect, value),
    ensures
        (final(resolved)@, r) == apply_override_spec(
            old(resolved)@,
            clamp_ref@,
            target.param@,
            target.aspect,
            value,
        ),
{
    if resolved.len() != clamp_ref.len() {
        return OverrideOutcome::Applied { changed: false };
    }
    let name = target.param.as_str();
    match find_first(resolved, name, Probe::Group) {
        Some(g) => set_flag(resolved, g, target.aspect, value),
        None => match find_first(resolved, name, Probe::Live) {
            None => OverrideOutcome::Applied { changed: false },
            Some(i) => {
                if target.aspect == MetaAspect::Visible || target.aspect == MetaAspect::Active {
                    set_flag(resolved, i, target.aspect, value)
                } else {
                    value_override(resolved, clamp_ref, i, name, target.aspect, value)
                }
            },
        },
    }
}

// ---------------------------------------------------------------------------
// Parameter sets
// ---------------------------------------------------------------------------

/// The verdict on a `SET` value for a parameter of a given shape.
#[derive(Debug, Clone, Copy, PartialEq, Eq, Structural)]
pub enum SetCheck {
    /// Store this integer (clamped into the parameter's range).
    Int(i32),
    /// Store this boolean.
    Bool(bool),
    /// A number for a float parameter: the caller clamps and stores it as a float.
    Float,
    /// Wrong type for the parameter (or a parameter without a value): ignored.
    Rejected,
}

pub open spec fn validate_set_spec(shape: ValueShape, value: OverrideValue) -> SetCheck {
    match shape {
        ValueShape::ContinuousFloat | ValueShape::DiscreteFloat => match value {
            OverrideValue::Bool(_) => SetCheck::Rejected,
            _ => SetCheck::Float,
        },
        ValueShape::ContinuousInt { min, max, .. } => match as_int(value) {
            Some(v) => SetCheck::Int(clamp_spec(v, min, max)),
            None => SetCheck::Rejected,
        },
        ValueShape::DiscreteBool { .. } => match value {
            OverrideValue::Bool(b) => SetCheck::Bool(b),
            _ => SetCheck::Rejected,
        },
        ValueShape::NoValue => SetCheck::Rejected,
    }
}

/// Type-check and range-clamp a `SET` value against the parameter's shape:
/// integers (and floats, by their integer part) are clamped into an integer
/// range, booleans only go to boolean parameters, numbers to float ones.
pub fn validate_set(shape: ValueShape, value: OverrideValue) -> (r: SetCheck)
    requires
        shape matches ValueShape::ContinuousInt { min, max, .. } ==> min <= max,
    ensures
        r == validate_set_spec(shape, value),
{
    match shape {
        ValueShape::ContinuousFloat | ValueShape::DiscreteFloat => match value {
            OverrideValue::Bool(_) => SetCheck::Rejected,
            _ => SetCheck::Float,
        },
        ValueShape::ContinuousInt { min, max, .. } => match value {
            OverrideValue::Int(v) => SetCheck::Int(clamp_i32(v, min, max)),
            OverrideValue::Float { truncated } => SetCheck::Int(clamp_i32(truncated, min, max)),
            OverrideValue::Bool(_) => SetCheck::Rejected,
        },
        ValueShape::DiscreteBool { .. } => match value {
            OverrideValue::Bool(b) => SetCheck::Bool(b),
            _ => SetCheck::Rejected,
        },
        ValueShape::NoValue => SetCheck::Rejected,
    }
}

/// Why a `SET` path does not name a live parameter.
pub open spec fn locate_error(keys: Seq<String>, infos: Seq<Vec<ParamEntry>>, path: Seq<char>) -> Option<
    Seq<char>,
> {
    match split_once_spec(path, '.') {
        None => Some("invalid param path '"@ + path + "': missing '.'"@),
        Some((key, param)) => if exists|n: int| is_first_keyed(keys, key, n) {
            let n = choose|n: int| is_first_keyed(keys, key, n);
            if first_match(infos[n]@, param, Probe::Live) is Some {
                None
            } else {
                Some("SET "@ + path + ": unknown param"@)
            }
        } else {
            Some("No node found with key "@ + key)
        },
    }
}

/// Where a `SET <node>.<param>` lands: the first node with that key
/// (`keys[n]`, whose parameter list is `infos[n]`) and its first live
/// parameter of that name.
pub fn locate_set(keys: &Vec<String>, infos: &Vec<Vec<ParamEntry>>, path: &str) -> (r: Result<
    (usize, usize),
    String,
>)
    requires
        keys@.len() == infos@.len(),
    ensures
        match (r, locate_error(keys@, infos@, path@)) {
            (Ok((n, i)), None) => {
                let (key, param) = split_once_spec(path@, '.')->0;
                &&& is_first_keyed(keys@, key, n as int)
                &&& first_match(infos@[n as int]@, param, Probe::Live) == Some(i as int)
            },
            (Err(e), Some(m)) => e@ == m,
            _ => false,
        },
{
    let (key, param) = match split_once(path, '.') {
        Some(p) => p,
        None => {
            let mut e = String::from_str("invalid param path '");
            append_str(&mut e, path);
            append_str(&mut e, "': missing '.'");
            return Err(e);
        },
    };
    let mut n: usize = 0;
    while n < keys.len()
        invariant
            n <= keys@.len(),
            keys@.len() == infos@.len(),
            split_once_spec(path@, '.') == Some((key@, param@)),
            forall|k: int| 0 <= k < n ==> (#[trigger] keys@[k])@ != key@,
        decreases keys.len() - n,
    {
        if str_eq(keys[n].as_str(), key) {
            proof {
                assert(is_first_keyed(keys@, key@, n as int));
                let m = choose|m: int| is_first_keyed(keys@, key@, m);
                assert(m == n as int) by {
                    if m < n as int {
                        assert(keys@[m]@ != key@);
                    }
                    if m > n as int {
                        assert(keys@[n as int]@ != key@);
                    }
                }
            }
            match find_first(&infos[n], param, Probe::Live) {
                Some(i) => {
                    return Ok((n, i));
                },
                None => {
                    let mut e = String::from_str("SET ");
                    append_str(&mut e, path);
                    append_str(&mut e, ": unknown param");
                    return Err(e);
                },
            }
        }
        n = n + 1;
    }
    proof {
        assert(!exists|m: int| is_first_keyed(keys@, key@, m)) by {
            if exists|m: int| is_first_keyed(keys@, key@, m) {
                let m = choose|m: int| is_first_keyed(keys@, key@, m);
                assert(keys@[m]@ != key@);
            }
        }
    }
    let mut e = String::from_str("No node found with key ");
    append_str(&mut e, key);
    Err(e)
}

// ---------------------------------------------------------------------------
// Laws
// ---------------------------------------------------------------------------

/// Every integer parameter of a list has `min <= default <= max`.
pub open spec fn int_entries_consistent(s: Seq<ParamEntry>) -> bool {
    forall|i: int|
        0 <= i < s.len() ==> match #[trigger] s[i].value {
            ValueShape::ContinuousInt { min, max, default } => min <= default <= max,
            _ => true,
        }
}

/// The entry an override of `name` addresses: the grouping anchor of that
/// name, else the live parameter of that name (-1 when there is none).
pub open spec fn override_target(r: Seq<ParamEntry>, name: Seq<char>) -> int {
    match first_match(r, name, Probe::Group) {
        Some(g) => g,
        None => match first_match(r, name, Probe::Live) {
            Some(i) => i,
            None => -1,
        },
    }
}

/// What an override may touch, on any list: the list keeps its length and
/// every entry's name and kind, only the addressed entry (the grouping
/// anchor of that name, else the first live parameter of that name) can
/// change, and with no such entry nothing changes.
pub proof fn law_override_frame(
    r: Seq<ParamEntry>,
    c: Seq<ParamEntry>,
    name: Seq<char>,
    aspect: MetaAspect,
    value: OverrideValue,
)
    ensures
        ({
            let (r2, _) = apply_override_spec(r, c, name, aspect, value);
            &&& r2.len() == r.len()
            &&& forall|k: int| 0 <= k < r.len() ==> (#[trigger] r2[k]).name == r[k].name
            &&& forall|k: int| 0 <= k < r.len() ==> (#[trigger] r2[k]).kind == r[k].kind
            &&& forall|k: int|
                0 <= k < r.len() && k != override_target(r, name) ==> #[trigger] r2[k] == r[k]
            &&& (override_target(r, name) == -1 || 0 <= override_target(r, name) < r.len())
        }),
{
    match first_match(r, name, Probe::Group) {
        Some(g) => {
            assert(is_first_match(r, name, Probe::Group, g));
        },
        None => match first_match(r, name, Probe::Live) {
            None => {},
            Some(i) => {
                assert(is_first_match(r, name, Probe::Live, i));
            },
        },
    }
}

/// An override keeps every integer parameter consistent
/// (`min <= default <= max`), keeps the list's length and every entry's
/// name and kind, and edits at most the entry it addresses (none when no
/// entry has that name).
pub proof fn law_override_keeps_int_consistency(
    r: Seq<ParamEntry>,
    c: Seq<ParamEntry>,
    name: Seq<char>,
    aspect: MetaAspect,
    value: OverrideValue,
)
    requires
        int_entries_consistent(r),
    ensures
        ({
            let (r2, _) = apply_override_spec(r, c, name, aspect, value);
            &&& int_entries_consistent(r2)
            &&& r2.len() == r.len()
            &&& forall|k: int| 0 <= k < r.len() ==> (#[trigger] r2[k]).name == r[k].name
            &&& forall|k: int| 0 <= k < r.len() ==> (#[trigger] r2[k]).kind == r[k].kind
            &&& forall|k: int|
                0 <= k < r.len() && k != override_target(r, name) ==> #[trigger] r2[k] == r[k]
        }),
{
    let (r2, _) = apply_override_spec(r, c, name, aspect, value);
    law_override_frame(r, c, name, aspect, value);
    if r.len() == c.len() {
        match first_match(r, name, Probe::Group) {
            Some(g) => {},
            None => match first_match(r, name, Probe::Live) {
                None => {},
                Some(i) => {
                    assert(match r[i].value {
                        ValueShape::ContinuousInt { min, max, default } => min <= default <= max,
                        _ => true,
                    });
                },
            },
        }
    }
}

/// An integer `min` / `max` override with no declared envelope lands inside
/// the reference range (unless it is rolled back).
pub proof fn law_int_bound_within_reference(
    r: Seq<ParamEntry>,
    c: Seq<ParamEntry>,
    name: Seq<char>,
    aspect: MetaAspect,
    value: OverrideValue,
    i: int,
)
    requires
        r.len() == c.len(),
        first_match(r, name, Probe::Group) is None,
        first_match(r, name, Probe::Live) == Some(i),
        aspect == MetaAspect::Min || aspect == MetaAspect::Max,
        bound_int_spec(c, name, aspect) is None,
        r[i].value is ContinuousInt,
        c[i].value is ContinuousInt,
        c[i].value->ContinuousInt_min <= c[i].value->ContinuousInt_max,
    ensures
        ({
            let (r2, _) = apply_override_spec(r, c, name, aspect, value);
            let (lo, hi) = (c[i].value->ContinuousInt_min, c[i].value->ContinuousInt_max);
            &&& aspect == MetaAspect::Min ==> lo <= r2[i].value->ContinuousInt_min <= hi
                || r2 == r
            &&& aspect == MetaAspect::Max ==> lo <= r2[i].value->ContinuousInt_max <= hi
                || r2 == r
        }),
{
}

/// What an override reports matches what it did: `changed` is true exactly
/// when some entry now differs from before; a refused, rolled back or
/// no-op override leaves the list as it was, and so does handing a float
/// entry back to the caller.
pub proof fn law_override_changed_iff_modified(
    r: Seq<ParamEntry>,
    c: Seq<ParamEntry>,
    name: Seq<char>,
    aspect: MetaAspect,
    value: OverrideValue,
)
    ensures
        ({
            let (r2, out) = apply_override_spec(r, c, name, aspect, value);
            &&& r2.len() == r.len()
            &&& match out {
                OverrideOutcome::Applied { changed } => changed <==> exists|k: int|
                    0 <= k < r.len() && #[trigger] r2[k] != r[k],
                OverrideOutcome::FloatEntry { .. } => r2 == r,
            }
        }),
{
    let (r2, out) = apply_override_spec(r, c, name, aspect, value);
    if r.len() == c.len() {
        let t = override_target(r, name);
        if t >= 0 {
            law_override_frame(r, c, name, aspect, value);
            if r2[t] == r[t] {
                assert(r2 =~= r);
            }
        } else {
            law_override_frame(r, c, name, aspect, value);
            assert(r2 =~= r);
        }
    }
}

/// An integer `min` / `max` edit of a live parameter: the value is clamped
/// into the declared `BoundMeta` envelope for that aspect (else the
/// reference range). If the new bounds are ordered the edit is applied and
/// the default is pulled into the new range (never rolled back for it);
/// otherwise nothing changes. The report says whether the entry changed.
pub proof fn law_int_bound_edit(
    r: Seq<ParamEntry>,
    c: Seq<ParamEntry>,
    name: Seq<char>,
    aspect: MetaAspect,
    x: i32,
    i: int,
)
    requires
        r.len() == c.len(),
        first_match(r, name, Probe::Group) is None,
        first_match(r, name, Probe::Live) == Some(i),
        aspect == MetaAspect::Min || aspect == MetaAspect::Max,
        r[i].value is ContinuousInt,
        c[i].value is ContinuousInt,
    ensures
        ({
            let min = r[i].value->ContinuousInt_min;
            let max = r[i].value->ContinuousInt_max;
            let default = r[i].value->ContinuousInt_default;
            let (lo, hi) = match bound_int_spec(c, name, aspect) {
                Some(p) => p,
                None => (c[i].value->ContinuousInt_min, c[i].value->ContinuousInt_max),
            };
            let v = clamp_spec(x, lo, hi);
            let nmin = if aspect == MetaAspect::Min { v } else { min };
            let nmax = if aspect == MetaAspect::Max { v } else { max };
            let ndef = clamp_spec(default, nmin, nmax);
            let (r2, out) = apply_override_spec(r, c, name, aspect, OverrideValue::Int(x));
            &&& nmin <= nmax ==> r2 == r.update(
                i,
                ParamEntry {
                    value: ValueShape::ContinuousInt { min: nmin, max: nmax, default: ndef },
                    ..r[i]
                },
            ) && out == (OverrideOutcome::Applied {
                changed: nmin != min || nmax != max || ndef != default,
            })
            &&& nmin > nmax ==> r2 == r && out == (OverrideOutcome::Applied { changed: false })
        }),
{
    assert(is_first_match(r, name, Probe::Live, i));
    assert(aspect != MetaAspect::Visible && aspect != MetaAspect::Active);
}

/// An integer `default` edit of a live parameter: the value is clamped into
/// the reference range; it is applied when it lies in the parameter's own
/// `[min, max]` (bounds kept) and rolled back otherwise.
pub proof fn law_int_default_edit(r: Seq<ParamEntry>, c: Seq<ParamEntry>, name: Seq<char>, x: i32, i: int)
    requires
        r.len() == c.len(),
        first_match(r, name, Probe::Group) is None,
        first_match(r, name, Probe::Live) == Some(i),
        r[i].value is ContinuousInt,
        c[i].value is ContinuousInt,
    ensures
        ({
            let min = r[i].value->ContinuousInt_min;
            let max = r[i].value->ContinuousInt_max;
            let default = r[i].value->ContinuousInt_default;
            let v = clamp_spec(x, c[i].value->ContinuousInt_min, c[i].value->ContinuousInt_max);
            let (r2, out) = apply_override_spec(r, c, name, MetaAspect::Default, OverrideValue::Int(x));
            &&& min <= v <= max ==> r2 == r.update(
                i,
                ParamEntry { value: ValueShape::ContinuousInt { min, max, default: v }, ..r[i] },
            ) && out == (OverrideOutcome::Applied { changed: v != default })
            &&& !(min <= v <= max) ==> r2 == r && out == (OverrideOutcome::Applied { changed: false })
        }),
{
    assert(is_first_match(r, name, Probe::Live, i));
}

/// A `visible` / `active` edit sets that flag of the addressed entry (the
/// grouping anchor of that name, else the live parameter) to the boolean
/// sent, reporting whether it flipped; a non-boolean value changes nothing.
pub proof fn law_flag_edit(r: Seq<ParamEntry>, c: Seq<ParamEntry>, name: Seq<char>, aspect: MetaAspect, value: OverrideValue)
    requires
        r.len() == c.len(),
        aspect == MetaAspect::Visible || aspect == MetaAspect::Active,
        0 <= override_target(r, name),
    ensures
        ({
            let t = override_target(r, name);
            let (r2, out) = apply_override_spec(r, c, name, aspect, value);
            &&& (value is Bool && aspect == MetaAspect::Visible) ==> r2 == r.update(
                t,
                ParamEntry { visible: value->Bool_0, ..r[t] },
            ) && out == (OverrideOutcome::Applied { changed: r[t].visible != value->Bool_0 })
            &&& (value is Bool && aspect == MetaAspect::Active) ==> r2 == r.update(
                t,
                ParamEntry { active: value->Bool_0, ..r[t] },
            ) && out == (OverrideOutcome::Applied { changed: r[t].active != value->Bool_0 })
            &&& !(value is Bool) ==> r2 == r && out == (OverrideOutcome::Applied { changed: false })
        }),
{
}

/// A boolean parameter's `default` takes the boolean sent, reporting
/// whether it changed; a non-boolean value changes nothing.
pub proof fn law_bool_default_edit(r: Seq<ParamEntry>, c: Seq<ParamEntry>, name: Seq<char>, value: OverrideValue, i: int)
    requires
        r.len() == c.len(),
        first_match(r, name, Probe::Group) is None,
        first_match(r, name, Probe::Live) == Some(i),
        r[i].value is DiscreteBool,
    ensures
        ({
            let d = r[i].value->DiscreteBool_default;
            let (r2, out) = apply_override_spec(r, c, name, MetaAspect::Default, value);
            &&& value is Bool ==> r2 == r.update(
                i,
                ParamEntry { value: ValueShape::DiscreteBool { default: value->Bool_0 }, ..r[i] },
            ) && out == (OverrideOutcome::Applied { changed: d != value->Bool_0 })
            &&& !(value is Bool) ==> r2 == r && out == (OverrideOutcome::Applied { changed: false })
        }),
{
    assert(is_first_match(r, name, Probe::Live, i));
}

} // verus!
