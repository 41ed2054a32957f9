//! Numbered preset slots and the collection of presets with its
//! active-preset pointer.
//!
//! A preset carries its chain definitions `C` and the mapping tables `M` of
//! its controller bindings; the slot logic reads only the slot number and the
//! device alias of each binding, and moves everything else unchanged.

use vstd::prelude::*;
use crate::mapping::ControllerDef;
use crate::text::str_eq;

verus! {

/// No active preset selected.
pub const PRESET_NONE: u8 = 255;

/// One numbered preset slot: chain definitions and controller bindings.
#[derive(Debug)]
pub struct PresetDef<C, M> {
    /// Preset number (0–127, matching MIDI program change; `PRESET_NONE` if unknown).
    pub index: u8,
    /// Chain definitions of this preset.
    pub chains: C,
    /// Controller bindings of this preset.
    pub controllers: Vec<ControllerDef<M>>,
}

/// `b` is a clone of the binding `a`: same alias, cloned mapping table.
pub open spec fn controller_cloned<M: Clone>(a: ControllerDef<M>, b: ControllerDef<M>) -> bool {
    &&& b.device@ == a.device@
    &&& cloned(a.mappings, b.mappings)
}

/// `b` is a clone of the preset `a`: same slot, cloned chains and bindings.
pub open spec fn preset_cloned<C: Clone, M: Clone>(a: PresetDef<C, M>, b: PresetDef<C, M>) -> bool {
    &&& b.index == a.index
    &&& cloned(a.chains, b.chains)
    &&& b.controllers@.len() == a.controllers@.len()
    &&& forall|i: int|
        0 <= i < a.controllers@.len() ==> cloned(a.controllers@[i], #[trigger] b.controllers@[i])
}

impl<M: Clone> Clone for ControllerDef<M> {
    fn clone(&self) -> (r: Self)
        ensures
            r.device@ == self.device@,
            cloned(self.mappings, r.mappings),
    {
        ControllerDef { device: self.device.clone(), mappings: self.mappings.clone() }
    }
}

impl<C: Clone, M: Clone> Clone for PresetDef<C, M> {
    fn clone(&self) -> (r: Self)
        ensures
            preset_cloned(*self, r),
    {
        PresetDef {
            index: self.index,
            chains: self.chains.clone(),
            controllers: self.controllers.clone(),
        }
    }
}

/// The slot numbers of a list of presets, in list order.
pub open spec fn indices_of<C, M>(items: Seq<PresetDef<C, M>>) -> Seq<u8> {
    Seq::new(items.len(), |i: int| items[i].index)
}

/// `i` is the first position holding slot `index`.
pub open spec fn is_first_slot<C, M>(items: Seq<PresetDef<C, M>>, index: u8, i: int) -> bool {
    &&& 0 <= i < items.len()
    &&& items[i].index == index
    &&& forall|j: int| 0 <= j < i ==> items[j].index != index
}

/// The preset found for slot `index`: the first one carrying that number.
pub open spec fn slot_lookup<C, M>(items: Seq<PresetDef<C, M>>, index: u8) -> Option<PresetDef<C, M>> {
    if exists|i: int| is_first_slot(items, index, i) {
        Some(items[choose|i: int| is_first_slot(items, index, i)])
    } else {
        None
    }
}

/// No two presets share a slot number.
pub open spec fn unique_slots<C, M>(items: Seq<PresetDef<C, M>>) -> bool {
    forall|i: int, j: int|
        0 <= i < items.len() && 0 <= j < items.len() && i != j ==> items[i].index
            != items[j].index
}

/// Bindings whose alias is not `alias`, in order.
pub open spec fn without_device<M>(cs: Seq<ControllerDef<M>>, alias: Seq<char>) -> Seq<ControllerDef<M>> {
    cs.filter(|c: ControllerDef<M>| c.device@ != alias)
}

/// `b` is the binding `a` after renaming alias `old` to `new`.
pub open spec fn renamed_binding<M>(a: ControllerDef<M>, b: ControllerDef<M>, old: Seq<char>, new: Seq<char>) -> bool {
    &&& b.mappings == a.mappings
    &&& b.device@ == (if a.device@ == old { new } else { a.device@ })
}

/// Collection of presets with an active-preset pointer.
#[derive(Debug)]
pub struct PresetDefs<C, M> {
    /// Current preset, or `PRESET_NONE`.
    pub active: u8,
    /// Preset definitions.
    pub items: Vec<PresetDef<C, M>>,
}

/// Find the first position holding slot `index`.
fn find_slot<C, M>(items: &Vec<PresetDef<C, M>>, index: u8) -> (r: Option<usize>)
    ensures
        match r {
            Some(i) => is_first_slot(items@, index, i as int),
            None => !exists|i: int| is_first_slot(items@, index, i),
        },
{
    let mut i: usize = 0;
    while i < items.len()
        invariant
            i <= items.len(),
            forall|j: int| 0 <= j < i ==> items@[j].index != index,
        decreases items.len() - i,
    {
        if items[i].index == index {
            return Some(i);
        }
        i = i + 1;
    }
    assert(!exists|k: int| is_first_slot(items@, index, k)) by {
        if exists|k: int| is_first_slot(items@, index, k) {
            let k = choose|k: int| is_first_slot(items@, index, k);
            assert(items@[k].index != index);
        }
    }
    None
}

proof fn lemma_first_slot_unique<C, M>(items: Seq<PresetDef<C, M>>, index: u8, i: int, k: int)
    requires
        is_first_slot(items, index, i),
        is_first_slot(items, index, k),
    ensures
        i == k,
{
    if i < k {
        assert(items[i].index != index);
    }
    if k < i {
        assert(items[k].index != index);
    }
}

impl<C, M> PresetDefs<C, M> {
    /// Slot number meaning "no active preset".
    pub fn default_active() -> (r: u8)
        ensures
            r == PRESET_NONE,
    {
        PRESET_NONE
    }

    /// An empty collection with no active preset.
    pub fn new() -> (r: Self)
        ensures
            r.items@.len() == 0,
            r.active == PRESET_NONE,
    {
        PresetDefs { items: Vec::new(), active: Self::default_active() }
    }

    /// The preset stored in slot `index`, if any.
    pub fn get(&self, index: u8) -> (r: Option<&PresetDef<C, M>>)
        ensures
            match r {
                Some(p) => slot_lookup(self.items@, index) == Some(*p),
                None => slot_lookup(self.items@, index) is None,
            },
    {
        match find_slot(&self.items, index) {
            Some(i) => {
                proof {
                    let k = choose|k: int| is_first_slot(self.items@, index, k);
                    lemma_first_slot_unique(self.items@, index, i as int, k);
                }
                Some(&self.items[i])
            },
            None => None,
        }
    }

    /// The active preset, if its slot is occupied.
    pub fn active_entry(&self) -> (r: Option<&PresetDef<C, M>>)
        ensures
            match r {
                Some(p) => slot_lookup(self.items@, self.active) == Some(*p),
                None => slot_lookup(self.items@, self.active) is None,
            },
    {
        self.get(self.active)
    }

    /// All slot numbers, in list order.
    pub fn indices(&self) -> (r: Vec<u8>)
        ensures
            r@ == indices_of(self.items@),
    {
        let mut out: Vec<u8> = Vec::new();
        let mut i: usize = 0;
        while i < self.items.len()
            invariant
                i <= self.items.len(),
                out@ =~= indices_of(self.items@).take(i as int),
            decreases self.items.len() - i,
        {
            out.push(self.items[i].index);
            i = i + 1;
        }
        assert(indices_of(self.items@).take(i as int) =~= indices_of(self.items@));
        out
    }

    /// Store `preset` in its slot: replace the preset already there, or add it
    /// at the end.
    pub fn save_to_slot(&mut self, preset: PresetDef<C, M>)
        ensures
            final(self).active == old(self).active,
            match slot_lookup(old(self).items@, preset.index) {
                Some(_) => exists|i: int|
                    is_first_slot(old(self).items@, preset.index, i) && final(self).items@
                        == old(self).items@.update(i, preset),
                None => final(self).items@ == old(self).items@.push(preset),
            },
    {
        let index = preset.index;
        match find_slot(&self.items, index) {
            Some(i) => {
                self.items.set(i, preset);
            },
            None => {
                self.items.push(preset);
            },
        }
    }

    /// Remove every preset in slot `index`. Returns whether one existed.
    pub fn remove_slot(&mut self, index: u8) -> (r: bool)
        ensures
            final(self).active == old(self).active,
            final(self).items@ == old(self).items@.filter(
                |p: PresetDef<C, M>| p.index != index,
            ),
            r == exists|i: int| 0 <= i < old(self).items@.len() && old(self).items@[i].index == index,
    {
        let ghost orig = self.items@;
        let ghost pred = |p: PresetDef<C, M>| p.index != index;
        let mut rest: Vec<PresetDef<C, M>> = Vec::new();
        std::mem::swap(&mut rest, &mut self.items);
        let mut kept: Vec<PresetDef<C, M>> = Vec::new();
        let mut found = false;
        let ghost mut k: int = 0;
        while rest.len() > 0
            invariant
                0 <= k <= orig.len(),
                rest@ == orig.skip(k),
                kept@ == orig.take(k).filter(pred),
                pred == (|p: PresetDef<C, M>| p.index != index),
                found == exists|i: int| 0 <= i < k && orig[i].index == index,
                self.active == old(self).active,
            decreases rest.len(),
        {
            let p = rest.remove(0);
            proof {
                assert(orig.take(k + 1).drop_last() =~= orig.take(k));
                assert(orig.take(k + 1).last() == orig[k]);
                assert(p == orig[k]);
                reveal(Seq::filter);
                assert(orig.take(k + 1).filter(pred) == if pred(orig[k]) {
                    orig.take(k).filter(pred).push(orig[k])
                } else {
                    orig.take(k).filter(pred)
                });
            }
            if p.index != index {
                kept.push(p);
            } else {
                found = true;
            }
            proof {
                assert(rest@ =~= orig.skip(k + 1));
                k = k + 1;
            }
        }
        assert(orig.take(k) =~= orig);
        self.items = kept;
        found
    }

    /// Remove the bindings to device `alias` from every preset.
    pub fn remove_device(&mut self, alias: &str)
        ensures
            final(self).active == old(self).active,
            final(self).items@.len() == old(self).items@.len(),
            forall|i: int|
                0 <= i < old(self).items@.len() ==> {
                    let (a, b) = (old(self).items@[i], #[trigger] final(self).items@[i]);
                    &&& b.index == a.index
                    &&& b.chains == a.chains
                    &&& b.controllers@ == without_device(a.controllers@, alias@)
                },
    {
        let ghost orig = self.items@;
        let mut rest: Vec<PresetDef<C, M>> = Vec::new();
        std::mem::swap(&mut rest, &mut self.items);
        let mut done: Vec<PresetDef<C, M>> = Vec::new();
        let ghost mut k: int = 0;
        while rest.len() > 0
            invariant
                0 <= k <= orig.len(),
                rest@ == orig.skip(k),
                done@.len() == k,
                forall|i: int|
                    0 <= i < k ==> {
                        let (a, b) = (orig[i], #[trigger] done@[i]);
                        &&& b.index == a.index
                        &&& b.chains == a.chains
                        &&& b.controllers@ == without_device(a.controllers@, alias@)
                    },
                self.active == old(self).active,
            decreases rest.len(),
        {
            let p = rest.remove(0);
            assert(p == orig[k]);
            let PresetDef { index, chains, controllers } = p;
            let kept = retain_other_devices(controllers, alias);
            done.push(PresetDef { index, chains, controllers: kept });
            proof {
                assert(rest@ =~= orig.skip(k + 1));
                k = k + 1;
            }
        }
        self.items = done;
    }

    /// Rename device alias `old` to `new` in every preset's bindings.
    pub fn rename_device(&mut self, old_alias: &str, new_alias: &str)
        ensures
            final(self).active == old(self).active,
            final(self).items@.len() == old(self).items@.len(),
            forall|i: int|
                0 <= i < old(self).items@.len() ==> {
                    let (a, b) = (old(self).items@[i], #[trigger] final(self).items@[i]);
                    &&& b.index == a.index
                    &&& b.chains == a.chains
                    &&& b.controllers@.len() == a.controllers@.len()
                    &&& forall|j: int|
                        0 <= j < a.controllers@.len() ==> renamed_binding(
                            a.controllers@[j],
                            #[trigger] b.controllers@[j],
                            old_alias@,
                            new_alias@,
                        )
                },
    {
        let ghost orig = self.items@;
        let mut rest: Vec<PresetDef<C, M>> = Vec::new();
        std::mem::swap(&mut rest, &mut self.items);
        let mut done: Vec<PresetDef<C, M>> = Vec::new();
        let ghost mut k: int = 0;
        while rest.len() > 0
            invariant
                0 <= k <= orig.len(),
                rest@ == orig.skip(k),
                done@.len() == k,
                forall|i: int|
                    0 <= i < k ==> {
                        let (a, b) = (orig[i], #[trigger] done@[i]);
                        &&& b.index == a.index
                        &&& b.chains == a.chains
                        &&& b.controllers@.len() == a.controllers@.len()
                        &&& forall|j: int|
                            0 <= j < a.controllers@.len() ==> renamed_binding(
                                a.controllers@[j],
                                #[trigger] b.controllers@[j],
                                old_alias@,
                                new_alias@,
                            )
                    },
                self.active == old(self).active,
            decreases rest.len(),
        {
            let p = rest.remove(0);
            assert(p == orig[k]);
            let PresetDef { index, chains, controllers } = p;
            let renamed = rename_bindings(controllers, old_alias, new_alias);
            done.push(PresetDef { index, chains, controllers: renamed });
            proof {
                assert(rest@ =~= orig.skip(k + 1));
                k = k + 1;
            }
        }
        self.items = done;
    }
}

/// Keep the bindings whose alias is not `alias`.
fn retain_other_devices<M>(cs: Vec<ControllerDef<M>>, alias: &str) -> (r: Vec<ControllerDef<M>>)
    ensures
        r@ == without_device(cs@, alias@),
{
    let ghost orig = cs@;
    let ghost pred = |c: ControllerDef<M>| c.device@ != alias@;
    let mut rest = cs;
    let mut kept: Vec<ControllerDef<M>> = Vec::new();
    let ghost mut k: int = 0;
    while rest.len() > 0
        invariant
            0 <= k <= orig.len(),
            rest@ == orig.skip(k),
            kept@ == orig.take(k).filter(pred),
            pred == (|c: ControllerDef<M>| c.device@ != alias@),
        decreases rest.len(),
    {
        let c = rest.remove(0);
        proof {
            assert(orig.take(k + 1).drop_last() =~= orig.take(k));
            assert(orig.take(k + 1).last() == orig[k]);
            reveal(Seq::filter);
            assert(orig.take(k + 1).filter(pred) == if pred(orig[k]) {
                orig.take(k).filter(pred).push(orig[k])
            } else {
                orig.take(k).filter(pred)
            });
        }
        if !str_eq(c.device.as_str(), alias) {
            kept.push(c);
        }
        proof {
            assert(rest@ =~= orig.skip(k + 1));
            k = k + 1;
        }
    }
    assert(orig.take(k) =~= orig);
    kept
}

/// Rename alias `old` to `new` in a list of bindings.
fn rename_bindings<M>(cs: Vec<ControllerDef<M>>, old_alias: &str, new_alias: &str) -> (r: Vec<ControllerDef<M>>)
    ensures
        r@.len() == cs@.len(),
        forall|j: int|
            0 <= j < cs@.len() ==> renamed_binding(cs@[j], #[trigger] r@[j], old_alias@, new_alias@),
{
    let ghost orig = cs@;
    let mut rest = cs;
    let mut done: Vec<ControllerDef<M>> = Vec::new();
    let ghost mut k: int = 0;
    while rest.len() > 0
        invariant
            0 <= k <= orig.len(),
            rest@ == orig.skip(k),
            done@.len() == k,
            forall|j: int| 0 <= j < k ==> renamed_binding(orig[j], #[trigger] done@[j], old_alias@, new_alias@),
        decreases rest.len(),
    {
        let c = rest.remove(0);
        assert(c == orig[k]);
        let ControllerDef { device, mappings } = c;
        let device = if str_eq(device.as_str(), old_alias) {
            new_alias.to_owned()
        } else {
            device
        };
        done.push(ControllerDef { device, mappings });
        proof {
            assert(rest@ =~= orig.skip(k + 1));
            k = k + 1;
        }
    }
    done
}

// ---------------------------------------------------------------------------
// Laws
// ---------------------------------------------------------------------------

/// After storing a preset, looking up its slot finds exactly that preset.
pub proof fn law_save_then_get<C, M>(before: Seq<PresetDef<C, M>>, after: Seq<PresetDef<C, M>>, preset: PresetDef<C, M>)
    requires
        match slot_lookup(before, preset.index) {
            Some(_) => exists|i: int|
                is_first_slot(before, preset.index, i) && after == before.update(i, preset),
            None => after == before.push(preset),
        },
    ensures
        slot_lookup(after, preset.index) == Some(preset),
{
    let index = preset.index;
    if exists|i: int| is_first_slot(before, index, i) {
        let i = choose|i: int| is_first_slot(before, index, i) && after == before.update(i, preset);
        assert(is_first_slot(after, index, i));
        let k = choose|k: int| is_first_slot(after, index, k);
        lemma_first_slot_unique(after, index, i, k);
    } else {
        let i = before.len() as int;
        assert forall|j: int| 0 <= j < i implies after[j].index != index by {
            if after[j].index == index {
                assert(before[j] == after[j]);
                lemma_some_first_slot(before, index, j);
            }
        }
        assert(is_first_slot(after, index, i));
        let k = choose|k: int| is_first_slot(after, index, k);
        lemma_first_slot_unique(after, index, i, k);
    }
}

/// Storing a preset leaves every other slot as it was, and adds one preset
/// exactly when its slot was empty.
pub proof fn law_save_keeps_other_slots<C, M>(
    before: Seq<PresetDef<C, M>>,
    after: Seq<PresetDef<C, M>>,
    preset: PresetDef<C, M>,
    other: u8,
)
    requires
        other != preset.index,
        match slot_lookup(before, preset.index) {
            Some(_) => exists|i: int|
                is_first_slot(before, preset.index, i) && after == before.update(i, preset),
            None => after == before.push(preset),
        },
    ensures
        slot_lookup(after, other) == slot_lookup(before, other),
        after.len() == before.len() + (if slot_lookup(before, preset.index) is None {
            1int
        } else {
            0int
        }),
{
    let index = preset.index;
    // The entries carrying `other` sit at the same places before and after.
    assert forall|m: int| is_first_slot(before, other, m) <==> is_first_slot(after, other, m) by {
        if exists|i: int| is_first_slot(before, index, i) {
            let i = choose|i: int| is_first_slot(before, index, i) && after == before.update(i, preset);
            assert(forall|j: int| 0 <= j < after.len() ==> (after[j].index == other <==> before[j].index
                == other));
        } else {
            assert(forall|j: int| 0 <= j < before.len() ==> after[j] == before[j]);
            if is_first_slot(after, other, m) && m == before.len() {
                assert(after[m].index == index);
            }
        }
    }
    if exists|m: int| is_first_slot(before, other, m) {
        let m = choose|m: int| is_first_slot(before, other, m);
        assert(is_first_slot(after, other, m));
        let k = choose|k: int| is_first_slot(after, other, k);
        lemma_first_slot_unique(after, other, m, k);
        let k2 = choose|k: int| is_first_slot(before, other, k);
        lemma_first_slot_unique(before, other, m, k2);
        if exists|i: int| is_first_slot(before, index, i) {
            let i = choose|i: int| is_first_slot(before, index, i) && after == before.update(i, preset);
            assert(m != i);
        }
    } else {
        assert(!exists|k: int| is_first_slot(after, other, k));
    }
}

/// Storing a preset keeps slot numbers unique.
pub proof fn law_save_keeps_slots_unique<C, M>(before: Seq<PresetDef<C, M>>, after: Seq<PresetDef<C, M>>, preset: PresetDef<C, M>)
    requires
        unique_slots(before),
        match slot_lookup(before, preset.index) {
            Some(_) => exists|i: int|
                is_first_slot(before, preset.index, i) && after == before.update(i, preset),
            None => after == before.push(preset),
        },
    ensures
        unique_slots(after),
{
    let index = preset.index;
    if exists|i: int| is_first_slot(before, index, i) {
        let i = choose|i: int| is_first_slot(before, index, i) && after == before.update(i, preset);
        assert forall|a: int, b: int|
            0 <= a < after.len() && 0 <= b < after.len() && a != b implies after[a].index
                != after[b].index by {
            if a == i {
                assert(before[b].index != before[i].index);
            } else if b == i {
                assert(before[a].index != before[i].index);
            }
        }
    } else {
        assert forall|a: int, b: int|
            0 <= a < after.len() && 0 <= b < after.len() && a != b implies after[a].index
                != after[b].index by {
            let n = before.len() as int;
            if a == n && before[b].index == index {
                assert(exists|m: int| is_first_slot(before, index, m)) by {
                    lemma_some_first_slot(before, index, b);
                }
            }
            if b == n && before[a].index == index {
                assert(exists|m: int| is_first_slot(before, index, m)) by {
                    lemma_some_first_slot(before, index, a);
                }
            }
        }
    }
}

/// If some preset holds slot `index`, there is a first one.
proof fn lemma_some_first_slot<C, M>(items: Seq<PresetDef<C, M>>, index: u8, j: int)
    requires
        0 <= j < items.len(),
        items[j].index == index,
    ensures
        exists|m: int| is_first_slot(items, index, m),
    decreases j,
{
    if exists|n: int| 0 <= n < j && items[n].index == index {
        let n = choose|n: int| 0 <= n < j && items[n].index == index;
        lemma_some_first_slot(items, index, n);
    } else {
        assert(is_first_slot(items, index, j));
    }
}

/// After removing a slot, no preset is found there any more.
pub proof fn law_remove_then_get<C, M>(before: Seq<PresetDef<C, M>>, index: u8)
    ensures
        slot_lookup(before.filter(|p: PresetDef<C, M>| p.index != index), index) is None,
{
    let pred = |p: PresetDef<C, M>| p.index != index;
    let after = before.filter(pred);
    if exists|i: int| is_first_slot(after, index, i) {
        let i = choose|i: int| is_first_slot(after, index, i);
        before.lemma_filter_pred(pred, i);
    }
}

} // verus!
