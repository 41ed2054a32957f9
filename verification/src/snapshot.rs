//! The live snapshot of the loaded preset: its cleanliness state, the
//! compare-mode stash, and the persistence state machine.

use vstd::prelude::*;
use crate::preset::{
    PresetDef, PresetDefs, slot_lookup, preset_cloned, indices_of, law_save_then_get, PRESET_NONE,
};

verus! {

/// Cleanliness of the loaded preset relative to its saved slot, and whether
/// that state has been written to the state file.
#[derive(Debug, Clone, Copy, PartialEq, Eq, Structural)]
pub enum SnapshotState {
    Clean,
    CleanPersisted,
    Dirty,
    DirtyPersisted,
    Comparing,
    ComparingPersisted,
}

/// The three externally visible classes of snapshot state.
#[derive(Debug, Clone, Copy, PartialEq, Eq, Structural)]
pub enum StateClass {
    Clean,
    Dirty,
    Comparing,
}

/// What the persistence step asks the caller to do with the state file.
#[derive(Debug, Clone, Copy, PartialEq, Eq, Structural)]
pub enum PersistAction {
    /// Write the snapshot to the state file.
    WriteFile,
    /// Delete the state file, then call `mark_file_removed`.
    RemoveFile,
    /// Nothing to do: the current state is already persisted.
    Nothing,
}

impl SnapshotState {
    /// The class of a state, ignoring persistence.
    pub open spec fn class(self) -> StateClass {
        match self {
            SnapshotState::Clean | SnapshotState::CleanPersisted => StateClass::Clean,
            SnapshotState::Dirty | SnapshotState::DirtyPersisted => StateClass::Dirty,
            SnapshotState::Comparing | SnapshotState::ComparingPersisted => StateClass::Comparing,
        }
    }

    /// External name of a class.
    pub open spec fn label_spec(self) -> Seq<char> {
        match self.class() {
            StateClass::Clean => "Clean"@,
            StateClass::Dirty => "Dirty"@,
            StateClass::Comparing => "Comparing"@,
        }
    }

    /// Simplified name for external consumers (serial/net/UI): the
    /// `Persisted` suffix is stripped.
    pub fn label(&self) -> (r: &'static str)
        ensures
            r@ == self.label_spec(),
    {
        match self {
            SnapshotState::Clean | SnapshotState::CleanPersisted => "Clean",
            SnapshotState::Dirty | SnapshotState::DirtyPersisted => "Dirty",
            SnapshotState::Comparing | SnapshotState::ComparingPersisted => "Comparing",
        }
    }

    /// The persisted counterpart of a state.
    pub open spec fn persisted_spec(self) -> SnapshotState {
        match self.class() {
            StateClass::Clean => SnapshotState::CleanPersisted,
            StateClass::Dirty => SnapshotState::DirtyPersisted,
            StateClass::Comparing => SnapshotState::ComparingPersisted,
        }
    }
}

impl Default for SnapshotState {
    fn default() -> (r: SnapshotState)
        ensures
            r == SnapshotState::Clean,
    {
        SnapshotState::Clean
    }
}

/// The label of a state does not depend on whether it was persisted, and two
/// states share a label exactly when they share a class.
pub proof fn law_label_ignores_persistence(s: SnapshotState, t: SnapshotState)
    ensures
        s.persisted_spec().label_spec() == s.label_spec(),
        s.persisted_spec().class() == s.class(),
        (s.label_spec() == t.label_spec()) == (s.class() == t.class()),
{
    reveal_strlit("Clean");
    reveal_strlit("Dirty");
    reveal_strlit("Comparing");
    assert("Clean"@[0] != "Dirty"@[0]);
    assert("Clean"@.len() != "Comparing"@.len());
    assert("Dirty"@.len() != "Comparing"@.len());
}

/// Read-only snapshot of the loaded preset, published after every mutation.
#[derive(Debug)]
pub struct ConfigSnapshot<C, M> {
    pub state: SnapshotState,
    pub preset: PresetDef<C, M>,
    /// The working preset set aside while comparing with the saved one.
    pub stash: Option<PresetDef<C, M>>,
    pub preset_indices: Vec<u8>,
}

/// `after` (with result `r`) is what `toggle_compare` makes of `before`, given
/// the stored presets `items` and the active slot `active`.
pub open spec fn compare_toggled<C: Clone, M: Clone>(
    before: ConfigSnapshot<C, M>,
    items: Seq<PresetDef<C, M>>,
    active: u8,
    after: ConfigSnapshot<C, M>,
    r: Option<bool>,
) -> bool {
    match before.state.class() {
        StateClass::Dirty => match slot_lookup(items, active) {
            Some(saved) => {
                &&& preset_cloned(saved, after.preset)
                &&& after.stash == Some(before.preset)
                &&& after.state == SnapshotState::Comparing
                &&& after.preset_indices@ == before.preset_indices@
                &&& r == Some(true)
            },
            None => after == before && r is None,
        },
        StateClass::Comparing => {
            &&& after.preset == (match before.stash {
                Some(s) => s,
                None => before.preset,
            })
            &&& after.stash is None
            &&& after.state == SnapshotState::Dirty
            &&& after.preset_indices@ == before.preset_indices@
            &&& r == Some(false)
        },
        StateClass::Clean => after == before && r is None,
    }
}

/// `after` with request `r` is what one persistence step makes of `before`.
pub open spec fn persist_stepped(before: SnapshotState, after: SnapshotState, r: PersistAction) -> bool {
    match before {
        SnapshotState::Dirty => r == PersistAction::WriteFile && after == SnapshotState::DirtyPersisted,
        SnapshotState::Comparing => r == PersistAction::WriteFile && after
            == SnapshotState::ComparingPersisted,
        SnapshotState::Clean => r == PersistAction::RemoveFile && after == SnapshotState::Clean,
        _ => r == PersistAction::Nothing && after == before,
    }
}

impl<C, M> ConfigSnapshot<C, M> {
    /// The snapshot at startup without a saved state file: the active preset
    /// (cloned) in state `Clean`, or `empty` in state `Dirty` when no preset
    /// is active.
    pub fn build(presets: &PresetDefs<C, M>, empty: PresetDef<C, M>) -> (r: Self)
        where
            C: Clone,
            M: Clone,
        ensures
            r.preset_indices@ == indices_of(presets.items@),
            r.stash is None,
            match slot_lookup(presets.items@, presets.active) {
                Some(p) => preset_cloned(p, r.preset) && r.state == SnapshotState::Clean,
                None => r.preset == empty && r.state == SnapshotState::Dirty,
            },
    {
        let preset_indices = presets.indices();
        match presets.active_entry() {
            Some(preset) => ConfigSnapshot {
                state: SnapshotState::Clean,
                preset: preset.clone(),
                stash: None,
                preset_indices,
            },
            None => ConfigSnapshot {
                state: SnapshotState::Dirty,
                preset: empty,
                stash: None,
                preset_indices,
            },
        }
    }

    /// Load `preset` with the given state; any compare stash is dropped.
    pub fn load_preset(&mut self, preset: PresetDef<C, M>, state: SnapshotState)
        ensures
            final(self).stash is None,
            final(self).preset == preset,
            final(self).state == state,
            final(self).preset_indices@ == old(self).preset_indices@,
    {
        self.stash = None;
        self.preset = preset;
        self.state = state;
    }

    /// Set the state. Returns whether its class (and so its label) changed.
    pub fn set_state(&mut self, state: SnapshotState) -> (r: bool)
        ensures
            final(self).state == state,
            final(self).preset == old(self).preset,
            final(self).stash == old(self).stash,
            final(self).preset_indices@ == old(self).preset_indices@,
            r == (state.class() != old(self).state.class()),
    {
        let changed_state = match state {
            SnapshotState::Clean | SnapshotState::CleanPersisted => !matches!(
                self.state,
                SnapshotState::Clean | SnapshotState::CleanPersisted
            ),
            SnapshotState::Dirty | SnapshotState::DirtyPersisted => !matches!(
                self.state,
                SnapshotState::Dirty | SnapshotState::DirtyPersisted
            ),
            SnapshotState::Comparing | SnapshotState::ComparingPersisted => !matches!(
                self.state,
                SnapshotState::Comparing | SnapshotState::ComparingPersisted
            ),
        };
        self.state = state;
        changed_state
    }

    /// Move the loaded preset to slot `slot`; any compare stash is dropped.
    pub fn set_to_slot(&mut self, slot: u8)
        ensures
            final(self).preset.index == slot,
            final(self).preset.chains == old(self).preset.chains,
            final(self).preset.controllers@ == old(self).preset.controllers@,
            final(self).stash is None,
            final(self).state == old(self).state,
            final(self).preset_indices@ == old(self).preset_indices@,
    {
        self.preset.index = slot;
        self.stash = None;
    }

    /// A parameter of the loaded preset changed: while comparing, the stash
    /// no longer matters and is dropped.
    pub fn discard_stash_if_comparing(&mut self)
        ensures
            final(self).stash == (if old(self).state.class() == StateClass::Comparing {
                None
            } else {
                old(self).stash
            }),
            final(self).preset == old(self).preset,
            final(self).state == old(self).state,
            final(self).preset_indices@ == old(self).preset_indices@,
    {
        if matches!(self.state, SnapshotState::Comparing | SnapshotState::ComparingPersisted) {
            self.stash = None;
        }
    }

    /// Toggle compare mode. From `Dirty` (with an active saved preset) the
    /// working preset is stashed and the saved one loaded (`Some(true)`);
    /// from `Comparing` the stash is restored and the state is `Dirty`
    /// (`Some(false)`); otherwise nothing happens (`None`).
    pub fn toggle_compare(&mut self, presets: &PresetDefs<C, M>) -> (r: Option<bool>)
        where
            C: Clone,
            M: Clone,
        ensures
            compare_toggled(*old(self), presets.items@, presets.active, *final(self), r),
    {
        match self.state {
            SnapshotState::Dirty | SnapshotState::DirtyPersisted => {
                match presets.active_entry() {
                    Some(p) => {
                        let mut dirty = p.clone();
                        std::mem::swap(&mut dirty, &mut self.preset);
                        self.stash = Some(dirty);
                        self.state = SnapshotState::Comparing;
                        Some(true)
                    },
                    None => None,
                }
            },
            SnapshotState::Comparing | SnapshotState::ComparingPersisted => {
                let mut stashed: Option<PresetDef<C, M>> = None;
                std::mem::swap(&mut stashed, &mut self.stash);
                if let Some(s) = stashed {
                    self.preset = s;
                }
                self.state = SnapshotState::Dirty;
                Some(false)
            },
            _ => None,
        }
    }

    /// First half of persisting the snapshot. `Dirty` and `Comparing` move to
    /// their persisted state and ask for the file to be written; `Clean` asks
    /// for the file to be removed (the state moves on in `mark_file_removed`);
    /// already persisted states ask for nothing.
    pub fn persist_step(&mut self) -> (r: PersistAction)
        ensures
            final(self).preset == old(self).preset,
            final(self).stash == old(self).stash,
            final(self).preset_indices@ == old(self).preset_indices@,
            persist_stepped(old(self).state, final(self).state, r),
    {
        match self.state {
            SnapshotState::Dirty => {
                self.state = SnapshotState::DirtyPersisted;
                PersistAction::WriteFile
            },
            SnapshotState::Comparing => {
                self.state = SnapshotState::ComparingPersisted;
                PersistAction::WriteFile
            },
            SnapshotState::Clean => PersistAction::RemoveFile,
            _ => PersistAction::Nothing,
        }
    }

    /// Second half of persisting a `Clean` snapshot: the state file is gone.
    pub fn mark_file_removed(&mut self)
        ensures
            final(self).state == SnapshotState::CleanPersisted,
            final(self).preset == old(self).preset,
            final(self).stash == old(self).stash,
            final(self).preset_indices@ == old(self).preset_indices@,
    {
        self.state = SnapshotState::CleanPersisted;
    }
}

/// What saving the loaded preset changed, for the notifications.
#[derive(Debug, Clone, Copy, PartialEq, Eq, Structural)]
pub struct SaveOutcome {
    /// The state's label changed (it is now `Clean`).
    pub state_changed: bool,
    /// The list of occupied slots changed.
    pub indices_changed: bool,
}

fn same_bytes(a: &Vec<u8>, b: &Vec<u8>) -> (r: bool)
    ensures
        r == (a@ == b@),
{
    if a.len() != b.len() {
        return false;
    }
    let mut i: usize = 0;
    while i < a.len()
        invariant
            i <= a@.len(),
            a@.len() == b@.len(),
            forall|k: int| 0 <= k < i ==> a@[k] == b@[k],
        decreases a.len() - i,
    {
        if a[i] != b[i] {
            return false;
        }
        i = i + 1;
    }
    assert(a@ =~= b@);
    true
}

impl<C, M> ConfigSnapshot<C, M> {
    /// Save the loaded preset into slot `slot` and make that slot active; the
    /// snapshot becomes `Clean`.
    pub fn save_preset(&mut self, presets: &mut PresetDefs<C, M>, slot: u8) -> (r: SaveOutcome)
        where
            C: Clone,
            M: Clone,
        ensures
            final(self).preset.index == slot,
            final(self).preset.chains == old(self).preset.chains,
            final(self).preset.controllers@ == old(self).preset.controllers@,
            final(self).stash is None,
            final(self).state == SnapshotState::Clean,
            final(presets).active == slot,
            match slot_lookup(final(presets).items@, slot) {
                Some(p) => preset_cloned(final(self).preset, p),
                None => false,
            },
            final(self).preset_indices@ == indices_of(final(presets).items@),
            r.state_changed == (old(self).state.class() != StateClass::Clean),
            r.indices_changed == (final(self).preset_indices@ != old(self).preset_indices@),
    {
        self.set_to_slot(slot);
        let copy = self.preset.clone();
        let ghost before = presets.items@;
        presets.save_to_slot(copy);
        proof {
            law_save_then_get(before, presets.items@, copy);
        }
        presets.active = slot;
        let indices = presets.indices();
        let indices_changed = !same_bytes(&indices, &self.preset_indices);
        self.preset_indices = indices;
        let state_changed = self.set_state(SnapshotState::Clean);
        SaveOutcome { state_changed, indices_changed }
    }

    /// Delete the preset in slot `slot`. Refused when the slot is empty.
    /// Deleting the active preset loads `empty` in state `Dirty` and leaves
    /// no preset active; the result tells whether that happened.
    pub fn delete_preset(&mut self, presets: &mut PresetDefs<C, M>, slot: u8, empty: PresetDef<C, M>) -> (r:
        Result<bool, String>)
        ensures
            final(presets).items@ == old(presets).items@.filter(
                |p: PresetDef<C, M>| p.index != slot,
            ),
            (r is Err) == !exists|i: int|
                0 <= i < old(presets).items@.len() && old(presets).items@[i].index == slot,
            r is Err ==> r->Err_0@ == "preset not found"@ && *final(self) == *old(self)
                && final(presets).active == old(presets).active,
            r is Ok ==> {
                &&& r->Ok_0 == (slot == old(presets).active)
                &&& final(self).preset_indices@ == indices_of(final(presets).items@)
                &&& r->Ok_0 ==> final(self).preset == empty && final(self).state
                    == SnapshotState::Dirty && final(self).stash is None && final(presets).active
                    == PRESET_NONE
                &&& !r->Ok_0 ==> final(self).preset == old(self).preset && final(self).state
                    == old(self).state && final(self).stash == old(self).stash
                    && final(presets).active == old(presets).active
            },
    {
        if !presets.remove_slot(slot) {
            return Err(String::from_str("preset not found"));
        }
        self.preset_indices = presets.indices();
        if slot == presets.active {
            self.load_preset(empty, SnapshotState::Dirty);
            presets.active = PRESET_NONE;
            Ok(true)
        } else {
            Ok(false)
        }
    }
}

/// Comparing and toggling back restores the working preset exactly: from a
/// dirty snapshot with an active saved preset, two toggles give back the
/// edited working preset in state `Dirty`, with no stash left.
pub proof fn law_compare_round_trip<C: Clone, M: Clone>(
    s0: ConfigSnapshot<C, M>,
    s1: ConfigSnapshot<C, M>,
    s2: ConfigSnapshot<C, M>,
    items: Seq<PresetDef<C, M>>,
    active: u8,
    r1: Option<bool>,
    r2: Option<bool>,
)
    requires
        s0.state.class() == StateClass::Dirty,
        slot_lookup(items, active) is Some,
        compare_toggled(s0, items, active, s1, r1),
        compare_toggled(s1, items, active, s2, r2),
    ensures
        r1 == Some(true),
        r2 == Some(false),
        s2.preset == s0.preset,
        s2.stash is None,
        s2.state == SnapshotState::Dirty,
        s2.preset_indices@ == s0.preset_indices@,
{
}

/// Once written, a snapshot is not written again: a write step leaves a
/// persisted state with the same label, and the step after it asks for
/// nothing. A step never changes the label.
pub proof fn law_persist_settles(
    s0: SnapshotState,
    s1: SnapshotState,
    s2: SnapshotState,
    r1: PersistAction,
    r2: PersistAction,
)
    requires
        persist_stepped(s0, s1, r1),
        persist_stepped(s1, s2, r2),
    ensures
        s1.class() == s0.class(),
        r1 == PersistAction::WriteFile ==> r2 == PersistAction::Nothing && s2 == s1,
        r1 == PersistAction::Nothing ==> r2 == PersistAction::Nothing,
{
}

} // verus!
