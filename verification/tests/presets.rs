use multi_effect::mapping::ControllerDef;
use multi_effect::preset::{PresetDef, PresetDefs, PRESET_NONE};
use multi_effect::snapshot::{ConfigSnapshot, PersistAction, SnapshotState};

type Preset = PresetDef<String, u32>;

fn preset(index: u8, chains: &str, devices: &[&str]) -> Preset {
    PresetDef {
        index,
        chains: chains.to_string(),
        controllers: devices
            .iter()
            .map(|d| ControllerDef { device: d.to_string(), mappings: 0 })
            .collect(),
    }
}

fn devices(p: &Preset) -> Vec<String> {
    p.controllers.iter().map(|c| c.device.clone()).collect()
}

#[test]
fn empty_collection_has_no_active_preset() {
    let ps: PresetDefs<String, u32> = PresetDefs::new();
    assert_eq!(ps.active, PRESET_NONE);
    assert_eq!(PresetDefs::<String, u32>::default_active(), 255);
    assert!(ps.active_entry().is_none());
    assert!(ps.indices().is_empty());
}

#[test]
fn save_then_get_returns_the_saved_preset() {
    let mut ps: PresetDefs<String, u32> = PresetDefs::new();
    ps.save_to_slot(preset(3, "a", &[]));
    ps.save_to_slot(preset(1, "b", &[]));
    ps.save_to_slot(preset(3, "c", &[]));
    assert_eq!(ps.indices(), vec![3, 1]);
    assert_eq!(ps.get(3).unwrap().chains, "c");
    assert_eq!(ps.get(1).unwrap().chains, "b");
    assert!(ps.get(2).is_none());
}

#[test]
fn saving_leaves_other_slots_alone() {
    let mut ps: PresetDefs<String, u32> = PresetDefs::new();
    ps.save_to_slot(preset(1, "one", &[]));
    ps.save_to_slot(preset(2, "two", &[]));
    ps.active = 1;
    ps.save_to_slot(preset(2, "new", &[]));
    assert_eq!(ps.items.len(), 2);
    assert_eq!(ps.get(1).unwrap().chains, "one");
    ps.save_to_slot(preset(7, "seven", &[]));
    assert_eq!(ps.items.len(), 3);
    assert_eq!(ps.get(1).unwrap().chains, "one");
    assert_eq!(ps.get(2).unwrap().chains, "new");
    assert_eq!(ps.active, 1);
}

#[test]
fn remove_slot_reports_whether_it_existed() {
    let mut ps: PresetDefs<String, u32> = PresetDefs::new();
    ps.save_to_slot(preset(3, "a", &[]));
    ps.save_to_slot(preset(4, "b", &[]));
    assert!(ps.remove_slot(3));
    assert!(!ps.remove_slot(3));
    assert_eq!(ps.indices(), vec![4]);
    assert!(ps.get(3).is_none());
}

#[test]
fn devices_are_removed_and_renamed_in_every_preset() {
    let mut ps: PresetDefs<String, u32> = PresetDefs::new();
    ps.save_to_slot(preset(1, "a", &["net-1", "midi"]));
    ps.save_to_slot(preset(2, "b", &["midi", "net-1"]));
    ps.rename_device("midi", "keys");
    assert_eq!(devices(ps.get(1).unwrap()), vec!["net-1", "keys"]);
    ps.remove_device("net-1");
    assert_eq!(devices(ps.get(1).unwrap()), vec!["keys"]);
    assert_eq!(devices(ps.get(2).unwrap()), vec!["keys"]);
}

fn stored() -> PresetDefs<String, u32> {
    let mut ps: PresetDefs<String, u32> = PresetDefs::new();
    ps.save_to_slot(preset(2, "saved", &[]));
    ps.active = 2;
    ps
}

#[test]
fn snapshot_starts_from_the_active_preset() {
    let ps = stored();
    let snap = ConfigSnapshot::build(&ps, preset(PRESET_NONE, "empty", &[]));
    assert_eq!(snap.state, SnapshotState::Clean);
    assert_eq!(snap.preset.chains, "saved");
    assert_eq!(snap.preset_indices, vec![2]);
    let none: PresetDefs<String, u32> = PresetDefs::new();
    let blank = ConfigSnapshot::build(&none, preset(PRESET_NONE, "empty", &[]));
    assert_eq!(blank.state, SnapshotState::Dirty);
    assert_eq!(blank.preset.chains, "empty");
}

#[test]
fn compare_round_trip_restores_the_edit() {
    let ps = stored();
    let mut snap = ConfigSnapshot::build(&ps, preset(PRESET_NONE, "empty", &[]));
    snap.load_preset(preset(2, "edited", &[]), SnapshotState::Dirty);
    assert_eq!(snap.toggle_compare(&ps), Some(true));
    assert_eq!(snap.state, SnapshotState::Comparing);
    assert_eq!(snap.preset.chains, "saved");
    assert_eq!(snap.toggle_compare(&ps), Some(false));
    assert_eq!(snap.state, SnapshotState::Dirty);
    assert_eq!(snap.preset.chains, "edited");
    assert!(snap.stash.is_none());
}

#[test]
fn compare_does_nothing_when_clean() {
    let ps = stored();
    let mut snap = ConfigSnapshot::build(&ps, preset(PRESET_NONE, "empty", &[]));
    assert_eq!(snap.toggle_compare(&ps), None);
    assert_eq!(snap.state, SnapshotState::Clean);
}

#[test]
fn editing_while_comparing_drops_the_stash() {
    let ps = stored();
    let mut snap = ConfigSnapshot::build(&ps, preset(PRESET_NONE, "empty", &[]));
    snap.set_state(SnapshotState::Dirty);
    snap.toggle_compare(&ps);
    snap.discard_stash_if_comparing();
    assert!(snap.stash.is_none());
}

#[test]
fn state_changes_report_class_changes() {
    let ps = stored();
    let mut snap = ConfigSnapshot::build(&ps, preset(PRESET_NONE, "empty", &[]));
    assert!(snap.set_state(SnapshotState::Dirty));
    assert!(!snap.set_state(SnapshotState::DirtyPersisted));
    assert!(snap.set_state(SnapshotState::CleanPersisted));
    snap.set_to_slot(9);
    assert_eq!(snap.preset.index, 9);
}

#[test]
fn persisting_settles() {
    let ps = stored();
    let mut snap = ConfigSnapshot::build(&ps, preset(PRESET_NONE, "empty", &[]));
    snap.set_state(SnapshotState::Dirty);
    assert_eq!(snap.persist_step(), PersistAction::WriteFile);
    assert_eq!(snap.state, SnapshotState::DirtyPersisted);
    assert_eq!(snap.persist_step(), PersistAction::Nothing);
    snap.set_state(SnapshotState::Clean);
    assert_eq!(snap.persist_step(), PersistAction::RemoveFile);
    snap.mark_file_removed();
    assert_eq!(snap.state, SnapshotState::CleanPersisted);
    assert_eq!(snap.persist_step(), PersistAction::Nothing);
}

#[test]
fn saving_makes_the_slot_active_and_clean() {
    let mut ps = stored();
    let mut snap = ConfigSnapshot::build(&ps, preset(PRESET_NONE, "empty", &[]));
    snap.load_preset(preset(2, "edited", &[]), SnapshotState::Dirty);
    let out = snap.save_preset(&mut ps, 5);
    assert!(out.state_changed);
    assert!(out.indices_changed);
    assert_eq!(snap.state, SnapshotState::Clean);
    assert_eq!(ps.active, 5);
    assert_eq!(ps.get(5).unwrap().chains, "edited");
    assert_eq!(snap.preset_indices, vec![2, 5]);
    let again = snap.save_preset(&mut ps, 5);
    assert!(!again.state_changed);
    assert!(!again.indices_changed);
}

#[test]
fn deleting_the_active_preset_unloads_it() {
    let mut ps = stored();
    let mut snap = ConfigSnapshot::build(&ps, preset(PRESET_NONE, "empty", &[]));
    assert_eq!(snap.delete_preset(&mut ps, 7, preset(PRESET_NONE, "empty", &[])).unwrap_err(), "preset not found");
    assert_eq!(snap.delete_preset(&mut ps, 2, preset(PRESET_NONE, "empty", &[])), Ok(true));
    assert_eq!(ps.active, PRESET_NONE);
    assert_eq!(snap.state, SnapshotState::Dirty);
    assert_eq!(snap.preset.chains, "empty");
    assert!(snap.preset_indices.is_empty());
}
