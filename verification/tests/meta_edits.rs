use multi_effect::device::MetaAspect;
use multi_effect::meta_edit::{plan_meta_edit, AnnounceAs, AspectChange, MetaEditError};

fn change(aspect: MetaAspect, changed: bool, equals_request: bool) -> AspectChange {
    AspectChange { aspect, changed, equals_request }
}

#[test]
fn growing_a_fixed_bound_needs_confirmation() {
    let changes = vec![change(MetaAspect::Max, true, true)];
    assert_eq!(
        plan_meta_edit(MetaAspect::Max, true, false, &changes, true),
        Err(MetaEditError::ConfirmRequired)
    );
    let plan = plan_meta_edit(MetaAspect::Max, true, true, &changes, true).unwrap();
    assert!(plan.schedule_reload);
}

#[test]
fn requested_aspect_is_announced_as_the_requester() {
    let changes = vec![
        change(MetaAspect::Min, false, false),
        change(MetaAspect::Max, true, true),
        change(MetaAspect::Default, true, false),
    ];
    let plan = plan_meta_edit(MetaAspect::Max, false, false, &changes, false).unwrap();
    assert_eq!(plan.announce, vec![None, Some(AnnounceAs::Requester), Some(AnnounceAs::Master)]);
    assert!(!plan.reapply_current);
    assert!(plan.push_default);
    assert!(!plan.schedule_reload);
}

#[test]
fn clamped_request_is_announced_as_the_master() {
    let changes = vec![change(MetaAspect::Max, true, false), change(MetaAspect::Default, false, false)];
    let plan = plan_meta_edit(MetaAspect::Max, false, false, &changes, true).unwrap();
    assert_eq!(plan.announce, vec![Some(AnnounceAs::Master), None]);
    assert!(plan.reapply_current);
    assert!(!plan.push_default);
}
