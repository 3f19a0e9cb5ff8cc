use template_ir::flags::{HelperCollector, PatchFlag, RuntimeHelper, SlotFlag, StaticLevel};
use template_ir::optimize::{classify_slot, compute_patch_flag, static_level, DynamicInfo, SlotInfo};
use template_ir::transform::{plan_element, stringify_eligible, ChildNode};
use StaticLevel::{CanHoist, CanSkipPatch, CanStringify, NotStatic};

fn none() -> DynamicInfo {
    DynamicInfo {
        text: false,
        class: false,
        style: false,
        props: false,
        dynamic_keys: false,
        hydrate_events: false,
        stable_fragment: false,
        keyed_fragment: false,
        unkeyed_fragment: false,
        need_patch: false,
        dynamic_slots: false,
        dev_root_fragment: false,
        bail: false,
    }
}

#[test]
fn static_level_is_min_of_children() {
    assert_eq!(static_level(false, CanStringify, &[CanHoist, CanSkipPatch]), CanSkipPatch);
    assert_eq!(static_level(false, CanHoist, &[CanStringify]), CanHoist);
    assert_eq!(static_level(false, CanStringify, &[]), CanStringify);
    let kids = [CanStringify, NotStatic, CanHoist];
    let l = static_level(false, CanStringify, &kids);
    for k in kids.iter() {
        assert!(l.rank_of() <= k.rank_of());
    }
}

#[test]
fn dynamic_binding_forces_not_static() {
    assert_eq!(static_level(true, CanStringify, &[CanStringify, CanStringify]), NotStatic);
}

#[test]
fn level_order_and_hoisting() {
    assert_eq!(StaticLevel::CanHoist.min_level(StaticLevel::CanSkipPatch), StaticLevel::CanSkipPatch);
    assert!(StaticLevel::CanStringify.can_hoist());
    assert!(StaticLevel::CanHoist.can_hoist());
    assert!(!StaticLevel::CanSkipPatch.can_hoist());
    assert_eq!(StaticLevel::NotStatic.rank_of(), 0);
    assert_eq!(StaticLevel::CanStringify.rank_of(), 3);
}

#[test]
fn patch_flag_bits_combine() {
    let mut i = none();
    i.text = true;
    i.class = true;
    i.hydrate_events = true;
    let f = compute_patch_flag(&i, StaticLevel::NotStatic, false);
    assert_eq!(f, PatchFlag::Dynamic(1 | 2 | 32));
    assert_eq!(f.value(), 35);
    assert!(f.contains(PatchFlag::TEXT));
    assert!(!f.contains(PatchFlag::STYLE));
}

#[test]
fn dynamic_keys_force_full_props_alone() {
    let mut i = none();
    i.class = true;
    i.style = true;
    i.props = true;
    i.dynamic_keys = true;
    let f = compute_patch_flag(&i, StaticLevel::NotStatic, true);
    assert_eq!(f.value(), 16);
    assert!(f.contains(PatchFlag::FULL_PROPS));
    assert!(!f.contains(PatchFlag::CLASS));
    assert!(!f.contains(PatchFlag::STYLE));
    assert!(!f.contains(PatchFlag::PROPS));
}

#[test]
fn hoisted_and_bail_markers() {
    let f = compute_patch_flag(&none(), StaticLevel::CanHoist, false);
    assert_eq!(f, PatchFlag::Hoisted);
    assert_eq!(f.value(), -1);
    let mut i = none();
    i.bail = true;
    i.text = true;
    let b = compute_patch_flag(&i, StaticLevel::NotStatic, false);
    assert_eq!(b, PatchFlag::Bail);
    assert_eq!(b.value(), -2);
    assert!(!b.contains(PatchFlag::TEXT));
}

#[test]
fn negative_values_are_only_markers() {
    let mut i = none();
    i.text = true;
    i.keyed_fragment = true;
    for level in [StaticLevel::NotStatic, StaticLevel::CanSkipPatch, StaticLevel::CanHoist] {
        for bail in [false, true] {
            i.bail = bail;
            let v = compute_patch_flag(&i, level, true).value();
            assert!(v >= 0 || v == -1 || v == -2);
        }
    }
}

#[test]
fn dev_root_fragment_only_in_dev() {
    let mut i = none();
    i.dev_root_fragment = true;
    i.stable_fragment = true;
    assert_eq!(compute_patch_flag(&i, StaticLevel::NotStatic, true).value(), 64 | 2048);
    assert_eq!(compute_patch_flag(&i, StaticLevel::NotStatic, false).value(), 64);
}

#[test]
fn patch_flag_from_value() {
    assert_eq!(PatchFlag::from_value(-1), Some(PatchFlag::Hoisted));
    assert_eq!(PatchFlag::from_value(-2), Some(PatchFlag::Bail));
    assert_eq!(PatchFlag::from_value(-3), None);
    assert_eq!(PatchFlag::from_value(17), Some(PatchFlag::Dynamic(17)));
    assert_eq!(PatchFlag::from_value(18), None);
    assert_eq!(PatchFlag::from_value(4096), None);
}

#[test]
fn slot_flags() {
    let stable = SlotInfo { reads_scope: false, conditional: false, forwards_slot: false };
    assert_eq!(classify_slot(&stable), SlotFlag::Stable);
    let in_loop = SlotInfo { reads_scope: true, conditional: true, forwards_slot: false };
    assert_eq!(classify_slot(&in_loop), SlotFlag::Dynamic);
    let forwarded = SlotInfo { reads_scope: false, conditional: false, forwards_slot: true };
    assert_eq!(classify_slot(&forwarded), SlotFlag::Forwarded);
    assert_eq!(SlotFlag::Stable.value(), 1);
    assert_eq!(SlotFlag::Dynamic.value(), 2);
    assert_eq!(SlotFlag::Forwarded.value(), 3);
}

#[test]
fn container_with_static_and_interpolated_text() {
    let mut helpers = HelperCollector::new();
    let (span, span_kids) = plan_element(&none(), &[ChildNode::Text], false, &mut helpers);
    assert_eq!(span.level, StaticLevel::CanStringify);
    assert!(span.level.can_hoist());
    assert_eq!(span.flag, PatchFlag::Hoisted);
    assert_eq!(span_kids.len(), 1);

    let (div, kids) = plan_element(
        &none(),
        &[ChildNode::Text, ChildNode::Interpolation, ChildNode::Element(span)],
        false,
        &mut helpers,
    );
    assert_eq!(div.level, StaticLevel::NotStatic);
    assert_eq!(kids[1].flag, PatchFlag::Dynamic(PatchFlag::TEXT));
    assert!(kids[1].flag.contains(PatchFlag::TEXT));
    assert_eq!(kids[0].level, StaticLevel::CanStringify);
    assert_eq!(kids[2].level, StaticLevel::CanStringify);
    assert!(helpers.contains(RuntimeHelper::new(RuntimeHelper::CREATE_ELEMENT_VNODE)));
    assert!(helpers.contains(RuntimeHelper::new(RuntimeHelper::TO_DISPLAY_STRING)));
    assert!(!helpers.contains(RuntimeHelper::new(RuntimeHelper::RENDER_LIST)));
}

#[test]
fn element_with_own_binding_is_not_static() {
    let mut helpers = HelperCollector::new();
    let mut own = none();
    own.class = true;
    let (p, _) = plan_element(&own, &[ChildNode::Text], false, &mut helpers);
    assert_eq!(p.level, StaticLevel::NotStatic);
    assert_eq!(p.flag.value(), 2);
}

#[test]
fn stringify_needs_top_level_and_threshold() {
    assert!(stringify_eligible(CanStringify, 20, 20));
    assert!(!stringify_eligible(CanStringify, 19, 20));
    assert!(!stringify_eligible(CanHoist, 50, 20));
}

#[test]
fn default_patch_flag_has_no_bits() {
    assert_eq!(PatchFlag::default(), PatchFlag::Dynamic(0));
    assert_eq!(PatchFlag::default().value(), 0);
}

#[test]
fn text_children_with_interpolation_set_text() {
    let mut helpers = HelperCollector::new();
    let (p, _) = plan_element(&none(), &[ChildNode::Text, ChildNode::Interpolation], false, &mut helpers);
    assert_eq!(p.level, StaticLevel::NotStatic);
    assert_eq!(p.flag, PatchFlag::Dynamic(PatchFlag::TEXT));
    let (q, _) = plan_element(&none(), &[ChildNode::Text], false, &mut helpers);
    assert_eq!(q.flag, PatchFlag::Hoisted);
}
